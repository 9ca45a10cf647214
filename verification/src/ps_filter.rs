//! Which sessions `nono ps` lists.

use vstd::prelude::*;

use crate::cli::{PsArgs, PsStatusFilter};
use crate::duration;
use crate::error;
use crate::error::{ErrorView, NonoError};
use crate::session::{SessionRecord, SessionStatus};
use crate::text;

verus! {

/// The status that a status filter stands for.
pub open spec fn wanted_status(filter: PsStatusFilter) -> SessionStatus {
    match filter {
        PsStatusFilter::Running => SessionStatus::Running,
        PsStatusFilter::Paused => SessionStatus::Paused,
        PsStatusFilter::Exited => SessionStatus::Exited,
    }
}

/// The status filter. `--status` pins one status; else exited sessions are hidden, unless all are
/// asked for, or those with an exit code.
pub open spec fn status_passes(s: SessionRecord, args: PsArgs) -> bool {
    match args.status {
        Some(filter) => s.status == wanted_status(filter),
        None => args.exit_code is Some || args.all || s.status != SessionStatus::Exited,
    }
}

/// The exit code filter: the session has exited with exactly the wanted code.
pub open spec fn exit_code_passes(s: SessionRecord, args: PsArgs) -> bool {
    args.exit_code is Some ==> s.status == SessionStatus::Exited && s.exit_code == args.exit_code
}

/// The name filter: the name has the pattern in it, whatever the case. A session without a name
/// does not pass.
pub open spec fn name_passes(s: SessionRecord, args: PsArgs) -> bool {
    match args.name {
        None => true,
        Some(pattern) => match s.name {
            Some(name) => text::has_substring(text::lowered(name@), text::lowered(pattern@)),
            None => false,
        },
    }
}

/// The profile filter: the profile is exactly the wanted one.
pub open spec fn profile_passes(s: SessionRecord, args: PsArgs) -> bool {
    args.profile is Some ==> text::opt_text(s.profile) == text::opt_text(args.profile)
}

/// The age filter: the session was not started before the threshold.
pub open spec fn since_passes(s: SessionRecord, threshold: Option<u64>) -> bool {
    threshold matches Some(t) ==> s.started_epoch >= t
}

/// A session is listed when it passes every filter.
pub open spec fn is_listed(s: SessionRecord, args: PsArgs, threshold: Option<u64>) -> bool {
    &&& status_passes(s, args)
    &&& exit_code_passes(s, args)
    &&& name_passes(s, args)
    &&& profile_passes(s, args)
    &&& since_passes(s, threshold)
}

/// Whether a lowered name passes a lowered pattern.
pub fn lowered_name_passes(name: &Option<String>, pattern: &Option<String>) -> (passes: bool)
    ensures
        passes == match (*name, *pattern) {
            (_, None) => true,
            (Some(n), Some(p)) => text::has_substring(n@, p@),
            (None, Some(_)) => false,
        },
{
    match (name, pattern) {
        (_, None) => true,
        (Some(n), Some(p)) => text::contains_text(n.as_str(), p.as_str()),
        (None, Some(_)) => false,
    }
}

fn lower_option(o: &Option<String>) -> (out: Option<String>)
    ensures
        match (*o, out) {
            (Some(s), Some(l)) => l@ == text::lowered(s@),
            (None, None) => true,
            _ => false,
        },
{
    match o {
        Some(s) => Some(text::lower(s.as_str())),
        None => None,
    }
}

/// Decides whether a session passes the filters.
///
/// Filters compose as AND: a session must satisfy every flag the user supplied.
pub fn ps_matches(s: &SessionRecord, args: &PsArgs, since_threshold: Option<u64>) -> (listed: bool)
    ensures
        listed == is_listed(*s, *args, since_threshold),
{
    let status_ok = match args.status {
        Some(PsStatusFilter::Running) => s.status == SessionStatus::Running,
        Some(PsStatusFilter::Paused) => s.status == SessionStatus::Paused,
        Some(PsStatusFilter::Exited) => s.status == SessionStatus::Exited,
        None => args.exit_code.is_some() || args.all || s.status != SessionStatus::Exited,
    };
    if !status_ok {
        return false;
    }
    if let Some(target) = args.exit_code {
        if s.status != SessionStatus::Exited {
            return false;
        }
        match s.exit_code {
            Some(code) => {
                if code != target {
                    return false;
                }
            },
            None => return false,
        }
    }
    if args.name.is_some() {
        let name = lower_option(&s.name);
        let needle = lower_option(&args.name);
        if !lowered_name_passes(&name, &needle) {
            return false;
        }
    }
    if let Some(wanted) = &args.profile {
        match &s.profile {
            Some(profile) => {
                if *profile != *wanted {
                    return false;
                }
            },
            None => return false,
        }
    }
    if let Some(threshold) = since_threshold {
        if s.started_epoch < threshold {
            return false;
        }
    }
    true
}

/// The earliest start that `--since` admits: that long before now, but not before the epoch.
pub open spec fn since_limit(since: Option<String>, now: u64) -> Result<Option<u64>, ErrorView> {
    match since {
        None => Ok(None),
        Some(input) => match duration::duration_seconds(input@) {
            Err(e) => Err(e),
            Ok(secs) => Ok(
                Some(
                    if secs <= now {
                        (now - secs) as u64
                    } else {
                        0
                    },
                ),
            ),
        },
    }
}

/// Turns `--since` into a threshold, `now` being in seconds since the epoch.
pub fn since_threshold(since: &Option<String>, now: u64) -> (r: Result<Option<u64>, NonoError>)
    ensures
        match r {
            Ok(t) => since_limit(*since, now) == Ok::<Option<u64>, ErrorView>(t),
            Err(e) => since_limit(*since, now) == Err::<Option<u64>, ErrorView>(e@),
        },
{
    match since {
        None => Ok(None),
        Some(input) => match duration::parse_duration_to_secs(input.as_str()) {
            Err(e) => Err(e),
            Ok(secs) => Ok(Some(now.saturating_sub(secs))),
        },
    }
}

/// The records that a list of references stands for.
pub open spec fn records_of(list: Seq<&SessionRecord>) -> Seq<SessionRecord> {
    Seq::new(list.len(), |i: int| *list[i])
}

/// The sessions that pass the filters, in their order.
pub open spec fn listed(
    sessions: Seq<SessionRecord>,
    args: PsArgs,
    threshold: Option<u64>,
) -> Seq<SessionRecord> {
    sessions.filter(|s: SessionRecord| is_listed(s, args, threshold))
}

/// Keeps the sessions that pass the filters, in their order.
pub fn filter_sessions<'a>(
    sessions: &'a Vec<SessionRecord>,
    args: &PsArgs,
    since_threshold: Option<u64>,
) -> (out: Vec<&'a SessionRecord>)
    ensures
        records_of(out@) == listed(sessions@, *args, since_threshold),
{
    let ghost p = |s: SessionRecord| is_listed(s, *args, since_threshold);
    let mut out: Vec<&'a SessionRecord> = Vec::new();
    let mut i: usize = 0;
    proof {
        reveal(Seq::filter);
        assert(records_of(out@) =~= sessions@.take(0).filter(p));
    }
    while i < sessions.len()
        invariant
            i <= sessions.len(),
            p == (|s: SessionRecord| is_listed(s, *args, since_threshold)),
            records_of(out@) == sessions@.take(i as int).filter(p),
        decreases sessions.len() - i,
    {
        let ghost before = out@;
        proof {
            reveal(Seq::filter);
            assert(sessions@.take(i + 1).drop_last() =~= sessions@.take(i as int));
        }
        if ps_matches(&sessions[i], args, since_threshold) {
            out.push(&sessions[i]);
            assert(records_of(out@) =~= records_of(before).push(sessions@[i as int]));
        }
        i += 1;
    }
    assert(sessions@.take(sessions@.len() as int) =~= sessions@);
    out
}

/// Asking for an exit code lists exited sessions whether or not all are asked for.
pub proof fn law_exit_code_needs_no_all(
    s: SessionRecord,
    args: PsArgs,
    all: bool,
    threshold: Option<u64>,
)
    requires
        args.exit_code is Some,
    ensures
        is_listed(s, args, threshold) == is_listed(s, PsArgs { all, ..args }, threshold),
        is_listed(s, args, threshold) ==> s.status == SessionStatus::Exited,
{
}

/// With a status filter only sessions with that status are listed, whatever else is asked for.
pub proof fn law_status_filter_is_never_ignored(
    s: SessionRecord,
    args: PsArgs,
    threshold: Option<u64>,
)
    requires
        args.status is Some,
        is_listed(s, args, threshold),
    ensures
        s.status == wanted_status(args.status->0),
{
}

/// Without any flag exactly the exited sessions are hidden.
pub proof fn law_default_hides_exited(s: SessionRecord, args: PsArgs)
    requires
        args.exit_code is None,
        args.status is None,
        !args.all,
        args.name is None,
        args.profile is None,
    ensures
        is_listed(s, args, None) == (s.status != SessionStatus::Exited),
{
}

/// One more filter never lists more: what passes with a status, an exit code, a name, a profile
/// and a threshold passes without them, when all sessions are asked for.
pub proof fn law_filters_only_narrow(s: SessionRecord, args: PsArgs, threshold: Option<u64>)
    requires
        is_listed(s, args, threshold),
    ensures
        is_listed(s, PsArgs { status: None, all: true, ..args }, threshold),
        is_listed(s, PsArgs { exit_code: None, all: true, ..args }, threshold),
        is_listed(s, PsArgs { name: None, ..args }, threshold),
        is_listed(s, PsArgs { profile: None, ..args }, threshold),
        is_listed(s, args, None),
{
}

/// The name filter does not see the difference between patterns that are the same in lower case.
pub proof fn law_name_filter_ignores_case(
    s: SessionRecord,
    args: PsArgs,
    other: String,
    threshold: Option<u64>,
)
    requires
        args.name matches Some(pattern) && text::lowered(pattern@) == text::lowered(other@),
    ensures
        is_listed(s, args, threshold) == is_listed(
            s,
            PsArgs { name: Some(other), ..args },
            threshold,
        ),
{
}

/// The flags without any filter.
pub open spec fn unfiltered(args: PsArgs) -> PsArgs {
    PsArgs { all: true, status: None, exit_code: None, name: None, profile: None, ..args }
}

/// Filters compose as AND: a session is listed exactly when each of the filters lists it alone.
/// The status filter alone is the status, or what hides exited sessions where no exit code is
/// asked for.
pub proof fn law_filters_compose_as_and(s: SessionRecord, args: PsArgs, threshold: Option<u64>)
    ensures
        is_listed(s, args, threshold) == {
            let none = unfiltered(args);
            &&& is_listed(
                s,
                PsArgs { status: args.status, all: args.all || args.exit_code is Some, ..none },
                None,
            )
            &&& is_listed(s, PsArgs { exit_code: args.exit_code, ..none }, None)
            &&& is_listed(s, PsArgs { name: args.name, ..none }, None)
            &&& is_listed(s, PsArgs { profile: args.profile, ..none }, None)
            &&& is_listed(s, none, threshold)
        },
{
}

/// The error for a clock that stands before the epoch.
pub fn clock_before_epoch(reason: &str) -> (e: NonoError)
    ensures
        e@ == ErrorView::ConfigParse("system time before UNIX epoch: "@ + reason@),
{
    let mut m = "system time before UNIX epoch: ".to_owned();
    m.append(reason);
    NonoError::ConfigParse(m)
}

/// Each status filter alone lists exactly the sessions with the status that it names.
pub proof fn law_status_filter_lists_its_status(s: SessionRecord, args: PsArgs)
    requires
        args.exit_code is None,
        args.name is None,
        args.profile is None,
    ensures
        args.status == Some(PsStatusFilter::Running) ==> is_listed(s, args, None) == (s.status
            == SessionStatus::Running),
        args.status == Some(PsStatusFilter::Paused) ==> is_listed(s, args, None) == (s.status
            == SessionStatus::Paused),
        args.status == Some(PsStatusFilter::Exited) ==> is_listed(s, args, None) == (s.status
            == SessionStatus::Exited),
        args.status is None && args.all ==> is_listed(s, args, None),
{
}

/// With filters in place, a session is listed only if it has the status that the status filter
/// names, whatever the other filters are.
pub proof fn law_listed_sessions_have_the_status(
    s: SessionRecord,
    args: PsArgs,
    threshold: Option<u64>,
)
    requires
        is_listed(s, args, threshold),
    ensures
        args.status == Some(PsStatusFilter::Running) ==> s.status == SessionStatus::Running,
        args.status == Some(PsStatusFilter::Paused) ==> s.status == SessionStatus::Paused,
        args.status == Some(PsStatusFilter::Exited) ==> s.status == SessionStatus::Exited,
        args.exit_code is Some ==> s.status == SessionStatus::Exited && s.exit_code
            == args.exit_code,
        threshold is Some ==> s.started_epoch >= threshold->0,
        args.profile is Some ==> s.profile is Some && s.profile->0@ == args.profile->0@,
        args.name is Some ==> s.name is Some,
        s.status == SessionStatus::Exited ==> args.all || args.exit_code is Some || args.status
            is Some,
{
}

/// The exit code filter alone lists exactly the sessions that exited with that code.
pub proof fn law_exit_code_filter_lists_its_code(s: SessionRecord, args: PsArgs, code: i32)
    requires
        args.exit_code == Some(code),
        args.status is None,
        args.name is None,
        args.profile is None,
    ensures
        is_listed(s, args, None) <==> s.status == SessionStatus::Exited && s.exit_code == Some(
            code,
        ),
{
}

/// The profile filter alone lists exactly the sessions with that profile, letter by letter.
pub proof fn law_profile_filter_is_exact(s: SessionRecord, args: PsArgs)
    requires
        args.profile is Some,
        args.all,
        args.status is None,
        args.exit_code is None,
        args.name is None,
    ensures
        is_listed(s, args, None) <==> s.profile is Some && s.profile->0@ == args.profile->0@,
{
}

/// The age filter alone lists exactly the sessions that were started at the threshold or later.
pub proof fn law_age_filter_counts_from_the_threshold(
    s: SessionRecord,
    args: PsArgs,
    threshold: u64,
)
    requires
        args.profile is None,
        args.all,
        args.status is None,
        args.exit_code is None,
        args.name is None,
    ensures
        is_listed(s, args, Some(threshold)) <==> s.started_epoch >= threshold,
{
}

/// The name filter alone lists exactly the sessions in whose name, in lower case, the pattern, in
/// lower case, stands between two other parts, which may be empty.
pub proof fn law_name_filter_finds_parts_of_names(
    s: SessionRecord,
    args: PsArgs,
    before: Seq<char>,
    after: Seq<char>,
)
    requires
        args.name is Some,
        args.all,
        args.profile is None,
        args.status is None,
        args.exit_code is None,
    ensures
        s.name is None ==> !is_listed(s, args, None),
        s.name is Some && text::lowered(s.name->0@) == before + text::lowered(args.name->0@)
            + after ==> is_listed(s, args, None),
        is_listed(s, args, None) ==> exists|x: Seq<char>, y: Seq<char>|
            text::lowered(s.name->0@) == #[trigger] (x + text::lowered(args.name->0@) + y),
{
    if s.name is Some {
        let hay = text::lowered(s.name->0@);
        let needle = text::lowered(args.name->0@);
        if hay == before + needle + after {
            let i = before.len() as int;
            assert(hay.subrange(i, i + needle.len()) =~= needle);
        }
        if is_listed(s, args, None) {
            let i = choose|i: int|
                0 <= i <= hay.len() - needle.len() && #[trigger] hay.subrange(i, i + needle.len())
                    == needle;
            let (x, y) = (hay.take(i), hay.skip(i + needle.len()));
            assert(hay =~= x + needle + y) by {
                assert(hay.subrange(i, i + needle.len()) == needle);
                assert forall|k: int| 0 <= k < hay.len() implies hay[k] == (x + needle + y)[k] by {
                    if i <= k < i + needle.len() {
                        assert(hay.subrange(i, i + needle.len())[k - i] == hay[k]);
                    }
                }
            }
        }
    }
}

/// Nothing but the status, the exit code, the name, the profile and the start of a session counts.
pub proof fn law_listing_depends_on_what_is_filtered(
    s: SessionRecord,
    t: SessionRecord,
    args: PsArgs,
    threshold: Option<u64>,
)
    requires
        s.status == t.status,
        s.exit_code == t.exit_code,
        text::opt_text(s.name) == text::opt_text(t.name),
        text::opt_text(s.profile) == text::opt_text(t.profile),
        s.started_epoch == t.started_epoch,
    ensures
        is_listed(s, args, threshold) == is_listed(t, args, threshold),
{
}

/// The list is made session by session: what is listed of two lists in a row is what is listed of
/// each, and of one session it is that session or nothing.
pub proof fn law_listing_goes_session_by_session(
    a: Seq<SessionRecord>,
    b: Seq<SessionRecord>,
    s: SessionRecord,
    args: PsArgs,
    threshold: Option<u64>,
)
    ensures
        listed(a + b, args, threshold) == listed(a, args, threshold) + listed(b, args, threshold),
        listed(seq![s], args, threshold) == if is_listed(s, args, threshold) {
            seq![s]
        } else {
            Seq::empty()
        },
        listed(Seq::empty(), args, threshold) == Seq::<SessionRecord>::empty(),
{
    let p = |s: SessionRecord| is_listed(s, args, threshold);
    Seq::filter_distributes_over_add(a, b, p);
    reveal_with_fuel(Seq::filter, 2);
    assert(seq![s].drop_last() =~= Seq::empty());
}

/// The threshold lies the asked-for duration before now, or at the epoch where that is later.
pub proof fn law_since_counts_back_from_now(since: String, now: u64, secs: u64)
    requires
        duration::duration_seconds(since@) == Ok::<u64, ErrorView>(secs),
    ensures
        since_limit(None, now) == Ok::<Option<u64>, ErrorView>(None),
        since_limit(Some(since), now) matches Ok(Some(t)) && (t + secs == now || (t == 0 && secs
            > now)),
{
}

} // verus!

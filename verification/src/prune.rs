//! `nono prune`: which sessions are removed, and what is said about it.

use vstd::prelude::*;

use crate::cli::PruneArgs;
use crate::clock;
use crate::clock::Instant;
use crate::duration;
use crate::error;
use crate::error::{ErrorView, NonoError};
use crate::field_extract;
use crate::json;
use crate::numbers;
use crate::order;
use crate::ps_filter;
use crate::session::{SessionRecord, SessionStatus};
use crate::text;

verus! {

/// The minimum age in seconds: a duration, or a number of days that is cut off at the largest
/// number there is.
pub open spec fn minimum_age(args: PruneArgs) -> Result<Option<u64>, ErrorView> {
    match (args.age, args.older_than) {
        (Some(spec_text), _) => match duration::duration_seconds(spec_text@) {
            Ok(secs) => Ok(Some(secs)),
            Err(e) => Err(e),
        },
        (None, Some(days)) => Ok(
            Some(
                if days * 86400 <= u64::MAX {
                    (days * 86400) as u64
                } else {
                    u64::MAX
                },
            ),
        ),
        (None, None) => Ok(None),
    }
}

/// Resolves the age filter. At most one of the two ways to give an age may be used.
pub fn age_floor(args: &PruneArgs) -> (r: Result<Option<u64>, NonoError>)
    requires
        !(args.age is Some && args.older_than is Some),
    ensures
        match r {
            Ok(floor) => minimum_age(*args) == Ok::<Option<u64>, ErrorView>(floor),
            Err(e) => minimum_age(*args) == Err::<Option<u64>, ErrorView>(e@),
        },
{
    match (&args.age, args.older_than) {
        (Some(age), _) => match duration::parse_duration_to_secs(age.as_str()) {
            Ok(secs) => Ok(Some(secs)),
            Err(e) => Err(e),
        },
        (None, Some(days)) => match days.checked_mul(86400) {
            Some(secs) => Ok(Some(secs)),
            None => Ok(Some(u64::MAX)),
        },
        (None, None) => Ok(None),
    }
}

/// Whether a session is old enough: at least `floor` seconds, where there is a floor. A session
/// with an unreadable start is not.
pub open spec fn is_old_enough(started: Seq<char>, floor: Option<u64>, now: Instant) -> bool {
    match floor {
        None => true,
        Some(secs) => match clock::rfc3339_instant(started) {
            Some((s, n)) => clock::elapsed(now, Instant { secs: s, nanos: n }) >= secs,
            None => false,
        },
    }
}

/// Whether an age in seconds, where it is known, is enough.
pub fn age_suffices(age: Option<i64>, floor: Option<u64>) -> (yes: bool)
    ensures
        yes == match (floor, age) {
            (None, _) => true,
            (Some(secs), Some(a)) => a >= secs,
            (Some(_), None) => false,
        },
{
    match (floor, age) {
        (None, _) => true,
        (Some(secs), Some(a)) => a >= 0 && a as u64 >= secs,
        (Some(_), None) => false,
    }
}

/// Whether a session may be removed: it is not running, and old enough.
pub open spec fn is_candidate(s: SessionRecord, floor: Option<u64>, now: Instant) -> bool {
    s.status != SessionStatus::Running && is_old_enough(s.started@, floor, now)
}

/// Decides whether a session may be removed.
pub fn may_remove(s: &SessionRecord, floor: Option<u64>, now: Instant) -> (yes: bool)
    requires
        now.wf(),
    ensures
        yes == is_candidate(*s, floor, now),
{
    if s.status == SessionStatus::Running {
        return false;
    }
    let age = match floor {
        None => None,
        Some(_) => match clock::parse_rfc3339(s.started.as_str()) {
            Some(start) => Some(clock::seconds_between(now, start)),
            None => None,
        },
    };
    age_suffices(age, floor)
}

/// The sessions to remove: the candidates, in their order, without the first `keep` of them.
pub open spec fn removals(
    sessions: Seq<SessionRecord>,
    floor: Option<u64>,
    keep: Option<usize>,
    now: Instant,
) -> Seq<SessionRecord> {
    let candidates = sessions.filter(|s: SessionRecord| is_candidate(s, floor, now));
    match keep {
        None => candidates,
        Some(n) => if candidates.len() > n {
            candidates.skip(n as int)
        } else {
            Seq::empty()
        },
    }
}

/// Picks the sessions to remove. `sessions` come newest first, so that the newest are kept.
pub fn select_removals<'a>(
    sessions: &'a Vec<SessionRecord>,
    floor: Option<u64>,
    keep: Option<usize>,
    now: Instant,
) -> (out: Vec<&'a SessionRecord>)
    requires
        now.wf(),
    ensures
        ps_filter::records_of(out@) == removals(sessions@, floor, keep, now),
{
    let ghost p = |s: SessionRecord| is_candidate(s, floor, now);
    let mut found: Vec<&'a SessionRecord> = Vec::new();
    let mut i: usize = 0;
    proof {
        reveal(Seq::filter);
        assert(ps_filter::records_of(found@) =~= sessions@.take(0).filter(p));
    }
    while i < sessions.len()
        invariant
            now.wf(),
            i <= sessions.len(),
            p == (|s: SessionRecord| is_candidate(s, floor, now)),
            ps_filter::records_of(found@) == sessions@.take(i as int).filter(p),
        decreases sessions.len() - i,
    {
        let ghost before = found@;
        proof {
            reveal(Seq::filter);
            assert(sessions@.take(i + 1).drop_last() =~= sessions@.take(i as int));
        }
        if may_remove(&sessions[i], floor, now) {
            found.push(&sessions[i]);
            assert(ps_filter::records_of(found@) =~= ps_filter::records_of(before).push(
                sessions@[i as int],
            ));
        }
        i += 1;
    }
    assert(sessions@.take(sessions@.len() as int) =~= sessions@);
    match keep {
        None => found,
        Some(n) => {
            let mut out: Vec<&'a SessionRecord> = Vec::new();
            let mut k: usize = n;
            while k < found.len()
                invariant
                    n <= k,
                    n <= found.len() ==> k <= found.len() && out@ == found@.subrange(
                        n as int,
                        k as int,
                    ),
                    n > found.len() ==> out@.len() == 0,
                decreases found.len() - k,
            {
                out.push(found[k]);
                assert(found@.subrange(n as int, k + 1) =~= found@.subrange(
                    n as int,
                    k as int,
                ).push(found@[k as int]));
                k += 1;
            }
            assert(ps_filter::records_of(out@) =~= removals(sessions@, floor, keep, now));
            out
        },
    }
}

/// A running session is never removed, and what is removed was there before.
pub proof fn law_running_sessions_are_never_removed(
    sessions: Seq<SessionRecord>,
    floor: Option<u64>,
    keep: Option<usize>,
    now: Instant,
)
    ensures
        forall|i: int|
            0 <= i < removals(sessions, floor, keep, now).len() ==> {
                let s = #[trigger] removals(sessions, floor, keep, now)[i];
                s.status != SessionStatus::Running && sessions.contains(s)
            },
{
    let p = |s: SessionRecord| is_candidate(s, floor, now);
    let found = sessions.filter(p);
    let out = removals(sessions, floor, keep, now);
    assert forall|i: int| 0 <= i < out.len() implies {
        let s = #[trigger] out[i];
        s.status != SessionStatus::Running && sessions.contains(s)
    } by {
        let k: int = match keep {
            None => i,
            Some(n) => i + n,
        };
        assert(out[i] == found[k]);
        sessions.lemma_filter_pred(p, k);
        assert(found.contains(found[k]));
        sessions.lemma_filter_contains_rev(p, found[k]);
    }
}

/// With a minimum age, what is removed has a readable start and is at least that old.
pub proof fn law_young_sessions_are_never_removed(
    sessions: Seq<SessionRecord>,
    floor: u64,
    keep: Option<usize>,
    now: Instant,
)
    ensures
        forall|i: int|
            0 <= i < removals(sessions, Some(floor), keep, now).len() ==> {
                let s = #[trigger] removals(sessions, Some(floor), keep, now)[i];
                clock::rfc3339_instant(s.started@) matches Some((secs, nanos))
                    && clock::elapsed(now, Instant { secs, nanos }) >= floor
            },
{
    let p = |s: SessionRecord| is_candidate(s, Some(floor), now);
    let found = sessions.filter(p);
    let out = removals(sessions, Some(floor), keep, now);
    assert forall|i: int| 0 <= i < out.len() implies {
        let s = #[trigger] out[i];
        clock::rfc3339_instant(s.started@) matches Some((secs, nanos)) && clock::elapsed(
            now,
            Instant { secs, nanos },
        ) >= floor
    } by {
        let k: int = match keep {
            None => i,
            Some(n) => i + n,
        };
        assert(out[i] == found[k]);
        sessions.lemma_filter_pred(p, k);
    }
}

/// Keeping `n` sessions leaves the first `n` candidates alone, and removes all the others.
pub proof fn law_keep_spares_the_newest(
    sessions: Seq<SessionRecord>,
    floor: Option<u64>,
    n: usize,
    now: Instant,
)
    ensures
        ({
            let all = removals(sessions, floor, None, now);
            let spared = if all.len() > n { n as int } else { all.len() as int };
            all == all.take(spared) + removals(sessions, floor, Some(n), now)
        }),
{
    let all = removals(sessions, floor, None, now);
    let spared = if all.len() > n { n as int } else { all.len() as int };
    assert(all =~= all.take(spared) + removals(sessions, floor, Some(n), now));
}

/// One removed session in the report.
pub open spec fn entry_json(s: SessionRecord) -> Seq<char> {
    "{"@ + text::joined(
        seq![
            json::quoted_json("session_id"@) + ":"@ + json::quoted_json(s.session_id@),
            json::quoted_json("started"@) + ":"@ + json::quoted_json(s.started@),
        ],
        ","@,
    ) + "}"@
}

/// What is done, in one word.
pub open spec fn action_word(dry_run: bool) -> Seq<char> {
    if dry_run {
        "would-remove"@
    } else {
        "removed"@
    }
}

/// The report as a document: the action, the number of sessions, and the sessions.
pub open spec fn report_json(records: Seq<SessionRecord>, dry_run: bool) -> Seq<char> {
    "{"@ + text::joined(
        seq![
            json::quoted_json("action"@) + ":"@ + json::quoted_json(action_word(dry_run)),
            json::quoted_json("count"@) + ":"@ + numbers::decimal(records.len()),
            json::quoted_json("sessions"@) + ":"@ + ("["@ + text::joined(
                records.map_values(|s: SessionRecord| entry_json(s)),
                ","@,
            ) + "]"@),
        ],
        ","@,
    ) + "}"@
}

/// The keys of the report are in order.
proof fn lemma_keys()
    ensures
        order::text_before("session_id"@, "started"@),
        order::text_before("action"@, "count"@),
        order::text_before("count"@, "sessions"@),
        order::text_before("action"@, "sessions"@),
{
    reveal_strlit("session_id");
    reveal_strlit("started");
    reveal_strlit("action");
    reveal_strlit("count");
    reveal_strlit("sessions");
    assert("session_id"@.take(1) =~= "started"@.take(1));
    order::lemma_ascii_before("session_id"@, "started"@, 1);
    assert("action"@.take(0) =~= "count"@.take(0));
    order::lemma_ascii_before("action"@, "count"@, 0);
    assert("count"@.take(0) =~= "sessions"@.take(0));
    order::lemma_ascii_before("count"@, "sessions"@, 0);
    assert("action"@.take(0) =~= "sessions"@.take(0));
    order::lemma_ascii_before("action"@, "sessions"@, 0);
}

fn entry_value(s: &SessionRecord) -> (value: serde_json::Value)
    ensures
        json::json_text(value) == entry_json(*s),
{
    let mut members: Vec<(String, serde_json::Value)> = Vec::new();
    members.push(("session_id".to_owned(), json::json_string(s.session_id.clone())));
    members.push(("started".to_owned(), json::json_string(s.started.clone())));
    proof {
        lemma_keys();
        assert(json::member_texts(members@) =~= seq![
            json::quoted_json("session_id"@) + ":"@ + json::quoted_json(s.session_id@),
            json::quoted_json("started"@) + ":"@ + json::quoted_json(s.started@),
        ]);
    }
    json::json_object(members)
}

/// Builds the report as a document.
pub fn report_value(records: &Vec<&SessionRecord>, dry_run: bool) -> (value: serde_json::Value)
    ensures
        json::json_text(value) == report_json(ps_filter::records_of(records@), dry_run),
{
    let mut entries: Vec<serde_json::Value> = Vec::new();
    let mut i: usize = 0;
    while i < records.len()
        invariant
            i <= records.len(),
            entries.len() == i,
            forall|j: int|
                0 <= j < i ==> json::json_text(#[trigger] entries@[j]) == entry_json(*records@[j]),
        decreases records.len() - i,
    {
        entries.push(entry_value(records[i]));
        i += 1;
    }
    assert(json::json_texts(entries@) =~= ps_filter::records_of(records@).map_values(
        |s: SessionRecord| entry_json(s),
    ));
    let action = if dry_run {
        "would-remove"
    } else {
        "removed"
    };
    let mut members: Vec<(String, serde_json::Value)> = Vec::new();
    members.push(("action".to_owned(), json::json_string(action.to_owned())));
    members.push(("count".to_owned(), json::json_count(records.len() as u64)));
    members.push(("sessions".to_owned(), json::json_array(entries)));
    proof {
        lemma_keys();
        assert(json::member_texts(members@) =~= seq![
            json::quoted_json("action"@) + ":"@ + json::quoted_json(action_word(dry_run)),
            json::quoted_json("count"@) + ":"@ + numbers::decimal(records@.len()),
            json::quoted_json("sessions"@) + ":"@ + ("["@ + text::joined(
                ps_filter::records_of(records@).map_values(|s: SessionRecord| entry_json(s)),
                ","@,
            ) + "]"@),
        ]);
    }
    json::json_object(members)
}

/// Something to print, with all of its line breaks.
#[derive(Debug, Clone, PartialEq, Eq)]
pub enum Output {
    /// For the output stream.
    Stdout(String),
    /// For the error stream.
    Stderr(String),
}

/// The text of an output, and whether it goes to the output stream.
pub open spec fn output_view(o: Output) -> (bool, Seq<char>) {
    match o {
        Output::Stdout(s) => (true, s@),
        Output::Stderr(s) => (false, s@),
    }
}

/// What comes before anything is removed.
#[derive(Debug, Clone, PartialEq, Eq)]
pub enum PruneGate {
    /// There is nothing to remove; this is all there is to print.
    Nothing(Output),
    /// Ask for confirmation with this text on the error stream, and read a line.
    Ask(String),
    /// Go ahead.
    Proceed,
}

/// One line about a session, with its start.
pub open spec fn session_note(before: Seq<char>, s: SessionRecord) -> Seq<char> {
    before + s.session_id@ + " (started "@ + s.started@ + ")\n"@
}

fn note(before: &str, s: &SessionRecord) -> (out: String)
    ensures
        out@ == session_note(before@, *s),
{
    let mut out = before.to_owned();
    out.append(s.session_id.as_str());
    out.append(" (started ");
    out.append(s.started.as_str());
    out.append(")\n");
    out
}

/// One line for each session.
pub open spec fn session_notes(records: Seq<SessionRecord>) -> Seq<char>
    decreases records.len(),
{
    if records.len() == 0 {
        Seq::empty()
    } else {
        session_notes(records.drop_last()) + session_note("  "@, records.last())
    }
}

/// The question that has to be answered before sessions are removed.
pub open spec fn prompt_text(records: Seq<SessionRecord>) -> Seq<char> {
    "The following "@ + numbers::decimal(records.len()) + " session(s) will be removed:\n"@
        + session_notes(records) + "\nProceed? [y/N] "@
}

/// Writes the question.
pub fn prompt(records: &Vec<&SessionRecord>) -> (out: String)
    ensures
        out@ == prompt_text(ps_filter::records_of(records@)),
{
    let ghost all = ps_filter::records_of(records@);
    let mut notes = String::new();
    let mut i: usize = 0;
    while i < records.len()
        invariant
            i <= records.len(),
            all == ps_filter::records_of(records@),
            notes@ == session_notes(all.take(i as int)),
        decreases records.len() - i,
    {
        proof {
            assert(all.take(i + 1).drop_last() =~= all.take(i as int));
            assert(all.take(i + 1).last() == *records@[i as int]);
        }
        notes.append(note("  ", records[i]).as_str());
        i += 1;
    }
    assert(all.take(all.len() as int) =~= all);
    let mut out = "The following ".to_owned();
    out.append(numbers::decimal_text(records.len() as u64).as_str());
    out.append(" session(s) will be removed:\n");
    out.append(notes.as_str());
    out.append("\nProceed? [y/N] ");
    out
}

/// What comes before anything is removed: where there is nothing to remove that is said; where the
/// user wants to be asked there has to be someone to answer.
pub open spec fn is_gate(
    r: Result<PruneGate, NonoError>,
    records: Seq<SessionRecord>,
    args: PruneArgs,
    stdin_is_terminal: bool,
) -> bool {
    if records.len() == 0 {
        r matches Ok(PruneGate::Nothing(o)) && output_view(o) == if args.json {
            (
                true,
                field_extract::document_text(
                    report_json(records, args.dry_run),
                    args.compact,
                ) + "\n"@,
            )
        } else {
            (false, "Nothing to prune.\n"@)
        }
    } else if args.interactive {
        if stdin_is_terminal {
            r matches Ok(PruneGate::Ask(text)) && text@ == prompt_text(records)
        } else {
            r matches Err(e) && e@ == ErrorView::ConfigParse(
                "--interactive requires a TTY on stdin (no one to answer the prompt). Use --dry-run to preview without confirmation."@,
            )
        }
    } else {
        r matches Ok(PruneGate::Proceed)
    }
}

fn json_report(records: &Vec<&SessionRecord>, args: &PruneArgs) -> (r: Result<Output, NonoError>)
    ensures
        r matches Ok(o) && output_view(o) == (
            true,
            field_extract::document_text(
                report_json(ps_filter::records_of(records@), args.dry_run),
                args.compact,
            ) + "\n"@,
        ),
{
    let value = report_value(records, args.dry_run);
    match field_extract::render_document(&value, args.compact) {
        Ok(s) => {
            let mut out = s;
            out.append("\n");
            Ok(Output::Stdout(out))
        },
        Err(e) => Err(e),
    }
}

/// Decides what comes before anything is removed.
pub fn prune_gate(records: &Vec<&SessionRecord>, args: &PruneArgs, stdin_is_terminal: bool) -> (r:
    Result<PruneGate, NonoError>)
    ensures
        is_gate(r, ps_filter::records_of(records@), *args, stdin_is_terminal),
{
    if records.len() == 0 {
        if args.json {
            return match json_report(records, args) {
                Ok(o) => Ok(PruneGate::Nothing(o)),
                Err(e) => Err(e),
            };
        }
        return Ok(PruneGate::Nothing(Output::Stderr("Nothing to prune.\n".to_owned())));
    }
    if args.interactive {
        if !stdin_is_terminal {
            return Err(
                NonoError::ConfigParse(
                    "--interactive requires a TTY on stdin (no one to answer the prompt). Use --dry-run to preview without confirmation.".to_owned(),
                ),
            );
        }
        return Ok(PruneGate::Ask(prompt(records)));
    }
    Ok(PruneGate::Proceed)
}

/// Whether a reply is an affirmative one: `y` or `yes`, in any case, with white space around it.
pub open spec fn is_affirmative(input: Seq<char>) -> bool {
    let reply = text::trimmed(input).map_values(|c: char| text::ascii_lower(c));
    reply == "y"@ || reply == "yes"@
}

fn is_letter(c: char, lower: char, upper: char) -> (yes: bool)
    requires
        'a' <= lower <= 'z',
        upper as u32 + 32 == lower as u32,
    ensures
        yes == (text::ascii_lower(c) == lower),
{
    c == lower || c == upper
}

/// Decides whether a line of input confirms. Everything but `y` and `yes` is a refusal.
pub fn is_yes_response(input: &str) -> (yes: bool)
    ensures
        yes == is_affirmative(input@),
{
    let trimmed = text::trim(input);
    let chars = text::chars_of(trimmed.as_str());
    let ghost reply = trimmed@.map_values(|c: char| text::ascii_lower(c));
    proof {
        reveal_strlit("y");
        reveal_strlit("yes");
        assert(reply == "y"@ <==> reply.len() == 1 && reply[0] == 'y') by {
            if reply.len() == 1 && reply[0] == 'y' {
                assert(reply =~= "y"@);
            }
        }
        assert(reply == "yes"@ <==> reply.len() == 3 && reply[0] == 'y' && reply[1] == 'e'
            && reply[2] == 's') by {
            if reply.len() == 3 && reply[0] == 'y' && reply[1] == 'e' && reply[2] == 's' {
                assert(reply =~= "yes"@);
            }
        }
    }
    if chars.len() == 1 {
        is_letter(chars[0], 'y', 'Y')
    } else if chars.len() == 3 {
        is_letter(chars[0], 'y', 'Y') && is_letter(chars[1], 'e', 'E') && is_letter(
            chars[2],
            's',
            'S',
        )
    } else {
        false
    }
}

/// The names of the two files of a session.
pub fn session_file_names(session_id: &str) -> (names: (String, String))
    ensures
        names.0@ == session_id@ + ".json"@,
        names.1@ == session_id@ + ".events.ndjson"@,
{
    let mut record = session_id.to_owned();
    record.append(".json");
    let mut events = session_id.to_owned();
    events.append(".events.ndjson");
    (record, events)
}

/// The line about one session, for the error stream; none where the report is a document.
pub open spec fn removal_note(s: SessionRecord, args: PruneArgs) -> Option<Seq<char>> {
    if args.json {
        None
    } else if args.dry_run {
        Some(session_note("Would remove: "@, s))
    } else {
        Some(session_note("Removed: "@, s))
    }
}

/// Writes the line about one session.
pub fn removal_line(s: &SessionRecord, args: &PruneArgs) -> (out: Option<String>)
    ensures
        text::opt_text(out) == removal_note(*s, *args),
{
    if args.json {
        None
    } else if args.dry_run {
        Some(note("Would remove: ", s))
    } else {
        Some(note("Removed: ", s))
    }
}

/// The names of the files to remove for one session: none in a dry run.
pub open spec fn removed_files(s: SessionRecord, args: PruneArgs) -> Option<(Seq<char>, Seq<char>)> {
    if args.dry_run {
        None
    } else {
        Some((s.session_id@ + ".json"@, s.session_id@ + ".events.ndjson"@))
    }
}

/// What is done about one session.
#[derive(Debug, Clone, PartialEq, Eq)]
pub struct RemovalStep {
    /// The names of the two files to remove, if any are to be removed.
    pub files: Option<(String, String)>,
    /// The line for the error stream.
    pub line: Option<String>,
}

/// Whether a step is the one for a session.
pub open spec fn is_removal_step(step: RemovalStep, s: SessionRecord, args: PruneArgs) -> bool {
    &&& match (step.files, removed_files(s, args)) {
        (Some(names), Some(expected)) => names.0@ == expected.0 && names.1@ == expected.1,
        (None, None) => true,
        _ => false,
    }
    &&& text::opt_text(step.line) == removal_note(s, args)
}

/// Decides what is done about one session. A dry run removes no file.
pub fn removal_step(s: &SessionRecord, args: &PruneArgs) -> (step: RemovalStep)
    ensures
        is_removal_step(step, *s, *args),
        step.files is Some <==> !args.dry_run,
{
    let files = if args.dry_run {
        None
    } else {
        Some(session_file_names(s.session_id.as_str()))
    };
    RemovalStep { files, line: removal_line(s, args) }
}

/// The state after the question has been answered: an affirmative reply goes ahead, and any other
/// leaves nothing to do but to say so.
pub open spec fn is_gate_after_reply(gate: PruneGate, reply: Seq<char>) -> bool {
    if is_affirmative(reply) {
        gate is Proceed
    } else {
        gate matches PruneGate::Nothing(o) && output_view(o) == (false, ABORTED@)
    }
}

/// Decides what comes after a reply to the question.
pub fn after_reply(reply: &str) -> (gate: PruneGate)
    ensures
        is_gate_after_reply(gate, reply@),
{
    if is_yes_response(reply) {
        PruneGate::Proceed
    } else {
        PruneGate::Nothing(Output::Stderr(ABORTED.to_owned()))
    }
}

/// Whether the steps are those for the sessions: one for each when it is time to go ahead, and
/// none at all before that.
pub open spec fn are_removal_steps(
    steps: Seq<RemovalStep>,
    records: Seq<SessionRecord>,
    gate: PruneGate,
    args: PruneArgs,
) -> bool {
    if gate is Proceed {
        &&& steps.len() == records.len()
        &&& forall|i: int|
            0 <= i < steps.len() ==> is_removal_step(#[trigger] steps[i], records[i], args)
    } else {
        steps.len() == 0
    }
}

/// Decides what is done about the sessions.
pub fn removal_steps(records: &Vec<&SessionRecord>, gate: &PruneGate, args: &PruneArgs) -> (steps:
    Vec<RemovalStep>)
    ensures
        are_removal_steps(steps@, ps_filter::records_of(records@), *gate, *args),
{
    let mut steps: Vec<RemovalStep> = Vec::new();
    match gate {
        PruneGate::Proceed => {},
        _ => return steps,
    }
    let mut i: usize = 0;
    while i < records.len()
        invariant
            i <= records.len(),
            steps.len() == i,
            forall|j: int|
                0 <= j < i ==> is_removal_step(#[trigger] steps@[j], *records@[j], *args),
        decreases records.len() - i,
    {
        steps.push(removal_step(records[i], args));
        i += 1;
    }
    steps
}

/// Nothing is removed in a dry run, nor before it is time to go ahead.
pub proof fn law_nothing_is_removed_without_leave(
    steps: Seq<RemovalStep>,
    records: Seq<SessionRecord>,
    gate: PruneGate,
    args: PruneArgs,
)
    requires
        are_removal_steps(steps, records, gate, args),
        args.dry_run || !(gate is Proceed),
    ensures
        forall|i: int| 0 <= i < steps.len() ==> (#[trigger] steps[i]).files is None,
{
    assert forall|i: int| 0 <= i < steps.len() implies (#[trigger] steps[i]).files is None by {
        assert(is_removal_step(steps[i], records[i], args));
    }
}

/// After a reply that is not affirmative nothing is done about any session.
pub proof fn law_refused_reply_leaves_sessions_alone(
    steps: Seq<RemovalStep>,
    records: Seq<SessionRecord>,
    gate: PruneGate,
    args: PruneArgs,
    reply: Seq<char>,
)
    requires
        !is_affirmative(reply),
        is_gate_after_reply(gate, reply),
        are_removal_steps(steps, records, gate, args),
    ensures
        steps.len() == 0,
{
}

/// A dry run is about the very sessions that a real run would remove.
pub proof fn law_dry_run_is_about_what_a_real_run_removes(
    sessions: Seq<SessionRecord>,
    args: PruneArgs,
    now: Instant,
)
    requires
        minimum_age(args) is Ok,
    ensures
        ({
            let dry = PruneArgs { dry_run: true, ..args };
            let actual = PruneArgs { dry_run: false, ..args };
            removals(sessions, minimum_age(dry)->Ok_0, dry.keep, now) == removals(
                sessions,
                minimum_age(actual)->Ok_0,
                actual.keep,
                now,
            )
        }),
{
}

/// What is said when all is done.
pub open spec fn final_report(records: Seq<SessionRecord>, args: PruneArgs) -> (bool, Seq<char>) {
    if args.json {
        (
            true,
            field_extract::document_text(report_json(records, args.dry_run), args.compact)
                + "\n"@,
        )
    } else {
        (
            false,
            "\n"@ + (if args.dry_run {
                "Would prune"@
            } else {
                "Pruned"@
            }) + " "@ + numbers::decimal(records.len()) + " session(s).\n"@,
        )
    }
}

/// Writes what is said when all is done.
pub fn prune_report(records: &Vec<&SessionRecord>, args: &PruneArgs) -> (r: Result<
    Output,
    NonoError,
>)
    ensures
        r matches Ok(o) && output_view(o) == final_report(
            ps_filter::records_of(records@),
            *args,
        ),
{
    if args.json {
        return json_report(records, args);
    }
    let mut out = "\n".to_owned();
    out.append(
        if args.dry_run {
            "Would prune"
        } else {
            "Pruned"
        },
    );
    out.append(" ");
    out.append(numbers::decimal_text(records.len() as u64).as_str());
    out.append(" session(s).\n");
    Ok(Output::Stderr(out))
}

/// What is said when the user declines.
pub const ABORTED: &'static str = "Aborted; nothing removed.\n";

/// The error for a prompt that could not be shown.
pub fn prompt_failed(reason: &str) -> (e: NonoError)
    ensures
        e@ == ErrorView::ConfigParse("Failed to flush prompt: "@ + reason@),
{
    let mut m = "Failed to flush prompt: ".to_owned();
    m.append(reason);
    NonoError::ConfigParse(m)
}

/// The error for a reply that could not be read.
pub fn reply_failed(reason: &str) -> (e: NonoError)
    ensures
        e@ == ErrorView::ConfigParse("Failed to read confirmation: "@ + reason@),
{
    let mut m = "Failed to read confirmation: ".to_owned();
    m.append(reason);
    NonoError::ConfigParse(m)
}

/// What is about to be removed, and what comes before that.
#[derive(Debug, Clone)]
pub struct PrunePlan<'a> {
    pub removals: Vec<&'a SessionRecord>,
    pub gate: PruneGate,
}

/// Plans the removal of sessions, which come newest first. At most one of the two ways to give an
/// age may be used.
pub fn plan_prune<'a>(
    sessions: &'a Vec<SessionRecord>,
    args: &PruneArgs,
    now: Instant,
    stdin_is_terminal: bool,
) -> (r: Result<PrunePlan<'a>, NonoError>)
    requires
        now.wf(),
        !(args.age is Some && args.older_than is Some),
    ensures
        match minimum_age(*args) {
            Err(expected) => r matches Err(e) && e@ == expected,
            Ok(floor) => {
                let chosen = removals(sessions@, floor, args.keep, now);
                match r {
                    Ok(plan) => ps_filter::records_of(plan.removals@) == chosen && is_gate(
                        Ok(plan.gate),
                        chosen,
                        *args,
                        stdin_is_terminal,
                    ),
                    Err(e) => is_gate(Err(e), chosen, *args, stdin_is_terminal),
                }
            },
        },
{
    let floor = match age_floor(args) {
        Ok(floor) => floor,
        Err(e) => return Err(e),
    };
    let chosen = select_removals(sessions, floor, args.keep, now);
    match prune_gate(&chosen, args, stdin_is_terminal) {
        Ok(gate) => Ok(PrunePlan { removals: chosen, gate }),
        Err(e) => Err(e),
    }
}

/// Whether a session has been over for long enough: it is not running, and where there is a
/// minimum age its start can be read and lies at least that many seconds back.
pub proof fn law_candidates_are_finished_and_old(
    s: SessionRecord,
    floor: u64,
    start: Instant,
    now: Instant,
)
    ensures
        is_candidate(s, None, now) <==> s.status == SessionStatus::Paused || s.status
            == SessionStatus::Exited,
        s.status == SessionStatus::Running ==> !is_candidate(s, Some(floor), now),
        clock::rfc3339_instant(s.started@) is None ==> !is_candidate(s, Some(floor), now),
        s.status != SessionStatus::Running && clock::rfc3339_instant(s.started@) == Some(
            (start.secs, start.nanos),
        ) ==> (is_candidate(s, Some(floor), now) <==> clock::elapsed(now, start) >= floor),
{
}

/// Nothing but the status and the start of a session decides whether it may be removed.
pub proof fn law_removal_depends_on_status_and_start(
    s: SessionRecord,
    t: SessionRecord,
    floor: Option<u64>,
    now: Instant,
)
    requires
        s.status == t.status,
        s.started@ == t.started@,
    ensures
        is_candidate(s, floor, now) == is_candidate(t, floor, now),
{
}

/// A session that is old enough stays so when the minimum age gets smaller, or is left away.
pub proof fn law_smaller_ages_remove_more(
    s: SessionRecord,
    floor: u64,
    smaller: u64,
    now: Instant,
)
    requires
        smaller <= floor,
        is_candidate(s, Some(floor), now),
    ensures
        is_candidate(s, Some(smaller), now),
        is_candidate(s, None, now),
{
}

/// Without a number of sessions to keep nothing is forgotten: every session that is not running is
/// removed where there is no minimum age, and with one every such session whose start can be read
/// and lies at least that far back.
pub proof fn law_every_finished_old_session_is_removed(
    sessions: Seq<SessionRecord>,
    floor: Option<u64>,
    now: Instant,
    i: int,
)
    requires
        0 <= i < sessions.len(),
        sessions[i].status != SessionStatus::Running,
        floor matches Some(secs) ==> (clock::rfc3339_instant(sessions[i].started@) matches Some(
            (s, n),
        ) && clock::elapsed(now, Instant { secs: s, nanos: n }) >= secs),
    ensures
        removals(sessions, floor, None, now).contains(sessions[i]),
{
    let p = |s: SessionRecord| is_candidate(s, floor, now);
    assert(p(sessions[i]));
    sessions.lemma_filter_contains(p, i);
}

/// Without a number of sessions to keep the removals are made session by session, in order, each
/// session once.
pub proof fn law_removals_go_session_by_session(
    a: Seq<SessionRecord>,
    b: Seq<SessionRecord>,
    s: SessionRecord,
    floor: Option<u64>,
    now: Instant,
)
    ensures
        removals(a + b, floor, None, now) == removals(a, floor, None, now) + removals(
            b,
            floor,
            None,
            now,
        ),
        s.status == SessionStatus::Running ==> removals(seq![s], floor, None, now).len() == 0,
        s.status != SessionStatus::Running && floor is None ==> removals(seq![s], floor, None, now)
            == seq![s],
        removals(seq![s], floor, None, now) == seq![s] || removals(seq![s], floor, None, now)
            == Seq::<SessionRecord>::empty(),
{
    let p = |s: SessionRecord| is_candidate(s, floor, now);
    Seq::filter_distributes_over_add(a, b, p);
    reveal_with_fuel(Seq::filter, 2);
    assert(seq![s].drop_last() =~= Seq::empty());
    assert(seq![s].filter(p) =~= seq![s] || seq![s].filter(p) =~= Seq::empty());
}

/// Keeping more sessions removes fewer: of `n` more sessions to keep, the removals lose their first
/// `n`, and keeping none is no different from not asking to keep any.
pub proof fn law_keeping_more_removes_fewer(
    sessions: Seq<SessionRecord>,
    floor: Option<u64>,
    now: Instant,
    n: usize,
)
    ensures
        removals(sessions, floor, Some(0), now) == removals(sessions, floor, None, now),
        removals(sessions, floor, Some(n), now).len() == if removals(
            sessions,
            floor,
            None,
            now,
        ).len() > n {
            removals(sessions, floor, None, now).len() - n
        } else {
            0
        },
        forall|i: int|
            0 <= i < removals(sessions, floor, Some(n), now).len() ==> #[trigger] removals(
                sessions,
                floor,
                Some(n),
                now,
            )[i] == removals(sessions, floor, None, now)[i + n],
{
    let all = removals(sessions, floor, None, now);
    assert(removals(sessions, floor, Some(0), now) =~= all);
}

/// The minimum age is what the duration says, or the days in seconds, cut off where they are too
/// many to be counted; without either there is none.
pub proof fn law_minimum_age_is_what_was_given(args: PruneArgs, days: u64)
    ensures
        args.age is None && args.older_than is None ==> minimum_age(args) == Ok::<
            Option<u64>,
            ErrorView,
        >(None),
        args.age is None && args.older_than == Some(days) ==> (minimum_age(args) matches Ok(
            Some(secs),
        ) && (secs == 86400 * days || (secs == u64::MAX && 86400 * days > u64::MAX))),
        args.age is Some ==> (match duration::duration_seconds(args.age->0@) {
            Ok(secs) => minimum_age(args) == Ok::<Option<u64>, ErrorView>(Some(secs)),
            Err(e) => minimum_age(args) == Err::<Option<u64>, ErrorView>(e),
        }),
{
}

/// With nothing to remove that is said. With something to remove the question is asked exactly
/// when the user wants it and someone can answer, it is an error when no one can, and else it is
/// time to go ahead; whether it is a dry run plays no part in this.
pub proof fn law_asking_needs_a_terminal(
    r: Result<PruneGate, NonoError>,
    records: Seq<SessionRecord>,
    args: PruneArgs,
    stdin_is_terminal: bool,
)
    requires
        is_gate(r, records, args, stdin_is_terminal),
    ensures
        r matches Ok(PruneGate::Nothing(_)) <==> records.len() == 0,
        r matches Ok(PruneGate::Proceed) <==> records.len() > 0 && !args.interactive,
        r matches Ok(PruneGate::Ask(_)) <==> records.len() > 0 && args.interactive
            && stdin_is_terminal,
        r is Err <==> records.len() > 0 && args.interactive && !stdin_is_terminal,
        records.len() == 0 && !args.json ==> (r matches Ok(PruneGate::Nothing(Output::Stderr(m)))
            && m@ == "Nothing to prune.\n"@),
        records.len() == 0 && args.json ==> r matches Ok(PruneGate::Nothing(Output::Stdout(_))),
        r matches Err(e) ==> e@ == ErrorView::ConfigParse(
            "--interactive requires a TTY on stdin (no one to answer the prompt). Use --dry-run to preview without confirmation."@,
        ),
{
}

/// A reply is affirmative exactly when, without the white space around it, it is `y` or `yes`, each
/// letter in either case.
pub proof fn law_affirmative_replies(input: Seq<char>)
    ensures
        is_affirmative(input) <==> {
            let t = text::trimmed(input);
            ||| t.len() == 1 && (t[0] == 'y' || t[0] == 'Y')
            ||| t.len() == 3 && (t[0] == 'y' || t[0] == 'Y') && (t[1] == 'e' || t[1] == 'E') && (
            t[2] == 's' || t[2] == 'S')
        },
{
    let t = text::trimmed(input);
    let reply = t.map_values(|c: char| text::ascii_lower(c));
    reveal_strlit("y");
    reveal_strlit("yes");
    if reply.len() == 1 && reply[0] == 'y' {
        assert(reply =~= "y"@);
    }
    if reply.len() == 3 && reply[0] == 'y' && reply[1] == 'e' && reply[2] == 's' {
        assert(reply =~= "yes"@);
    }
}

/// The two files of a session are named after it and removed together, unless it is a dry run.
pub proof fn law_real_runs_remove_both_files(
    step: RemovalStep,
    s: SessionRecord,
    args: PruneArgs,
)
    requires
        is_removal_step(step, s, args),
    ensures
        step.files is Some <==> !args.dry_run,
        step.files matches Some(names) ==> names.0@ == s.session_id@ + ".json"@ && names.1@
            == s.session_id@ + ".events.ndjson"@,
        step.line is None <==> args.json,
        !args.json && !args.dry_run ==> step.line->0@ == "Removed: "@ + s.session_id@
            + " (started "@ + s.started@ + ")\n"@,
        !args.json && args.dry_run ==> step.line->0@ == "Would remove: "@ + s.session_id@
            + " (started "@ + s.started@ + ")\n"@,
{
}

/// When it is time to go ahead there is a step for each session that was picked, and no other.
pub proof fn law_every_picked_session_gets_its_step(
    steps: Seq<RemovalStep>,
    records: Seq<SessionRecord>,
    gate: PruneGate,
    args: PruneArgs,
    i: int,
)
    requires
        are_removal_steps(steps, records, gate, args),
        gate is Proceed,
        !args.dry_run,
        0 <= i < records.len(),
    ensures
        steps.len() == records.len(),
        steps[i].files matches Some(names) && names.0@ == records[i].session_id@ + ".json"@
            && names.1@ == records[i].session_id@ + ".events.ndjson"@,
{
    assert(is_removal_step(steps[i], records[i], args));
}

/// An affirmative reply goes ahead; any other says that nothing was removed.
pub proof fn law_only_affirmative_replies_go_ahead(gate: PruneGate, reply: Seq<char>)
    requires
        is_gate_after_reply(gate, reply),
    ensures
        gate is Proceed <==> is_affirmative(reply),
        !is_affirmative(reply) ==> (gate matches PruneGate::Nothing(Output::Stderr(m)) && m@
            == "Aborted; nothing removed.\n"@),
{
}

/// What is said at the end counts the sessions, and tells a dry run from a real one.
pub proof fn law_final_report_counts_the_sessions(records: Seq<SessionRecord>, args: PruneArgs)
    ensures
        final_report(records, args).0 == args.json,
        !args.json && args.dry_run ==> final_report(records, args).1 == "\n"@ + "Would prune"@
            + " "@ + numbers::decimal(records.len()) + " session(s).\n"@,
        !args.json && !args.dry_run ==> final_report(records, args).1 == "\n"@ + "Pruned"@ + " "@
            + numbers::decimal(records.len()) + " session(s).\n"@,
        action_word(true) == "would-remove"@,
        action_word(false) == "removed"@,
{
}

proof fn lemma_note_is_in_notes(records: Seq<SessionRecord>, i: int)
    requires
        0 <= i < records.len(),
    ensures
        text::has_substring(
            session_notes(records),
            "  "@ + records[i].session_id@ + " (started "@ + records[i].started@ + ")\n"@,
        ),
    decreases records.len(),
{
    let part = "  "@ + records[i].session_id@ + " (started "@ + records[i].started@ + ")\n"@;
    let before = session_notes(records.drop_last());
    let all = session_notes(records);
    if i == records.len() - 1 {
        let at = before.len() as int;
        assert(all.subrange(at, at + part.len()) =~= part);
    } else {
        lemma_note_is_in_notes(records.drop_last(), i);
        let at = choose|at: int|
            0 <= at <= before.len() - part.len() && #[trigger] before.subrange(
                at,
                at + part.len(),
            ) == part;
        assert(all.subrange(at, at + part.len()) =~= before.subrange(at, at + part.len()));
    }
}

/// The question shows how many sessions will be removed, and each of them with its start.
pub proof fn law_question_shows_every_session(records: Seq<SessionRecord>, i: int)
    requires
        0 <= i < records.len(),
    ensures
        text::has_substring(
            prompt_text(records),
            "  "@ + records[i].session_id@ + " (started "@ + records[i].started@ + ")\n"@,
        ),
        ({
            let head = "The following "@ + numbers::decimal(records.len())
                + " session(s) will be removed:\n"@;
            prompt_text(records).take(head.len() as int) == head
        }),
{
    let head = "The following "@ + numbers::decimal(records.len())
        + " session(s) will be removed:\n"@;
    let part = "  "@ + records[i].session_id@ + " (started "@ + records[i].started@ + ")\n"@;
    let notes = session_notes(records);
    let all = prompt_text(records);
    lemma_note_is_in_notes(records, i);
    let at = choose|at: int|
        0 <= at <= notes.len() - part.len() && #[trigger] notes.subrange(at, at + part.len())
            == part;
    let k = head.len() + at;
    assert(all.subrange(k, k + part.len()) =~= notes.subrange(at, at + part.len()));
    assert(all.take(head.len() as int) =~= head);
}

/// What is reported of the sessions in JSON: the action, how many sessions there are, and the id and
/// start of each.
pub proof fn law_json_report_lists_the_sessions(
    records: Seq<SessionRecord>,
    s: SessionRecord,
    dry_run: bool,
)
    ensures
        entry_json(s) == "{"@ + (json::quoted_json("session_id"@) + ":"@ + json::quoted_json(
            s.session_id@,
        ) + ","@ + (json::quoted_json("started"@) + ":"@ + json::quoted_json(s.started@))) + "}"@,
        report_json(records, dry_run) == "{"@ + (json::quoted_json("action"@) + ":"@
            + json::quoted_json(
            if dry_run {
                "would-remove"@
            } else {
                "removed"@
            },
        ) + ","@ + (json::quoted_json("count"@) + ":"@ + numbers::decimal(records.len())) + ","@
            + (json::quoted_json("sessions"@) + ":"@ + ("["@ + text::joined(
            Seq::new(records.len(), |i: int| entry_json(records[i])),
            ","@,
        ) + "]"@))) + "}"@,
{
    let a = json::quoted_json("session_id"@) + ":"@ + json::quoted_json(s.session_id@);
    let b = json::quoted_json("started"@) + ":"@ + json::quoted_json(s.started@);
    reveal_with_fuel(text::joined, 3);
    assert(seq![a, b].drop_last() =~= seq![a]);
    let x = json::quoted_json("action"@) + ":"@ + json::quoted_json(action_word(dry_run));
    let y = json::quoted_json("count"@) + ":"@ + numbers::decimal(records.len());
    let z = json::quoted_json("sessions"@) + ":"@ + ("["@ + text::joined(
        records.map_values(|s: SessionRecord| entry_json(s)),
        ","@,
    ) + "]"@);
    assert(seq![x, y, z].drop_last() =~= seq![x, y]);
    assert(seq![x, y].drop_last() =~= seq![x]);
    assert(records.map_values(|s: SessionRecord| entry_json(s)) =~= Seq::new(
        records.len(),
        |i: int| entry_json(records[i]),
    ));
}

} // verus!

//! In which order `nono ps` lists sessions.

use std::cmp::Ordering;

use vstd::prelude::*;
use vstd::utf8::*;

use crate::cli::{PsArgs, PsSortBy};
use crate::order;
use crate::ps_filter;
use crate::session::{SessionRecord, SessionStatus};
use crate::text;

verus! {

/// How two things compare.
#[derive(Debug, Clone, Copy, PartialEq, Eq, Structural)]
enum Place {
    Before,
    Same,
    After,
}

/// Compares two texts byte by byte.
fn place_texts(a: &str, b: &str) -> (place: Place)
    ensures
        match place {
            Place::Before => order::text_before(a@, b@),
            Place::Same => a@ == b@,
            Place::After => order::text_before(b@, a@),
        },
{
    let x = a.as_bytes();
    let y = b.as_bytes();
    let mut i: usize = 0;
    assert(x@.skip(0) =~= x@);
    assert(y@.skip(0) =~= y@);
    while i < x.len() && i < y.len() && x[i] == y[i]
        invariant
            i <= x.len(),
            i <= y.len(),
            order::bytes_before(x@.skip(i as int), y@.skip(i as int)) == order::bytes_before(x@, y@),
            order::bytes_before(y@.skip(i as int), x@.skip(i as int)) == order::bytes_before(y@, x@),
            x@.take(i as int) == y@.take(i as int),
        decreases x.len() - i,
    {
        proof {
            assert(x@.skip(i as int).skip(1) =~= x@.skip(i + 1));
            assert(y@.skip(i as int).skip(1) =~= y@.skip(i + 1));
            assert(x@.take(i + 1) =~= x@.take(i as int).push(x@[i as int]));
            assert(y@.take(i + 1) =~= y@.take(i as int).push(y@[i as int]));
        }
        i += 1;
    }
    if i < x.len() && i < y.len() {
        if x[i] < y[i] {
            Place::Before
        } else {
            Place::After
        }
    } else if i < y.len() {
        Place::Before
    } else if i < x.len() {
        Place::After
    } else {
        proof {
            assert(x@.take(i as int) =~= x@);
            assert(y@.take(i as int) =~= y@);
            encode_utf8_decode_utf8(a@);
            encode_utf8_decode_utf8(b@);
        }
        Place::Same
    }
}

/// The rank of a status: live work first, exited last.
pub open spec fn rank_of(status: SessionStatus) -> u8 {
    match status {
        SessionStatus::Running => 0,
        SessionStatus::Paused => 1,
        SessionStatus::Exited => 2,
    }
}

/// The rank of a status in the status order.
pub fn status_rank(status: &SessionStatus) -> (rank: u8)
    ensures
        rank == rank_of(*status),
{
    match status {
        SessionStatus::Running => 0,
        SessionStatus::Paused => 1,
        SessionStatus::Exited => 2,
    }
}

/// Texts in order, and what has no text last; `tie` decides between equals.
pub open spec fn labelled_before(
    a: Option<Seq<char>>,
    b: Option<Seq<char>>,
    tie: bool,
) -> bool {
    match (a, b) {
        (Some(x), Some(y)) => order::text_before(x, y) || (x == y && tie),
        (Some(_), None) => true,
        (None, Some(_)) => false,
        (None, None) => tie,
    }
}

/// Whether one session is listed before another. Newer sessions come before older ones, names
/// and profiles are in alphabetical order with the unnamed last, and live sessions come before
/// exited ones. The session id decides between equals.
pub open spec fn ps_before(a: SessionRecord, b: SessionRecord, key: PsSortBy) -> bool {
    let id = order::text_before(a.session_id@, b.session_id@);
    let newer = a.started_epoch > b.started_epoch || (a.started_epoch == b.started_epoch && id);
    match key {
        PsSortBy::Started => newer,
        PsSortBy::Name => labelled_before(text::opt_text(a.name), text::opt_text(b.name), id),
        PsSortBy::Status => rank_of(a.status) < rank_of(b.status) || (rank_of(a.status) == rank_of(
            b.status,
        ) && newer),
        PsSortBy::Profile => labelled_before(
            text::opt_text(a.profile),
            text::opt_text(b.profile),
            id,
        ),
    }
}

/// Compares two optional texts, and then what decides between equals.
fn place_labels(a: &Option<String>, b: &Option<String>, tie: Place) -> (place: Place)
    ensures
        match (*a, *b) {
            (Some(x), Some(y)) => {
                ||| order::text_before(x@, y@) && place == Place::Before
                ||| order::text_before(y@, x@) && place == Place::After
                ||| x@ == y@ && place == tie
            },
            (Some(_), None) => place == Place::Before,
            (None, Some(_)) => place == Place::After,
            (None, None) => place == tie,
        },
{
    match (a, b) {
        (Some(x), Some(y)) => match place_texts(x.as_str(), y.as_str()) {
            Place::Before => Place::Before,
            Place::After => Place::After,
            Place::Same => tie,
        },
        (Some(_), None) => Place::Before,
        (None, Some(_)) => Place::After,
        (None, None) => tie,
    }
}

/// Compares two sessions.
fn place_sessions(a: &SessionRecord, b: &SessionRecord, key: PsSortBy) -> (place: Place)
    ensures
        match place {
            Place::Before => ps_before(*a, *b, key) && !ps_before(*b, *a, key),
            Place::After => ps_before(*b, *a, key) && !ps_before(*a, *b, key),
            Place::Same => !ps_before(*a, *b, key) && !ps_before(*b, *a, key),
        },
{
    proof {
        lemma_pair(*a, *b);
    }
    let id = place_texts(a.session_id.as_str(), b.session_id.as_str());
    let newer = if a.started_epoch > b.started_epoch {
        Place::Before
    } else if a.started_epoch < b.started_epoch {
        Place::After
    } else {
        id
    };
    match key {
        PsSortBy::Started => newer,
        PsSortBy::Name => place_labels(&a.name, &b.name, id),
        PsSortBy::Status => {
            let ra: u8 = status_rank(&a.status);
            let rb: u8 = status_rank(&b.status);
            if ra < rb {
                Place::Before
            } else if ra > rb {
                Place::After
            } else {
                newer
            }
        },
        PsSortBy::Profile => place_labels(&a.profile, &b.profile, id),
    }
}

/// Compares two sessions under a sort key.
pub fn cmp_ps(a: &SessionRecord, b: &SessionRecord, key: PsSortBy) -> (o: Ordering)
    ensures
        match o {
            Ordering::Less => ps_before(*a, *b, key) && !ps_before(*b, *a, key),
            Ordering::Greater => ps_before(*b, *a, key) && !ps_before(*a, *b, key),
            Ordering::Equal => !ps_before(*a, *b, key) && !ps_before(*b, *a, key),
        },
{
    match place_sessions(a, b, key) {
        Place::Before => Ordering::Less,
        Place::After => Ordering::Greater,
        Place::Same => Ordering::Equal,
    }
}

/// Whether a session is listed before another.
fn comes_first(a: &SessionRecord, b: &SessionRecord, key: PsSortBy) -> (yes: bool)
    ensures
        yes == ps_before(*a, *b, key),
{
    match cmp_ps(a, b, key) {
        Ordering::Less => true,
        Ordering::Greater => false,
        Ordering::Equal => false,
    }
}

/// The order of sessions under a key.
pub open spec fn session_order(key: PsSortBy) -> spec_fn(SessionRecord, SessionRecord) -> bool {
    |a: SessionRecord, b: SessionRecord| ps_before(a, b, key)
}

/// Facts on the texts of two sessions.
proof fn lemma_pair(a: SessionRecord, b: SessionRecord)
    ensures
        ({
            let (x, y) = (a.session_id@, b.session_id@);
            &&& !(order::text_before(x, y) && order::text_before(y, x))
            &&& (x == y ==> !order::text_before(x, y))
            &&& (order::text_before(x, y) || order::text_before(y, x) || x == y)
        }),
        (a.name matches Some(x) && b.name matches Some(y)) ==> {
            let (x, y) = (a.name->0@, b.name->0@);
            &&& !(order::text_before(x, y) && order::text_before(y, x))
            &&& (x == y ==> !order::text_before(x, y))
            &&& (order::text_before(x, y) || order::text_before(y, x) || x == y)
        },
        (a.profile matches Some(x) && b.profile matches Some(y)) ==> {
            let (x, y) = (a.profile->0@, b.profile->0@);
            &&& !(order::text_before(x, y) && order::text_before(y, x))
            &&& (x == y ==> !order::text_before(x, y))
            &&& (order::text_before(x, y) || order::text_before(y, x) || x == y)
        },
{
    order::law_texts_are_totally_ordered(a.session_id@, b.session_id@);
    if a.name is Some && b.name is Some {
        order::law_texts_are_totally_ordered(a.name->0@, b.name->0@);
    }
    if a.profile is Some && b.profile is Some {
        order::law_texts_are_totally_ordered(a.profile->0@, b.profile->0@);
    }
}

/// Dictionary order is transitive on the texts of three sessions.
proof fn lemma_triple(a: SessionRecord, b: SessionRecord, c: SessionRecord)
    ensures
        order::text_before(a.session_id@, b.session_id@) && order::text_before(b.session_id@, c.session_id@)
            ==> order::text_before(a.session_id@, c.session_id@),
        a.name is Some && b.name is Some && c.name is Some && order::text_before(
            a.name->0@,
            b.name->0@,
        ) && order::text_before(b.name->0@, c.name->0@) ==> order::text_before(a.name->0@, c.name->0@),
        a.profile is Some && b.profile is Some && c.profile is Some && order::text_before(
            a.profile->0@,
            b.profile->0@,
        ) && order::text_before(b.profile->0@, c.profile->0@) ==> order::text_before(
            a.profile->0@,
            c.profile->0@,
        ),
{
    if order::text_before(a.session_id@, b.session_id@) && order::text_before(b.session_id@, c.session_id@) {
        order::law_text_order_is_transitive(a.session_id@, b.session_id@, c.session_id@);
    }
    if a.name is Some && b.name is Some && c.name is Some && order::text_before(a.name->0@, b.name->0@)
        && order::text_before(b.name->0@, c.name->0@) {
        order::law_text_order_is_transitive(a.name->0@, b.name->0@, c.name->0@);
    }
    if a.profile is Some && b.profile is Some && c.profile is Some && order::text_before(
        a.profile->0@,
        b.profile->0@,
    ) && order::text_before(b.profile->0@, c.profile->0@) {
        order::law_text_order_is_transitive(a.profile->0@, b.profile->0@, c.profile->0@);
    }
}

/// Under every key the order of sessions is a weak order: no two sessions come before each other,
/// and coming before is transitive, as is being tied.
pub proof fn law_sessions_are_weakly_ordered(key: PsSortBy)
    ensures
        order::is_weak_order(session_order(key)),
{
    let less = session_order(key);
    assert forall|a: SessionRecord, b: SessionRecord| #[trigger] less(a, b) implies !less(
        b,
        a,
    ) by {
        lemma_pair(a, b);
    }
    assert forall|a: SessionRecord, b: SessionRecord, c: SessionRecord|
        #![trigger less(a, b), less(b, c)]
        less(a, b) && less(b, c) implies less(a, c) by {
        lemma_pair(a, b);
        lemma_pair(b, c);
        lemma_pair(a, c);
        lemma_triple(a, b, c);
    }
    assert forall|a: SessionRecord, b: SessionRecord, c: SessionRecord|
        #![trigger less(a, c), less(a, b)]
        #![trigger less(a, c), less(b, c)]
        less(a, c) implies less(a, b) || less(b, c) by {
        lemma_pair(a, b);
        lemma_pair(b, c);
        lemma_pair(a, c);
        lemma_triple(a, c, b);
        lemma_triple(b, a, c);
        lemma_triple(c, b, a);
    }
}

/// Sessions with different ids never tie, so that any two listings of them agree.
pub proof fn law_sessions_with_different_ids_never_tie(
    a: SessionRecord,
    b: SessionRecord,
    key: PsSortBy,
)
    requires
        a.session_id@ != b.session_id@,
    ensures
        ps_before(a, b, key) || ps_before(b, a, key),
{
    lemma_pair(a, b);
}

/// `out` lists the sessions of `kept`: sorted where a key is given, and turned round where asked.
pub open spec fn is_arranged(
    kept: Seq<SessionRecord>,
    out: Seq<SessionRecord>,
    sort: Option<PsSortBy>,
    reverse: bool,
) -> bool {
    let forward = if reverse {
        out.reverse()
    } else {
        out
    };
    match sort {
        Some(key) => order::is_stable_sort(kept, forward, session_order(key)),
        None => forward == kept,
    }
}

/// Sorts sessions under a key; sessions that tie keep their order.
pub fn sort_sessions<'a>(sessions: Vec<&'a SessionRecord>, key: PsSortBy) -> (out: Vec<
    &'a SessionRecord,
>)
    ensures
        order::is_stable_sort(
            ps_filter::records_of(sessions@),
            ps_filter::records_of(out@),
            session_order(key),
        ),
{
    let ghost input = sessions@;
    let ghost less = |a: &'a SessionRecord, b: &'a SessionRecord| ps_before(*a, *b, key);
    let first = |a: &&'a SessionRecord, b: &&'a SessionRecord| -> (r: bool)
        ensures
            r == ps_before(**a, **b, key),
        { comes_first(*a, *b, key) };
    proof {
        law_sessions_are_weakly_ordered(key);
        let so = session_order(key);
        assert forall|a: &'a SessionRecord, b: &'a SessionRecord| #[trigger] less(a, b) implies
            !less(b, a) by {
            assert(so(*a, *b));
        }
        assert forall|a: &'a SessionRecord, b: &'a SessionRecord, c: &'a SessionRecord|
            #![trigger less(a, b), less(b, c)]
            less(a, b) && less(b, c) implies less(a, c) by {
            assert(so(*a, *b) && so(*b, *c));
        }
        assert forall|a: &'a SessionRecord, b: &'a SessionRecord, c: &'a SessionRecord|
            #![trigger less(a, c), less(a, b)]
            #![trigger less(a, c), less(b, c)]
            less(a, c) implies less(a, b) || less(b, c) by {
            assert(so(*a, *c));
            assert(so(*a, *b) || so(*b, *c));
        }
    }
    let out = order::stable_sort(sessions, first, Ghost(less));
    proof {
        let f = |r: &'a SessionRecord| *r;
        order::lemma_sort_of_images(input, out@, less, f, session_order(key));
        assert(input.map_values(f) =~= ps_filter::records_of(input));
        assert(out@.map_values(f) =~= ps_filter::records_of(out@));
    }
    out
}

/// Turns a list round.
fn reversed<'a>(list: &Vec<&'a SessionRecord>) -> (out: Vec<&'a SessionRecord>)
    ensures
        out@ == list@.reverse(),
{
    let mut out: Vec<&'a SessionRecord> = Vec::new();
    let mut i: usize = list.len();
    while i > 0
        invariant
            i <= list.len(),
            out@ == list@.skip(i as int).reverse(),
        decreases i,
    {
        i -= 1;
        out.push(list[i]);
        assert(list@.skip(i as int).reverse() =~= list@.skip(i + 1).reverse().push(
            list@[i as int],
        ));
    }
    assert(list@.skip(0) =~= list@);
    out
}

/// Picks the sessions to list, in the order in which to list them.
pub fn select_sessions<'a>(
    sessions: &'a Vec<SessionRecord>,
    args: &PsArgs,
    since_threshold: Option<u64>,
) -> (out: Vec<&'a SessionRecord>)
    ensures
        is_arranged(
            ps_filter::listed(sessions@, *args, since_threshold),
            ps_filter::records_of(out@),
            args.sort,
            args.reverse,
        ),
{
    let kept = ps_filter::filter_sessions(sessions, args, since_threshold);
    let sorted = match args.sort {
        Some(key) => sort_sessions(kept, key),
        None => kept,
    };
    if args.reverse {
        let out = reversed(&sorted);
        assert(ps_filter::records_of(out@).reverse() =~= ps_filter::records_of(sorted@));
        out
    } else {
        sorted
    }
}

/// Whatever the ids: newer sessions come first, live sessions come before paused and these before
/// exited ones, and a session with a name or a profile comes before one without.
pub proof fn law_keys_decide_before_ids(a: SessionRecord, b: SessionRecord)
    ensures
        a.started_epoch > b.started_epoch ==> ps_before(a, b, PsSortBy::Started) && !ps_before(
            b,
            a,
            PsSortBy::Started,
        ),
        rank_of(a.status) < rank_of(b.status) ==> ps_before(a, b, PsSortBy::Status) && !ps_before(
            b,
            a,
            PsSortBy::Status,
        ),
        a.name is Some && b.name is None ==> ps_before(a, b, PsSortBy::Name) && !ps_before(
            b,
            a,
            PsSortBy::Name,
        ),
        a.profile is Some && b.profile is None ==> ps_before(a, b, PsSortBy::Profile)
            && !ps_before(b, a, PsSortBy::Profile),
{
}

/// By start, the newer session comes first, and of two that were started together the one with the
/// earlier id.
pub proof fn law_newer_sessions_come_first(a: SessionRecord, b: SessionRecord)
    ensures
        ps_before(a, b, PsSortBy::Started) <==> a.started_epoch > b.started_epoch || (
        a.started_epoch == b.started_epoch && order::text_before(a.session_id@, b.session_id@)),
{
}

/// By status, running sessions come before paused ones, and these before exited ones; sessions with
/// the same status are in the order of their start.
pub proof fn law_live_sessions_come_first(a: SessionRecord, b: SessionRecord)
    ensures
        a.status == SessionStatus::Running && b.status != SessionStatus::Running ==> ps_before(
            a,
            b,
            PsSortBy::Status,
        ) && !ps_before(b, a, PsSortBy::Status),
        a.status != SessionStatus::Exited && b.status == SessionStatus::Exited ==> ps_before(
            a,
            b,
            PsSortBy::Status,
        ) && !ps_before(b, a, PsSortBy::Status),
        a.status == b.status ==> ps_before(a, b, PsSortBy::Status) == ps_before(
            a,
            b,
            PsSortBy::Started,
        ),
{
}

/// By name, as by profile, texts are in dictionary order, what has none comes last, and the id
/// decides between equals.
pub proof fn law_names_are_in_order(a: SessionRecord, b: SessionRecord)
    ensures
        a.name is Some && b.name is Some && a.name->0@ != b.name->0@ ==> ps_before(
            a,
            b,
            PsSortBy::Name,
        ) == order::text_before(a.name->0@, b.name->0@),
        a.name is Some && b.name is None ==> ps_before(a, b, PsSortBy::Name),
        a.name is None && b.name is Some ==> !ps_before(a, b, PsSortBy::Name),
        text::opt_text(a.name) == text::opt_text(b.name) ==> ps_before(a, b, PsSortBy::Name)
            == order::text_before(a.session_id@, b.session_id@),
        a.profile is Some && b.profile is Some && a.profile->0@ != b.profile->0@ ==> ps_before(
            a,
            b,
            PsSortBy::Profile,
        ) == order::text_before(a.profile->0@, b.profile->0@),
        a.profile is Some && b.profile is None ==> ps_before(a, b, PsSortBy::Profile),
        a.profile is None && b.profile is Some ==> !ps_before(a, b, PsSortBy::Profile),
        text::opt_text(a.profile) == text::opt_text(b.profile) ==> ps_before(
            a,
            b,
            PsSortBy::Profile,
        ) == order::text_before(a.session_id@, b.session_id@),
{
    lemma_pair(a, b);
}

/// Without a key the order is that of the list; turning round lists the same the other way; with a
/// key no session stands before one that comes before it under that key.
pub proof fn law_listing_follows_the_flags(
    kept: Seq<SessionRecord>,
    out: Seq<SessionRecord>,
    sort: Option<PsSortBy>,
    key: PsSortBy,
)
    ensures
        is_arranged(kept, out, None, false) <==> out == kept,
        is_arranged(kept, out, sort, true) <==> is_arranged(kept, out.reverse(), sort, false),
        is_arranged(kept, out, Some(key), false) ==> out.len() == kept.len() && forall|
            i: int,
            j: int,
        |
            0 <= i < j < out.len() ==> !ps_before(#[trigger] out[j], #[trigger] out[i], key),
        is_arranged(kept, out, sort, false) ==> forall|s: SessionRecord|
            #[trigger] out.contains(s) <==> kept.contains(s),
{
    if is_arranged(kept, out, Some(key), false) {
        let less = session_order(key);
        assert forall|i: int, j: int| 0 <= i < j < out.len() implies !ps_before(
            #[trigger] out[j],
            #[trigger] out[i],
            key,
        ) by {
            assert(!less(out[j], out[i]));
        }
    }
    if is_arranged(kept, out, sort, false) && sort is Some {
        law_sessions_are_weakly_ordered(sort->0);
        order::lemma_same_members(kept, out, session_order(sort->0));
    }
}

/// The ranks put live sessions first.
pub proof fn law_ranks_put_live_sessions_first()
    ensures
        rank_of(SessionStatus::Running) < rank_of(SessionStatus::Paused) < rank_of(
            SessionStatus::Exited,
        ),
{
}

} // verus!

//! What holds of the answers as a whole.

use vstd::prelude::*;
use vstd::utf8::*;

use crate::capability;
use crate::capability::{AccessMode, CapabilitySet, FsCapability};
use crate::error::{ErrorView, NonoError};
use crate::numbers;
use crate::order;
use crate::paint::Tint;
use crate::paths;
use crate::query_ext;
use crate::query_ext::{
    ExplainedMatchView, PathContext, PathProbe, QueryResultView, Resolution, SensitiveMatch,
    TargetFacts,
};
use crate::text;

verus! {

/// Among grants of which at least one qualifies, there is a most specific one.
proof fn lemma_best_exists(
    fs: Seq<FsCapability>,
    path: Seq<u8>,
    requested: Option<AccessMode>,
    n: int,
)
    requires
        0 <= n <= fs.len(),
        exists|j: int| 0 <= j < n && query_ext::qualifies(#[trigger] fs[j], path, requested),
    ensures
        exists|k: int| query_ext::is_best_of(fs, path, requested, n, k),
    decreases n,
{
    let m = n - 1;
    if exists|j: int| 0 <= j < m && query_ext::qualifies(#[trigger] fs[j], path, requested) {
        lemma_best_exists(fs, path, requested, m);
        let k = choose|k: int| query_ext::is_best_of(fs, path, requested, m, k);
        if query_ext::qualifies(fs[m], path, requested) && fs[m].resolved@.len()
            >= fs[k].resolved@.len() {
            assert(query_ext::is_best_of(fs, path, requested, n, m));
        } else {
            assert(query_ext::is_best_of(fs, path, requested, n, k));
        }
    } else {
        assert(query_ext::is_best_of(fs, path, requested, n, m));
    }
}

/// A most specific grant is found exactly when some grant qualifies; it qualifies itself, and no
/// qualifying grant has a longer path.
pub proof fn law_most_specific_grant_wins(
    fs: Seq<FsCapability>,
    path: Seq<u8>,
    requested: Option<AccessMode>,
)
    ensures
        match query_ext::best_grant(fs, path, requested) {
            Some(k) => {
                &&& 0 <= k < fs.len()
                &&& query_ext::qualifies(fs[k], path, requested)
                &&& forall|j: int|
                    0 <= j < fs.len() && query_ext::qualifies(#[trigger] fs[j], path, requested)
                        ==> fs[j].resolved@.len() <= fs[k].resolved@.len()
            },
            None => forall|j: int|
                0 <= j < fs.len() ==> !query_ext::qualifies(#[trigger] fs[j], path, requested),
        },
{
    if exists|j: int|
        0 <= j < fs.len() && query_ext::qualifies(#[trigger] fs[j], path, requested) {
        lemma_best_exists(fs, path, requested, fs.len() as int);
        let k = choose|k: int| query_ext::is_best_of(fs, path, requested, fs.len() as int, k);
        assert(query_ext::is_best_of(fs, path, requested, fs.len() as int, k));
    } else if exists|k: int| query_ext::is_best_of(fs, path, requested, fs.len() as int, k) {
        let k = choose|k: int| query_ext::is_best_of(fs, path, requested, fs.len() as int, k);
        assert(query_ext::qualifies(fs[k], path, requested));
    }
}

/// The grants allow a request exactly when one of them alone covers the path with enough access.
/// Where they deny it, a capability is named exactly when some grant covers the path.
pub proof fn law_allowed_iff_one_grant_suffices(
    path: Seq<u8>,
    requested: AccessMode,
    fs: Seq<FsCapability>,
    target: TargetFacts,
)
    ensures
        query_ext::grant_verdict(path, requested, fs, target) is Allowed <==> exists|j: int|
            0 <= j < fs.len() && query_ext::covers(#[trigger] fs[j], path)
                && capability::is_sufficient(fs[j].access, requested),
        match query_ext::grant_verdict(path, requested, fs, target) {
            QueryResultView::Allowed { .. } => true,
            QueryResultView::Denied { matching_capability, .. } => matching_capability is Some
                <==> exists|j: int|
                0 <= j < fs.len() && query_ext::covers(#[trigger] fs[j], path),
            QueryResultView::NotSandboxed { .. } => false,
        },
{
    law_most_specific_grant_wins(fs, path, Some(requested));
    law_most_specific_grant_wins(fs, path, None);
    if exists|j: int|
        0 <= j < fs.len() && query_ext::covers(#[trigger] fs[j], path)
            && capability::is_sufficient(fs[j].access, requested) {
        let j = choose|j: int|
            0 <= j < fs.len() && query_ext::covers(#[trigger] fs[j], path)
                && capability::is_sufficient(fs[j].access, requested);
        assert(query_ext::qualifies(fs[j], path, Some(requested)));
    }
    if exists|j: int| 0 <= j < fs.len() && query_ext::covers(#[trigger] fs[j], path) {
        let j = choose|j: int| 0 <= j < fs.len() && query_ext::covers(#[trigger] fs[j], path);
        assert(query_ext::qualifies(fs[j], path, None));
    }
}

/// More grants never turn an allowed request into a denied one, wherever they stand in the list.
pub proof fn law_more_grants_never_deny(
    path: Seq<u8>,
    requested: AccessMode,
    fs: Seq<FsCapability>,
    more: Seq<FsCapability>,
    target: TargetFacts,
)
    requires
        query_ext::grant_verdict(path, requested, fs, target) is Allowed,
        forall|i: int| 0 <= i < fs.len() ==> more.contains(#[trigger] fs[i]),
    ensures
        query_ext::grant_verdict(path, requested, more, target) is Allowed,
{
    law_allowed_iff_one_grant_suffices(path, requested, fs, target);
    law_allowed_iff_one_grant_suffices(path, requested, more, target);
    let j = choose|j: int|
        0 <= j < fs.len() && query_ext::covers(#[trigger] fs[j], path)
            && capability::is_sufficient(fs[j].access, requested);
    assert(more.contains(fs[j]));
    let k = more.index_of(fs[j]);
    assert(query_ext::covers(more[k], path));
}

/// Whether a flag grants a single file.
pub open spec fn is_file_flag(flag: Seq<char>) -> bool {
    flag.len() >= 5 && flag.skip(flag.len() - 5) == "-file"@
}

/// The flags for files are those that end in `-file`.
proof fn lemma_file_flags(is_file: bool, requested: AccessMode)
    ensures
        is_file_flag(query_ext::flag_text(is_file, requested)) == is_file,
{
    reveal_strlit("-file");
    reveal_strlit("--read-file");
    reveal_strlit("--write-file");
    reveal_strlit("--allow-file");
    reveal_strlit("--read");
    reveal_strlit("--write");
    reveal_strlit("--allow");
    let flag = query_ext::flag_text(is_file, requested);
    let end = flag.skip(flag.len() - 5);
    if is_file {
        assert(end =~= "-file"@);
    } else {
        assert(end[4] != 'e' || end[3] != 'l');
    }
}

/// Following the suggestion gets a denied path allowed: with a grant of the suggested path and of
/// the access that was asked for, for a file where the suggested flag is one for files. Where the
/// policy denies the path nothing is suggested. What is a file on disk is taken to exist.
pub proof fn law_suggested_grant_helps(
    path: Seq<u8>,
    requested: AccessMode,
    fs: Seq<FsCapability>,
    overridden: Seq<Vec<u8>>,
    context: PathContext,
    cap: FsCapability,
    more: Seq<FsCapability>,
)
    requires
        query_ext::path_answer(path, requested, fs, overridden, context) matches Ok(
            QueryResultView::Denied { reason, .. },
        ) && reason != "sensitive_path"@,
        context.target.is_file ==> context.target.exists,
        cap.resolved@ == query_ext::suggested_target(
            query_ext::query_target(path, context.probe)->Ok_0,
            context.target,
        ),
        cap.is_file == is_file_flag(query_ext::flag_text(context.target.is_file, requested)),
        cap.access == requested,
        more.contains(cap),
    ensures
        query_ext::path_answer(path, requested, more, overridden, context) matches Ok(
            QueryResultView::Allowed { .. },
        ),
{
    let target = query_ext::query_target(path, context.probe)->Ok_0;
    lemma_file_flags(context.target.is_file, requested);
    query_ext::law_suggestion_covers_path(target, context.target);
    law_allowed_iff_one_grant_suffices(target, requested, more, context.target);
    let k = more.index_of(cap);
    assert(query_ext::covers(more[k], target));
}

/// For an exempt path the policy has no say.
pub proof fn law_exempt_path_skips_policy(
    path: Seq<u8>,
    requested: AccessMode,
    fs: Seq<FsCapability>,
    overridden: Seq<Vec<u8>>,
    target: TargetFacts,
    sensitive: Result<Option<SensitiveMatch>, NonoError>,
)
    requires
        query_ext::is_exempt(path, overridden),
    ensures
        query_ext::path_verdict(path, requested, fs, overridden, target, sensitive) == Ok::<
            QueryResultView,
            ErrorView,
        >(query_ext::grant_verdict(path, requested, fs, target)),
{
}

/// What is below an exempt path is exempt.
pub proof fn law_exemption_reaches_children(
    path: Seq<u8>,
    base: Seq<u8>,
    overridden: Seq<Vec<u8>>,
)
    requires
        query_ext::is_exempt(base, overridden),
        paths::is_under(path, base),
    ensures
        query_ext::is_exempt(path, overridden),
{
    let k = choose|k: int|
        0 <= k < overridden.len() && paths::is_under(base, #[trigger] overridden[k]@);
    paths::law_under_is_transitive(path, base, overridden[k]@);
}

/// A sensitive path that is not exempt is denied, whatever was granted.
pub proof fn law_policy_overrules_grants(
    path: Seq<u8>,
    requested: AccessMode,
    fs: Seq<FsCapability>,
    overridden: Seq<Vec<u8>>,
    target: TargetFacts,
    matched: SensitiveMatch,
)
    requires
        !query_ext::is_exempt(path, overridden),
    ensures
        query_ext::path_verdict(path, requested, fs, overridden, target, Ok(Some(matched))) == Ok::<
            QueryResultView,
            ErrorView,
        >(query_ext::sensitive_denial(matched.group_name@, matched.description@)),
{
}

/// A last component never starts with a separator.
proof fn lemma_file_name_is_relative(path: Seq<u8>)
    requires
        paths::file_name_of(path) is Some,
    ensures
        !paths::is_rooted(paths::file_name_of(path)->0),
{
    paths::lemma_spans_in_bounds(path, 0);
    let k = paths::spans(path).len() - 1;
    let p = paths::spans(path)[k];
    assert(paths::names(path).last() == path.subrange(p.0, p.1));
    assert(path.subrange(p.0, p.1)[0] == path[p.0]);
}

/// A query about something that does not exist yet is answered for a path below its real
/// directory.
pub proof fn law_missing_path_stays_in_its_directory(path: Seq<u8>, directory: Vec<u8>)
    requires
        paths::parent_of(path) is Some,
    ensures
        ({
            let probe = PathProbe {
                itself: Resolution::Missing,
                parent: Resolution::Resolved(directory),
            };
            &&& query_ext::query_target(path, probe) is Ok
            &&& paths::is_under(query_ext::query_target(path, probe)->Ok_0, directory@)
        }),
{
    let name = match paths::file_name_of(path) {
        Some(name) => name,
        None => Seq::empty(),
    };
    if paths::file_name_of(path) is Some {
        lemma_file_name_is_relative(path);
    }
    paths::law_joined_stays_under(directory@, name);
}

/// Every row explains a grant that covers the path.
proof fn lemma_row_has_grant(
    fs: Seq<FsCapability>,
    path: Seq<u8>,
    requested: AccessMode,
    i: int,
) -> (j: int)
    requires
        0 <= i < query_ext::covering_rows(fs, path, requested).len(),
    ensures
        0 <= j < fs.len(),
        query_ext::covers(fs[j], path),
        query_ext::covering_rows(fs, path, requested)[i] == query_ext::explained(
            fs[j],
            requested,
        ),
{
    let p = |cap: FsCapability| query_ext::covers(cap, path);
    let found = fs.filter(p);
    fs.lemma_filter_pred(p, i);
    assert(found.contains(found[i]));
    fs.lemma_filter_contains_rev(p, found[i]);
    fs.index_of(found[i])
}

/// The rows of an explanation agree with the answer: some row is marked sufficient exactly when
/// the grants allow the request, and there are no rows exactly when no grant covers the path.
pub proof fn law_explanation_agrees_with_verdict(
    path: Seq<u8>,
    requested: AccessMode,
    fs: Seq<FsCapability>,
    target: TargetFacts,
    rows: Seq<ExplainedMatchView>,
)
    requires
        order::is_stable_sort(
            query_ext::covering_rows(fs, path, requested),
            rows,
            query_ext::longer_first(),
        ),
    ensures
        (exists|i: int| 0 <= i < rows.len() && (#[trigger] rows[i]).sufficient)
            <==> query_ext::grant_verdict(path, requested, fs, target) is Allowed,
        rows.len() == 0 <==> forall|j: int|
            0 <= j < fs.len() ==> !query_ext::covers(#[trigger] fs[j], path),
{
    let p = |cap: FsCapability| query_ext::covers(cap, path);
    let f = |cap: FsCapability| query_ext::explained(cap, requested);
    let input = query_ext::covering_rows(fs, path, requested);
    let found = fs.filter(p);
    law_allowed_iff_one_grant_suffices(path, requested, fs, target);
    assert forall|j: int| 0 <= j < fs.len() && query_ext::covers(#[trigger] fs[j], path) implies
        input.contains(query_ext::explained(fs[j], requested)) by {
        assert(p(fs[j]));
        fs.lemma_filter_contains(p, j);
        let m = found.index_of(fs[j]);
        assert(input[m] == f(found[m]));
    }
    order::lemma_same_members(input, rows, query_ext::longer_first());
    if exists|i: int| 0 <= i < rows.len() && (#[trigger] rows[i]).sufficient {
        let i = choose|i: int| 0 <= i < rows.len() && (#[trigger] rows[i]).sufficient;
        assert(rows.contains(rows[i]));
        let m = input.index_of(rows[i]);
        assert(input[m] == rows[i]);
        let j = lemma_row_has_grant(fs, path, requested, m);
        assert(query_ext::covers(fs[j], path));
    }
    if query_ext::grant_verdict(path, requested, fs, target) is Allowed {
        let j = choose|j: int|
            0 <= j < fs.len() && query_ext::covers(#[trigger] fs[j], path)
                && capability::is_sufficient(fs[j].access, requested);
        let row = query_ext::explained(fs[j], requested);
        assert(input.contains(row));
        assert(rows.contains(row));
        let i = rows.index_of(row);
        assert(rows[i].sufficient);
    }
    if rows.len() > 0 {
        let j = lemma_row_has_grant(fs, path, requested, 0);
        assert(query_ext::covers(fs[j], path));
    }
}

/// A bind query does not depend on the ports that may be connected to.
pub proof fn law_bind_query_ignores_connect_ports(
    port: u16,
    caps: CapabilitySet,
    connect: Vec<u16>,
)
    ensures
        query_ext::tcp_bind_verdict(port, caps) == query_ext::tcp_bind_verdict(
            port,
            CapabilitySet { connect, ..caps },
        ),
{
}

/// A port pinned to localhost is allowed to both queries, whatever the network mode and the
/// other lists.
pub proof fn law_localhost_pin_takes_precedence(port: u16, caps: CapabilitySet)
    requires
        caps.localhost@.contains(port),
    ensures
        query_ext::tcp_verdict(port, caps) matches QueryResultView::Allowed { reason, .. }
            && reason == "tcp_localhost_pinned"@,
        query_ext::tcp_bind_verdict(port, caps) matches QueryResultView::Allowed { reason, .. }
            && reason == "tcp_localhost_pinned"@,
{
}

/// What a bind query allows, the general port query allows too.
pub proof fn law_bindable_port_is_allowed(port: u16, caps: CapabilitySet)
    requires
        query_ext::tcp_bind_verdict(port, caps) is Allowed,
    ensures
        query_ext::tcp_verdict(port, caps) is Allowed,
{
}

/// Port queries deny exactly the ports that are on no list that counts, on a blocked network.
pub proof fn law_port_denied_iff_blocked_and_unlisted(port: u16, caps: CapabilitySet)
    ensures
        query_ext::tcp_verdict(port, caps) is Denied <==> caps.network_blocked
            && !caps.localhost@.contains(port) && !caps.connect@.contains(port)
            && !caps.bind@.contains(port),
        query_ext::tcp_bind_verdict(port, caps) is Denied <==> caps.network_blocked
            && !caps.localhost@.contains(port) && !caps.bind@.contains(port),
        !(query_ext::tcp_verdict(port, caps) is NotSandboxed),
        !(query_ext::tcp_bind_verdict(port, caps) is NotSandboxed),
{
}

/// A command on the allow list is allowed, whatever the blocklist says.
pub proof fn law_allow_list_overrides_blocklist(
    name: Seq<char>,
    allowed: Seq<Seq<char>>,
    blocked: Seq<Seq<char>>,
)
    requires
        allowed.contains(query_ext::command_basename(name)),
    ensures
        query_ext::command_verdict(name, allowed, blocked) == query_ext::allowed_view(
            "command_explicitly_allowed"@,
            None,
            Some("policy:allowed_commands"@),
        ),
{
}

/// Following the suggestion for a denied command, which is to add the matched name to the allow
/// list, gets it allowed.
pub proof fn law_command_suggestion_helps(
    name: Seq<char>,
    allowed: Seq<Seq<char>>,
    blocked: Seq<Seq<char>>,
)
    requires
        query_ext::blocked_name(name, allowed, blocked) is Some,
    ensures
        query_ext::command_verdict(
            name,
            allowed.push(query_ext::blocked_name(name, allowed, blocked)->0),
            blocked,
        ) is Allowed,
{
    let base = query_ext::command_basename(name);
    assert(allowed.push(base)[allowed.len() as int] == base);
}

/// The encoding of two texts in a row is the two encodings in a row.
pub proof fn lemma_encode_concat(a: Seq<char>, b: Seq<char>)
    ensures
        encode_utf8(a + b) == encode_utf8(a) + encode_utf8(b),
    decreases a.len(),
{
    if a.len() == 0 {
        assert(a + b =~= b);
        assert(encode_utf8(a) + encode_utf8(b) =~= encode_utf8(b));
    } else {
        lemma_encode_concat(a.drop_first(), b);
        assert((a + b).drop_first() =~= a.drop_first() + b);
        assert(encode_utf8(a + b) =~= encode_utf8(a) + encode_utf8(b));
    }
}

/// Only the character `/` is encoded with the separator byte.
proof fn lemma_separator_byte(c: char)
    requires
        c != '/',
    ensures
        forall|i: int|
            0 <= i < encode_scalar(c as u32).len() ==> #[trigger] encode_scalar(c as u32)[i]
                != paths::SEP,
{
    let u = c as u32;
    assert(u != 47);
    assert(u <= 0x7F && u != 47 ==> leading_byte_width_1(u) != 47) by (bit_vector);
    assert(leading_byte_width_2(u) >= 0x80) by (bit_vector);
    assert(leading_byte_width_3(u) >= 0x80) by (bit_vector);
    assert(leading_byte_width_4(u) >= 0x80) by (bit_vector);
    assert(last_continuation_byte(u) >= 0x80) by (bit_vector);
    assert(second_last_continuation_byte(u) >= 0x80) by (bit_vector);
    assert(third_last_continuation_byte(u) >= 0x80) by (bit_vector);
}

/// A text without `/` has no separator in its encoding, and an encoding that is not empty.
proof fn lemma_no_separator(s: Seq<char>)
    requires
        !s.contains('/'),
    ensures
        forall|i: int|
            0 <= i < encode_utf8(s).len() ==> #[trigger] encode_utf8(s)[i] != paths::SEP,
        s.len() > 0 ==> encode_utf8(s).len() > 0,
    decreases s.len(),
{
    if s.len() > 0 {
        assert(s.contains(s[0]));
        lemma_separator_byte(s[0]);
        assert(!s.drop_first().contains('/')) by {
            if s.drop_first().contains('/') {
                let i = s.drop_first().index_of('/');
                assert(s[i + 1] == '/');
            }
        }
        lemma_no_separator(s.drop_first());
        assert(encode_utf8(s) == encode_scalar(s[0] as u32) + encode_utf8(s.drop_first()));
    }
}

/// A run without separators is one segment.
proof fn lemma_segment_to_end(s: Seq<u8>, i: int)
    requires
        0 <= i <= s.len(),
        forall|k: int| i <= k < s.len() ==> s[k] != paths::SEP,
    ensures
        paths::segment_end(s, i) == s.len(),
    decreases s.len() - i,
{
    if i < s.len() {
        lemma_segment_to_end(s, i + 1);
    }
}

/// `.` and `..` in bytes.
proof fn lemma_dots()
    ensures
        encode_utf8("."@) == seq![paths::DOT],
        encode_utf8(".."@) == seq![paths::DOT, paths::DOT],
{
    reveal_strlit(".");
    reveal_strlit("..");
    assert(is_ascii_chars("."@));
    assert(is_ascii_chars(".."@));
    is_ascii_chars_encode_utf8("."@);
    is_ascii_chars_encode_utf8(".."@);
    assert(encode_utf8("."@)[0] == "."@[0] as u8);
    assert(encode_utf8(".."@)[0] == ".."@[0] as u8);
    assert(encode_utf8(".."@)[1] == ".."@[1] as u8);
    assert(encode_utf8("."@) =~= seq![paths::DOT]);
    assert(encode_utf8(".."@) =~= seq![paths::DOT, paths::DOT]);
}

/// A name that can stand for a file: not empty, without `/`, and neither `.` nor `..`.
pub open spec fn is_plain_name(name: Seq<char>) -> bool {
    name.len() > 0 && !name.contains('/') && name != "."@ && name != ".."@
}

/// The basename of a plain name, alone or behind a directory, is that name.
proof fn lemma_basename(name: Seq<char>, s: Seq<u8>, at: int)
    requires
        is_plain_name(name),
        0 <= at <= s.len(),
        s.skip(at) == encode_utf8(name),
        at > 0 ==> s[at - 1] == paths::SEP,
    ensures
        paths::file_name_of(s) == Some(encode_utf8(name)),
{
    let n = encode_utf8(name);
    lemma_no_separator(name);
    lemma_dots();
    encode_utf8_decode_utf8(name);
    encode_utf8_decode_utf8("."@);
    encode_utf8_decode_utf8(".."@);
    assert forall|k: int| at <= k < s.len() implies s[k] != paths::SEP by {
        assert(s.skip(at)[k - at] == s[k]);
    }
    lemma_segment_to_end(s, at);
    assert(s.skip(at)[0] == s[at]);
    assert(paths::counts(s, at, s.len() as int)) by {
        if s.len() == at + 1 && s[at] == paths::DOT {
            assert(n =~= seq![paths::DOT]);
        }
    }
    assert(paths::spans_from(s, s.len() as int) =~= Seq::empty());
    assert(paths::spans_from(s, at) =~= seq![(at, s.len() as int)]);
    if at > 0 {
        let a = s.take(at - 1);
        let t = s.skip(at - 1);
        assert(s =~= a + t);
        paths::lemma_spans_split(a, t, 0);
        assert(paths::spans_from(s, at - 1) == paths::spans_from(s, at));
    }
    assert(paths::spans(s).last() == (at, s.len() as int));
    assert(paths::names(s).last() =~= n) by {
        assert(s.subrange(at, s.len() as int) =~= s.skip(at));
    }
}

/// A plain name is looked up as it is.
pub proof fn law_plain_name_is_its_own_basename(name: Seq<char>)
    requires
        is_plain_name(name),
    ensures
        query_ext::command_basename(name) == name,
{
    let s = encode_utf8(name);
    assert(s.skip(0) =~= s);
    lemma_basename(name, s, 0);
    encode_utf8_valid_utf8(name);
    encode_utf8_decode_utf8(name);
}

/// A command named by a path is answered as its bare name is.
pub proof fn law_command_path_prefix_is_ignored(
    directory: Seq<char>,
    name: Seq<char>,
    allowed: Seq<Seq<char>>,
    blocked: Seq<Seq<char>>,
)
    requires
        is_plain_name(name),
    ensures
        query_ext::command_verdict(directory + seq!['/'] + name, allowed, blocked)
            == query_ext::command_verdict(name, allowed, blocked),
{
    let head = directory + seq!['/'];
    let whole = head + name;
    lemma_encode_concat(head, name);
    lemma_encode_concat(directory, seq!['/']);
    assert(is_ascii_chars(seq!['/']));
    is_ascii_chars_encode_utf8(seq!['/']);
    assert(encode_utf8(seq!['/'])[0] == seq!['/'][0] as u8);
    let s = encode_utf8(whole);
    let at = encode_utf8(head).len() as int;
    assert(s.skip(at) =~= encode_utf8(name));
    assert(s[at - 1] == paths::SEP);
    lemma_basename(name, s, at);
    encode_utf8_valid_utf8(name);
    encode_utf8_decode_utf8(name);
    law_plain_name_is_its_own_basename(name);
}

/// Text without white space at its ends is left as it is.
proof fn lemma_trimmed_fixed(s: Seq<char>)
    requires
        s.len() > 0,
        !text::is_white_space(s[0]),
        !text::is_white_space(s.last()),
    ensures
        text::trimmed(s) == s,
{
}

/// The last digit of a number is a digit.
proof fn lemma_decimal_ends_in_digit(n: nat)
    ensures
        numbers::decimal(n).len() > 0,
        numbers::is_digit(numbers::decimal(n).last()),
{
    numbers::lemma_decimal_digits(n);
}

/// A host and a port, written with a colon between them, are read back: the port is what follows
/// the last colon. The host does not start with a bracket, nor with white space.
pub proof fn law_host_and_port_read_back(host: Seq<char>, port: u16, default_port: u16)
    requires
        port > 0,
        host.len() > 0,
        host[0] != '[',
        !text::is_white_space(host[0]),
    ensures
        query_ext::host_port(
            host + seq![':'] + numbers::decimal(port as nat),
            default_port,
        ) == Ok::<(Seq<char>, u16), ErrorView>((host, port)),
{
    let d = numbers::decimal(port as nat);
    let s = host + seq![':'] + d;
    lemma_decimal_ends_in_digit(port as nat);
    numbers::lemma_decimal_digits(port as nat);
    assert(s.last() == d.last());
    assert(s[0] == host[0]);
    lemma_trimmed_fixed(s);
    let k = host.len() as int;
    assert(s[k] == ':');
    assert(s.contains(s[k]));
    s.index_of_last_ensures(':');
    assert(s.index_of_last(':') == Some(k)) by {
        let m = s.index_of_last(':')->0;
        if m > k {
            assert(s[m] == d[m - k - 1]);
            assert(numbers::is_digit(d[m - k - 1]));
        }
    }
    assert(s.take(k) =~= host);
    assert(s.skip(k + 1) =~= d);
    numbers::law_decimal_reads_back(port as nat, 65535);
}

/// A bracketed host and a port are read back. The host has no closing bracket.
pub proof fn law_bracketed_host_and_port_read_back(host: Seq<char>, port: u16, default_port: u16)
    requires
        port > 0,
        host.len() > 0,
        !host.contains(']'),
    ensures
        query_ext::host_port(
            seq!['['] + host + seq![']', ':'] + numbers::decimal(port as nat),
            default_port,
        ) == Ok::<(Seq<char>, u16), ErrorView>((host, port)),
{
    let d = numbers::decimal(port as nat);
    let s = seq!['['] + host + seq![']', ':'] + d;
    lemma_decimal_ends_in_digit(port as nat);
    assert(s.last() == d.last());
    lemma_trimmed_fixed(s);
    let rest = s.skip(1);
    let k = host.len() as int;
    assert(rest =~= host + seq![']', ':'] + d);
    assert(rest[k] == ']');
    assert(rest.contains(rest[k]));
    rest.index_of_first_ensures(']');
    assert(rest.index_of_first(']') == Some(k)) by {
        let m = rest.index_of_first(']')->0;
        if m < k {
            assert(host[m] == ']');
            assert(host.contains(host[m]));
        }
    }
    assert(rest.take(k) =~= host);
    assert(rest.skip(k + 1).skip(1) =~= d);
    assert(rest.skip(k + 1)[0] == ':');
    numbers::law_decimal_reads_back(port as nat, 65535);
}

/// What is read has a host, and a port other than 0 unless the default port is 0.
pub proof fn law_read_host_is_not_empty(input: Seq<char>, default_port: u16)
    requires
        query_ext::host_port(input, default_port) is Ok,
    ensures
        query_ext::host_port(input, default_port)->Ok_0.0.len() > 0,
        query_ext::host_port(input, default_port)->Ok_0.1 > 0 || query_ext::host_port(
            input,
            default_port,
        )->Ok_0.1 == default_port,
{
    let t = text::trimmed(input);
    if t[0] != '[' {
        t.index_of_last_ensures(':');
    }
}

/// A text without a colon that does not start with a bracket is a host; its port is the default.
pub proof fn law_bare_host_gets_default_port(host: Seq<char>, default_port: u16)
    requires
        text::trimmed(host).len() > 0,
        text::trimmed(host)[0] != '[',
        !text::trimmed(host).contains(':'),
    ensures
        query_ext::host_port(host, default_port) == Ok::<(Seq<char>, u16), ErrorView>(
            (text::trimmed(host), default_port),
        ),
{
    text::trimmed(host).index_of_last_ensures(':');
}

/// A grant on a file covers that file and nothing else. A grant on a directory covers the directory
/// and all that has its components in front.
pub proof fn law_grants_cover_what_they_name(cap: FsCapability, path: Seq<u8>)
    ensures
        cap.is_file ==> (query_ext::covers(cap, path) <==> paths::components(path)
            == paths::components(cap.resolved@)),
        !cap.is_file ==> (query_ext::covers(cap, path) <==> {
            let (whole, front) = (paths::components(path), paths::components(cap.resolved@));
            front.len() <= whole.len() && whole.take(front.len() as int) == front
        }),
{
    let (whole, front) = (paths::components(path), paths::components(cap.resolved@));
    if front.len() <= whole.len() {
        assert(whole.take(front.len() as int) =~= whole.subrange(0, front.len() as int));
    }
}

/// A grant covers its own path, and one on a directory also what is joined to that path; what one
/// grant on a directory covers, a grant on a directory above it covers too.
pub proof fn law_directory_grants_reach_down(
    cap: FsCapability,
    above: FsCapability,
    name: Seq<u8>,
    path: Seq<u8>,
)
    ensures
        query_ext::covers(cap, cap.resolved@),
        !cap.is_file && !paths::is_rooted(name) ==> query_ext::covers(
            cap,
            paths::joined_path(cap.resolved@, name),
        ),
        !above.is_file && query_ext::covers(above, cap.resolved@) && query_ext::covers(cap, path)
            ==> query_ext::covers(above, path),
{
    paths::law_under_itself(cap.resolved@);
    if !paths::is_rooted(name) {
        paths::law_joined_stays_under(cap.resolved@, name);
    }
    if !above.is_file && query_ext::covers(above, cap.resolved@) && query_ext::covers(cap, path) {
        if !cap.is_file {
            paths::law_under_is_transitive(path, cap.resolved@, above.resolved@);
        }
    }
}

/// A request that is allowed with full access is allowed with either kind of access alone; one for
/// full access needs a single grant that gives both.
pub proof fn law_full_access_allows_each_kind(
    path: Seq<u8>,
    fs: Seq<FsCapability>,
    target: TargetFacts,
)
    ensures
        query_ext::grant_verdict(path, AccessMode::ReadWrite, fs, target) is Allowed ==> {
            &&& query_ext::grant_verdict(path, AccessMode::Read, fs, target) is Allowed
            &&& query_ext::grant_verdict(path, AccessMode::Write, fs, target) is Allowed
        },
        query_ext::grant_verdict(path, AccessMode::ReadWrite, fs, target) is Allowed
            <==> exists|j: int|
            0 <= j < fs.len() && query_ext::covers(#[trigger] fs[j], path) && fs[j].access
                == AccessMode::ReadWrite,
        query_ext::grant_verdict(path, AccessMode::Read, fs, target) is Allowed
            <==> exists|j: int|
            0 <= j < fs.len() && query_ext::covers(#[trigger] fs[j], path) && fs[j].access
                != AccessMode::Write,
        query_ext::grant_verdict(path, AccessMode::Write, fs, target) is Allowed
            <==> exists|j: int|
            0 <= j < fs.len() && query_ext::covers(#[trigger] fs[j], path) && fs[j].access
                != AccessMode::Read,
{
    law_allowed_iff_one_grant_suffices(path, AccessMode::ReadWrite, fs, target);
    law_allowed_iff_one_grant_suffices(path, AccessMode::Read, fs, target);
    law_allowed_iff_one_grant_suffices(path, AccessMode::Write, fs, target);
    assert forall|j: int| 0 <= j < fs.len() implies {
        let a = (#[trigger] fs[j]).access;
        &&& capability::is_sufficient(a, AccessMode::ReadWrite) == (a == AccessMode::ReadWrite)
        &&& capability::is_sufficient(a, AccessMode::Read) == (a != AccessMode::Write)
        &&& capability::is_sufficient(a, AccessMode::Write) == (a != AccessMode::Read)
    } by {
        capability::law_grant_needs_every_right(fs[j].access, AccessMode::ReadWrite);
        capability::law_grant_needs_every_right(fs[j].access, AccessMode::Read);
        capability::law_grant_needs_every_right(fs[j].access, AccessMode::Write);
    }
}

/// An allowed request names the grant that decides: of those that cover the path and give the
/// access, the one with the longest path, and of several of that length the last.
pub proof fn law_allowed_request_names_its_grant(
    path: Seq<u8>,
    requested: AccessMode,
    fs: Seq<FsCapability>,
    target: TargetFacts,
    k: int,
)
    requires
        0 <= k < fs.len(),
        query_ext::covers(fs[k], path),
        capability::is_sufficient(fs[k].access, requested),
        forall|j: int|
            0 <= j < fs.len() && query_ext::covers(#[trigger] fs[j], path)
                && capability::is_sufficient(fs[j].access, requested) ==> fs[j].resolved@.len()
                < fs[k].resolved@.len() || (fs[j].resolved@.len() == fs[k].resolved@.len() && j
                <= k),
    ensures
        query_ext::grant_verdict(path, requested, fs, target) == (QueryResultView::Allowed {
            reason: "granted_path"@,
            granted_path: Some(paths::shown(fs[k].resolved@)),
            access: Some(capability::access_text(fs[k].access)),
            source: Some(capability::source_text(fs[k].source)),
        }),
{
    assert(query_ext::is_best_of(fs, path, Some(requested), fs.len() as int, k));
    query_ext::lemma_best_is_unique(fs, path, Some(requested), k);
}

/// A request that is denied although grants cover the path names the one that comes closest: the
/// one with the longest path, and of several of that length the last. It says what that grant
/// gives and what was asked for, and suggests a flag.
pub proof fn law_insufficient_grant_is_named(
    path: Seq<u8>,
    requested: AccessMode,
    fs: Seq<FsCapability>,
    target: TargetFacts,
    k: int,
)
    requires
        forall|j: int|
            0 <= j < fs.len() && query_ext::covers(#[trigger] fs[j], path)
                ==> !capability::is_sufficient(fs[j].access, requested),
        0 <= k < fs.len(),
        query_ext::covers(fs[k], path),
        forall|j: int|
            0 <= j < fs.len() && query_ext::covers(#[trigger] fs[j], path)
                ==> fs[j].resolved@.len() < fs[k].resolved@.len() || (fs[j].resolved@.len()
                == fs[k].resolved@.len() && j <= k),
    ensures
        query_ext::grant_verdict(path, requested, fs, target) matches QueryResultView::Denied {
            reason,
            details,
            policy_source,
            matching_capability,
            suggested_flag,
        } && {
            let shown = paths::shown(fs[k].resolved@);
            let access = capability::access_text(fs[k].access);
            let source = capability::source_text(fs[k].source);
            &&& reason == "insufficient_access"@
            &&& details == Some(
                "Path is covered by '"@ + shown + "', which grants "@ + access + " access from "@
                    + source + " but "@ + capability::access_text(requested) + " was requested"@,
            )
            &&& policy_source is None
            &&& matching_capability matches Some(m) && m.path == shown && m.access == access
                && m.source == source
            &&& suggested_flag == Some(
                query_ext::flag_text(target.is_file, requested) + " "@ + paths::shown(
                    query_ext::suggested_target(path, target),
                ),
            )
        },
{
    law_most_specific_grant_wins(fs, path, Some(requested));
    assert(query_ext::is_best_of(fs, path, None, fs.len() as int, k));
    query_ext::lemma_best_is_unique(fs, path, None, k);
}

/// A request about a path that no grant covers is denied as such, and a flag is suggested.
pub proof fn law_uncovered_path_is_denied(
    path: Seq<u8>,
    requested: AccessMode,
    fs: Seq<FsCapability>,
    target: TargetFacts,
)
    requires
        forall|j: int| 0 <= j < fs.len() ==> !query_ext::covers(#[trigger] fs[j], path),
    ensures
        query_ext::grant_verdict(path, requested, fs, target) == (QueryResultView::Denied {
            reason: "path_not_granted"@,
            details: Some("Path is not covered by any capability: "@ + paths::shown(path)),
            policy_source: None,
            matching_capability: None,
            suggested_flag: Some(
                query_ext::flag_text(target.is_file, requested) + " "@ + paths::shown(
                    query_ext::suggested_target(path, target),
                ),
            ),
        }),
{
    law_most_specific_grant_wins(fs, path, Some(requested));
    law_most_specific_grant_wins(fs, path, None);
}

/// The suggested flag says what may be done, and whether with a file.
pub proof fn law_flags_say_what_they_grant(requested: AccessMode)
    ensures
        query_ext::flag_text(false, AccessMode::Read) == "--read"@,
        query_ext::flag_text(false, AccessMode::Write) == "--write"@,
        query_ext::flag_text(false, AccessMode::ReadWrite) == "--allow"@,
        query_ext::flag_text(true, requested) == query_ext::flag_text(false, requested)
            + "-file"@,
{
    reveal_strlit("-file");
    reveal_strlit("--read-file");
    reveal_strlit("--write-file");
    reveal_strlit("--allow-file");
    reveal_strlit("--read");
    reveal_strlit("--write");
    reveal_strlit("--allow");
    assert("--read-file"@ =~= "--read"@ + "-file"@);
    assert("--write-file"@ =~= "--write"@ + "-file"@);
    assert("--allow-file"@ =~= "--allow"@ + "-file"@);
}

/// For what exists the path itself is suggested. For what does not, its directory is, which has one
/// component less, unless that is the root.
pub proof fn law_missing_paths_get_their_directory(path: Seq<u8>, facts: TargetFacts)
    ensures
        facts.exists || facts.is_dir ==> query_ext::suggested_target(path, facts) == path,
        paths::parent_of(path) is None ==> query_ext::suggested_target(path, facts) == path,
        !facts.exists && !facts.is_dir && paths::parent_of(path) is Some ==> ({
            let above = paths::components(path).drop_last();
            let chosen = paths::components(query_ext::suggested_target(path, facts));
            if above == seq![seq![paths::SEP]] {
                chosen == paths::components(path)
            } else {
                chosen == above
            }
        }),
{
    if paths::parent_of(path) is Some {
        paths::law_parent_drops_one_component(path);
        let root: Seq<u8> = seq![paths::SEP];
        assert(paths::spans_from(root, 1).len() == 0);
        assert(paths::components(root) =~= seq![seq![paths::SEP]]);
    }
}

/// A path is exempt exactly when it is at or below one of the exempted paths: no list exempts
/// nothing, one path exempts what is under it, and two lists exempt what either does.
pub proof fn law_exemptions_add_up(
    path: Seq<u8>,
    base: Vec<u8>,
    a: Seq<Vec<u8>>,
    b: Seq<Vec<u8>>,
)
    ensures
        !query_ext::is_exempt(path, Seq::empty()),
        query_ext::is_exempt(path, seq![base]) <==> paths::is_under(path, base@),
        query_ext::is_exempt(path, a + b) <==> query_ext::is_exempt(path, a)
            || query_ext::is_exempt(path, b),
{
    let one = seq![base];
    assert(one[0] == base);
    if query_ext::is_exempt(path, a) {
        let k = choose|k: int| 0 <= k < a.len() && paths::is_under(path, #[trigger] a[k]@);
        assert((a + b)[k] == a[k]);
    }
    if query_ext::is_exempt(path, b) {
        let k = choose|k: int| 0 <= k < b.len() && paths::is_under(path, #[trigger] b[k]@);
        assert((a + b)[a.len() + k] == b[k]);
    }
    if query_ext::is_exempt(path, a + b) {
        let k = choose|k: int|
            0 <= k < (a + b).len() && paths::is_under(path, #[trigger] (a + b)[k]@);
        if k < a.len() {
            assert(a[k] == (a + b)[k]);
        } else {
            assert(b[k - a.len()] == (a + b)[k]);
        }
    }
}

/// The policy is asked about every path that is not exempt, and about no other: its denial stands,
/// its failure is an error, and where it has nothing to say the grants decide.
pub proof fn law_policy_has_the_first_word(
    path: Seq<u8>,
    requested: AccessMode,
    fs: Seq<FsCapability>,
    overridden: Seq<Vec<u8>>,
    target: TargetFacts,
    sensitive: Result<Option<SensitiveMatch>, NonoError>,
)
    ensures
        ({
            let r = query_ext::path_verdict(path, requested, fs, overridden, target, sensitive);
            let granted = Ok::<QueryResultView, ErrorView>(
                query_ext::grant_verdict(path, requested, fs, target),
            );
            let exempt = exists|k: int|
                0 <= k < overridden.len() && paths::is_under(path, #[trigger] overridden[k]@);
            &&& exempt ==> r == granted
            &&& sensitive matches Ok(None) ==> r == granted
            &&& sensitive matches Err(e) ==> !exempt ==> r == Err::<QueryResultView, ErrorView>(e@)
            &&& sensitive matches Ok(Some(m)) ==> !exempt ==> r == Ok::<
                QueryResultView,
                ErrorView,
            >(
                QueryResultView::Denied {
                    reason: "sensitive_path"@,
                    details: Some(
                        "Blocked by policy group '"@ + m.group_name@ + "': "@ + m.description@
                            + " Use policy.override_deny to exempt specific paths when appropriate."@,
                    ),
                    policy_source: Some("group:"@ + m.group_name@),
                    matching_capability: None,
                    suggested_flag: None,
                },
            )
        }),
{
}

/// A query is about the canonical form of what exists, and about what is given where neither it nor
/// its directory exists. What exists but cannot be made canonical is an error that names it.
pub proof fn law_queries_are_about_canonical_paths(path: Seq<u8>, probe: PathProbe)
    ensures
        probe.itself matches Resolution::Resolved(p) ==> query_ext::query_target(path, probe) == Ok::<
            Seq<u8>,
            ErrorView,
        >(p@),
        probe.itself matches Resolution::Failed(e) ==> query_ext::query_target(path, probe)
            == Err::<Seq<u8>, ErrorView>(
            ErrorView::PathCanonicalization { path, source: e@ },
        ),
        probe.itself is Missing && (probe.parent is Missing || paths::parent_of(path) is None)
            ==> query_ext::query_target(path, probe) == Ok::<Seq<u8>, ErrorView>(path),
        probe.itself is Missing && paths::parent_of(path) is Some ==> (match probe.parent {
            Resolution::Resolved(p) => query_ext::query_target(path, probe) == Ok::<
                Seq<u8>,
                ErrorView,
            >(
                paths::joined_path(
                    p@,
                    match paths::file_name_of(path) {
                        Some(name) => name,
                        None => Seq::empty(),
                    },
                ),
            ),
            Resolution::Failed(e) => query_ext::query_target(path, probe) == Err::<
                Seq<u8>,
                ErrorView,
            >(
                ErrorView::PathCanonicalization {
                    path: paths::parent_of(path)->0,
                    source: e@,
                },
            ),
            Resolution::Missing => true,
        }),
{
}

/// The answer to a query is the verdict on the path that it is about, or the error in finding it.
pub proof fn law_answers_are_about_the_target(
    path: Seq<u8>,
    requested: AccessMode,
    fs: Seq<FsCapability>,
    overridden: Seq<Vec<u8>>,
    context: PathContext,
)
    ensures
        match query_ext::query_target(path, context.probe) {
            Ok(target) => query_ext::path_answer(path, requested, fs, overridden, context)
                == query_ext::path_verdict(
                target,
                requested,
                fs,
                overridden,
                context.target,
                context.sensitive,
            ),
            Err(e) => query_ext::path_answer(path, requested, fs, overridden, context) == Err::<
                QueryResultView,
                ErrorView,
            >(e),
        },
{
}

/// The rows of an explanation are made grant by grant: those that cover the path each give a row
/// with their path, access and source, and whether they alone would have been enough.
pub proof fn law_rows_are_made_grant_by_grant(
    a: Seq<FsCapability>,
    b: Seq<FsCapability>,
    cap: FsCapability,
    path: Seq<u8>,
    requested: AccessMode,
)
    ensures
        query_ext::covering_rows(a + b, path, requested) == query_ext::covering_rows(
            a,
            path,
            requested,
        ) + query_ext::covering_rows(b, path, requested),
        !query_ext::covers(cap, path) ==> query_ext::covering_rows(seq![cap], path, requested).len()
            == 0,
        query_ext::covers(cap, path) ==> query_ext::covering_rows(seq![cap], path, requested)
            == seq![
            ExplainedMatchView {
                path: paths::shown(cap.resolved@),
                access: capability::access_text(cap.access),
                source: capability::source_text(cap.source),
                sufficient: cap.access == AccessMode::ReadWrite || cap.access == requested,
            },
        ],
{
    let p = |cap: FsCapability| query_ext::covers(cap, path);
    let f = |cap: FsCapability| query_ext::explained(cap, requested);
    Seq::filter_distributes_over_add(a, b, p);
    assert((a.filter(p) + b.filter(p)).map_values(f) =~= a.filter(p).map_values(f) + b.filter(
        p,
    ).map_values(f));
    reveal_with_fuel(Seq::filter, 2);
    assert(seq![cap].drop_last() =~= Seq::empty());
    if query_ext::covers(cap, path) {
        assert(seq![cap].filter(p) =~= seq![cap]);
        assert(query_ext::covering_rows(seq![cap], path, requested) =~= seq![f(cap)]);
    } else {
        assert(seq![cap].filter(p) =~= Seq::empty());
    }
}

/// The rows of an explanation have the longest path first, and there is one for each of the grants
/// that cover the path.
pub proof fn law_rows_are_sorted(
    path: Seq<u8>,
    requested: AccessMode,
    fs: Seq<FsCapability>,
    rows: Seq<ExplainedMatchView>,
    i: int,
    j: int,
)
    requires
        order::is_stable_sort(
            query_ext::covering_rows(fs, path, requested),
            rows,
            query_ext::longer_first(),
        ),
        0 <= i < j < rows.len(),
    ensures
        rows.len() == query_ext::covering_rows(fs, path, requested).len(),
        encode_utf8(rows[i].path).len() >= encode_utf8(rows[j].path).len(),
{
    let less = query_ext::longer_first();
    assert(!less(rows[j], rows[i]));
}

/// Which list decides about a port, and what is said of it.
pub proof fn law_port_is_judged_by_the_first_list(port: u16, caps: CapabilitySet)
    ensures
        ({
            let p = numbers::decimal(port as nat);
            let v = query_ext::tcp_verdict(port, caps);
            let (l, c, b) = (
                caps.localhost@.contains(port),
                caps.connect@.contains(port),
                caps.bind@.contains(port),
            );
            &&& l ==> v == QueryResultView::Allowed {
                reason: "tcp_localhost_pinned"@,
                granted_path: None,
                access: Some("localhost-only IPC on port "@ + p),
                source: Some("policy:localhost_ports"@),
            }
            &&& !l && c ==> v == QueryResultView::Allowed {
                reason: "tcp_connect_allowed"@,
                granted_path: None,
                access: Some("outbound TCP connect on port "@ + p),
                source: Some("policy:tcp_connect_ports"@),
            }
            &&& !l && !c && b ==> v == QueryResultView::Allowed {
                reason: "tcp_bind_allowed"@,
                granted_path: None,
                access: Some("local TCP bind on port "@ + p),
                source: Some("policy:tcp_bind_ports"@),
            }
            &&& !l && !c && !b && !caps.network_blocked ==> (v matches QueryResultView::Allowed {
                reason,
                granted_path,
                source,
                ..
            } && reason == "network_unrestricted"@ && granted_path is None && source is None)
            &&& !l && !c && !b && caps.network_blocked ==> (v matches QueryResultView::Denied {
                reason,
                policy_source,
                matching_capability,
                suggested_flag,
                ..
            } && reason == "tcp_port_not_allowlisted"@ && policy_source is None
                && matching_capability is None && suggested_flag == Some(
                "--allow-connect-port "@ + p,
            ))
        }),
{
}

/// Which list decides about binding a port, and what is said of it.
pub proof fn law_bound_port_is_judged_by_the_first_list(port: u16, caps: CapabilitySet)
    ensures
        ({
            let p = numbers::decimal(port as nat);
            let v = query_ext::tcp_bind_verdict(port, caps);
            let (l, b) = (caps.localhost@.contains(port), caps.bind@.contains(port));
            &&& l ==> v == QueryResultView::Allowed {
                reason: "tcp_localhost_pinned"@,
                granted_path: None,
                access: Some("localhost-only IPC on port "@ + p + " (covers bind + connect)"@),
                source: Some("policy:localhost_ports"@),
            }
            &&& !l && b ==> v == QueryResultView::Allowed {
                reason: "tcp_bind_allowed"@,
                granted_path: None,
                access: Some("local TCP bind on port "@ + p),
                source: Some("policy:tcp_bind_ports"@),
            }
            &&& !l && !b && !caps.network_blocked ==> (v matches QueryResultView::Allowed {
                reason,
                granted_path,
                source,
                ..
            } && reason == "network_unrestricted"@ && granted_path is None && source is None)
            &&& !l && !b && caps.network_blocked ==> (v matches QueryResultView::Denied {
                reason,
                policy_source,
                matching_capability,
                suggested_flag,
                ..
            } && reason == "tcp_bind_not_allowlisted"@ && policy_source is None
                && matching_capability is None && suggested_flag == Some("--allow-port "@ + p))
        }),
{
}

/// Following the suggestion for a denied port, which is to add it to the list that was named, gets
/// it allowed.
pub proof fn law_port_suggestions_help(port: u16, caps: CapabilitySet, ports: Vec<u16>)
    requires
        ports@.contains(port),
    ensures
        query_ext::tcp_verdict(port, CapabilitySet { connect: ports, ..caps }) is Allowed,
        query_ext::tcp_verdict(port, CapabilitySet { bind: ports, ..caps }) is Allowed,
        query_ext::tcp_bind_verdict(port, CapabilitySet { bind: ports, ..caps }) is Allowed,
        query_ext::tcp_bind_verdict(port, CapabilitySet { localhost: ports, ..caps }) is Allowed,
        query_ext::tcp_verdict(port, CapabilitySet { network_blocked: false, ..caps }) is Allowed,
{
}

/// Queries about ports depend on nothing but the network mode and whether the port is on the lists.
pub proof fn law_port_queries_see_the_lists_only(
    port: u16,
    a: CapabilitySet,
    b: CapabilitySet,
)
    requires
        a.network_blocked == b.network_blocked,
        a.localhost@.contains(port) == b.localhost@.contains(port),
        a.connect@.contains(port) == b.connect@.contains(port),
        a.bind@.contains(port) == b.bind@.contains(port),
    ensures
        query_ext::tcp_verdict(port, a) == query_ext::tcp_verdict(port, b),
        query_ext::tcp_bind_verdict(port, a) == query_ext::tcp_bind_verdict(port, b),
{
}

/// A connection is denied exactly where the network is blocked, whatever the host, the port and the
/// lists; either way the host and the port are named.
pub proof fn law_connections_are_denied_on_blocked_networks(
    host: Seq<char>,
    port: u16,
    caps: CapabilitySet,
)
    ensures
        query_ext::network_verdict(host, port, caps) is Denied <==> caps.network_blocked,
        query_ext::network_verdict(host, port, caps) is Allowed <==> !caps.network_blocked,
        caps.network_blocked ==> query_ext::network_verdict(host, port, caps) == (
        QueryResultView::Denied {
            reason: "network_blocked"@,
            details: Some(
                "Network access is blocked. Connection to "@ + host + ":"@ + numbers::decimal(
                    port as nat,
                ) + " would be denied."@,
            ),
            policy_source: None,
            matching_capability: None,
            suggested_flag: None,
        }),
        !caps.network_blocked ==> query_ext::network_verdict(host, port, caps) == (
        QueryResultView::Allowed {
            reason: "network_allowed"@,
            granted_path: None,
            access: Some(
                "Connection to "@ + host + ":"@ + numbers::decimal(port as nat)
                    + " would be allowed"@,
            ),
            source: None,
        }),
{
}

/// A command is denied exactly when its last component is on the blocklist and not on the allow
/// list.
pub proof fn law_command_is_denied_iff_blocked_and_not_allowed(
    name: Seq<char>,
    allowed: Seq<Seq<char>>,
    blocked: Seq<Seq<char>>,
)
    ensures
        ({
            let base = query_ext::command_basename(name);
            let v = query_ext::command_verdict(name, allowed, blocked);
            &&& v is Denied <==> blocked.contains(base) && !allowed.contains(base)
            &&& v is Allowed <==> !blocked.contains(base) || allowed.contains(base)
            &&& v matches QueryResultView::Denied {
                reason,
                details,
                policy_source,
                matching_capability,
                suggested_flag,
            } ==> {
                &&& reason == "blocked_command"@
                &&& details == Some(
                    "Command '"@ + base
                        + "' is blocked by the resolved policy. Override with `--allow-command "@
                        + base + "` if you understand the risk."@,
                )
                &&& policy_source == Some("policy:blocked_commands"@)
                &&& matching_capability is None
                &&& suggested_flag == Some("--allow-command "@ + base)
            }
            &&& v matches QueryResultView::Allowed { reason, granted_path, access, source } ==> {
                &&& reason == (if allowed.contains(base) {
                    "command_explicitly_allowed"@
                } else {
                    "command_not_blocked"@
                })
                &&& granted_path is None
                &&& access is None
                &&& source == (if allowed.contains(base) {
                    Some("policy:allowed_commands"@)
                } else {
                    None
                })
            }
        }),
{
}

/// Other commands on the lists make no difference to the verdict on a command.
pub proof fn law_other_commands_do_not_matter(
    name: Seq<char>,
    allowed: Seq<Seq<char>>,
    blocked: Seq<Seq<char>>,
    other: Seq<char>,
)
    requires
        other != query_ext::command_basename(name),
    ensures
        query_ext::command_verdict(name, allowed.push(other), blocked)
            == query_ext::command_verdict(name, allowed, blocked),
        query_ext::command_verdict(name, allowed, blocked.push(other))
            == query_ext::command_verdict(name, allowed, blocked),
{
    let base = query_ext::command_basename(name);
    lemma_push_contains(allowed, other, base);
    lemma_push_contains(blocked, other, base);
}

proof fn lemma_push_contains(list: Seq<Seq<char>>, other: Seq<char>, base: Seq<char>)
    requires
        other != base,
    ensures
        list.push(other).contains(base) == list.contains(base),
{
    if list.contains(base) {
        assert(list.push(other)[list.index_of(base)] == base);
    }
    if list.push(other).contains(base) {
        let i = list.push(other).index_of(base);
        assert(list[i] == base);
    }
}

/// A command whose path has no last component to go by is looked up as it was given.
pub proof fn law_nameless_commands_are_looked_up_whole(name: Seq<char>)
    requires
        paths::file_name_of(encode_utf8(name)) is None,
    ensures
        query_ext::command_basename(name) == name,
{
}

/// What is read as a host and a port was written in one of three ways: the host alone, with the
/// default port; the host, a colon and the port; or the host in brackets, a colon and the port.
pub proof fn law_hosts_and_ports_are_written_in_three_ways(input: Seq<char>, default_port: u16)
    requires
        query_ext::host_port(input, default_port) is Ok,
    ensures
        ({
            let t = text::trimmed(input);
            let (host, port) = query_ext::host_port(input, default_port)->Ok_0;
            ||| t == host && !t.contains(':') && port == default_port
            ||| exists|digits: Seq<char>|
                t == host + seq![':'] + digits && !digits.contains(':') && port > 0
                    && #[trigger] numbers::unsigned_value(digits, 65535) == Some(port as nat)
            ||| exists|digits: Seq<char>|
                t == seq!['['] + host + seq![']', ':'] + digits && !host.contains(']') && port > 0
                    && #[trigger] numbers::unsigned_value(digits, 65535) == Some(port as nat)
        }),
{
    let t = text::trimmed(input);
    let (host, port) = query_ext::host_port(input, default_port)->Ok_0;
    if t[0] == '[' {
        let rest = t.skip(1);
        rest.index_of_first_ensures(']');
        let k = rest.index_of_first(']')->0;
        let digits = rest.skip(k + 1).skip(1);
        assert(rest.skip(k + 1)[0] == rest[k + 1]);
        assert(t =~= seq!['['] + host + seq![']', ':'] + digits);
        assert(!host.contains(']')) by {
            if host.contains(']') {
                let m = host.index_of(']');
                assert(rest[m] == ']');
            }
        }
    } else {
        t.index_of_last_ensures(':');
        if t.index_of_last(':') is Some {
            let k = t.index_of_last(':')->0;
            let digits = t.skip(k + 1);
            assert(t =~= host + seq![':'] + digits);
            assert(!digits.contains(':')) by {
                if digits.contains(':') {
                    let m = digits.index_of(':');
                    assert(t[k + 1 + m] == ':');
                }
            }
        }
    }
}

/// What stands behind the last colon of a host without brackets has to be a port: a number from 1
/// to 65535.
pub proof fn law_bad_ports_are_refused(host: Seq<char>, digits: Seq<char>, default_port: u16)
    requires
        host.len() > 0,
        host[0] != '[',
        !text::is_white_space(host[0]),
        digits.len() > 0,
        !digits.contains(':'),
        !text::is_white_space(digits.last()),
        numbers::unsigned_value(digits, 65535) is None || numbers::unsigned_value(digits, 65535)
            == Some(0nat),
    ensures
        query_ext::host_port(host + seq![':'] + digits, default_port) == Err::<
            (Seq<char>, u16),
            ErrorView,
        >(
            ErrorView::ConfigParse(
                if numbers::unsigned_value(digits, 65535) is None {
                    "--net invalid port `"@ + digits + "`"@
                } else {
                    "--net port must be in 1..=65535"@
                },
            ),
        ),
{
    let s = host + seq![':'] + digits;
    assert(s.last() == digits.last());
    assert(s[0] == host[0]);
    lemma_trimmed_fixed(s);
    let k = host.len() as int;
    assert(s[k] == ':');
    assert(s.contains(s[k]));
    s.index_of_last_ensures(':');
    assert(s.index_of_last(':') == Some(k)) by {
        let m = s.index_of_last(':')->0;
        if m > k {
            assert(digits[m - k - 1] == ':');
            assert(digits.contains(digits[m - k - 1]));
        }
    }
    assert(s.take(k) =~= host);
    assert(s.skip(k + 1) =~= digits);
}

/// The answer is headed by one word, in a color of its own.
pub proof fn law_results_are_headed_by_a_word(result: QueryResultView)
    ensures
        result is Allowed ==> query_ext::result_heading(result) == ("ALLOWED"@, Tint::Green),
        result is Denied ==> query_ext::result_heading(result) == ("DENIED"@, Tint::Red),
        result is NotSandboxed ==> query_ext::result_heading(result) == (
            "NOT SANDBOXED"@,
            Tint::Yellow,
        ),
{
}

/// A suggestion is a flag and a path that it is to be given: the file itself, or the directory.
pub proof fn law_suggestions_are_a_flag_and_a_path(
    path: Seq<u8>,
    requested: AccessMode,
    facts: TargetFacts,
)
    ensures
        query_ext::suggestion_text(path, requested, facts) == query_ext::flag_text(
            facts.is_file,
            requested,
        ) + " "@ + paths::shown(query_ext::suggested_target(path, facts)),
        text::has_substring(
            query_ext::suggestion_text(path, requested, facts),
            paths::shown(query_ext::suggested_target(path, facts)),
        ),
{
    let s = query_ext::suggestion_text(path, requested, facts);
    let p = paths::shown(query_ext::suggested_target(path, facts));
    assert(s.subrange(s.len() - p.len(), s.len() as int) =~= p);
}

/// The texts that come with a port that is denied name the port and the flags that grant it.
pub proof fn law_denied_ports_are_named(port: u16)
    ensures
        ({
            let p = numbers::decimal(port as nat);
            &&& query_ext::tcp_denial_text(port) == "Port "@ + p
                + " is not in tcp_connect_ports, tcp_bind_ports, or localhost_ports, and the resolved network mode blocks unfiltered outbound. Add `--allow-port "@
                + p + "` (bind), `--allow-connect-port "@ + p
                + "` (connect), or relax with `--allow-net` to permit the port."@
            &&& query_ext::tcp_bind_denial_text(port) == "Port "@ + p
                + " is not in tcp_bind_ports or localhost_ports, and the resolved network mode blocks unfiltered bind. Add `--allow-port "@
                + p + "` (bind) or `--allow-localhost-port "@ + p
                + "` (bidirectional localhost) to permit binding. (`tcp_connect_ports` grants are intentionally ignored here — they authorize outbound only.)"@
        }),
{
}

/// What is shown of a result starts with the word on a line of its own, bold and in its color or
/// bare, and ends with the lines on what is known of it.
pub proof fn law_results_are_shown_below_their_word(out: Seq<char>, result: QueryResultView)
    requires
        query_ext::shows_result(out, result),
    ensures
        ({
            let (word, tint) = query_ext::result_heading(result);
            let code = if tint == Tint::Red {
                "31"@
            } else if tint == Tint::Green {
                "32"@
            } else {
                "33"@
            };
            ||| out == word + "\n"@ + query_ext::result_lines(result)
            ||| out == "\x1b["@ + ("1;"@ + code) + "m"@ + word + "\x1b[0m"@ + "\n"@
                + query_ext::result_lines(result)
        }),
{
}

} // verus!

//! Unix paths as byte strings, read component by component.
//!
//! A path is a sequence of segments separated by `/`. Empty segments and `.` segments do not
//! count, except for a `.` at the very start of a relative path. A leading `/` is a component of
//! its own, the root.

use vstd::prelude::*;
use vstd::utf8::*;

verus! {

/// The separator, `/`.
pub const SEP: u8 = 47;

/// The byte of `.`.
pub const DOT: u8 = 46;

pub open spec fn is_rooted(s: Seq<u8>) -> bool {
    s.len() > 0 && s[0] == SEP
}

/// Where the segment that starts at `i` ends: at the next separator, or at the end.
pub open spec fn segment_end(s: Seq<u8>, i: int) -> int
    decreases s.len() - i,
{
    if i < 0 || i >= s.len() || s[i] == SEP {
        i
    } else {
        segment_end(s, i + 1)
    }
}

/// Whether the segment from `i` to `j` counts as a component.
pub open spec fn counts(s: Seq<u8>, i: int, j: int) -> bool {
    i == 0 || !(j == i + 1 && s[i] == DOT)
}

pub proof fn lemma_segment_end(s: Seq<u8>, i: int)
    requires
        0 <= i <= s.len(),
    ensures
        i <= segment_end(s, i) <= s.len(),
        i < s.len() && s[i] != SEP ==> i < segment_end(s, i),
        segment_end(s, i) < s.len() ==> s[segment_end(s, i)] == SEP,
        forall|k: int| i <= k < segment_end(s, i) ==> s[k] != SEP,
    decreases s.len() - i,
{
    if i < s.len() && s[i] != SEP {
        lemma_segment_end(s, i + 1);
    }
}

/// The positions (start, end) of the components named from position `i` on.
pub open spec fn spans_from(s: Seq<u8>, i: int) -> Seq<(int, int)>
    decreases s.len() - i,
{
    if i < 0 || i >= s.len() {
        Seq::empty()
    } else if s[i] == SEP {
        spans_from(s, i + 1)
    } else {
        let j = segment_end(s, i);
        proof {
            lemma_segment_end(s, i);
        }
        if counts(s, i, j) {
            seq![(i, j)] + spans_from(s, j)
        } else {
            spans_from(s, j)
        }
    }
}

/// The positions of all named components.
pub open spec fn spans(s: Seq<u8>) -> Seq<(int, int)> {
    spans_from(s, 0)
}

/// The named components, in order.
pub open spec fn names(s: Seq<u8>) -> Seq<Seq<u8>> {
    Seq::new(spans(s).len(), |k: int| s.subrange(spans(s)[k].0, spans(s)[k].1))
}

/// All components; the root, where there is one, is the first and is written `/`.
pub open spec fn components(s: Seq<u8>) -> Seq<Seq<u8>> {
    if is_rooted(s) {
        seq![seq![SEP]] + names(s)
    } else {
        names(s)
    }
}

/// Whether two paths have the same components.
pub open spec fn same_path(a: Seq<u8>, b: Seq<u8>) -> bool {
    components(a) == components(b)
}

/// Whether `base` is `path` or one of its ancestors, component by component.
pub open spec fn is_under(path: Seq<u8>, base: Seq<u8>) -> bool {
    components(base).is_prefix_of(components(path))
}

/// The last component, unless it is the root, `.` or `..`.
pub open spec fn file_name_of(s: Seq<u8>) -> Option<Seq<u8>> {
    if names(s).len() == 0 || names(s).last() == seq![DOT] || names(s).last() == seq![DOT, DOT] {
        None
    } else {
        Some(names(s).last())
    }
}

/// The path up to the end of the component before the last named one.
pub open spec fn parent_of(s: Seq<u8>) -> Option<Seq<u8>> {
    let k = spans(s).len();
    if k == 0 {
        None
    } else if k >= 2 {
        Some(s.take(spans(s)[k - 2].1))
    } else if is_rooted(s) {
        Some(seq![SEP])
    } else {
        Some(Seq::empty())
    }
}

/// `name` below `base`; a rooted `name` replaces `base`.
pub open spec fn joined_path(base: Seq<u8>, name: Seq<u8>) -> Seq<u8> {
    if is_rooted(name) {
        name
    } else if base.len() > 0 && base.last() != SEP {
        base.push(SEP) + name
    } else {
        base + name
    }
}

/// Component positions lie inside the path, are not empty and hold no separator.
pub proof fn lemma_spans_in_bounds(s: Seq<u8>, i: int)
    requires
        0 <= i,
    ensures
        forall|k: int|
            0 <= k < spans_from(s, i).len() ==> {
                let p = #[trigger] spans_from(s, i)[k];
                &&& i <= p.0 < p.1 <= s.len()
                &&& forall|m: int| p.0 <= m < p.1 ==> s[m] != SEP
                &&& (p.1 < s.len() ==> s[p.1] == SEP)
                &&& (p.0 > i ==> s[p.0 - 1] == SEP)
            },
    decreases s.len() - i,
{
    if i < s.len() {
        if s[i] == SEP {
            lemma_spans_in_bounds(s, i + 1);
            assert forall|k: int| 0 <= k < spans_from(s, i).len() implies {
                let p = #[trigger] spans_from(s, i)[k];
                &&& i <= p.0 < p.1 <= s.len()
                &&& forall|m: int| p.0 <= m < p.1 ==> s[m] != SEP
                &&& (p.1 < s.len() ==> s[p.1] == SEP)
                &&& (p.0 > i ==> s[p.0 - 1] == SEP)
            } by {
                let p = spans_from(s, i + 1)[k];
                if p.0 == i + 1 {
                    assert(s[p.0 - 1] == SEP);
                }
            }
        } else {
            let j = segment_end(s, i);
            lemma_segment_end(s, i);
            lemma_spans_in_bounds(s, j);
            let rest = spans_from(s, j);
            assert forall|k: int| 0 <= k < spans_from(s, i).len() implies {
                let p = #[trigger] spans_from(s, i)[k];
                &&& i <= p.0 < p.1 <= s.len()
                &&& forall|m: int| p.0 <= m < p.1 ==> s[m] != SEP
                &&& (p.1 < s.len() ==> s[p.1] == SEP)
                &&& (p.0 > i ==> s[p.0 - 1] == SEP)
            } by {
                if counts(s, i, j) {
                    if k > 0 {
                        let p = rest[k - 1];
                        assert(p == spans_from(s, i)[k]);
                        if p.0 == j {
                            assert(s[j] == SEP);
                        }
                    }
                } else {
                    let p = rest[k];
                    if p.0 == j {
                        assert(s[j] == SEP);
                    }
                }
            }
        }
    }
}

/// The bytes from `lo` up to `hi`.
pub fn bytes_range(bytes: &[u8], lo: usize, hi: usize) -> (out: Vec<u8>)
    requires
        lo <= hi <= bytes.len(),
    ensures
        out@ == bytes@.subrange(lo as int, hi as int),
{
    let mut out: Vec<u8> = Vec::new();
    let mut i: usize = lo;
    while i < hi
        invariant
            lo <= i <= hi <= bytes.len(),
            out@ == bytes@.subrange(lo as int, i as int),
        decreases hi - i,
    {
        out.push(bytes[i]);
        assert(bytes@.subrange(lo as int, i + 1) =~= bytes@.subrange(lo as int, i as int).push(
            bytes@[i as int],
        ));
        i += 1;
    }
    out
}

/// A copy of the bytes.
pub fn bytes_copy(bytes: &[u8]) -> (out: Vec<u8>)
    ensures
        out@ == bytes@,
{
    let out = bytes_range(bytes, 0, bytes.len());
    assert(bytes@.subrange(0, bytes@.len() as int) =~= bytes@);
    out
}

/// Machine-sized positions as mathematical ones.
pub open spec fn span_view(v: Seq<(usize, usize)>) -> Seq<(int, int)> {
    Seq::new(v.len(), |k: int| (v[k].0 as int, v[k].1 as int))
}

/// Finds the positions of the named components.
fn find_spans(path: &[u8]) -> (out: Vec<(usize, usize)>)
    ensures
        span_view(out@) == spans(path@),
{
    let mut out: Vec<(usize, usize)> = Vec::new();
    let mut i: usize = 0;
    assert(span_view(out@) + spans_from(path@, 0) =~= spans(path@));
    while i < path.len()
        invariant
            i <= path.len(),
            span_view(out@) + spans_from(path@, i as int) == spans(path@),
        decreases path.len() - i,
    {
        if path[i] == SEP {
            i += 1;
        } else {
            let start: usize = i;
            let mut j: usize = i;
            while j < path.len() && path[j] != SEP
                invariant
                    start <= j <= path.len(),
                    segment_end(path@, j as int) == segment_end(path@, start as int),
                decreases path.len() - j,
            {
                j += 1;
            }
            assert(segment_end(path@, start as int) == j);
            if start == 0 || !(j == start + 1 && path[start] == DOT) {
                let ghost before = out@;
                out.push((start, j));
                proof {
                    assert(span_view(out@) =~= span_view(before).push((start as int, j as int)));
                    assert(span_view(before) + (seq![(start as int, j as int)] + spans_from(
                        path@,
                        j as int,
                    )) =~= span_view(out@) + spans_from(path@, j as int));
                }
            }
            i = j;
        }
    }
    assert(span_view(out@) + spans_from(path@, i as int) =~= span_view(out@));
    out
}

/// Whether the bytes at two places, both `len` long, are the same.
fn same_bytes(a: &[u8], ai: usize, b: &[u8], bi: usize, len: usize) -> (same: bool)
    requires
        ai + len <= a.len(),
        bi + len <= b.len(),
    ensures
        same == (a@.subrange(ai as int, ai + len) == b@.subrange(bi as int, bi + len)),
{
    let mut k: usize = 0;
    assert(a@.subrange(ai as int, ai as int) =~= b@.subrange(bi as int, bi as int));
    while k < len
        invariant
            k <= len,
            ai + len <= a.len(),
            bi + len <= b.len(),
            a@.subrange(ai as int, ai + k) == b@.subrange(bi as int, bi + k),
        decreases len - k,
    {
        if a[ai + k] != b[bi + k] {
            assert(a@.subrange(ai as int, ai + len)[k as int] != b@.subrange(
                bi as int,
                bi + len,
            )[k as int]);
            return false;
        }
        proof {
            assert(a@.subrange(ai as int, ai + k + 1) =~= a@.subrange(ai as int, ai + k).push(
                a@[ai + k],
            ));
            assert(b@.subrange(bi as int, bi + k + 1) =~= b@.subrange(bi as int, bi + k).push(
                b@[bi + k],
            ));
        }
        k += 1;
    }
    true
}

/// Names agree as far as the shorter list of names reaches.
fn names_agree(
    path: &[u8],
    path_spans: &Vec<(usize, usize)>,
    base: &[u8],
    base_spans: &Vec<(usize, usize)>,
) -> (agree: bool)
    requires
        span_view(path_spans@) == spans(path@),
        span_view(base_spans@) == spans(base@),
    ensures
        agree == names(base@).is_prefix_of(names(path@)),
{
    if base_spans.len() > path_spans.len() {
        assert(names(base@).len() == span_view(base_spans@).len());
        assert(names(path@).len() == span_view(path_spans@).len());
        return false;
    }
    proof {
        lemma_spans_in_bounds(path@, 0);
        lemma_spans_in_bounds(base@, 0);
        assert(names(base@).len() == span_view(base_spans@).len());
        assert(names(path@).len() == span_view(path_spans@).len());
    }
    let mut k: usize = 0;
    while k < base_spans.len()
        invariant
            k <= base_spans.len() <= path_spans.len(),
            span_view(path_spans@) == spans(path@),
            span_view(base_spans@) == spans(base@),
            names(base@).len() == base_spans.len(),
            names(path@).len() == path_spans.len(),
            forall|m: int|
                0 <= m < spans(path@).len() ==> {
                    let p = #[trigger] spans(path@)[m];
                    0 <= p.0 < p.1 <= path@.len()
                },
            forall|m: int|
                0 <= m < spans(base@).len() ==> {
                    let p = #[trigger] spans(base@)[m];
                    0 <= p.0 < p.1 <= base@.len()
                },
            forall|m: int| 0 <= m < k ==> #[trigger] names(base@)[m] == names(path@)[m],
        decreases base_spans.len() - k,
    {
        let (bi, bj) = base_spans[k];
        let (pi, pj) = path_spans[k];
        proof {
            assert(span_view(path_spans@)[k as int] == spans(path@)[k as int]);
            assert(span_view(base_spans@)[k as int] == spans(base@)[k as int]);
            assert(names(base@)[k as int] == base@.subrange(bi as int, bj as int));
            assert(names(path@)[k as int] == path@.subrange(pi as int, pj as int));
        }
        let ghost prefix = names(path@).subrange(0, names(base@).len() as int);
        if bj - bi != pj - pi {
            assert(names(base@)[k as int].len() != prefix[k as int].len());
            return false;
        }
        if !same_bytes(base, bi, path, pi, bj - bi) {
            assert(names(base@)[k as int] != prefix[k as int]);
            return false;
        }
        k += 1;
    }
    assert(names(base@) =~= names(path@).subrange(0, names(base@).len() as int));
    true
}

/// The root is no named component.
pub proof fn lemma_root_is_no_name(s: Seq<u8>, k: int)
    requires
        0 <= k < names(s).len(),
    ensures
        names(s)[k] != seq![SEP],
{
    lemma_spans_in_bounds(s, 0);
    let p = spans(s)[k];
    assert(names(s)[k][0] == s[p.0]);
}

/// Whether `base` is `path` or one of its ancestors.
pub fn starts_with(path: &[u8], base: &[u8]) -> (yes: bool)
    ensures
        yes == is_under(path@, base@),
{
    let path_spans = find_spans(path);
    let base_spans = find_spans(base);
    let path_rooted = path.len() > 0 && path[0] == SEP;
    let base_rooted = base.len() > 0 && base[0] == SEP;
    let ghost cb = components(base@);
    let ghost cp = components(path@);
    proof {
        assert(names(base@).len() == span_view(base_spans@).len());
        assert(names(path@).len() == span_view(path_spans@).len());
    }
    if base_rooted && !path_rooted {
        proof {
            if cb.is_prefix_of(cp) {
                assert(cb[0] == cp.subrange(0, cb.len() as int)[0]);
                lemma_root_is_no_name(path@, 0);
            }
        }
        return false;
    }
    if !base_rooted && path_rooted {
        proof {
            if base_spans.len() > 0 {
                if cb.is_prefix_of(cp) {
                    assert(cb[0] == cp.subrange(0, cb.len() as int)[0]);
                    lemma_root_is_no_name(base@, 0);
                }
            } else {
                assert(cb =~= cp.subrange(0, 0));
            }
        }
        return base_spans.len() == 0;
    }
    let agree = names_agree(path, &path_spans, base, &base_spans);
    proof {
        if base_rooted {
            let nb = names(base@);
            let np = names(path@);
            if agree {
                assert(nb == np.subrange(0, nb.len() as int));
                assert(cb =~= cp.subrange(0, cb.len() as int));
            } else if cb.is_prefix_of(cp) {
                assert(nb =~= np.subrange(0, nb.len() as int)) by {
                    assert forall|k: int| 0 <= k < nb.len() implies nb[k] == #[trigger] np[k] by {
                        assert(cb[k + 1] == cp.subrange(0, cb.len() as int)[k + 1]);
                    }
                }
            }
        }
    }
    agree
}

/// Whether two paths have the same components.
pub fn path_eq(a: &[u8], b: &[u8]) -> (same: bool)
    ensures
        same == same_path(a@, b@),
{
    let forth = starts_with(a, b);
    let back = starts_with(b, a);
    proof {
        let ca = components(a@);
        let cb = components(b@);
        if forth && back {
            assert(ca.subrange(0, ca.len() as int) =~= ca);
        }
        if ca == cb {
            assert(ca.subrange(0, ca.len() as int) =~= ca);
        }
    }
    forth && back
}

/// The last component, unless it is the root, `.` or `..`.
pub fn file_name(path: &[u8]) -> (name: Option<Vec<u8>>)
    ensures
        match name {
            Some(n) => file_name_of(path@) == Some(n@),
            None => file_name_of(path@) is None,
        },
{
    let found = find_spans(path);
    if found.len() == 0 {
        assert(span_view(found@).len() == 0);
        return None;
    }
    proof {
        lemma_spans_in_bounds(path@, 0);
        assert(span_view(found@)[found@.len() - 1] == spans(path@)[found@.len() - 1]);
    }
    let (i, j) = found[found.len() - 1];
    let name = bytes_range(path, i, j);
    assert(names(path@).last() == name@);
    if name.len() == 1 && name[0] == DOT {
        assert(name@ =~= seq![DOT]);
        return None;
    }
    if name.len() == 2 && name[0] == DOT && name[1] == DOT {
        assert(name@ =~= seq![DOT, DOT]);
        return None;
    }
    Some(name)
}

/// The path without its last component; none for the root and the empty path.
pub fn parent(path: &[u8]) -> (up: Option<Vec<u8>>)
    ensures
        match up {
            Some(p) => parent_of(path@) == Some(p@),
            None => parent_of(path@) is None,
        },
{
    let found = find_spans(path);
    assert(span_view(found@).len() == found@.len());
    if found.len() == 0 {
        return None;
    }
    proof {
        lemma_spans_in_bounds(path@, 0);
    }
    if found.len() >= 2 {
        assert(span_view(found@)[found@.len() - 2] == spans(path@)[found@.len() - 2]);
        let end: usize = found[found.len() - 2].1;
        let up = bytes_range(path, 0, end);
        assert(path@.subrange(0, end as int) =~= path@.take(end as int));
        return Some(up);
    }
    let mut up: Vec<u8> = Vec::new();
    if path.len() > 0 && path[0] == SEP {
        up.push(SEP);
        assert(up@ =~= seq![SEP]);
    }
    Some(up)
}

/// `name` below `base`; a rooted `name` replaces `base`.
pub fn join_path(base: &[u8], name: &[u8]) -> (out: Vec<u8>)
    ensures
        out@ == joined_path(base@, name@),
{
    if name.len() > 0 && name[0] == SEP {
        return bytes_copy(name);
    }
    let mut out = bytes_copy(base);
    if base.len() > 0 && base[base.len() - 1] != SEP {
        out.push(SEP);
    }
    let mut rest = bytes_copy(name);
    out.append(&mut rest);
    out
}

/// What `String::from_utf8_lossy` makes of a byte string.
pub uninterp spec fn lossy_text(bytes: Seq<u8>) -> Seq<char>;

/// `String::from_utf8_lossy`: valid UTF-8 is decoded unchanged; of other bytes the contract says
/// only that the result depends on nothing but them.
#[verifier::external_body]
fn from_utf8_lossy(bytes: &[u8]) -> (out: String)
    ensures
        out@ == lossy_text(bytes@),
        valid_utf8(bytes@) ==> out@ == decode_utf8(bytes@),
{
    String::from_utf8_lossy(bytes).into_owned()
}

/// A path as text: its characters where it is valid UTF-8, else its lossy decoding.
pub open spec fn shown(path: Seq<u8>) -> Seq<char> {
    if valid_utf8(path) {
        decode_utf8(path)
    } else {
        lossy_text(path)
    }
}

/// The path as text.
pub fn display(path: &[u8]) -> (out: String)
    ensures
        out@ == shown(path@),
{
    from_utf8_lossy(path)
}

/// Every path is under itself.
pub proof fn law_under_itself(s: Seq<u8>)
    ensures
        is_under(s, s),
{
    assert(components(s).subrange(0, components(s).len() as int) =~= components(s));
}

/// What is under a path that is under another is under that other one too.
pub proof fn law_under_is_transitive(a: Seq<u8>, b: Seq<u8>, c: Seq<u8>)
    requires
        is_under(a, b),
        is_under(b, c),
    ensures
        is_under(a, c),
{
    let (ca, cb, cc) = (components(a), components(b), components(c));
    assert(cc =~= ca.subrange(0, cc.len() as int)) by {
        assert forall|k: int| 0 <= k < cc.len() implies cc[k] == #[trigger] ca[k] by {
            assert(cc[k] == cb.subrange(0, cc.len() as int)[k]);
            assert(cb[k] == ca.subrange(0, cb.len() as int)[k]);
        }
    }
}

/// Two paths each under the other have the same components.
pub proof fn law_mutually_under_is_same(a: Seq<u8>, b: Seq<u8>)
    requires
        is_under(a, b),
        is_under(b, a),
    ensures
        same_path(a, b),
{
    assert(components(a).subrange(0, components(a).len() as int) =~= components(a));
}

/// A segment inside `a` ends at the same place when separated text follows.
proof fn lemma_segment_end_split(a: Seq<u8>, t: Seq<u8>, i: int)
    requires
        0 <= i <= a.len(),
        t.len() == 0 || t[0] == SEP,
    ensures
        segment_end(a + t, i) == segment_end(a, i),
    decreases a.len() - i,
{
    if i < a.len() && a[i] != SEP {
        lemma_segment_end_split(a, t, i + 1);
    }
}

/// Components of `a`, then those of what follows after a separator.
pub proof fn lemma_spans_split(a: Seq<u8>, t: Seq<u8>, i: int)
    requires
        0 <= i <= a.len(),
        t.len() == 0 || t[0] == SEP,
    ensures
        spans_from(a + t, i) == spans_from(a, i) + spans_from(a + t, a.len() as int),
    decreases a.len() - i,
{
    let s = a + t;
    if i == a.len() {
        assert(spans_from(a, i) + spans_from(s, i) =~= spans_from(s, i));
    } else if a[i] == SEP {
        lemma_spans_split(a, t, i + 1);
    } else {
        let j = segment_end(a, i);
        lemma_segment_end(a, i);
        lemma_segment_end_split(a, t, i);
        lemma_spans_split(a, t, j);
        assert(seq![(i, j)] + (spans_from(a, j) + spans_from(s, a.len() as int)) =~= (seq![(i, j)]
            + spans_from(a, j)) + spans_from(s, a.len() as int));
    }
}

/// What extends a path after a separator is under that path.
proof fn lemma_extension_is_under(a: Seq<u8>, t: Seq<u8>)
    requires
        a.len() > 0,
        t.len() == 0 || t[0] == SEP,
    ensures
        is_under(a + t, a),
{
    let s = a + t;
    lemma_spans_split(a, t, 0);
    lemma_spans_in_bounds(a, 0);
    let (na, ns) = (names(a), names(s));
    assert(na =~= ns.subrange(0, na.len() as int)) by {
        assert forall|k: int| 0 <= k < na.len() implies na[k] == #[trigger] ns[k] by {
            assert(spans(s)[k] == spans(a)[k]);
            assert(s.subrange(spans(a)[k].0, spans(a)[k].1) =~= a.subrange(
                spans(a)[k].0,
                spans(a)[k].1,
            ));
        }
    }
    assert(components(a) =~= components(s).subrange(0, components(a).len() as int)) by {
        assert forall|k: int| 0 <= k < components(a).len() implies components(a)[k]
            == #[trigger] components(s)[k] by {
            if is_rooted(a) {
                if k > 0 {
                    assert(na[k - 1] == ns.subrange(0, na.len() as int)[k - 1]);
                }
            } else {
                assert(na[k] == ns.subrange(0, na.len() as int)[k]);
            }
        }
    }
}

/// A relative name joined to a directory stays under that directory.
pub proof fn law_joined_stays_under(base: Seq<u8>, name: Seq<u8>)
    requires
        !is_rooted(name),
    ensures
        is_under(joined_path(base, name), base),
{
    let s = joined_path(base, name);
    if base.len() == 0 {
        assert(components(base) =~= components(s).subrange(0, 0));
    } else if base.last() != SEP {
        let t = seq![SEP] + name;
        assert(s =~= base + t);
        lemma_extension_is_under(base, t);
    } else if base.len() == 1 {
        assert(base =~= seq![SEP]);
        assert(spans_from(base, 1).len() == 0);
        assert(components(base) =~= seq![seq![SEP]]);
        assert(components(base) =~= components(s).subrange(0, 1));
    } else {
        let a = base.drop_last();
        let t = seq![SEP] + name;
        assert(s =~= a + t);
        assert(base =~= a + seq![SEP]);
        lemma_extension_is_under(a, t);
        lemma_spans_split(a, seq![SEP], 0);
        assert(spans_from(base, a.len() as int) =~= Seq::empty()) by {
            assert(spans_from(base, a.len() as int + 1).len() == 0);
        }
        assert(spans(base) =~= spans(a));
        lemma_spans_in_bounds(a, 0);
        assert(names(base) =~= names(a)) by {
            assert forall|k: int| 0 <= k < names(a).len() implies names(base)[k]
                == #[trigger] names(a)[k] by {
                assert(base.subrange(spans(a)[k].0, spans(a)[k].1) =~= a.subrange(
                    spans(a)[k].0,
                    spans(a)[k].1,
                ));
            }
        }
        assert(components(base) =~= components(a));
    }
}

/// Components follow one another from left to right.
proof fn lemma_spans_ordered(s: Seq<u8>, i: int)
    requires
        0 <= i,
    ensures
        forall|k: int, m: int|
            0 <= k < m < spans_from(s, i).len() ==> (#[trigger] spans_from(s, i)[k]).1 < (
            #[trigger] spans_from(s, i)[m]).0,
    decreases s.len() - i,
{
    if i < s.len() {
        if s[i] == SEP {
            lemma_spans_ordered(s, i + 1);
            assert(spans_from(s, i) == spans_from(s, i + 1));
        } else {
            let j = segment_end(s, i);
            lemma_segment_end(s, i);
            lemma_spans_ordered(s, j);
            lemma_spans_in_bounds(s, j);
            let rest = spans_from(s, j);
            if counts(s, i, j) {
                let all = spans_from(s, i);
                assert(all == seq![(i, j)] + rest);
                assert forall|k: int, m: int| 0 <= k < m < all.len() implies (
                #[trigger] all[k]).1 < (#[trigger] all[m]).0 by {
                    assert(all[m] == rest[m - 1]);
                    if k > 0 {
                        assert(all[k] == rest[k - 1]);
                    } else if rest[m - 1].0 == j {
                        assert(s[j] == SEP);
                    }
                }
            } else {
                assert(spans_from(s, i) == rest);
            }
        }
    }
}

/// The parent has all the components of the path but the last.
pub proof fn law_parent_drops_one_component(s: Seq<u8>)
    requires
        parent_of(s) is Some,
    ensures
        components(parent_of(s)->0) == components(s).drop_last(),
{
    let k = spans(s).len();
    let p = parent_of(s)->0;
    lemma_spans_in_bounds(s, 0);
    if k >= 2 {
        lemma_spans_ordered(s, 0);
        let e = spans(s)[k - 2].1;
        let t = s.skip(e);
        assert(spans(s)[k - 2].1 < spans(s)[k - 1].0);
        assert(t[0] == s[e]);
        assert(s =~= p + t);
        lemma_spans_split(p, t, 0);
        lemma_spans_in_bounds(s, e);
        lemma_spans_in_bounds(p, 0);
        let cut = spans(p).len();
        if cut <= k - 2 {
            assert(spans(s)[k - 2] == spans_from(s, e)[k - 2 - cut]);
        }
        if cut >= k {
            assert(spans(s)[k - 1] == spans(p)[k - 1]);
        }
        assert(names(p) =~= names(s).drop_last()) by {
            assert forall|m: int| 0 <= m < cut implies names(p)[m] == #[trigger] names(s)[m] by {
                assert(spans(s)[m] == spans(p)[m]);
                assert(s.subrange(spans(p)[m].0, spans(p)[m].1) =~= p.subrange(
                    spans(p)[m].0,
                    spans(p)[m].1,
                ));
            }
        }
        assert(components(p) =~= components(s).drop_last());
    } else if is_rooted(s) {
        assert(spans_from(p, 1).len() == 0);
        assert(components(p) =~= components(s).drop_last());
    } else {
        assert(components(p) =~= components(s).drop_last());
    }
}

/// Every path with a parent is under it.
pub proof fn law_under_parent(s: Seq<u8>)
    requires
        parent_of(s) is Some,
    ensures
        is_under(s, parent_of(s)->0),
{
    law_parent_drops_one_component(s);
    let c = components(s);
    assert(c.drop_last() =~= c.subrange(0, c.drop_last().len() as int));
}

/// A run without separators up to the end is one segment.
proof fn lemma_last_segment(s: Seq<u8>, i: int)
    requires
        0 <= i <= s.len(),
        forall|k: int| i <= k < s.len() ==> s[k] != SEP,
    ensures
        segment_end(s, i) == s.len(),
    decreases s.len() - i,
{
    if i < s.len() {
        lemma_last_segment(s, i + 1);
    }
}

/// Paths are read segment by segment. A segment behind a separator is one more component, unless it
/// is empty or `.`; a segment that nothing stands in front of is a component unless it is empty.
pub proof fn law_segments_are_components(front: Seq<u8>, segment: Seq<u8>)
    requires
        !segment.contains(SEP),
    ensures
        names(segment) == if segment.len() == 0 {
            Seq::empty()
        } else {
            seq![segment]
        },
        names(front + seq![SEP] + segment) == if segment.len() == 0 || segment == seq![DOT] {
            names(front)
        } else {
            names(front).push(segment)
        },
{
    assert forall|k: int| 0 <= k < segment.len() implies segment[k] != SEP by {
        assert(segment.contains(segment[k]));
    }
    lemma_last_segment(segment, 0);
    if segment.len() == 0 {
        assert(names(segment) =~= Seq::empty());
    } else {
        assert(spans_from(segment, segment.len() as int) =~= Seq::empty());
        assert(spans(segment) =~= seq![(0int, segment.len() as int)]);
        assert(segment.subrange(0, segment.len() as int) =~= segment);
        assert(names(segment) =~= seq![segment]);
    }
    let t = seq![SEP] + segment;
    let s = front + t;
    let at = front.len() as int;
    assert(front + seq![SEP] + segment =~= s);
    lemma_spans_split(front, t, 0);
    lemma_spans_in_bounds(front, 0);
    assert(s[at] == SEP);
    assert(spans_from(s, at) == spans_from(s, at + 1));
    assert forall|k: int| at + 1 <= k < s.len() implies s[k] != SEP by {
        assert(s[k] == segment[k - at - 1]);
    }
    lemma_last_segment(s, at + 1);
    assert(spans_from(s, s.len() as int) =~= Seq::empty());
    assert forall|k: int| 0 <= k < spans(front).len() implies #[trigger] s.subrange(
        spans(front)[k].0,
        spans(front)[k].1,
    ) == front.subrange(spans(front)[k].0, spans(front)[k].1) by {
        assert(s.subrange(spans(front)[k].0, spans(front)[k].1) =~= front.subrange(
            spans(front)[k].0,
            spans(front)[k].1,
        ));
    }
    if segment.len() == 0 {
        assert(spans(s) =~= spans(front));
        assert(names(s) =~= names(front));
    } else {
        assert(s[at + 1] == segment[0]);
        if segment.len() == 1 && segment[0] == DOT {
            assert(segment =~= seq![DOT]);
            assert(spans(s) =~= spans(front));
            assert(names(s) =~= names(front));
        } else {
            assert(!(segment =~= seq![DOT]));
            assert(spans_from(s, at + 1) =~= seq![(at + 1, s.len() as int)]);
            assert(spans(s) =~= spans(front).push((at + 1, s.len() as int)));
            assert(s.subrange(at + 1, s.len() as int) =~= segment);
            assert(names(s) =~= names(front).push(segment));
        }
    }
}

/// The root is a component of its own, in front of the others, of the paths that start with a
/// separator and of no others.
pub proof fn law_rooted_paths_start_with_the_root(s: Seq<u8>)
    ensures
        s.len() > 0 && s[0] == 47 ==> components(s).len() == names(s).len() + 1 && components(s)[0]
            == seq![47u8] && components(s).skip(1) == names(s),
        s.len() == 0 || s[0] != 47 ==> components(s) == names(s),
{
    if is_rooted(s) {
        assert(components(s).skip(1) =~= names(s));
    }
}

/// Paths are the same exactly when their components are, and one is under another exactly when it
/// has all the components of the other in front.
pub proof fn law_paths_are_compared_by_components(a: Seq<u8>, b: Seq<u8>)
    ensures
        same_path(a, b) <==> components(a) == components(b),
        is_under(a, b) <==> components(b).len() <= components(a).len() && forall|k: int|
            0 <= k < components(b).len() ==> components(a)[k] == #[trigger] components(b)[k],
{
    let (x, y) = (components(a), components(b));
    if is_under(a, b) {
        assert forall|k: int| 0 <= k < y.len() implies x[k] == #[trigger] y[k] by {
            assert(x.subrange(0, y.len() as int)[k] == x[k]);
        }
    }
    if y.len() <= x.len() && (forall|k: int| 0 <= k < y.len() ==> x[k] == #[trigger] y[k]) {
        assert(y =~= x.subrange(0, y.len() as int));
    }
}

/// The name of a path is its last component, unless that is the root, `.` or `..`.
pub proof fn law_file_name_is_the_last_segment(front: Seq<u8>, segment: Seq<u8>)
    requires
        !segment.contains(SEP),
        segment.len() > 0,
        segment != seq![DOT],
    ensures
        segment != seq![DOT, DOT] ==> file_name_of(front + seq![SEP] + segment) == Some(segment)
            && file_name_of(segment) == Some(segment),
        segment == seq![DOT, DOT] ==> file_name_of(front + seq![SEP] + segment) is None
            && file_name_of(segment) is None,
        file_name_of(front + seq![SEP]) == file_name_of(front),
        file_name_of(Seq::empty()) is None,
{
    law_segments_are_components(front, segment);
    law_segments_are_components(front, Seq::empty());
    law_segments_are_components(Seq::empty(), Seq::empty());
    assert(front + seq![SEP] + Seq::<u8>::empty() =~= front + seq![SEP]);
}

/// A path has a parent exactly when it has a component besides the root.
pub proof fn law_paths_with_names_have_parents(s: Seq<u8>)
    ensures
        parent_of(s) is Some <==> names(s).len() > 0,
{
}

/// A name is put below a directory with one separator between them; a rooted name stands alone.
pub proof fn law_joined_paths_have_one_separator(base: Seq<u8>, name: Seq<u8>)
    ensures
        name.len() > 0 && name[0] == 47 ==> joined_path(base, name) == name,
        (name.len() == 0 || name[0] != 47) && base.len() > 0 && base.last() != 47 ==> joined_path(
            base,
            name,
        ) == base + seq![47u8] + name,
        (name.len() == 0 || name[0] != 47) && (base.len() == 0 || base.last() == 47)
            ==> joined_path(base, name) == base + name,
{
    assert(base.push(SEP) + name =~= base + seq![47u8] + name);
}

/// A path that is valid UTF-8 is shown as the text that it encodes.
pub proof fn law_encoded_text_is_shown_as_it_is(s: Seq<char>)
    ensures
        shown(encode_utf8(s)) == s,
{
    encode_utf8_valid_utf8(s);
    encode_utf8_decode_utf8(s);
}

} // verus!

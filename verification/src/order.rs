//! Stable sorting under a weak order, and the dictionary order of texts.

use vstd::prelude::*;
use vstd::utf8::*;

verus! {

/// `less` is a strict order in which being neither before nor after is an equivalence.
pub open spec fn is_weak_order<T>(less: spec_fn(T, T) -> bool) -> bool {
    &&& forall|a: T, b: T| #[trigger] less(a, b) ==> !less(b, a)
    &&& forall|a: T, b: T, c: T|
        #![trigger less(a, b), less(b, c)]
        less(a, b) && less(b, c) ==> less(a, c)
    &&& forall|a: T, b: T, c: T|
        #![trigger less(a, c), less(a, b)]
        #![trigger less(a, c), less(b, c)]
        less(a, c) ==> less(a, b) || less(b, c)
}

/// Neither comes before the other.
pub open spec fn ties<T>(less: spec_fn(T, T) -> bool, a: T, b: T) -> bool {
    !less(a, b) && !less(b, a)
}

/// No element comes before one that stands to its left.
pub open spec fn is_ordered<T>(s: Seq<T>, less: spec_fn(T, T) -> bool) -> bool {
    forall|i: int, j: int| 0 <= i < j < s.len() ==> !less(#[trigger] s[j], #[trigger] s[i])
}

/// The elements of `s` that tie with `x`, in their order.
pub open spec fn tied_with<T>(s: Seq<T>, less: spec_fn(T, T) -> bool, x: T) -> Seq<T> {
    s.filter(|y: T| ties(less, x, y))
}

/// `out` is ordered, and holds the elements of `input`, those that tie in the order they had.
pub open spec fn is_stable_sort<T>(
    input: Seq<T>,
    out: Seq<T>,
    less: spec_fn(T, T) -> bool,
) -> bool {
    &&& is_ordered(out, less)
    &&& out.len() == input.len()
    &&& forall|x: T| #[trigger] tied_with(out, less, x) == tied_with(input, less, x)
}

/// Putting `x` behind everything that does not come after it keeps a sequence ordered, and puts
/// `x` last among those it ties with.
proof fn lemma_insert<T>(s: Seq<T>, p: int, x: T, less: spec_fn(T, T) -> bool)
    requires
        is_weak_order(less),
        is_ordered(s, less),
        0 <= p <= s.len(),
        p > 0 ==> !less(x, s[p - 1]),
        forall|j: int| p <= j < s.len() ==> less(x, #[trigger] s[j]),
    ensures
        is_ordered(s.insert(p, x), less),
        forall|z: T| #[trigger]
            tied_with(s.insert(p, x), less, z) == tied_with(s.push(x), less, z),
{
    let t = s.insert(p, x);
    assert forall|j: int| 0 <= j < p implies !less(x, #[trigger] s[j]) by {
        if j < p - 1 {
            assert(!less(s[p - 1], s[j]));
            if less(x, s[j]) {
                assert(less(x, s[p - 1]) || less(s[p - 1], s[j]));
            }
        }
    }
    assert forall|i: int, j: int| 0 <= i < j < t.len() implies !less(
        #[trigger] t[j],
        #[trigger] t[i],
    ) by {
        if j < p {
            assert(t[j] == s[j] && t[i] == s[i]);
        } else if j == p {
            assert(t[i] == s[i]);
        } else if i < p {
            assert(t[j] == s[j - 1] && t[i] == s[i]);
        } else if i == p {
            assert(t[j] == s[j - 1]);
            assert(less(x, s[j - 1]));
        } else {
            assert(t[j] == s[j - 1] && t[i] == s[i - 1]);
        }
    }
    let (lo, hi) = (s.take(p), s.skip(p));
    assert(s =~= lo + hi);
    assert(t =~= lo + seq![x] + hi);
    assert(s.push(x) =~= lo + hi + seq![x]);
    assert forall|z: T| #[trigger] tied_with(t, less, z) == tied_with(s.push(x), less, z) by {
        let pred = |y: T| ties(less, z, y);
        Seq::filter_distributes_over_add(lo + seq![x], hi, pred);
        Seq::filter_distributes_over_add(lo, seq![x], pred);
        Seq::filter_distributes_over_add(lo + hi, seq![x], pred);
        Seq::filter_distributes_over_add(lo, hi, pred);
        if pred(x) {
            assert forall|j: int| 0 <= j < hi.len() implies !pred(#[trigger] hi[j]) by {
                assert(hi[j] == s[p + j]);
                assert(less(x, s[p + j]));
                assert(less(x, z) || less(z, s[p + j]));
            }
            hi.lemma_all_neg_filter_empty(pred);
            assert(hi.filter(pred) =~= Seq::empty());
        } else {
            assert(seq![x].drop_last() =~= Seq::empty());
            reveal_with_fuel(Seq::filter, 2);
            assert(seq![x].filter(pred) =~= Seq::empty());
        }
        assert(t.filter(pred) =~= s.push(x).filter(pred));
    }
}

/// Sorts by insertion; elements that tie keep their order.
pub(crate) fn stable_sort<T, F: Fn(&T, &T) -> bool>(
    items: Vec<T>,
    before: F,
    Ghost(less): Ghost<spec_fn(T, T) -> bool>,
) -> (out: Vec<T>)
    requires
        is_weak_order(less),
        forall|a: &T, b: &T| call_requires(before, (a, b)),
        forall|a: &T, b: &T, r: bool| call_ensures(before, (a, b), r) ==> r == less(*a, *b),
    ensures
        is_stable_sort(items@, out@, less),
{
    let ghost input = items@;
    let mut rest = items;
    let mut out: Vec<T> = Vec::new();
    let mut i: usize = 0;
    let len: usize = rest.len();
    assert(input.skip(0) =~= input);
    assert(input.take(0) =~= out@);
    while i < len
        invariant
            i <= len == input.len(),
            is_weak_order(less),
            forall|a: &T, b: &T| call_requires(before, (a, b)),
            forall|a: &T, b: &T, r: bool| call_ensures(before, (a, b), r) ==> r == less(*a, *b),
            rest@ == input.skip(i as int),
            is_stable_sort(input.take(i as int), out@, less),
        decreases len - i,
    {
        let x = rest.remove(0);
        proof {
            assert(x == input[i as int]);
            assert(rest@ =~= input.skip(i + 1));
            assert(input.take(i + 1) =~= input.take(i as int).push(x));
        }
        let mut p: usize = out.len();
        while p > 0 && before(&x, &out[p - 1])
            invariant
                p <= out.len(),
                is_weak_order(less),
                forall|a: &T, b: &T| call_requires(before, (a, b)),
                forall|a: &T, b: &T, r: bool|
                    call_ensures(before, (a, b), r) ==> r == less(*a, *b),
                forall|j: int| p <= j < out.len() ==> less(x, #[trigger] out@[j]),
            decreases p,
        {
            p -= 1;
        }
        proof {
            let ghost done = out@;
            lemma_insert(done, p as int, x, less);
            assert forall|z: T| #[trigger]
                tied_with(done.insert(p as int, x), less, z) == tied_with(
                input.take(i + 1),
                less,
                z,
            ) by {
                let pred = |y: T| ties(less, z, y);
                assert(tied_with(done, less, z) == tied_with(input.take(i as int), less, z));
                assert(tied_with(done.insert(p as int, x), less, z) == tied_with(
                    done.push(x),
                    less,
                    z,
                ));
                reveal(Seq::filter);
                assert(done.push(x).drop_last() =~= done);
                assert(input.take(i as int).push(x).drop_last() =~= input.take(i as int));
            }
        }
        out.insert(p, x);
        i += 1;
    }
    assert(input.take(input.len() as int) =~= input);
    out
}

/// There is only one stable sort of a sequence.
pub proof fn law_stable_sort_is_unique<T>(
    input: Seq<T>,
    a: Seq<T>,
    b: Seq<T>,
    less: spec_fn(T, T) -> bool,
)
    requires
        is_weak_order(less),
        is_stable_sort(input, a, less),
        is_stable_sort(input, b, less),
    ensures
        a == b,
{
    assert forall|x: T| #[trigger] tied_with(a, less, x) == tied_with(b, less, x) by {
        assert(tied_with(a, less, x) == tied_with(input, less, x));
        assert(tied_with(b, less, x) == tied_with(input, less, x));
    }
    lemma_same_ties(a, b, less);
}

/// The last element of an ordered sequence does not come before anything in another sequence
/// that has the same ties.
proof fn lemma_last_is_greatest<T>(a: Seq<T>, b: Seq<T>, less: spec_fn(T, T) -> bool)
    requires
        is_weak_order(less),
        is_ordered(b, less),
        a.len() > 0,
        b.len() > 0,
        forall|x: T| #[trigger] tied_with(a, less, x) == tied_with(b, less, x),
    ensures
        !less(b.last(), a.last()),
{
    let x = a.last();
    let pred = |y: T| ties(less, x, y);
    assert(pred(x));
    a.lemma_filter_contains(pred, a.len() - 1);
    assert(tied_with(a, less, x) == tied_with(b, less, x));
    b.lemma_filter_contains_rev(pred, x);
    let k = b.index_of(x);
    assert(b[k] == x);
    if k < b.len() - 1 {
        assert(!less(b[b.len() - 1], b[k]));
    }
}

proof fn lemma_same_ties<T>(a: Seq<T>, b: Seq<T>, less: spec_fn(T, T) -> bool)
    requires
        is_weak_order(less),
        is_ordered(a, less),
        is_ordered(b, less),
        a.len() == b.len(),
        forall|x: T| #[trigger] tied_with(a, less, x) == tied_with(b, less, x),
    ensures
        a == b,
    decreases a.len(),
{
    if a.len() == 0 {
        assert(a =~= b);
    } else {
        let (x, y) = (a.last(), b.last());
        lemma_last_is_greatest(a, b, less);
        assert forall|z: T| #[trigger] tied_with(b, less, z) == tied_with(a, less, z) by {
            assert(tied_with(a, less, z) == tied_with(b, less, z));
        }
        lemma_last_is_greatest(b, a, less);
        let (a1, b1) = (a.drop_last(), b.drop_last());
        reveal(Seq::filter);
        assert(tied_with(a, less, x) == tied_with(a1, less, x).push(x));
        assert(tied_with(b, less, x) == tied_with(b1, less, x).push(y));
        assert(tied_with(a, less, x) == tied_with(b, less, x));
        assert(tied_with(a1, less, x).push(x).last() == x);
        assert(tied_with(b1, less, x).push(y).last() == y);
        assert forall|z: T| #[trigger] tied_with(a1, less, z) == tied_with(b1, less, z) by {
            assert(tied_with(a, less, z) == tied_with(b, less, z));
            if ties(less, z, x) {
                assert(tied_with(a, less, z) == tied_with(a1, less, z).push(x));
                assert(tied_with(b, less, z) == tied_with(b1, less, z).push(x));
                assert(tied_with(a1, less, z) =~= tied_with(a, less, z).drop_last());
                assert(tied_with(b1, less, z) =~= tied_with(b, less, z).drop_last());
            } else {
                assert(tied_with(a, less, z) == tied_with(a1, less, z));
                assert(tied_with(b, less, z) == tied_with(b1, less, z));
            }
        }
        lemma_same_ties(a1, b1, less);
        assert(a =~= a1.push(x));
        assert(b =~= b1.push(y));
    }
}

/// Filtering the images of a sequence is taking the images of the filtered sequence.
pub proof fn lemma_filter_map<T, V>(s: Seq<T>, f: spec_fn(T) -> V, p: spec_fn(V) -> bool)
    ensures
        s.map_values(f).filter(p) == s.filter(|x: T| p(f(x))).map_values(f),
    decreases s.len(),
{
    reveal(Seq::filter);
    let q = |x: T| p(f(x));
    if s.len() == 0 {
        assert(s.map_values(f).filter(p) =~= s.filter(q).map_values(f));
    } else {
        let rest = s.drop_last();
        lemma_filter_map(rest, f, p);
        assert(s.map_values(f).drop_last() =~= rest.map_values(f));
        assert(s.map_values(f).last() == f(s.last()));
        if q(s.last()) {
            assert(s.filter(q) == rest.filter(q).push(s.last()));
            assert(s.filter(q).map_values(f) =~= rest.filter(q).map_values(f).push(f(s.last())));
        }
        assert(s.map_values(f).filter(p) =~= s.filter(q).map_values(f));
    }
}

/// A stable sort of some values is a stable sort of their images, where the order of the values
/// is that of the images.
pub proof fn lemma_sort_of_images<T, V>(
    input: Seq<T>,
    out: Seq<T>,
    less: spec_fn(T, T) -> bool,
    f: spec_fn(T) -> V,
    image_less: spec_fn(V, V) -> bool,
)
    requires
        is_weak_order(image_less),
        forall|a: T, b: T| #[trigger] less(a, b) == image_less(f(a), f(b)),
        is_stable_sort(input, out, less),
    ensures
        is_stable_sort(input.map_values(f), out.map_values(f), image_less),
{
    let (fi, fo) = (input.map_values(f), out.map_values(f));
    assert forall|i: int, j: int| 0 <= i < j < fo.len() implies !image_less(
        #[trigger] fo[j],
        #[trigger] fo[i],
    ) by {
        assert(!less(out[j], out[i]));
    }
    assert forall|z: V| #[trigger] tied_with(fo, image_less, z) == tied_with(
        fi,
        image_less,
        z,
    ) by {
        let p = |y: V| ties(image_less, z, y);
        let q = |x: T| p(f(x));
        lemma_filter_map(input, f, p);
        lemma_filter_map(out, f, p);
        if exists|x: T| #[trigger] q(x) {
            let x = choose|x: T| #[trigger] q(x);
            let r = |y: T| ties(less, x, y);
            assert forall|y: T| #[trigger] q(y) == r(y) by {
                assert(less(x, y) == image_less(f(x), f(y)));
                assert(less(y, x) == image_less(f(y), f(x)));
                if q(y) && image_less(f(x), f(y)) {
                    assert(image_less(f(x), z) || image_less(z, f(y)));
                }
                if q(y) && image_less(f(y), f(x)) {
                    assert(image_less(f(y), z) || image_less(z, f(x)));
                }
                if r(y) && image_less(z, f(y)) {
                    assert(image_less(z, f(x)) || image_less(f(x), f(y)));
                }
                if r(y) && image_less(f(y), z) {
                    assert(image_less(f(y), f(x)) || image_less(f(x), z));
                }
            }
            assert(q =~= r);
            assert(tied_with(out, less, x) == tied_with(input, less, x));
        } else {
            input.lemma_all_neg_filter_empty(q);
            out.lemma_all_neg_filter_empty(q);
            assert(input.filter(q) =~= out.filter(q));
        }
    }
}

/// Sorting keeps the members.
pub proof fn lemma_same_members<T>(input: Seq<T>, out: Seq<T>, less: spec_fn(T, T) -> bool)
    requires
        is_weak_order(less),
        is_stable_sort(input, out, less),
    ensures
        forall|x: T| #[trigger] out.contains(x) <==> input.contains(x),
{
    assert forall|x: T| #[trigger] out.contains(x) <==> input.contains(x) by {
        let pred = |y: T| ties(less, x, y);
        assert(pred(x));
        assert(tied_with(out, less, x) == tied_with(input, less, x));
        if out.contains(x) {
            out.lemma_filter_contains(pred, out.index_of(x));
            input.lemma_filter_contains_rev(pred, x);
        }
        if input.contains(x) {
            input.lemma_filter_contains(pred, input.index_of(x));
            out.lemma_filter_contains_rev(pred, x);
        }
    }
}

/// Byte strings in dictionary order.
pub open spec fn bytes_before(a: Seq<u8>, b: Seq<u8>) -> bool
    decreases a.len(),
{
    if b.len() == 0 {
        false
    } else if a.len() == 0 {
        true
    } else if a[0] != b[0] {
        a[0] < b[0]
    } else {
        bytes_before(a.skip(1), b.skip(1))
    }
}

/// Texts in the dictionary order of their bytes.
pub open spec fn text_before(a: Seq<char>, b: Seq<char>) -> bool {
    bytes_before(encode_utf8(a), encode_utf8(b))
}

proof fn lemma_bytes_before_asymmetric(a: Seq<u8>, b: Seq<u8>)
    ensures
        !(bytes_before(a, b) && bytes_before(b, a)),
    decreases a.len(),
{
    if a.len() > 0 && b.len() > 0 && a[0] == b[0] {
        lemma_bytes_before_asymmetric(a.skip(1), b.skip(1));
    }
}

proof fn lemma_bytes_before_total(a: Seq<u8>, b: Seq<u8>)
    ensures
        bytes_before(a, b) || bytes_before(b, a) || a == b,
    decreases a.len(),
{
    if a.len() > 0 && b.len() > 0 && a[0] == b[0] {
        lemma_bytes_before_total(a.skip(1), b.skip(1));
        if a.skip(1) == b.skip(1) {
            assert(a =~= seq![a[0]] + a.skip(1));
            assert(b =~= seq![b[0]] + b.skip(1));
        }
    } else if a.len() == 0 && b.len() == 0 {
        assert(a =~= b);
    }
}

proof fn lemma_bytes_before_transitive(a: Seq<u8>, b: Seq<u8>, c: Seq<u8>)
    requires
        bytes_before(a, b),
        bytes_before(b, c),
    ensures
        bytes_before(a, c),
    decreases a.len(),
{
    if a.len() > 0 && b.len() > 0 && c.len() > 0 && a[0] == b[0] && b[0] == c[0] {
        lemma_bytes_before_transitive(a.skip(1), b.skip(1), c.skip(1));
    }
}

/// Texts are totally ordered: exactly one of before, after and equal holds of any two.
pub proof fn law_texts_are_totally_ordered(a: Seq<char>, b: Seq<char>)
    ensures
        !(text_before(a, b) && text_before(b, a)),
        a == b ==> !text_before(a, b),
        text_before(a, b) || text_before(b, a) || a == b,
{
    let (x, y) = (encode_utf8(a), encode_utf8(b));
    lemma_bytes_before_asymmetric(x, y);
    lemma_bytes_before_total(x, y);
    encode_utf8_decode_utf8(a);
    encode_utf8_decode_utf8(b);
}

/// The order of texts is transitive.
pub proof fn law_text_order_is_transitive(a: Seq<char>, b: Seq<char>, c: Seq<char>)
    requires
        text_before(a, b),
        text_before(b, c),
    ensures
        text_before(a, c),
{
    lemma_bytes_before_transitive(encode_utf8(a), encode_utf8(b), encode_utf8(c));
}

/// ASCII texts that agree up to some place, where the first one ends or has the smaller
/// character, are in order.
pub proof fn lemma_ascii_before(a: Seq<char>, b: Seq<char>, k: int)
    requires
        is_ascii_chars(a),
        is_ascii_chars(b),
        0 <= k <= a.len(),
        k < b.len(),
        a.take(k) == b.take(k),
        k == a.len() || a[k] < b[k],
    ensures
        text_before(a, b),
{
    is_ascii_chars_encode_utf8(a);
    is_ascii_chars_encode_utf8(b);
    let (x, y) = (encode_utf8(a), encode_utf8(b));
    assert forall|i: int| 0 <= i < k implies x[i] == #[trigger] y[i] by {
        assert(a[i] == a.take(k)[i] && b[i] == b.take(k)[i]);
        assert(x[i] == a[i] as u8 && y[i] == b[i] as u8);
    }
    if k < a.len() {
        assert(x[k] == a[k] as u8 && y[k] == b[k] as u8);
    }
    lemma_bytes_before_at(x, y, k);
}

proof fn lemma_bytes_before_at(x: Seq<u8>, y: Seq<u8>, k: int)
    requires
        0 <= k <= x.len(),
        k < y.len(),
        forall|i: int| 0 <= i < k ==> x[i] == #[trigger] y[i],
        k == x.len() || x[k] < y[k],
    ensures
        bytes_before(x, y),
    decreases k,
{
    if k > 0 {
        assert(x[0] == y[0]);
        let (u, v) = (x.skip(1), y.skip(1));
        assert forall|i: int| 0 <= i < k - 1 implies u[i] == #[trigger] v[i] by {
            assert(v[i] == y[i + 1]);
            assert(u[i] == x[i + 1]);
        }
        lemma_bytes_before_at(u, v, k - 1);
    }
}

/// The first difference decides which of two byte strings comes first; without one the shorter
/// does.
pub proof fn law_first_difference_decides(x: Seq<u8>, y: Seq<u8>, k: int)
    requires
        0 <= k <= x.len(),
        k <= y.len(),
        forall|i: int| 0 <= i < k ==> x[i] == #[trigger] y[i],
    ensures
        k < x.len() && k < y.len() && x[k] < y[k] ==> bytes_before(x, y) && !bytes_before(y, x),
        k == x.len() && k < y.len() ==> bytes_before(x, y) && !bytes_before(y, x),
        k == x.len() && k == y.len() ==> !bytes_before(x, y) && !bytes_before(y, x),
{
    if k < y.len() && (k == x.len() || x[k] < y[k]) {
        lemma_bytes_before_at(x, y, k);
        lemma_bytes_before_asymmetric(x, y);
    }
    if k == x.len() && k == y.len() {
        assert(x =~= y);
        lemma_bytes_before_asymmetric(x, x);
    }
}

/// Texts are in the order of their bytes.
pub proof fn law_texts_are_ordered_by_bytes(a: Seq<char>, b: Seq<char>)
    ensures
        text_before(a, b) == bytes_before(encode_utf8(a), encode_utf8(b)),
{
}

/// A sorted list has what the list had, as often as the list had it, nothing that comes before
/// what stands to its left, and what ties in the order it had.
pub proof fn law_sorted_lists_are_ordered_and_complete<T>(
    input: Seq<T>,
    out: Seq<T>,
    less: spec_fn(T, T) -> bool,
    x: T,
)
    requires
        is_stable_sort(input, out, less),
    ensures
        out.len() == input.len(),
        forall|i: int, j: int| 0 <= i < j < out.len() ==> !less(#[trigger] out[j], #[trigger] out[i]),
        out.filter(|y: T| !less(x, y) && !less(y, x)) == input.filter(
            |y: T| !less(x, y) && !less(y, x),
        ),
{
    let p = |y: T| !less(x, y) && !less(y, x);
    let q = |y: T| ties(less, x, y);
    assert(p =~= q);
    assert(tied_with(out, less, x) == tied_with(input, less, x));
}

} // verus!

//! The order in which files appear in the document: ascending by their
//! relative paths, compared byte by byte.

use crate::text::texts;
use vstd::prelude::*;
use vstd::seq_lib::{lemma_multiset_commutative, to_multiset_build};
use vstd::utf8::encode_utf8;

verus! {

/// Lexicographic order on byte strings: the first byte that differs decides,
/// and a proper prefix comes before what it is a prefix of.
pub open spec fn lex_le(a: Seq<u8>, b: Seq<u8>) -> bool
    decreases a.len(),
{
    if a.len() == 0 {
        true
    } else if b.len() == 0 {
        false
    } else if a[0] != b[0] {
        a[0] < b[0]
    } else {
        lex_le(a.drop_first(), b.drop_first())
    }
}

/// The order of strings: lexicographic on their UTF-8 bytes.
pub open spec fn text_le(a: Seq<char>, b: Seq<char>) -> bool {
    lex_le(encode_utf8(a), encode_utf8(b))
}

/// Of two byte strings, one comes at or before the other.
pub proof fn lemma_lex_le_total(a: Seq<u8>, b: Seq<u8>)
    ensures
        lex_le(a, b) || lex_le(b, a),
    decreases a.len(),
{
    if a.len() > 0 && b.len() > 0 && a[0] == b[0] {
        lemma_lex_le_total(a.drop_first(), b.drop_first());
    }
}

/// The order on byte strings is transitive.
pub proof fn lemma_lex_le_transitive(a: Seq<u8>, b: Seq<u8>, c: Seq<u8>)
    requires
        lex_le(a, b),
        lex_le(b, c),
    ensures
        lex_le(a, c),
    decreases a.len(),
{
    if a.len() > 0 && b.len() > 0 && c.len() > 0 && a[0] == b[0] && b[0] == c[0] {
        lemma_lex_le_transitive(a.drop_first(), b.drop_first(), c.drop_first());
    }
}

/// Compares two byte strings.
pub fn bytes_le(a: &[u8], b: &[u8]) -> (le: bool)
    ensures
        le == lex_le(a@, b@),
{
    let mut i: usize = 0;
    assert(a@.skip(0) == a@);
    assert(b@.skip(0) == b@);
    while i < a.len() && i < b.len()
        invariant
            i <= a.len(),
            i <= b.len(),
            lex_le(a@, b@) == lex_le(a@.skip(i as int), b@.skip(i as int)),
        decreases a.len() - i,
    {
        proof {
            assert(a@.skip(i as int).drop_first() == a@.skip(i as int + 1));
            assert(b@.skip(i as int).drop_first() == b@.skip(i as int + 1));
        }
        if a[i] != b[i] {
            return a[i] < b[i];
        }
        i += 1;
    }
    i == a.len()
}

/// Compares two strings by their bytes.
pub fn str_le(a: &str, b: &str) -> (le: bool)
    ensures
        le == text_le(a@, b@),
{
    bytes_le(a.as_bytes(), b.as_bytes())
}

/// `order` lists positions of `keys` so that the keys ascend.
pub open spec fn in_order(keys: Seq<Seq<char>>, order: Seq<usize>) -> bool {
    forall|p: int, q: int|
        0 <= p <= q < order.len() ==> text_le(
            keys[#[trigger] order[p] as int],
            keys[#[trigger] order[q] as int],
        )
}

/// Every entry of `order` is a position below `n`.
pub open spec fn all_below(order: Seq<usize>, n: int) -> bool {
    forall|p: int| 0 <= p < order.len() ==> (#[trigger] order[p]) < n
}

/// The positions from `lo` up to, not including, `hi`.
pub open spec fn positions(lo: int, hi: int) -> Seq<usize> {
    Seq::new((hi - lo) as nat, |k: int| (lo + k) as usize)
}

/// Merges two ascending lists of positions into one.
fn merge(keys: &[String], a: &Vec<usize>, b: &Vec<usize>) -> (out: Vec<usize>)
    requires
        all_below(a@, keys@.len() as int),
        all_below(b@, keys@.len() as int),
        in_order(texts(keys@), a@),
        in_order(texts(keys@), b@),
        a@.len() + b@.len() <= usize::MAX,
    ensures
        all_below(out@, keys@.len() as int),
        in_order(texts(keys@), out@),
        out@.to_multiset() == a@.to_multiset().add(b@.to_multiset()),
{
    let ghost k = texts(keys@);
    let mut out: Vec<usize> = Vec::new();
    let mut i: usize = 0;
    let mut j: usize = 0;
    proof {
        let none = Seq::<usize>::empty();
        assert(a@.take(0) == none);
        assert(b@.take(0) == none);
        lemma_multiset_commutative(none, none);
    }
    while i < a.len() || j < b.len()
        invariant
            i <= a.len(),
            j <= b.len(),
            k == texts(keys@),
            all_below(a@, keys@.len() as int),
            all_below(b@, keys@.len() as int),
            in_order(k, a@),
            in_order(k, b@),
            all_below(out@, keys@.len() as int),
            in_order(k, out@),
            out@.len() == i + j,
            out@.to_multiset() == a@.take(i as int).to_multiset().add(
                b@.take(j as int).to_multiset(),
            ),
            forall|p: int|
                0 <= p < out@.len() && i < a@.len() ==> text_le(
                    k[#[trigger] out@[p] as int],
                    k[a@[i as int] as int],
                ),
            forall|p: int|
                0 <= p < out@.len() && j < b@.len() ==> text_le(
                    k[#[trigger] out@[p] as int],
                    k[b@[j as int] as int],
                ),
        decreases a.len() - i + b.len() - j,
    {
        let from_a = if j >= b.len() {
            true
        } else if i >= a.len() {
            false
        } else {
            str_le(keys[a[i]].as_str(), keys[b[j]].as_str())
        };
        let ghost before = out@;
        if from_a {
            let x = a[i];
            out.push(x);
            proof {
                to_multiset_build(before, x);
                to_multiset_build(a@.take(i as int), x);
                assert(a@.take(i as int + 1) == a@.take(i as int).push(x));
                assert(out@.to_multiset() =~= a@.take(i as int + 1).to_multiset().add(
                    b@.take(j as int).to_multiset(),
                ));
                lemma_pushed_in_order(k, before, x);
                if i + 1 < a@.len() {
                    lemma_bounded_by_next(k, before, x, a@[i as int + 1]);
                }
            }
            i += 1;
        } else {
            let y = b[j];
            out.push(y);
            proof {
                to_multiset_build(before, y);
                to_multiset_build(b@.take(j as int), y);
                assert(b@.take(j as int + 1) == b@.take(j as int).push(y));
                assert(out@.to_multiset() =~= a@.take(i as int).to_multiset().add(
                    b@.take(j as int + 1).to_multiset(),
                ));
                lemma_pushed_in_order(k, before, y);
                if i < a@.len() {
                    lemma_lex_le_total(
                        encode_utf8(k[a@[i as int] as int]),
                        encode_utf8(k[y as int]),
                    );
                }
                if j + 1 < b@.len() {
                    lemma_bounded_by_next(k, before, y, b@[j as int + 1]);
                }
            }
            j += 1;
        }
    }
    assert(a@.take(i as int) == a@);
    assert(b@.take(j as int) == b@);
    out
}

/// A list that ascends stays ascending when a position is added whose key is
/// at or after every key of the list.
proof fn lemma_pushed_in_order(keys: Seq<Seq<char>>, order: Seq<usize>, x: usize)
    requires
        in_order(keys, order),
        forall|p: int|
            0 <= p < order.len() ==> text_le(keys[#[trigger] order[p] as int], keys[x as int]),
    ensures
        in_order(keys, order.push(x)),
{
    let longer = order.push(x);
    assert forall|p: int, q: int| 0 <= p <= q < longer.len() implies text_le(
        keys[#[trigger] longer[p] as int],
        keys[#[trigger] longer[q] as int],
    ) by {
        if p == order.len() {
            // Both positions are the new one, and a key is at or before itself.
            lemma_lex_le_total(encode_utf8(keys[x as int]), encode_utf8(keys[x as int]));
        }
    }
}

/// When every key of a list is at or before the key at `x`, and that one at
/// or before the key at `next`, every key of the list with `x` added is at or
/// before the key at `next`.
proof fn lemma_bounded_by_next(keys: Seq<Seq<char>>, order: Seq<usize>, x: usize, next: usize)
    requires
        forall|p: int|
            0 <= p < order.len() ==> text_le(keys[#[trigger] order[p] as int], keys[x as int]),
        text_le(keys[x as int], keys[next as int]),
    ensures
        forall|p: int|
            0 <= p < order.push(x).len() ==> text_le(
                keys[#[trigger] order.push(x)[p] as int],
                keys[next as int],
            ),
{
    let longer = order.push(x);
    assert forall|p: int| 0 <= p < longer.len() implies text_le(
        keys[#[trigger] longer[p] as int],
        keys[next as int],
    ) by {
        if p < order.len() {
            lemma_lex_le_transitive(
                encode_utf8(keys[order[p] as int]),
                encode_utf8(keys[x as int]),
                encode_utf8(keys[next as int]),
            );
        }
    }
}

/// Sorts the positions from `lo` up to `hi` by their keys.
fn sort_range(keys: &[String], lo: usize, hi: usize) -> (out: Vec<usize>)
    requires
        lo <= hi <= keys@.len(),
    ensures
        all_below(out@, keys@.len() as int),
        in_order(texts(keys@), out@),
        out@.to_multiset() == positions(lo as int, hi as int).to_multiset(),
        out@.len() == hi - lo,
    decreases hi - lo,
{
    let mut out: Vec<usize>;
    if hi - lo == 0 {
        out = Vec::new();
    } else if hi - lo == 1 {
        out = Vec::new();
        out.push(lo);
        assert(out@ == positions(lo as int, hi as int));
        proof {
            lemma_lex_le_total(
                encode_utf8(texts(keys@)[lo as int]),
                encode_utf8(texts(keys@)[lo as int]),
            );
        }
    } else {
        let mid: usize = lo + (hi - lo) / 2;
        let left = sort_range(keys, lo, mid);
        let right = sort_range(keys, mid, hi);
        out = merge(keys, &left, &right);
        proof {
            let l = positions(lo as int, mid as int);
            let r = positions(mid as int, hi as int);
            assert(l + r == positions(lo as int, hi as int));
            lemma_multiset_commutative(l, r);
        }
    }
    proof {
        out@.to_multiset_ensures();
        positions(lo as int, hi as int).to_multiset_ensures();
    }
    out
}

/// The order in which to show files with the given relative paths.
///
/// The result lists every position of `keys` exactly once, and the paths at
/// the listed positions ascend in the byte-wise lexicographic order of
/// strings.
pub fn sorted_order(keys: &[String]) -> (order: Vec<usize>)
    ensures
        order@.len() == keys@.len(),
        all_below(order@, keys@.len() as int),
        order@.no_duplicates(),
        in_order(texts(keys@), order@),
{
    let order = sort_range(keys, 0, keys.len());
    proof {
        let all = positions(0, keys@.len() as int);
        all.lemma_multiset_has_no_duplicates();
        order@.lemma_multiset_has_no_duplicates_conv();
    }
    order
}

} // verus!

use vstd::prelude::*;
use vstd::utf8::encode_utf8;

use crate::fileinfo::{FileInfo, FileInfoView};
use crate::options::Sort;

verus! {

/// Lexicographic order on byte strings, the order of `str`'s comparison.
pub open spec fn bytes_lt(a: Seq<u8>, b: Seq<u8>) -> bool
    decreases a.len(),
{
    if b.len() == 0 {
        false
    } else if a.len() == 0 {
        true
    } else if a[0] != b[0] {
        a[0] < b[0]
    } else {
        bytes_lt(a.drop_first(), b.drop_first())
    }
}

/// The bytes that entries are compared by under `sort`.
pub open spec fn sort_key(f: FileInfoView, sort: Sort) -> Seq<u8> {
    match sort {
        Sort::Unsorted => Seq::empty(),
        Sort::Path => encode_utf8(f.path),
        Sort::Name => encode_utf8(f.name),
        Sort::Extension => encode_utf8(f.ext),
    }
}

/// Entry `x` of `s` comes before entry `y` in a stable sort: its key is
/// smaller, or the keys are equal and it was found first.
pub open spec fn precedes(s: Seq<FileInfoView>, sort: Sort, x: int, y: int) -> bool {
    let kx = sort_key(s[x], sort);
    let ky = sort_key(s[y], sort);
    bytes_lt(kx, ky) || (kx == ky && x < y)
}

/// The views of a list of entries.
pub open spec fn views(s: Seq<FileInfo>) -> Seq<FileInfoView> {
    s.map_values(|f: FileInfo| f@)
}

/// `p` lists each position below `n` once.
pub open spec fn is_permutation(p: Seq<int>, n: nat) -> bool {
    &&& p.len() == n
    &&& forall|i: int| 0 <= i < n ==> 0 <= #[trigger] p[i] < n
    &&& forall|i: int, j: int| 0 <= i < j < n ==> p[i] != p[j]
}

/// `out` is `inp` in the order that `p` gives.
pub open spec fn rearranged(out: Seq<FileInfoView>, inp: Seq<FileInfoView>, p: Seq<int>) -> bool {
    &&& out.len() == p.len()
    &&& forall|k: int| 0 <= k < out.len() ==> #[trigger] out[k] == inp[p[k]]
}

/// `p` lists positions of `s` in the order of a stable sort by `sort`.
pub open spec fn in_stable_order(s: Seq<FileInfoView>, sort: Sort, p: Seq<int>) -> bool {
    forall|i: int, j: int| 0 <= i < j < p.len() ==> precedes(s, sort, #[trigger] p[i], #[trigger] p[j])
}

/// `out` is `inp` stably sorted by `sort`: a rearrangement of it in which
/// keys do not decrease and entries with equal keys keep their order.
pub open spec fn stably_sorted(out: Seq<FileInfoView>, inp: Seq<FileInfoView>, sort: Sort) -> bool {
    exists|p: Seq<int>|
        #[trigger] is_permutation(p, inp.len()) && rearranged(out, inp, p) && in_stable_order(
            inp,
            sort,
            p,
        )
}

pub proof fn lemma_bytes_lt_irreflexive(a: Seq<u8>)
    ensures
        !bytes_lt(a, a),
    decreases a.len(),
{
    if a.len() > 0 {
        lemma_bytes_lt_irreflexive(a.drop_first());
    }
}

pub proof fn lemma_bytes_lt_total(a: Seq<u8>, b: Seq<u8>)
    requires
        a != b,
    ensures
        bytes_lt(a, b) || bytes_lt(b, a),
    decreases a.len(),
{
    if a.len() > 0 && b.len() > 0 && a[0] == b[0] {
        if a.drop_first() == b.drop_first() {
            assert(a =~= seq![a[0]] + a.drop_first());
            assert(b =~= seq![b[0]] + b.drop_first());
        }
        lemma_bytes_lt_total(a.drop_first(), b.drop_first());
    } else if a.len() == 0 && b.len() == 0 {
        assert(a =~= b);
    }
}

pub proof fn lemma_bytes_lt_transitive(a: Seq<u8>, b: Seq<u8>, c: Seq<u8>)
    requires
        bytes_lt(a, b),
        bytes_lt(b, c),
    ensures
        bytes_lt(a, c),
    decreases a.len(),
{
    if a.len() > 0 && a[0] == b[0] && b[0] == c[0] {
        lemma_bytes_lt_transitive(a.drop_first(), b.drop_first(), c.drop_first());
    }
}

pub proof fn lemma_precedes_transitive(s: Seq<FileInfoView>, sort: Sort, x: int, y: int, z: int)
    requires
        precedes(s, sort, x, y),
        precedes(s, sort, y, z),
    ensures
        precedes(s, sort, x, z),
{
    let kx = sort_key(s[x], sort);
    let ky = sort_key(s[y], sort);
    let kz = sort_key(s[z], sort);
    if bytes_lt(kx, ky) && bytes_lt(ky, kz) {
        lemma_bytes_lt_transitive(kx, ky, kz);
    }
}

pub proof fn lemma_precedes_total(s: Seq<FileInfoView>, sort: Sort, x: int, y: int)
    requires
        x != y,
    ensures
        precedes(s, sort, x, y) || precedes(s, sort, y, x),
{
    let kx = sort_key(s[x], sort);
    let ky = sort_key(s[y], sort);
    if kx != ky {
        lemma_bytes_lt_total(kx, ky);
    }
}

pub proof fn lemma_precedes_irreflexive(s: Seq<FileInfoView>, sort: Sort, x: int)
    ensures
        !precedes(s, sort, x, x),
{
    lemma_bytes_lt_irreflexive(sort_key(s[x], sort));
}

/// Compares two byte strings lexicographically.
fn bytes_less(a: &[u8], b: &[u8]) -> (r: bool)
    ensures
        r == bytes_lt(a@, b@),
{
    let mut i: usize = 0;
    assert(a@.skip(0) =~= a@);
    assert(b@.skip(0) =~= b@);
    while i < a.len() && i < b.len()
        invariant
            i <= a@.len(),
            i <= b@.len(),
            bytes_lt(a@, b@) == bytes_lt(a@.skip(i as int), b@.skip(i as int)),
        decreases a@.len() - i,
    {
        if a[i] != b[i] {
            return a[i] < b[i];
        }
        assert(a@.skip(i as int).drop_first() =~= a@.skip(i + 1));
        assert(b@.skip(i as int).drop_first() =~= b@.skip(i + 1));
        i = i + 1;
    }
    i < b.len()
}

/// The key bytes of `f` under `sort`.
fn key_bytes(f: &FileInfo, sort: Sort) -> (r: &[u8])
    ensures
        r@ == sort_key(f@, sort),
{
    match sort {
        Sort::Unsorted => &[],
        Sort::Path => f.path.as_str().as_bytes(),
        Sort::Name => f.name.as_str().as_bytes(),
        Sort::Extension => f.ext.as_str().as_bytes(),
    }
}

/// Whether entry `x` of `v` comes before entry `y` in a stable sort.
fn comes_before(v: &Vec<FileInfo>, sort: Sort, x: usize, y: usize) -> (r: bool)
    requires
        x < v@.len(),
        y < v@.len(),
    ensures
        r == precedes(views(v@), sort, x as int, y as int),
{
    let kx = key_bytes(&v[x], sort);
    let ky = key_bytes(&v[y], sort);
    if bytes_less(kx, ky) {
        true
    } else if bytes_less(ky, kx) {
        false
    } else {
        proof {
            if kx@ != ky@ {
                lemma_bytes_lt_total(kx@, ky@);
            }
        }
        x < y
    }
}

/// The positions in `p` are in the order of a stable sort of `s`.
pub open spec fn positions_ordered(s: Seq<FileInfoView>, sort: Sort, p: Seq<usize>) -> bool {
    forall|x: int, y: int|
        0 <= x < y < p.len() ==> precedes(s, sort, #[trigger] p[x] as int, #[trigger] p[y] as int)
}

/// Merges two lists of positions, each in stable order, into one.
fn merge_positions(v: &Vec<FileInfo>, sort: Sort, a: Vec<usize>, b: Vec<usize>, mid: usize) -> (r:
    Vec<usize>)
    requires
        forall|k: int| 0 <= k < a@.len() ==> #[trigger] a@[k] < mid,
        forall|k: int| 0 <= k < b@.len() ==> mid <= #[trigger] b@[k] < v@.len(),
        positions_ordered(views(v@), sort, a@),
        positions_ordered(views(v@), sort, b@),
    ensures
        r@.len() == a@.len() + b@.len(),
        forall|k: int| 0 <= k < r@.len() ==> a@.contains(#[trigger] r@[k]) || b@.contains(r@[k]),
        positions_ordered(views(v@), sort, r@),
{
    let ghost s = views(v@);
    let mut r: Vec<usize> = Vec::new();
    let mut i: usize = 0;
    let mut j: usize = 0;
    while i < a.len() || j < b.len()
        invariant
            i <= a@.len(),
            j <= b@.len(),
            r@.len() == i + j,
            s == views(v@),
            forall|k: int| 0 <= k < a@.len() ==> #[trigger] a@[k] < mid,
            forall|k: int| 0 <= k < b@.len() ==> mid <= #[trigger] b@[k] < v@.len(),
            positions_ordered(s, sort, a@),
            positions_ordered(s, sort, b@),
            positions_ordered(s, sort, r@),
            forall|x: int, y: int|
                0 <= x < r@.len() && i <= y < a@.len() ==> precedes(
                    s,
                    sort,
                    #[trigger] r@[x] as int,
                    #[trigger] a@[y] as int,
                ),
            forall|x: int, y: int|
                0 <= x < r@.len() && j <= y < b@.len() ==> precedes(
                    s,
                    sort,
                    #[trigger] r@[x] as int,
                    #[trigger] b@[y] as int,
                ),
            forall|k: int| 0 <= k < r@.len() ==> a@.contains(#[trigger] r@[k]) || b@.contains(r@[k]),
        decreases a@.len() + b@.len() - i - j,
    {
        let take_a = if j >= b.len() {
            true
        } else if i >= a.len() {
            false
        } else {
            comes_before(v, sort, a[i], b[j])
        };
        if take_a {
            let x = a[i];
            proof {
                if j < b@.len() {
                    assert(precedes(s, sort, x as int, b@[j as int] as int));
                    assert forall|y: int| j <= y < b@.len() implies precedes(
                        s,
                        sort,
                        x as int,
                        #[trigger] b@[y] as int,
                    ) by {
                        if y > j {
                            lemma_precedes_transitive(s, sort, x as int, b@[j as int] as int, b@[y] as int);
                        }
                    }
                }
                assert(a@.contains(a@[i as int]));
            }
            r.push(x);
            i = i + 1;
        } else {
            let x = b[j];
            proof {
                if i < a@.len() {
                    assert(a@[i as int] != x);
                    lemma_precedes_total(s, sort, a@[i as int] as int, x as int);
                    assert(precedes(s, sort, x as int, a@[i as int] as int));
                    assert forall|y: int| i <= y < a@.len() implies precedes(
                        s,
                        sort,
                        x as int,
                        #[trigger] a@[y] as int,
                    ) by {
                        if y > i {
                            lemma_precedes_transitive(s, sort, x as int, a@[i as int] as int, a@[y] as int);
                        }
                    }
                }
                assert(b@.contains(b@[j as int]));
            }
            r.push(x);
            j = j + 1;
        }
    }
    r
}

/// The positions `lo..hi` of `v` in the order of a stable sort by `sort`.
pub(crate) fn sorted_positions(v: &Vec<FileInfo>, sort: Sort, lo: usize, hi: usize) -> (r: Vec<usize>)
    requires
        lo <= hi <= v@.len(),
    ensures
        r@.len() == hi - lo,
        forall|k: int| 0 <= k < r@.len() ==> lo <= #[trigger] r@[k] < hi,
        positions_ordered(views(v@), sort, r@),
    decreases hi - lo,
{
    if hi - lo == 0 {
        Vec::new()
    } else if hi - lo == 1 {
        let mut r: Vec<usize> = Vec::new();
        r.push(lo);
        r
    } else {
        let mid = lo + (hi - lo) / 2;
        let a = sorted_positions(v, sort, lo, mid);
        let b = sorted_positions(v, sort, mid, hi);
        let r = merge_positions(v, sort, a, b, mid);
        assert forall|k: int| 0 <= k < r@.len() implies lo <= #[trigger] r@[k] < hi by {
            if a@.contains(r@[k]) {
                let w = choose|w: int| 0 <= w < a@.len() && a@[w] == r@[k];
                assert(lo <= a@[w] < mid);
            } else {
                let w = choose|w: int| 0 <= w < b@.len() && b@[w] == r@[k];
                assert(mid <= b@[w] < hi);
            }
        }
        r
    }
}

/// Positions in stable order that cover `0..n` form a stable sort.
pub proof fn lemma_positions_sort(out: Seq<FileInfoView>, s: Seq<FileInfoView>, sort: Sort, p: Seq<usize>)
    requires
        p.len() == s.len(),
        forall|k: int| 0 <= k < p.len() ==> #[trigger] p[k] < s.len(),
        positions_ordered(s, sort, p),
        out.len() == p.len(),
        forall|k: int| 0 <= k < out.len() ==> #[trigger] out[k] == s[p[k] as int],
    ensures
        stably_sorted(out, s, sort),
{
    let q = p.map_values(|x: usize| x as int);
    assert forall|i: int, j: int| 0 <= i < j < s.len() implies q[i] != q[j] by {
        if q[i] == q[j] {
            assert(precedes(s, sort, p[i] as int, p[j] as int));
            lemma_precedes_irreflexive(s, sort, p[i] as int);
        }
    }
    assert forall|i: int| 0 <= i < s.len() implies 0 <= #[trigger] q[i] < s.len() by {
        assert(p[i] < s.len());
    }
    assert(is_permutation(q, s.len()));
    assert forall|k: int| 0 <= k < out.len() implies #[trigger] out[k] == s[q[k]] by {
        assert(out[k] == s[p[k] as int]);
    }
    assert(rearranged(out, s, q));
    assert forall|i: int, j: int| 0 <= i < j < q.len() implies precedes(s, sort, #[trigger] q[i], #[trigger] q[j]) by {
        assert(precedes(s, sort, p[i] as int, p[j] as int));
    }
    assert(in_stable_order(s, sort, q));
}

/// Any list is a stable sort of itself when no key is compared.
pub proof fn lemma_unsorted_is_stable(s: Seq<FileInfoView>)
    ensures
        stably_sorted(s, s, Sort::Unsorted),
{
    let q = Seq::new(s.len(), |i: int| i);
    assert(is_permutation(q, s.len()));
    assert(rearranged(s, s, q));
    assert forall|i: int, j: int| 0 <= i < j < q.len() implies precedes(s, Sort::Unsorted, #[trigger] q[i], #[trigger] q[j]) by {
        lemma_bytes_lt_irreflexive(Seq::<u8>::empty());
    }
    assert(in_stable_order(s, Sort::Unsorted, q));
}

/// A stable sort keeps the number of entries.
pub proof fn lemma_stably_sorted_len(out: Seq<FileInfoView>, inp: Seq<FileInfoView>, sort: Sort)
    requires
        stably_sorted(out, inp, sort),
    ensures
        out.len() == inp.len(),
{
    let p = choose|p: Seq<int>|
        #[trigger] is_permutation(p, inp.len()) && rearranged(out, inp, p) && in_stable_order(
            inp,
            sort,
            p,
        );
}

/// In a stable sort the keys do not decrease, and entries with equal keys
/// keep the order they had.
pub proof fn lemma_sorted_keys_ascend(out: Seq<FileInfoView>, inp: Seq<FileInfoView>, sort: Sort)
    requires
        stably_sorted(out, inp, sort),
    ensures
        forall|i: int, j: int|
            0 <= i < j < out.len() ==> bytes_lt(sort_key(#[trigger] out[i], sort), sort_key(#[trigger] out[j], sort))
                || sort_key(out[i], sort) == sort_key(out[j], sort),
        exists|p: Seq<int>|
            #[trigger] is_permutation(p, inp.len()) && rearranged(out, inp, p) && forall|i: int, j: int|
                0 <= i < j < out.len() && sort_key(out[i], sort) == sort_key(out[j], sort) ==> #[trigger] p[i]
                    < #[trigger] p[j],
{
    let p = choose|p: Seq<int>|
        #[trigger] is_permutation(p, inp.len()) && rearranged(out, inp, p) && in_stable_order(
            inp,
            sort,
            p,
        );
    assert forall|i: int, j: int| 0 <= i < j < out.len() implies bytes_lt(
        sort_key(#[trigger] out[i], sort),
        sort_key(#[trigger] out[j], sort),
    ) || sort_key(out[i], sort) == sort_key(out[j], sort) by {
        assert(precedes(inp, sort, p[i], p[j]));
        assert(out[i] == inp[p[i]]);
        assert(out[j] == inp[p[j]]);
    }
    assert forall|i: int, j: int|
        0 <= i < j < out.len() && sort_key(out[i], sort) == sort_key(out[j], sort) implies #[trigger] p[i]
        < #[trigger] p[j] by {
        assert(precedes(inp, sort, p[i], p[j]));
        assert(out[i] == inp[p[i]]);
        assert(out[j] == inp[p[j]]);
        lemma_bytes_lt_irreflexive(sort_key(out[i], sort));
    }
}

/// Without a sort key the entries stay in the order they were found.
pub proof fn lemma_unsorted_keeps_order(out: Seq<FileInfoView>, inp: Seq<FileInfoView>)
    requires
        stably_sorted(out, inp, Sort::Unsorted),
    ensures
        out == inp,
{
    let p = choose|p: Seq<int>|
        #[trigger] is_permutation(p, inp.len()) && rearranged(out, inp, p) && in_stable_order(
            inp,
            Sort::Unsorted,
            p,
        );
    let n = inp.len() as int;
    assert forall|i: int, j: int| 0 <= i < j < n implies #[trigger] p[i] < #[trigger] p[j] by {
        assert(precedes(inp, Sort::Unsorted, p[i], p[j]));
        lemma_bytes_lt_irreflexive(Seq::<u8>::empty());
    }
    assert forall|k: int| 0 <= k < n implies #[trigger] p[k] == k by {
        lemma_increasing_positions(p, n, k);
    }
    assert forall|k: int| 0 <= k < n implies #[trigger] out[k] == inp[k] by {
        assert(out[k] == inp[p[k]]);
    }
    assert(out =~= inp);
}

/// Increasing positions below `n`, `n` of them, are `0, 1, ..., n - 1`.
proof fn lemma_increasing_positions(p: Seq<int>, n: int, k: int)
    requires
        p.len() == n,
        0 <= k < n,
        forall|i: int| 0 <= i < n ==> 0 <= #[trigger] p[i] < n,
        forall|i: int, j: int| 0 <= i < j < n ==> #[trigger] p[i] < #[trigger] p[j],
    ensures
        p[k] == k,
{
    lemma_position_lower(p, n, k);
    lemma_position_upper(p, n, k);
}

proof fn lemma_position_lower(p: Seq<int>, n: int, k: int)
    requires
        p.len() == n,
        0 <= k < n,
        forall|i: int| 0 <= i < n ==> 0 <= #[trigger] p[i] < n,
        forall|i: int, j: int| 0 <= i < j < n ==> #[trigger] p[i] < #[trigger] p[j],
    ensures
        p[k] >= k,
    decreases k,
{
    if k > 0 {
        lemma_position_lower(p, n, k - 1);
        assert(p[k - 1] < p[k]);
    }
}

proof fn lemma_position_upper(p: Seq<int>, n: int, k: int)
    requires
        p.len() == n,
        0 <= k < n,
        forall|i: int| 0 <= i < n ==> 0 <= #[trigger] p[i] < n,
        forall|i: int, j: int| 0 <= i < j < n ==> #[trigger] p[i] < #[trigger] p[j],
    ensures
        p[k] <= k,
    decreases n - k,
{
    if k < n - 1 {
        lemma_position_upper(p, n, k + 1);
        assert(p[k] < p[k + 1]);
    }
}

} // verus!

//! Contiguity of a strided layout and the extent of storage it spans.

use vstd::prelude::*;

use crate::multi_array::index_math::{
    c_contiguous, dims_product, in_bounds, lemma_product_skip_step, lemma_ravel_max, max_index,
    offset_of, ravel,
};

verus! {

/// Whether some dimension of `shape` is zero.
pub open spec fn has_zero_dim(shape: Seq<usize>) -> bool {
    exists|i: int| 0 <= i < shape.len() && #[trigger] shape[i] == 0
}

/// One past the highest storage offset of a shape whose dimensions are all positive:
/// `1 + sum((dims[i] - 1) * strides[i])`.
pub open spec fn span_end(shape: Seq<usize>, strides: Seq<usize>) -> int {
    1 + offset_of(max_index(shape), strides)
}

/// Number of elements the storage of a strided layout spans.
///
/// A rank-0 shape spans one element and mismatched lengths give no answer. A shape with a
/// zero dimension spans none; otherwise the extent is `1 + sum((dims[i] - 1) * strides[i])`,
/// and there is no answer when it does not fit in `usize`.
pub open spec fn storage_extent(shape: Seq<usize>, strides: Seq<usize>) -> Option<usize> {
    if shape.len() == 0 {
        Some(1usize)
    } else if strides.len() != shape.len() {
        None
    } else if has_zero_dim(shape) {
        Some(0usize)
    } else if span_end(shape, strides) > usize::MAX {
        None
    } else {
        Some(span_end(shape, strides) as usize)
    }
}

proof fn lemma_span_end_step(shape: Seq<usize>, strides: Seq<usize>, i: int)
    requires
        shape.len() == strides.len(),
        0 <= i < shape.len(),
        shape[i] > 0,
    ensures
        span_end(shape.take(i + 1), strides.take(i + 1)) == span_end(shape.take(i), strides.take(i))
            + ((shape[i] - 1) as int) * (strides[i] as int),
{
    let m = max_index(shape.take(i + 1));
    assert(m.drop_last() =~= max_index(shape.take(i)));
    assert(strides.take(i + 1).drop_last() =~= strides.take(i));
    assert(m.last() == (shape[i] - 1) as usize);
    assert(strides.take(i + 1).last() == strides[i]);
}

/// A prefix of an offset sum is at most the whole sum.
proof fn lemma_offset_prefix_bound(idx: Seq<usize>, strides: Seq<usize>, a: int)
    requires
        idx.len() == strides.len(),
        0 <= a <= idx.len(),
    ensures
        offset_of(idx.take(a), strides.take(a)) <= offset_of(idx, strides),
    decreases idx.len(),
{
    if a < idx.len() {
        lemma_offset_prefix_bound(idx.drop_last(), strides.drop_last(), a);
        assert(idx.drop_last().take(a) =~= idx.take(a));
        assert(strides.drop_last().take(a) =~= strides.take(a));
        assert((idx.last() as int) * (strides.last() as int) >= 0) by (nonlinear_arith);
    } else {
        assert(idx.take(a) =~= idx);
        assert(strides.take(a) =~= strides);
    }
}

proof fn lemma_span_end_monotone(shape: Seq<usize>, strides: Seq<usize>, a: int, b: int)
    requires
        shape.len() == strides.len(),
        0 <= a <= b <= shape.len(),
        forall|j: int| 0 <= j < b ==> #[trigger] shape[j] > 0,
    ensures
        span_end(shape.take(a), strides.take(a)) <= span_end(shape.take(b), strides.take(b)),
{
    let m = max_index(shape.take(b));
    lemma_offset_prefix_bound(m, strides.take(b), a);
    assert(m.take(a) =~= max_index(shape.take(a)));
    assert(strides.take(b).take(a) =~= strides.take(a));
}

/// Whether `strides` describe a packed C-order layout of `shape`: each dimension longer than
/// one has the product of the later dimensions as its stride, and the running product of the
/// dimensions, taken from the last, never overflows.
pub fn is_c_contiguous(shape: &[usize], strides: &[usize]) -> (r: bool)
    ensures
        r == c_contiguous(shape@, strides@),
{
    if shape.len() != strides.len() {
        return false;
    }
    let mut expected: usize = 1;
    let mut d = shape.len();
    assert(shape@.skip(shape.len() as int) =~= Seq::<usize>::empty());
    while d > 0
        invariant
            d <= shape.len(),
            shape.len() == strides.len(),
            expected == dims_product(shape@.skip(d as int)),
            forall|j: int|
                d <= j < shape.len() && shape@[j] > 1 ==> #[trigger] strides@[j] == dims_product(
                    shape@.skip(j + 1),
                ),
            forall|j: int| d <= j <= shape.len() ==> #[trigger] dims_product(shape@.skip(j)) <= usize::MAX,
        decreases d,
    {
        let pos = d - 1;
        proof {
            lemma_product_skip_step(shape@, pos as int);
        }
        if shape[pos] > 1 && strides[pos] != expected {
            assert(strides@[pos as int] != dims_product(shape@.skip(pos + 1)));
            return false;
        }
        let dim = shape[pos];
        assert((dim as nat) * (expected as nat) == (expected as nat) * (dim as nat))
            by (nonlinear_arith);
        match expected.checked_mul(dim) {
            Some(next) => {
                expected = next;
                d = pos;
            },
            None => {
                assert(dims_product(shape@.skip(pos as int)) > usize::MAX);
                return false;
            },
        }
    }
    true
}

proof fn lemma_contiguous_prefix(idx: Seq<usize>, shape: Seq<usize>, strides: Seq<usize>, n: int)
    requires
        c_contiguous(shape, strides),
        idx.len() == shape.len(),
        0 <= n <= idx.len(),
        forall|j: int| 0 <= j < n ==> #[trigger] idx[j] < shape[j],
    ensures
        offset_of(idx.take(n), strides.take(n)) == ravel(idx.take(n), shape.take(n)) * (
        dims_product(shape.skip(n)) as int),
    decreases n,
{
    if n == 0 {
        assert(idx.take(0) =~= Seq::<usize>::empty());
        assert(shape.take(0) =~= Seq::<usize>::empty());
        assert(strides.take(0) =~= Seq::<usize>::empty());
    } else {
        let i = n - 1;
        lemma_contiguous_prefix(idx, shape, strides, i);
        assert(idx.take(n).drop_last() =~= idx.take(i));
        assert(shape.take(n).drop_last() =~= shape.take(i));
        assert(strides.take(n).drop_last() =~= strides.take(i));
        assert(idx.take(n).last() == idx[i]);
        assert(shape.take(n).last() == shape[i]);
        assert(strides.take(n).last() == strides[i]);
        lemma_product_skip_step(shape, i);
        let o = offset_of(idx.take(i), strides.take(i));
        let r = ravel(idx.take(i), shape.take(i));
        let p = dims_product(shape.skip(n)) as int;
        let d = shape[i] as int;
        let x = idx[i] as int;
        let s = strides[i] as int;
        assert(idx[i] < shape[i]);
        assert(x * s == x * p) by {
            if shape[i] > 1 {
                assert(strides[i] == dims_product(shape.skip(i + 1)));
            } else {
                assert(x == 0);
            }
        }
        assert(o == r * (d * p));
        assert(r * (d * p) + x * p == (r * d + x) * p) by (nonlinear_arith);
    }
}

/// On a packed C-order layout, the storage offset of every in-bounds index is its C-order
/// position.
pub proof fn lemma_contiguous_offset_is_position(
    idx: Seq<usize>,
    shape: Seq<usize>,
    strides: Seq<usize>,
)
    requires
        c_contiguous(shape, strides),
        in_bounds(idx, shape),
    ensures
        offset_of(idx, strides) == ravel(idx, shape),
{
    let n = idx.len() as int;
    lemma_contiguous_prefix(idx, shape, strides, n);
    assert(idx.take(n) =~= idx);
    assert(shape.take(n) =~= shape);
    assert(strides.take(n) =~= strides);
    assert(shape.skip(n) =~= Seq::<usize>::empty());
}

/// The storage extent of a packed C-order layout is the element count of its shape.
pub proof fn lemma_contiguous_extent_is_count(shape: Seq<usize>, strides: Seq<usize>)
    requires
        c_contiguous(shape, strides),
    ensures
        storage_extent(shape, strides) == Some(dims_product(shape) as usize),
{
    let len = shape.len() as int;
    assert(shape.skip(0) =~= shape);
    assert(dims_product(shape.skip(0)) <= usize::MAX);
    if len > 0 {
        if has_zero_dim(shape) {
            let z = choose|i: int| 0 <= i < shape.len() && #[trigger] shape[i] == 0;
            lemma_product_zero(shape, z);
        } else {
            let m = max_index(shape);
            assert forall|j: int| 0 <= j < len implies #[trigger] m[j] < shape[j] by {
                assert(shape[j] != 0);
            }
            lemma_contiguous_prefix(m, shape, strides, len);
            assert(shape.take(len) =~= shape);
            assert(strides.take(len) =~= strides);
            assert(m.take(len) =~= m);
            assert(shape.skip(len) =~= Seq::<usize>::empty());
            assert(dims_product(shape.skip(len)) == 1);
            lemma_ravel_max(shape);
            let r = ravel(m, shape);
            let one = dims_product(shape.skip(len)) as int;
            assert(r * one == r) by (nonlinear_arith)
                requires
                    one == 1,
            ;
            assert(offset_of(m, strides) == ravel(m, shape));
            assert(span_end(shape, strides) == dims_product(shape));
        }
    }
}

proof fn lemma_product_zero(shape: Seq<usize>, z: int)
    requires
        0 <= z < shape.len(),
        shape[z] == 0,
    ensures
        dims_product(shape) == 0,
    decreases shape.len(),
{
    let head = dims_product(shape.drop_last()) as int;
    if z == shape.len() - 1 {
        assert(shape.last() == 0);
        let last = shape.last() as int;
        assert(head * last == 0) by (nonlinear_arith)
            requires
                last == 0,
        ;
    } else {
        assert(shape.drop_last()[z] == 0);
        lemma_product_zero(shape.drop_last(), z);
        let last = shape.last() as int;
        assert(head * last == 0) by (nonlinear_arith)
            requires
                head == 0,
        ;
    }
}

/// Raising any index entry never lowers the storage offset.
proof fn lemma_offset_monotone(lo: Seq<usize>, hi: Seq<usize>, strides: Seq<usize>)
    requires
        lo.len() == hi.len(),
        forall|j: int| 0 <= j < lo.len() ==> #[trigger] lo[j] <= hi[j],
    ensures
        offset_of(lo, strides) <= offset_of(hi, strides),
    decreases lo.len(),
{
    if lo.len() > 0 {
        assert forall|j: int| 0 <= j < lo.drop_last().len() implies #[trigger] lo.drop_last()[j]
            <= hi.drop_last()[j] by {
            assert(lo[j] <= hi[j]);
        }
        lemma_offset_monotone(lo.drop_last(), hi.drop_last(), strides.drop_last());
        let a = lo.last() as int;
        let b = hi.last() as int;
        let s = strides.last() as int;
        assert(lo[lo.len() - 1] <= hi[hi.len() - 1]);
        assert(a * s <= b * s) by (nonlinear_arith)
            requires
                0 <= a <= b,
                0 <= s,
        ;
    }
}

/// Every in-bounds element lies inside the storage extent: its offset is below it.
pub proof fn lemma_extent_covers_offsets(
    idx: Seq<usize>,
    shape: Seq<usize>,
    strides: Seq<usize>,
    extent: usize,
)
    requires
        storage_extent(shape, strides) == Some(extent),
        in_bounds(idx, shape),
    ensures
        offset_of(idx, strides) < extent,
{
    let len = shape.len() as int;
    if len > 0 {
        assert forall|j: int| 0 <= j < len implies #[trigger] shape[j] > 0 by {
            assert(idx[j] < shape[j]);
        }
        assert(!has_zero_dim(shape));
        assert forall|j: int| 0 <= j < idx.len() implies #[trigger] idx[j] <= max_index(shape)[j] by {
            assert(idx[j] < shape[j]);
        }
        lemma_offset_monotone(idx, max_index(shape), strides);
    }
}

/// Any zero-sized dimension gives an extent of zero, whatever the strides.
pub proof fn lemma_zero_dimension_extent(shape: Seq<usize>, strides: Seq<usize>, i: int)
    requires
        strides.len() == shape.len(),
        0 <= i < shape.len(),
        shape[i] == 0,
    ensures
        storage_extent(shape, strides) == Some(0usize),
{
    assert(has_zero_dim(shape));
}

/// Number of elements spanned by the storage of a strided layout: one more than the highest
/// addressable element offset, overflow-checked. A rank-0 shape spans one element and a shape
/// with a zero dimension spans none; mismatched lengths or overflow give `None`.
pub fn storage_extent_from(shape: &[usize], strides: &[usize]) -> (r: Option<usize>)
    ensures
        r == storage_extent(shape@, strides@),
{
    if shape.len() == 0 {
        return Some(1);
    }
    if strides.len() != shape.len() {
        return None;
    }
    let mut k: usize = 0;
    while k < shape.len()
        invariant
            0 < shape.len() == strides.len(),
            k <= shape.len(),
            forall|j: int| 0 <= j < k ==> #[trigger] shape@[j] > 0,
        decreases shape.len() - k,
    {
        if shape[k] == 0 {
            assert(shape@[k as int] == 0);
            assert(has_zero_dim(shape@));
            return Some(0);
        }
        k = k + 1;
    }
    assert(!has_zero_dim(shape@));
    let mut extent: usize = 1;
    let mut i: usize = 0;
    assert(max_index(shape@.take(0)) =~= Seq::<usize>::empty());
    while i < shape.len()
        invariant
            0 < shape.len() == strides.len(),
            i <= shape.len(),
            forall|j: int| 0 <= j < shape.len() ==> #[trigger] shape@[j] > 0,
            extent == span_end(shape@.take(i as int), strides@.take(i as int)),
        decreases shape.len() - i,
    {
        proof {
            lemma_span_end_step(shape@, strides@, i as int);
        }
        let grown = match (shape[i] - 1).checked_mul(strides[i]) {
            Some(span) => extent.checked_add(span),
            None => None,
        };
        match grown {
            Some(next) => {
                extent = next;
                i = i + 1;
            },
            None => {
                proof {
                    let len = shape.len() as int;
                    lemma_span_end_monotone(shape@, strides@, i + 1, len);
                    assert(shape@.take(len) =~= shape@);
                    assert(strides@.take(len) =~= strides@);
                    let a = (shape[i as int] - 1) as int;
                    let b = strides[i as int] as int;
                    assert(a * b >= 0) by (nonlinear_arith)
                        requires
                            a >= 0,
                            b >= 0,
                    ;
                }
                return None;
            },
        }
    }
    assert(shape@.take(shape.len() as int) =~= shape@);
    assert(strides@.take(shape.len() as int) =~= strides@);
    Some(extent)
}

/// Storage length to use for a layout: its extent, or the element count when the extent
/// cannot be computed.
pub fn storage_len_from(shape: &[usize], strides: &[usize], count: usize) -> (r: usize)
    ensures
        r == match storage_extent(shape@, strides@) {
            Some(e) => e,
            None => count,
        },
{
    match storage_extent_from(shape, strides) {
        Some(extent) => extent,
        None => count,
    }
}

/// Whether storage is tightly packed: its length equals the element count.
pub fn is_packed(shape: &[usize], strides: &[usize], count: usize) -> (r: bool)
    ensures
        r == (match storage_extent(shape@, strides@) {
            Some(e) => e,
            None => count,
        } == count),
{
    storage_len_from(shape, strides, count) == count
}

} // verus!

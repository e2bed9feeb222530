//! Mathematical model of C-order indexing over a shape and of strided storage offsets.

use vstd::prelude::*;
use vstd::arithmetic::div_mod::{lemma_fundamental_div_mod, lemma_fundamental_div_mod_converse};

verus! {

/// Number of elements addressed by a shape: the product of its dimensions.
pub open spec fn dims_product(dims: Seq<usize>) -> nat
    decreases dims.len(),
{
    if dims.len() == 0 {
        1
    } else {
        dims_product(dims.drop_last()) * (dims.last() as nat)
    }
}

/// Whether every index lies below its dimension.
pub open spec fn in_bounds(idx: Seq<usize>, dims: Seq<usize>) -> bool {
    &&& idx.len() == dims.len()
    &&& forall|i: int| 0 <= i < idx.len() ==> #[trigger] idx[i] < dims[i]
}

/// C-order (row-major, last index fastest) linear position of an index tuple.
pub open spec fn ravel(idx: Seq<usize>, dims: Seq<usize>) -> int
    decreases idx.len(),
{
    if idx.len() == 0 {
        0
    } else {
        ravel(idx.drop_last(), dims.drop_last()) * (dims.last() as int) + (idx.last() as int)
    }
}

/// The index tuple at C-order linear position `k`.
pub open spec fn unravel(k: int, dims: Seq<usize>) -> Seq<usize>
    decreases dims.len(),
{
    if dims.len() == 0 {
        Seq::empty()
    } else {
        unravel(k / (dims.last() as int), dims.drop_last()).push(
            (k % (dims.last() as int)) as usize,
        )
    }
}

/// Storage offset of an index tuple: the sum of each index times its stride.
pub open spec fn offset_of(idx: Seq<usize>, strides: Seq<usize>) -> int
    decreases idx.len(),
{
    if idx.len() == 0 {
        0
    } else {
        offset_of(idx.drop_last(), strides.drop_last()) + (idx.last() as int) * (
        strides.last() as int)
    }
}

/// The largest index tuple of a shape: every dimension minus one.
pub open spec fn max_index(dims: Seq<usize>) -> Seq<usize> {
    Seq::new(dims.len(), |i: int| (dims[i] - 1) as usize)
}

/// The all-zero index tuple of a given rank.
pub open spec fn zero_index(rank: nat) -> Seq<usize> {
    Seq::new(rank, |i: int| 0usize)
}

/// Whether strides describe a packed C-order layout of the shape: every dimension longer
/// than one has the product of the later dimensions as its stride, and no suffix product
/// of the shape overflows `usize`.
pub open spec fn c_contiguous(shape: Seq<usize>, strides: Seq<usize>) -> bool {
    &&& shape.len() == strides.len()
    &&& forall|d: int|
        0 <= d < shape.len() && shape[d] > 1 ==> #[trigger] strides[d] == dims_product(
            shape.skip(d + 1),
        )
    &&& forall|d: int| 0 <= d <= shape.len() ==> #[trigger] dims_product(shape.skip(d)) <= usize::MAX
}

/// Dropping the last coordinate of an in-bounds index leaves it in bounds of the shape without
/// its last dimension.
pub proof fn lemma_in_bounds_drop_last(idx: Seq<usize>, dims: Seq<usize>)
    requires
        in_bounds(idx, dims),
        idx.len() > 0,
    ensures
        in_bounds(idx.drop_last(), dims.drop_last()),
        idx.last() < dims.last(),
{
    assert forall|i: int| 0 <= i < idx.drop_last().len() implies #[trigger] idx.drop_last()[i]
        < dims.drop_last()[i] by {
        assert(idx[i] < dims[i]);
    }
    assert(idx[idx.len() - 1] < dims[dims.len() - 1]);
}

/// A product of positive dimensions is positive.
pub proof fn lemma_product_positive(dims: Seq<usize>)
    requires
        forall|i: int| 0 <= i < dims.len() ==> #[trigger] dims[i] > 0,
    ensures
        dims_product(dims) > 0,
    decreases dims.len(),
{
    if dims.len() > 0 {
        lemma_product_positive(dims.drop_last());
        assert(dims[dims.len() - 1] > 0);
        let p = dims_product(dims.drop_last());
        let n = dims.last() as nat;
        assert(p * n > 0) by (nonlinear_arith)
            requires
                p > 0,
                n > 0,
        ;
    }
}

/// The product of a concatenation is the product of the products.
pub proof fn lemma_product_concat(a: Seq<usize>, b: Seq<usize>)
    ensures
        dims_product(a + b) == dims_product(a) * dims_product(b),
    decreases b.len(),
{
    if b.len() == 0 {
        assert(a + b =~= a);
        assert(dims_product(b) == 1);
        assert(dims_product(a + b) == dims_product(a));
    } else {
        assert((a + b).drop_last() =~= a + b.drop_last());
        assert((a + b).last() == b.last());
        lemma_product_concat(a, b.drop_last());
        let pa = dims_product(a);
        let pb = dims_product(b.drop_last());
        let l = b.last() as nat;
        assert(dims_product(a + b) == dims_product(a + b.drop_last()) * l);
        assert(dims_product(b) == pb * l);
        assert(pa * pb * l == pa * (pb * l)) by (nonlinear_arith);
    }
}

/// Peeling the first dimension off a suffix product.
pub proof fn lemma_product_skip_step(dims: Seq<usize>, d: int)
    requires
        0 <= d < dims.len(),
    ensures
        dims_product(dims.skip(d)) == (dims[d] as nat) * dims_product(dims.skip(d + 1)),
{
    let head = seq![dims[d]];
    assert(dims.skip(d) =~= head + dims.skip(d + 1));
    lemma_product_concat(head, dims.skip(d + 1));
    assert(head.drop_last() =~= Seq::<usize>::empty());
    assert(head.last() == dims[d]);
    assert(dims_product(head.drop_last()) == 1);
    assert(dims_product(head) == (dims[d] as nat));
}

/// A linear position of an in-bounds index lies below the element count.
pub proof fn lemma_ravel_bounds(idx: Seq<usize>, dims: Seq<usize>)
    requires
        in_bounds(idx, dims),
    ensures
        0 <= ravel(idx, dims) < dims_product(dims),
    decreases idx.len(),
{
    if idx.len() > 0 {
        lemma_in_bounds_drop_last(idx, dims);
        lemma_ravel_bounds(idx.drop_last(), dims.drop_last());
        let r = ravel(idx.drop_last(), dims.drop_last());
        let p = dims_product(dims.drop_last()) as int;
        let n = dims.last() as int;
        let x = idx.last() as int;
        assert(0 <= r * n + x < p * n) by (nonlinear_arith)
            requires
                0 <= r < p,
                0 <= x < n,
        ;
    }
}

/// Every linear position below the element count names an in-bounds index whose position it is.
pub proof fn lemma_ravel_unravel(k: int, dims: Seq<usize>)
    requires
        0 <= k < dims_product(dims),
    ensures
        in_bounds(unravel(k, dims), dims),
        ravel(unravel(k, dims), dims) == k,
    decreases dims.len(),
{
    if dims.len() > 0 {
        let d2 = dims.drop_last();
        let n = dims.last() as int;
        let p = dims_product(d2) as int;
        assert(p * n > k);
        assert(n > 0 && p > 0) by (nonlinear_arith)
            requires
                p * n > k,
                k >= 0,
                p >= 0,
                n >= 0,
        ;
        let q = k / n;
        let r = k % n;
        lemma_fundamental_div_mod(k, n);
        assert(0 <= r < n);
        assert(0 <= q < p) by (nonlinear_arith)
            requires
                k == n * q + r,
                0 <= r < n,
                0 <= k < p * n,
        ;
        lemma_ravel_unravel(q, d2);
        let u = unravel(k, dims);
        assert(u.drop_last() =~= unravel(q, d2));
        assert(u.last() == r as usize);
        assert forall|i: int| 0 <= i < u.len() implies #[trigger] u[i] < dims[i] by {
            if i < u.len() - 1 {
                assert(u[i] == unravel(q, d2)[i]);
                assert(unravel(q, d2)[i] < d2[i]);
            }
        }
        assert(ravel(u, dims) == q * n + r);
    }
}

/// The linear position of an in-bounds index names that same index.
pub proof fn lemma_unravel_ravel(idx: Seq<usize>, dims: Seq<usize>)
    requires
        in_bounds(idx, dims),
    ensures
        unravel(ravel(idx, dims), dims) == idx,
    decreases idx.len(),
{
    if idx.len() == 0 {
        assert(unravel(0, dims) =~= idx);
    } else {
        let i2 = idx.drop_last();
        let d2 = dims.drop_last();
        lemma_in_bounds_drop_last(idx, dims);
        lemma_unravel_ravel(i2, d2);
        let r = ravel(i2, d2);
        let n = dims.last() as int;
        let x = idx.last() as int;
        lemma_ravel_bounds(i2, d2);
        lemma_fundamental_div_mod_converse(r * n + x, n, r, x);
        assert(unravel(ravel(idx, dims), dims) =~= idx);
    }
}

/// The position of a concatenated index splits into the positions of its parts.
pub proof fn lemma_ravel_concat(p: Seq<usize>, q: Seq<usize>, dp: Seq<usize>, dq: Seq<usize>)
    requires
        p.len() == dp.len(),
        q.len() == dq.len(),
    ensures
        ravel(p + q, dp + dq) == ravel(p, dp) * (dims_product(dq) as int) + ravel(q, dq),
    decreases q.len(),
{
    if q.len() == 0 {
        assert(p + q =~= p);
        assert(dp + dq =~= dp);
        assert(ravel(q, dq) == 0);
        assert(ravel(p + q, dp + dq) == ravel(p, dp));
        assert(dims_product(dq) == 1);
    } else {
        assert((p + q).drop_last() =~= p + q.drop_last());
        assert((dp + dq).drop_last() =~= dp + dq.drop_last());
        assert((p + q).last() == q.last());
        assert((dp + dq).last() == dq.last());
        lemma_ravel_concat(p, q.drop_last(), dp, dq.drop_last());
        let a = ravel(p, dp);
        let b = dims_product(dq.drop_last()) as int;
        let c = ravel(q.drop_last(), dq.drop_last());
        let n = dq.last() as int;
        let x = q.last() as int;
        assert(ravel(p + q, dp + dq) == ravel(p + q.drop_last(), dp + dq.drop_last()) * n + x);
        assert(ravel(q, dq) == c * n + x);
        assert(dims_product(dq) as int == b * n);
        assert((a * b + c) * n + x == a * (b * n) + (c * n + x)) by (nonlinear_arith);
    }
}

/// The all-zero index sits at position zero.
pub proof fn lemma_ravel_zero(dims: Seq<usize>)
    ensures
        ravel(zero_index(dims.len()), dims) == 0,
    decreases dims.len(),
{
    if dims.len() > 0 {
        assert(zero_index(dims.len()).drop_last() =~= zero_index(dims.drop_last().len()));
        lemma_ravel_zero(dims.drop_last());
    }
}

/// The largest index of a shape with positive dimensions sits at the last position.
pub proof fn lemma_ravel_max(dims: Seq<usize>)
    requires
        forall|i: int| 0 <= i < dims.len() ==> #[trigger] dims[i] > 0,
    ensures
        ravel(max_index(dims), dims) == dims_product(dims) - 1,
        in_bounds(max_index(dims), dims),
    decreases dims.len(),
{
    if dims.len() > 0 {
        let d2 = dims.drop_last();
        assert(max_index(dims).drop_last() =~= max_index(d2));
        lemma_ravel_max(d2);
        let p = dims_product(d2) as int;
        let n = dims.last() as int;
        assert(dims[dims.len() - 1] > 0);
        assert((p - 1) * n + (n - 1) == p * n - 1) by (nonlinear_arith);
    }
}

} // verus!

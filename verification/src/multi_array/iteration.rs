//! C-order traversal of a shape: the odometer step, the full visit order, and the
//! conversion from a linear position to an index tuple.

use vstd::prelude::*;
use vstd::arithmetic::div_mod::{lemma_small_mod, lemma_mod_self_0};

use crate::error::CoreMLError;
use crate::multi_array::index_math::{
    dims_product, in_bounds, lemma_product_positive, lemma_ravel_bounds, lemma_ravel_concat,
    lemma_ravel_max, lemma_ravel_unravel, lemma_ravel_zero, lemma_unravel_ravel, max_index,
    ravel, unravel, zero_index,
};
use crate::multi_array::layout::{count_overflow_message, count_overflows, element_count};

verus! {

/// If the product of a shape is positive, every dimension is positive.
pub proof fn lemma_positive_product_dims(dims: Seq<usize>)
    requires
        dims_product(dims) > 0,
    ensures
        forall|i: int| 0 <= i < dims.len() ==> #[trigger] dims[i] > 0,
    decreases dims.len(),
{
    if dims.len() > 0 {
        let p = dims_product(dims.drop_last());
        let n = dims.last() as nat;
        assert(p > 0 && n > 0) by (nonlinear_arith)
            requires
                p * n > 0,
        ;
        lemma_positive_product_dims(dims.drop_last());
        assert forall|i: int| 0 <= i < dims.len() implies #[trigger] dims[i] > 0 by {
            if i < dims.len() - 1 {
                assert(dims.drop_last()[i] > 0);
            }
        }
    }
}

proof fn lemma_split3(s: Seq<usize>, pos: int)
    requires
        0 <= pos < s.len(),
    ensures
        s =~= s.take(pos + 1) + s.skip(pos + 1),
        s.take(pos + 1).drop_last() =~= s.take(pos),
        s.take(pos + 1).last() == s[pos],
{
}

/// One odometer step that carries into position `pos` gives the next C-order position.
proof fn lemma_advance_carry(o: Seq<usize>, f: Seq<usize>, shape: Seq<usize>, pos: int)
    requires
        in_bounds(o, shape),
        f.len() == o.len(),
        0 <= pos < o.len(),
        forall|i: int| 0 <= i < pos ==> #[trigger] f[i] == o[i],
        f[pos] == o[pos] + 1,
        f[pos] < shape[pos],
        forall|i: int| #![trigger f[i]] pos < i < f.len() ==> f[i] == 0 && o[i] + 1 == shape[i],
    ensures
        in_bounds(f, shape),
        ravel(f, shape) == (ravel(o, shape) + 1) % (dims_product(shape) as int),
{
    assert forall|i: int| 0 <= i < f.len() implies #[trigger] f[i] < shape[i] by {
        if i < pos {
            assert(o[i] < shape[i]);
        } else if i > pos {
            assert(f[i] == 0);
            assert(o[i] + 1 == shape[i]);
        }
    }
    let s = shape.skip(pos + 1);
    let m = o.skip(pos + 1);
    let z = f.skip(pos + 1);
    lemma_split3(o, pos);
    lemma_split3(f, pos);
    lemma_split3(shape, pos);
    assert(m =~= max_index(s)) by {
        assert forall|i: int| 0 <= i < m.len() implies #[trigger] m[i] == max_index(s)[i] by {
            assert(f[pos + 1 + i] == 0);
            assert(o[pos + 1 + i] + 1 == shape[pos + 1 + i]);
        }
    }
    assert(z =~= zero_index(s.len())) by {
        assert forall|i: int| 0 <= i < z.len() implies #[trigger] z[i] == 0 by {
            assert(f[pos + 1 + i] == 0);
        }
    }
    assert forall|i: int| 0 <= i < s.len() implies #[trigger] s[i] > 0 by {
        assert(f[pos + 1 + i] == 0);
            assert(o[pos + 1 + i] + 1 == shape[pos + 1 + i]);
    }
    lemma_ravel_max(s);
    lemma_ravel_zero(s);
    lemma_ravel_concat(o.take(pos + 1), m, shape.take(pos + 1), s);
    lemma_ravel_concat(f.take(pos + 1), z, shape.take(pos + 1), s);
    assert(f.take(pos + 1).drop_last() =~= o.take(pos + 1).drop_last()) by {
        assert forall|i: int| 0 <= i < pos implies #[trigger] f.take(pos + 1)[i] == o.take(pos + 1)[i] by {
            assert(f[i] == o[i]);
        }
    }
    let r = ravel(o.take(pos), shape.take(pos));
    let n = shape[pos] as int;
    let x = o[pos] as int;
    let ps = dims_product(s) as int;
    assert(ravel(o.take(pos + 1), shape.take(pos + 1)) == r * n + x);
    assert(ravel(f.take(pos + 1), shape.take(pos + 1)) == r * n + x + 1);
    assert(ravel(o, shape) == (r * n + x) * ps + (ps - 1));
    assert(ravel(f, shape) == (r * n + x + 1) * ps + 0);
    assert((r * n + x + 1) * ps == (r * n + x) * ps + (ps - 1) + 1) by (nonlinear_arith);
    lemma_ravel_bounds(f, shape);
    lemma_small_mod(ravel(f, shape) as nat, dims_product(shape));
}

/// An odometer step from the last position wraps to the first.
proof fn lemma_advance_wrap(o: Seq<usize>, f: Seq<usize>, shape: Seq<usize>)
    requires
        in_bounds(o, shape),
        f.len() == o.len(),
        forall|i: int| #![trigger f[i]] 0 <= i < f.len() ==> f[i] == 0 && o[i] + 1 == shape[i],
    ensures
        in_bounds(f, shape),
        ravel(f, shape) == (ravel(o, shape) + 1) % (dims_product(shape) as int),
{
    assert(f.len() == shape.len());
    assert forall|i: int| 0 <= i < shape.len() implies #[trigger] shape[i] > 0 by {
        assert(0 <= i < f.len());
        assert(f[i] == 0);
            assert(o[i] + 1 == shape[i]);
    }
    assert(o =~= max_index(shape)) by {
        assert forall|i: int| 0 <= i < o.len() implies #[trigger] o[i] == max_index(shape)[i] by {
            assert(0 <= i < f.len());
            assert(f[i] == 0);
            assert(o[i] + 1 == shape[i]);
        }
    }
    assert(f =~= zero_index(shape.len())) by {
        assert forall|i: int| 0 <= i < f.len() implies #[trigger] f[i] == 0usize by {
            assert(0 <= i < f.len());
        }
    }
    lemma_ravel_max(shape);
    lemma_ravel_zero(shape);
    lemma_product_positive(shape);
    lemma_mod_self_0(dims_product(shape) as int);
}

/// Advance an in-bounds index tuple to the next one in C order (last index fastest),
/// wrapping from the last tuple back to all zeros.
pub fn advance_index(indices: &mut Vec<usize>, shape: &[usize])
    requires
        in_bounds(old(indices)@, shape@),
    ensures
        in_bounds(final(indices)@, shape@),
        ravel(final(indices)@, shape@) == (ravel(old(indices)@, shape@) + 1) % (dims_product(
            shape@,
        ) as int),
{
    let ghost o = indices@;
    let mut d = indices.len();
    while d > 0
        invariant
            d <= indices.len(),
            o == old(indices)@,
            indices.len() == shape.len(),
            o.len() == shape.len(),
            in_bounds(o, shape@),
            forall|i: int| 0 <= i < d ==> #[trigger] indices@[i] == o[i],
            forall|i: int|
                #![trigger indices@[i]]
                d <= i < indices.len() ==> indices@[i] == 0 && o[i] + 1 == shape@[i],
        decreases d,
    {
        let pos = d - 1;
        assert(indices@[pos as int] == o[pos as int]);
        assert(o[pos as int] < shape@[pos as int]);
        let next = indices[pos] + 1;
        if next < shape[pos] {
            indices.set(pos, next);
            proof {
                lemma_advance_carry(o, indices@, shape@, pos as int);
            }
            return ;
        }
        indices.set(pos, 0);
        d = pos;
    }
    proof {
        lemma_advance_wrap(o, indices@, shape@);
    }
}

/// A fresh all-zero index tuple of the given rank.
pub fn zero_indices(rank: usize) -> (v: Vec<usize>)
    ensures
        v@ == zero_index(rank as nat),
{
    let mut v: Vec<usize> = Vec::new();
    let mut i: usize = 0;
    while i < rank
        invariant
            i <= rank,
            v@ =~= zero_index(i as nat),
        decreases rank - i,
    {
        v.push(0);
        i = i + 1;
    }
    v
}

fn copy_indices(v: &Vec<usize>) -> (c: Vec<usize>)
    ensures
        c@ == v@,
{
    let mut c: Vec<usize> = Vec::new();
    let mut i: usize = 0;
    while i < v.len()
        invariant
            i <= v.len(),
            c@ =~= v@.take(i as int),
        decreases v.len() - i,
    {
        c.push(v[i]);
        i = i + 1;
    }
    assert(v@.take(v.len() as int) =~= v@);
    c
}

/// Starting state of a C-order traversal: the zero tuple is in bounds and at position zero
/// whenever the shape has elements.
pub proof fn lemma_traversal_start(shape: Seq<usize>)
    requires
        dims_product(shape) > 0,
    ensures
        in_bounds(zero_index(shape.len()), shape),
        ravel(zero_index(shape.len()), shape) == 0,
{
    lemma_positive_product_dims(shape);
    lemma_ravel_zero(shape);
}

/// Whether some call of `visit` on an index tuple equal to the C-order tuple at position `k`
/// of `shape` may succeed.
pub open spec fn visit_succeeds<F: FnMut(&[usize]) -> Result<(), CoreMLError>>(
    visit: F,
    shape: Seq<usize>,
    k: int,
) -> bool {
    exists|s: &[usize], out: Result<(), CoreMLError>|
        s@ == unravel(k, shape) && out is Ok && #[trigger] call_ensures(visit, (s,), out)
}

/// Whether some call of `visit` on an index tuple equal to the C-order tuple at position `k`
/// of `shape` may fail with `e`.
pub open spec fn visit_fails_with<F: FnMut(&[usize]) -> Result<(), CoreMLError>>(
    visit: F,
    shape: Seq<usize>,
    k: int,
    e: CoreMLError,
) -> bool {
    exists|s: &[usize]|
        s@ == unravel(k, shape) && #[trigger] call_ensures(visit, (s,), Err::<(), CoreMLError>(e))
}

/// Call `visit` on every index tuple of `shape` in C order (last index fastest), stopping at
/// the first call that fails and returning its error.
///
/// The element count is checked first, before any call. When every call succeeds, `visit` was
/// called on each tuple, position by position; a shape with a zero dimension has no tuple, and
/// a rank-0 shape has the one empty tuple. An error is returned only from a call on the tuple
/// at some position after the calls on all earlier positions succeeded.
pub fn for_each_index<F>(shape: &[usize], visit: F) -> (r: Result<(), CoreMLError>) where
    F: FnMut(&[usize]) -> Result<(), CoreMLError>,

    requires
        forall|s: &[usize]| in_bounds(s@, shape@) ==> #[trigger] call_requires(visit, (s,)),
    ensures
        count_overflows(shape@) ==> (r matches Err(CoreMLError::InvalidArgument(m)) && m@
            == count_overflow_message(shape@)),
        !count_overflows(shape@) && r is Ok ==> forall|k: int|
            0 <= k < dims_product(shape@) ==> #[trigger] visit_succeeds(visit, shape@, k),
        !count_overflows(shape@) ==> (r matches Err(e) ==> exists|k: int|
            0 <= k < dims_product(shape@) && (forall|j: int|
                0 <= j < k ==> #[trigger] visit_succeeds(visit, shape@, j)) && #[trigger] visit_fails_with(
                visit,
                shape@,
                k,
                e,
            )),
{
    let count = match element_count(shape) {
        Ok(c) => c,
        Err(e) => return Err(e),
    };
    let mut f = visit;
    let mut indices = zero_indices(shape.len());
    let mut k: usize = 0;
    if count > 0 {
        proof {
            lemma_traversal_start(shape@);
        }
    }
    while k < count
        invariant
            f == visit,
            count == dims_product(shape@),
            !count_overflows(shape@),
            k <= count,
            indices.len() == shape.len(),
            k < count ==> in_bounds(indices@, shape@) && ravel(indices@, shape@) == k,
            forall|s: &[usize]| in_bounds(s@, shape@) ==> #[trigger] call_requires(f, (s,)),
            forall|j: int| 0 <= j < k ==> #[trigger] visit_succeeds(visit, shape@, j),
        decreases count - k,
    {
        proof {
            lemma_unravel_ravel(indices@, shape@);
        }
        let current = indices.as_slice();
        assert(current@ == unravel(k as int, shape@));
        let outcome = f(current);
        match outcome {
            Ok(_) => {
                assert(visit_succeeds(visit, shape@, k as int));
            },
            Err(e) => {
                assert(visit_fails_with(visit, shape@, k as int, e));
                return Err(e);
            },
        }
        advance_index(&mut indices, shape);
        proof {
            if k + 1 < count {
                lemma_small_mod((k + 1) as nat, count as nat);
            }
        }
        k = k + 1;
    }
    Ok(())
}

/// Every index tuple of `shape` in the order the traversal visits them: C order, last
/// index fastest. A shape with a zero dimension has none.
pub fn indices_in_c_order(shape: &[usize]) -> (r: Result<Vec<Vec<usize>>, CoreMLError>)
    ensures
        r is Ok <==> !count_overflows(shape@),
        r matches Ok(visited) ==> visited.len() == dims_product(shape@) && forall|k: int|
            0 <= k < visited.len() ==> #[trigger] visited[k]@ == unravel(k, shape@),
        r matches Err(e) ==> (e matches CoreMLError::InvalidArgument(m) && m@
            == count_overflow_message(shape@)),
{
    let count = match element_count(shape) {
        Ok(c) => c,
        Err(e) => return Err(e),
    };
    let mut indices = zero_indices(shape.len());
    let mut visited: Vec<Vec<usize>> = Vec::new();
    let mut k: usize = 0;
    if count > 0 {
        proof {
            lemma_traversal_start(shape@);
        }
    }
    while k < count
        invariant
            count == dims_product(shape@),
            k <= count,
            indices.len() == shape.len(),
            k < count ==> in_bounds(indices@, shape@) && ravel(indices@, shape@) == k,
            visited.len() == k,
            forall|j: int| 0 <= j < k ==> #[trigger] visited[j]@ == unravel(j, shape@),
        decreases count - k,
    {
        proof {
            lemma_unravel_ravel(indices@, shape@);
        }
        visited.push(copy_indices(&indices));
        advance_index(&mut indices, shape);
        proof {
            if k + 1 < count {
                lemma_small_mod((k + 1) as nat, count as nat);
            }
        }
        k = k + 1;
    }
    Ok(visited)
}

/// The C-order index tuple at linear position `index`, or `None` when the position is past
/// the last element or the element count overflows.
pub fn linear_index_to_indices(index: usize, shape: &[usize]) -> (r: Option<Vec<usize>>)
    ensures
        r is Some <==> !count_overflows(shape@) && index < dims_product(shape@),
        r matches Some(v) ==> v@ == unravel(index as int, shape@) && in_bounds(v@, shape@),
{
    let count = match element_count(shape) {
        Ok(c) => c,
        Err(_) => return None,
    };
    if index >= count {
        return None;
    }
    proof {
        lemma_positive_product_dims(shape@);
        lemma_ravel_unravel(index as int, shape@);
    }
    let mut remaining = index;
    let mut indices = zero_indices(shape.len());
    let mut position = shape.len();
    assert(shape@.take(shape.len() as int) =~= shape@);
    while position > 0
        invariant
            position <= shape.len(),
            indices.len() == shape.len(),
            forall|i: int| 0 <= i < shape.len() ==> #[trigger] shape@[i] > 0,
            unravel(index as int, shape@) =~= unravel(remaining as int, shape@.take(
                position as int,
            )) + indices@.skip(position as int),
        decreases position,
    {
        position = position - 1;
        let dim = shape[position];
        let ghost before = indices@;
        let ghost t = shape@.take(position + 1);
        assert(t.drop_last() =~= shape@.take(position as int));
        assert(t.last() == dim);
        indices.set(position, remaining % dim);
        assert(indices@.skip(position as int) =~= seq![(remaining % dim) as usize] + before.skip(
            position + 1,
        ));
        remaining = remaining / dim;
    }
    assert(indices@.skip(0) =~= indices@);
    Some(indices)
}

/// The C-order index tuple at linear position `index`, with an error when the position is past
/// the last element or the element count overflows.
pub fn linear_index_checked(index: usize, shape: &[usize]) -> (r: Result<Vec<usize>, CoreMLError>)
    ensures
        r is Ok <==> !count_overflows(shape@) && index < dims_product(shape@),
        r matches Ok(v) ==> v@ == unravel(index as int, shape@),
        r matches Err(e) ==> (e matches CoreMLError::IndexOutOfRange(m) && m@
            == "linear index is outside the multi-array bounds"@),
{
    match linear_index_to_indices(index, shape) {
        Some(v) => Ok(v),
        None => Err(
            CoreMLError::IndexOutOfRange(
                String::from_str("linear index is outside the multi-array bounds"),
            ),
        ),
    }
}

} // verus!

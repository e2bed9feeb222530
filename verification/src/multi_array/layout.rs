//! Element counts, strided offsets and byte ranges of multi-array storage.

use vstd::prelude::*;
use vstd::string::*;

use crate::error::CoreMLError;
use crate::multi_array::index_math::{dims_product, in_bounds, offset_of};
use crate::text::{dims_text, dims_text_of, decimal, decimal_text};

verus! {

/// Whether multiplying the dimensions one after another overflows `usize` at some step.
pub open spec fn count_overflows(dims: Seq<usize>) -> bool {
    exists|j: int| 0 <= j <= dims.len() && #[trigger] dims_product(dims.take(j)) > usize::MAX
}

/// Message of the error reported when a shape's element count overflows.
pub open spec fn count_overflow_message(dims: Seq<usize>) -> Seq<char> {
    "multi-array shape "@ + dims_text(dims) + " overflows the addressable element count"@
}

/// Message of the error reported when a stride list does not match the rank.
pub open spec fn stride_rank_message(strides: nat, rank: nat) -> Seq<char> {
    "MLMultiArray reported "@ + decimal(strides) + " strides for rank "@ + decimal(rank)
}

/// Message of the error reported when an index list does not match the rank.
pub open spec fn index_rank_message(rank: nat, given: nat) -> Seq<char> {
    "expected "@ + decimal(rank) + " indices for a rank-"@ + decimal(rank)
        + " MLMultiArray, got "@ + decimal(given)
}

/// What `storage_offset` returns for an index tuple and a stride list.
pub open spec fn storage_offset_outcome(
    indices: Seq<usize>,
    strides: Seq<usize>,
    r: Result<usize, CoreMLError>,
) -> bool {
    if indices.len() != strides.len() {
        r matches Err(CoreMLError::MultiArrayFailed(m)) && m@ == stride_rank_message(
            strides.len(),
            indices.len(),
        )
    } else if offset_of(indices, strides) <= usize::MAX {
        r == Ok::<usize, CoreMLError>(offset_of(indices, strides) as usize)
    } else {
        r matches Err(CoreMLError::MultiArrayFailed(m)) && m@
            == "MLMultiArray element offset overflowed"@
    }
}

/// Whether the element at storage offset `offset` of `size` bytes lies inside `len` bytes.
pub open spec fn element_in_storage(offset: int, size: int, len: int) -> bool {
    offset * size + size <= len
}

/// Number of elements of a shape, with an error when the count overflows `usize`.
pub fn element_count(shape: &[usize]) -> (r: Result<usize, CoreMLError>)
    ensures
        r is Ok <==> !count_overflows(shape@),
        r matches Ok(c) ==> c == dims_product(shape@),
        r matches Err(e) ==> (e matches CoreMLError::InvalidArgument(m) && m@
            == count_overflow_message(shape@)),
{
    let mut count: usize = 1;
    let mut i: usize = 0;
    assert(shape@.take(0) =~= Seq::<usize>::empty());
    while i < shape.len()
        invariant
            i <= shape.len(),
            count == dims_product(shape@.take(i as int)),
            forall|j: int| 0 <= j <= i ==> #[trigger] dims_product(shape@.take(j)) <= usize::MAX,
        decreases shape.len() - i,
    {
        let ghost t = shape@.take(i + 1);
        assert(t.drop_last() =~= shape@.take(i as int));
        assert(t.last() == shape@[i as int]);
        match count.checked_mul(shape[i]) {
            Some(next) => {
                count = next;
                i = i + 1;
            },
            None => {
                assert(dims_product(t) == dims_product(t.drop_last()) * (t.last() as nat));
                assert(dims_product(shape@.take(i + 1)) > usize::MAX);
                let message = overflow_message(shape);
                return Err(CoreMLError::InvalidArgument(message));
            },
        }
    }
    assert(shape@.take(shape.len() as int) =~= shape@);
    Ok(count)
}

fn overflow_message(shape: &[usize]) -> (m: String)
    ensures
        m@ == count_overflow_message(shape@),
{
    let mut m = String::from_str("multi-array shape ");
    let dims = dims_text_of(shape);
    m.append(dims.as_str());
    m.append(" overflows the addressable element count");
    m
}

/// A prefix of an offset sum never exceeds the whole sum.
pub proof fn lemma_offset_prefix_le(idx: Seq<usize>, strides: Seq<usize>, i: int)
    requires
        idx.len() == strides.len(),
        0 <= i <= idx.len(),
    ensures
        0 <= offset_of(idx.take(i), strides.take(i)) <= offset_of(idx, strides),
    decreases idx.len(),
{
    if i == idx.len() {
        assert(idx.take(i) =~= idx);
        assert(strides.take(i) =~= strides);
        lemma_offset_nonneg(idx, strides);
    } else {
        lemma_offset_prefix_le(idx.drop_last(), strides.drop_last(), i);
        assert(idx.drop_last().take(i) =~= idx.take(i));
        assert(strides.drop_last().take(i) =~= strides.take(i));
        assert((idx.last() as int) * (strides.last() as int) >= 0) by (nonlinear_arith);
    }
}

/// Offset sums are never negative.
pub proof fn lemma_offset_nonneg(idx: Seq<usize>, strides: Seq<usize>)
    ensures
        offset_of(idx, strides) >= 0,
    decreases idx.len(),
{
    if idx.len() > 0 {
        lemma_offset_nonneg(idx.drop_last(), strides.drop_last());
        assert((idx.last() as int) * (strides.last() as int) >= 0) by (nonlinear_arith);
    }
}

/// Storage offset `sum(indices[i] * strides[i])`, overflow-checked.
pub fn storage_offset(indices: &[usize], strides: &[usize]) -> (r: Result<usize, CoreMLError>)
    ensures
        storage_offset_outcome(indices@, strides@, r),
{
    if indices.len() != strides.len() {
        let mut m = String::from_str("MLMultiArray reported ");
        let a = decimal_text(strides.len());
        m.append(a.as_str());
        m.append(" strides for rank ");
        let b = decimal_text(indices.len());
        m.append(b.as_str());
        return Err(CoreMLError::MultiArrayFailed(m));
    }
    let mut offset: usize = 0;
    let mut i: usize = 0;
    assert(indices@.take(0) =~= Seq::<usize>::empty());
    while i < indices.len()
        invariant
            i <= indices.len(),
            indices.len() == strides.len(),
            offset == offset_of(indices@.take(i as int), strides@.take(i as int)),
        decreases indices.len() - i,
    {
        let ghost ti = indices@.take(i + 1);
        let ghost ts = strides@.take(i + 1);
        assert(ti.drop_last() =~= indices@.take(i as int));
        assert(ts.drop_last() =~= strides@.take(i as int));
        assert(ti.last() == indices@[i as int]);
        assert(ts.last() == strides@[i as int]);
        let next = match indices[i].checked_mul(strides[i]) {
            Some(term) => offset.checked_add(term),
            None => None,
        };
        match next {
            Some(n) => {
                offset = n;
                i = i + 1;
            },
            None => {
                proof {
                    lemma_offset_prefix_le(indices@, strides@, i + 1);
                    lemma_offset_nonneg(indices@.take(i as int), strides@.take(i as int));
                    assert((indices[i as int] as int) * (strides[i as int] as int) >= 0)
                        by (nonlinear_arith);
                }
                return Err(CoreMLError::MultiArrayFailed(
                    String::from_str("MLMultiArray element offset overflowed"),
                ));
            },
        }
    }
    assert(indices@.take(indices.len() as int) =~= indices@);
    assert(strides@.take(strides.len() as int) =~= strides@);
    Ok(offset)
}

/// Storage offset of a logical index tuple, after checking it against the shape.
pub fn element_offset(indices: &[usize], shape: &[usize], strides: &[usize]) -> (r: Result<
    usize,
    CoreMLError,
>)
    ensures
        indices@.len() != shape@.len() ==> (r matches Err(CoreMLError::IndexOutOfRange(m)) && m@
            == index_rank_message(shape@.len(), indices@.len())),
        indices@.len() == shape@.len() && !in_bounds(indices@, shape@) ==> (r matches Err(
            CoreMLError::IndexOutOfRange(m),
        ) && m@ == "indices are outside the multi-array shape"@),
        in_bounds(indices@, shape@) ==> storage_offset_outcome(indices@, strides@, r),
{
    if indices.len() != shape.len() {
        let mut m = String::from_str("expected ");
        let a = decimal_text(shape.len());
        m.append(a.as_str());
        m.append(" indices for a rank-");
        m.append(a.as_str());
        m.append(" MLMultiArray, got ");
        let b = decimal_text(indices.len());
        m.append(b.as_str());
        return Err(CoreMLError::IndexOutOfRange(m));
    }
    let mut i: usize = 0;
    while i < indices.len()
        invariant
            i <= indices.len(),
            indices.len() == shape.len(),
            forall|j: int| 0 <= j < i ==> #[trigger] indices@[j] < shape@[j],
        decreases indices.len() - i,
    {
        if indices[i] >= shape[i] {
            return Err(CoreMLError::IndexOutOfRange(
                String::from_str("indices are outside the multi-array shape"),
            ));
        }
        i = i + 1;
    }
    storage_offset(indices, strides)
}

/// Byte range of the element at storage offset `offset` when elements are `size` bytes wide,
/// with an error when it does not lie inside `len` bytes.
pub fn element_byte_range(offset: usize, len: usize, size: usize) -> (r: Result<
    core::ops::Range<usize>,
    CoreMLError,
>)
    ensures
        r is Ok <==> element_in_storage(offset as int, size as int, len as int),
        r matches Ok(range) ==> range.start == offset * size && range.end == offset * size + size,
        r matches Err(e) ==> (e matches CoreMLError::MultiArrayFailed(m) && m@
            == "MLMultiArray element offset lies outside its storage"@),
{
    let fits = match offset.checked_mul(size) {
        Some(start) => match start.checked_add(size) {
            Some(end) => if end <= len {
                Some(start)
            } else {
                None
            },
            None => None,
        },
        None => None,
    };
    match fits {
        Some(start) => Ok(core::ops::Range { start, end: start + size }),
        None => {
            proof {
                assert((offset as int) * (size as int) >= 0) by (nonlinear_arith);
            }
            Err(
                CoreMLError::MultiArrayFailed(
                    String::from_str("MLMultiArray element offset lies outside its storage"),
                ),
            )
        },
    }
}

} // verus!

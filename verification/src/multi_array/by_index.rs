//! The storage walks' laws restated over logical index tuples: which tuples must be located for
//! a walk to succeed, what each tuple's element holds afterwards, and which bytes stay as they
//! were.

use vstd::prelude::*;

use crate::multi_array::extent::lemma_contiguous_offset_is_position;
use crate::multi_array::index_math::{
    c_contiguous, dims_product, in_bounds, lemma_ravel_bounds, lemma_ravel_unravel, lemma_unravel_ravel,
    offset_of, ravel, unravel,
};
use crate::multi_array::layout::element_in_storage;
use crate::multi_array::round_trip::{
    all_located, lemma_copy_succeeds_iff, lemma_last_write_wins, lemma_scatter_succeeds_iff,
    lemma_written_keeps_other_bytes,
};
use crate::multi_array::storage::{
    copy_faults, element_chunks, first_fault, lemma_chunk_in_source,
    location_fault, position_offset, source_chunks, write_faults, written,
};

verus! {

/// Whether the element at an in-bounds index tuple can be located in `len` bytes of storage
/// holding `size`-byte elements: the strides match the rank, the offset
/// `sum(idx[i] * strides[i])` fits in `usize`, and the element lies inside the storage.
pub open spec fn tuple_located(
    shape: Seq<usize>,
    strides: Seq<usize>,
    size: int,
    len: int,
    idx: Seq<usize>,
) -> bool {
    &&& strides.len() == shape.len()
    &&& offset_of(idx, strides) <= usize::MAX
    &&& element_in_storage(offset_of(idx, strides), size, len)
}

/// Whether every in-bounds index tuple of `shape` can be located.
pub open spec fn every_tuple_located(
    shape: Seq<usize>,
    strides: Seq<usize>,
    size: int,
    len: int,
) -> bool {
    forall|idx: Seq<usize>|
        in_bounds(idx, shape) ==> #[trigger] tuple_located(shape, strides, size, len, idx)
}

/// Every C-order position below the element count names an in-bounds tuple at the same
/// offset, and every in-bounds tuple sits at a position below the element count.
proof fn lemma_position_tuple(shape: Seq<usize>, strides: Seq<usize>, idx: Seq<usize>)
    requires
        in_bounds(idx, shape),
    ensures
        0 <= ravel(idx, shape) < dims_product(shape),
        unravel(ravel(idx, shape), shape) == idx,
        position_offset(shape, strides, ravel(idx, shape)) == offset_of(idx, strides),
{
    lemma_ravel_bounds(idx, shape);
    lemma_unravel_ravel(idx, shape);
}

/// Locating every C-order position below the element count is locating every in-bounds
/// index tuple.
pub proof fn lemma_positions_located_iff_tuples(
    shape: Seq<usize>,
    strides: Seq<usize>,
    size: int,
    len: int,
)
    ensures
        all_located(shape, strides, size, len, dims_product(shape) as int) <==> every_tuple_located(
            shape,
            strides,
            size,
            len,
        ),
{
    let n = dims_product(shape) as int;
    if all_located(shape, strides, size, len, n) {
        assert forall|idx: Seq<usize>| in_bounds(idx, shape) implies #[trigger] tuple_located(
            shape,
            strides,
            size,
            len,
            idx,
        ) by {
            lemma_position_tuple(shape, strides, idx);
            assert(location_fault(shape, strides, size, len, ravel(idx, shape)) is None);
        }
    }
    if every_tuple_located(shape, strides, size, len) {
        assert forall|k: int| 0 <= k < n implies #[trigger] location_fault(
            shape,
            strides,
            size,
            len,
            k,
        ) is None by {
            lemma_ravel_unravel(k, shape);
            assert(tuple_located(shape, strides, size, len, unravel(k, shape)));
        }
    }
}

/// A scatter of a whole shape from a packed source holding `available` elements finds no
/// fault exactly when the source holds every element and every in-bounds index tuple can be
/// located.
pub proof fn lemma_scatter_succeeds_iff_tuples(
    shape: Seq<usize>,
    strides: Seq<usize>,
    size: int,
    len: int,
    available: int,
)
    requires
        available >= 0,
    ensures
        first_fault(write_faults(shape, strides, size, len, available), dims_product(shape))
            is None <==> (dims_product(shape) <= available && every_tuple_located(
            shape,
            strides,
            size,
            len,
        )),
{
    lemma_scatter_succeeds_iff(shape, strides, size, len, available, dims_product(shape));
    lemma_positions_located_iff_tuples(shape, strides, size, len);
}

/// A copy of a whole shape between two strided storages finds no fault exactly when every
/// in-bounds index tuple can be located in the source and in the destination.
pub proof fn lemma_copy_succeeds_iff_tuples(
    shape: Seq<usize>,
    source_strides: Seq<usize>,
    source_len: int,
    destination_strides: Seq<usize>,
    destination_len: int,
    size: int,
)
    ensures
        first_fault(
            copy_faults(shape, source_strides, source_len, destination_strides, destination_len, size),
            dims_product(shape),
        ) is None <==> (every_tuple_located(shape, source_strides, size, source_len)
            && every_tuple_located(shape, destination_strides, size, destination_len)),
{
    lemma_copy_succeeds_iff(
        shape,
        source_strides,
        source_len,
        destination_strides,
        destination_len,
        size,
        dims_product(shape),
    );
    lemma_positions_located_iff_tuples(shape, source_strides, size, source_len);
    lemma_positions_located_iff_tuples(shape, destination_strides, size, destination_len);
}

/// Whether no in-bounds index tuple later in C order than `idx` shares its storage offset.
pub open spec fn last_at_its_offset(shape: Seq<usize>, strides: Seq<usize>, idx: Seq<usize>) -> bool {
    forall|other: Seq<usize>|
        in_bounds(other, shape) && ravel(idx, shape) < ravel(other, shape) ==> #[trigger] offset_of(
            other,
            strides,
        ) != offset_of(idx, strides)
}

proof fn lemma_later_positions_elsewhere(shape: Seq<usize>, strides: Seq<usize>, idx: Seq<usize>)
    requires
        in_bounds(idx, shape),
        last_at_its_offset(shape, strides, idx),
    ensures
        forall|j: int|
            ravel(idx, shape) < j < dims_product(shape) ==> #[trigger] position_offset(
                shape,
                strides,
                j,
            ) != position_offset(shape, strides, ravel(idx, shape)),
{
    lemma_position_tuple(shape, strides, idx);
    assert forall|j: int| ravel(idx, shape) < j < dims_product(shape) implies #[trigger] position_offset(
        shape,
        strides,
        j,
    ) != position_offset(shape, strides, ravel(idx, shape)) by {
        lemma_ravel_unravel(j, shape);
        assert(offset_of(unravel(j, shape), strides) != offset_of(idx, strides));
    }
}

/// After a complete scatter from a packed source, the element at an in-bounds index tuple
/// holds the source element at the tuple's C-order position, unless a tuple later in C order
/// shares its offset (the later one wins).
pub proof fn lemma_scatter_element_by_index(
    bytes: Seq<u8>,
    shape: Seq<usize>,
    strides: Seq<usize>,
    size: int,
    source: Seq<u8>,
    idx: Seq<usize>,
)
    requires
        size > 0,
        in_bounds(idx, shape),
        dims_product(shape) <= (source.len() as int) / size,
        every_tuple_located(shape, strides, size, bytes.len() as int),
        last_at_its_offset(shape, strides, idx),
    ensures
        ({
            let after = written(
                bytes,
                shape,
                strides,
                size,
                source_chunks(source, size),
                dims_product(shape),
            );
            let o = offset_of(idx, strides);
            let k = ravel(idx, shape);
            after.subrange(o * size, o * size + size) == source.subrange(k * size, k * size + size)
        }),
{
    let n = dims_product(shape);
    let chunk = source_chunks(source, size);
    lemma_positions_located_iff_tuples(shape, strides, size, bytes.len() as int);
    assert forall|j: int| 0 <= j < n implies (#[trigger] chunk(j)).len() == size by {
        lemma_chunk_in_source(j, size, source.len() as int);
    }
    lemma_later_positions_elsewhere(shape, strides, idx);
    lemma_position_tuple(shape, strides, idx);
    lemma_last_write_wins(bytes, shape, strides, size, chunk, n, ravel(idx, shape));
}

/// After a complete copy between two strided storages, the destination element at an
/// in-bounds index tuple holds the source element at the same tuple, unless a tuple later in
/// C order shares its destination offset (the later one wins).
pub proof fn lemma_copy_element_by_index(
    source: Seq<u8>,
    source_strides: Seq<usize>,
    destination: Seq<u8>,
    destination_strides: Seq<usize>,
    shape: Seq<usize>,
    size: int,
    idx: Seq<usize>,
)
    requires
        size >= 0,
        in_bounds(idx, shape),
        every_tuple_located(shape, source_strides, size, source.len() as int),
        every_tuple_located(shape, destination_strides, size, destination.len() as int),
        last_at_its_offset(shape, destination_strides, idx),
    ensures
        ({
            let after = written(
                destination,
                shape,
                destination_strides,
                size,
                element_chunks(source, shape, source_strides, size),
                dims_product(shape),
            );
            let od = offset_of(idx, destination_strides);
            let os = offset_of(idx, source_strides);
            after.subrange(od * size, od * size + size) == source.subrange(
                os * size,
                os * size + size,
            )
        }),
{
    let n = dims_product(shape);
    let chunk = element_chunks(source, shape, source_strides, size);
    lemma_positions_located_iff_tuples(shape, source_strides, size, source.len() as int);
    lemma_positions_located_iff_tuples(shape, destination_strides, size, destination.len() as int);
    assert forall|j: int| 0 <= j < n implies (#[trigger] chunk(j)).len() == size by {
        assert(location_fault(shape, source_strides, size, source.len() as int, j) is None);
        crate::multi_array::layout::lemma_offset_nonneg(unravel(j, shape), source_strides);
        let o = position_offset(shape, source_strides, j);
        assert(o * size >= 0) by (nonlinear_arith)
            requires
                o >= 0,
                size >= 0,
        ;
    }
    lemma_later_positions_elsewhere(shape, destination_strides, idx);
    lemma_position_tuple(shape, destination_strides, idx);
    lemma_position_tuple(shape, source_strides, idx);
    lemma_last_write_wins(destination, shape, destination_strides, size, chunk, n, ravel(idx, shape));
}

/// A write walk over a whole shape leaves every byte that no in-bounds index tuple's element
/// covers as it was.
pub proof fn lemma_untouched_bytes_by_index(
    bytes: Seq<u8>,
    shape: Seq<usize>,
    strides: Seq<usize>,
    size: int,
    chunk: spec_fn(int) -> Seq<u8>,
    p: int,
)
    requires
        0 <= p < bytes.len(),
        forall|j: int| 0 <= j < dims_product(shape) ==> (#[trigger] chunk(j)).len() == size,
        forall|idx: Seq<usize>|
            in_bounds(idx, shape) ==> !(#[trigger] offset_of(idx, strides) * size <= p
                < offset_of(idx, strides) * size + size),
    ensures
        written(bytes, shape, strides, size, chunk, dims_product(shape))[p] == bytes[p],
{
    let n = dims_product(shape);
    assert forall|k: int| 0 <= k < n implies !(#[trigger] position_offset(shape, strides, k) * size
        <= p < position_offset(shape, strides, k) * size + chunk(k).len()) by {
        lemma_ravel_unravel(k, shape);
        assert(chunk(k).len() == size);
        assert(!(offset_of(unravel(k, shape), strides) * size <= p < offset_of(
            unravel(k, shape),
            strides,
        ) * size + size));
    }
    lemma_written_keeps_other_bytes(bytes, shape, strides, size, chunk, n, p);
}

/// In a packed C-order layout every element has an offset of its own, so each is the last
/// at its offset.
pub proof fn lemma_packed_last_at_offset(shape: Seq<usize>, strides: Seq<usize>, idx: Seq<usize>)
    requires
        c_contiguous(shape, strides),
        in_bounds(idx, shape),
    ensures
        last_at_its_offset(shape, strides, idx),
{
    lemma_contiguous_offset_is_position(idx, shape, strides);
    assert forall|other: Seq<usize>|
        in_bounds(other, shape) && ravel(idx, shape) < ravel(other, shape) implies #[trigger] offset_of(
        other,
        strides,
    ) != offset_of(idx, strides) by {
        lemma_contiguous_offset_is_position(other, shape, strides);
    }
}

/// Whether, after a whole copy, the destination element at `idx` holds the source element at
/// `idx`.
pub open spec fn copied_at(
    source: Seq<u8>,
    source_strides: Seq<usize>,
    destination: Seq<u8>,
    destination_strides: Seq<usize>,
    shape: Seq<usize>,
    size: int,
    idx: Seq<usize>,
) -> bool {
    let after = written(
        destination,
        shape,
        destination_strides,
        size,
        element_chunks(source, shape, source_strides, size),
        dims_product(shape),
    );
    let od = offset_of(idx, destination_strides);
    let os = offset_of(idx, source_strides);
    after.subrange(od * size, od * size + size) == source.subrange(os * size, os * size + size)
}

/// Copying a whole array into a packed C-order destination: when every index tuple can be
/// located in both storages, the destination element at each in-bounds tuple holds the source
/// element at that tuple.
pub proof fn lemma_copy_into_packed_by_index(
    source: Seq<u8>,
    source_strides: Seq<usize>,
    destination: Seq<u8>,
    destination_strides: Seq<usize>,
    shape: Seq<usize>,
    size: int,
)
    requires
        size >= 0,
        c_contiguous(shape, destination_strides),
        every_tuple_located(shape, source_strides, size, source.len() as int),
        every_tuple_located(shape, destination_strides, size, destination.len() as int),
    ensures
        forall|idx: Seq<usize>|
            in_bounds(idx, shape) ==> #[trigger] copied_at(
                source,
                source_strides,
                destination,
                destination_strides,
                shape,
                size,
                idx,
            ),
{
    assert forall|idx: Seq<usize>| in_bounds(idx, shape) implies #[trigger] copied_at(
        source,
        source_strides,
        destination,
        destination_strides,
        shape,
        size,
        idx,
    ) by {
        lemma_packed_last_at_offset(shape, destination_strides, idx);
        lemma_copy_element_by_index(
            source,
            source_strides,
            destination,
            destination_strides,
            shape,
            size,
            idx,
        );
    }
}

} // verus!

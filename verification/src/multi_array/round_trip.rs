//! What the storage walks promise together: reading gives back what writing wrote, and writing
//! leaves every byte outside the written elements as it was.

use vstd::prelude::*;

use crate::multi_array::extent::lemma_contiguous_offset_is_position;
use crate::multi_array::index_math::{c_contiguous, dims_product, lemma_ravel_unravel, unravel};
use crate::multi_array::layout::lemma_offset_nonneg;
use crate::multi_array::storage::{
    copy_faults, element_bytes, element_chunks, first_fault, gathered, lemma_chunk_in_source,
    lemma_first_fault_prefix,
    location_fault, position_offset, read_faults, source_chunks, splice, write_faults, written,
};

verus! {

/// Whether the first `n` elements in C order sit at pairwise distinct storage offsets.
pub open spec fn distinct_offsets(shape: Seq<usize>, strides: Seq<usize>, n: int) -> bool {
    forall|i: int, j: int|
        0 <= i < n && 0 <= j < n && i != j ==> #[trigger] position_offset(shape, strides, i)
            != #[trigger] position_offset(shape, strides, j)
}

/// Whether the first `n` elements in C order all lie inside `len` bytes of storage.
pub open spec fn all_located(
    shape: Seq<usize>,
    strides: Seq<usize>,
    size: int,
    len: int,
    n: int,
) -> bool {
    forall|k: int| 0 <= k < n ==> #[trigger] location_fault(shape, strides, size, len, k) is None
}

proof fn lemma_no_fault(fault: spec_fn(int) -> Option<Seq<char>>, n: nat)
    requires
        forall|k: int| 0 <= k < n ==> #[trigger] fault(k) is None,
    ensures
        first_fault(fault, n) is None,
    decreases n,
{
    if n > 0 {
        lemma_no_fault(fault, (n - 1) as nat);
        assert(fault(n - 1) is None);
    }
}

proof fn lemma_written_len(
    bytes: Seq<u8>,
    shape: Seq<usize>,
    strides: Seq<usize>,
    size: int,
    chunk: spec_fn(int) -> Seq<u8>,
    n: nat,
)
    ensures
        written(bytes, shape, strides, size, chunk, n).len() == bytes.len(),
    decreases n,
{
    if n > 0 {
        lemma_written_len(bytes, shape, strides, size, chunk, (n - 1) as nat);
    }
}

proof fn lemma_located_range(
    shape: Seq<usize>,
    strides: Seq<usize>,
    size: int,
    len: int,
    k: int,
)
    requires
        location_fault(shape, strides, size, len, k) is None,
        size >= 0,
    ensures
        0 <= position_offset(shape, strides, k),
        0 <= position_offset(shape, strides, k) * size,
        position_offset(shape, strides, k) * size + size <= len,
{
    lemma_offset_nonneg(unravel(k, shape), strides);
    let o = position_offset(shape, strides, k);
    assert(o * size >= 0) by (nonlinear_arith)
        requires
            o >= 0,
            size >= 0,
    ;
}

/// A packed C-order layout puts the element at C-order position `k` at storage offset `k`, so
/// no two elements share an offset.
pub proof fn lemma_contiguous_distinct_offsets(shape: Seq<usize>, strides: Seq<usize>)
    requires
        c_contiguous(shape, strides),
    ensures
        forall|k: int|
            0 <= k < dims_product(shape) ==> #[trigger] position_offset(shape, strides, k) == k,
        distinct_offsets(shape, strides, dims_product(shape) as int),
{
    assert forall|k: int| 0 <= k < dims_product(shape) implies #[trigger] position_offset(
        shape,
        strides,
        k,
    ) == k by {
        lemma_ravel_unravel(k, shape);
        lemma_contiguous_offset_is_position(unravel(k, shape), shape, strides);
    }
}

/// A scatter of the first `n` elements in C order from a packed source of `available`
/// elements finds no fault exactly when the source holds all `n` elements and every one of
/// them lies inside `len` bytes of storage.
pub proof fn lemma_scatter_succeeds_iff(
    shape: Seq<usize>,
    strides: Seq<usize>,
    size: int,
    len: int,
    available: int,
    n: nat,
)
    requires
        available >= 0,
    ensures
        first_fault(write_faults(shape, strides, size, len, available), n) is None <==> (n
            <= available && all_located(shape, strides, size, len, n as int)),
{
    let f = write_faults(shape, strides, size, len, available);
    if first_fault(f, n) is None {
        lemma_first_fault_prefix(f, n, n);
        if n > available {
            assert(f(available) is Some);
            assert(f(available) is None);
        }
        assert forall|k: int| 0 <= k < n implies #[trigger] location_fault(
            shape,
            strides,
            size,
            len,
            k,
        ) is None by {
            assert(f(k) is None);
        }
    }
    if n <= available && all_located(shape, strides, size, len, n as int) {
        assert forall|k: int| 0 <= k < n implies #[trigger] f(k) is None by {
            assert(location_fault(shape, strides, size, len, k) is None);
        }
        lemma_no_fault(f, n);
    }
}

/// A copy of the first `n` elements in C order between two strided storages finds no fault
/// exactly when every one of them lies inside the source and inside the destination.
pub proof fn lemma_copy_succeeds_iff(
    shape: Seq<usize>,
    source_strides: Seq<usize>,
    source_len: int,
    destination_strides: Seq<usize>,
    destination_len: int,
    size: int,
    n: nat,
)
    ensures
        first_fault(
            copy_faults(shape, source_strides, source_len, destination_strides, destination_len, size),
            n,
        ) is None <==> (all_located(shape, source_strides, size, source_len, n as int)
            && all_located(shape, destination_strides, size, destination_len, n as int)),
{
    let f = copy_faults(shape, source_strides, source_len, destination_strides, destination_len, size);
    if first_fault(f, n) is None {
        lemma_first_fault_prefix(f, n, n);
        assert forall|k: int| 0 <= k < n implies #[trigger] location_fault(
            shape,
            source_strides,
            size,
            source_len,
            k,
        ) is None by {
            assert(f(k) is None);
        }
        assert forall|k: int| 0 <= k < n implies #[trigger] location_fault(
            shape,
            destination_strides,
            size,
            destination_len,
            k,
        ) is None by {
            assert(f(k) is None);
        }
    }
    if all_located(shape, source_strides, size, source_len, n as int) && all_located(
        shape,
        destination_strides,
        size,
        destination_len,
        n as int,
    ) {
        assert forall|k: int| 0 <= k < n implies #[trigger] f(k) is None by {
            assert(location_fault(shape, source_strides, size, source_len, k) is None);
            assert(location_fault(shape, destination_strides, size, destination_len, k) is None);
        }
        lemma_no_fault(f, n);
    }
}

/// After a write walk over the first `n` elements, where elements may share an offset, the
/// later position wins: element `k` holds the bytes written to it whenever no later position
/// among the first `n` shares its offset.
pub proof fn lemma_last_write_wins(
    bytes: Seq<u8>,
    shape: Seq<usize>,
    strides: Seq<usize>,
    size: int,
    chunk: spec_fn(int) -> Seq<u8>,
    n: nat,
    k: int,
)
    requires
        0 <= k < n,
        size >= 0,
        all_located(shape, strides, size, bytes.len() as int, n as int),
        forall|j: int| 0 <= j < n ==> (#[trigger] chunk(j)).len() == size,
        forall|j: int|
            k < j < n ==> #[trigger] position_offset(shape, strides, j) != position_offset(
                shape,
                strides,
                k,
            ),
    ensures
        element_bytes(written(bytes, shape, strides, size, chunk, n), shape, strides, size, k)
            == chunk(k),
    decreases n,
{
    let j = n - 1;
    let prev = written(bytes, shape, strides, size, chunk, (n - 1) as nat);
    lemma_written_len(bytes, shape, strides, size, chunk, (n - 1) as nat);
    assert(location_fault(shape, strides, size, bytes.len() as int, j) is None);
    assert(location_fault(shape, strides, size, bytes.len() as int, k) is None);
    lemma_located_range(shape, strides, size, bytes.len() as int, j);
    lemma_located_range(shape, strides, size, bytes.len() as int, k);
    assert(chunk(j).len() == size);
    assert(chunk(k).len() == size);
    let after = written(bytes, shape, strides, size, chunk, n);
    assert(after == splice(prev, position_offset(shape, strides, j) * size, chunk(j)));
    if k == j {
        assert(element_bytes(after, shape, strides, size, k) =~= chunk(k));
    } else {
        lemma_last_write_wins(bytes, shape, strides, size, chunk, (n - 1) as nat, k);
        let ok = position_offset(shape, strides, k);
        let oj = position_offset(shape, strides, j);
        assert(ok != oj);
        assert(ok * size + size <= oj * size || oj * size + size <= ok * size) by (nonlinear_arith)
            requires
                ok != oj,
                size >= 0,
        ;
        assert(element_bytes(after, shape, strides, size, k) =~= element_bytes(
            prev,
            shape,
            strides,
            size,
            k,
        ));
    }
}

/// After a write walk over the first `n` elements, each of them holds the bytes written to it,
/// provided every element lies inside the storage and no two share an offset.
pub proof fn lemma_written_element(
    bytes: Seq<u8>,
    shape: Seq<usize>,
    strides: Seq<usize>,
    size: int,
    chunk: spec_fn(int) -> Seq<u8>,
    n: nat,
    k: int,
)
    requires
        0 <= k < n,
        size >= 0,
        all_located(shape, strides, size, bytes.len() as int, n as int),
        distinct_offsets(shape, strides, n as int),
        forall|j: int| 0 <= j < n ==> (#[trigger] chunk(j)).len() == size,
    ensures
        element_bytes(written(bytes, shape, strides, size, chunk, n), shape, strides, size, k)
            == chunk(k),
{
    assert forall|j: int| k < j < n implies #[trigger] position_offset(shape, strides, j)
        != position_offset(shape, strides, k) by {
        assert(position_offset(shape, strides, j) != position_offset(shape, strides, k));
    }
    lemma_last_write_wins(bytes, shape, strides, size, chunk, n, k);
}

/// A write walk leaves every byte that lies outside all the elements it wrote as it was.
pub proof fn lemma_written_keeps_other_bytes(
    bytes: Seq<u8>,
    shape: Seq<usize>,
    strides: Seq<usize>,
    size: int,
    chunk: spec_fn(int) -> Seq<u8>,
    n: nat,
    p: int,
)
    requires
        0 <= p < bytes.len(),
        forall|k: int|
            0 <= k < n ==> !(#[trigger] position_offset(shape, strides, k) * size <= p
                < position_offset(shape, strides, k) * size + chunk(k).len()),
    ensures
        written(bytes, shape, strides, size, chunk, n)[p] == bytes[p],
    decreases n,
{
    if n > 0 {
        lemma_written_keeps_other_bytes(bytes, shape, strides, size, chunk, (n - 1) as nat, p);
        lemma_written_len(bytes, shape, strides, size, chunk, (n - 1) as nat);
        let j = n - 1;
        assert(!(position_offset(shape, strides, j) * size <= p < position_offset(
            shape,
            strides,
            j,
        ) * size + chunk(j).len()));
    }
}

proof fn lemma_gathered_chunks(
    after: Seq<u8>,
    shape: Seq<usize>,
    strides: Seq<usize>,
    size: int,
    chunk: spec_fn(int) -> Seq<u8>,
    n: nat,
    m: nat,
    whole: spec_fn(nat) -> Seq<u8>,
)
    requires
        m <= n,
        forall|k: int| 0 <= k < n ==> #[trigger] element_bytes(after, shape, strides, size, k) == chunk(k),
        whole(0) == Seq::<u8>::empty(),
        forall|i: nat| 0 < i <= n ==> #[trigger] whole(i) == whole((i - 1) as nat) + chunk(i - 1),
    ensures
        gathered(after, shape, strides, size, m) == whole(m),
    decreases m,
{
    if m > 0 {
        lemma_gathered_chunks(after, shape, strides, size, chunk, n, (m - 1) as nat, whole);
        assert(element_bytes(after, shape, strides, size, m - 1) == chunk(m - 1));
        assert(whole(m) == whole((m - 1) as nat) + chunk(m - 1));
    }
}

/// Reading back a complete scatter: when every element of the shape was written from a packed
/// source and no two elements share an offset, every element can be read again and the
/// elements in C order are the source's leading bytes.
pub proof fn lemma_scatter_then_gather(
    bytes: Seq<u8>,
    shape: Seq<usize>,
    strides: Seq<usize>,
    source: Seq<u8>,
    size: int,
)
    requires
        size > 0,
        first_fault(
            write_faults(shape, strides, size, bytes.len() as int, (source.len() as int) / size),
            dims_product(shape),
        ) is None,
        distinct_offsets(shape, strides, dims_product(shape) as int),
    ensures
        ({
            let n = dims_product(shape);
            let after = written(bytes, shape, strides, size, source_chunks(source, size), n);
            &&& first_fault(read_faults(shape, strides, size, after.len() as int), n) is None
            &&& gathered(after, shape, strides, size, n) == source.subrange(0, n * size)
        }),
{
    let n = dims_product(shape);
    let available = (source.len() as int) / size;
    let faults = write_faults(shape, strides, size, bytes.len() as int, available);
    let chunk = source_chunks(source, size);
    lemma_first_fault_prefix(faults, n, n);
    assert forall|k: int| 0 <= k < n implies #[trigger] location_fault(
        shape,
        strides,
        size,
        bytes.len() as int,
        k,
    ) is None && 0 <= k * size && k * size + size <= source.len() by {
        assert(faults(k) is None);
        lemma_chunk_in_source(k, size, source.len() as int);
    }
    assert forall|j: int| 0 <= j < n implies (#[trigger] chunk(j)).len() == size by {
        assert(location_fault(shape, strides, size, bytes.len() as int, j) is None);
    }
    let after = written(bytes, shape, strides, size, chunk, n);
    lemma_written_len(bytes, shape, strides, size, chunk, n);
    assert forall|k: int| 0 <= k < n implies #[trigger] element_bytes(
        after,
        shape,
        strides,
        size,
        k,
    ) == chunk(k) by {
        lemma_written_element(bytes, shape, strides, size, chunk, n, k);
    }
    let reads = read_faults(shape, strides, size, after.len() as int);
    assert forall|k: int| 0 <= k < n implies #[trigger] reads(k) is None by {
        assert(location_fault(shape, strides, size, bytes.len() as int, k) is None);
    }
    lemma_no_fault(reads, n);
    let whole = |i: nat| source.subrange(0, i * size);
    assert(whole(0) =~= Seq::<u8>::empty());
    assert forall|i: nat| 0 < i <= n implies #[trigger] whole(i) == whole((i - 1) as nat) + chunk(
        i - 1,
    ) by {
        let k = i - 1;
        assert(location_fault(shape, strides, size, bytes.len() as int, k) is None);
        assert(k * size + size == i * size) by (nonlinear_arith)
            requires
                k == i - 1,
        ;
        assert(whole(i) =~= whole((i - 1) as nat) + chunk(i - 1));
    }
    lemma_gathered_chunks(after, shape, strides, size, chunk, n, n, whole);
}

/// Reading back a complete copy: when every element was copied and no two elements of the
/// destination share an offset, both storages can be read in full and give the same elements
/// in C order.
pub proof fn lemma_copy_then_gather(
    source: Seq<u8>,
    source_strides: Seq<usize>,
    destination: Seq<u8>,
    destination_strides: Seq<usize>,
    shape: Seq<usize>,
    size: int,
)
    requires
        size >= 0,
        first_fault(
            copy_faults(
                shape,
                source_strides,
                source.len() as int,
                destination_strides,
                destination.len() as int,
                size,
            ),
            dims_product(shape),
        ) is None,
        distinct_offsets(shape, destination_strides, dims_product(shape) as int),
    ensures
        ({
            let n = dims_product(shape);
            let after = written(
                destination,
                shape,
                destination_strides,
                size,
                element_chunks(source, shape, source_strides, size),
                n,
            );
            &&& first_fault(read_faults(shape, source_strides, size, source.len() as int), n) is None
            &&& first_fault(
                read_faults(shape, destination_strides, size, after.len() as int),
                n,
            ) is None
            &&& gathered(after, shape, destination_strides, size, n) == gathered(
                source,
                shape,
                source_strides,
                size,
                n,
            )
        }),
{
    let n = dims_product(shape);
    let faults = copy_faults(
        shape,
        source_strides,
        source.len() as int,
        destination_strides,
        destination.len() as int,
        size,
    );
    let chunk = element_chunks(source, shape, source_strides, size);
    lemma_first_fault_prefix(faults, n, n);
    assert forall|k: int| 0 <= k < n implies #[trigger] location_fault(
        shape,
        destination_strides,
        size,
        destination.len() as int,
        k,
    ) is None by {
        assert(faults(k) is None);
    }
    assert forall|k: int| 0 <= k < n implies #[trigger] location_fault(
        shape,
        source_strides,
        size,
        source.len() as int,
        k,
    ) is None by {
        assert(faults(k) is None);
    }
    assert forall|j: int| 0 <= j < n implies (#[trigger] chunk(j)).len() == size by {
        assert(location_fault(shape, source_strides, size, source.len() as int, j) is None);
        lemma_located_range(shape, source_strides, size, source.len() as int, j);
    }
    let after = written(destination, shape, destination_strides, size, chunk, n);
    lemma_written_len(destination, shape, destination_strides, size, chunk, n);
    assert forall|k: int| 0 <= k < n implies #[trigger] element_bytes(
        after,
        shape,
        destination_strides,
        size,
        k,
    ) == chunk(k) by {
        lemma_written_element(destination, shape, destination_strides, size, chunk, n, k);
    }
    let source_reads = read_faults(shape, source_strides, size, source.len() as int);
    let destination_reads = read_faults(shape, destination_strides, size, after.len() as int);
    assert forall|k: int| 0 <= k < n implies #[trigger] source_reads(k) is None by {
        assert(location_fault(shape, source_strides, size, source.len() as int, k) is None);
    }
    assert forall|k: int| 0 <= k < n implies #[trigger] destination_reads(k) is None by {
        assert(location_fault(
            shape,
            destination_strides,
            size,
            destination.len() as int,
            k,
        ) is None);
    }
    lemma_no_fault(source_reads, n);
    lemma_no_fault(destination_reads, n);
    let whole = |i: nat| gathered(source, shape, source_strides, size, i);
    assert forall|i: nat| 0 < i <= n implies #[trigger] whole(i) == whole((i - 1) as nat) + chunk(
        i - 1,
    ) by {
    }
    lemma_gathered_chunks(after, shape, destination_strides, size, chunk, n, n, whole);
}

/// Reading back a complete copy into a packed C-order destination: when no element faults,
/// the destination's elements in C order are the source's.
pub proof fn lemma_copy_into_packed_then_gather(
    source: Seq<u8>,
    source_strides: Seq<usize>,
    destination: Seq<u8>,
    destination_strides: Seq<usize>,
    shape: Seq<usize>,
    size: int,
)
    requires
        size >= 0,
        c_contiguous(shape, destination_strides),
        first_fault(
            copy_faults(
                shape,
                source_strides,
                source.len() as int,
                destination_strides,
                destination.len() as int,
                size,
            ),
            dims_product(shape),
        ) is None,
    ensures
        ({
            let n = dims_product(shape);
            let after = written(
                destination,
                shape,
                destination_strides,
                size,
                element_chunks(source, shape, source_strides, size),
                n,
            );
            gathered(after, shape, destination_strides, size, n) == gathered(
                source,
                shape,
                source_strides,
                size,
                n,
            )
        }),
{
    lemma_contiguous_distinct_offsets(shape, destination_strides);
    lemma_copy_then_gather(source, source_strides, destination, destination_strides, shape, size);
}

} // verus!

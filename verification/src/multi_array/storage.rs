//! Element reads and writes on strided byte storage, and whole-array moves between strided
//! layouts in C order.

use vstd::prelude::*;
use vstd::arithmetic::div_mod::lemma_small_mod;

use crate::error::CoreMLError;
use crate::multi_array::extent::{is_c_contiguous, lemma_contiguous_offset_is_position};
use crate::multi_array::index_math::{
    c_contiguous, dims_product, in_bounds, lemma_ravel_unravel, lemma_unravel_ravel, offset_of,
    ravel, unravel,
};
use crate::multi_array::iteration::{advance_index, lemma_traversal_start, zero_indices};
use crate::multi_array::layout::{
    count_overflow_message, count_overflows, element_byte_range, element_count, element_offset,
    index_rank_message,
    element_in_storage, lemma_offset_nonneg, storage_offset, stride_rank_message,
};

verus! {

/// `bytes` with `value` written over the bytes from `start` on.
pub open spec fn splice(bytes: Seq<u8>, start: int, value: Seq<u8>) -> Seq<u8> {
    Seq::new(
        bytes.len(),
        |i: int|
            if start <= i < start + value.len() {
                value[i - start]
            } else {
                bytes[i]
            },
    )
}

/// Storage offset of the element at C-order position `k`.
pub open spec fn position_offset(shape: Seq<usize>, strides: Seq<usize>, k: int) -> int {
    offset_of(unravel(k, shape), strides)
}

/// Why the element at C-order position `k` cannot be located in `len` bytes of storage
/// holding `size`-byte elements, when it cannot.
pub open spec fn location_fault(
    shape: Seq<usize>,
    strides: Seq<usize>,
    size: int,
    len: int,
    k: int,
) -> Option<Seq<char>> {
    if strides.len() != shape.len() {
        Some(stride_rank_message(strides.len(), shape.len()))
    } else if position_offset(shape, strides, k) > usize::MAX {
        Some("MLMultiArray element offset overflowed"@)
    } else if !element_in_storage(position_offset(shape, strides, k), size, len) {
        Some("MLMultiArray element offset lies outside its storage"@)
    } else {
        None
    }
}

/// `location_fault` as a function of the position.
pub open spec fn read_faults(shape: Seq<usize>, strides: Seq<usize>, size: int, len: int) -> spec_fn(
    int,
) -> Option<Seq<char>> {
    |k: int| location_fault(shape, strides, size, len, k)
}

/// The first of the positions `0..n` at which `fault` reports something, with its report.
pub open spec fn first_fault(fault: spec_fn(int) -> Option<Seq<char>>, n: nat) -> Option<
    (int, Seq<char>),
>
    decreases n,
{
    if n == 0 {
        None
    } else {
        match first_fault(fault, (n - 1) as nat) {
            Some(found) => Some(found),
            None => match fault(n - 1) {
                Some(m) => Some((n - 1, m)),
                None => None,
            },
        }
    }
}

/// Bytes of the element at C-order position `k`.
pub open spec fn element_bytes(
    bytes: Seq<u8>,
    shape: Seq<usize>,
    strides: Seq<usize>,
    size: int,
    k: int,
) -> Seq<u8> {
    let start = position_offset(shape, strides, k) * size;
    bytes.subrange(start, start + size)
}

/// Bytes of the first `n` elements in C order, one after another.
pub open spec fn gathered(
    bytes: Seq<u8>,
    shape: Seq<usize>,
    strides: Seq<usize>,
    size: int,
    n: nat,
) -> Seq<u8>
    decreases n,
{
    if n == 0 {
        Seq::empty()
    } else {
        gathered(bytes, shape, strides, size, (n - 1) as nat) + element_bytes(
            bytes,
            shape,
            strides,
            size,
            n - 1,
        )
    }
}

/// Once a fault is found among the first positions, scanning further finds the same one.
pub proof fn lemma_first_fault_stable(fault: spec_fn(int) -> Option<Seq<char>>, m: nat, n: nat)
    requires
        m <= n,
        first_fault(fault, m) is Some,
    ensures
        first_fault(fault, n) == first_fault(fault, m),
    decreases n,
{
    if n > m {
        lemma_first_fault_stable(fault, m, (n - 1) as nat);
    }
}

/// Where no fault is found among the first positions, none is found among fewer.
pub proof fn lemma_first_fault_prefix(fault: spec_fn(int) -> Option<Seq<char>>, m: nat, n: nat)
    requires
        m <= n,
        first_fault(fault, n) is None,
    ensures
        first_fault(fault, m) is None,
        forall|k: int| 0 <= k < n ==> #[trigger] fault(k) is None,
    decreases n,
{
    if n > 0 {
        lemma_first_fault_prefix(fault, if m < n {
            m
        } else {
            (n - 1) as nat
        }, (n - 1) as nat);
        if m == n {
        }
    }
}

fn append_range(out: &mut Vec<u8>, src: &[u8], from: usize, n: usize)
    requires
        from + n <= src.len(),
    ensures
        final(out)@ == old(out)@ + src@.subrange(from as int, from + n),
{
    let mut j: usize = 0;
    while j < n
        invariant
            j <= n,
            from + n <= src.len(),
            out@ == old(out)@ + src@.subrange(from as int, from + j),
        decreases n - j,
    {
        out.push(src[from + j]);
        j = j + 1;
    }
}

fn copy_range(dest: &mut [u8], start: usize, src: &[u8], from: usize, n: usize)
    requires
        start + n <= old(dest).len(),
        from + n <= src.len(),
    ensures
        final(dest)@ == splice(old(dest)@, start as int, src@.subrange(from as int, from + n)),
{
    let mut j: usize = 0;
    while j < n
        invariant
            j <= n,
            start + n <= dest.len(),
            from + n <= src.len(),
            dest@ == splice(old(dest)@, start as int, src@.subrange(from as int, from + j)),
        decreases n - j,
    {
        dest[start + j] = src[from + j];
        j = j + 1;
    }
}

/// The `size` bytes of the element at storage offset `offset`, with an error when they do not
/// lie inside `bytes`.
pub fn read_element(bytes: &[u8], offset: usize, size: usize) -> (r: Result<Vec<u8>, CoreMLError>)
    ensures
        r is Ok <==> element_in_storage(offset as int, size as int, bytes.len() as int),
        r matches Ok(v) ==> v@ == bytes@.subrange(offset * size, offset * size + size),
        r matches Err(e) ==> (e matches CoreMLError::MultiArrayFailed(m) && m@
            == "MLMultiArray element offset lies outside its storage"@),
{
    let range = match element_byte_range(offset, bytes.len(), size) {
        Ok(range) => range,
        Err(e) => return Err(e),
    };
    let mut value: Vec<u8> = Vec::new();
    append_range(&mut value, bytes, range.start, size);
    Ok(value)
}

/// Write `value` as the element at storage offset `offset`, elements being `value.len()`
/// bytes wide, with an error, and nothing written, when it does not lie inside `bytes`.
pub fn write_element(bytes: &mut [u8], offset: usize, value: &[u8]) -> (r: Result<(), CoreMLError>)
    ensures
        r is Ok <==> element_in_storage(
            offset as int,
            value.len() as int,
            old(bytes).len() as int,
        ),
        r is Ok ==> final(bytes)@ == splice(old(bytes)@, offset * value.len(), value@),
        r matches Err(e) ==> final(bytes)@ == old(bytes)@ && (e matches CoreMLError::MultiArrayFailed(
            m,
        ) && m@ == "MLMultiArray element offset lies outside its storage"@),
{
    let range = match element_byte_range(offset, bytes.len(), value.len()) {
        Ok(range) => range,
        Err(e) => return Err(e),
    };
    copy_range(bytes, range.start, value, 0, value.len());
    assert(value@.subrange(0, value.len() as int) =~= value@);
    Ok(())
}

/// On a packed C-order layout, the first `n` elements in C order can all be read exactly when
/// `n` elements fit in the storage, and they are then the storage's leading bytes.
pub proof fn lemma_contiguous_gather(
    bytes: Seq<u8>,
    shape: Seq<usize>,
    strides: Seq<usize>,
    size: int,
    n: nat,
)
    requires
        c_contiguous(shape, strides),
        n <= dims_product(shape) <= usize::MAX,
        size >= 0,
    ensures
        first_fault(read_faults(shape, strides, size, bytes.len() as int), n) is None <==> n * size
            <= bytes.len(),
        n * size <= bytes.len() ==> gathered(bytes, shape, strides, size, n) == bytes.subrange(
            0,
            n * size,
        ),
    decreases n,
{
    if n > 0 {
        let k = n - 1;
        lemma_contiguous_gather(bytes, shape, strides, size, (n - 1) as nat);
        lemma_ravel_unravel(k, shape);
        lemma_contiguous_offset_is_position(unravel(k, shape), shape, strides);
        assert(position_offset(shape, strides, k) == k);
        assert(k * size + size == n * size) by (nonlinear_arith)
            requires
                k == n - 1,
        ;
        assert(k * size <= n * size) by (nonlinear_arith)
            requires
                k == n - 1,
                size >= 0,
        ;
        assert(read_faults(shape, strides, size, bytes.len() as int)(k) == location_fault(
            shape,
            strides,
            size,
            bytes.len() as int,
            k,
        ));
        if n * size <= bytes.len() {
            assert(gathered(bytes, shape, strides, size, n) =~= bytes.subrange(0, n * size));
        }
    }
}

/// Whether the fault found, if any, is reported by `e` as the multi-array error it names.
pub open spec fn reports_fault(found: Option<(int, Seq<char>)>, e: CoreMLError) -> bool {
    found matches Some(f) && (e matches CoreMLError::MultiArrayFailed(m) && m@ == f.1)
}

/// Bytes of every element of a strided array, in C order (last index fastest).
///
/// The element count is checked first. A packed C-order layout is copied in one piece, with an
/// error when the storage is too short; any other layout is read element by element, and the
/// first element that cannot be located decides the error.
pub fn gather(bytes: &[u8], shape: &[usize], strides: &[usize], size: usize) -> (r: Result<
    Vec<u8>,
    CoreMLError,
>)
    ensures
        count_overflows(shape@) ==> (r matches Err(CoreMLError::InvalidArgument(m)) && m@
            == count_overflow_message(shape@)),
        !count_overflows(shape@) ==> ({
            let n = dims_product(shape@);
            let found = first_fault(
                read_faults(shape@, strides@, size as int, bytes.len() as int),
                n,
            );
            &&& r is Ok <==> found is None
            &&& r matches Ok(v) ==> v@ == gathered(bytes@, shape@, strides@, size as int, n)
            &&& r matches Err(e) ==> if c_contiguous(shape@, strides@) {
                e matches CoreMLError::MultiArrayFailed(m) && m@
                    == "MLMultiArray storage is shorter than its shape"@
            } else {
                reports_fault(found, e)
            }
        }),
{
    let count = match element_count(shape) {
        Ok(c) => c,
        Err(e) => return Err(e),
    };
    let ghost faults = read_faults(shape@, strides@, size as int, bytes.len() as int);
    if is_c_contiguous(shape, strides) {
        proof {
            assert(shape@.skip(0) =~= shape@);
            lemma_contiguous_gather(bytes@, shape@, strides@, size as int, count as nat);
        }
        let fits = match count.checked_mul(size) {
            Some(byte_len) => if byte_len <= bytes.len() {
                Some(byte_len)
            } else {
                None
            },
            None => None,
        };
        return match fits {
            Some(byte_len) => {
                let mut values: Vec<u8> = Vec::new();
                append_range(&mut values, bytes, 0, byte_len);
                Ok(values)
            },
            None => Err(
                CoreMLError::MultiArrayFailed(
                    String::from_str("MLMultiArray storage is shorter than its shape"),
                ),
            ),
        };
    }
    let mut values: Vec<u8> = Vec::new();
    let mut indices = zero_indices(shape.len());
    let mut k: usize = 0;
    if count > 0 {
        proof {
            lemma_traversal_start(shape@);
        }
    }
    while k < count
        invariant
            count == dims_product(shape@),
            !count_overflows(shape@),
            !c_contiguous(shape@, strides@),
            k <= count,
            indices.len() == shape.len(),
            faults == read_faults(shape@, strides@, size as int, bytes.len() as int),
            k < count ==> in_bounds(indices@, shape@) && ravel(indices@, shape@) == k,
            first_fault(faults, k as nat) is None,
            values@ == gathered(bytes@, shape@, strides@, size as int, k as nat),
        decreases count - k,
    {
        proof {
            lemma_unravel_ravel(indices@, shape@);
        }
        assert(faults(k as int) == location_fault(
            shape@,
            strides@,
            size as int,
            bytes.len() as int,
            k as int,
        ));
        let offset = match storage_offset(indices.as_slice(), strides) {
            Ok(o) => o,
            Err(e) => {
                proof {
                    lemma_first_fault_stable(faults, (k + 1) as nat, count as nat);
                }
                return Err(e);
            },
        };
        assert(indices@ == unravel(k as int, shape@));
        proof {
            lemma_offset_nonneg(indices@, strides@);
        }
        assert(offset == position_offset(shape@, strides@, k as int));
        let range = match element_byte_range(offset, bytes.len(), size) {
            Ok(range) => range,
            Err(e) => {
                proof {
                    assert(faults(k as int) is Some);
                    assert(first_fault(faults, (k + 1) as nat) is Some);
                    lemma_first_fault_stable(faults, (k + 1) as nat, count as nat);
                }
                return Err(e);
            },
        };
        append_range(&mut values, bytes, range.start, size);
        advance_index(&mut indices, shape);
        proof {
            if k + 1 < count {
                lemma_small_mod((k + 1) as nat, count as nat);
            }
        }
        k = k + 1;
    }
    Ok(values)
}

/// Storage after the first `n` elements in C order were written, the element at position `k`
/// with the bytes `chunk(k)`.
pub open spec fn written(
    bytes: Seq<u8>,
    shape: Seq<usize>,
    strides: Seq<usize>,
    size: int,
    chunk: spec_fn(int) -> Seq<u8>,
    n: nat,
) -> Seq<u8>
    decreases n,
{
    if n == 0 {
        bytes
    } else {
        splice(
            written(bytes, shape, strides, size, chunk, (n - 1) as nat),
            position_offset(shape, strides, n - 1) * size,
            chunk(n - 1),
        )
    }
}

/// The elements of a packed source, `size` bytes each: element `k` is the bytes
/// `k * size .. k * size + size`.
pub open spec fn source_chunks(source: Seq<u8>, size: int) -> spec_fn(int) -> Seq<u8> {
    |k: int| source.subrange(k * size, k * size + size)
}

/// The elements of a strided source, by C-order position.
pub open spec fn element_chunks(
    source: Seq<u8>,
    shape: Seq<usize>,
    strides: Seq<usize>,
    size: int,
) -> spec_fn(int) -> Seq<u8> {
    |k: int| element_bytes(source, shape, strides, size, k)
}

/// Why writing the element at C-order position `k` from a packed source holding `available`
/// elements fails, when it does.
pub open spec fn scatter_fault(
    shape: Seq<usize>,
    strides: Seq<usize>,
    size: int,
    len: int,
    available: int,
    k: int,
) -> Option<Seq<char>> {
    if k >= available {
        Some("source slice ended before the multi-array"@)
    } else {
        location_fault(shape, strides, size, len, k)
    }
}

/// `scatter_fault` as a function of the position.
pub open spec fn write_faults(
    shape: Seq<usize>,
    strides: Seq<usize>,
    size: int,
    len: int,
    available: int,
) -> spec_fn(int) -> Option<Seq<char>> {
    |k: int| scatter_fault(shape, strides, size, len, available, k)
}

/// Why copying the element at C-order position `k` between two strided storages fails, when
/// it does: the source is located first, then the destination.
pub open spec fn copy_fault(
    shape: Seq<usize>,
    source_strides: Seq<usize>,
    source_len: int,
    destination_strides: Seq<usize>,
    destination_len: int,
    size: int,
    k: int,
) -> Option<Seq<char>> {
    match location_fault(shape, source_strides, size, source_len, k) {
        Some(m) => Some(m),
        None => location_fault(shape, destination_strides, size, destination_len, k),
    }
}

/// `copy_fault` as a function of the position.
pub open spec fn copy_faults(
    shape: Seq<usize>,
    source_strides: Seq<usize>,
    source_len: int,
    destination_strides: Seq<usize>,
    destination_len: int,
    size: int,
) -> spec_fn(int) -> Option<Seq<char>> {
    |k: int|
        copy_fault(
            shape,
            source_strides,
            source_len,
            destination_strides,
            destination_len,
            size,
            k,
        )
}

/// Element `k` of a packed source of `len` bytes holding `len / size` elements lies inside it.
pub proof fn lemma_chunk_in_source(k: int, size: int, len: int)
    requires
        size > 0,
        0 <= k < len / size,
        len >= 0,
    ensures
        0 <= k * size,
        k * size + size <= len,
{
    vstd::arithmetic::div_mod::lemma_fundamental_div_mod(len, size);
    let q = len / size;
    assert(0 <= k * size && k * size + size <= len) by (nonlinear_arith)
        requires
            0 <= k < q,
            size > 0,
            len == size * q + len % size,
            len % size >= 0,
    ;
}

/// Write a packed source over the elements of a strided array, in C order.
///
/// The element count is checked first. Element `k` is the source bytes
/// `k * size .. k * size + size`; the first element that has no source bytes left or cannot be
/// located ends the walk with an error, the elements before it having been written.
pub fn scatter(bytes: &mut [u8], shape: &[usize], strides: &[usize], source: &[u8], size: usize) -> (r:
    Result<(), CoreMLError>)
    requires
        size > 0,
    ensures
        count_overflows(shape@) ==> final(bytes)@ == old(bytes)@ && (r matches Err(
            CoreMLError::InvalidArgument(m),
        ) && m@ == count_overflow_message(shape@)),
        !count_overflows(shape@) ==> ({
            let n = dims_product(shape@);
            let found = first_fault(
                write_faults(
                    shape@,
                    strides@,
                    size as int,
                    old(bytes).len() as int,
                    (source.len() / size) as int,
                ),
                n,
            );
            let chunks = source_chunks(source@, size as int);
            &&& r is Ok <==> found is None
            &&& r is Ok ==> final(bytes)@ == written(
                old(bytes)@,
                shape@,
                strides@,
                size as int,
                chunks,
                n,
            )
            &&& r matches Err(e) ==> reports_fault(found, e) && (found matches Some(f)
                && final(bytes)@ == written(
                old(bytes)@,
                shape@,
                strides@,
                size as int,
                chunks,
                f.0 as nat,
            ))
        }),
{
    let count = match element_count(shape) {
        Ok(c) => c,
        Err(e) => return Err(e),
    };
    let available = source.len() / size;
    let ghost faults = write_faults(
        shape@,
        strides@,
        size as int,
        bytes.len() as int,
        available as int,
    );
    let ghost chunks = source_chunks(source@, size as int);
    let mut indices = zero_indices(shape.len());
    let mut k: usize = 0;
    if count > 0 {
        proof {
            lemma_traversal_start(shape@);
        }
    }
    while k < count
        invariant
            count == dims_product(shape@),
            !count_overflows(shape@),
            size > 0,
            available == source.len() / size,
            k <= count,
            indices.len() == shape.len(),
            bytes.len() == old(bytes).len(),
            faults == write_faults(
                shape@,
                strides@,
                size as int,
                old(bytes).len() as int,
                available as int,
            ),
            chunks == source_chunks(source@, size as int),
            k < count ==> in_bounds(indices@, shape@) && ravel(indices@, shape@) == k,
            first_fault(faults, k as nat) is None,
            bytes@ == written(old(bytes)@, shape@, strides@, size as int, chunks, k as nat),
        decreases count - k,
    {
        proof {
            lemma_unravel_ravel(indices@, shape@);
            lemma_offset_nonneg(indices@, strides@);
        }
        assert(faults(k as int) == scatter_fault(
            shape@,
            strides@,
            size as int,
            bytes.len() as int,
            available as int,
            k as int,
        ));
        if k >= available {
            proof {
                lemma_first_fault_stable(faults, (k + 1) as nat, count as nat);
            }
            return Err(
                CoreMLError::MultiArrayFailed(
                    String::from_str("source slice ended before the multi-array"),
                ),
            );
        }
        assert(indices@ == unravel(k as int, shape@));
        let offset = match storage_offset(indices.as_slice(), strides) {
            Ok(o) => o,
            Err(e) => {
                proof {
                    lemma_first_fault_stable(faults, (k + 1) as nat, count as nat);
                }
                return Err(e);
            },
        };
        assert(offset == position_offset(shape@, strides@, k as int));
        let range = match element_byte_range(offset, bytes.len(), size) {
            Ok(range) => range,
            Err(e) => {
                proof {
                    assert(faults(k as int) is Some);
                    lemma_first_fault_stable(faults, (k + 1) as nat, count as nat);
                }
                return Err(e);
            },
        };
        proof {
            lemma_chunk_in_source(k as int, size as int, source.len() as int);
        }
        let from = k * size;
        copy_range(bytes, range.start, source, from, size);
        assert(chunks(k as int) == source@.subrange(from as int, from + size));
        advance_index(&mut indices, shape);
        proof {
            if k + 1 < count {
                lemma_small_mod((k + 1) as nat, count as nat);
            }
        }
        k = k + 1;
    }
    Ok(())
}

/// Copy every element of a strided source into a strided destination of the same shape, in
/// C order, elements being `size` bytes wide.
///
/// The element count is checked first. For each element the source is located, then the
/// destination; the first element that cannot be located ends the walk with an error, the
/// elements before it having been copied.
pub fn copy_strided(
    source: &[u8],
    source_strides: &[usize],
    destination: &mut [u8],
    destination_strides: &[usize],
    shape: &[usize],
    size: usize,
) -> (r: Result<(), CoreMLError>)
    ensures
        count_overflows(shape@) ==> final(destination)@ == old(destination)@ && (r matches Err(
            CoreMLError::InvalidArgument(m),
        ) && m@ == count_overflow_message(shape@)),
        !count_overflows(shape@) ==> ({
            let n = dims_product(shape@);
            let found = first_fault(
                copy_faults(
                    shape@,
                    source_strides@,
                    source.len() as int,
                    destination_strides@,
                    old(destination).len() as int,
                    size as int,
                ),
                n,
            );
            let chunks = element_chunks(source@, shape@, source_strides@, size as int);
            &&& r is Ok <==> found is None
            &&& r is Ok ==> final(destination)@ == written(
                old(destination)@,
                shape@,
                destination_strides@,
                size as int,
                chunks,
                n,
            )
            &&& r matches Err(e) ==> reports_fault(found, e) && (found matches Some(f)
                && final(destination)@ == written(
                old(destination)@,
                shape@,
                destination_strides@,
                size as int,
                chunks,
                f.0 as nat,
            ))
        }),
{
    let count = match element_count(shape) {
        Ok(c) => c,
        Err(e) => return Err(e),
    };
    let ghost faults = copy_faults(
        shape@,
        source_strides@,
        source.len() as int,
        destination_strides@,
        destination.len() as int,
        size as int,
    );
    let ghost chunks = element_chunks(source@, shape@, source_strides@, size as int);
    let mut indices = zero_indices(shape.len());
    let mut k: usize = 0;
    if count > 0 {
        proof {
            lemma_traversal_start(shape@);
        }
    }
    while k < count
        invariant
            count == dims_product(shape@),
            !count_overflows(shape@),
            k <= count,
            indices.len() == shape.len(),
            destination.len() == old(destination).len(),
            faults == copy_faults(
                shape@,
                source_strides@,
                source.len() as int,
                destination_strides@,
                old(destination).len() as int,
                size as int,
            ),
            chunks == element_chunks(source@, shape@, source_strides@, size as int),
            k < count ==> in_bounds(indices@, shape@) && ravel(indices@, shape@) == k,
            first_fault(faults, k as nat) is None,
            destination@ == written(
                old(destination)@,
                shape@,
                destination_strides@,
                size as int,
                chunks,
                k as nat,
            ),
        decreases count - k,
    {
        proof {
            lemma_unravel_ravel(indices@, shape@);
            lemma_offset_nonneg(indices@, source_strides@);
            lemma_offset_nonneg(indices@, destination_strides@);
        }
        assert(faults(k as int) == copy_fault(
            shape@,
            source_strides@,
            source.len() as int,
            destination_strides@,
            destination.len() as int,
            size as int,
            k as int,
        ));
        assert(indices@ == unravel(k as int, shape@));
        let from_offset = match storage_offset(indices.as_slice(), source_strides) {
            Ok(o) => o,
            Err(e) => {
                proof {
                    lemma_first_fault_stable(faults, (k + 1) as nat, count as nat);
                }
                return Err(e);
            },
        };
        assert(from_offset == position_offset(shape@, source_strides@, k as int));
        let from = match element_byte_range(from_offset, source.len(), size) {
            Ok(range) => range,
            Err(e) => {
                proof {
                    assert(faults(k as int) is Some);
                    lemma_first_fault_stable(faults, (k + 1) as nat, count as nat);
                }
                return Err(e);
            },
        };
        let to_offset = match storage_offset(indices.as_slice(), destination_strides) {
            Ok(o) => o,
            Err(e) => {
                proof {
                    lemma_first_fault_stable(faults, (k + 1) as nat, count as nat);
                }
                return Err(e);
            },
        };
        assert(to_offset == position_offset(shape@, destination_strides@, k as int));
        let to = match element_byte_range(to_offset, destination.len(), size) {
            Ok(range) => range,
            Err(e) => {
                proof {
                    assert(faults(k as int) is Some);
                    lemma_first_fault_stable(faults, (k + 1) as nat, count as nat);
                }
                return Err(e);
            },
        };
        copy_range(destination, to.start, source, from.start, size);
        assert(chunks(k as int) == source@.subrange(from.start as int, from.start + size));
        advance_index(&mut indices, shape);
        proof {
            if k + 1 < count {
                lemma_small_mod((k + 1) as nat, count as nat);
            }
        }
        k = k + 1;
    }
    Ok(())
}

/// Whether `r` is what locating the element at an in-bounds index tuple gives: a stride list of
/// another length, an overflowing offset, or an element outside `len` bytes of `size`-byte
/// elements is an error, and otherwise `on_found` holds of the located offset.
pub open spec fn located_at<T>(
    indices: Seq<usize>,
    strides: Seq<usize>,
    size: int,
    len: int,
    r: Result<T, CoreMLError>,
    on_found: spec_fn(int, T) -> bool,
) -> bool {
    if strides.len() != indices.len() {
        r matches Err(CoreMLError::MultiArrayFailed(m)) && m@ == stride_rank_message(
            strides.len(),
            indices.len(),
        )
    } else if offset_of(indices, strides) > usize::MAX {
        r matches Err(CoreMLError::MultiArrayFailed(m)) && m@
            == "MLMultiArray element offset overflowed"@
    } else if !element_in_storage(offset_of(indices, strides), size, len) {
        r matches Err(CoreMLError::MultiArrayFailed(m)) && m@
            == "MLMultiArray element offset lies outside its storage"@
    } else {
        r matches Ok(v) && on_found(offset_of(indices, strides), v)
    }
}

/// The bytes of the element at a logical index tuple of a strided array.
pub fn element_at(
    bytes: &[u8],
    indices: &[usize],
    shape: &[usize],
    strides: &[usize],
    size: usize,
) -> (r: Result<Vec<u8>, CoreMLError>)
    ensures
        indices@.len() != shape@.len() ==> (r matches Err(CoreMLError::IndexOutOfRange(m)) && m@
            == index_rank_message(shape@.len(), indices@.len())),
        indices@.len() == shape@.len() && !in_bounds(indices@, shape@) ==> (r matches Err(
            CoreMLError::IndexOutOfRange(m),
        ) && m@ == "indices are outside the multi-array shape"@),
        in_bounds(indices@, shape@) ==> located_at(
            indices@,
            strides@,
            size as int,
            bytes.len() as int,
            r,
            |offset: int, v: Vec<u8>| v@ == bytes@.subrange(offset * size, offset * size + size),
        ),
{
    let offset = match element_offset(indices, shape, strides) {
        Ok(o) => o,
        Err(e) => return Err(e),
    };
    proof {
        lemma_offset_nonneg(indices@, strides@);
    }
    read_element(bytes, offset, size)
}

/// Write `value` as the element at a logical index tuple of a strided array, elements being
/// `value.len()` bytes wide; on an error nothing is written.
pub fn store_at(
    bytes: &mut [u8],
    indices: &[usize],
    shape: &[usize],
    strides: &[usize],
    value: &[u8],
) -> (r: Result<(), CoreMLError>)
    ensures
        r is Err ==> final(bytes)@ == old(bytes)@,
        indices@.len() != shape@.len() ==> (r matches Err(CoreMLError::IndexOutOfRange(m)) && m@
            == index_rank_message(shape@.len(), indices@.len())),
        indices@.len() == shape@.len() && !in_bounds(indices@, shape@) ==> (r matches Err(
            CoreMLError::IndexOutOfRange(m),
        ) && m@ == "indices are outside the multi-array shape"@),
        in_bounds(indices@, shape@) ==> located_at(
            indices@,
            strides@,
            value.len() as int,
            old(bytes).len() as int,
            r,
            |offset: int, u: ()| final(bytes)@ == splice(old(bytes)@, offset * value.len(), value@),
        ),
{
    let offset = match element_offset(indices, shape, strides) {
        Ok(o) => o,
        Err(e) => return Err(e),
    };
    proof {
        lemma_offset_nonneg(indices@, strides@);
    }
    write_element(bytes, offset, value)
}

} // verus!

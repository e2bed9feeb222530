//! The checks a multi-array operation makes before it touches storage: element types, shapes,
//! axes, alignment and the raw values the bridge reports.

use vstd::prelude::*;
use vstd::arithmetic::div_mod::{lemma_fundamental_div_mod, lemma_fundamental_div_mod_converse};

use crate::error::CoreMLError;
use crate::multi_array::data_type::{data_type_text, element_size_of, DataType};
use crate::multi_array::index_math::dims_product;
use crate::multi_array::layout::{count_overflow_message, count_overflows, element_count};
use crate::multi_array::storage::{first_fault, lemma_first_fault_prefix};
use crate::text::{decimal, decimal_text, dims_text, dims_text_of, signed_decimal, signed_text};

verus! {

/// Message of the error reported when an array's element type is not the one asked for.
pub open spec fn element_mismatch_message(actual: DataType, expected: DataType) -> Seq<char> {
    "MLMultiArray stores "@ + data_type_text(actual) + " elements, not "@ + data_type_text(expected)
}

/// Check that an array's element type is the one an operation asks for.
pub fn expect_data_type(actual: DataType, expected: DataType) -> (r: Result<(), CoreMLError>)
    ensures
        r is Ok <==> actual == expected,
        r matches Err(e) ==> (e matches CoreMLError::TypeMismatch(m) && m@
            == element_mismatch_message(actual, expected)),
{
    if actual == expected {
        Ok(())
    } else {
        let mut m = String::from_str("MLMultiArray stores ");
        let a = actual.debug_text();
        m.append(a.as_str());
        m.append(" elements, not ");
        let b = expected.debug_text();
        m.append(b.as_str());
        Err(CoreMLError::TypeMismatch(m))
    }
}

fn unsupported_message(prefix: &str, data_type: DataType) -> (m: String)
    ensures
        m@ == prefix@ + data_type_text(data_type),
{
    let mut m = String::from_str(prefix);
    let t = data_type.debug_text();
    m.append(t.as_str());
    m
}

/// Whether a shape's byte count, element count times element size, overflows `usize`.
pub open spec fn byte_count_overflows(shape: Seq<usize>, size: usize) -> bool {
    dims_product(shape) * size > usize::MAX
}

/// The dimensions of a shape as the bridge takes them, as 64-bit signed integers.
pub open spec fn shape_as_i64(shape: Seq<usize>) -> Seq<i64> {
    shape.map_values(|d: usize| d as i64)
}

/// Validate a shape and element type for a new multi-array and give the dimensions as the
/// bridge takes them.
///
/// The element type must be known, the element count and the byte count must fit `usize`, and
/// each dimension must fit `i64`; the first check that fails decides the error.
#[verifier::loop_isolation(false)]
pub fn new_array_dimensions(shape: &[usize], data_type: DataType) -> (r: Result<Vec<i64>, CoreMLError>)
    ensures
        r is Ok <==> (element_size_of(data_type) matches Some(size) && !count_overflows(shape@)
            && !byte_count_overflows(shape@, size) && forall|i: int|
            0 <= i < shape@.len() ==> #[trigger] shape@[i] <= i64::MAX),
        r matches Err(e) ==> e is InvalidArgument,
        element_size_of(data_type) is None ==> (r matches Err(CoreMLError::InvalidArgument(m))
            && m@ == "cannot allocate an MLMultiArray with unsupported data type "@
            + data_type_text(data_type)),
        element_size_of(data_type) matches Some(size) ==> {
            &&& count_overflows(shape@) ==> (r matches Err(CoreMLError::InvalidArgument(m)) && m@
                == count_overflow_message(shape@))
            &&& !count_overflows(shape@) && byte_count_overflows(shape@, size) ==> (r matches Err(
                CoreMLError::InvalidArgument(m),
            ) && m@ == "multi-array shape "@ + dims_text(shape@)
                + " overflows the addressable byte count"@)
            &&& !count_overflows(shape@) && !byte_count_overflows(shape@, size) ==> {
                &&& (forall|i: int| 0 <= i < shape@.len() ==> #[trigger] shape@[i] <= i64::MAX)
                    ==> (r matches Ok(v) && v@ == shape_as_i64(shape@))
                &&& (exists|i: int| 0 <= i < shape@.len() && #[trigger] shape@[i] > i64::MAX) ==> (
                r matches Err(CoreMLError::InvalidArgument(m)) && exists|i: int|
                    0 <= i < shape@.len() && #[trigger] shape@[i] > i64::MAX && (forall|j: int|
                        0 <= j < i ==> shape@[j] <= i64::MAX) && m@ == "multi-array dimension "@
                        + decimal(shape@[i] as nat) + " does not fit in Int64"@)
            }
        },
{
    let size = match data_type.element_size() {
        Some(size) => size,
        None => {
            return Err(
                CoreMLError::InvalidArgument(
                    unsupported_message(
                        "cannot allocate an MLMultiArray with unsupported data type ",
                        data_type,
                    ),
                ),
            );
        },
    };
    let count = match element_count(shape) {
        Ok(c) => c,
        Err(e) => return Err(e),
    };
    if count.checked_mul(size).is_none() {
        let mut m = String::from_str("multi-array shape ");
        let dims = dims_text_of(shape);
        m.append(dims.as_str());
        m.append(" overflows the addressable byte count");
        return Err(CoreMLError::InvalidArgument(m));
    }
    let mut dims: Vec<i64> = Vec::new();
    let mut i: usize = 0;
    while i < shape.len()
        invariant
            i <= shape.len(),
            dims@ == shape_as_i64(shape@.take(i as int)),
            forall|j: int| 0 <= j < i ==> #[trigger] shape@[j] <= i64::MAX,
        decreases shape.len() - i,
    {
        let d = shape[i];
        if (d as u64) > (i64::MAX as u64) {
            let mut m = String::from_str("multi-array dimension ");
            let digits = decimal_text(d);
            m.append(digits.as_str());
            m.append(" does not fit in Int64");
            return Err(CoreMLError::InvalidArgument(m));
        }
        dims.push(d as i64);
        assert(shape@.take(i + 1) =~= shape@.take(i as int).push(d));
        i = i + 1;
    }
    assert(shape@.take(shape.len() as int) =~= shape@);
    Ok(dims)
}

/// Normalize a possibly negative axis into `0..rank`, counting negative axes from the end
/// (Euclidean remainder), with an error for a rank-0 array.
pub fn normalize_axis(axis: isize, rank: usize) -> (r: Result<usize, CoreMLError>)
    requires
        rank <= isize::MAX,
    ensures
        rank == 0 ==> (r matches Err(CoreMLError::InvalidArgument(m)) && m@
            == "cannot select an axis for a rank-0 MLMultiArray"@),
        rank > 0 ==> r == Ok::<usize, CoreMLError>((axis as int % rank as int) as usize),
        r matches Ok(a) ==> a < rank,
{
    if rank == 0 {
        return Err(
            CoreMLError::InvalidArgument(
                String::from_str("cannot select an axis for a rank-0 MLMultiArray"),
            ),
        );
    }
    if axis >= 0 {
        Ok((axis as usize) % rank)
    } else {
        let a = (-(axis + 1)) as usize;
        let k = a % rank;
        proof {
            let n = rank as int;
            lemma_fundamental_div_mod(a as int, n);
            let q = (a as int) / n;
            assert(axis as int == n * (-(q + 1)) + (n - 1 - k)) by (nonlinear_arith)
                requires
                    axis as int == -(a as int) - 1,
                    a as int == n * q + k,
            ;
            lemma_fundamental_div_mod_converse(axis as int, n, -(q + 1), n - 1 - k);
        }
        Ok(rank - 1 - k)
    }
}

/// Why an input cannot take part in a concatenation along `axis` beside a first input of
/// shape `reference`, when it cannot: an unknown element type, another rank, or a dimension
/// other than the axis that differs.
pub open spec fn concat_member_fault(
    reference: Seq<usize>,
    axis: int,
    shape: Seq<usize>,
    element_type: DataType,
) -> Option<Seq<char>> {
    if element_size_of(element_type) is None {
        Some(
            "cannot concatenate an MLMultiArray with unsupported data type "@ + data_type_text(
                element_type,
            ),
        )
    } else if shape.len() != reference.len() {
        Some("all MLMultiArray values must have the same rank for concatenation"@)
    } else if exists|d: int| 0 <= d < shape.len() && d != axis && #[trigger] shape[d] != reference[d] {
        Some("all MLMultiArray dimensions except axis "@ + decimal(axis as nat) + " must match"@)
    } else {
        None
    }
}

/// `concat_member_fault` of each input, by position.
pub open spec fn concat_faults(
    shapes: Seq<Vec<usize>>,
    element_types: Seq<DataType>,
    axis: int,
) -> spec_fn(int) -> Option<Seq<char>> {
    |i: int| concat_member_fault(shapes[0]@, axis, shapes[i]@, element_types[i])
}

/// Whether `e` is the error a concatenation reports for the fault `found` among inputs whose
/// element types are `element_types`: a type mismatch for an unknown element type, an invalid
/// argument otherwise.
pub open spec fn reports_concat_fault(
    found: (int, Seq<char>),
    element_types: Seq<DataType>,
    e: CoreMLError,
) -> bool {
    if element_size_of(element_types[found.0]) is None {
        e matches CoreMLError::TypeMismatch(m) && m@ == found.1
    } else {
        e matches CoreMLError::InvalidArgument(m) && m@ == found.1
    }
}

/// A concatenation accepts only inputs that fit beside the first: when no input among the
/// first `n` is at fault, each of them has a known element type, the first input's rank, and
/// the first input's dimension at every index other than the axis.
pub proof fn lemma_accepted_inputs_match(
    shapes: Seq<Vec<usize>>,
    element_types: Seq<DataType>,
    axis: int,
    n: nat,
)
    requires
        n <= shapes.len(),
        first_fault(concat_faults(shapes, element_types, axis), n) is None,
    ensures
        forall|i: int| 0 <= i < n ==> element_size_of(#[trigger] element_types[i]) is Some,
        forall|i: int| 0 <= i < n ==> (#[trigger] shapes[i])@.len() == shapes[0]@.len(),
        forall|i: int, d: int|
            0 <= i < n && 0 <= d < shapes[0]@.len() && d != axis ==> #[trigger] shapes[i]@[d]
                == shapes[0]@[d],
{
    let faults = concat_faults(shapes, element_types, axis);
    lemma_first_fault_prefix(faults, n, n);
    assert forall|i: int| 0 <= i < n implies element_size_of(#[trigger] element_types[i])
        is Some by {
        assert(faults(i) is None);
    }
    assert forall|i: int| 0 <= i < n implies (#[trigger] shapes[i])@.len() == shapes[0]@.len() by {
        assert(faults(i) is None);
    }
    assert forall|i: int, d: int|
        0 <= i < n && 0 <= d < shapes[0]@.len() && d != axis implies #[trigger] shapes[i]@[d]
            == shapes[0]@[d] by {
        assert(faults(i) is None);
        assert(shapes[i]@.len() == shapes[0]@.len());
        if shapes[i]@[d] != shapes[0]@[d] {
            assert(exists|e: int|
                0 <= e < shapes[i]@.len() && e != axis && #[trigger] shapes[i]@[e] != shapes[0]@[e]);
        }
    }
}

/// Validate the inputs of a concatenation and give the normalized axis.
///
/// There must be at least one input, the result type must be known and the first input must
/// not be a scalar; the axis is normalized against the first input's rank, and then the first
/// input that cannot take part decides the error.
#[verifier::loop_isolation(false)]
pub fn check_concatenation(
    shapes: &[Vec<usize>],
    element_types: &[DataType],
    axis: isize,
    data_type: DataType,
) -> (r: Result<usize, CoreMLError>)
    requires
        shapes.len() == element_types.len(),
        shapes.len() > 0 ==> shapes@[0].len() <= isize::MAX,
    ensures
        shapes.len() == 0 ==> (r matches Err(CoreMLError::InvalidArgument(m)) && m@
            == "at least one MLMultiArray is required for concatenation"@),
        shapes.len() > 0 && element_size_of(data_type) is None ==> (r matches Err(
            CoreMLError::InvalidArgument(m),
        ) && m@ == "cannot concatenate into unsupported data type "@ + data_type_text(data_type)),
        shapes.len() > 0 && element_size_of(data_type) is Some && shapes@[0].len() == 0 ==> (
        r matches Err(CoreMLError::InvalidArgument(m)) && m@
            == "cannot concatenate scalar MLMultiArray values"@),
        shapes.len() > 0 && element_size_of(data_type) is Some && shapes@[0].len() > 0 ==> ({
            let a = axis as int % shapes@[0].len() as int;
            let found = first_fault(concat_faults(shapes@, element_types@, a), shapes.len() as nat);
            &&& found is None ==> r == Ok::<usize, CoreMLError>(a as usize)
            &&& found matches Some(f) ==> (r matches Err(e) && reports_concat_fault(
                f,
                element_types@,
                e,
            ))
        }),
        r matches Ok(a) ==> {
            &&& shapes.len() > 0
            &&& element_size_of(data_type) is Some
            &&& a < shapes@[0].len()
            &&& forall|i: int|
                0 <= i < shapes.len() ==> element_size_of(#[trigger] element_types@[i]) is Some
            &&& forall|i: int|
                0 <= i < shapes.len() ==> (#[trigger] shapes@[i])@.len() == shapes@[0]@.len()
            &&& forall|i: int, d: int|
                0 <= i < shapes.len() && 0 <= d < shapes@[0]@.len() && d != a ==> #[trigger] shapes@[i]@[d]
                    == shapes@[0]@[d]
        },
{
    if shapes.len() == 0 {
        return Err(
            CoreMLError::InvalidArgument(
                String::from_str("at least one MLMultiArray is required for concatenation"),
            ),
        );
    }
    if data_type.element_size().is_none() {
        return Err(
            CoreMLError::InvalidArgument(
                unsupported_message("cannot concatenate into unsupported data type ", data_type),
            ),
        );
    }
    let reference = &shapes[0];
    let rank = reference.len();
    if rank == 0 {
        return Err(
            CoreMLError::InvalidArgument(
                String::from_str("cannot concatenate scalar MLMultiArray values"),
            ),
        );
    }
    let a = match normalize_axis(axis, rank) {
        Ok(a) => a,
        Err(e) => return Err(e),
    };
    let ghost faults = concat_faults(shapes@, element_types@, a as int);
    let mut i: usize = 0;
    while i < shapes.len()
        invariant
            i <= shapes.len(),
            shapes.len() == element_types.len(),
            0 < rank == shapes@[0].len(),
            a < rank,
            *reference == shapes@[0],
            a as int == axis as int % rank as int,
            faults == concat_faults(shapes@, element_types@, a as int),
            first_fault(faults, i as nat) is None,
        decreases shapes.len() - i,
    {
        let shape = &shapes[i];
        let element_type = element_types[i];
        assert(faults(i as int) == concat_member_fault(
            shapes@[0]@,
            a as int,
            shapes@[i as int]@,
            element_types@[i as int],
        ));
        if element_type.element_size().is_none() {
            proof {
                crate::multi_array::storage::lemma_first_fault_stable(
                    faults,
                    (i + 1) as nat,
                    shapes.len() as nat,
                );
            }
            return Err(
                CoreMLError::TypeMismatch(
                    unsupported_message(
                        "cannot concatenate an MLMultiArray with unsupported data type ",
                        element_type,
                    ),
                ),
            );
        }
        if shape.len() != rank {
            proof {
                crate::multi_array::storage::lemma_first_fault_stable(
                    faults,
                    (i + 1) as nat,
                    shapes.len() as nat,
                );
            }
            return Err(
                CoreMLError::InvalidArgument(
                    String::from_str(
                        "all MLMultiArray values must have the same rank for concatenation",
                    ),
                ),
            );
        }
        let mut d: usize = 0;
        while d < rank
            invariant
                d <= rank,
                rank == shape.len() == reference.len(),
                forall|j: int|
                    0 <= j < d && j != a ==> #[trigger] shape@[j] == reference@[j],
            decreases rank - d,
        {
            if d != a && shape[d] != reference[d] {
                proof {
                    crate::multi_array::storage::lemma_first_fault_stable(
                        faults,
                        (i + 1) as nat,
                        shapes.len() as nat,
                    );
                }
                let mut m = String::from_str("all MLMultiArray dimensions except axis ");
                let digits = decimal_text(a);
                m.append(digits.as_str());
                m.append(" must match");
                return Err(CoreMLError::InvalidArgument(m));
            }
            d = d + 1;
        }
        i = i + 1;
    }
    proof {
        lemma_accepted_inputs_match(shapes@, element_types@, a as int, shapes.len() as nat);
    }
    Ok(a)
}

/// Message of the error reported when two arrays of different shapes meet in a transfer.
pub open spec fn transfer_shape_message(source: Seq<usize>, destination: Seq<usize>) -> Seq<char> {
    "cannot transfer a "@ + dims_text(source) + " MLMultiArray into a "@ + dims_text(destination)
        + " one"@
}

/// Validate a transfer between two arrays: equal shapes first, then a known element type for
/// the source and then for the destination.
pub fn check_transfer(
    source_shape: &[usize],
    source_type: DataType,
    destination_shape: &[usize],
    destination_type: DataType,
) -> (r: Result<(), CoreMLError>)
    ensures
        source_shape@ != destination_shape@ ==> (r matches Err(CoreMLError::InvalidArgument(m))
            && m@ == transfer_shape_message(source_shape@, destination_shape@)),
        source_shape@ == destination_shape@ && element_size_of(source_type) is None ==> (r matches Err(
            CoreMLError::TypeMismatch(m),
        ) && m@ == "cannot transfer an MLMultiArray with unsupported data type "@
            + data_type_text(source_type)),
        source_shape@ == destination_shape@ && element_size_of(source_type) is Some
            && element_size_of(destination_type) is None ==> (r matches Err(
            CoreMLError::TypeMismatch(m),
        ) && m@ == "cannot transfer an MLMultiArray with unsupported data type "@
            + data_type_text(destination_type)),
        source_shape@ == destination_shape@ && element_size_of(source_type) is Some
            && element_size_of(destination_type) is Some ==> r is Ok,
{
    let mut same = source_shape.len() == destination_shape.len();
    let mut i: usize = 0;
    while same && i < source_shape.len()
        invariant
            i <= source_shape.len(),
            same ==> source_shape.len() == destination_shape.len() && source_shape@.take(i as int)
                =~= destination_shape@.take(i as int),
            !same ==> source_shape@ != destination_shape@,
        decreases source_shape.len() - i,
    {
        if source_shape[i] != destination_shape[i] {
            assert(source_shape@[i as int] != destination_shape@[i as int]);
            same = false;
            i = i + 1;
        } else {
            assert(source_shape@.take(i + 1) =~= source_shape@.take(i as int).push(
                source_shape@[i as int],
            ));
            assert(destination_shape@.take(i + 1) =~= destination_shape@.take(i as int).push(
                destination_shape@[i as int],
            ));
            i = i + 1;
        }
    }
    if !same {
        let mut m = String::from_str("cannot transfer a ");
        let a = dims_text_of(source_shape);
        m.append(a.as_str());
        m.append(" MLMultiArray into a ");
        let b = dims_text_of(destination_shape);
        m.append(b.as_str());
        m.append(" one");
        return Err(CoreMLError::InvalidArgument(m));
    }
    assert(source_shape@ =~= source_shape@.take(source_shape.len() as int));
    assert(destination_shape@ =~= destination_shape@.take(destination_shape.len() as int));
    if source_type.element_size().is_none() {
        return Err(
            CoreMLError::TypeMismatch(
                unsupported_message(
                    "cannot transfer an MLMultiArray with unsupported data type ",
                    source_type,
                ),
            ),
        );
    }
    if destination_type.element_size().is_none() {
        return Err(
            CoreMLError::TypeMismatch(
                unsupported_message(
                    "cannot transfer an MLMultiArray with unsupported data type ",
                    destination_type,
                ),
            ),
        );
    }
    Ok(())
}

/// Element size of an array that is about to be copied, with an error for an unknown type.
pub fn copy_element_size(data_type: DataType) -> (r: Result<usize, CoreMLError>)
    ensures
        element_size_of(data_type) matches Some(size) ==> r == Ok::<usize, CoreMLError>(size),
        element_size_of(data_type) is None ==> (r matches Err(CoreMLError::TypeMismatch(m)) && m@
            == "cannot copy an MLMultiArray with unsupported data type "@ + data_type_text(
            data_type,
        )),
{
    match data_type.element_size() {
        Some(size) => Ok(size),
        None => Err(
            CoreMLError::TypeMismatch(
                unsupported_message(
                    "cannot copy an MLMultiArray with unsupported data type ",
                    data_type,
                ),
            ),
        ),
    }
}

/// The error reported when a scalar is stored into an array of unknown element type.
pub fn unsupported_scalar_store(data_type: DataType) -> (e: CoreMLError)
    ensures
        e matches CoreMLError::TypeMismatch(m) && m@
            == "cannot store a scalar into an MLMultiArray with unsupported data type "@
            + data_type_text(data_type),
{
    CoreMLError::TypeMismatch(
        unsupported_message(
            "cannot store a scalar into an MLMultiArray with unsupported data type ",
            data_type,
        ),
    )
}

/// Check that a source of `source_len` elements fills an array of the given shape exactly,
/// and give the element count.
pub fn check_source_len(source_len: usize, shape: &[usize]) -> (r: Result<usize, CoreMLError>)
    ensures
        count_overflows(shape@) ==> (r matches Err(CoreMLError::InvalidArgument(m)) && m@
            == count_overflow_message(shape@)),
        !count_overflows(shape@) && source_len == dims_product(shape@) ==> r
            == Ok::<usize, CoreMLError>(source_len),
        !count_overflows(shape@) && source_len != dims_product(shape@) ==> (r matches Err(
            CoreMLError::MultiArrayFailed(m),
        ) && m@ == "source slice length ("@ + decimal(source_len as nat)
            + ") does not match the multi-array element count ("@ + decimal(dims_product(shape@))
            + ")"@),
{
    let count = match element_count(shape) {
        Ok(c) => c,
        Err(e) => return Err(e),
    };
    if source_len != count {
        let mut m = String::from_str("source slice length (");
        let a = decimal_text(source_len);
        m.append(a.as_str());
        m.append(") does not match the multi-array element count (");
        let b = decimal_text(count);
        m.append(b.as_str());
        m.append(")");
        return Err(CoreMLError::MultiArrayFailed(m));
    }
    Ok(count)
}

/// Check a copy of `source_len` elements of type `expected` into an array of element type
/// `actual` and the given shape: the element types must match, then the source must fill the
/// array exactly. Gives the element count.
pub fn check_slice_copy(actual: DataType, expected: DataType, source_len: usize, shape: &[usize]) -> (r:
    Result<usize, CoreMLError>)
    ensures
        actual != expected ==> (r matches Err(CoreMLError::TypeMismatch(m)) && m@
            == element_mismatch_message(actual, expected)),
        actual == expected && count_overflows(shape@) ==> (r matches Err(
            CoreMLError::InvalidArgument(m),
        ) && m@ == count_overflow_message(shape@)),
        actual == expected && !count_overflows(shape@) && source_len == dims_product(shape@) ==> r
            == Ok::<usize, CoreMLError>(source_len),
        actual == expected && !count_overflows(shape@) && source_len != dims_product(shape@) ==> (
        r matches Err(CoreMLError::MultiArrayFailed(m)) && m@ == "source slice length ("@
            + decimal(source_len as nat) + ") does not match the multi-array element count ("@
            + decimal(dims_product(shape@)) + ")"@),
{
    match expect_data_type(actual, expected) {
        Ok(()) => {},
        Err(e) => return Err(e),
    }
    check_source_len(source_len, shape)
}

/// Check that storage starting at `address` is aligned to `align` bytes, as elements of the
/// type named `element_name` need.
pub fn check_alignment(address: usize, align: usize, element_name: &str) -> (r: Result<(), CoreMLError>)
    requires
        align > 0,
    ensures
        r is Ok <==> address % align == 0,
        r matches Err(e) ==> (e matches CoreMLError::MultiArrayFailed(m) && m@
            == "MLMultiArray storage is not aligned for "@ + element_name@),
{
    if address % align == 0 {
        Ok(())
    } else {
        let mut m = String::from_str("MLMultiArray storage is not aligned for ");
        m.append(element_name);
        Err(CoreMLError::MultiArrayFailed(m))
    }
}

/// The number of `size`-byte elements of the type named `element_name` that storage of
/// `byte_len` bytes starting at `address` holds when viewed as typed elements: empty storage
/// holds none whatever its address; otherwise the address must be aligned to `align` bytes.
pub fn typed_view_len(
    address: usize,
    byte_len: usize,
    align: usize,
    size: usize,
    element_name: &str,
) -> (r: Result<usize, CoreMLError>)
    requires
        align > 0,
        size > 0,
    ensures
        byte_len == 0 ==> r == Ok::<usize, CoreMLError>(0),
        byte_len > 0 && address % align == 0 ==> r == Ok::<usize, CoreMLError>(byte_len / size),
        byte_len > 0 && address % align != 0 ==> (r matches Err(CoreMLError::MultiArrayFailed(m))
            && m@ == "MLMultiArray storage is not aligned for "@ + element_name@),
{
    if byte_len == 0 {
        return Ok(0);
    }
    match check_alignment(address, align, element_name) {
        Ok(()) => Ok(byte_len / size),
        Err(e) => Err(e),
    }
}

/// Strides reported by the bridge, as unsigned values; the first negative stride is an error.
pub fn strides_from_isize(raw: &[isize]) -> (r: Result<Vec<usize>, CoreMLError>)
    ensures
        (forall|i: int| 0 <= i < raw@.len() ==> #[trigger] raw@[i] >= 0) ==> (r matches Ok(v)
            && v@.len() == raw@.len() && forall|i: int|
            0 <= i < raw@.len() ==> #[trigger] v@[i] as int == raw@[i] as int),
        (exists|i: int| 0 <= i < raw@.len() && #[trigger] raw@[i] < 0) ==> (r matches Err(
            CoreMLError::MultiArrayFailed(m),
        ) && exists|i: int|
            0 <= i < raw@.len() && #[trigger] raw@[i] < 0 && (forall|j: int|
                0 <= j < i ==> raw@[j] >= 0) && m@
                == "MLMultiArray reported an unsupported negative stride "@ + signed_decimal(
                raw@[i] as int,
            )),
{
    let mut strides: Vec<usize> = Vec::new();
    let mut i: usize = 0;
    while i < raw.len()
        invariant
            i <= raw.len(),
            strides@.len() == i,
            forall|j: int| 0 <= j < i ==> #[trigger] raw@[j] >= 0,
            forall|j: int| 0 <= j < i ==> #[trigger] strides@[j] as int == raw@[j] as int,
        decreases raw.len() - i,
    {
        let stride = raw[i];
        if stride < 0 {
            let mut m = String::from_str("MLMultiArray reported an unsupported negative stride ");
            let digits = signed_text(stride as i64);
            m.append(digits.as_str());
            return Err(CoreMLError::MultiArrayFailed(m));
        }
        strides.push(stride as usize);
        i = i + 1;
    }
    Ok(strides)
}

/// Dimensions reported by the bridge as 64-bit signed integers, as `usize`; a value that does
/// not fit `usize`, such as a negative one, becomes zero.
pub fn dims_from_i64(raw: &[i64]) -> (dims: Vec<usize>)
    ensures
        dims@.len() == raw@.len(),
        forall|i: int|
            0 <= i < raw@.len() ==> #[trigger] dims@[i] as int == if 0 <= raw@[i] <= usize::MAX {
                raw@[i] as int
            } else {
                0
            },
{
    let mut dims: Vec<usize> = Vec::new();
    let mut i: usize = 0;
    while i < raw.len()
        invariant
            i <= raw.len(),
            dims@.len() == i,
            forall|j: int|
                0 <= j < i ==> #[trigger] dims@[j] as int == if 0 <= raw@[j] <= usize::MAX {
                    raw@[j] as int
                } else {
                    0
                },
        decreases raw.len() - i,
    {
        let value = raw[i];
        if value >= 0 && (value as u64) <= (usize::MAX as u64) {
            dims.push(value as usize);
        } else {
            dims.push(0);
        }
        i = i + 1;
    }
    dims
}

/// Convert to `i8`, saturating at the bounds.
pub fn saturate_i8(value: i32) -> (r: i8)
    ensures
        r as int == if value < -128 {
            -128
        } else if value > 127 {
            127
        } else {
            value as int
        },
{
    if value < -128 {
        -128
    } else if value > 127 {
        127
    } else {
        value as i8
    }
}

} // verus!

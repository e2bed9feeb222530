use coreml::error::CoreMLError;
use coreml::multi_array::checks::{
    check_alignment, check_concatenation, check_slice_copy, check_source_len, check_transfer,
    copy_element_size,
    dims_from_i64, expect_data_type, new_array_dimensions, normalize_axis, saturate_i8,
    strides_from_isize, typed_view_len, unsupported_scalar_store,
};
use coreml::multi_array::data_type::DataType;
use coreml::multi_array::extent::{is_c_contiguous, is_packed, storage_extent_from, storage_len_from};
use coreml::multi_array::iteration::{
    advance_index, for_each_index, indices_in_c_order, linear_index_checked, linear_index_to_indices, zero_indices,
};
use coreml::multi_array::layout::{element_byte_range, element_count, element_offset, storage_offset};
use coreml::multi_array::storage::{
    copy_strided, element_at, gather, read_element, scatter, store_at, write_element,
};

fn f32_bytes(values: &[f32]) -> Vec<u8> {
    values.iter().flat_map(|value| value.to_ne_bytes()).collect()
}

fn f32_values(bytes: &[u8]) -> Vec<f32> {
    bytes
        .chunks(4)
        .map(|chunk| f32::from_ne_bytes([chunk[0], chunk[1], chunk[2], chunk[3]]))
        .collect()
}

#[test]
fn data_type_raw_values_round_trip_and_keep_unknown_values() {
    for data_type in [
        DataType::Float64,
        DataType::Float32,
        DataType::Float16,
        DataType::Int32,
        DataType::Int8,
    ] {
        assert_eq!(DataType::from_ffi(data_type.as_ffi()), data_type);
    }
    assert_eq!(DataType::from_ffi(0x20000 | 8), DataType::Int8);
    assert_eq!(DataType::from_ffi(0x20000 | 16), DataType::Unknown(0x20000 | 16));
    assert_eq!(DataType::Unknown(5).as_ffi(), 5);
    assert_eq!(DataType::from_ffi(1 << 40), DataType::Unknown(1 << 40));
}

#[test]
fn strided_gather_skips_padding() {
    let storage = f32_bytes(&[1.0, 2.0, 3.0, -1.0, -1.0, 4.0, 5.0, 6.0]);
    let values = f32_values(&gather(&storage, &[2, 3], &[5, 1], 4).unwrap());
    assert_eq!(values, [1.0, 2.0, 3.0, 4.0, 5.0, 6.0]);
}

#[test]
fn strided_scatter_leaves_padding_untouched() {
    let mut storage = f32_bytes(&[-1.0; 8]);
    scatter(&mut storage, &[2, 3], &[5, 1], &f32_bytes(&[1.0, 2.0, 3.0, 4.0, 5.0, 6.0]), 4)
        .unwrap();
    let values = f32_values(&gather(&storage, &[8], &[1], 4).unwrap());
    assert_eq!(values, [1.0, 2.0, 3.0, -1.0, -1.0, 4.0, 5.0, 6.0]);
}

#[test]
fn strided_copy_repacks_into_a_contiguous_layout() {
    let source = f32_bytes(&[1.0, -1.0, 2.0, -1.0, 3.0, -1.0, 4.0, -1.0]);
    let mut destination = vec![0_u8; 4 * 4];
    copy_strided(&source, &[4, 2], &mut destination, &[2, 1], &[2, 2], 4).unwrap();
    let values = f32_values(&gather(&destination, &[4], &[1], 4).unwrap());
    assert_eq!(values, [1.0, 2.0, 3.0, 4.0]);
}

#[test]
fn offsets_outside_the_storage_are_errors_not_reads() {
    let storage = f32_bytes(&[1.0, 2.0]);
    assert!(gather(&storage, &[2, 2], &[2, 1], 4).is_err());
    assert!(read_element(&storage, 2, 4).is_err());
    assert!(read_element(&storage, usize::MAX, 4).is_err());
    let mut short = vec![0_u8; 4];
    assert!(scatter(&mut short, &[2], &[1], &f32_bytes(&[1.0, 2.0]), 4).is_err());
    let mut destination = vec![0_u8; 8];
    assert!(copy_strided(&storage, &[3], &mut destination, &[1], &[2], 4).is_err());
}

#[test]
fn element_offsets_validate_indices_and_overflow() {
    assert_eq!(element_offset(&[1, 2], &[2, 3], &[5, 1]).unwrap(), 7);
    assert!(matches!(
        element_offset(&[2, 0], &[2, 3], &[3, 1]),
        Err(CoreMLError::IndexOutOfRange(_))
    ));
    assert!(matches!(
        element_offset(&[0], &[2, 3], &[3, 1]),
        Err(CoreMLError::IndexOutOfRange(_))
    ));
    assert!(element_offset(&[1, 1], &[2, 2], &[usize::MAX, 1]).is_err());
    assert!(element_offset(&[1, 1], &[2, 2], &[1]).is_err());
}

#[test]
fn contiguity_ignores_unit_dimensions() {
    assert!(is_c_contiguous(&[2, 3], &[3, 1]));
    assert!(is_c_contiguous(&[1, 3], &[99, 1]));
    assert!(!is_c_contiguous(&[2, 3], &[5, 1]));
    assert!(!is_c_contiguous(&[2, 3], &[1, 2]));
    assert!(!is_c_contiguous(&[2], &[1, 1]));
}

#[test]
fn index_iteration_is_c_order() {
    let mut visited = Vec::new();
    for_each_index(&[2, 2], |indices| {
        visited.push(indices.to_vec());
        Ok(())
    })
    .unwrap();
    assert_eq!(visited, [[0, 0], [0, 1], [1, 0], [1, 1]]);
    let mut count = 0;
    for_each_index(&[3, 0], |_| {
        count += 1;
        Ok(())
    })
    .unwrap();
    assert_eq!(count, 0);
    assert_eq!(linear_index_to_indices(5, &[2, 3]), Some(vec![1, 2]));
    assert_eq!(linear_index_to_indices(6, &[2, 3]), None);
    assert_eq!(linear_index_to_indices(0, &[0, 3]), None);
}

#[test]
fn int8_conversion_saturates() {
    assert_eq!(saturate_i8(300), i8::MAX);
    assert_eq!(saturate_i8(-300), i8::MIN);
    assert_eq!(saturate_i8(-5), -5);
}

#[test]
fn contiguous_extent_matches_product_of_dims() {
    assert_eq!(storage_extent_from(&[2, 3], &[3, 1]), Some(6));
    assert_eq!(storage_extent_from(&[2, 3, 4], &[12, 4, 1]), Some(24));
}

#[test]
fn strided_extent_accounts_for_padding() {
    assert_eq!(storage_extent_from(&[2, 3], &[5, 1]), Some(8));
    assert_eq!(storage_extent_from(&[2, 3], &[6, 2]), Some(11));
}

#[test]
fn scalar_and_zero_dim_edge_cases() {
    assert_eq!(storage_extent_from(&[], &[]), Some(1));
    assert_eq!(storage_extent_from(&[0, 4], &[4, 1]), Some(0));
}

#[test]
fn mismatched_lengths_and_overflow_return_none() {
    assert_eq!(storage_extent_from(&[2, 3], &[3]), None);
    assert_eq!(storage_extent_from(&[2, 2], &[usize::MAX, 1]), None);
}

#[test]
fn any_zero_dimension_gives_an_empty_extent_even_where_strides_would_overflow() {
    assert_eq!(storage_extent_from(&[0, 2], &[1, usize::MAX]), Some(0));
    assert_eq!(storage_extent_from(&[2, 0], &[usize::MAX, 1]), Some(0));
    assert_eq!(storage_extent_from(&[3, 2, 0], &[usize::MAX, usize::MAX, 1]), Some(0));
}

#[test]
fn storage_length_falls_back_to_the_element_count() {
    assert_eq!(storage_len_from(&[2, 3], &[5, 1], 6), 8);
    assert_eq!(storage_len_from(&[2, 3], &[3], 6), 6);
    assert!(is_packed(&[2, 3], &[3, 1], 6));
    assert!(!is_packed(&[2, 3], &[5, 1], 6));
}

#[test]
fn element_counts_report_overflow() {
    assert_eq!(element_count(&[2, 3, 4]).unwrap(), 24);
    assert_eq!(element_count(&[]).unwrap(), 1);
    assert_eq!(element_count(&[5, 0]).unwrap(), 0);
    let error = element_count(&[usize::MAX, 2]).unwrap_err();
    assert_eq!(
        error,
        CoreMLError::InvalidArgument(format!(
            "multi-array shape [{}, 2] overflows the addressable element count",
            usize::MAX
        ))
    );
}

#[test]
fn storage_offsets_name_stride_count_mismatches() {
    assert_eq!(storage_offset(&[1, 2], &[5, 1]).unwrap(), 7);
    assert_eq!(
        storage_offset(&[1, 2], &[5]).unwrap_err(),
        CoreMLError::MultiArrayFailed("MLMultiArray reported 1 strides for rank 2".to_owned())
    );
    assert_eq!(
        storage_offset(&[2], &[usize::MAX]).unwrap_err(),
        CoreMLError::MultiArrayFailed("MLMultiArray element offset overflowed".to_owned())
    );
    assert_eq!(
        element_offset(&[0], &[2, 3], &[3, 1]).unwrap_err(),
        CoreMLError::IndexOutOfRange(
            "expected 2 indices for a rank-2 MLMultiArray, got 1".to_owned()
        )
    );
}

#[test]
fn byte_ranges_are_checked_against_the_storage() {
    assert_eq!(element_byte_range(2, 16, 4).unwrap(), 8..12);
    assert!(element_byte_range(4, 16, 4).is_err());
    assert!(element_byte_range(usize::MAX, 16, 2).is_err());
}

#[test]
fn elements_are_read_and_written_at_their_offsets() {
    let mut storage = f32_bytes(&[1.0, 2.0, 3.0]);
    assert_eq!(f32_values(&read_element(&storage, 1, 4).unwrap()), [2.0]);
    write_element(&mut storage, 2, &9.0_f32.to_ne_bytes()).unwrap();
    assert_eq!(f32_values(&storage), [1.0, 2.0, 9.0]);
    let before = storage.clone();
    assert!(write_element(&mut storage, 3, &1.0_f32.to_ne_bytes()).is_err());
    assert_eq!(storage, before);
}

#[test]
fn indexed_access_reads_and_writes_through_strides() {
    let mut storage = f32_bytes(&[1.0, 2.0, 3.0, -1.0, -1.0, 4.0, 5.0, 6.0]);
    let value = element_at(&storage, &[1, 2], &[2, 3], &[5, 1], 4).unwrap();
    assert_eq!(f32_values(&value), [6.0]);
    store_at(&mut storage, &[1, 0], &[2, 3], &[5, 1], &7.5_f32.to_ne_bytes()).unwrap();
    assert_eq!(f32_values(&storage), [1.0, 2.0, 3.0, -1.0, -1.0, 7.5, 5.0, 6.0]);
    assert!(matches!(
        element_at(&storage, &[2, 0], &[2, 3], &[5, 1], 4),
        Err(CoreMLError::IndexOutOfRange(_))
    ));
    let before = storage.clone();
    assert!(store_at(&mut storage, &[1, 2], &[2, 3], &[6, 1], &[0, 0, 0, 0]).is_err());
    assert_eq!(storage, before);
}

#[test]
fn contiguous_gather_copies_the_leading_bytes() {
    let storage = f32_bytes(&[1.0, 2.0, 3.0, 4.0, 5.0]);
    let values = f32_values(&gather(&storage, &[2, 2], &[2, 1], 4).unwrap());
    assert_eq!(values, [1.0, 2.0, 3.0, 4.0]);
    assert_eq!(
        gather(&storage, &[2, 3], &[3, 1], 4).unwrap_err(),
        CoreMLError::MultiArrayFailed("MLMultiArray storage is shorter than its shape".to_owned())
    );
    assert_eq!(
        gather(&storage, &[2, 3], &[5, 1], 4).unwrap_err(),
        CoreMLError::MultiArrayFailed(
            "MLMultiArray element offset lies outside its storage".to_owned()
        )
    );
    assert_eq!(gather(&storage, &[0, 3], &[3, 1], 4).unwrap(), Vec::<u8>::new());
}

#[test]
fn scatter_reports_a_short_source_after_writing_what_it_had() {
    let mut storage = vec![0_u8; 3];
    let error = scatter(&mut storage, &[3], &[1], &[7, 8], 1).unwrap_err();
    assert_eq!(
        error,
        CoreMLError::MultiArrayFailed("source slice ended before the multi-array".to_owned())
    );
    assert_eq!(storage, [7, 8, 0]);
}

#[test]
fn scatter_then_gather_gives_the_source_back() {
    let source = f32_bytes(&[1.0, 2.0, 3.0, 4.0, 5.0, 6.0]);
    let mut storage = f32_bytes(&[0.0; 12]);
    scatter(&mut storage, &[2, 3], &[6, 2], &source, 4).unwrap();
    assert_eq!(gather(&storage, &[2, 3], &[6, 2], 4).unwrap(), source);
}

#[test]
fn copy_then_gather_reads_the_same_elements() {
    let source = f32_bytes(&[1.0, -1.0, 2.0, -1.0, 3.0, -1.0, 4.0, -1.0]);
    let mut destination = f32_bytes(&[0.0; 6]);
    copy_strided(&source, &[4, 2], &mut destination, &[3, 1], &[2, 2], 4).unwrap();
    assert_eq!(
        gather(&destination, &[2, 2], &[3, 1], 4).unwrap(),
        gather(&source, &[2, 2], &[4, 2], 4).unwrap()
    );
    assert_eq!(f32_values(&destination), [1.0, 2.0, 0.0, 3.0, 4.0, 0.0]);
}

#[test]
fn odometer_steps_in_c_order_and_wraps() {
    let mut indices = zero_indices(2);
    let mut seen = Vec::new();
    for _ in 0..7 {
        seen.push(indices.clone());
        advance_index(&mut indices, &[2, 3]);
    }
    assert_eq!(
        seen,
        [[0, 0], [0, 1], [0, 2], [1, 0], [1, 1], [1, 2], [0, 0]]
    );
}

#[test]
fn linear_indices_past_the_end_are_errors() {
    assert_eq!(linear_index_checked(4, &[2, 3]).unwrap(), vec![1, 1]);
    assert_eq!(
        linear_index_checked(6, &[2, 3]).unwrap_err(),
        CoreMLError::IndexOutOfRange("linear index is outside the multi-array bounds".to_owned())
    );
}

#[test]
fn data_types_know_their_sizes_and_names() {
    assert_eq!(DataType::Float64.element_size(), Some(8));
    assert_eq!(DataType::Float32.element_size(), Some(4));
    assert_eq!(DataType::Int32.element_size(), Some(4));
    assert_eq!(DataType::Float16.element_size(), Some(2));
    assert_eq!(DataType::Int8.element_size(), Some(1));
    assert_eq!(DataType::Unknown(7).element_size(), None);
    assert_eq!(DataType::Unknown(-3).debug_text(), format!("{:?}", DataType::Unknown(-3)));
    assert_eq!(DataType::Float16.debug_text(), "Float16");
    assert_eq!(DataType::Unknown(0x10000 | 32).as_ffi(), DataType::Float32.as_ffi());
    assert_eq!(DataType::from_ffi(DataType::Unknown(0x10000 | 32).as_ffi()), DataType::Float32);
}

#[test]
fn element_types_must_match() {
    assert!(expect_data_type(DataType::Float32, DataType::Float32).is_ok());
    assert_eq!(
        expect_data_type(DataType::Int8, DataType::Float32).unwrap_err(),
        CoreMLError::TypeMismatch("MLMultiArray stores Int8 elements, not Float32".to_owned())
    );
}

#[test]
fn new_arrays_validate_type_counts_and_dimensions() {
    assert_eq!(new_array_dimensions(&[2, 3], DataType::Float32).unwrap(), vec![2_i64, 3]);
    assert_eq!(
        new_array_dimensions(&[2], DataType::Unknown(1)).unwrap_err(),
        CoreMLError::InvalidArgument(
            "cannot allocate an MLMultiArray with unsupported data type Unknown(1)".to_owned()
        )
    );
    assert!(matches!(
        new_array_dimensions(&[usize::MAX, 2], DataType::Int8),
        Err(CoreMLError::InvalidArgument(message)) if message.ends_with("addressable element count")
    ));
    assert_eq!(
        new_array_dimensions(&[usize::MAX / 2], DataType::Float64).unwrap_err(),
        CoreMLError::InvalidArgument(format!(
            "multi-array shape [{}] overflows the addressable byte count",
            usize::MAX / 2
        ))
    );
    assert_eq!(
        new_array_dimensions(&[usize::MAX], DataType::Int8).unwrap_err(),
        CoreMLError::InvalidArgument(format!(
            "multi-array dimension {} does not fit in Int64",
            usize::MAX
        ))
    );
}

#[test]
fn axes_are_normalized_from_either_end() {
    assert_eq!(normalize_axis(1, 3).unwrap(), 1);
    assert_eq!(normalize_axis(-1, 3).unwrap(), 2);
    assert_eq!(normalize_axis(-4, 3).unwrap(), 2);
    assert_eq!(normalize_axis(7, 3).unwrap(), 1);
    assert_eq!(normalize_axis(isize::MIN, 3).unwrap(), isize::MIN.rem_euclid(3) as usize);
    assert_eq!(
        normalize_axis(0, 0).unwrap_err(),
        CoreMLError::InvalidArgument("cannot select an axis for a rank-0 MLMultiArray".to_owned())
    );
}

#[test]
fn concatenation_inputs_are_validated_in_order() {
    let shapes = vec![vec![2, 3], vec![4, 3]];
    let types = [DataType::Float32, DataType::Float32];
    assert_eq!(check_concatenation(&shapes, &types, 0, DataType::Float32).unwrap(), 0);
    assert_eq!(check_concatenation(&shapes, &types, -2, DataType::Float32).unwrap(), 0);
    assert_eq!(
        check_concatenation(&shapes, &types, 1, DataType::Float32).unwrap_err(),
        CoreMLError::InvalidArgument(
            "all MLMultiArray dimensions except axis 1 must match".to_owned()
        )
    );
    assert_eq!(
        check_concatenation(&[], &[], 0, DataType::Float32).unwrap_err(),
        CoreMLError::InvalidArgument(
            "at least one MLMultiArray is required for concatenation".to_owned()
        )
    );
    assert_eq!(
        check_concatenation(&shapes, &types, 0, DataType::Unknown(9)).unwrap_err(),
        CoreMLError::InvalidArgument(
            "cannot concatenate into unsupported data type Unknown(9)".to_owned()
        )
    );
    assert_eq!(
        check_concatenation(&[vec![]], &[DataType::Int8], 0, DataType::Int8).unwrap_err(),
        CoreMLError::InvalidArgument("cannot concatenate scalar MLMultiArray values".to_owned())
    );
    assert_eq!(
        check_concatenation(
            &[vec![2, 3], vec![2]],
            &[DataType::Int8, DataType::Int8],
            0,
            DataType::Int8
        )
        .unwrap_err(),
        CoreMLError::InvalidArgument(
            "all MLMultiArray values must have the same rank for concatenation".to_owned()
        )
    );
    assert_eq!(
        check_concatenation(
            &[vec![2, 3], vec![2]],
            &[DataType::Int8, DataType::Unknown(4)],
            0,
            DataType::Int8
        )
        .unwrap_err(),
        CoreMLError::TypeMismatch(
            "cannot concatenate an MLMultiArray with unsupported data type Unknown(4)".to_owned()
        )
    );
}

#[test]
fn transfers_need_equal_shapes_and_known_types() {
    assert!(check_transfer(&[2, 2], DataType::Float32, &[2, 2], DataType::Int32).is_ok());
    assert_eq!(
        check_transfer(&[2, 2], DataType::Float32, &[4], DataType::Float32).unwrap_err(),
        CoreMLError::InvalidArgument(
            "cannot transfer a [2, 2] MLMultiArray into a [4] one".to_owned()
        )
    );
    assert_eq!(
        check_transfer(&[2], DataType::Float32, &[2], DataType::Unknown(3)).unwrap_err(),
        CoreMLError::TypeMismatch(
            "cannot transfer an MLMultiArray with unsupported data type Unknown(3)".to_owned()
        )
    );
    assert_eq!(copy_element_size(DataType::Float16).unwrap(), 2);
    assert!(matches!(copy_element_size(DataType::Unknown(0)), Err(CoreMLError::TypeMismatch(_))));
    assert!(matches!(
        unsupported_scalar_store(DataType::Unknown(2)),
        CoreMLError::TypeMismatch(message) if message.ends_with("Unknown(2)")
    ));
}

#[test]
fn sources_must_fill_the_array_exactly() {
    assert_eq!(check_source_len(6, &[2, 3]).unwrap(), 6);
    assert_eq!(
        check_source_len(5, &[2, 3]).unwrap_err(),
        CoreMLError::MultiArrayFailed(
            "source slice length (5) does not match the multi-array element count (6)".to_owned()
        )
    );
}

#[test]
fn storage_alignment_is_checked() {
    let values = [1.0_f32, 2.0, 3.0];
    let address = values.as_ptr() as usize;
    assert!(check_alignment(address, core::mem::align_of::<f32>(), "f32").is_ok());
    assert_eq!(
        check_alignment(address + 1, core::mem::align_of::<f32>(), "f32").unwrap_err(),
        CoreMLError::MultiArrayFailed("MLMultiArray storage is not aligned for f32".to_owned())
    );
}

#[test]
fn raw_strides_and_dimensions_are_converted() {
    assert_eq!(strides_from_isize(&[6, 2, 1]).unwrap(), vec![6, 2, 1]);
    assert_eq!(
        strides_from_isize(&[6, -2, -1]).unwrap_err(),
        CoreMLError::MultiArrayFailed(
            "MLMultiArray reported an unsupported negative stride -2".to_owned()
        )
    );
    assert_eq!(dims_from_i64(&[3, -1, 0, 7]), vec![3, 0, 0, 7]);
}

#[test]
fn index_list_is_c_order() {
    let listed = indices_in_c_order(&[2, 2]).unwrap();
    assert_eq!(listed, [[0, 0], [0, 1], [1, 0], [1, 1]]);
    assert_eq!(indices_in_c_order(&[3, 0]).unwrap().len(), 0);
    assert_eq!(indices_in_c_order(&[]).unwrap(), vec![Vec::<usize>::new()]);
}

#[test]
fn index_visit_stops_at_the_first_error() {
    let mut visited = Vec::new();
    let outcome = for_each_index(&[2, 3], |indices| {
        visited.push(indices.to_vec());
        if indices == [1, 0] {
            Err(CoreMLError::InvalidArgument("stop".to_owned()))
        } else {
            Ok(())
        }
    });
    assert_eq!(outcome, Err(CoreMLError::InvalidArgument("stop".to_owned())));
    assert_eq!(visited, [vec![0, 0], vec![0, 1], vec![0, 2], vec![1, 0]]);
}

#[test]
fn index_visit_checks_the_count_before_any_call() {
    let mut calls = 0;
    let outcome = for_each_index(&[usize::MAX, 2], |_| {
        calls += 1;
        Ok(())
    });
    assert!(matches!(outcome, Err(CoreMLError::InvalidArgument(_))));
    assert_eq!(calls, 0);
    let mut scalar_calls = Vec::new();
    for_each_index(&[], |indices| {
        scalar_calls.push(indices.to_vec());
        Ok(())
    })
    .unwrap();
    assert_eq!(scalar_calls, vec![Vec::<usize>::new()]);
}

#[test]
fn aliased_writes_keep_the_later_position() {
    let mut storage = vec![0_u8; 3];
    scatter(&mut storage, &[2], &[0], &[7, 9], 1).unwrap();
    assert_eq!(storage, [9, 0, 0]);
    let source = vec![1_u8, 2, 3, 4];
    let mut destination = vec![0_u8; 2];
    copy_strided(&source, &[1, 2], &mut destination, &[0, 1], &[2, 2], 1).unwrap();
    assert_eq!(destination, [2, 4]);
}

#[test]
fn scatter_needs_every_source_element_and_every_location() {
    let mut storage = vec![0_u8; 4];
    scatter(&mut storage, &[2], &[2], &[5, 6], 1).unwrap();
    assert_eq!(storage, [5, 0, 6, 0]);
    let mut storage = vec![0_u8; 4];
    assert_eq!(
        scatter(&mut storage, &[2], &[2], &[5], 1),
        Err(CoreMLError::MultiArrayFailed("source slice ended before the multi-array".to_owned()))
    );
    assert_eq!(storage, [5, 0, 0, 0]);
    let mut storage = vec![0_u8; 2];
    assert_eq!(
        scatter(&mut storage, &[2], &[2], &[5, 6], 1),
        Err(CoreMLError::MultiArrayFailed(
            "MLMultiArray element offset lies outside its storage".to_owned()
        ))
    );
}

#[test]
fn slice_copies_check_the_type_before_the_length() {
    assert!(matches!(
        check_slice_copy(DataType::Int32, DataType::Float32, 1, &[2, 3]),
        Err(CoreMLError::TypeMismatch(_))
    ));
    assert_eq!(
        check_slice_copy(DataType::Float32, DataType::Float32, 5, &[2, 3]),
        Err(CoreMLError::MultiArrayFailed(
            "source slice length (5) does not match the multi-array element count (6)".to_owned()
        ))
    );
    assert_eq!(check_slice_copy(DataType::Float32, DataType::Float32, 6, &[2, 3]), Ok(6));
}

#[test]
fn typed_slices_require_alignment() {
    let values = [1.0_f32, 2.0, 3.0];
    let address = values.as_ptr() as usize;
    let align = core::mem::align_of::<f32>();
    assert_eq!(typed_view_len(address, 12, align, 4, "f32"), Ok(3));
    assert_eq!(
        typed_view_len(address + 1, 11, align, 4, "f32"),
        Err(CoreMLError::MultiArrayFailed("MLMultiArray storage is not aligned for f32".to_owned()))
    );
    assert_eq!(typed_view_len(address + 1, 0, align, 4, "f32"), Ok(0));
}

#[test]
fn scattered_elements_are_found_at_their_index_tuples() {
    let mut storage = vec![0_u8; 6];
    scatter(&mut storage, &[2, 2], &[3, 1], &[1, 2, 3, 4], 1).unwrap();
    assert_eq!(storage, [1, 2, 0, 3, 4, 0]);
    for (position, idx) in [[0, 0], [0, 1], [1, 0], [1, 1]].iter().enumerate() {
        assert_eq!(element_at(&storage, idx, &[2, 2], &[3, 1], 1).unwrap(), vec![position as u8 + 1]);
    }
}

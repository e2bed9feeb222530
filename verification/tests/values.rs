use std::time::Duration;

use coreml::blocking::{timeout_from_nanos, timeout_to_nanos};
use coreml::bridge::{
    check_c_text, check_specification, compile_completion, state_buffer_unavailable, storage_unavailable,
};
use coreml::callback_args::{
    check_items_present, check_pointer_list, check_weight_arrays, check_weight_blobs,
};
use coreml::configuration::{ComputeUnits, ModelConfiguration, PredictionOptions};
use coreml::error::{from_status_message, status_ok, CoreMLError};
use coreml::feature::{feature_json, validate_feature_type, FeatureJson, FeatureReadings, FeatureType};
use coreml::json::{
    decode_int64_values, decode_keys, decode_output_shapes, decode_string_values,
    encode_input_shapes, encode_output_shapes, parse_shapes_payload,
};
use coreml::ml_key::MLKey;
use coreml::model_error::{MLModelError, ML_MODEL_ERROR_DOMAIN};
use coreml::status;

fn round_trip(timeout: Option<Duration>) -> Option<Duration> {
    timeout_from_nanos(timeout_to_nanos(timeout.map(|t| t.as_nanos()))).map(Duration::from_nanos)
}

#[test]
fn blocking_timeout_round_trips_and_defaults_to_waiting() {
    assert_eq!(timeout_from_nanos(0), None);
    assert_eq!(
        round_trip(Some(Duration::from_millis(1500))),
        Some(Duration::from_millis(1500))
    );
    assert_eq!(round_trip(Some(Duration::ZERO)), Some(Duration::from_nanos(1)));
    assert_eq!(round_trip(Some(Duration::MAX)), Some(Duration::from_nanos(u64::MAX)));
    assert_eq!(round_trip(None), None);
}

#[test]
fn error_codes_and_messages_round_trip_through_status() {
    let error = from_status_message(status::INDEX_OUT_OF_RANGE, "out".to_owned());
    assert_eq!(error, CoreMLError::IndexOutOfRange("out".to_owned()));
    assert_eq!(error.code(), status::INDEX_OUT_OF_RANGE);
    assert_eq!(error.message(), "out");
    assert_eq!(
        from_status_message(-42, "odd".to_owned()),
        CoreMLError::Unknown { code: -42, message: "odd".to_owned() }
    );
    assert_eq!(
        from_status_message(status::UPDATE_FAILED, "u".to_owned()),
        CoreMLError::Unknown { code: status::UPDATE_FAILED, message: "u".to_owned() }
    );
    assert_eq!(CoreMLError::TypeMismatch("t".to_owned()).code(), status::MULTI_ARRAY_FAILED);
    assert_eq!(CoreMLError::UpdateFailed("u".to_owned()).code(), status::UPDATE_FAILED);
    for (code, message) in [(status::INVALID_ARGUMENT, "a"), (status::TIMED_OUT, "b"), (7, "c")] {
        let error = from_status_message(code, message.to_owned());
        assert_eq!(from_status_message(error.code(), error.message().to_owned()), error);
    }
}

#[test]
fn errors_display_their_message_and_code() {
    assert_eq!(
        CoreMLError::InvalidArgument("bad input".to_owned()).display_text(),
        "bad input (code -1)"
    );
    assert_eq!(
        CoreMLError::Unknown { code: 12, message: "x".to_owned() }.display_text(),
        "x (code 12)"
    );
}

#[test]
fn status_ok_maps_failures_to_errors() {
    assert!(status_ok(status::OK, "never").is_ok());
    assert_eq!(
        status_ok(status::FEATURE_PROVIDER_FAILED, "failed to insert int64").unwrap_err(),
        CoreMLError::FeatureProviderFailed("failed to insert int64".to_owned())
    );
}

#[test]
fn configuration_builders_set_one_field_each() {
    let configuration = ModelConfiguration::new();
    assert_eq!(configuration.compute_units(), ComputeUnits::All);
    assert!(!configuration.allow_low_precision_accumulation_on_gpu());
    assert_eq!(configuration.display_name(), None);
    let configuration = configuration
        .with_compute_units(ComputeUnits::CpuAndNeuralEngine)
        .with_allow_low_precision_accumulation_on_gpu(true)
        .with_display_name("demo");
    assert_eq!(configuration.compute_units(), ComputeUnits::CpuAndNeuralEngine);
    assert!(configuration.allow_low_precision_accumulation_on_gpu());
    assert_eq!(configuration.display_name(), Some("demo"));
    assert_eq!(ComputeUnits::default(), ComputeUnits::All);
    assert_eq!(ComputeUnits::CpuOnly.as_ffi(), 0);
    assert_eq!(ComputeUnits::CpuAndGpu.as_ffi(), 1);
    assert_eq!(ComputeUnits::All.as_ffi(), 2);
    assert_eq!(ComputeUnits::CpuAndNeuralEngine.as_ffi(), 3);
}

#[test]
fn prediction_options_default_to_any_device() {
    let options = PredictionOptions::new();
    assert!(!options.uses_cpu_only());
    assert!(options.with_uses_cpu_only(true).uses_cpu_only());
    assert_eq!(PredictionOptions::default(), options);
}

#[test]
fn feature_types_round_trip_through_their_codes() {
    for raw in 0..=8 {
        let feature_type = FeatureType::from_ffi(raw).unwrap();
        assert_eq!(feature_type.as_ffi(), raw);
        assert_eq!(feature_type.debug_text(), format!("{feature_type:?}"));
    }
    assert_eq!(FeatureType::from_ffi(9), None);
    assert_eq!(FeatureType::from_ffi(-1), None);
}

#[test]
fn sequences_hold_only_strings_and_integers() {
    assert!(validate_feature_type(FeatureType::String).is_ok());
    assert!(validate_feature_type(FeatureType::Int64).is_ok());
    assert_eq!(
        validate_feature_type(FeatureType::Double).unwrap_err(),
        CoreMLError::InvalidArgument(
            "MLSequence supports only string and int64 values, got Double".to_owned()
        )
    );
}

#[test]
fn feature_json_prefers_string_readings() {
    let none = FeatureReadings {
        string_dictionary: false,
        int64_dictionary: false,
        sequence: false,
        string_sequence: false,
        int64_sequence: false,
    };
    assert_eq!(feature_json(FeatureType::Int64, none).unwrap(), FeatureJson::Int64);
    assert_eq!(feature_json(FeatureType::Dictionary, none).unwrap(), FeatureJson::Null);
    let both = FeatureReadings {
        string_dictionary: true,
        int64_dictionary: true,
        sequence: true,
        string_sequence: true,
        int64_sequence: true,
    };
    assert_eq!(
        feature_json(FeatureType::Dictionary, both).unwrap(),
        FeatureJson::StringDictionary
    );
    assert_eq!(feature_json(FeatureType::Sequence, both).unwrap(), FeatureJson::StringSequence);
    let ints = FeatureReadings { string_sequence: false, string_dictionary: false, ..both };
    assert_eq!(feature_json(FeatureType::Dictionary, ints).unwrap(), FeatureJson::Int64Dictionary);
    assert_eq!(feature_json(FeatureType::Sequence, ints).unwrap(), FeatureJson::Int64Sequence);
    assert_eq!(
        feature_json(FeatureType::Image, both).unwrap_err(),
        CoreMLError::FeatureProviderFailed(
            "feature type Image is not convertible to serde_json::Value".to_owned()
        )
    );
}

#[test]
fn model_error_codes_skip_two() {
    assert_eq!(ML_MODEL_ERROR_DOMAIN, "com.apple.CoreML");
    assert_eq!(MLModelError::from_code(2), None);
    assert_eq!(MLModelError::from_code(12), None);
    for code in [0, 1, 3, 4, 5, 6, 7, 8, 9, 10, 11] {
        assert_eq!(MLModelError::from_code(code).unwrap().code(), code);
    }
    assert_eq!(MLModelError::from_code(11), Some(MLModelError::PredictionCancelled));
}

#[test]
fn keys_keep_name_and_scope() {
    let key = MLKey::new("weights".to_owned(), Some("layer1".to_owned()));
    assert_eq!(key.name, "weights");
    assert_eq!(key.scope.as_deref(), Some("layer1"));
    assert!(MLKey::new("a".to_owned(), None) < MLKey::new("b".to_owned(), None));
}

#[test]
fn bridge_answers_without_results_become_errors() {
    assert_eq!(
        storage_unavailable(-6),
        CoreMLError::MultiArrayFailed("MLMultiArray storage access failed with status -6".to_owned())
    );
    assert_eq!(
        storage_unavailable(0),
        CoreMLError::MultiArrayFailed("MLMultiArray did not provide its storage".to_owned())
    );
    assert_eq!(
        state_buffer_unavailable(0, "kv", String::new()),
        CoreMLError::StateFailed("state buffer 'kv' was unavailable".to_owned())
    );
    assert_eq!(
        state_buffer_unavailable(status::UNSUPPORTED, "kv", "old OS".to_owned()),
        CoreMLError::Unsupported("old OS".to_owned())
    );
    assert_eq!(
        compile_completion(0, Some("/tmp/m.mlmodelc".to_owned()), String::new()),
        Ok("/tmp/m.mlmodelc".to_owned())
    );
    assert_eq!(
        compile_completion(0, None, String::new()),
        Err((
            status::COMPILATION_FAILED,
            "CoreML async compilation returned no compiled model path".to_owned()
        ))
    );
    assert_eq!(compile_completion(-4, None, "bad".to_owned()), Err((-4, "bad".to_owned())));
}

#[test]
fn callback_arguments_are_checked() {
    assert!(check_pointer_list(0, false, "custom-layer inputs").is_ok());
    assert_eq!(
        check_pointer_list(2, false, "custom-layer inputs").unwrap_err(),
        CoreMLError::InvalidArgument(
            "custom-layer inputs must not be null when count is non-zero".to_owned()
        )
    );
    assert_eq!(
        check_items_present(&[true, false, false], "custom-layer input").unwrap_err(),
        CoreMLError::InvalidArgument("custom-layer input 1 must not be null".to_owned())
    );
    assert!(check_weight_arrays(0, false, false).is_ok());
    assert!(check_weight_arrays(1, true, false).is_err());
    assert!(check_weight_blobs(&[0, 4], &[false, true]).is_ok());
    assert_eq!(
        check_weight_blobs(&[0, 4, 2], &[false, true, false]).unwrap_err(),
        CoreMLError::InvalidArgument(
            "custom-layer weight blob 2 was null despite having a non-zero length".to_owned()
        )
    );
}

#[test]
fn shape_lists_cross_the_bridge_as_json() {
    assert_eq!(decode_output_shapes("[[1,2],[3]]").unwrap(), vec![vec![1, 2], vec![3]]);
    assert!(matches!(
        decode_output_shapes("[[1,"),
        Err(CoreMLError::CustomLayerFailed(message))
            if message.starts_with("failed to decode custom-layer output-shape JSON: ")
    ));
    assert_eq!(encode_input_shapes(&[vec![2, 3], vec![]]).unwrap(), "[[2,3],[]]");
    assert_eq!(encode_output_shapes(&[vec![4]]).unwrap(), "[[4]]");
    assert_eq!(parse_shapes_payload("  \n").unwrap(), Vec::<Vec<usize>>::new());
    assert_eq!(parse_shapes_payload(" [[5]] ").unwrap(), vec![vec![5]]);
    assert!(matches!(
        parse_shapes_payload("{}"),
        Err(CoreMLError::InvalidArgument(message))
            if message.starts_with("failed to decode custom-layer JSON payload: ")
    ));
}

#[test]
fn sequence_and_key_lists_are_read_from_json() {
    assert_eq!(
        decode_string_values(r#"["a","b"]"#),
        Some(vec!["a".to_owned(), "b".to_owned()])
    );
    assert_eq!(decode_string_values("[1]"), None);
    assert_eq!(decode_int64_values("[1,-2,3]"), Some(vec![1, -2, 3]));
    assert_eq!(decode_int64_values(r#"["x"]"#), None);
    assert_eq!(decode_keys(r#"["input","output"]"#), vec!["input".to_owned(), "output".to_owned()]);
    assert_eq!(decode_keys("not json"), Vec::<String>::new());
}

#[test]
fn shape_lists_are_written_as_compact_json() {
    assert_eq!(encode_input_shapes(&[]).unwrap(), "[]");
    assert_eq!(encode_input_shapes(&[vec![]]).unwrap(), "[[]]");
    assert_eq!(
        encode_output_shapes(&[vec![1, 20, 300], vec![18446744073709551615]]).unwrap(),
        "[[1,20,300],[18446744073709551615]]"
    );
}

#[test]
fn blank_shape_payloads_allow_unicode_white_space() {
    assert_eq!(parse_shapes_payload("\u{3000}\u{a0}\t\u{2028}").unwrap(), Vec::<Vec<usize>>::new());
    assert_eq!(parse_shapes_payload("").unwrap(), Vec::<Vec<usize>>::new());
    assert!(matches!(
        parse_shapes_payload("\u{200b}"),
        Err(CoreMLError::InvalidArgument(_))
    ));
}

#[test]
fn empty_specification_data_is_refused() {
    assert_eq!(
        check_specification(&[]),
        Err(CoreMLError::InvalidArgument("model specification must not be empty".to_owned()))
    );
    assert_eq!(check_specification(&[0x0a, 0x01]), Ok(()));
}

#[test]
fn texts_with_nul_bytes_cannot_cross_to_the_bridge() {
    assert_eq!(check_c_text("MyLayer", "custom layer class name"), Ok(()));
    assert_eq!(
        check_c_text("é\0x", "state name"),
        Err(CoreMLError::InvalidArgument(
            "state name contains an interior NUL byte: nul byte found in provided data at position: 2"
                .to_owned()
        ))
    );
    assert_eq!(
        check_c_text("a\0b\0", "custom layer class name"),
        Err(CoreMLError::InvalidArgument(
            "custom layer class name contains an interior NUL byte: nul byte found in provided data at position: 1"
                .to_owned()
        ))
    );
}

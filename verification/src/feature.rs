//! Feature-value kinds, their bridge codes, and how a feature value is rendered as JSON.

use vstd::prelude::*;
use vstd::string::*;

use crate::error::CoreMLError;

verus! {

/// Public CoreML feature-value kinds.
#[derive(Debug, Clone, Copy, PartialEq, Eq, Structural)]
pub enum FeatureType {
    /// Invalid or unknown feature type.
    Invalid,
    /// Signed 64-bit integer feature.
    Int64,
    /// Double-precision floating-point feature.
    Double,
    /// UTF-8 string feature.
    String,
    /// Image / `CVPixelBuffer` feature.
    Image,
    /// `MLMultiArray` feature.
    MultiArray,
    /// Dictionary-valued feature.
    Dictionary,
    /// Sequence feature.
    Sequence,
    /// Stateful model feature.
    State,
}

/// Bridge code of a feature kind: its position in the list of kinds.
pub open spec fn feature_type_code(t: FeatureType) -> i32 {
    match t {
        FeatureType::Invalid => 0,
        FeatureType::Int64 => 1,
        FeatureType::Double => 2,
        FeatureType::String => 3,
        FeatureType::Image => 4,
        FeatureType::MultiArray => 5,
        FeatureType::Dictionary => 6,
        FeatureType::Sequence => 7,
        FeatureType::State => 8,
    }
}

/// The name of a feature kind as it appears in messages.
pub open spec fn feature_type_text(t: FeatureType) -> Seq<char> {
    match t {
        FeatureType::Invalid => "Invalid"@,
        FeatureType::Int64 => "Int64"@,
        FeatureType::Double => "Double"@,
        FeatureType::String => "String"@,
        FeatureType::Image => "Image"@,
        FeatureType::MultiArray => "MultiArray"@,
        FeatureType::Dictionary => "Dictionary"@,
        FeatureType::Sequence => "Sequence"@,
        FeatureType::State => "State"@,
    }
}

impl FeatureType {
    /// The feature kind a bridge code names, or `None` for a code outside `0..=8`.
    pub fn from_ffi(raw: i32) -> (t: Option<FeatureType>)
        ensures
            t is Some <==> 0 <= raw <= 8,
            t matches Some(k) ==> feature_type_code(k) == raw,
    {
        match raw {
            0 => Some(FeatureType::Invalid),
            1 => Some(FeatureType::Int64),
            2 => Some(FeatureType::Double),
            3 => Some(FeatureType::String),
            4 => Some(FeatureType::Image),
            5 => Some(FeatureType::MultiArray),
            6 => Some(FeatureType::Dictionary),
            7 => Some(FeatureType::Sequence),
            8 => Some(FeatureType::State),
            _ => None,
        }
    }

    /// Bridge code of this feature kind.
    pub fn as_ffi(self) -> (raw: i32)
        ensures
            raw == feature_type_code(self),
    {
        match self {
            FeatureType::Invalid => 0,
            FeatureType::Int64 => 1,
            FeatureType::Double => 2,
            FeatureType::String => 3,
            FeatureType::Image => 4,
            FeatureType::MultiArray => 5,
            FeatureType::Dictionary => 6,
            FeatureType::Sequence => 7,
            FeatureType::State => 8,
        }
    }

    /// The name of this feature kind as it appears in messages.
    pub fn debug_text(&self) -> (s: String)
        ensures
            s@ == feature_type_text(*self),
    {
        match self {
            FeatureType::Invalid => String::from_str("Invalid"),
            FeatureType::Int64 => String::from_str("Int64"),
            FeatureType::Double => String::from_str("Double"),
            FeatureType::String => String::from_str("String"),
            FeatureType::Image => String::from_str("Image"),
            FeatureType::MultiArray => String::from_str("MultiArray"),
            FeatureType::Dictionary => String::from_str("Dictionary"),
            FeatureType::Sequence => String::from_str("Sequence"),
            FeatureType::State => String::from_str("State"),
        }
    }
}

/// Every feature kind survives a trip through its bridge code, and distinct kinds have
/// distinct codes.
pub proof fn lemma_feature_type_code_round_trip(t: FeatureType, u: FeatureType)
    ensures
        0 <= feature_type_code(t) <= 8,
        feature_type_code(t) == feature_type_code(u) ==> t == u,
{
}

/// The names of CoreML's `MLFeatureType` cases, in the order of their raw values: `invalid`
/// is 0, `int64` 1, `double` 2, `string` 3, `image` 4, `multiArray` 5, `dictionary` 6,
/// `sequence` 7 and `state` 8.
pub open spec fn ml_feature_type_names() -> Seq<Seq<char>> {
    seq![
        "Invalid"@,
        "Int64"@,
        "Double"@,
        "String"@,
        "Image"@,
        "MultiArray"@,
        "Dictionary"@,
        "Sequence"@,
        "State"@,
    ]
}

/// The bridge code of each feature kind is the raw value of the `MLFeatureType` case of the same
/// name, and every such raw value decodes to the kind of that name.
pub proof fn lemma_feature_type_code_is_ml_raw_value(t: FeatureType, raw: int)
    ensures
        ml_feature_type_names()[feature_type_code(t) as int] == feature_type_text(t),
        0 <= raw < ml_feature_type_names().len() && feature_type_text(t)
            == ml_feature_type_names()[raw] ==> feature_type_code(t) == raw,
{
    reveal_strlit("Invalid");
    reveal_strlit("Int64");
    reveal_strlit("Double");
    reveal_strlit("String");
    reveal_strlit("Image");
    reveal_strlit("MultiArray");
    reveal_strlit("Dictionary");
    reveal_strlit("Sequence");
    reveal_strlit("State");
    let names = ml_feature_type_names();
    assert forall|i: int, j: int| 0 <= i < 9 && 0 <= j < 9 && i != j implies names[i] != names[j] by {
        if names[i].len() == names[j].len() {
            assert(names[i][0] != names[j][0] || names[i][1] != names[j][1]);
        }
    }
}

/// Crop-and-scale strategies accepted by CoreML image conversion helpers.
#[derive(Debug, Clone, Copy, PartialEq, Eq, Structural)]
pub enum ImageCropAndScale {
    /// Crop around the center after preserving aspect ratio.
    CenterCrop,
    /// Fit the image while preserving aspect ratio.
    ScaleFit,
    /// Fill the destination size.
    ScaleFill,
    /// Scale-to-fit after a 90° counter-clockwise rotation.
    ScaleFitRotate90Ccw,
    /// Scale-to-fill after a 90° counter-clockwise rotation.
    ScaleFillRotate90Ccw,
}

/// Check that a sequence may hold values of a feature kind: only strings and 64-bit integers.
pub fn validate_feature_type(feature_type: FeatureType) -> (r: Result<(), CoreMLError>)
    ensures
        r is Ok <==> (feature_type == FeatureType::String || feature_type == FeatureType::Int64),
        r matches Err(e) ==> (e matches CoreMLError::InvalidArgument(m) && m@
            == "MLSequence supports only string and int64 values, got "@ + feature_type_text(
            feature_type,
        )),
{
    match feature_type {
        FeatureType::String | FeatureType::Int64 => Ok(()),
        other => {
            let mut m = String::from_str("MLSequence supports only string and int64 values, got ");
            let t = other.debug_text();
            m.append(t.as_str());
            Err(CoreMLError::InvalidArgument(m))
        },
    }
}

/// Which of a feature value's representations its JSON rendering uses.
#[derive(Debug, Clone, Copy, PartialEq, Eq, Structural)]
pub enum FeatureJson {
    /// The integer value, or `null` when it cannot be read.
    Int64,
    /// The double value, or `null` when it cannot be read.
    Double,
    /// The string value, or `null` when it cannot be read.
    String,
    /// The string-keyed dictionary.
    StringDictionary,
    /// The integer-keyed dictionary.
    Int64Dictionary,
    /// The sequence of strings.
    StringSequence,
    /// The sequence of integers.
    Int64Sequence,
    /// `null`.
    Null,
}

/// What the bridge can read out of a feature value, for the kinds with more than one reading.
#[derive(Debug, Clone, Copy, PartialEq, Eq, Structural)]
pub struct FeatureReadings {
    /// A string-keyed dictionary can be read.
    pub string_dictionary: bool,
    /// An integer-keyed dictionary can be read.
    pub int64_dictionary: bool,
    /// A sequence value can be read at all.
    pub sequence: bool,
    /// The sequence holds strings that can be read.
    pub string_sequence: bool,
    /// The sequence holds integers that can be read.
    pub int64_sequence: bool,
}

/// The JSON rendering a feature value of kind `t` gets, given what can be read out of it.
pub open spec fn feature_json_of(t: FeatureType, readings: FeatureReadings) -> Option<FeatureJson> {
    match t {
        FeatureType::Int64 => Some(FeatureJson::Int64),
        FeatureType::Double => Some(FeatureJson::Double),
        FeatureType::String => Some(FeatureJson::String),
        FeatureType::Dictionary => Some(
            if readings.string_dictionary {
                FeatureJson::StringDictionary
            } else if readings.int64_dictionary {
                FeatureJson::Int64Dictionary
            } else {
                FeatureJson::Null
            },
        ),
        FeatureType::Sequence => Some(
            if !readings.sequence {
                FeatureJson::Null
            } else if readings.string_sequence {
                FeatureJson::StringSequence
            } else if readings.int64_sequence {
                FeatureJson::Int64Sequence
            } else {
                FeatureJson::Null
            },
        ),
        _ => None,
    }
}

/// How each kind of feature value renders as JSON, whatever else can be read out of it: a
/// scalar renders as its own value; a dictionary as its string-keyed reading when there is one,
/// else its integer-keyed reading, else `null`; a sequence as its strings when they can be
/// read, else its integers, else `null`; and an image, a multi-array, a state or an invalid
/// value cannot be rendered.
pub proof fn lemma_feature_json_renders_its_own_reading(t: FeatureType, readings: FeatureReadings)
    ensures
        t == FeatureType::Int64 ==> feature_json_of(t, readings) == Some(FeatureJson::Int64),
        t == FeatureType::Double ==> feature_json_of(t, readings) == Some(FeatureJson::Double),
        t == FeatureType::String ==> feature_json_of(t, readings) == Some(FeatureJson::String),
        t == FeatureType::Dictionary && readings.string_dictionary ==> feature_json_of(t, readings)
            == Some(FeatureJson::StringDictionary),
        t == FeatureType::Dictionary && !readings.string_dictionary && readings.int64_dictionary
            ==> feature_json_of(t, readings) == Some(FeatureJson::Int64Dictionary),
        t == FeatureType::Dictionary && !readings.string_dictionary && !readings.int64_dictionary
            ==> feature_json_of(t, readings) == Some(FeatureJson::Null),
        t == FeatureType::Sequence && readings.sequence && readings.string_sequence
            ==> feature_json_of(t, readings) == Some(FeatureJson::StringSequence),
        t == FeatureType::Sequence && readings.sequence && !readings.string_sequence
            && readings.int64_sequence ==> feature_json_of(t, readings) == Some(
            FeatureJson::Int64Sequence,
        ),
        t == FeatureType::Sequence && !(readings.sequence && (readings.string_sequence
            || readings.int64_sequence)) ==> feature_json_of(t, readings) == Some(FeatureJson::Null),
        t == FeatureType::Image || t == FeatureType::MultiArray || t == FeatureType::State || t
            == FeatureType::Invalid ==> feature_json_of(t, readings) is None,
{
}

/// Choose the JSON rendering of a feature value: scalars render as their value, a dictionary
/// as its string-keyed reading before its integer-keyed one, a sequence as its strings before
/// its integers, `null` when no reading is available; other kinds cannot be rendered.
pub fn feature_json(t: FeatureType, readings: FeatureReadings) -> (r: Result<FeatureJson, CoreMLError>)
    ensures
        feature_json_of(t, readings) matches Some(j) ==> r == Ok::<FeatureJson, CoreMLError>(j),
        feature_json_of(t, readings) is None ==> (r matches Err(CoreMLError::FeatureProviderFailed(
            m,
        )) && m@ == "feature type "@ + feature_type_text(t)
            + " is not convertible to serde_json::Value"@),
{
    match t {
        FeatureType::Int64 => Ok(FeatureJson::Int64),
        FeatureType::Double => Ok(FeatureJson::Double),
        FeatureType::String => Ok(FeatureJson::String),
        FeatureType::Dictionary => {
            if readings.string_dictionary {
                Ok(FeatureJson::StringDictionary)
            } else if readings.int64_dictionary {
                Ok(FeatureJson::Int64Dictionary)
            } else {
                Ok(FeatureJson::Null)
            }
        },
        FeatureType::Sequence => {
            if !readings.sequence {
                Ok(FeatureJson::Null)
            } else if readings.string_sequence {
                Ok(FeatureJson::StringSequence)
            } else if readings.int64_sequence {
                Ok(FeatureJson::Int64Sequence)
            } else {
                Ok(FeatureJson::Null)
            }
        },
        other => {
            let mut m = String::from_str("feature type ");
            let name = other.debug_text();
            m.append(name.as_str());
            m.append(" is not convertible to serde_json::Value");
            Err(CoreMLError::FeatureProviderFailed(m))
        },
    }
}

} // verus!

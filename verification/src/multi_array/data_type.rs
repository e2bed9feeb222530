//! Multi-array element types and their bridge codes.

use vstd::prelude::*;
use vstd::string::*;

use crate::text::{decimal, signed_decimal, signed_text};

verus! {

/// Supported CoreML multi-array element types.
#[derive(Debug, Clone, Copy, PartialEq, Eq, Structural)]
#[non_exhaustive]
pub enum DataType {
    /// 64-bit IEEE-754 float.
    Float64,
    /// 32-bit IEEE-754 float.
    Float32,
    /// 16-bit IEEE-754 float.
    Float16,
    /// 32-bit signed integer.
    Int32,
    /// 8-bit signed integer.
    Int8,
    /// A type code this crate does not know, kept as reported.
    Unknown(i64),
}

/// Bridge code of a data type: a family flag (`0x10000` floats, `0x20000` integers) or'ed
/// with the width in bits; an unknown type keeps its own code.
pub open spec fn data_type_code(d: DataType) -> i64 {
    match d {
        DataType::Float64 => 65600,
        DataType::Float32 => 65568,
        DataType::Float16 => 65552,
        DataType::Int32 => 131104,
        DataType::Int8 => 131080,
        DataType::Unknown(raw) => raw,
    }
}

/// The data type a bridge code names.
pub open spec fn data_type_of_code(raw: i64) -> DataType {
    if raw == 65600 {
        DataType::Float64
    } else if raw == 65568 {
        DataType::Float32
    } else if raw == 65552 {
        DataType::Float16
    } else if raw == 131104 {
        DataType::Int32
    } else if raw == 131080 {
        DataType::Int8
    } else {
        DataType::Unknown(raw)
    }
}

/// Width in bytes of one element of a data type, when the type is known.
pub open spec fn element_size_of(d: DataType) -> Option<usize> {
    match d {
        DataType::Float64 => Some(8usize),
        DataType::Float32 => Some(4usize),
        DataType::Int32 => Some(4usize),
        DataType::Float16 => Some(2usize),
        DataType::Int8 => Some(1usize),
        DataType::Unknown(_) => None,
    }
}

/// Whether an unknown data type carries the code of a known one.
pub open spec fn shadows_known_code(d: DataType) -> bool {
    d matches DataType::Unknown(raw) && data_type_of_code(raw) != d
}

/// The name of a data type as it appears in messages, such as `Float32` or `Unknown(5)`.
pub open spec fn data_type_text(d: DataType) -> Seq<char> {
    match d {
        DataType::Float64 => "Float64"@,
        DataType::Float32 => "Float32"@,
        DataType::Float16 => "Float16"@,
        DataType::Int32 => "Int32"@,
        DataType::Int8 => "Int8"@,
        DataType::Unknown(raw) => "Unknown("@ + signed_decimal(raw as int) + ")"@,
    }
}

impl DataType {
    /// Bridge code of this data type.
    pub fn as_ffi(self) -> (raw: i64)
        ensures
            raw == data_type_code(self),
    {
        match self {
            DataType::Float64 => 65600,
            DataType::Float32 => 65568,
            DataType::Float16 => 65552,
            DataType::Int32 => 131104,
            DataType::Int8 => 131080,
            DataType::Unknown(raw) => raw,
        }
    }

    /// The data type a bridge code names; codes of no known type are kept as `Unknown`.
    pub fn from_ffi(raw: i64) -> (d: DataType)
        ensures
            d == data_type_of_code(raw),
    {
        if raw == 65600 {
            DataType::Float64
        } else if raw == 65568 {
            DataType::Float32
        } else if raw == 65552 {
            DataType::Float16
        } else if raw == 131104 {
            DataType::Int32
        } else if raw == 131080 {
            DataType::Int8
        } else {
            DataType::Unknown(raw)
        }
    }

    /// Width in bytes of one element, or `None` for an unknown type.
    pub fn element_size(self) -> (size: Option<usize>)
        ensures
            size == element_size_of(self),
    {
        match self {
            DataType::Float64 => Some(8),
            DataType::Float32 | DataType::Int32 => Some(4),
            DataType::Float16 => Some(2),
            DataType::Int8 => Some(1),
            DataType::Unknown(_) => None,
        }
    }

    /// The name of this data type as it appears in messages.
    pub fn debug_text(&self) -> (s: String)
        ensures
            s@ == data_type_text(*self),
    {
        match self {
            DataType::Float64 => String::from_str("Float64"),
            DataType::Float32 => String::from_str("Float32"),
            DataType::Float16 => String::from_str("Float16"),
            DataType::Int32 => String::from_str("Int32"),
            DataType::Int8 => String::from_str("Int8"),
            DataType::Unknown(raw) => {
                let mut s = String::from_str("Unknown(");
                let digits = signed_text(*raw);
                s.append(digits.as_str());
                s.append(")");
                s
            },
        }
    }
}

/// Every bridge code survives a trip through its data type: unknown codes are kept as they
/// were reported.
pub proof fn lemma_code_round_trip(raw: i64)
    ensures
        data_type_code(data_type_of_code(raw)) == raw,
{
}

/// Every data type survives a trip through its bridge code, except an unknown type that
/// carries the code of a known one, which comes back as that known type.
pub proof fn lemma_data_type_round_trip(d: DataType)
    ensures
        !shadows_known_code(d) ==> data_type_of_code(data_type_code(d)) == d,
        shadows_known_code(d) ==> data_type_of_code(data_type_code(d)) !is Unknown,
{
}

/// Exactly the known data types have an element size, and it is a positive width of at most
/// eight bytes.
pub proof fn lemma_element_size_known(d: DataType)
    ensures
        element_size_of(d) is Some <==> d !is Unknown,
        element_size_of(d) matches Some(n) ==> 1 <= n <= 8,
{
}

/// The family word a bridge code's flag names: flag `1` (`0x10000`) for floats, flag `2`
/// (`0x20000`) for integers.
pub open spec fn family_word(flag: int) -> Seq<char> {
    if flag == 1 {
        "Float"@
    } else if flag == 2 {
        "Int"@
    } else {
        Seq::empty()
    }
}

/// Each known data type's bridge code is its family flag (`0x10000` floats, `0x20000`
/// integers) plus its element width in bits: the type's name is the family word followed by
/// the width the code gives, that width is eight times its element size in bytes, and the code
/// decodes back to the type.
pub proof fn lemma_code_is_family_and_width(d: DataType)
    requires
        element_size_of(d) is Some,
    ensures
        data_type_code(d) / 0x10000 == 1 || data_type_code(d) / 0x10000 == 2,
        data_type_code(d) % 0x10000 == 8 * element_size_of(d)->0,
        data_type_text(d) == family_word(data_type_code(d) / 0x10000) + decimal(
            (data_type_code(d) % 0x10000) as nat,
        ),
        data_type_of_code(data_type_code(d)) == d,
{
    reveal_with_fuel(decimal, 3);
    match d {
        DataType::Float64 => {
            reveal_strlit("Float64");
            reveal_strlit("Float");
            reveal_strlit("6");
            reveal_strlit("4");
            assert(decimal(64) =~= "6"@ + "4"@);
            assert(data_type_text(d) =~= "Float"@ + decimal(64));
        },
        DataType::Float32 => {
            reveal_strlit("Float32");
            reveal_strlit("Float");
            reveal_strlit("3");
            reveal_strlit("2");
            assert(decimal(32) =~= "3"@ + "2"@);
            assert(data_type_text(d) =~= "Float"@ + decimal(32));
        },
        DataType::Float16 => {
            reveal_strlit("Float16");
            reveal_strlit("Float");
            reveal_strlit("1");
            reveal_strlit("6");
            assert(decimal(16) =~= "1"@ + "6"@);
            assert(data_type_text(d) =~= "Float"@ + decimal(16));
        },
        DataType::Int32 => {
            reveal_strlit("Int32");
            reveal_strlit("Int");
            reveal_strlit("3");
            reveal_strlit("2");
            assert(decimal(32) =~= "3"@ + "2"@);
            assert(data_type_text(d) =~= "Int"@ + decimal(32));
        },
        DataType::Int8 => {
            reveal_strlit("Int8");
            reveal_strlit("Int");
            reveal_strlit("8");
            assert(decimal(8) =~= "8"@);
            assert(data_type_text(d) =~= "Int"@ + decimal(8));
        },
        DataType::Unknown(_) => {},
    }
}

} // verus!

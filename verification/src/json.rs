//! JSON texts of plain values exchanged with the bridge: lists of shapes, of strings and of
//! integers.

use vstd::prelude::*;
use vstd::string::*;

use crate::error::CoreMLError;
use crate::text::decimal;

verus! {

/// What `serde_json::from_str` gives for a text read as a list of shapes: the shapes, or the
/// text of the error it reports.
pub uninterp spec fn json_shapes(text: Seq<char>) -> Result<Seq<Seq<usize>>, Seq<char>>;

/// Compact JSON text of a list of dimensions: `[` then the decimals separated by `,` then `]`.
pub open spec fn dims_json(dims: Seq<usize>) -> Seq<char> {
    "["@ + comma_joined(dims) + "]"@
}

/// The dimensions in decimal, separated by `,` with no space.
pub open spec fn comma_joined(dims: Seq<usize>) -> Seq<char>
    decreases dims.len(),
{
    if dims.len() == 0 {
        Seq::empty()
    } else if dims.len() == 1 {
        decimal(dims[0] as nat)
    } else {
        comma_joined(dims.drop_last()) + ","@ + decimal(dims.last() as nat)
    }
}

/// Compact JSON text of a list of shapes: `[` then each shape's `dims_json` separated by `,`
/// then `]`.
pub open spec fn shapes_json(shapes: Seq<Seq<usize>>) -> Seq<char> {
    "["@ + joined_shapes(shapes) + "]"@
}

/// Each shape's `dims_json`, separated by `,` with no space.
pub open spec fn joined_shapes(shapes: Seq<Seq<usize>>) -> Seq<char>
    decreases shapes.len(),
{
    if shapes.len() == 0 {
        Seq::empty()
    } else if shapes.len() == 1 {
        dims_json(shapes[0])
    } else {
        joined_shapes(shapes.drop_last()) + ","@ + dims_json(shapes.last())
    }
}

/// The list of strings `serde_json::from_str` reads from a text, when it reads one.
pub uninterp spec fn json_strings(text: Seq<char>) -> Option<Seq<Seq<char>>>;

/// The list of integers `serde_json::from_str` reads from a text, when it reads one.
pub uninterp spec fn json_integers(text: Seq<char>) -> Option<Seq<i64>>;

/// Whether a character has the Unicode property `White_Space`.
pub open spec fn is_white_space(c: char) -> bool {
    let u = c as u32;
    ||| 0x9 <= u <= 0xD
    ||| u == 0x20
    ||| u == 0x85
    ||| u == 0xA0
    ||| u == 0x1680
    ||| 0x2000 <= u <= 0x200A
    ||| u == 0x2028
    ||| u == 0x2029
    ||| u == 0x202F
    ||| u == 0x205F
    ||| u == 0x3000
}

/// A text without its leading `White_Space` characters.
pub open spec fn trim_start(text: Seq<char>) -> Seq<char>
    decreases text.len(),
{
    if text.len() > 0 && is_white_space(text[0]) {
        trim_start(text.drop_first())
    } else {
        text
    }
}

/// A text without its trailing `White_Space` characters.
pub open spec fn trim_end(text: Seq<char>) -> Seq<char>
    decreases text.len(),
{
    if text.len() > 0 && is_white_space(text.last()) {
        trim_end(text.drop_last())
    } else {
        text
    }
}

/// A text without its leading and trailing `White_Space` characters.
pub open spec fn trimmed(text: Seq<char>) -> Seq<char> {
    trim_end(trim_start(text))
}

/// Reads a list of shapes with `serde_json::from_str::<Vec<Vec<usize>>>`; the error, if any,
/// comes back as its display text. The contract names the outcome and says nothing more of it.
#[verifier::external_body]
fn parse_shapes(text: &str) -> (r: Result<Vec<Vec<usize>>, String>)
    ensures
        r matches Ok(v) ==> (json_shapes(text@) matches Ok(s) && s == v.deep_view()),
        r matches Err(m) ==> (json_shapes(text@) matches Err(t) && t == m@),
{
    serde_json::from_str::<Vec<Vec<usize>>>(text).map_err(|error| error.to_string())
}

/// Writes a list of shapes with `serde_json::to_string`, the error, if any, coming back as its
/// display text. The contract claims what serde_json's compact writer does for a list of lists
/// of unsigned integers: it succeeds, with `[`, the inner lists separated by `,`, and `]`, each
/// inner list written the same way around its numbers in decimal, with no whitespace.
#[verifier::external_body]
fn shapes_text(shapes: &[Vec<usize>]) -> (r: Result<String, String>)
    ensures
        r is Ok,
        r matches Ok(s) ==> s@ == shapes_json(shapes.deep_view()),
{
    serde_json::to_string(shapes).map_err(|error| error.to_string())
}

/// Reads a list of strings with `serde_json::from_str::<Vec<String>>`, discarding the error.
/// The contract names the outcome and says nothing more of it.
#[verifier::external_body]
fn parse_strings(text: &str) -> (r: Option<Vec<String>>)
    ensures
        r.deep_view() == json_strings(text@),
{
    serde_json::from_str::<Vec<String>>(text).ok()
}

/// Reads a list of integers with `serde_json::from_str::<Vec<i64>>`, discarding the error.
/// The contract names the outcome and says nothing more of it.
#[verifier::external_body]
fn parse_integers(text: &str) -> (r: Option<Vec<i64>>)
    ensures
        r.deep_view() == json_integers(text@),
{
    serde_json::from_str::<Vec<i64>>(text).ok()
}

/// Whether a character has the Unicode property `White_Space`.
fn white_space(c: char) -> (r: bool)
    ensures
        r == is_white_space(c),
{
    let u = c as u32;
    (0x9 <= u && u <= 0xD) || u == 0x20 || u == 0x85 || u == 0xA0 || u == 0x1680 || (0x2000 <= u
        && u <= 0x200A) || u == 0x2028 || u == 0x2029 || u == 0x202F || u == 0x205F || u == 0x3000
}

/// Dropping a leading run of `White_Space` characters that ends at `i`.
proof fn lemma_trim_start_at(text: Seq<char>, i: int)
    requires
        0 <= i <= text.len(),
        forall|j: int| 0 <= j < i ==> #[trigger] is_white_space(text[j]),
        i == text.len() || !is_white_space(text[i]),
    ensures
        trim_start(text) == text.subrange(i, text.len() as int),
    decreases i,
{
    if i == 0 {
        if text.len() > 0 {
            assert(!is_white_space(text[0]));
        }
        assert(text.subrange(0, text.len() as int) =~= text);
    } else {
        let rest = text.drop_first();
        assert(is_white_space(text[0]));
        assert forall|j: int| 0 <= j < i - 1 implies #[trigger] is_white_space(rest[j]) by {
            assert(is_white_space(text[j + 1]));
        }
        if i < text.len() {
            assert(rest[i - 1] == text[i]);
        }
        lemma_trim_start_at(rest, i - 1);
        assert(rest.subrange(i - 1, rest.len() as int) =~= text.subrange(i, text.len() as int));
    }
}

/// Dropping a trailing run of `White_Space` characters that starts at `e`.
proof fn lemma_trim_end_at(text: Seq<char>, e: int)
    requires
        0 <= e <= text.len(),
        forall|j: int| e <= j < text.len() ==> #[trigger] is_white_space(text[j]),
        e == 0 || !is_white_space(text[e - 1]),
    ensures
        trim_end(text) == text.subrange(0, e),
    decreases text.len() - e,
{
    if e == text.len() {
        if text.len() > 0 {
            assert(!is_white_space(text.last()));
        }
        assert(text.subrange(0, e) =~= text);
    } else {
        let rest = text.drop_last();
        assert(is_white_space(text.last()));
        assert forall|j: int| e <= j < rest.len() implies #[trigger] is_white_space(rest[j]) by {
            assert(is_white_space(text[j]));
        }
        if e > 0 {
            assert(rest[e - 1] == text[e - 1]);
        }
        lemma_trim_end_at(rest, e);
        assert(rest.subrange(0, e) =~= text.subrange(0, e));
    }
}

/// The text without its leading and trailing `White_Space` characters, as `str::trim` gives.
fn trim(text: &str) -> (r: &str)
    ensures
        r@ == trimmed(text@),
{
    let n = text.unicode_len();
    let mut start: usize = 0;
    while start < n && white_space(text.get_char(start))
        invariant
            n == text@.len(),
            start <= n,
            forall|j: int| 0 <= j < start ==> #[trigger] is_white_space(text@[j]),
        decreases n - start,
    {
        start = start + 1;
    }
    proof {
        lemma_trim_start_at(text@, start as int);
    }
    let ghost rest = text@.subrange(start as int, n as int);
    let mut end: usize = n;
    while end > start && white_space(text.get_char(end - 1))
        invariant
            n == text@.len(),
            start <= end <= n,
            rest == text@.subrange(start as int, n as int),
            forall|j: int| end <= j < n ==> #[trigger] is_white_space(text@[j]),
        decreases end - start,
    {
        end = end - 1;
    }
    proof {
        assert forall|j: int| end - start <= j < rest.len() implies #[trigger] is_white_space(
            rest[j],
        ) by {
            assert(rest[j] == text@[j + start]);
            assert(is_white_space(text@[j + start]));
        }
        if end > start {
            assert(rest[end - start - 1] == text@[end - 1]);
        }
        lemma_trim_end_at(rest, end - start);
        assert(rest.subrange(0, end - start) =~= text@.subrange(start as int, end as int));
    }
    text.substring_char(start, end)
}

/// The output shapes a custom layer reported as JSON, with an error naming the decoding
/// failure.
pub fn decode_output_shapes(json: &str) -> (r: Result<Vec<Vec<usize>>, CoreMLError>)
    ensures
        json_shapes(json@) matches Ok(s) ==> (r matches Ok(v) && v.deep_view() == s),
        json_shapes(json@) matches Err(detail) ==> (r matches Err(
            CoreMLError::CustomLayerFailed(m),
        ) && m@ == "failed to decode custom-layer output-shape JSON: "@ + detail),
{
    match parse_shapes(json) {
        Ok(shapes) => Ok(shapes),
        Err(detail) => {
            let mut m = String::from_str("failed to decode custom-layer output-shape JSON: ");
            m.append(detail.as_str());
            Err(CoreMLError::CustomLayerFailed(m))
        },
    }
}

/// The compact JSON text of the input shapes handed to a custom layer.
pub fn encode_input_shapes(shapes: &[Vec<usize>]) -> (r: Result<String, CoreMLError>)
    ensures
        r matches Ok(s) && s@ == shapes_json(shapes.deep_view()),
{
    match shapes_text(shapes) {
        Ok(text) => Ok(text),
        Err(detail) => {
            let mut m = String::from_str("failed to encode custom layer input shapes as JSON: ");
            m.append(detail.as_str());
            Err(CoreMLError::CustomLayerFailed(m))
        },
    }
}

/// The compact JSON text of the output shapes a custom layer computed.
pub fn encode_output_shapes(shapes: &[Vec<usize>]) -> (r: Result<String, CoreMLError>)
    ensures
        r matches Ok(s) && s@ == shapes_json(shapes.deep_view()),
{
    match shapes_text(shapes) {
        Ok(text) => Ok(text),
        Err(detail) => {
            let mut m = String::from_str("failed to encode custom-layer output shapes: ");
            m.append(detail.as_str());
            Err(CoreMLError::CustomLayerFailed(m))
        },
    }
}

/// The input shapes a callback received as JSON: a blank payload is no shapes, and a payload
/// that does not decode is an error naming the failure.
pub fn parse_shapes_payload(json: &str) -> (r: Result<Vec<Vec<usize>>, CoreMLError>)
    ensures
        trimmed(json@).len() == 0 ==> (r matches Ok(v) && v@.len() == 0),
        trimmed(json@).len() != 0 ==> {
            &&& json_shapes(json@) matches Ok(s) ==> (r matches Ok(v) && v.deep_view() == s)
            &&& json_shapes(json@) matches Err(detail) ==> (r matches Err(
                CoreMLError::InvalidArgument(m),
            ) && m@ == "failed to decode custom-layer JSON payload: "@ + detail)
        },
{
    if trim(json).is_empty() {
        return Ok(Vec::new());
    }
    match parse_shapes(json) {
        Ok(shapes) => Ok(shapes),
        Err(detail) => {
            let mut m = String::from_str("failed to decode custom-layer JSON payload: ");
            m.append(detail.as_str());
            Err(CoreMLError::InvalidArgument(m))
        },
    }
}

/// The string elements of a sequence reported as JSON, when the text reads as a list of
/// strings.
pub fn decode_string_values(json: &str) -> (r: Option<Vec<String>>)
    ensures
        r.deep_view() == json_strings(json@),
{
    parse_strings(json)
}

/// The integer elements of a sequence reported as JSON, when the text reads as a list of
/// integers.
pub fn decode_int64_values(json: &str) -> (r: Option<Vec<i64>>)
    ensures
        r.deep_view() == json_integers(json@),
{
    parse_integers(json)
}

/// The feature names of a provider reported as JSON; a text that does not read as a list of
/// strings gives no names.
pub fn decode_keys(json: &str) -> (r: Vec<String>)
    ensures
        json_strings(json@) matches Some(names) ==> r.deep_view() == names,
        json_strings(json@) is None ==> r@.len() == 0,
{
    match parse_strings(json) {
        Some(names) => names,
        None => Vec::new(),
    }
}

} // verus!

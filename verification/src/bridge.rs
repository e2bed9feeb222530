//! What may be handed to the bridge, and how its answers that carry no result are turned into
//! errors or values.

use vstd::prelude::*;
use vstd::string::*;

use crate::error::{from_status_message, status_error, CoreMLError};
use crate::status;
use crate::text::{decimal, decimal_text, signed_decimal, signed_text};

verus! {

/// The error reported when a multi-array's storage visit produced nothing: a failing status
/// names the status, and a successful one says the storage was not provided.
pub fn storage_unavailable(status: i32) -> (e: CoreMLError)
    ensures
        status != status::OK ==> (e matches CoreMLError::MultiArrayFailed(m) && m@
            == "MLMultiArray storage access failed with status "@ + signed_decimal(status as int)),
        status == status::OK ==> (e matches CoreMLError::MultiArrayFailed(m) && m@
            == "MLMultiArray did not provide its storage"@),
{
    if status != status::OK {
        let mut m = String::from_str("MLMultiArray storage access failed with status ");
        let digits = signed_text(status as i64);
        m.append(digits.as_str());
        CoreMLError::MultiArrayFailed(m)
    } else {
        CoreMLError::MultiArrayFailed(String::from_str("MLMultiArray did not provide its storage"))
    }
}

/// The error reported when a state-buffer visit produced nothing: a failing status decodes with
/// the bridge's message, and a successful one says the named buffer was unavailable.
pub fn state_buffer_unavailable(status: i32, state_name: &str, bridge_message: String) -> (e:
    CoreMLError)
    ensures
        status != status::OK ==> e == status_error(status, bridge_message),
        status == status::OK ==> (e matches CoreMLError::StateFailed(m) && m@ == "state buffer '"@
            + state_name@ + "' was unavailable"@),
{
    if status != status::OK {
        from_status_message(status, bridge_message)
    } else {
        let mut m = String::from_str("state buffer '");
        m.append(state_name);
        m.append("' was unavailable");
        CoreMLError::StateFailed(m)
    }
}

/// The outcome of an asynchronous compilation as the bridge reports it: the compiled path on
/// success, and otherwise the status and message to fail with. A success without a path fails
/// as a compilation failure.
pub fn compile_completion(status: i32, compiled_path: Option<String>, message: String) -> (r: Result<
    String,
    (i32, String),
>)
    ensures
        status == status::OK && compiled_path is Some ==> r == Ok::<String, (i32, String)>(
            compiled_path->0,
        ),
        status == status::OK && compiled_path is None ==> (r matches Err(f) && f.0
            == status::COMPILATION_FAILED && f.1@
            == "CoreML async compilation returned no compiled model path"@),
        status != status::OK ==> r == Err::<String, (i32, String)>((status, message)),
{
    if status == status::OK {
        match compiled_path {
            Some(path) => Ok(path),
            None => Err(
                (
                    status::COMPILATION_FAILED,
                    String::from_str("CoreML async compilation returned no compiled model path"),
                ),
            ),
        }
    } else {
        Err((status, message))
    }
}

/// Check the `.mlmodel` specification bytes handed to the bridge for loading: they must not be
/// empty.
pub fn check_specification(specification: &[u8]) -> (r: Result<(), CoreMLError>)
    ensures
        r is Ok <==> specification@.len() > 0,
        r matches Err(e) ==> (e matches CoreMLError::InvalidArgument(m) && m@
            == "model specification must not be empty"@),
{
    if specification.len() == 0 {
        return Err(
            CoreMLError::InvalidArgument(String::from_str("model specification must not be empty")),
        );
    }
    Ok(())
}

/// Whether `i` is the position of the first NUL byte of `bytes`.
pub open spec fn first_nul_at(bytes: Seq<u8>, i: int) -> bool {
    &&& 0 <= i < bytes.len()
    &&& bytes[i] == 0
    &&& forall|j: int| 0 <= j < i ==> bytes[j] != 0
}

/// Check that a text can be handed to the bridge as a C string: its UTF-8 bytes hold no NUL.
/// The error names the text by `label` and gives the byte position of the first NUL.
pub fn check_c_text(text: &str, label: &str) -> (r: Result<(), CoreMLError>)
    ensures
        r is Ok <==> !text.spec_bytes().contains(0u8),
        r matches Err(e) ==> exists|i: int|
            #[trigger] first_nul_at(text.spec_bytes(), i) && (e matches CoreMLError::InvalidArgument(
                m,
            ) && m@ == label@ + " contains an interior NUL byte: nul byte found in provided data at position: "@
                + decimal(i as nat)),
{
    let bytes = text.as_bytes();
    let mut i: usize = 0;
    while i < bytes.len()
        invariant
            bytes@ == text.spec_bytes(),
            i <= bytes.len(),
            forall|j: int| 0 <= j < i ==> bytes@[j] != 0,
        decreases bytes.len() - i,
    {
        if bytes[i] == 0 {
            let mut m = String::from_str(label);
            m.append(" contains an interior NUL byte: nul byte found in provided data at position: ");
            let digits = decimal_text(i);
            m.append(digits.as_str());
            assert(first_nul_at(text.spec_bytes(), i as int));
            assert(text.spec_bytes().contains(0u8)) by {
                assert(text.spec_bytes()[i as int] == 0u8);
            }
            return Err(CoreMLError::InvalidArgument(m));
        }
        i = i + 1;
    }
    assert(!text.spec_bytes().contains(0u8)) by {
        if text.spec_bytes().contains(0u8) {
            let k = choose|k: int| 0 <= k < text.spec_bytes().len() && text.spec_bytes()[k] == 0u8;
            assert(bytes@[k] != 0);
        }
    }
    Ok(())
}

} // verus!

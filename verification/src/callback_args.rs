//! Checks on the raw arguments the bridge hands to Rust callbacks: pointer lists that must be
//! present and weight blobs that must have data when they have a length.

use vstd::prelude::*;

use crate::error::CoreMLError;
use crate::text::{decimal, decimal_text};

verus! {

/// Check that a list of `count` pointers was given whenever it is not empty.
pub fn check_pointer_list(count: usize, present: bool, label: &str) -> (r: Result<(), CoreMLError>)
    ensures
        r is Ok <==> (count == 0 || present),
        r matches Err(e) ==> (e matches CoreMLError::InvalidArgument(m) && m@ == label@
            + " must not be null when count is non-zero"@),
{
    if count > 0 && !present {
        let mut m = String::from_str(label);
        m.append(" must not be null when count is non-zero");
        return Err(CoreMLError::InvalidArgument(m));
    }
    Ok(())
}

/// Check that every item of a pointer list is present; the first missing item, by position,
/// is the error.
pub fn check_items_present(present: &[bool], label: &str) -> (r: Result<(), CoreMLError>)
    ensures
        r is Ok <==> forall|i: int| 0 <= i < present@.len() ==> #[trigger] present@[i],
        r matches Err(e) ==> (e matches CoreMLError::InvalidArgument(m) && exists|i: int|
            0 <= i < present@.len() && !#[trigger] present@[i] && (forall|j: int|
                0 <= j < i ==> present@[j]) && m@ == label@ + " "@ + decimal(i as nat)
                + " must not be null"@),
{
    let mut i: usize = 0;
    while i < present.len()
        invariant
            i <= present.len(),
            forall|j: int| 0 <= j < i ==> #[trigger] present@[j],
        decreases present.len() - i,
    {
        if !present[i] {
            let mut m = String::from_str(label);
            m.append(" ");
            let digits = decimal_text(i);
            m.append(digits.as_str());
            m.append(" must not be null");
            return Err(CoreMLError::InvalidArgument(m));
        }
        i = i + 1;
    }
    Ok(())
}

/// Check the arrays that describe `count` weight blobs: with at least one blob, both the data
/// pointers and the lengths must be given.
pub fn check_weight_arrays(count: usize, data_present: bool, lengths_present: bool) -> (r: Result<
    (),
    CoreMLError,
>)
    ensures
        r is Ok <==> (count == 0 || (data_present && lengths_present)),
        r matches Err(e) ==> (e matches CoreMLError::InvalidArgument(m) && m@
            == "custom-layer weights require non-null data and length arrays"@),
{
    if count > 0 && !(data_present && lengths_present) {
        return Err(
            CoreMLError::InvalidArgument(
                String::from_str("custom-layer weights require non-null data and length arrays"),
            ),
        );
    }
    Ok(())
}

/// Check weight blobs given by length and presence of their data: a blob with a length must
/// have data; the first one without is the error.
pub fn check_weight_blobs(lengths: &[usize], present: &[bool]) -> (r: Result<(), CoreMLError>)
    requires
        lengths.len() == present.len(),
    ensures
        r is Ok <==> forall|i: int|
            0 <= i < lengths@.len() ==> #[trigger] lengths@[i] == 0 || present@[i],
        r matches Err(e) ==> (e matches CoreMLError::InvalidArgument(m) && exists|i: int|
            0 <= i < lengths@.len() && #[trigger] lengths@[i] > 0 && !present@[i] && (forall|
                j: int,
            | 0 <= j < i ==> lengths@[j] == 0 || present@[j]) && m@ == "custom-layer weight blob "@
                + decimal(i as nat) + " was null despite having a non-zero length"@),
{
    let mut i: usize = 0;
    while i < lengths.len()
        invariant
            i <= lengths.len(),
            lengths.len() == present.len(),
            forall|j: int| 0 <= j < i ==> #[trigger] lengths@[j] == 0 || present@[j],
        decreases lengths.len() - i,
    {
        if lengths[i] > 0 && !present[i] {
            let mut m = String::from_str("custom-layer weight blob ");
            let digits = decimal_text(i);
            m.append(digits.as_str());
            m.append(" was null despite having a non-zero length");
            return Err(CoreMLError::InvalidArgument(m));
        }
        i = i + 1;
    }
    Ok(())
}

} // verus!

//! Checks on the structured description a local model returns before it is
//! stored, keeping persistence independent of any particular model.
use vstd::prelude::*;
use crate::text::{string_from, is_blank, trim_seq};

verus! {

/// Error for a description without a category.
pub const EMPTY_CATEGORY: &'static str = "semantic category is empty";

/// Error for a description without a summary.
pub const EMPTY_SUMMARY: &'static str = "semantic summary is empty";

/// Error for a confidence outside `0..=1`.
pub const CONFIDENCE_OUT_OF_RANGE: &'static str = "semantic confidence must be between 0 and 1";

/// Checks the text fields of a model's description: the category, then the
/// summary, must hold something besides whitespace.
pub fn validate_model_text(category: &str, summary: &str) -> (r: Result<(), String>)
    ensures
        trim_seq(category@).len() == 0 ==> (r matches Err(e) && e@ == EMPTY_CATEGORY@),
        trim_seq(category@).len() > 0 && trim_seq(summary@).len() == 0 ==> (r matches Err(e)
            && e@ == EMPTY_SUMMARY@),
        r is Ok <==> (trim_seq(category@).len() > 0 && trim_seq(summary@).len() > 0),
{
    if is_blank(category) {
        return Err(string_from(EMPTY_CATEGORY));
    }
    if is_blank(summary) {
        return Err(string_from(EMPTY_SUMMARY));
    }
    Ok(())
}

} // verus!

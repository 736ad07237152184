//! The uniform failure shape: a user-facing message plus optional
//! technical detail, carried unchanged to the top level for display.

use vstd::prelude::*;

verus! {

/// A failure report with a short user-facing message and an optional
/// technical detail string (typically the raw underlying error text).
#[derive(Debug)]
pub struct ErrorWithContext {
    pub user_message: String,
    pub technical_details: Option<String>,
}

impl ErrorWithContext {
    /// Builds an error from its two parts, keeping both verbatim.
    pub fn new(user_message: String, technical_details: Option<String>) -> (r: Self)
        ensures
            r.user_message == user_message,
            r.technical_details == technical_details,
    {
        ErrorWithContext { user_message, technical_details }
    }
}

} // verus!

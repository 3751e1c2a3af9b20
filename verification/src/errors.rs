use vstd::prelude::*;

verus! {

/// Errors reported by the sync core.  Every variant carries enough context to
/// be shown directly to the user.
#[derive(Debug, Clone, PartialEq, Eq)]
pub enum SyncError {
    /// No marker file was found in the start directory or any of its
    /// ancestors.
    MarkerNotFound { filename: String },
    /// Two mutually exclusive request options were both set.
    InvalidCombination { reason: String },
    /// The interactive filter closed its output without selecting anything.
    NoSelection,
    /// The interactive filter produced output whose leading field is not an
    /// in-range index.
    MalformedChoice { field: String },
}

/// The user-facing text for each error.
pub open spec fn message_of(e: SyncError) -> Seq<char> {
    match e {
        SyncError::MarkerNotFound { filename } => {
            "marker file "@ + filename@ + " not found in ancestors"@
        },
        SyncError::InvalidCombination { reason } => "invalid option combination: "@ + reason@,
        SyncError::NoSelection => "nothing selected"@,
        SyncError::MalformedChoice { field } => "malformed choice output: "@ + field@,
    }
}

impl SyncError {
    /// Renders the error for display.
    pub fn message(&self) -> (r: String)
        ensures
            r@ == message_of(*self),
    {
        match self {
            SyncError::MarkerNotFound { filename } => String::from_str("marker file ").concat(
                filename.as_str(),
            ).concat(" not found in ancestors"),
            SyncError::InvalidCombination { reason } => String::from_str(
                "invalid option combination: ",
            ).concat(reason.as_str()),
            SyncError::NoSelection => String::from_str("nothing selected"),
            SyncError::MalformedChoice { field } => String::from_str(
                "malformed choice output: ",
            ).concat(field.as_str()),
        }
    }
}

} // verus!

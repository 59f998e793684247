//! Reading stored records back: the stored times must be RFC 3339 times
//! and, for most records, the status column must name a status.

use vstd::prelude::*;

verus! {

/// Whether `chrono::DateTime::parse_from_rfc3339` accepts `t`.
pub uninterp spec fn rfc3339_valid(t: Seq<char>) -> bool;

/// `chrono::DateTime::parse_from_rfc3339`: whether `t` is a date and time in
/// RFC 3339 form. The contract names the answer by `rfc3339_valid`; which
/// texts the grammar of RFC 3339 admits is not restated.
#[verifier::external_body]
pub(crate) fn is_rfc3339(t: &str) -> (r: bool)
    ensures
        r == rfc3339_valid(t@),
{
    chrono::DateTime::parse_from_rfc3339(t).is_ok()
}

/// Why a stored record could not be read back.
#[derive(Debug)]
pub enum RowError {
    /// The creation time is not an RFC 3339 time.
    CreatedAt { text: String },
    /// The last update time is not an RFC 3339 time.
    UpdatedAt { text: String },
    /// The status column names no status.
    Status { text: String },
}

impl RowError {
    /// The message shown for the error.
    pub open spec fn message_text(self) -> Seq<char> {
        match self {
            RowError::CreatedAt { text } => "invalid created_at column: "@ + text@,
            RowError::UpdatedAt { text } => "invalid updated_at column: "@ + text@,
            RowError::Status { text } => "invalid status column: "@ + text@,
        }
    }

    /// The message shown for the error, with the text of the refused column.
    pub fn message(&self) -> (r: String)
        ensures
            r@ == self.message_text(),
    {
        match self {
            RowError::CreatedAt { text } => crate::text::prefixed("invalid created_at column: ", text.as_str()),
            RowError::UpdatedAt { text } => crate::text::prefixed("invalid updated_at column: ", text.as_str()),
            RowError::Status { text } => crate::text::prefixed("invalid status column: ", text.as_str()),
        }
    }
}

} // verus!

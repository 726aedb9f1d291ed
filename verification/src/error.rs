//! The errors that the library's operations report.

use vstd::prelude::*;

verus! {

/// Why an operation was refused.
#[derive(Debug, Clone, Copy, PartialEq, Eq, Structural)]
pub enum Error {
    /// The query holds no character at all, so its weights are undefined.
    InvalidQuery,
    /// A record was offered to a keyed store with an empty id.
    EmptyId,
    /// A record was added to a keyed store without any field that holds a
    /// text: every field is absent or empty.
    EmptyFeatures,
}

impl Error {
    /// Whether the error reports a record that a keyed store does not take.
    pub open spec fn is_validation(self) -> bool {
        self == Error::EmptyId || self == Error::EmptyFeatures
    }

    /// The text that describes each error.
    pub open spec fn message_text(self) -> Seq<char> {
        match self {
            Error::InvalidQuery => "source is invalid"@,
            Error::EmptyId => "issue_id must not be empty"@,
            Error::EmptyFeatures => "features must not be empty"@,
        }
    }

    /// The text that describes the error to a caller.
    pub fn message(&self) -> (text: String)
        ensures
            text@ == self.message_text(),
    {
        match self {
            Error::InvalidQuery => "source is invalid".to_owned(),
            Error::EmptyId => "issue_id must not be empty".to_owned(),
            Error::EmptyFeatures => "features must not be empty".to_owned(),
        }
    }
}

} // verus!

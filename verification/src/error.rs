//! The ways a conversion can fail.

use vstd::prelude::*;

verus! {

/// Why a conversion run was abandoned.
#[derive(Clone, Copy, Debug, PartialEq, Eq, Structural)]
pub enum ConvertError {
    /// The record source does not exist.
    NotFound,
    /// The record source handed over a record it could not parse.
    InvalidData,
    /// No column names can be resolved, or a framing template is malformed.
    InvalidConfiguration,
    /// The output sink refused a write.
    IoFailure,
}

impl ConvertError {
    /// The text of [`ConvertError::message`].
    pub open spec fn message_text(self) -> Seq<char> {
        match self {
            ConvertError::NotFound => "CSV file not found"@,
            ConvertError::InvalidData => "CSV record could not be read"@,
            ConvertError::InvalidConfiguration => "invalid configuration"@,
            ConvertError::IoFailure => "SQL file could not be written"@,
        }
    }

    /// A short human-readable description of the failure.
    pub fn message(&self) -> (res: String)
        ensures
            res@ == self.message_text(),
    {
        match self {
            ConvertError::NotFound => String::from_str("CSV file not found"),
            ConvertError::InvalidData => String::from_str("CSV record could not be read"),
            ConvertError::InvalidConfiguration => String::from_str("invalid configuration"),
            ConvertError::IoFailure => String::from_str("SQL file could not be written"),
        }
    }
}

/// `res` is `expected` in executable form: the same text, or the same error.
pub open spec fn agrees(res: Result<String, ConvertError>, expected: Result<
    Seq<char>,
    ConvertError,
>) -> bool {
    match expected {
        Ok(text) => res matches Ok(s) && s@ == text,
        Err(e) => res matches Err(x) && x == e,
    }
}

} // verus!

//! What can go wrong.

use vstd::prelude::*;
use vstd::string::*;

verus! {

/// The ways in which a field table lookup or an expansion fails.
#[derive(Clone, Copy, Debug, PartialEq, Eq, Structural)]
pub enum CronError {
    /// A hashed field was expanded without an identity to hash.
    MissingIdentity,
    /// The range of a hashed field does not end after it begins.
    InvalidRange,
    /// The divisor of a hashed field is zero.
    InvalidDivisor,
    /// No dialect has the given name or number of fields.
    UnknownDialect,
    /// The parts of a field that was taken for a hashed field could not be read.
    PatternParseFailure,
}

impl CronError {
    /// What the message of an error says, for the field text that raised it.
    pub open spec fn message_text(self, expr: Seq<char>) -> Seq<char> {
        match self {
            CronError::MissingIdentity => "Hashed definitions must include hash_id"@,
            CronError::InvalidRange => "Range end must be greater than range begin"@,
            CronError::InvalidDivisor => "Bad expression: "@ + expr,
            CronError::UnknownDialect => "Unknown cron dialect"@,
            CronError::PatternParseFailure => "Failed to capture regex groups"@,
        }
    }

    /// The message of an error. Only that of `InvalidDivisor` quotes the field text.
    pub fn message(&self, expr: &str) -> (r: String)
        ensures
            r@ == self.message_text(expr@),
    {
        match self {
            CronError::MissingIdentity => "Hashed definitions must include hash_id".to_owned(),
            CronError::InvalidRange => "Range end must be greater than range begin".to_owned(),
            CronError::InvalidDivisor => "Bad expression: ".to_owned().concat(expr),
            CronError::UnknownDialect => "Unknown cron dialect".to_owned(),
            CronError::PatternParseFailure => "Failed to capture regex groups".to_owned(),
        }
    }
}

} // verus!

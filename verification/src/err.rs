//! The library's error type for its command-line collaborators.

use vstd::prelude::*;

verus! {

/// An error surfaced to the top-level caller for textual reporting.
#[derive(Debug)]
pub enum CliError {
    /// A file could not be read or written; carries the report.
    File(String),
    /// A number could not be parsed; carries the report.
    Parse(String),
    /// The clock reported a time before the epoch.
    Time,
    /// A color string is not three or six hex digits.
    InvalidHex,
}

/// The report of a `Time` error.
pub open spec fn time_message() -> Seq<char> {
    "system time before the epoch"@
}

/// The report of an `InvalidHex` error.
pub open spec fn invalid_hex_message() -> Seq<char> {
    "Invalid hex color, must be 3 or 6 digts"@
}

impl CliError {
    /// The error's textual report.
    pub fn message(&self) -> (r: String)
        ensures
            match self {
                CliError::File(m) => r@ == m@,
                CliError::Parse(m) => r@ == m@,
                CliError::Time => r@ == time_message(),
                CliError::InvalidHex => r@ == invalid_hex_message(),
            },
    {
        match self {
            CliError::File(m) => m.clone(),
            CliError::Parse(m) => m.clone(),
            CliError::Time => "system time before the epoch".to_owned(),
            CliError::InvalidHex => "Invalid hex color, must be 3 or 6 digts".to_owned(),
        }
    }
}

} // verus!

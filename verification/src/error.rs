//! Errors raised while turning command-line text into a configuration.

use vstd::prelude::*;

verus! {

/// A configuration value that was rejected before any image work began.
#[derive(Clone, Copy, Debug, PartialEq, Eq, Structural)]
pub enum ConfigError {
    /// The filter name is not one of the recognised names.
    UnknownFilter,
    /// The size is neither `WIDTHxHEIGHT`, `term` nor `original`.
    InvalidSizeFormat,
}

impl ConfigError {
    /// The text of the line that reports this error.
    pub open spec fn message_text(self) -> Seq<char> {
        match self {
            ConfigError::UnknownFilter => "Filter is not one of the known filters"@,
            ConfigError::InvalidSizeFormat => "Size is not in a valid format"@,
        }
    }

    /// One human-readable line describing the error.
    pub fn message(self) -> (line: String)
        ensures
            line@ == self.message_text(),
    {
        match self {
            ConfigError::UnknownFilter => "Filter is not one of the known filters".to_owned(),
            ConfigError::InvalidSizeFormat => "Size is not in a valid format".to_owned(),
        }
    }
}

} // verus!

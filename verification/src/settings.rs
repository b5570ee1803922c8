//! The settings of one run, as they are made from the command line.

use crate::error::ConfigError;
use crate::filter::{filter_named, get_filter, FilterKind};
use crate::size::{parse_size, parsed_size, valid_size, validate_size, TargetSize};
use vstd::prelude::*;

verus! {

/// How an image is to be resized.
#[derive(Clone, Copy, Debug, PartialEq, Eq, Structural)]
pub struct Settings {
    /// The filter that both resizing steps use.
    pub filter: FilterKind,
    /// What the output dimensions are taken from.
    pub size: TargetSize,
}

/// The settings that a filter name and a size stand for. The filter is
/// looked at first: an unknown filter is reported whatever the size is.
pub open spec fn configured(filter: Seq<char>, size: Seq<char>) -> Result<Settings, ConfigError> {
    match filter_named(filter) {
        None => Err(ConfigError::UnknownFilter),
        Some(kind) => if valid_size(size) {
            Ok(Settings { filter: kind, size: parsed_size(size) })
        } else {
            Err(ConfigError::InvalidSizeFormat)
        },
    }
}

/// Makes the settings of a run from the filter name and the size as they
/// were given, or says which of the two was refused.
pub fn configure(filter: &str, size: &str) -> (made: Result<Settings, ConfigError>)
    ensures
        made == configured(filter@, size@),
{
    let kind = match get_filter(filter) {
        Ok(kind) => kind,
        Err(refused) => {
            return Err(refused);
        },
    };
    match validate_size(size) {
        Ok(()) => Ok(Settings { filter: kind, size: parse_size(size) }),
        Err(refused) => Err(refused),
    }
}

/// Settings are made exactly from a known filter and a valid size, and they
/// ask for the terminal only where the size is `term`.
pub proof fn lemma_configured(filter: Seq<char>, size: Seq<char>)
    ensures
        configured(filter, size) is Ok <==> filter_named(filter) is Some && valid_size(size),
        configured(filter, size) matches Ok(settings) ==> (settings.size is FitTerminal ==> size
            == "term"@),
{
}

} // verus!

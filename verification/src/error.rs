//! What can be wrong with the fixture of a scenario.

use vstd::prelude::*;

verus! {

/// Why a fixture cannot be made into a scenario.
#[derive(Clone, Copy, Debug, PartialEq, Eq, Structural)]
pub enum ConfigError {
    /// The fixture holds no test case.
    NoTestCase,
    /// The transaction names no sender.
    MissingSender,
    /// The transaction names no recipient.
    MissingRecipient,
    /// The transaction has no call data variant.
    MissingData,
    /// The transaction has no value variant.
    MissingValue,
    /// A text is not a 20-byte address.
    InvalidAddress,
    /// A text is not an even number of hexadecimal digits.
    InvalidHex,
}

} // verus!

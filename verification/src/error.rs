//! The failures that the library reports.

use vstd::prelude::*;

verus! {

/// Why an exchange with the card did not yield a response.
#[derive(Clone, Copy, Debug, PartialEq, Eq, Structural)]
pub enum TransportError {
    /// No card is present in the reader.
    NoCard,
    /// The reader cannot be reached.
    ReaderUnavailable,
    /// The exchange itself failed.
    IoFailure,
}

/// Why a command could not be built or a response could not be decoded.
#[derive(Clone, Copy, Debug, PartialEq, Eq, Structural)]
pub enum Error {
    /// A command parameter is outside what a short APDU can carry.
    InvalidParameter,
    /// The data is shorter than the record layout demands.
    TruncatedData,
    /// A text field holds a byte that is not a character of the encoding.
    InvalidEncoding,
    /// A nibble of a packed decimal field is greater than nine.
    InvalidBcdDigit,
    /// The transport failed to exchange bytes with the card.
    Transport(TransportError),
}

} // verus!

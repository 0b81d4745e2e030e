//! What can go wrong when decoding or encoding a record.
use vstd::prelude::*;

verus! {

/// Why a line could not be decoded into a record.
#[derive(Debug, Clone, Copy, PartialEq, Eq, Structural)]
pub enum ParseError {
    /// The line does not begin with `:`.
    MissingMarker,
    /// The text after `:` is not an even number of hexadecimal digits.
    MalformedHex,
    /// The checksum computed over the record (first) differs from the one on
    /// the line (second).
    BadChecksum(u8, u8),
    /// The payload is not as long as the record declares, or as its type needs.
    LengthMismatch,
    /// The record-type byte names none of the six record types.
    UnknownRecordType,
}

/// Another name for [`ParseError`], the error type of the decoder.
pub type IHexError = ParseError;

/// Why a record could not be encoded.
#[derive(Debug, Clone, Copy, PartialEq, Eq, Structural)]
pub enum EncodeError {
    /// The destination buffer cannot hold the encoded line.
    BufferTooSmall,
}

} // verus!

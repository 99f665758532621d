use vstd::prelude::*;

verus! {

/// Why an operation of the codec failed. Each is final for the operation:
/// retrying with the same input gives the same failure.
#[derive(Clone, Copy, Debug, PartialEq, Eq, Structural)]
pub enum CodecError {
    /// The binary input ended before a field was fully read.
    TruncatedInput,
    /// Bytes remained after a complete record was read.
    TrailingBytes,
    /// A signer or writable flag byte was neither 0 nor 1.
    InvalidFlag,
    /// The text is not valid unpadded base64.
    InvalidEncoding,
    /// A decoded record differs from the one it was encoded from.
    RoundTripMismatch,
}

} // verus!

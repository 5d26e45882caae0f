//! The error taxonomy of the protocol engine.

use vstd::prelude::*;

verus! {

/// A domain error of the protocol core.
///
/// Every failure is local to one exchange or one conversation step: the
/// loops that drive the engine drop the offending request and continue.
#[derive(Clone, Copy, PartialEq, Eq, Structural, Debug)]
pub enum CoreError {
    /// Internal state could not be represented on the wire.
    EncodingError,
    /// A payload was truncated or malformed.
    DecodingError,
    /// Generic recovery was invoked with the wrong concrete binding.
    TypeMismatchError,
    /// A bind, send or receive failed, or another facility of the
    /// environment (the randomness source included) was unavailable.
    TransportError,
    /// A datagram exceeded the single-datagram payload ceiling.
    OversizedPayload,
}

impl CoreError {
    /// A short human-readable description of the error.
    pub fn message(&self) -> (r: &'static str)
        ensures
            r@ == self.message_spec(),
    {
        match self {
            CoreError::EncodingError => "encoding error: state cannot be represented",
            CoreError::DecodingError => "decoding error: truncated or malformed payload",
            CoreError::TypeMismatchError => "type mismatch: wrong concrete plugin binding",
            CoreError::TransportError => "transport error: an environment facility failed",
            CoreError::OversizedPayload => "oversized payload: exceeds the datagram ceiling",
        }
    }

    /// What `message` returns, as a sequence of characters.
    pub open spec fn message_spec(self) -> Seq<char> {
        match self {
            CoreError::EncodingError => "encoding error: state cannot be represented"@,
            CoreError::DecodingError => "decoding error: truncated or malformed payload"@,
            CoreError::TypeMismatchError => "type mismatch: wrong concrete plugin binding"@,
            CoreError::TransportError => "transport error: an environment facility failed"@,
            CoreError::OversizedPayload => "oversized payload: exceeds the datagram ceiling"@,
        }
    }
}

} // verus!

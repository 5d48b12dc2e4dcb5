//! Errors of the transport layer.

use vstd::prelude::*;

verus! {

/// Either direction of the codec failed.
#[derive(Debug)]
pub enum CodingError {
    EncodeFailed(EncodeError),
    DecodeFailed(DecodeError),
}

/// Printing a JSON value failed.
#[derive(Debug)]
pub struct EncodeError(pub serde_json::Error);

/// Why a frame could not be read.
#[derive(Debug)]
pub enum DecodeError {
    /// The data does not open with `Content-Length: `, or the header is not
    /// closed by `\r\n\r\n`.
    MissingOrInvalidHeader,
    /// The content-length field is not valid UTF-8.
    InvalidContentLengthEncoding,
    /// The content-length field is not a decimal number that fits in memory.
    ContentLengthNotNumber,
    /// The body is shorter or longer than the declared content length.
    IncompleteData,
    /// A complete frame is not valid UTF-8 text.
    InvalidMessageEncoding,
    /// The body is not well-formed JSON.
    JsonError(serde_json::Error),
}

impl DecodeError {
    /// Whether the stream has lost its framing. Only a complete frame that is
    /// not text leaves the stream aligned on the next frame.
    pub fn is_fatal(&self) -> (r: bool)
        ensures
            r == !(*self is InvalidMessageEncoding),
    {
        !matches!(self, DecodeError::InvalidMessageEncoding)
    }
}

} // verus!

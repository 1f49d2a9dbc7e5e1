use serde_json::Error as SerdeJsonError;
use vstd::prelude::*;

verus! {

/// What went wrong while moving bytes (the `std::io::ErrorKind`s this
/// library can meet).
#[derive(Debug, Clone, Copy, PartialEq, Eq)]
pub enum IoErrorKind {
    /// The input ended before the value being read was complete (also: a
    /// zlib stream that stops short).
    UnexpectedEof,
    /// A corrupt zlib stream.
    InvalidInput,
    /// Any other failure of the zlib coder.
    Other,
}

/// Errors of the protocol library.
#[derive(Debug)]
pub enum Error {
    /// Reading or writing bytes failed.
    IoError(IoErrorKind),
    /// A VarInt does not fit the integer it is read into.
    VarIntTooBig(),
    /// A JSON payload could not be parsed.
    InvalidJson(SerdeJsonError),
    /// A legacy (pre-Netty) packet is malformed.
    LegacyError(String),
}

/// The error every read reports when its input runs out.
pub open spec fn eof_error(e: Error) -> bool {
    e matches Error::IoError(IoErrorKind::UnexpectedEof)
}

pub type Result<T> = std::result::Result<T, Error>;

} // verus!

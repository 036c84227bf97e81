//! Errors reported by a connection.

use std::io::Error as IoError;
use tungstenite::Error as WsError;
use vstd::prelude::*;

verus! {

#[verifier::external_type_specification]
#[verifier::external_body]
pub struct ExWsError(WsError);

#[verifier::external_type_specification]
#[verifier::external_body]
pub struct ExIoError(IoError);

/// Why a connection failed or stopped.
#[derive(Debug)]
pub enum Error {
    /// The WebSocket layer failed (handshake, TLS, protocol or I/O).
    TungsteniteError(WsError),
    /// The stream socket failed.
    IOError(IoError),
    /// The address cannot be used for the requested kind of connection.
    InvalidAddress,
    /// A length prefix could not be decoded, or the stream ended inside a frame.
    DecodeError,
    /// A payload is too long for its length to be announced in a prefix.
    PayloadTooLarge,
}

impl From<WsError> for Error {
    fn from(error: WsError) -> (r: Error)
        ensures
            r == Error::TungsteniteError(error),
    {
        Error::TungsteniteError(error)
    }
}

impl vstd::std_specs::convert::FromSpecImpl<WsError> for Error {
    open spec fn obeys_from_spec() -> bool {
        true
    }

    open spec fn from_spec(v: WsError) -> Error {
        Error::TungsteniteError(v)
    }
}

impl From<IoError> for Error {
    fn from(error: IoError) -> (r: Error)
        ensures
            r == Error::IOError(error),
    {
        Error::IOError(error)
    }
}

impl vstd::std_specs::convert::FromSpecImpl<IoError> for Error {
    open spec fn obeys_from_spec() -> bool {
        true
    }

    open spec fn from_spec(v: IoError) -> Error {
        Error::IOError(v)
    }
}

/// Relies on `std::io::Error::other`: wraps a WebSocket error as an I/O error.
#[verifier::external_body]
fn io_error_other(e: WsError) -> (r: IoError) {
    IoError::other(e)
}

/// Relies on `std::io::Error::new`: an I/O error of kind `InvalidData`.
#[verifier::external_body]
fn io_error_invalid_data() -> (r: IoError) {
    IoError::new(std::io::ErrorKind::InvalidData, "malformed length-prefixed frame")
}

/// Relies on `From<std::io::ErrorKind> for std::io::Error`: an I/O error of
/// kind `InvalidInput`.
#[verifier::external_body]
fn io_error_invalid_input() -> (r: IoError) {
    IoError::from(std::io::ErrorKind::InvalidInput)
}

impl Error {
    /// The error as an I/O error: an I/O error is handed back as it is; any
    /// other error is wrapped.
    pub fn into_io_error(self) -> (r: IoError)
        ensures
            self matches Error::IOError(e) ==> r == e,
    {
        match self {
            Error::IOError(e) => e,
            Error::TungsteniteError(e) => io_error_other(e),
            Error::InvalidAddress => io_error_invalid_input(),
            Error::DecodeError => io_error_invalid_data(),
            Error::PayloadTooLarge => io_error_invalid_input(),
        }
    }
}

} // verus!

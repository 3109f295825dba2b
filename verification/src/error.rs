//! The errors of a connection.
use vstd::prelude::*;

verus! {

/// An error of the transport.
#[derive(Clone, Copy, Debug, PartialEq, Eq, Structural)]
pub enum Error {
    /// There is no more work to do.
    Done,

    /// The operation cannot be completed because the connection is in an invalid state.
    InvalidState,

    /// The operation cannot be completed because the stream is in an invalid state.
    InvalidStreamState(u64),

    /// The TLS handshake failed.
    TlsFail,

    /// The peer violated the local flow control limits.
    FlowControl,

    /// The peer violated the local stream limits.
    StreamLimit,

    /// The received data exceeds the stream's final size.
    FinalSize,
}

/// Why a connection is closed.
#[derive(Debug)]
pub struct ConnectionError {
    /// Whether the error came from the application or the transport layer.
    pub is_app: bool,

    /// The error code carried by the `CONNECTION_CLOSE` frame.
    pub error_code: u64,

    /// The reason carried by the `CONNECTION_CLOSE` frame.
    pub reason: Vec<u8>,
}

/// The mathematical content of a [`ConnectionError`].
pub ghost struct ConnectionErrorView {
    pub is_app: bool,
    pub error_code: u64,
    pub reason: Seq<u8>,
}

impl View for ConnectionError {
    type V = ConnectionErrorView;

    open spec fn view(&self) -> ConnectionErrorView {
        ConnectionErrorView {
            is_app: self.is_app,
            error_code: self.error_code,
            reason: self.reason@,
        }
    }
}

} // verus!

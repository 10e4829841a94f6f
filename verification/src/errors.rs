//! Error taxonomy and UI-boundary status types.
//!
//! Fatal conditions are distinguished from a rejected login, which is a
//! successful protocol exchange with a negative outcome and no error.

use vstd::prelude::*;

use crate::codec::ProtocolErrorKind;

verus! {

/// Fatal outcomes of a connection attempt or of a running session.
#[derive(Debug, Clone, Copy, PartialEq, Eq, Structural)]
pub enum SessionError {
    /// The server address is malformed or resolves to nothing.
    AddressError,
    /// TCP or TLS failed beneath the protocol.
    TransportError,
    /// The peer violated the protocol.
    ProtocolError(ProtocolErrorKind),
    /// The liveness watchdog gave the peer up.
    LivenessFailure,
    /// The peer closed the stream without a farewell.
    UnexpectedClose,
}

impl SessionError {
    /// Human-readable description for logs and user display.
    pub fn describe(&self) -> (r: String)
        ensures
            *self == SessionError::AddressError ==> r@ == "server address is malformed or cannot be resolved"@,
            *self == SessionError::TransportError ==> r@ == "the transport failed beneath the protocol"@,
            (*self matches SessionError::ProtocolError(k)) ==> r@ == "the peer violated the protocol"@,
            *self == SessionError::LivenessFailure ==> r@ == "the server stopped answering liveness pings"@,
            *self == SessionError::UnexpectedClose ==> r@ == "the server closed the connection unexpectedly"@,
    {
        match self {
            SessionError::AddressError => String::from_str(
                "server address is malformed or cannot be resolved",
            ),
            SessionError::TransportError => String::from_str(
                "the transport failed beneath the protocol",
            ),
            SessionError::ProtocolError(_) => String::from_str("the peer violated the protocol"),
            SessionError::LivenessFailure => String::from_str(
                "the server stopped answering liveness pings",
            ),
            SessionError::UnexpectedClose => String::from_str(
                "the server closed the connection unexpectedly",
            ),
        }
    }
}

/// Connection status reported to the UI boundary on every phase change.
#[derive(Debug, Clone, Copy, PartialEq, Eq, Structural)]
pub enum ServerConnectionStatus {
    Disconnected,
    AttemptingConnection,
    Connected,
}

impl ServerConnectionStatus {
    /// Numeric code handed to the UI boundary.
    pub open spec fn spec_code(self) -> int {
        match self {
            ServerConnectionStatus::Disconnected => -1,
            ServerConnectionStatus::AttemptingConnection => 0,
            ServerConnectionStatus::Connected => 1,
        }
    }

    /// Numeric code handed to the UI boundary.
    pub fn status_code(&self) -> (r: i8)
        ensures
            r as int == self.spec_code(),
    {
        match self {
            ServerConnectionStatus::Disconnected => -1,
            ServerConnectionStatus::AttemptingConnection => 0,
            ServerConnectionStatus::Connected => 1,
        }
    }
}

/// Error text for user display, distinct from internal log detail.
#[derive(Debug, Clone, PartialEq)]
pub struct FrontendErrorMessage {
    pub message: String,
}

impl FrontendErrorMessage {
    /// Wrap a display message.
    pub fn new(message: String) -> (r: FrontendErrorMessage)
        ensures
            r.message@ == message@,
    {
        FrontendErrorMessage { message }
    }

    /// The display text.
    pub fn text(&self) -> (r: String)
        ensures
            r@ == self.message@,
    {
        self.message.clone()
    }
}

} // verus!

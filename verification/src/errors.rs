//! Error taxonomy of the session bridge.
//!
//! Marshaling errors surface immediately and are never coerced to defaults;
//! connection errors are fatal to session establishment; timeouts and a
//! closed session are recoverable at the caller's discretion.

use vstd::prelude::*;

verus! {

/// Failure while converting a wire value to a domain value.
#[derive(Clone, Copy, Debug, PartialEq, Eq, Structural)]
pub enum MarshalError {
    /// A wire timestamp lies outside the representable range of the
    /// domain instant type.
    InvalidTimestamp,
    /// A wire enumeration code has no corresponding domain variant.
    UnknownEnumValue,
    /// A wire decimal string is not a well-formed fixed-point decimal.
    InvalidDecimal,
}

/// Failure while establishing an authenticated session.
#[derive(Clone, Copy, Debug, PartialEq, Eq, Structural)]
pub enum ConnectError {
    /// The backend rejected the supplied credentials.
    AuthError,
    /// The endpoint was unreachable or the handshake timed out.
    NetworkError,
    /// The handshake reply had an unexpected shape.
    ProtocolError,
}

/// Failure of a single request/response call on an open session.
#[derive(Clone, Copy, Debug, PartialEq, Eq, Structural)]
pub enum RequestError {
    /// The per-request deadline elapsed before a reply arrived.
    RequestTimeout,
    /// The session closed while the request was outstanding, or the
    /// request was issued against an already-closed session.
    SessionClosed,
}

/// Failure reported by a caller-registered push callback.  The bridge
/// hands it back to the dispatching side rather than swallowing it.
#[derive(Clone, Copy, Debug, PartialEq, Eq, Structural)]
pub struct CallbackError {
    /// Caller-chosen code identifying the failure.
    pub code: u32,
}

} // verus!

//! How an exchange with the backend can fail, and what the gateway calls it.

use crate::error::GatewayError;
use vstd::prelude::*;

verus! {

/// What went wrong between the gateway and the backend.
#[derive(Clone, Copy, Debug, PartialEq, Eq, Structural)]
pub enum TransportFailure {
    /// The connection to the backend could not be made.
    Connect,
    /// A read or a write failed after the connection was made.
    Io,
    /// A record of the backend names a request that was not made.
    RequestIdNotFound,
    /// The backend ended the exchange without an answer to the request.
    ResponseNotFound,
    /// A record of the backend is of a type that no answer holds.
    UnknownRequestType,
    /// The backend ended the request because it cannot multiplex.
    CannotMultiplex,
    /// The backend ended the request because it is overloaded.
    Overloaded,
    /// The backend ended the request because it does not know the role.
    UnknownRole,
}

/// The error that a failed exchange is: the backend is unavailable where no
/// connection was made; a failed read or write is an I/O error; all else is
/// the backend's breach of the protocol.
pub open spec fn error_of(failure: TransportFailure) -> GatewayError {
    match failure {
        TransportFailure::Connect => GatewayError::BackendUnavailable,
        TransportFailure::Io => GatewayError::BackendIOError,
        _ => GatewayError::BackendProtocolError,
    }
}

/// The error that a failed exchange is.
pub fn transport_error(failure: TransportFailure) -> (error: GatewayError)
    ensures
        error == error_of(failure),
{
    match failure {
        TransportFailure::Connect => GatewayError::BackendUnavailable,
        TransportFailure::Io => GatewayError::BackendIOError,
        TransportFailure::RequestIdNotFound => GatewayError::BackendProtocolError,
        TransportFailure::ResponseNotFound => GatewayError::BackendProtocolError,
        TransportFailure::UnknownRequestType => GatewayError::BackendProtocolError,
        TransportFailure::CannotMultiplex => GatewayError::BackendProtocolError,
        TransportFailure::Overloaded => GatewayError::BackendProtocolError,
        TransportFailure::UnknownRole => GatewayError::BackendProtocolError,
    }
}

} // verus!

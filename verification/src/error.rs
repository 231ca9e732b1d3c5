use vstd::prelude::*;

verus! {

/// Why the gateway could not start, or could not serve one request.
#[derive(Clone, Copy, Debug, PartialEq, Eq, Structural)]
pub enum GatewayError {
    /// The backend process could not be launched.
    SpawnError,
    /// No connection to the backend could be made.
    BackendUnavailable,
    /// A read or a write failed during the exchange with the backend.
    BackendIOError,
    /// The backend's records were not valid FastCGI, or it sent no output.
    BackendProtocolError,
    /// A header line of the backend's answer has no `": "`, or its name or
    /// its value is not one that HTTP admits.
    MalformedHeaderLine,
    /// The backend's answer holds no blank line.
    MissingBodyBoundary,
    /// A `Status` header does not start with a status code.
    InvalidStatus,
    /// A header of the inbound request that the backend is told of cannot be
    /// read: its `content-length` is no number, or its `content-type` is
    /// not visible ASCII.
    MalformedHeader,
    /// The header map refused a header of a well-formed answer for want of
    /// room; it does so only with thousands of names.
    HeaderMapFull,
}

} // verus!

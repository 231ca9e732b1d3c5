//! What the gateway answers, once the backend has been asked.

use crate::error::GatewayError;
use crate::headers::{header_map_new, HEADER_MAP_ROOM};
use crate::response::{
    header_names, parse_fpm_response, parse_outcome, parse_response, ParsedResponse, ResponseView,
};
use crate::transport::{error_of, transport_error, TransportFailure};
use vstd::prelude::*;

verus! {

/// The status of the answer that stands for every failure.
pub const INTERNAL_ERROR_STATUS: u16 = 500;

/// The answer that stands for every failure: status 500, no header, no body.
pub open spec fn internal_error_view() -> ResponseView {
    ResponseView {
        status: INTERNAL_ERROR_STATUS,
        headers: Map::empty(),
        body: Seq::empty(),
    }
}

/// What `backend_answer` may make of the outcome of an exchange. A failed
/// exchange gives the error that it is; an exchange that brought no output
/// is a protocol error; output is read as an answer.
pub open spec fn answer_outcome(
    exchange: Result<Option<Vec<u8>>, TransportFailure>,
    answer: Result<ParsedResponse, GatewayError>,
) -> bool {
    match exchange {
        Err(failure) => answer matches Err(x) && x == error_of(failure),
        Ok(None) => answer matches Err(x) && x == GatewayError::BackendProtocolError,
        Ok(Some(raw)) => parse_outcome(raw@, answer),
    }
}

/// What `respond` makes of a result: an answer that was read is passed on
/// as it is, and every error gives the same internal error.
pub open spec fn reply_outcome(
    result: Result<ParsedResponse, GatewayError>,
    reply: ParsedResponse,
) -> bool {
    match result {
        Ok(parsed) => reply == parsed,
        Err(_) => reply@ == internal_error_view(),
    }
}

/// Whatever kind of error it is, the client is answered alike: with status
/// 500, no header and no body.
pub proof fn law_errors_answered_alike(
    first: GatewayError,
    second: GatewayError,
    reply_to_first: ParsedResponse,
    reply_to_second: ParsedResponse,
)
    requires
        reply_outcome(Err(first), reply_to_first),
        reply_outcome(Err(second), reply_to_second),
    ensures
        reply_to_first@ == reply_to_second@,
        reply_to_first@.status == INTERNAL_ERROR_STATUS,
        reply_to_first@.headers == Map::<Seq<u8>, Seq<Seq<u8>>>::empty(),
        reply_to_first@.body.len() == 0,
{
}

/// An exchange that failed, at the connection or after it, is answered
/// with the internal error.
pub proof fn law_failed_exchange_answered(
    failure: TransportFailure,
    answer: Result<ParsedResponse, GatewayError>,
    reply: ParsedResponse,
)
    requires
        answer_outcome(Err(failure), answer),
        reply_outcome(answer, reply),
    ensures
        reply@ == internal_error_view(),
{
}

/// Output of the backend that is a well-formed answer, with headers under
/// fewer than `HEADER_MAP_ROOM` names, is handed on to the client as it is:
/// its status, its headers and its body, and nothing else.
pub proof fn law_answer_handed_on(
    raw: Vec<u8>,
    answer: Result<ParsedResponse, GatewayError>,
    reply: ParsedResponse,
)
    requires
        answer_outcome(Ok(Some(raw)), answer),
        reply_outcome(answer, reply),
        parse_response(raw@) is Ok,
        header_names(parse_response(raw@)->Ok_0) < HEADER_MAP_ROOM,
    ensures
        answer matches Ok(parsed) && parsed@ == parse_response(raw@)->Ok_0,
        reply@ == parse_response(raw@)->Ok_0,
{
}

/// The answer that stands for every failure.
pub fn internal_error() -> (reply: ParsedResponse)
    ensures
        reply@ == internal_error_view(),
{
    ParsedResponse { status: INTERNAL_ERROR_STATUS, headers: header_map_new(), body: Vec::new() }
}

/// Reads what an exchange with the backend brought: its error, or the
/// backend's output as an answer.
pub fn backend_answer(exchange: Result<Option<Vec<u8>>, TransportFailure>) -> (answer: Result<
    ParsedResponse,
    GatewayError,
>)
    ensures
        answer_outcome(exchange, answer),
{
    match exchange {
        Err(failure) => Err(transport_error(failure)),
        Ok(None) => Err(GatewayError::BackendProtocolError),
        Ok(Some(raw)) => parse_fpm_response(raw.as_slice()),
    }
}

/// The answer to the client: the backend's, as it was read, or, whatever
/// went wrong and at whatever stage, the one internal error that says
/// nothing of it.
pub fn respond(result: Result<ParsedResponse, GatewayError>) -> (reply: ParsedResponse)
    ensures
        reply_outcome(result, reply),
{
    match result {
        Ok(parsed) => parsed,
        Err(_) => internal_error(),
    }
}

} // verus!

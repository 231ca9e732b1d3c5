//! From an inbound request to the parameters that the backend is sent.

use crate::ascii::{bytes_as_chars, chars_as_bytes, decimal_number, decimal_number_of, decimal_text};
use crate::config::FpmConfig;
use crate::error::GatewayError;
use crate::headers::{
    header_map_get, header_map_values, header_name_from_static, header_value_as_bytes,
    header_value_to_str, is_visible_text,
};
use crate::params::{
    default_entries, params_content_length, params_content_type, params_default, params_entries,
    params_remote_addr, params_remote_port, params_request_method, params_request_uri,
    params_script_filename, params_script_name, params_server_addr, params_server_name,
    params_server_port,
};
use axum::http::header::{HeaderMap, HeaderValue};
use fastcgi_client::Params;
use vstd::prelude::*;
use vstd::slice::slice_subrange;

verus! {

/// The port that the backend is told the client speaks from.
pub const REMOTE_PORT: u16 = 12345;

/// The port that the backend is told the server listens on.
pub const SERVER_PORT: u16 = 80;

/// The name of the header that gives the length of the body.
pub open spec fn content_length_name() -> Seq<u8> {
    chars_as_bytes("content-length"@)
}

/// The name of the header that gives the type of the body.
pub open spec fn content_type_name() -> Seq<u8> {
    chars_as_bytes("content-type"@)
}

/// The first value that `headers` hold under `name`.
pub open spec fn first_value(headers: Map<Seq<u8>, Seq<Seq<u8>>>, name: Seq<u8>) -> Option<
    Seq<u8>,
> {
    if headers.contains_key(name) {
        Some(headers[name][0])
    } else {
        None
    }
}

/// The length that the value of a `content-length` header gives: digits,
/// with or without a plus sign before them, that write a number which fits
/// the machine word.
pub open spec fn content_length_of(value: Seq<u8>) -> Option<usize> {
    if value.len() > 0 && value[0] == '+' as u8 {
        decimal_number_of(value.drop_first())
    } else {
        decimal_number_of(value)
    }
}

/// The parameters that every request has: those that `fastcgi_client` sets
/// by itself, the method, the script, and the fixed names and addresses that
/// stand for the request's path and for both ends of the connection.
pub open spec fn fixed_entries(script: Seq<char>, method: Seq<char>) -> Map<Seq<char>, Seq<char>> {
    default_entries().insert("REQUEST_METHOD"@, method).insert("SCRIPT_FILENAME"@, script).insert(
        "SCRIPT_NAME"@,
        "/indx.php"@,
    ).insert("REQUEST_URI"@, "/"@).insert("REMOTE_ADDR"@, "127.0.0.1"@).insert(
        "REMOTE_PORT"@,
        "12345"@,
    ).insert("SERVER_ADDR"@, "127.0.0.1"@).insert("SERVER_PORT"@, "80"@).insert(
        "SERVER_NAME"@,
        "localhost"@,
    )
}

/// `entries`, with the length of the body where the request gives one.
pub open spec fn with_content_length(
    entries: Map<Seq<char>, Seq<char>>,
    header: Option<Seq<u8>>,
) -> Result<Map<Seq<char>, Seq<char>>, GatewayError> {
    match header {
        None => Ok(entries),
        Some(value) => match content_length_of(value) {
            None => Err(GatewayError::MalformedHeader),
            Some(length) => Ok(entries.insert("CONTENT_LENGTH"@, decimal_text(length as nat))),
        },
    }
}

/// `entries`, with the type of the body where the request gives one.
pub open spec fn with_content_type(
    entries: Map<Seq<char>, Seq<char>>,
    header: Option<Seq<u8>>,
) -> Result<Map<Seq<char>, Seq<char>>, GatewayError> {
    match header {
        None => Ok(entries),
        Some(value) => if is_visible_text(value) {
            Ok(entries.insert("CONTENT_TYPE"@, bytes_as_chars(value)))
        } else {
            Err(GatewayError::MalformedHeader)
        },
    }
}

/// The parameters of a request with the method `method` and the headers
/// `headers`, for the script `script`.
pub open spec fn request_entries(
    script: Seq<char>,
    method: Seq<char>,
    headers: Map<Seq<u8>, Seq<Seq<u8>>>,
) -> Result<Map<Seq<char>, Seq<char>>, GatewayError> {
    match with_content_length(
        fixed_entries(script, method),
        first_value(headers, content_length_name()),
    ) {
        Err(e) => Err(e),
        Ok(entries) => with_content_type(entries, first_value(headers, content_type_name())),
    }
}

/// What a parameter set holds, or the error.
pub open spec fn entries_read(outcome: Result<Params<'_>, GatewayError>) -> Result<
    Map<Seq<char>, Seq<char>>,
    GatewayError,
> {
    match outcome {
        Ok(params) => Ok(params_entries(params)),
        Err(e) => Err(e),
    }
}

/// Reads the value of a `content-length` header.
pub fn parse_content_length(value: &[u8]) -> (length: Option<usize>)
    ensures
        length == content_length_of(value@),
{
    let len = value.len();
    if len > 0 && value[0] == 43 {
        decimal_number(slice_subrange(value, 1, len))
    } else {
        decimal_number(value)
    }
}

/// The parameters that the backend is sent for one request.
pub fn translate_request<'a>(
    config: &'a FpmConfig,
    method: &'a str,
    headers: &'a HeaderMap<HeaderValue>,
) -> (outcome: Result<Params<'a>, GatewayError>)
    ensures
        entries_read(outcome) == request_entries(
            config@.script_path,
            method@,
            header_map_values(*headers),
        ),
{
    proof {
        reveal_strlit("12345");
        reveal_strlit("80");
        reveal_strlit("content-length");
        reveal_strlit("content-type");
        reveal_with_fuel(decimal_text, 5);
        assert(decimal_text(12345) =~= "12345"@);
        assert(decimal_text(80) =~= "80"@);
    }
    let mut params = params_default();
    params = params_request_method(params, method);
    params = params_script_filename(params, config.script_path());
    params = params_script_name(params, "/indx.php");
    params = params_request_uri(params, "/");
    params = params_remote_addr(params, "127.0.0.1");
    params = params_remote_port(params, REMOTE_PORT);
    params = params_server_addr(params, "127.0.0.1");
    params = params_server_port(params, SERVER_PORT);
    params = params_server_name(params, "localhost");
    let size_name = header_name_from_static("content-length");
    if let Some(value) = header_map_get(headers, &size_name) {
        match parse_content_length(header_value_as_bytes(value)) {
            None => {
                return Err(GatewayError::MalformedHeader);
            },
            Some(length) => {
                params = params_content_length(params, length);
            },
        }
    }
    let kind_name = header_name_from_static("content-type");
    if let Some(value) = header_map_get(headers, &kind_name) {
        match header_value_to_str(value) {
            None => {
                return Err(GatewayError::MalformedHeader);
            },
            Some(text) => {
                params = params_content_type(params, text);
            },
        }
    }
    Ok(params)
}

} // verus!

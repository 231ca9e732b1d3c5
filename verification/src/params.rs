//! The parameter set of the `fastcgi_client` crate, as the gateway fills it.
//!
//! The functions marked `external_body` call the builder methods of
//! `Params`; their contracts say what its source shows and are not proved
//! here.

use crate::ascii::decimal_text;
use fastcgi_client::Params;
use vstd::prelude::*;

verus! {

/// `fastcgi_client::Params`; what it holds is seen through `params_entries`.
#[verifier::external_type_specification]
#[verifier::external_body]
pub struct ExParams<'a>(Params<'a>);

/// What a parameter set holds: the value under each name that is present.
pub uninterp spec fn params_entries(params: Params<'_>) -> Map<Seq<char>, Seq<char>>;

/// The three entries that `Params::default` starts with.
pub open spec fn default_entries() -> Map<Seq<char>, Seq<char>> {
    Map::empty().insert("GATEWAY_INTERFACE"@, "FastCGI/1.0"@).insert(
        "SERVER_SOFTWARE"@,
        "fastcgi-client-rs"@,
    ).insert("SERVER_PROTOCOL"@, "HTTP/1.1"@)
}

/// `Params::default`: the gateway interface, the server software and the
/// server protocol, as the crate names them.
#[verifier::external_body]
pub(crate) fn params_default<'a>() -> (out: Params<'a>)
    ensures
        params_entries(out) == default_entries(),
{
    Params::default()
}

/// `Params::request_method`: sets `REQUEST_METHOD` to `value`.
#[verifier::external_body]
pub(crate) fn params_request_method<'a>(params: Params<'a>, value: &'a str) -> (out: Params<'a>)
    ensures
        params_entries(out) == params_entries(params).insert("REQUEST_METHOD"@, value@),
{
    params.request_method(value)
}

/// `Params::script_filename`: sets `SCRIPT_FILENAME` to `value`.
#[verifier::external_body]
pub(crate) fn params_script_filename<'a>(params: Params<'a>, value: &'a str) -> (out: Params<'a>)
    ensures
        params_entries(out) == params_entries(params).insert("SCRIPT_FILENAME"@, value@),
{
    params.script_filename(value)
}

/// `Params::script_name`: sets `SCRIPT_NAME` to `value`.
#[verifier::external_body]
pub(crate) fn params_script_name<'a>(params: Params<'a>, value: &'a str) -> (out: Params<'a>)
    ensures
        params_entries(out) == params_entries(params).insert("SCRIPT_NAME"@, value@),
{
    params.script_name(value)
}

/// `Params::request_uri`: sets `REQUEST_URI` to `value`.
#[verifier::external_body]
pub(crate) fn params_request_uri<'a>(params: Params<'a>, value: &'a str) -> (out: Params<'a>)
    ensures
        params_entries(out) == params_entries(params).insert("REQUEST_URI"@, value@),
{
    params.request_uri(value)
}

/// `Params::remote_addr`: sets `REMOTE_ADDR` to `value`.
#[verifier::external_body]
pub(crate) fn params_remote_addr<'a>(params: Params<'a>, value: &'a str) -> (out: Params<'a>)
    ensures
        params_entries(out) == params_entries(params).insert("REMOTE_ADDR"@, value@),
{
    params.remote_addr(value)
}

/// `Params::server_addr`: sets `SERVER_ADDR` to `value`.
#[verifier::external_body]
pub(crate) fn params_server_addr<'a>(params: Params<'a>, value: &'a str) -> (out: Params<'a>)
    ensures
        params_entries(out) == params_entries(params).insert("SERVER_ADDR"@, value@),
{
    params.server_addr(value)
}

/// `Params::server_name`: sets `SERVER_NAME` to `value`.
#[verifier::external_body]
pub(crate) fn params_server_name<'a>(params: Params<'a>, value: &'a str) -> (out: Params<'a>)
    ensures
        params_entries(out) == params_entries(params).insert("SERVER_NAME"@, value@),
{
    params.server_name(value)
}

/// `Params::content_type`: sets `CONTENT_TYPE` to `value`.
#[verifier::external_body]
pub(crate) fn params_content_type<'a>(params: Params<'a>, value: &'a str) -> (out: Params<'a>)
    ensures
        params_entries(out) == params_entries(params).insert("CONTENT_TYPE"@, value@),
{
    params.content_type(value)
}

/// `Params::remote_port`: sets `REMOTE_PORT` to `value`, written in base ten.
#[verifier::external_body]
pub(crate) fn params_remote_port<'a>(params: Params<'a>, value: u16) -> (out: Params<'a>)
    ensures
        params_entries(out) == params_entries(params).insert(
            "REMOTE_PORT"@,
            decimal_text(value as nat),
        ),
{
    params.remote_port(value)
}

/// `Params::server_port`: sets `SERVER_PORT` to `value`, written in base ten.
#[verifier::external_body]
pub(crate) fn params_server_port<'a>(params: Params<'a>, value: u16) -> (out: Params<'a>)
    ensures
        params_entries(out) == params_entries(params).insert(
            "SERVER_PORT"@,
            decimal_text(value as nat),
        ),
{
    params.server_port(value)
}

/// `Params::content_length`: sets `CONTENT_LENGTH` to `value`, written in base ten.
#[verifier::external_body]
pub(crate) fn params_content_length<'a>(params: Params<'a>, value: usize) -> (out: Params<'a>)
    ensures
        params_entries(out) == params_entries(params).insert(
            "CONTENT_LENGTH"@,
            decimal_text(value as nat),
        ),
{
    params.content_length(value)
}

} // verus!

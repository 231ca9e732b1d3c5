//! The header types of the `http` crate, as the gateway uses them.
//!
//! The functions marked `external_body` call into `http`; their contracts
//! say what its source shows and are not proved here.

use crate::ascii::{ascii_lower, bytes_as_chars, chars_as_bytes};
use axum::http::header::{HeaderMap, HeaderName, HeaderValue};
use axum::http::StatusCode;
use vstd::prelude::*;

verus! {

/// The longest header name that `http` admits, in bytes.
pub const MAX_HEADER_NAME_LEN: usize = 65535;

/// The number of names below which a header map always takes one more.
///
/// `HeaderMap::try_insert` refuses only where its table would have to grow
/// beyond 32768 slots, or where it holds 32768 names. It asks for that growth
/// only with a table of more than 16384 slots that is full to three quarters
/// or, after many collisions, to a fifth: so never with fewer than 3277
/// names.
pub const HEADER_MAP_ROOM: usize = 3277;

/// `b` may stand in a header name: a letter, a digit, or one of
/// ``! # $ % & ' * + - . ^ _ ` | ~``.
pub open spec fn is_name_byte(b: u8) -> bool {
    ||| 'a' as u8 <= b <= 'z' as u8
    ||| 'A' as u8 <= b <= 'Z' as u8
    ||| '0' as u8 <= b <= '9' as u8
    ||| b == '!' as u8
    ||| b == '#' as u8
    ||| b == '$' as u8
    ||| b == '%' as u8
    ||| b == '&' as u8
    ||| b == '\'' as u8
    ||| b == '*' as u8
    ||| b == '+' as u8
    ||| b == '-' as u8
    ||| b == '.' as u8
    ||| b == '^' as u8
    ||| b == '_' as u8
    ||| b == '`' as u8
    ||| b == '|' as u8
    ||| b == '~' as u8
}

/// `name` can be a header name: not empty, not too long, of name bytes only.
pub open spec fn is_header_name(name: Seq<u8>) -> bool {
    &&& 1 <= name.len() <= MAX_HEADER_NAME_LEN
    &&& forall|i: int| 0 <= i < name.len() ==> is_name_byte(#[trigger] name[i])
}

/// `b` may stand in a header value: a tab, or any byte from the space on
/// but DEL.
pub open spec fn is_value_byte(b: u8) -> bool {
    b >= 32 && b != 127 || b == 9
}

/// `value` can be a header value.
pub open spec fn is_header_value(value: Seq<u8>) -> bool {
    forall|i: int| 0 <= i < value.len() ==> is_value_byte(#[trigger] value[i])
}

/// `b` is a tab or a visible ASCII character, the space included.
pub open spec fn is_visible_byte(b: u8) -> bool {
    32 <= b < 127 || b == 9
}

/// `value` is visible ASCII text.
pub open spec fn is_visible_text(value: Seq<u8>) -> bool {
    forall|i: int| 0 <= i < value.len() ==> is_visible_byte(#[trigger] value[i])
}

/// `c` is a lower-case letter, a digit or a hyphen.
pub open spec fn is_plain_name_char(c: char) -> bool {
    'a' <= c <= 'z' || '0' <= c <= '9' || c == '-'
}

/// `name` is a header name written in lower-case letters, digits and hyphens.
pub open spec fn is_plain_name(name: Seq<char>) -> bool {
    &&& 1 <= name.len() <= MAX_HEADER_NAME_LEN
    &&& forall|i: int| 0 <= i < name.len() ==> is_plain_name_char(#[trigger] name[i])
}

/// `http::header::HeaderName`; what it holds is seen through
/// `header_name_bytes`.
#[verifier::external_type_specification]
#[verifier::external_body]
pub struct ExHeaderName(HeaderName);

/// `http::header::HeaderValue`; what it holds is seen through
/// `header_value_bytes`.
#[verifier::external_type_specification]
#[verifier::external_body]
pub struct ExHeaderValue(HeaderValue);

/// `http::header::HeaderMap`; what it holds is seen through
/// `header_map_values`.
#[verifier::external_type_specification]
#[verifier::external_body]
#[verifier::reject_recursive_types(T)]
pub struct ExHeaderMap<T>(HeaderMap<T>);

/// The bytes that a header name holds; `http` keeps them in lower case.
pub uninterp spec fn header_name_bytes(name: HeaderName) -> Seq<u8>;

/// The bytes that a header value holds.
pub uninterp spec fn header_value_bytes(value: HeaderValue) -> Seq<u8>;

/// What a header map holds: under each name that is present, its values in
/// the order in which they came.
pub uninterp spec fn header_map_values(map: HeaderMap<HeaderValue>) -> Map<Seq<u8>, Seq<Seq<u8>>>;

/// `HeaderName::from_bytes`: accepts exactly the header names, and keeps
/// them in lower case.
#[verifier::external_body]
pub(crate) fn header_name_from_bytes(src: &[u8]) -> (name: Option<HeaderName>)
    ensures
        name is Some <==> is_header_name(src@),
        name matches Some(n) ==> header_name_bytes(n) == ascii_lower(src@),
{
    HeaderName::from_bytes(src).ok()
}

/// `HeaderName::from_static`, which panics on a name that is not in lower
/// case: taken here only for names of lower-case letters, digits and hyphens.
#[verifier::external_body]
pub(crate) fn header_name_from_static(src: &'static str) -> (name: HeaderName)
    requires
        is_plain_name(src@),
    ensures
        header_name_bytes(name) == chars_as_bytes(src@),
{
    HeaderName::from_static(src)
}

/// `HeaderName::as_str`, as bytes.
#[verifier::external_body]
pub(crate) fn header_name_as_bytes(name: &HeaderName) -> (bytes: &[u8])
    ensures
        bytes@ == header_name_bytes(*name),
{
    name.as_str().as_bytes()
}

/// `HeaderValue::from_bytes`: accepts exactly the header values, and keeps
/// their bytes.
#[verifier::external_body]
pub(crate) fn header_value_from_bytes(src: &[u8]) -> (value: Option<HeaderValue>)
    ensures
        value is Some <==> is_header_value(src@),
        value matches Some(v) ==> header_value_bytes(v) == src@,
{
    HeaderValue::from_bytes(src).ok()
}

/// `HeaderValue::as_bytes`.
#[verifier::external_body]
pub(crate) fn header_value_as_bytes(value: &HeaderValue) -> (bytes: &[u8])
    ensures
        bytes@ == header_value_bytes(*value),
{
    value.as_bytes()
}

/// `HeaderValue::to_str`: the value as text, where it is visible ASCII.
#[verifier::external_body]
pub(crate) fn header_value_to_str(value: &HeaderValue) -> (text: Option<&str>)
    ensures
        text is Some <==> is_visible_text(header_value_bytes(*value)),
        text matches Some(s) ==> s@ == bytes_as_chars(header_value_bytes(*value)),
{
    value.to_str().ok()
}

/// `StatusCode::from_u16`: accepts the numbers from 100 to 999.
#[verifier::external_body]
pub(crate) fn status_code_from_u16(code: u16) -> (status: Option<u16>)
    ensures
        status == if 100 <= code <= 999 { Some(code) } else { None },
{
    match StatusCode::from_u16(code) {
        Ok(status) => Some(status.as_u16()),
        Err(_) => None,
    }
}

/// `HeaderMap::new`: a map that holds nothing.
#[verifier::external_body]
pub(crate) fn header_map_new() -> (map: HeaderMap<HeaderValue>)
    ensures
        header_map_values(map) =~= Map::empty(),
{
    HeaderMap::new()
}

/// `HeaderMap::try_insert`: puts `value` in the place of all that the map
/// held under `name`, or refuses for want of room and leaves the map as it
/// was. A map that holds fewer than `HEADER_MAP_ROOM` names never refuses;
/// whether a fuller one does is the map's own affair.
#[verifier::external_body]
pub(crate) fn header_map_try_insert(
    map: &mut HeaderMap<HeaderValue>,
    name: HeaderName,
    value: HeaderValue,
) -> (stored: bool)
    ensures
        stored ==> header_map_values(*final(map)) == header_map_values(*old(map)).insert(
            header_name_bytes(name),
            seq![header_value_bytes(value)],
        ),
        !stored ==> header_map_values(*final(map)) == header_map_values(*old(map)),
        header_map_values(*old(map)).dom().finite() && header_map_values(*old(map)).dom().len()
            < HEADER_MAP_ROOM ==> stored,
{
    map.try_insert(name, value).is_ok()
}

/// `HeaderMap::get`: the first value that the map holds under `name`.
#[verifier::external_body]
pub(crate) fn header_map_get<'a>(map: &'a HeaderMap<HeaderValue>, name: &HeaderName) -> (found:
    Option<&'a HeaderValue>)
    ensures
        found is Some <==> header_map_values(*map).dom().contains(header_name_bytes(*name)),
        found matches Some(v) ==> {
            let values = header_map_values(*map)[header_name_bytes(*name)];
            values.len() > 0 && header_value_bytes(*v) == values[0]
        },
{
    map.get(name)
}

} // verus!

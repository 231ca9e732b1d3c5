//! What holds of the parameters of every request.

use crate::ascii::{
    bytes_as_chars, chars_as_bytes, decimal_number_of, decimal_text, lemma_decimal_text_value,
};
use crate::error::GatewayError;
use crate::headers::is_visible_text;
use crate::request::{
    content_length_name, content_length_of, content_type_name, fixed_entries, request_entries,
};
use vstd::prelude::*;

verus! {

/// The names of the parameters that a request can have.
pub open spec fn param_names() -> Seq<Seq<char>> {
    seq![
        "GATEWAY_INTERFACE"@,
        "SERVER_SOFTWARE"@,
        "SERVER_PROTOCOL"@,
        "REQUEST_METHOD"@,
        "SCRIPT_FILENAME"@,
        "SCRIPT_NAME"@,
        "REQUEST_URI"@,
        "REMOTE_ADDR"@,
        "REMOTE_PORT"@,
        "SERVER_ADDR"@,
        "SERVER_PORT"@,
        "SERVER_NAME"@,
        "CONTENT_LENGTH"@,
        "CONTENT_TYPE"@,
    ]
}

/// No two of the parameter names are the same.
pub proof fn lemma_param_names_differ()
    ensures
        forall|i: int, j: int|
            0 <= i < j < 14 ==> #[trigger] param_names()[i] != #[trigger] param_names()[j],
{
    reveal_strlit("GATEWAY_INTERFACE");
    reveal_strlit("SERVER_SOFTWARE");
    reveal_strlit("SERVER_PROTOCOL");
    reveal_strlit("REQUEST_METHOD");
    reveal_strlit("SCRIPT_FILENAME");
    reveal_strlit("SCRIPT_NAME");
    reveal_strlit("REQUEST_URI");
    reveal_strlit("REMOTE_ADDR");
    reveal_strlit("REMOTE_PORT");
    reveal_strlit("SERVER_ADDR");
    reveal_strlit("SERVER_PORT");
    reveal_strlit("SERVER_NAME");
    reveal_strlit("CONTENT_LENGTH");
    reveal_strlit("CONTENT_TYPE");
    let names = param_names();
    assert forall|i: int, j: int| 0 <= i < j < 14 implies #[trigger] names[i]
        != #[trigger] names[j] by {
        let a = names[i];
        let b = names[j];
        if a.len() == b.len() {
            assert(a[0] != b[0] || a[1] != b[1] || a[2] != b[2] || a[7] != b[7] || a[8] != b[8]
                || a[10] != b[10]);
        }
    }
}

/// The parameter names, each told apart from every other.
proof fn lemma_param_names_apart()
    ensures
        forall|i: int, j: int|
            0 <= i < j < 14 ==> #[trigger] param_names()[i] != #[trigger] param_names()[j],
        param_names()[0] == "GATEWAY_INTERFACE"@,
        param_names()[1] == "SERVER_SOFTWARE"@,
        param_names()[2] == "SERVER_PROTOCOL"@,
        param_names()[3] == "REQUEST_METHOD"@,
        param_names()[4] == "SCRIPT_FILENAME"@,
        param_names()[5] == "SCRIPT_NAME"@,
        param_names()[6] == "REQUEST_URI"@,
        param_names()[7] == "REMOTE_ADDR"@,
        param_names()[8] == "REMOTE_PORT"@,
        param_names()[9] == "SERVER_ADDR"@,
        param_names()[10] == "SERVER_PORT"@,
        param_names()[11] == "SERVER_NAME"@,
        param_names()[12] == "CONTENT_LENGTH"@,
        param_names()[13] == "CONTENT_TYPE"@,
{
    lemma_param_names_differ();
}

/// The parameters that every request has are twelve: the three that
/// `fastcgi_client` sets, the method as it came, the configured script, and
/// seven fixed values. The length and the type of the body are not among
/// them.
pub proof fn law_fixed_entries(script: Seq<char>, method: Seq<char>)
    ensures
        ({
            let entries = fixed_entries(script, method);
            &&& forall|name: Seq<char>| #[trigger]
                entries.contains_key(name) <==> exists|i: int|
                    0 <= i < 12 && #[trigger] param_names()[i] == name
            &&& entries["GATEWAY_INTERFACE"@] == "FastCGI/1.0"@
            &&& entries["SERVER_SOFTWARE"@] == "fastcgi-client-rs"@
            &&& entries["SERVER_PROTOCOL"@] == "HTTP/1.1"@
            &&& entries["REQUEST_METHOD"@] == method
            &&& entries["SCRIPT_FILENAME"@] == script
            &&& entries["SCRIPT_NAME"@] == "/indx.php"@
            &&& entries["REQUEST_URI"@] == "/"@
            &&& entries["REMOTE_ADDR"@] == "127.0.0.1"@
            &&& entries["REMOTE_PORT"@] == "12345"@
            &&& entries["SERVER_ADDR"@] == "127.0.0.1"@
            &&& entries["SERVER_PORT"@] == "80"@
            &&& entries["SERVER_NAME"@] == "localhost"@
            &&& !entries.contains_key("CONTENT_LENGTH"@)
            &&& !entries.contains_key("CONTENT_TYPE"@)
        }),
{
    lemma_param_names_apart();
}

/// A request without `content-length` and without `content-type` is
/// translated, whatever its method, into the twelve parameters that every
/// request has: the method as it came, the configured script, and neither
/// the length nor the type of a body.
pub proof fn law_bare_request(
    script: Seq<char>,
    method: Seq<char>,
    headers: Map<Seq<u8>, Seq<Seq<u8>>>,
)
    requires
        !headers.contains_key(content_length_name()),
        !headers.contains_key(content_type_name()),
    ensures
        request_entries(script, method, headers) == Ok::<Map<Seq<char>, Seq<char>>, GatewayError>(
            fixed_entries(script, method),
        ),
        fixed_entries(script, method)["REQUEST_METHOD"@] == method,
        fixed_entries(script, method)["SCRIPT_FILENAME"@] == script,
        !fixed_entries(script, method).contains_key("CONTENT_LENGTH"@),
        !fixed_entries(script, method).contains_key("CONTENT_TYPE"@),
{
    law_fixed_entries(script, method);
}

/// Where the request's `content-length` is a number, the parameters carry
/// that number: its numeral in base ten, which reads back as the same
/// number. The translation then fails only where the request's
/// `content-type` is not visible ASCII.
pub proof fn law_content_length_carried(
    script: Seq<char>,
    method: Seq<char>,
    headers: Map<Seq<u8>, Seq<Seq<u8>>>,
    length: usize,
)
    requires
        headers.contains_key(content_length_name()),
        content_length_of(headers[content_length_name()][0]) == Some(length),
    ensures
        request_entries(script, method, headers) matches Ok(entries) ==> entries.contains_key(
            "CONTENT_LENGTH"@,
        ) && entries["CONTENT_LENGTH"@] == decimal_text(length as nat),
        decimal_number_of(chars_as_bytes(decimal_text(length as nat))) == Some(length),
        request_entries(script, method, headers) is Err ==> headers.contains_key(
            content_type_name(),
        ) && !is_visible_text(headers[content_type_name()][0]),
{
    lemma_param_names_apart();
    lemma_decimal_text_value(length as nat);
}

/// Where the request's `content-length` is not a number that fits the
/// machine word, the request is refused for a malformed header.
pub proof fn law_content_length_not_a_number(
    script: Seq<char>,
    method: Seq<char>,
    headers: Map<Seq<u8>, Seq<Seq<u8>>>,
)
    requires
        headers.contains_key(content_length_name()),
        content_length_of(headers[content_length_name()][0]) is None,
    ensures
        request_entries(script, method, headers) == Err::<
            Map<Seq<char>, Seq<char>>,
            GatewayError,
        >(GatewayError::MalformedHeader),
{
}

/// Where the request's `content-type` is visible ASCII, the parameters
/// carry it as it came.
pub proof fn law_content_type_carried(
    script: Seq<char>,
    method: Seq<char>,
    headers: Map<Seq<u8>, Seq<Seq<u8>>>,
)
    requires
        headers.contains_key(content_type_name()),
        is_visible_text(headers[content_type_name()][0]),
    ensures
        request_entries(script, method, headers) matches Ok(entries) ==> entries.contains_key(
            "CONTENT_TYPE"@,
        ) && entries["CONTENT_TYPE"@] == bytes_as_chars(headers[content_type_name()][0]),
{
}

/// Whatever the request holds, the script that the backend is told to run
/// is the configured one, and the method is the request's own.
pub proof fn law_script_is_configured(
    script: Seq<char>,
    method: Seq<char>,
    headers: Map<Seq<u8>, Seq<Seq<u8>>>,
)
    ensures
        request_entries(script, method, headers) matches Ok(entries) ==> {
            &&& entries.contains_key("SCRIPT_FILENAME"@)
            &&& entries["SCRIPT_FILENAME"@] == script
            &&& entries.contains_key("REQUEST_METHOD"@)
            &&& entries["REQUEST_METHOD"@] == method
        },
{
    lemma_param_names_apart();
    law_fixed_entries(script, method);
}

/// The only error of a translation is the malformed header.
pub proof fn law_translation_error(
    script: Seq<char>,
    method: Seq<char>,
    headers: Map<Seq<u8>, Seq<Seq<u8>>>,
)
    ensures
        request_entries(script, method, headers) matches Err(e) ==> e
            == GatewayError::MalformedHeader,
{
}

} // verus!

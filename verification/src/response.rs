//! Reading the backend's answer: a block of header lines, a blank line, the
//! body.

use crate::ascii::{
    ascii_lower, chars_as_bytes, decimal_number, decimal_value, digit_run, leading_digits,
    lemma_digit_run_is_run,
};
use crate::error::GatewayError;
use crate::headers::{
    header_map_new, header_map_try_insert, header_map_values, header_name_as_bytes,
    header_name_bytes, header_name_from_bytes, header_value_as_bytes, header_value_bytes,
    header_value_from_bytes, is_header_name, is_header_value, status_code_from_u16,
    HEADER_MAP_ROOM,
};
use crate::search::{find_first, first_occurrence, same_bytes};
use axum::http::header::{HeaderMap, HeaderName, HeaderValue};
use vstd::prelude::*;
use vstd::set_lib::lemma_len_subset;
use vstd::slice::{slice_subrange, slice_to_vec};

verus! {

/// The status of an answer that names none.
pub const DEFAULT_STATUS: u16 = 200;

/// The largest number that a status can be read from.
pub const MAX_STATUS_NUMBER: usize = 65535;

/// Carriage return.
pub const CR: u8 = 13;

/// Line feed.
pub const LF: u8 = 10;

/// The colon.
pub const COLON: u8 = 58;

/// The space.
pub const SPACE: u8 = 32;

/// The end of a header line: carriage return, line feed.
pub open spec fn line_end() -> Seq<u8> {
    seq![CR, LF]
}

/// The blank line that parts the header block from the body: two line ends.
pub open spec fn blank_line() -> Seq<u8> {
    seq![CR, LF, CR, LF]
}

/// What parts a header's name from its value: a colon and a space.
pub open spec fn name_end() -> Seq<u8> {
    seq![COLON, SPACE]
}

/// The name of the header that carries the status, in lower case.
pub open spec fn status_name() -> Seq<u8> {
    chars_as_bytes("status"@)
}

/// A header as plain bytes: the name in lower case, and the value.
pub struct Field {
    pub name: Seq<u8>,
    pub value: Seq<u8>,
}

/// A header as `http` holds it.
pub type Header = (HeaderName, HeaderValue);

/// The bytes of a header.
pub open spec fn field_of(header: Header) -> Field {
    Field { name: header_name_bytes(header.0), value: header_value_bytes(header.1) }
}

/// The bytes of a list of headers.
pub open spec fn fields_of(headers: Seq<Header>) -> Seq<Field> {
    Seq::new(headers.len(), |i: int| field_of(headers[i]))
}

/// The bytes of a header that was read, or the error.
pub open spec fn field_read(read: Result<Header, GatewayError>) -> Result<Field, GatewayError> {
    match read {
        Ok(header) => Ok(field_of(header)),
        Err(e) => Err(e),
    }
}

/// One header line, read. The name ends where `": "` first stands; the line
/// is malformed where it holds no `": "`, or where what stands before is no
/// header name, or what stands behind no header value.
pub open spec fn read_header_line(line: Seq<u8>) -> Result<Field, GatewayError> {
    match first_occurrence(line, name_end()) {
        None => Err(GatewayError::MalformedHeaderLine),
        Some(at) => {
            let name = line.subrange(0, at);
            let value = line.subrange(at + 2, line.len() as int);
            if is_header_name(name) && is_header_value(value) {
                Ok(Field { name: ascii_lower(name), value })
            } else {
                Err(GatewayError::MalformedHeaderLine)
            }
        },
    }
}

/// The status that the value of a `Status` header gives: the number that its
/// leading digits write, which must lie between 100 and 999. What follows
/// the digits is not read.
pub open spec fn read_status(value: Seq<u8>) -> Result<u16, GatewayError> {
    let digits = value.take(digit_run(value) as int);
    if digits.len() > 0 && 100 <= decimal_value(digits) <= 999 {
        Ok(decimal_value(digits) as u16)
    } else {
        Err(GatewayError::InvalidStatus)
    }
}

/// The first line of a header block: what stands before the first line end,
/// or the whole block where it holds none.
pub open spec fn first_line(block: Seq<u8>) -> Seq<u8> {
    match first_occurrence(block, line_end()) {
        Some(at) => block.subrange(0, at),
        None => block,
    }
}

/// What follows the first line of a header block and its line end.
pub open spec fn after_first_line(block: Seq<u8>) -> Seq<u8> {
    match first_occurrence(block, line_end()) {
        Some(at) => block.subrange(at + 2, block.len() as int),
        None => Seq::empty(),
    }
}

/// The lines of a header block. An empty block has none; a line end at the
/// very end of the block opens no further line.
pub open spec fn header_lines(block: Seq<u8>) -> Seq<Seq<u8>>
    decreases block.len(),
{
    if block.len() == 0 {
        Seq::empty()
    } else {
        seq![first_line(block)] + header_lines(after_first_line(block))
    }
}

/// What a header block says: the status, and the other headers in the order
/// of their lines.
pub struct Block {
    pub status: u16,
    pub fields: Seq<Field>,
}

/// `block` with one more line read. A header named `status`, in whatever
/// case, sets the status and is not kept as a header.
pub open spec fn add_line(block: Block, line: Seq<u8>) -> Result<Block, GatewayError> {
    match read_header_line(line) {
        Err(e) => Err(e),
        Ok(field) => if field.name == status_name() {
            match read_status(field.value) {
                Err(e) => Err(e),
                Ok(status) => Ok(Block { status, fields: block.fields }),
            }
        } else {
            Ok(Block { status: block.status, fields: block.fields.push(field) })
        },
    }
}

/// The lines of a header block, read in order: the error of the first line
/// that has one, else the last status given, or 200, and the headers.
pub open spec fn read_lines(lines: Seq<Seq<u8>>) -> Result<Block, GatewayError>
    decreases lines.len(),
{
    if lines.len() == 0 {
        Ok(Block { status: DEFAULT_STATUS, fields: Seq::empty() })
    } else {
        match read_lines(lines.drop_last()) {
            Err(e) => Err(e),
            Ok(block) => add_line(block, lines.last()),
        }
    }
}

/// The header mapping that a list of headers fills: each name holds the one
/// value that was given last under it.
pub open spec fn fields_map(fields: Seq<Field>) -> Map<Seq<u8>, Seq<Seq<u8>>>
    decreases fields.len(),
{
    if fields.len() == 0 {
        Map::empty()
    } else {
        fields_map(fields.drop_last()).insert(fields.last().name, seq![fields.last().value])
    }
}

/// What was read of a header block, as plain values, or the error.
pub open spec fn block_read(outcome: Result<(u16, Vec<Header>), GatewayError>) -> Result<
    Block,
    GatewayError,
> {
    match outcome {
        Ok((status, headers)) => Ok(Block { status, fields: fields_of(headers@) }),
        Err(e) => Err(e),
    }
}

/// An answer as plain values.
pub struct ResponseView {
    pub status: u16,
    pub headers: Map<Seq<u8>, Seq<Seq<u8>>>,
    pub body: Seq<u8>,
}

/// The answer that the bytes `data` hold. The header block ends where the
/// first blank line stands, and the body is all that follows it.
pub open spec fn parse_response(data: Seq<u8>) -> Result<ResponseView, GatewayError> {
    match first_occurrence(data, blank_line()) {
        None => Err(GatewayError::MissingBodyBoundary),
        Some(at) => match read_lines(header_lines(data.subrange(0, at))) {
            Err(e) => Err(e),
            Ok(block) => Ok(
                ResponseView {
                    status: block.status,
                    headers: fields_map(block.fields),
                    body: data.subrange(at + 4, data.len() as int),
                },
            ),
        },
    }
}

/// An answer of the backend, read.
pub struct ParsedResponse {
    pub status: u16,
    pub headers: HeaderMap<HeaderValue>,
    pub body: Vec<u8>,
}

impl View for ParsedResponse {
    type V = ResponseView;

    open spec fn view(&self) -> ResponseView {
        ResponseView {
            status: self.status,
            headers: header_map_values(self.headers),
            body: self.body@,
        }
    }
}

/// The number of names under which the answer holds a header.
pub open spec fn header_names(response: ResponseView) -> nat {
    response.headers.dom().len()
}

/// What `parse_fpm_response` answers on `data`. A malformed answer gives its
/// error. A well-formed one gives what it holds; only where it holds headers
/// under `HEADER_MAP_ROOM` names or more may the header map have refused one
/// of them.
pub open spec fn parse_outcome(
    data: Seq<u8>,
    outcome: Result<ParsedResponse, GatewayError>,
) -> bool {
    match parse_response(data) {
        Err(e) => outcome matches Err(x) && x == e,
        Ok(response) => match outcome {
            Ok(parsed) => parsed@ == response,
            Err(x) => x == GatewayError::HeaderMapFull && header_names(response)
                >= HEADER_MAP_ROOM,
        },
    }
}

/// An error among the first lines is the error of all the lines.
pub proof fn lemma_read_lines_error_stays(lines: Seq<Seq<u8>>, more: Seq<Seq<u8>>)
    requires
        read_lines(lines) is Err,
    ensures
        read_lines(lines + more) == read_lines(lines),
    decreases more.len(),
{
    if more.len() > 0 {
        lemma_read_lines_error_stays(lines, more.drop_last());
        assert((lines + more).drop_last() =~= lines + more.drop_last());
    }
}

/// Reading one more line after `lines` is adding it to what they said.
pub proof fn lemma_read_lines_push(lines: Seq<Seq<u8>>, line: Seq<u8>)
    ensures
        read_lines(lines.push(line)) == match read_lines(lines) {
            Err(e) => Err(e),
            Ok(block) => add_line(block, line),
        },
{
    assert(lines.push(line).drop_last() =~= lines);
}

/// Whether `name` is the name of the status header.
fn is_status_name(name: &[u8]) -> (yes: bool)
    ensures
        yes == (name@ == status_name()),
{
    let status = vec![115u8, 116u8, 97u8, 116u8, 117u8, 115u8];
    proof {
        reveal_strlit("status");
        assert(status@ =~= status_name());
    }
    same_bytes(name, status.as_slice())
}

/// Reads the status that the value of a `Status` header gives.
pub fn parse_status(value: &[u8]) -> (status: Result<u16, GatewayError>)
    ensures
        status == read_status(value@),
{
    let count = leading_digits(value);
    proof {
        lemma_digit_run_is_run(value@);
    }
    let digits = slice_subrange(value, 0, count);
    match decimal_number(digits) {
        None => Err(GatewayError::InvalidStatus),
        Some(number) => {
            if number > MAX_STATUS_NUMBER {
                return Err(GatewayError::InvalidStatus);
            }
            match status_code_from_u16(number as u16) {
                None => Err(GatewayError::InvalidStatus),
                Some(code) => Ok(code),
            }
        },
    }
}

/// Reads one header line.
pub fn parse_fpm_header(data: &[u8]) -> (header: Result<Header, GatewayError>)
    ensures
        field_read(header) == read_header_line(data@),
{
    let sep = vec![COLON, SPACE];
    let len = data.len();
    match find_first(data, sep.as_slice()) {
        None => Err(GatewayError::MalformedHeaderLine),
        Some(at) => {
            let name = header_name_from_bytes(slice_subrange(data, 0, at));
            let value = header_value_from_bytes(slice_subrange(data, at + 2, len));
            match (name, value) {
                (Some(name), Some(value)) => Ok((name, value)),
                _ => Err(GatewayError::MalformedHeaderLine),
            }
        },
    }
}

/// The lines of a header block, one after the other.
pub struct HeaderIter<'a> {
    data: &'a [u8],
}

impl<'a> View for HeaderIter<'a> {
    type V = Seq<u8>;

    /// What of the block is still to be read.
    closed spec fn view(&self) -> Seq<u8> {
        self.data@
    }
}

impl<'a> HeaderIter<'a> {
    /// Starts at the beginning of the header block `data`.
    pub fn new(data: &'a [u8]) -> (lines: HeaderIter<'a>)
        ensures
            lines@ == data@,
    {
        HeaderIter { data }
    }

    /// Reads the next line as a header, or tells that the block is at its
    /// end.
    pub fn next(&mut self) -> (item: Option<Result<Header, GatewayError>>)
        ensures
            old(self)@.len() == 0 ==> item is None && final(self)@ == old(self)@,
            old(self)@.len() > 0 ==> final(self)@ == after_first_line(old(self)@),
            old(self)@.len() > 0 ==> (item matches Some(read) && field_read(read)
                == read_header_line(first_line(old(self)@))),
    {
        if self.data.len() == 0 {
            return None;
        }
        let sep = vec![CR, LF];
        let line = match find_first(self.data, sep.as_slice()) {
            Some(at) => {
                let line = slice_subrange(self.data, 0, at);
                self.data = slice_subrange(self.data, at + 2, self.data.len());
                line
            },
            None => {
                let line = self.data;
                self.data = slice_subrange(self.data, 0, 0);
                line
            },
        };
        Some(parse_fpm_header(line))
    }
}

/// The lines of a block that is not empty are its first line and the lines
/// of what follows it.
proof fn lemma_next_line(seen: Seq<Seq<u8>>, rest: Seq<u8>)
    requires
        rest.len() > 0,
    ensures
        seen + header_lines(rest) == seen.push(first_line(rest)) + header_lines(
            after_first_line(rest),
        ),
{
}

/// The mapping of a list of headers with one more header.
proof fn lemma_fields_map_push(fields: Seq<Field>, field: Field)
    ensures
        fields_map(fields.push(field)) == fields_map(fields).insert(field.name, seq![field.value]),
{
    assert(fields.push(field).drop_last() =~= fields);
}

/// Reads a header block: the status, and the other headers in the order of
/// their lines.
pub fn parse_fpm_fields(block: &[u8]) -> (outcome: Result<(u16, Vec<Header>), GatewayError>)
    ensures
        block_read(outcome) == read_lines(header_lines(block@)),
{
    let mut status: u16 = DEFAULT_STATUS;
    let mut headers: Vec<Header> = Vec::new();
    let mut lines = HeaderIter::new(block);
    let ghost mut seen: Seq<Seq<u8>> = Seq::empty();
    assert(fields_of(headers@) =~= Seq::empty());
    loop
        invariant
            header_lines(block@) == seen + header_lines(lines@),
            read_lines(seen) == Ok::<Block, GatewayError>(
                Block { status, fields: fields_of(headers@) },
            ),
        decreases lines@.len(),
    {
        let ghost rest = lines@;
        let item = lines.next();
        proof {
            if rest.len() > 0 {
                lemma_next_line(seen, rest);
                lemma_read_lines_push(seen, first_line(rest));
                if read_lines(seen.push(first_line(rest))) is Err {
                    lemma_read_lines_error_stays(seen.push(first_line(rest)), header_lines(lines@));
                }
                seen = seen.push(first_line(rest));
            }
        }
        match item {
            None => {
                return Ok((status, headers));
            },
            Some(Err(e)) => {
                return Err(e);
            },
            Some(Ok((name, value))) => {
                if is_status_name(header_name_as_bytes(&name)) {
                    match parse_status(header_value_as_bytes(&value)) {
                        Err(e) => {
                            return Err(e);
                        },
                        Ok(code) => {
                            status = code;
                        },
                    }
                } else {
                    assert(fields_of(headers@.push((name, value))) =~= fields_of(headers@).push(
                        field_of((name, value)),
                    ));
                    headers.push((name, value));
                }
            },
        }
    }
}

/// A header mapping holds finitely many names, and no more than the headers
/// that filled it.
pub proof fn lemma_fields_map_size(fields: Seq<Field>)
    ensures
        fields_map(fields).dom().finite(),
        fields_map(fields).dom().len() <= fields.len(),
    decreases fields.len(),
{
    if fields.len() > 0 {
        lemma_fields_map_size(fields.drop_last());
    }
}

/// The first of a list of headers fill no name that the whole list does not
/// fill, and so no more names.
pub proof fn lemma_fields_map_grows(fields: Seq<Field>, count: int)
    requires
        0 <= count <= fields.len(),
    ensures
        fields_map(fields.take(count)).dom().subset_of(fields_map(fields).dom()),
        fields_map(fields.take(count)).dom().len() <= fields_map(fields).dom().len(),
    decreases fields.len() - count,
{
    if count == fields.len() {
        assert(fields.take(count) =~= fields);
    } else {
        lemma_fields_map_grows(fields, count + 1);
        let more = fields.take(count + 1);
        assert(more.drop_last() =~= fields.take(count));
        lemma_fields_map_size(fields);
        lemma_len_subset(fields_map(fields.take(count)).dom(), fields_map(fields).dom());
    }
}

/// Fills a header map with `headers`, one after the other, so that of the
/// headers of one name the last stays. `None` where the map refused one for
/// want of room, which it does only after it has taken `HEADER_MAP_ROOM`
/// names.
pub fn collect_headers(headers: Vec<Header>) -> (collected: Option<HeaderMap<HeaderValue>>)
    ensures
        collected matches Some(map) ==> header_map_values(map) == fields_map(fields_of(headers@)),
        collected is None ==> headers@.len() > HEADER_MAP_ROOM,
        collected is None ==> fields_map(fields_of(headers@)).dom().len() >= HEADER_MAP_ROOM,
{
    let mut map = header_map_new();
    let ghost all = headers@;
    for header in it: headers.into_iter()
        invariant
            it.seq() == all,
            header_map_values(map) == fields_map(fields_of(all.take(it.index() as int))),
    {
        let ghost at = it.index() as int;
        proof {
            lemma_fields_map_push(fields_of(all.take(at)), field_of(header));
            assert(fields_of(all.take(at + 1)) =~= fields_of(all.take(at)).push(field_of(header)));
            assert(fields_of(all.take(at)) =~= fields_of(all).take(at));
            lemma_fields_map_size(fields_of(all.take(at)));
            lemma_fields_map_grows(fields_of(all), at);
        }
        let (name, value) = header;
        if !header_map_try_insert(&mut map, name, value) {
            return None;
        }
    }
    assert(all.take(all.len() as int) =~= all);
    Some(map)
}

/// The answer of the given status and body, with the headers that were
/// collected; where they could not be, the header map was full.
pub fn finish_response(
    status: u16,
    collected: Option<HeaderMap<HeaderValue>>,
    body: Vec<u8>,
) -> (outcome: Result<ParsedResponse, GatewayError>)
    ensures
        match collected {
            Some(headers) => outcome matches Ok(parsed) && parsed == (ParsedResponse {
                status,
                headers,
                body,
            }),
            None => outcome matches Err(e) && e == GatewayError::HeaderMapFull,
        },
{
    match collected {
        Some(headers) => Ok(ParsedResponse { status, headers, body }),
        None => Err(GatewayError::HeaderMapFull),
    }
}

/// Reads an answer of the backend: status, headers and body.
pub fn parse_fpm_response(data: &[u8]) -> (outcome: Result<ParsedResponse, GatewayError>)
    ensures
        parse_outcome(data@, outcome),
{
    let sep = vec![CR, LF, CR, LF];
    let len = data.len();
    let at = match find_first(data, sep.as_slice()) {
        Some(at) => at,
        None => {
            return Err(GatewayError::MissingBodyBoundary);
        },
    };
    let (status, headers) = match parse_fpm_fields(slice_subrange(data, 0, at)) {
        Ok(read) => read,
        Err(e) => {
            return Err(e);
        },
    };
    let body = slice_to_vec(slice_subrange(data, at + 4, len));
    finish_response(status, collect_headers(headers), body)
}

} // verus!

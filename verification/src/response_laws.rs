//! What holds of every answer that is read.

use crate::ascii::{all_digits, ascii_lower, is_digit, lemma_digit_run};
use crate::error::GatewayError;
use crate::headers::{is_header_name, is_header_value, HEADER_MAP_ROOM};
use crate::response::{
    after_first_line, blank_line, fields_map, header_lines, header_names,
    lemma_fields_map_size, name_end, parse_outcome, parse_response, read_header_line,
    read_lines, read_status, status_name, Field, ParsedResponse,
};
use crate::search::{first_occurrence, is_first_occurrence, lemma_first_occurrence_none, occurs_at};
use vstd::prelude::*;

verus! {

/// `name` is the name of one of `fields`.
pub open spec fn names(fields: Seq<Field>, name: Seq<u8>) -> bool {
    exists|i: int| 0 <= i < fields.len() && #[trigger] fields[i].name == name
}

/// An answer in which no blank line stands is refused for want of a body
/// boundary.
pub proof fn law_no_blank_line_no_boundary(
    data: Seq<u8>,
    outcome: Result<ParsedResponse, GatewayError>,
)
    requires
        parse_outcome(data, outcome),
        forall|at: int| !occurs_at(data, blank_line(), at),
    ensures
        outcome matches Err(e) && e == GatewayError::MissingBodyBoundary,
{
    lemma_first_occurrence_none(data, blank_line());
}

/// A header line in which no `": "` stands is malformed.
pub proof fn law_no_separator_malformed(line: Seq<u8>)
    requires
        forall|at: int| !occurs_at(line, name_end(), at),
    ensures
        read_header_line(line) == Err::<Field, GatewayError>(GatewayError::MalformedHeaderLine),
{
    lemma_first_occurrence_none(line, name_end());
}

/// A `Status` value is read up to the end of its leading digits: what
/// follows them changes nothing.
pub proof fn law_status_reads_leading_digits(digits: Seq<u8>, rest: Seq<u8>)
    requires
        all_digits(digits),
        rest.len() == 0 || !is_digit(rest[0]),
    ensures
        read_status(digits + rest) == read_status(digits),
{
    let value = digits + rest;
    lemma_digit_run(value, digits.len());
    lemma_digit_run(digits, digits.len());
    assert(value.take(digits.len() as int) =~= digits);
    assert(digits.take(digits.len() as int) =~= digits);
}

/// Where a header block is well-formed, each of its lines is: it holds a
/// `": "` with a header name before and a header value behind, and gives a
/// status where it is named `status`.
pub proof fn law_well_formed_lines(lines: Seq<Seq<u8>>, k: int)
    requires
        read_lines(lines) is Ok,
        0 <= k < lines.len(),
    ensures
        read_header_line(lines[k]) matches Ok(field) && (field.name == status_name()
            ==> read_status(field.value) is Ok),
    decreases lines.len(),
{
    if k < lines.len() - 1 {
        law_well_formed_lines(lines.drop_last(), k);
    }
}

/// A name that a header mapping holds is the name of a header that filled it.
pub proof fn lemma_fields_map_names(fields: Seq<Field>, name: Seq<u8>)
    ensures
        fields_map(fields).contains_key(name) <==> names(fields, name),
    decreases fields.len(),
{
    if fields.len() > 0 {
        let before = fields.drop_last();
        lemma_fields_map_names(before, name);
        if names(before, name) {
            let i = choose|i: int| 0 <= i < before.len() && #[trigger] before[i].name == name;
            assert(fields[i].name == name);
        }
        if names(fields, name) {
            let i = choose|i: int| 0 <= i < fields.len() && #[trigger] fields[i].name == name;
            if i < fields.len() - 1 {
                assert(before[i].name == name);
            }
        }
        if fields.last().name == name {
            assert(fields[fields.len() - 1].name == name);
        }
    }
}

/// Of the headers of one name, the last gives the value, and it alone.
pub proof fn law_last_header_wins(fields: Seq<Field>, i: int)
    requires
        0 <= i < fields.len(),
        forall|j: int| i < j < fields.len() ==> (#[trigger] fields[j]).name != fields[i].name,
    ensures
        fields_map(fields).contains_key(fields[i].name),
        fields_map(fields)[fields[i].name] == seq![fields[i].value],
    decreases fields.len(),
{
    if i < fields.len() - 1 {
        law_last_header_wins(fields.drop_last(), i);
    }
}

/// The headers of a well-formed block: none is named `status`, and each
/// name is a header name in lower case.
pub proof fn lemma_fields_of_block(lines: Seq<Seq<u8>>, i: int)
    requires
        read_lines(lines) is Ok,
        0 <= i < read_lines(lines)->Ok_0.fields.len(),
    ensures
        ({
            let name = read_lines(lines)->Ok_0.fields[i].name;
            &&& name != status_name()
            &&& is_header_name(name)
            &&& ascii_lower(name) == name
            &&& is_header_value(read_lines(lines)->Ok_0.fields[i].value)
        }),
    decreases lines.len(),
{
    if lines.len() > 0 {
        let before = read_lines(lines.drop_last())->Ok_0;
        if i < before.fields.len() {
            lemma_fields_of_block(lines.drop_last(), i);
        }
    }
}

/// The header named `status` is never forwarded: the mapping of a
/// well-formed answer holds nothing under that name.
pub proof fn law_status_not_forwarded(data: Seq<u8>)
    ensures
        parse_response(data) matches Ok(response) ==> !response.headers.contains_key(
            status_name(),
        ),
{
    if let Ok(response) = parse_response(data) {
        let at = first_occurrence(data, blank_line())->0;
        let lines = header_lines(data.subrange(0, at));
        let fields = read_lines(lines)->Ok_0.fields;
        lemma_fields_map_names(fields, status_name());
        if names(fields, status_name()) {
            let i = choose|i: int| 0 <= i < fields.len() && #[trigger] fields[i].name
                == status_name();
            lemma_fields_of_block(lines, i);
        }
    }
}

/// Every name in the mapping of a well-formed answer is a header name in
/// lower case, and holds exactly one value, which is a header value.
pub proof fn law_header_names_lower_case(data: Seq<u8>, name: Seq<u8>)
    requires
        parse_response(data) is Ok,
        parse_response(data)->Ok_0.headers.contains_key(name),
    ensures
        is_header_name(name),
        ascii_lower(name) == name,
        parse_response(data)->Ok_0.headers[name].len() == 1,
        is_header_value(parse_response(data)->Ok_0.headers[name][0]),
{
    let at = first_occurrence(data, blank_line())->0;
    let lines = header_lines(data.subrange(0, at));
    let fields = read_lines(lines)->Ok_0.fields;
    lemma_fields_map_names(fields, name);
    let last = choose|i: int| last_of_name(fields, name, i);
    lemma_last_of_name(fields, name);
    lemma_fields_of_block(lines, last);
    law_last_header_wins(fields, last);
}

/// `i` is the place of the last of `fields` that is named `name`.
pub open spec fn last_of_name(fields: Seq<Field>, name: Seq<u8>, i: int) -> bool {
    &&& 0 <= i < fields.len()
    &&& fields[i].name == name
    &&& forall|j: int| i < j < fields.len() ==> (#[trigger] fields[j]).name != name
}

/// Where a header is named `name`, one is the last so named.
pub proof fn lemma_last_of_name(fields: Seq<Field>, name: Seq<u8>)
    requires
        names(fields, name),
    ensures
        exists|i: int| last_of_name(fields, name, i),
    decreases fields.len(),
{
    if fields.last().name == name {
        assert(last_of_name(fields, name, fields.len() - 1));
    } else {
        let before = fields.drop_last();
        let k = choose|k: int| 0 <= k < fields.len() && #[trigger] fields[k].name == name;
        assert(before[k].name == name);
        lemma_last_of_name(before, name);
        let i = choose|i: int| last_of_name(before, name, i);
        assert forall|j: int| i < j < fields.len() implies (#[trigger] fields[j]).name != name by {
            if j < before.len() {
                assert(before[j] == fields[j]);
            }
        }
        assert(last_of_name(fields, name, i));
    }
}

/// A well-formed answer is its header block, the first blank line, and its
/// body, in this order and with nothing between: block and body share no
/// byte, and the body is kept as it came.
pub proof fn law_block_blank_line_body(data: Seq<u8>)
    ensures
        parse_response(data) matches Ok(response) ==> exists|at: int|
            is_first_occurrence(data, blank_line(), at) && data == data.subrange(0, at)
                + blank_line() + response.body,
{
    if let Ok(response) = parse_response(data) {
        let at = first_occurrence(data, blank_line())->0;
        assert(is_first_occurrence(data, blank_line(), at));
        assert(data =~= data.subrange(0, at) + blank_line() + response.body);
    }
}

/// A header block has no more lines than bytes.
pub proof fn lemma_lines_no_more_than_bytes(block: Seq<u8>)
    ensures
        header_lines(block).len() <= block.len(),
    decreases block.len(),
{
    if block.len() > 0 {
        lemma_lines_no_more_than_bytes(after_first_line(block));
    }
}

/// A well-formed header block gives no more headers than it has lines.
pub proof fn lemma_fields_no_more_than_lines(lines: Seq<Seq<u8>>)
    requires
        read_lines(lines) is Ok,
    ensures
        read_lines(lines)->Ok_0.fields.len() <= lines.len(),
    decreases lines.len(),
{
    if lines.len() > 0 {
        lemma_fields_no_more_than_lines(lines.drop_last());
    }
}

/// A well-formed answer holds headers under finitely many names: no more
/// than its header block has lines, and so fewer than it has bytes.
pub proof fn law_names_fewer_than_bytes(data: Seq<u8>)
    requires
        parse_response(data) is Ok,
    ensures
        parse_response(data)->Ok_0.headers.dom().finite(),
        header_names(parse_response(data)->Ok_0) < data.len(),
{
    let at = first_occurrence(data, blank_line())->0;
    assert(is_first_occurrence(data, blank_line(), at));
    let block = data.subrange(0, at);
    let lines = header_lines(block);
    lemma_lines_no_more_than_bytes(block);
    lemma_fields_no_more_than_lines(lines);
    lemma_fields_map_size(read_lines(lines)->Ok_0.fields);
}

/// A well-formed answer with headers under fewer than `HEADER_MAP_ROOM`
/// names is read as what it holds: the header map refuses none of them.
pub proof fn law_few_names_are_read(data: Seq<u8>, outcome: Result<ParsedResponse, GatewayError>)
    requires
        parse_outcome(data, outcome),
        parse_response(data) is Ok,
        header_names(parse_response(data)->Ok_0) < HEADER_MAP_ROOM,
    ensures
        outcome matches Ok(parsed) && parsed@ == parse_response(data)->Ok_0,
{
}

/// A well-formed answer of no more than `HEADER_MAP_ROOM` bytes is read as
/// what it holds.
pub proof fn law_short_answers_are_read(
    data: Seq<u8>,
    outcome: Result<ParsedResponse, GatewayError>,
)
    requires
        parse_outcome(data, outcome),
        parse_response(data) is Ok,
        data.len() <= HEADER_MAP_ROOM,
    ensures
        outcome matches Ok(parsed) && parsed@ == parse_response(data)->Ok_0,
{
    law_names_fewer_than_bytes(data);
}

/// Reading the same bytes twice gives the same: the same error where the
/// bytes are malformed, and the same answer where they are well-formed and
/// hold headers under fewer than `HEADER_MAP_ROOM` names. Beyond that, two
/// answers that are read are still the same.
pub proof fn law_parse_twice(
    data: Seq<u8>,
    first: Result<ParsedResponse, GatewayError>,
    second: Result<ParsedResponse, GatewayError>,
)
    requires
        parse_outcome(data, first),
        parse_outcome(data, second),
    ensures
        parse_response(data) is Err ==> (first matches Err(a) && second matches Err(b) && a == b),
        parse_response(data) matches Ok(response) && header_names(response) < HEADER_MAP_ROOM
            ==> (first matches Ok(a) && second matches Ok(b) && a@ == b@),
        first matches Ok(a) ==> (second matches Ok(b) ==> a@ == b@),
{
}

} // verus!

//! Writing an answer and reading it gives the answer back.

use crate::ascii::{
    ascii_lower, chars_as_bytes, decimal_text, is_digit, lemma_decimal_text_value,
    lemma_digit_run,
};
use crate::error::GatewayError;
use crate::headers::{is_header_name, is_header_value, is_name_byte, is_value_byte};
use crate::response::{
    add_line, after_first_line, blank_line, fields_map, first_line, header_lines,
    lemma_read_lines_push, line_end, name_end, parse_response, read_header_line, read_lines,
    read_status, status_name, Block, Field, ResponseView, COLON, CR, DEFAULT_STATUS, LF,
};
use crate::search::{
    first_occurrence, lemma_first_occurrence_is, lemma_first_occurrence_none, occurs_at,
};
use vstd::prelude::*;

verus! {

/// `line` is not empty and holds neither a carriage return nor a line feed.
pub open spec fn is_plain_line(line: Seq<u8>) -> bool {
    &&& line.len() > 0
    &&& forall|i: int| 0 <= i < line.len() ==> (#[trigger] line[i]) != CR && line[i] != LF
}

/// Every one of `lines` is plain.
pub open spec fn all_plain(lines: Seq<Seq<u8>>) -> bool {
    forall|i: int| 0 <= i < lines.len() ==> is_plain_line(#[trigger] lines[i])
}

/// `lines`, with a line end between each two.
pub open spec fn join_lines(lines: Seq<Seq<u8>>) -> Seq<u8>
    decreases lines.len(),
{
    if lines.len() == 0 {
        Seq::empty()
    } else if lines.len() == 1 {
        lines[0]
    } else {
        lines[0] + line_end() + join_lines(lines.drop_first())
    }
}

/// The line that writes a header: the name, `": "`, the value.
pub open spec fn field_line(name: Seq<u8>, value: Seq<u8>) -> Seq<u8> {
    name + name_end() + value
}

/// The lines that write `fields`.
pub open spec fn field_lines(fields: Seq<Field>) -> Seq<Seq<u8>> {
    Seq::new(fields.len(), |i: int| field_line(fields[i].name, fields[i].value))
}

/// `fields`, with their names in lower case.
pub open spec fn lowered(fields: Seq<Field>) -> Seq<Field> {
    Seq::new(
        fields.len(),
        |i: int| Field { name: ascii_lower(fields[i].name), value: fields[i].value },
    )
}

/// Each of `fields` can be written as a header of its own: its name is a
/// header name other than `status`, its value a header value.
pub open spec fn writable(fields: Seq<Field>) -> bool {
    forall|i: int|
        0 <= i < fields.len() ==> {
            &&& is_header_name((#[trigger] fields[i]).name)
            &&& is_header_value(fields[i].value)
            &&& ascii_lower(fields[i].name) != status_name()
        }
}

/// The value of the header that writes the status `status`, with the note
/// `note` behind the number.
pub open spec fn status_value(status: u16, note: Seq<u8>) -> Seq<u8> {
    chars_as_bytes(decimal_text(status as nat)) + note
}

/// The line that writes the status `status`, with the note `note` behind
/// the number.
pub open spec fn status_line(status: u16, note: Seq<u8>) -> Seq<u8> {
    field_line(chars_as_bytes("Status"@), status_value(status, note))
}

/// An answer, written: the lines, a blank line, the body.
pub open spec fn written(lines: Seq<Seq<u8>>, body: Seq<u8>) -> Seq<u8> {
    join_lines(lines) + blank_line() + body
}

/// A header's line reads as the header, with its name in lower case, and is
/// plain.
pub proof fn lemma_field_line_reads(name: Seq<u8>, value: Seq<u8>)
    requires
        is_header_name(name),
        is_header_value(value),
    ensures
        read_header_line(field_line(name, value)) == Ok::<Field, GatewayError>(
            Field { name: ascii_lower(name), value },
        ),
        is_plain_line(field_line(name, value)),
{
    let line = field_line(name, value);
    let at = name.len() as int;
    assert(line.subrange(at, at + 2) =~= name_end());
    assert forall|earlier: int| 0 <= earlier < at implies !occurs_at(
        line,
        name_end(),
        earlier,
    ) by {
        assert(is_name_byte(name[earlier]));
        assert(line.subrange(earlier, earlier + 2)[0] == name[earlier]);
        assert(name_end()[0] == COLON);
    }
    lemma_first_occurrence_is(line, name_end(), at);
    assert(line.subrange(0, at) =~= name);
    assert(line.subrange(at + 2, line.len() as int) =~= value);
    assert forall|i: int| 0 <= i < line.len() implies (#[trigger] line[i]) != CR && line[i]
        != LF by {
        if i < at {
            assert(is_name_byte(name[i]));
        } else if i >= at + 2 {
            assert(is_value_byte(value[i - at - 2]));
        }
    }
}

/// The lines of `fields`, read after lines that said `before`, add `fields`
/// to it, with their names in lower case.
pub proof fn lemma_field_lines_read(first: Seq<Seq<u8>>, before: Block, fields: Seq<Field>)
    requires
        read_lines(first) == Ok::<Block, GatewayError>(before),
        writable(fields),
    ensures
        read_lines(first + field_lines(fields)) == Ok::<Block, GatewayError>(
            Block { status: before.status, fields: before.fields + lowered(fields) },
        ),
        all_plain(field_lines(fields)),
    decreases fields.len(),
{
    let lines = field_lines(fields);
    if fields.len() == 0 {
        assert(first + lines =~= first);
        assert(before.fields + lowered(fields) =~= before.fields);
    } else {
        let init = fields.drop_last();
        let last = fields.last();
        assert forall|i: int| 0 <= i < init.len() implies {
            &&& is_header_name((#[trigger] init[i]).name)
            &&& is_header_value(init[i].value)
            &&& ascii_lower(init[i].name) != status_name()
        } by {
            assert(init[i] == fields[i]);
        }
        lemma_field_lines_read(first, before, init);
        lemma_field_line_reads(last.name, last.value);
        assert((first + lines).drop_last() =~= first + field_lines(init));
        assert((first + lines).last() == field_line(last.name, last.value));
        assert(before.fields + lowered(fields) =~= (before.fields + lowered(init)).push(
            Field { name: ascii_lower(last.name), value: last.value },
        ));
        assert forall|i: int| 0 <= i < lines.len() implies is_plain_line(#[trigger] lines[i]) by {
            if i < init.len() {
                assert(lines[i] == field_lines(init)[i]);
            }
        }
    }
}

/// Plain lines, joined, are not empty and start as the first of them does.
pub proof fn lemma_join_starts(lines: Seq<Seq<u8>>)
    requires
        lines.len() > 0,
        all_plain(lines),
    ensures
        join_lines(lines).len() > 0,
        join_lines(lines)[0] == lines[0][0],
{
    assert(is_plain_line(lines[0]));
}

/// In plain lines, joined, a carriage return opens a line end that another
/// line follows.
pub proof fn lemma_join_line_ends(lines: Seq<Seq<u8>>, at: int)
    requires
        all_plain(lines),
        0 <= at < join_lines(lines).len(),
        join_lines(lines)[at] == CR,
    ensures
        at + 2 < join_lines(lines).len(),
        join_lines(lines)[at + 1] == LF,
        join_lines(lines)[at + 2] != CR,
    decreases lines.len(),
{
    assert(is_plain_line(lines[0]));
    if lines.len() >= 2 {
        let rest = lines.drop_first();
        assert forall|i: int| 0 <= i < rest.len() implies is_plain_line(#[trigger] rest[i]) by {
            assert(rest[i] == lines[i + 1]);
        }
        lemma_join_starts(rest);
        assert(is_plain_line(rest[0]));
        let first = lines[0].len() as int;
        if at >= first + 2 {
            lemma_join_line_ends(rest, at - first - 2);
        }
    }
}

/// The lines of plain lines, joined, are those lines.
pub proof fn lemma_lines_of_join(lines: Seq<Seq<u8>>)
    requires
        all_plain(lines),
    ensures
        header_lines(join_lines(lines)) == lines,
    decreases lines.len(),
{
    let block = join_lines(lines);
    if lines.len() == 0 {
        assert(header_lines(block) =~= lines);
    } else {
        assert(is_plain_line(lines[0]));
        let first = lines[0].len() as int;
        assert forall|earlier: int| 0 <= earlier < first implies !occurs_at(
            block,
            line_end(),
            earlier,
        ) by {
            if occurs_at(block, line_end(), earlier) {
                assert(block.subrange(earlier, earlier + 2)[0] == lines[0][earlier]);
                assert(line_end()[0] == CR);
            }
        }
        if lines.len() == 1 {
            assert forall|at: int| !occurs_at(block, line_end(), at) by {
                if occurs_at(block, line_end(), at) {
                    assert(block.subrange(at, at + 2)[0] == lines[0][at]);
                    assert(line_end()[0] == CR);
                }
            }
            lemma_first_occurrence_none(block, line_end());
            assert(header_lines(after_first_line(block)) =~= Seq::<Seq<u8>>::empty());
            assert(header_lines(block) =~= lines);
        } else {
            let rest = lines.drop_first();
            assert forall|i: int| 0 <= i < rest.len() implies is_plain_line(#[trigger] rest[i]) by {
                assert(rest[i] == lines[i + 1]);
            }
            assert(block.subrange(first, first + 2) =~= line_end());
            lemma_first_occurrence_is(block, line_end(), first);
            assert(first_line(block) =~= lines[0]);
            assert(after_first_line(block) =~= join_lines(rest));
            lemma_lines_of_join(rest);
            assert(header_lines(block) =~= lines);
        }
    }
}

/// In an answer written of plain lines, the first blank line is the one
/// that was written behind the lines.
pub proof fn lemma_first_blank_line(lines: Seq<Seq<u8>>, body: Seq<u8>)
    requires
        all_plain(lines),
    ensures
        first_occurrence(written(lines, body), blank_line()) == Some(
            join_lines(lines).len() as int,
        ),
{
    let block = join_lines(lines);
    let data = written(lines, body);
    let at = block.len() as int;
    assert(data.subrange(at, at + 4) =~= blank_line());
    assert forall|earlier: int| 0 <= earlier < at implies !occurs_at(
        data,
        blank_line(),
        earlier,
    ) by {
        if occurs_at(data, blank_line(), earlier) {
            let found = data.subrange(earlier, earlier + 4);
            assert(found[0] == data[earlier] && found[2] == data[earlier + 2]);
            assert(blank_line()[0] == CR && blank_line()[2] == CR);
            assert(data[earlier] == block[earlier]);
            lemma_join_line_ends(lines, earlier);
            assert(data[earlier + 2] == block[earlier + 2]);
        }
    }
    lemma_first_occurrence_is(data, blank_line(), at);
}

/// An answer written of plain lines reads as what its lines say, with the
/// body as it was written.
pub proof fn lemma_written_reads(lines: Seq<Seq<u8>>, body: Seq<u8>, said: Block)
    requires
        all_plain(lines),
        read_lines(lines) == Ok::<Block, GatewayError>(said),
    ensures
        parse_response(written(lines, body)) == Ok::<ResponseView, GatewayError>(
            ResponseView { status: said.status, headers: fields_map(said.fields), body },
        ),
{
    let block = join_lines(lines);
    let data = written(lines, body);
    let at = block.len() as int;
    lemma_first_blank_line(lines, body);
    lemma_lines_of_join(lines);
    assert(data.subrange(0, at) =~= block);
    assert(data.subrange(at + 4, data.len() as int) =~= body);
}

/// An answer that is written without a status, header by header, reads as
/// status 200 with those headers, their names in lower case, and the body
/// as it was written.
pub proof fn law_written_headers_read_back(fields: Seq<Field>, body: Seq<u8>)
    requires
        writable(fields),
    ensures
        parse_response(written(field_lines(fields), body)) == Ok::<ResponseView, GatewayError>(
            ResponseView {
                status: DEFAULT_STATUS,
                headers: fields_map(lowered(fields)),
                body,
            },
        ),
{
    let none = Seq::<Seq<u8>>::empty();
    let start = Block { status: DEFAULT_STATUS, fields: Seq::empty() };
    lemma_field_lines_read(none, start, fields);
    assert(none + field_lines(fields) =~= field_lines(fields));
    assert(start.fields + lowered(fields) =~= lowered(fields));
    lemma_written_reads(
        field_lines(fields),
        body,
        Block { status: DEFAULT_STATUS, fields: lowered(fields) },
    );
}

/// The line that writes a status between 100 and 999, followed by a note
/// that starts with no digit, is plain and sets that status.
pub proof fn lemma_status_line_reads(status: u16, note: Seq<u8>, before: Block)
    requires
        100 <= status <= 999,
        is_header_value(note),
        note.len() == 0 || !is_digit(note[0]),
    ensures
        is_plain_line(status_line(status, note)),
        add_line(before, status_line(status, note)) == Ok::<Block, GatewayError>(
            Block { status, fields: before.fields },
        ),
{
    reveal_strlit("Status");
    reveal_strlit("status");
    let name = chars_as_bytes("Status"@);
    let numeral = chars_as_bytes(decimal_text(status as nat));
    let value = status_value(status, note);
    assert(ascii_lower(name) =~= status_name());
    lemma_decimal_text_value(status as nat);
    assert forall|i: int| 0 <= i < value.len() implies is_value_byte(#[trigger] value[i]) by {
        if i < numeral.len() {
            assert(is_digit(numeral[i]));
        } else {
            assert(is_value_byte(note[i - numeral.len()]));
        }
    }
    lemma_field_line_reads(name, value);
    lemma_status_value_reads(status, note);
}

/// The value that writes a status between 100 and 999, followed by a note
/// that starts with no digit, gives that status.
pub proof fn lemma_status_value_reads(status: u16, note: Seq<u8>)
    requires
        100 <= status <= 999,
        note.len() == 0 || !is_digit(note[0]),
    ensures
        read_status(status_value(status, note)) == Ok::<u16, GatewayError>(status),
{
    let numeral = chars_as_bytes(decimal_text(status as nat));
    let value = status_value(status, note);
    lemma_decimal_text_value(status as nat);
    assert forall|i: int| 0 <= i < numeral.len() implies is_digit(#[trigger] value[i]) by {
        assert(is_digit(numeral[i]));
    }
    if note.len() > 0 {
        assert(value[numeral.len() as int] == note[0]);
    }
    lemma_digit_run(value, numeral.len());
    assert(value.take(numeral.len() as int) =~= numeral);
}

/// An answer that is written with a `Status` header first, the status
/// followed by a note that starts with no digit, and then header by header,
/// reads as that status with those headers, their names in lower case, and
/// the body as it was written.
pub proof fn law_written_answer_reads_back(
    status: u16,
    note: Seq<u8>,
    fields: Seq<Field>,
    body: Seq<u8>,
)
    requires
        100 <= status <= 999,
        is_header_value(note),
        note.len() == 0 || !is_digit(note[0]),
        writable(fields),
    ensures
        parse_response(written(seq![status_line(status, note)] + field_lines(fields), body))
            == Ok::<ResponseView, GatewayError>(
            ResponseView { status, headers: fields_map(lowered(fields)), body },
        ),
{
    let line = status_line(status, note);
    let first = seq![line];
    let start = Block { status: DEFAULT_STATUS, fields: Seq::empty() };
    let set = Block { status, fields: Seq::empty() };
    lemma_status_line_reads(status, note, start);
    lemma_read_lines_push(Seq::empty(), line);
    assert(first =~= Seq::<Seq<u8>>::empty().push(line));
    assert(read_lines(first) == Ok::<Block, GatewayError>(set));
    lemma_field_lines_read(first, set, fields);
    assert(set.fields + lowered(fields) =~= lowered(fields));
    let lines = first + field_lines(fields);
    assert forall|i: int| 0 <= i < lines.len() implies is_plain_line(#[trigger] lines[i]) by {
        if i > 0 {
            assert(lines[i] == field_lines(fields)[i - 1]);
        }
    }
    lemma_written_reads(lines, body, Block { status, fields: lowered(fields) });
}

} // verus!

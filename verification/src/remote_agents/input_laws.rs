//! Which lines are read from an input, and what is kept of an error text.

use vstd::prelude::*;
use vstd::string::*;

use crate::remote_agents::input::{
    capped, line_content, line_end, line_read, line_so_far, next_line, whole_input, LineReadModel,
    MAX_SNAPSHOT_LINE_BYTES,
};
use crate::text::decimal;

verus! {

/// The first line of an input ends behind its first newline.
pub proof fn lines_end_behind_their_newline(bytes: Seq<u8>, at: int)
    requires
        0 <= at < bytes.len(),
        bytes[at] == 10,
        forall|i: int| 0 <= i < at ==> #[trigger] bytes[i] != 10,
    ensures
        line_end(bytes) == at + 1,
    decreases at,
{
    if at > 0 {
        assert(bytes[0] != 10);
        let rest = bytes.drop_first();
        assert forall|i: int| 0 <= i < at - 1 implies #[trigger] rest[i] != 10 by {
            assert(rest[i] == bytes[i + 1]);
        }
        lines_end_behind_their_newline(rest, at - 1);
    }
}

/// An input without a newline is one line.
pub proof fn lines_without_newline_take_all(bytes: Seq<u8>)
    requires
        forall|i: int| 0 <= i < bytes.len() ==> #[trigger] bytes[i] != 10,
    ensures
        line_end(bytes) == bytes.len(),
    decreases bytes.len(),
{
    if bytes.len() > 0 {
        assert(bytes[0] != 10);
        let rest = bytes.drop_first();
        assert forall|i: int| 0 <= i < rest.len() implies #[trigger] rest[i] != 10 by {
            assert(rest[i] == bytes[i + 1]);
        }
        lines_without_newline_take_all(rest);
    }
}

/// What stands in a line is its start, up to the newlines and carriage returns at its end, and
/// nothing else is taken off.
pub proof fn only_line_ends_are_taken_off(line: Seq<u8>)
    ensures
        ({
            let content = line_content(line);
            &&& content.len() <= line.len()
            &&& content == line.take(content.len() as int)
            &&& forall|i: int|
                content.len() <= i < line.len() ==> #[trigger] line[i] == 10 || line[i] == 13
            &&& content.len() > 0 ==> content.last() != 10 && content.last() != 13
        }),
    decreases line.len(),
{
    if line.len() > 0 && (line.last() == 10 || line.last() == 13) {
        let rest = line.drop_last();
        only_line_ends_are_taken_off(rest);
        let content = line_content(line);
        assert(rest.take(content.len() as int) =~= line.take(content.len() as int));
        assert forall|i: int| content.len() <= i < line.len() implies #[trigger] line[i] == 10
            || line[i] == 13 by {
            if i < rest.len() {
                assert(rest[i] == line[i]);
            }
        }
    } else {
        assert(line.take(line.len() as int) =~= line);
    }
}

/// The next line of an input with a newline is what stands before it, without line ends, where the
/// line and its newline are not too long.
pub proof fn next_line_stands_before_the_newline(input: Seq<u8>, at: int, max_bytes: nat)
    requires
        0 <= at < input.len(),
        input[at] == 10,
        forall|i: int| 0 <= i < at ==> #[trigger] input[i] != 10,
    ensures
        at < max_bytes ==> next_line(input, max_bytes) == Ok::<Option<Seq<u8>>, Seq<char>>(
            Some(line_content(input.take(at))),
        ),
        at >= max_bytes ==> next_line(input, max_bytes) == Err::<Option<Seq<u8>>, Seq<char>>(
            "remote snapshot exceeds "@ + decimal(max_bytes) + " bytes"@,
        ),
{
    lines_end_behind_their_newline(input, at);
    let line = input.take(at + 1);
    assert(line.last() == 10);
    assert(line.drop_last() =~= input.take(at));
}

/// The next line of an input without a newline is all of it as it stands, where it is not too long;
/// an empty input has none.
pub proof fn last_line_is_what_is_left(input: Seq<u8>, max_bytes: nat)
    requires
        forall|i: int| 0 <= i < input.len() ==> #[trigger] input[i] != 10,
    ensures
        input.len() == 0 ==> next_line(input, max_bytes) == Ok::<Option<Seq<u8>>, Seq<char>>(None),
        0 < input.len() <= max_bytes ==> next_line(input, max_bytes) == Ok::<
            Option<Seq<u8>>,
            Seq<char>,
        >(Some(input)),
        input.len() > max_bytes ==> next_line(input, max_bytes) == Err::<
            Option<Seq<u8>>,
            Seq<char>,
        >("remote snapshot exceeds "@ + decimal(max_bytes) + " bytes"@),
{
    lines_without_newline_take_all(input);
    assert(input.take(input.len() as int) =~= input);
}

/// A line of a snapshot stream has at most a mebibyte.
pub proof fn snapshot_lines_have_a_mebibyte(input: Seq<u8>)
    requires
        input.len() > 0,
        forall|i: int| 0 <= i < input.len() ==> #[trigger] input[i] != 10,
    ensures
        next_line(input, MAX_SNAPSHOT_LINE_BYTES as nat) is Ok <==> input.len() <= 1_048_576,
{
    last_line_is_what_is_left(input, MAX_SNAPSHOT_LINE_BYTES as nat);
}

/// A reader that finds a newline gives the line so far with what stands before the newline, without
/// line ends, and takes what it gives and the newline from the bytes at hand.
pub proof fn lines_go_on_to_the_newline(
    line: Seq<u8>,
    available: Seq<u8>,
    at: int,
    max_bytes: nat,
)
    requires
        0 <= at < available.len(),
        available[at] == 10,
        forall|i: int| 0 <= i < at ==> #[trigger] available[i] != 10,
    ensures
        line.len() + at < max_bytes ==> line_read(line, available, max_bytes) == Ok::<
            LineReadModel,
            Seq<char>,
        >(
            LineReadModel::Line {
                consumed: at + 1,
                line: line_content(line + available.take(at)),
            },
        ),
        line.len() + at < max_bytes ==> line_so_far(line, available, max_bytes).len() == 0,
        line.len() + at >= max_bytes ==> line_read(line, available, max_bytes) is Err,
{
    lines_end_behind_their_newline(available, at);
    let longer = line + available.take(at + 1);
    assert(longer.last() == 10);
    assert(longer.drop_last() =~= line + available.take(at));
}

/// A reader that finds no newline takes all bytes at hand into the line so far, and at the end of
/// the input gives the line as it is, or says that there is none.
pub proof fn lines_without_newline_go_on(line: Seq<u8>, available: Seq<u8>, max_bytes: nat)
    requires
        forall|i: int| 0 <= i < available.len() ==> #[trigger] available[i] != 10,
    ensures
        available.len() > 0 && line.len() + available.len() <= max_bytes ==> line_read(
            line,
            available,
            max_bytes,
        ) == Ok::<LineReadModel, Seq<char>>(LineReadModel::More) && line_so_far(
            line,
            available,
            max_bytes,
        ) == line + available,
        available.len() > 0 && line.len() + available.len() > max_bytes ==> line_read(
            line,
            available,
            max_bytes,
        ) == Err::<LineReadModel, Seq<char>>(
            "remote snapshot exceeds "@ + decimal(max_bytes) + " bytes"@,
        ),
        available.len() == 0 && line.len() > 0 ==> line_read(line, available, max_bytes) == Ok::<
            LineReadModel,
            Seq<char>,
        >(LineReadModel::Line { consumed: 0, line }),
        available.len() == 0 && line.len() == 0 ==> line_read(line, available, max_bytes) == Ok::<
            LineReadModel,
            Seq<char>,
        >(LineReadModel::End),
{
    lines_without_newline_take_all(available);
    assert(available.take(available.len() as int) =~= available);
}

/// An input in pieces is the first piece and, behind it, the others.
pub proof fn pieces_stand_one_behind_the_other(first: Seq<u8>, others: Seq<Seq<u8>>)
    ensures
        whole_input(seq![first] + others) == first + whole_input(others),
        whole_input(Seq::empty()).len() == 0,
{
    assert((seq![first] + others).drop_first() =~= others);
}

/// Of an error text the first 32 kibibytes are kept, as they were read.
pub proof fn errors_are_kept_up_to_the_limit(stored: Seq<u8>, chunk: Seq<u8>)
    requires
        stored.len() <= 32_768,
    ensures
        ({
            let all = stored + chunk;
            &&& all.len() <= 32_768 ==> capped(stored, chunk) == all
            &&& all.len() > 32_768 ==> capped(stored, chunk) == all.take(32_768)
        }),
{
    if stored.len() == 32_768 {
        assert(stored =~= (stored + chunk).take(32_768));
        if chunk.len() == 0 {
            assert(stored =~= stored + chunk);
        }
    }
}

} // verus!

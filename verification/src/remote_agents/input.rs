//! What is read from the pipes of a snapshot stream: lines of limited length from its output, and
//! the start of what it writes as errors.

use vstd::prelude::*;

use crate::remote_agents::sanitize::{sanitize_remote_text, sanitized, MAX_REMOTE_TEXT_CHARS};
use crate::text::{numbered, numbered_text};

verus! {

/// The longest line that is accepted from a snapshot stream.
pub const MAX_SNAPSHOT_LINE_BYTES: usize = 1024 * 1024;

/// How much is kept of what a snapshot stream writes as errors.
pub const MAX_STDERR_BYTES: usize = 32 * 1024;

pub const NEWLINE: u8 = 10;

pub const CARRIAGE_RETURN: u8 = 13;

/// Where a line ends in the given bytes: behind the first newline, or at their end.
pub open spec fn line_end(bytes: Seq<u8>) -> int
    decreases bytes.len(),
{
    if bytes.len() == 0 {
        0
    } else if bytes[0] == NEWLINE {
        1
    } else {
        1 + line_end(bytes.drop_first())
    }
}

/// A line without the newlines and carriage returns at its end.
pub open spec fn line_content(line: Seq<u8>) -> Seq<u8>
    decreases line.len(),
{
    if line.len() > 0 && (line.last() == NEWLINE || line.last() == CARRIAGE_RETURN) {
        line_content(line.drop_last())
    } else {
        line
    }
}

pub open spec fn line_too_long(max_bytes: nat) -> Seq<char> {
    numbered("remote snapshot exceeds "@, max_bytes, " bytes"@)
}

/// The next line of a whole input, from its start: nothing at the end of the input; what a
/// newline ends, without it; or what is left where no newline follows.
pub open spec fn next_line(input: Seq<u8>, max_bytes: nat) -> Result<Option<Seq<u8>>, Seq<char>> {
    let line = input.take(line_end(input));
    if input.len() == 0 {
        Ok(None)
    } else if line.len() > max_bytes {
        Err(line_too_long(max_bytes))
    } else if line.last() == NEWLINE {
        Ok(Some(line_content(line)))
    } else {
        Ok(Some(line))
    }
}

/// What comes of the bytes that a reader has at hand.
#[derive(Debug, PartialEq, Eq)]
pub enum LineRead {
    /// All of them belong to a line that goes on.
    More,
    /// A line ends after the given number of them.
    Line { consumed: usize, line: Vec<u8> },
    /// The input is at its end.
    End,
}

/// What comes of the bytes that a reader has at hand, as mathematical values.
pub enum LineReadModel {
    More,
    Line { consumed: int, line: Seq<u8> },
    End,
}

impl View for LineRead {
    type V = LineReadModel;

    open spec fn view(&self) -> LineReadModel {
        match self {
            LineRead::More => LineReadModel::More,
            LineRead::Line { consumed, line } => LineReadModel::Line {
                consumed: *consumed as int,
                line: line@,
            },
            LineRead::End => LineReadModel::End,
        }
    }
}

/// What comes of the bytes at hand, where the line so far is `line`. That there are none means
/// that the input is at its end.
pub open spec fn line_read(line: Seq<u8>, available: Seq<u8>, max_bytes: nat) -> Result<
    LineReadModel,
    Seq<char>,
> {
    let consumed = line_end(available);
    let longer = line + available.take(consumed);
    if available.len() == 0 {
        if line.len() == 0 {
            Ok(LineReadModel::End)
        } else {
            Ok(LineReadModel::Line { consumed: 0, line })
        }
    } else if longer.len() > max_bytes {
        Err(line_too_long(max_bytes))
    } else if available[consumed - 1] == NEWLINE {
        Ok(LineReadModel::Line { consumed, line: line_content(longer) })
    } else {
        Ok(LineReadModel::More)
    }
}

/// The line so far, once a reader has gone on.
pub open spec fn line_so_far(line: Seq<u8>, available: Seq<u8>, max_bytes: nat) -> Seq<u8> {
    match line_read(line, available, max_bytes) {
        Ok(LineReadModel::More) => line + available,
        Ok(_) => Seq::empty(),
        Err(_) => line,
    }
}

proof fn lemma_line_end(bytes: Seq<u8>)
    ensures
        0 <= line_end(bytes) <= bytes.len(),
        bytes.len() > 0 ==> line_end(bytes) > 0,
        forall|i: int| 0 <= i < line_end(bytes) - 1 ==> #[trigger] bytes[i] != NEWLINE,
        0 < line_end(bytes) < bytes.len() ==> bytes[line_end(bytes) - 1] == NEWLINE,
    decreases bytes.len(),
{
    if bytes.len() > 0 && bytes[0] != NEWLINE {
        lemma_line_end(bytes.drop_first());
        assert forall|i: int| 0 <= i < line_end(bytes) - 1 implies #[trigger] bytes[i]
            != NEWLINE by {
            if i > 0 {
                assert(bytes.drop_first()[i - 1] == bytes[i]);
            }
        }
        if line_end(bytes) < bytes.len() && line_end(bytes) > 1 {
            assert(bytes.drop_first()[line_end(bytes) - 2] == bytes[line_end(bytes) - 1]);
        }
    }
}

proof fn lemma_line_end_is(bytes: Seq<u8>, end: int)
    requires
        0 < end <= bytes.len(),
        forall|i: int| 0 <= i < end - 1 ==> #[trigger] bytes[i] != NEWLINE,
        end < bytes.len() ==> bytes[end - 1] == NEWLINE,
    ensures
        line_end(bytes) == end,
{
    lemma_line_end(bytes);
    if line_end(bytes) < end {
        assert(bytes[line_end(bytes) - 1] != NEWLINE);
    } else if end < line_end(bytes) {
        assert(bytes[end - 1] != NEWLINE);
    }
}

/// Takes the end of the line, if it is there, from the bytes that a reader has at hand; with no
/// bytes at hand the input is at its end. A line that is too long is refused before it is stored.
/// The reader then goes on behind the bytes that were consumed.
pub fn read_bounded_line(line: &mut Vec<u8>, available: &[u8], max_bytes: usize) -> (read: Result<
    LineRead,
    String,
>)
    ensures
        match (read, line_read(old(line)@, available@, max_bytes as nat)) {
            (Ok(read), Ok(model)) => read@ == model,
            (Err(error), Err(message)) => error@ == message,
            _ => false,
        },
        final(line)@ == line_so_far(old(line)@, available@, max_bytes as nat),
{
    let ghost start = line@;
    if available.len() == 0 {
        if line.len() == 0 {
            proof {
                assert(line@ =~= Seq::<u8>::empty());
            }
            return Ok(LineRead::End);
        }
        let mut whole: Vec<u8> = Vec::new();
        std::mem::swap(&mut whole, line);
        return Ok(LineRead::Line { consumed: 0, line: whole });
    }
    let mut newline: usize = 0;
    while newline < available.len() && available[newline] != NEWLINE
        invariant
            newline <= available.len(),
            forall|i: int| 0 <= i < newline ==> #[trigger] available@[i] != NEWLINE,
        decreases available.len() - newline,
    {
        newline = newline + 1;
    }
    let found_newline = newline < available.len();
    let consumed: usize = if found_newline {
        newline + 1
    } else {
        newline
    };
    proof {
        lemma_line_end_is(available@, consumed as int);
    }
    if consumed > max_bytes || line.len() > max_bytes - consumed {
        return Err(numbered_text("remote snapshot exceeds ", max_bytes, " bytes"));
    }
    let mut i: usize = 0;
    while i < consumed
        invariant
            i <= consumed <= available.len(),
            line@ == start + available@.take(i as int),
        decreases consumed - i,
    {
        line.push(available[i]);
        i = i + 1;
        proof {
            assert(line@ =~= start + available@.take(i as int));
        }
    }
    if !found_newline {
        proof {
            assert(available@.take(consumed as int) =~= available@);
        }
        return Ok(LineRead::More);
    }
    let mut content: Vec<u8> = Vec::new();
    std::mem::swap(&mut content, line);
    while content.len() > 0 && (content[content.len() - 1] == NEWLINE || content[content.len() - 1]
        == CARRIAGE_RETURN)
        invariant
            line_content(content@) == line_content(start + available@.take(consumed as int)),
        decreases content.len(),
    {
        proof {
            assert(content@.take(content@.len() - 1) =~= content@.drop_last());
        }
        content.truncate(content.len() - 1);
    }
    Ok(LineRead::Line { consumed, line: content })
}

/// An input that comes in pieces, as a whole.
pub open spec fn whole_input(pieces: Seq<Seq<u8>>) -> Seq<u8>
    decreases pieces.len(),
{
    if pieces.len() == 0 {
        Seq::empty()
    } else {
        pieces[0] + whole_input(pieces.drop_first())
    }
}

/// The line that is read from an input that comes in pieces, none of them empty, where the line
/// so far is `line`.
pub open spec fn line_of_pieces(line: Seq<u8>, pieces: Seq<Seq<u8>>, max_bytes: nat) -> Result<
    Option<Seq<u8>>,
    Seq<char>,
>
    decreases pieces.len(),
{
    let available = if pieces.len() == 0 {
        Seq::empty()
    } else {
        pieces[0]
    };
    match line_read(line, available, max_bytes) {
        Ok(LineReadModel::End) => Ok(None),
        Ok(LineReadModel::Line { consumed, line }) => Ok(Some(line)),
        Ok(LineReadModel::More) => if pieces.len() == 0 {
            Ok(None)
        } else {
            line_of_pieces(
                line_so_far(line, available, max_bytes),
                pieces.drop_first(),
                max_bytes,
            )
        },
        Err(message) => Err(message),
    }
}

/// The line that is read does not depend on the pieces in which the input comes.
pub proof fn pieces_do_not_matter(line: Seq<u8>, pieces: Seq<Seq<u8>>, max_bytes: nat)
    requires
        forall|i: int| 0 <= i < pieces.len() ==> (#[trigger] pieces[i]).len() > 0,
        !line.contains(NEWLINE),
        line.len() <= max_bytes,
    ensures
        line_of_pieces(line, pieces, max_bytes) == next_line(
            line + whole_input(pieces),
            max_bytes,
        ),
    decreases pieces.len(),
{
    let input = line + whole_input(pieces);
    lemma_line_end(input);
    if pieces.len() == 0 {
        assert(input =~= line);
        if line.len() > 0 {
            let last = line_end(input) - 1;
            assert(line.contains(input[last]));
            assert(input.take(line_end(input)) =~= line);
            assert(line.contains(line.last()));
        }
    } else {
        let available = pieces[0];
        let rest = whole_input(pieces.drop_first());
        let consumed = line_end(available);
        let longer = line + available.take(consumed);
        lemma_line_end(available);
        assert forall|i: int| 0 <= i < longer.len() - 1 implies #[trigger] input[i]
            != NEWLINE by {
            if i < line.len() {
                assert(line.contains(line[i]));
            } else {
                assert(available[i - line.len()] != NEWLINE);
            }
        }
        assert(input[longer.len() - 1] == available[consumed - 1]);
        if available[consumed - 1] == NEWLINE {
            lemma_line_end_is(input, longer.len() as int);
            assert(input.take(longer.len() as int) =~= longer);
        } else {
            assert(consumed == available.len());
            assert(longer =~= line + available);
            if line_end(input) < longer.len() {
                assert(input[line_end(input) - 1] != NEWLINE);
            }
            if longer.len() <= max_bytes {
                assert(!longer.contains(NEWLINE)) by {
                    if longer.contains(NEWLINE) {
                        let i = choose|i: int| 0 <= i < longer.len() && longer[i] == NEWLINE;
                        assert(input[i] == longer[i]);
                    }
                }
                assert(line + available + rest =~= input);
                assert forall|i: int| 0 <= i < pieces.drop_first().len() implies (
                #[trigger] pieces.drop_first()[i]).len() > 0 by {
                    assert(pieces[i + 1].len() > 0);
                }
                pieces_do_not_matter(longer, pieces.drop_first(), max_bytes);
            }
        }
    }
}

/// What is kept of an error text, once some more of it was read.
pub open spec fn capped(stored: Seq<u8>, chunk: Seq<u8>) -> Seq<u8> {
    if stored.len() >= MAX_STDERR_BYTES {
        stored
    } else if stored.len() + chunk.len() <= MAX_STDERR_BYTES {
        stored + chunk
    } else {
        (stored + chunk).take(MAX_STDERR_BYTES as int)
    }
}

/// Keeps what was read of an error text, up to the limit, and says whether to read on.
pub fn read_capped_stderr(stored: &mut Vec<u8>, chunk: &[u8]) -> (more: bool)
    ensures
        final(stored)@ == capped(old(stored)@, chunk@),
        more == (final(stored)@.len() < MAX_STDERR_BYTES),
{
    let ghost start = stored@;
    let remaining = MAX_STDERR_BYTES.saturating_sub(stored.len());
    let kept = if chunk.len() < remaining {
        chunk.len()
    } else {
        remaining
    };
    let mut i: usize = 0;
    while i < kept
        invariant
            i <= kept <= chunk.len(),
            stored@ == start + chunk@.take(i as int),
        decreases kept - i,
    {
        stored.push(chunk[i]);
        i = i + 1;
        proof {
            assert(stored@ =~= start + chunk@.take(i as int));
        }
    }
    proof {
        if kept == chunk@.len() && start.len() + chunk@.len() <= MAX_STDERR_BYTES {
            assert(chunk@.take(kept as int) =~= chunk@);
        }
        assert(stored@ =~= capped(start, chunk@));
    }
    stored.len() < MAX_STDERR_BYTES
}

/// What is kept of an error text does not depend on the pieces in which it comes.
pub proof fn capping_pieces_caps_the_whole(stored: Seq<u8>, a: Seq<u8>, b: Seq<u8>)
    requires
        stored.len() <= MAX_STDERR_BYTES,
    ensures
        capped(capped(stored, a), b) == capped(stored, a + b),
        capped(stored, a).len() <= MAX_STDERR_BYTES,
{
    assert(capped(capped(stored, a), b) =~= capped(stored, a + b));
}

/// The text that `String::from_utf8_lossy` makes of some bytes.
pub uninterp spec fn lossy_utf8(bytes: Seq<u8>) -> Seq<char>;

/// Decodes bytes with `String::from_utf8_lossy`. The result is a function of the bytes; where
/// they are valid UTF-8, it is the text that they encode. What stands for bytes that are not is
/// left to the name.
#[verifier::external_body]
fn text_of_bytes(bytes: &[u8]) -> (text: String)
    ensures
        text@ == lossy_utf8(bytes@),
        vstd::utf8::valid_utf8(bytes@) ==> text@ == vstd::utf8::decode_utf8(bytes@),
{
    String::from_utf8_lossy(bytes).into_owned()
}

/// The error text of a snapshot stream, as it is shown.
pub fn stderr_text(stored: &[u8]) -> (text: String)
    ensures
        text@ == sanitized(lossy_utf8(stored@), MAX_REMOTE_TEXT_CHARS as nat),
        vstd::utf8::valid_utf8(stored@) ==> text@ == sanitized(
            vstd::utf8::decode_utf8(stored@),
            MAX_REMOTE_TEXT_CHARS as nat,
        ),
{
    let text = text_of_bytes(stored);
    sanitize_remote_text(text.as_str(), MAX_REMOTE_TEXT_CHARS)
}

} // verus!

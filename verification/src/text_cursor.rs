//! Reading characters and lines from a string slice at a UTF-8 byte position.
//!
//! A cursor into `text` is a byte position that ends a prefix of `index`
//! characters; the functions here take that character count alongside the
//! position, as a second `&mut usize`, and keep the two in step.
use vstd::prelude::*;
use vstd::string::StrSliceExecFns;
use vstd::utf8::encode_utf8;

use crate::line_ending::LineEnding;
use crate::line_ending_set::LineEndingSet;
use crate::line_scan::{
    LineScanner,
    joined,
    ScanOutcome,
    lemma_scan_start,
    lemma_scan_step,
    line_len,
    scan_invariant,
    scan_next,
};
use crate::utf8_text::{
    lemma_utf8_len_push,
    lemma_utf8_len_take_mono,
    str_suffix,
    string_push,
    string_push_str,
    utf8_len,
    utf8_width,
};

verus! {

/// Byte position and character count of the characters read so far.
#[derive(Clone, Copy, Debug)]
pub struct TextCursor {
    /// UTF-8 byte offset.
    pub position: usize,
    /// Number of characters before `position`.
    pub index: usize,
}

/// Whether `position` is the byte offset of the first `index` characters of
/// `text`.
pub open spec fn cursor_at(text: Seq<char>, position: int, index: int) -> bool {
    0 <= index <= text.len() && position == utf8_len(text.take(index))
}

/// The characters a source yields when `pending` is read before `rest`.
pub open spec fn with_pending(pending: Option<char>, rest: Seq<char>) -> Seq<char> {
    match pending {
        Some(ch) => seq![ch] + rest,
        None => rest,
    }
}

/// The byte position of the start of a text is zero.
pub proof fn lemma_cursor_start(text: Seq<char>)
    ensures
        cursor_at(text, 0, 0),
{
    assert(text.take(0) =~= Seq::<char>::empty());
    assert(encode_utf8(text.take(0)) =~= Seq::<u8>::empty());
}

/// Returns the length of `text` in UTF-8 bytes (`str::len`); a string slice
/// never spans more than `isize::MAX` bytes.
#[verifier::external_body]
pub(crate) fn str_len(text: &str) -> (len: usize)
    ensures
        len == utf8_len(text@),
        len <= isize::MAX,
{
    text.len()
}

/// The cursor is at the end of the text exactly when its byte position is
/// the text's byte length.
proof fn lemma_cursor_end(text: Seq<char>, index: int)
    requires
        0 <= index <= text.len(),
    ensures
        (utf8_len(text.take(index)) == utf8_len(text)) == (index == text.len()),
        utf8_len(text.take(index)) <= utf8_len(text),
{
    lemma_utf8_len_take_mono(text, index, text.len() as int);
    assert(text.take(text.len() as int) =~= text);
}

/// Reads the next character of `text` at byte `position`.
pub fn read_char_at(text: &str, position: &mut usize, index: &mut usize) -> (ch: Option<char>)
    requires
        cursor_at(text@, *old(position) as int, *old(index) as int),
    ensures
        *old(index) < text@.len() ==> ch == Some(text@[*old(index) as int]) && *final(index) == *old(
            index,
        ) + 1,
        *old(index) == text@.len() ==> ch.is_none() && *final(index) == *old(index),
        cursor_at(text@, *final(position) as int, *final(index) as int),
{
    proof {
        lemma_cursor_end(text@, *index as int);
        lemma_utf8_len_take_mono(text@, 0, text@.len() as int);
        assert(text@.take(text@.len() as int) =~= text@);
    }
    let ghost k = *index as int;
    let len = str_len(text);
    if *position >= len {
        return None;
    }
    let rest = str_suffix(text, *position, Ghost(k));
    let ch = rest.get_char(0);
    let width = utf8_width(ch);
    proof {
        assert(text@.take(k + 1) =~= text@.take(k).push(ch));
        lemma_utf8_len_push(text@.take(k), ch);
        lemma_cursor_end(text@, k + 1);
    }
    *position = *position + width;
    *index = *index + 1;
    Some(ch)
}

/// Reads up to `max` characters of `text` from byte `position` into
/// `output`, returning how many were appended.
pub fn read_chars_at(
    text: &str,
    position: &mut usize,
    cursor: &mut usize,
    output: &mut Vec<char>,
    max: usize,
) -> (count: usize)
    requires
        cursor_at(text@, *old(position) as int, *old(cursor) as int),
    ensures
        *final(cursor) == *old(cursor) + count,
        count == if max < text@.len() - *old(cursor) {
            max as int
        } else {
            text@.len() - *old(cursor)
        },
        cursor_at(text@, *final(position) as int, *old(cursor) + count),
        final(output)@ == old(output)@ + text@.subrange(*old(cursor) as int, *old(cursor) + count),
{
    let ghost index = *cursor as int;
    let mut count: usize = 0;
    while count < max
        invariant
            0 <= index,
            count <= max,
            index + count <= text@.len(),
            cursor_at(text@, *position as int, index + count),
            *cursor == index + count,
            output@ == old(output)@ + text@.subrange(index, index + count),
        ensures
            *cursor == index + count,
            count == max || index + count == text@.len(),
            count <= max,
            index + count <= text@.len(),
            cursor_at(text@, *position as int, index + count),
            output@ == old(output)@ + text@.subrange(index, index + count),
        decreases max - count,
    {
        match read_char_at(text, position, cursor) {
            Some(ch) => {
                assert(index + count < text@.len());
                output.push(ch);
                assert(text@.subrange(index, index + count + 1) =~= text@.subrange(
                    index,
                    index + count,
                ).push(ch));
                count = count + 1;
            },
            None => {
                break ;
            },
        }
    }
    count
}

/// Appends everything in `text` after byte `position` to `output`, moving
/// the position to the end, and returns the number of characters appended.
pub fn read_to_string_at(
    text: &str,
    position: &mut usize,
    cursor: &mut usize,
    output: &mut String,
) -> (count: usize)
    requires
        cursor_at(text@, *old(position) as int, *old(cursor) as int),
    ensures
        count == text@.len() - *old(cursor),
        text@.len() <= isize::MAX,
        *final(cursor) == text@.len(),
        cursor_at(text@, *final(position) as int, text@.len() as int),
        final(output)@ == old(output)@ + text@.skip(*old(cursor) as int),
{
    let ghost index = *cursor as int;
    let end = str_len(text);
    proof {
        lemma_utf8_len_take_mono(text@, 0, text@.len() as int);
        assert(text@.take(text@.len() as int) =~= text@);
    }
    let remaining = str_suffix(text, *position, Ghost(index));
    let count = remaining.unicode_len();
    string_push_str(output, remaining);
    *position = end;
    *cursor = *cursor + count;
    proof {
        assert(text@.take(text@.len() as int) =~= text@);
    }
    count
}

/// Number of characters held in `pending`.
pub open spec fn pending_len(pending: Option<char>) -> int {
    if pending is Some {
        1
    } else {
        0
    }
}

/// The character a line reader looks at past the end of the first line of
/// `stream` and hands back: the one after a closing carriage return, when
/// both CRLF and CR are accepted and more text follows.
pub open spec fn line_lookahead(stream: Seq<char>, set: LineEndingSet) -> Option<char> {
    let len = line_len(stream, set);
    if 1 <= len < stream.len() && stream[len - 1] == '\r' && set.accepts(LineEnding::CrLf)
        && set.accepts(LineEnding::Cr) {
        Some(stream[len])
    } else {
        None
    }
}

/// Reads one line of the stream made of `pending` followed by the text
/// after byte `position`, appending it to `output`. Returns whether
/// anything was read. A character looked at past the end of the line is
/// left in `pending`.
pub fn read_line_at_with(
    text: &str,
    position: &mut usize,
    cursor: &mut usize,
    line_endings: LineEndingSet,
    pending: &mut Option<char>,
    output: &mut String,
) -> (read: bool)
    requires
        cursor_at(text@, *old(position) as int, *old(cursor) as int),
    ensures
        ({
            let stream = with_pending(*old(pending), text@.skip(*old(cursor) as int));
            let len = line_len(stream, line_endings);
            &&& read == (stream.len() > 0)
            &&& final(output)@ == old(output)@ + stream.take(len)
            &&& cursor_at(text@, *final(position) as int, *final(cursor) as int)
            &&& with_pending(*final(pending), text@.skip(*final(cursor) as int)) == stream.skip(len)
            &&& *final(pending) == line_lookahead(stream, line_endings)
        }),
{
    let ghost index = *cursor as int;
    let ghost stream = with_pending(*pending, text@.skip(index));
    let ghost out0 = output@;
    let ghost mut emitted: Seq<char> = Seq::empty();
    let ghost mut consumed: int = 0;
    let mut scanner = LineScanner::new(line_endings);
    let mut read = false;
    proof {
        lemma_scan_start(line_endings, stream);
        assert(out0 + emitted =~= out0);
        assert(stream.skip(0) =~= stream);
    }
    loop
        invariant_except_break
            scan_invariant(line_endings, stream, consumed, scanner.after_cr, emitted),
            output@ == out0 + emitted,
            with_pending(*pending, text@.skip(*cursor as int)) == stream.skip(consumed),
            read == (consumed > 0),
            consumed > 0 ==> pending.is_none(),
        invariant
            scanner.line_endings == line_endings,
            stream == with_pending(*old(pending), text@.skip(index)),
            out0 == old(output)@,
            cursor_at(text@, *position as int, *cursor as int),
        ensures
            read == (stream.len() > 0),
            output@ == out0 + stream.take(line_len(stream, line_endings)),
            cursor_at(text@, *position as int, *cursor as int),
            with_pending(*pending, text@.skip(*cursor as int)) == stream.skip(line_len(stream, line_endings)),
            *pending == line_lookahead(stream, line_endings),
        decreases stream.len() - consumed,
    {
        let ghost rest = stream.skip(consumed);
        let ghost after_cr = scanner.after_cr;
        let next = match pending.take() {
            Some(ch) => {
                proof {
                    assert(rest =~= seq![ch] + text@.skip(*cursor as int));
                    assert(rest.drop_first() =~= stream.skip(consumed + 1));
                }
                Some(ch)
            },
            None => {
                let ghost c = *cursor as int;
                let next = read_char_at(text, position, cursor);
                proof {
                    if c < text@.len() {
                        assert(text@.skip(c).drop_first() =~= text@.skip(c + 1));
                        assert(rest.drop_first() =~= stream.skip(consumed + 1));
                    }
                }
                next
            },
        };
        proof {
            if consumed < stream.len() {
                assert(rest[0] == stream[consumed]);
            }
            lemma_scan_step(line_endings, stream, consumed, after_cr, emitted);
        }
        if next.is_some() {
            read = true;
        }
        let outcome = scanner.step(next, output);
        proof {
            emitted = emitted + scan_next(line_endings, after_cr, next).0;
            assert(output@ =~= out0 + emitted);
        }
        match outcome {
            ScanOutcome::Continue => {
                proof {
                    consumed = consumed + 1;
                }
            },
            ScanOutcome::Done => {
                proof {
                    if consumed < stream.len() {
                        consumed = consumed + 1;
                    } else {
                        assert(stream.skip(consumed) =~= Seq::<char>::empty());
                    }
                }
                break ;
            },
            ScanOutcome::DoneUnread(ch) => {
                *pending = Some(ch);
                proof {
                    assert(stream.skip(consumed) =~= seq![ch] + stream.skip(consumed + 1));
                }
                break ;
            },
        }
    }
    read
}

/// Reads the next line of `text` from byte `position` under
/// `line_endings`, its terminator included, appending it to `output`. A
/// character looked at past the end of the line is left in the text.
/// Returns `false` at the end of the text.
pub fn read_line_at(
    text: &str,
    position: &mut usize,
    cursor: &mut usize,
    line_endings: LineEndingSet,
    output: &mut String,
) -> (read: bool)
    requires
        cursor_at(text@, *old(position) as int, *old(cursor) as int),
    ensures
        ({
            let rest = text@.skip(*old(cursor) as int);
            let len = line_len(rest, line_endings);
            &&& read == (rest.len() > 0)
            &&& final(output)@ == old(output)@ + rest.take(len)
            &&& *final(cursor) == *old(cursor) + len
            &&& text@.skip(*final(cursor) as int) == rest.skip(len)
            &&& cursor_at(text@, *final(position) as int, *final(cursor) as int)
        }),
{
    let mut pending: Option<char> = None;
    let ghost rest = text@.skip(*cursor as int);
    let ghost start = *cursor as int;
    let read = read_line_at_with(text, position, cursor, line_endings, &mut pending, output);
    let ghost len = line_len(rest, line_endings);
    proof {
        crate::line_scan::lemma_line_len(rest, line_endings, 0);
        assert(rest =~= with_pending(None, text@.skip(start)));
    }
    match pending {
        None => {
            proof {
                assert(text@.skip(*cursor as int).len() == rest.skip(len).len());
                assert(text@.skip(*cursor as int) =~= rest.skip(len));
            }
        },
        Some(ch) => {
            let ghost c = *cursor as int;
            proof {
                assert((seq![ch] + text@.skip(c)).len() == rest.skip(len).len());
                assert(c == start + len + 1);
                assert((seq![ch] + text@.skip(c))[0] == rest.skip(len)[0]);
                assert(ch == text@[c - 1]);
                assert(text@.take(c) =~= text@.take(c - 1).push(ch));
                lemma_utf8_len_push(text@.take(c - 1), ch);
                assert(text@.skip(c - 1) =~= rest.skip(len));
            }
            let width = utf8_width(ch);
            *position = *position - width;
            *cursor = *cursor - 1;
        },
    }
    read
}


/// Number of characters a read asking for `count` takes from `rest`: all it
/// asks for, or what is left.
pub open spec fn piece_len(rest: Seq<char>, count: nat) -> nat {
    if count <= rest.len() {
        count
    } else {
        rest.len()
    }
}

/// The pieces handed out by successive reads of `text` asking for
/// `counts[0]`, `counts[1]`, ... characters, each from the front of what the
/// reads before it left.
pub open spec fn read_pieces(text: Seq<char>, counts: Seq<nat>) -> Seq<Seq<char>>
    decreases counts.len(),
{
    if counts.len() == 0 {
        Seq::empty()
    } else {
        let n = piece_len(text, counts[0]) as int;
        seq![text.take(n)] + read_pieces(text.skip(n), counts.drop_first())
    }
}

/// What successive reads asking for `counts` leave of `text`.
pub open spec fn left_after_reads(text: Seq<char>, counts: Seq<nat>) -> Seq<char>
    decreases counts.len(),
{
    if counts.len() == 0 {
        text
    } else {
        let n = piece_len(text, counts[0]) as int;
        left_after_reads(text.skip(n), counts.drop_first())
    }
}

/// Reading a text piece by piece, each read taking from the front of what
/// is left (one character, a bounded run, a line or all the rest), neither
/// loses nor repeats text: the pieces read, joined, followed by what is
/// left, are the whole text, so what was read is a prefix of it.
pub proof fn lemma_reads_partition(text: Seq<char>, counts: Seq<nat>)
    ensures
        joined(read_pieces(text, counts)) + left_after_reads(text, counts) == text,
        text.take(joined(read_pieces(text, counts)).len() as int) == joined(read_pieces(text, counts)),
    decreases counts.len(),
{
    if counts.len() == 0 {
        assert(joined(read_pieces(text, counts)) =~= Seq::<char>::empty());
        assert(Seq::<char>::empty() + text =~= text);
    } else {
        let n = piece_len(text, counts[0]) as int;
        let rest = text.skip(n);
        lemma_reads_partition(rest, counts.drop_first());
        let ps = read_pieces(text, counts);
        assert(ps.drop_first() =~= read_pieces(rest, counts.drop_first()));
        assert(joined(ps) == text.take(n) + joined(read_pieces(rest, counts.drop_first())));
        assert(text.take(n) + rest =~= text);
        assert(joined(ps) + left_after_reads(text, counts) =~= text);
    }
    let j = joined(read_pieces(text, counts));
    assert(text.take(j.len() as int) =~= j);
}

} // verus!

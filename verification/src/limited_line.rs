//! Reading one line under a limit on the UTF-8 bytes it appends.
//!
//! Unlike [`LineScanner`](crate::line_scan::LineScanner), which holds a
//! carriage return back until it knows whether `\n` follows, the limited
//! scanner appends every character of the line as soon as it reads it, so
//! that the limit is checked against each character in turn. What it
//! appends is always the prefix of the stream consumed so far; the line it
//! ends on is the same.
use vstd::prelude::*;

use crate::io_error::TextError;
use crate::limited_append::{append_limited_char, fits_limit, prefix_chars};
use crate::line_ending::LineEnding;
use crate::line_ending_set::LineEndingSet;
use crate::line_scan::{ScanOutcome, line_len, scan_invariant, scan_next};
use crate::text_cursor::cursor_at;
use crate::utf8_text::{
    lemma_utf8_len_concat,
    lemma_utf8_len_push,
    lemma_utf8_len_take_mono,
    string_len,
    utf8_len,
};

verus! {

/// What one step of a [`LimitedLineScanner`] decided.
#[derive(Clone, Copy, Debug, PartialEq, Eq, Structural)]
pub enum LimitedOutcome {
    /// The line goes on; feed the next character.
    Continue,
    /// The line is complete; `true` unless the input ended before any
    /// character of it.
    Done(bool),
    /// The line is complete; the carried character belongs to the next line
    /// and must be read again.
    DoneUnread(char),
}

/// The character a step appends: every character it is fed, except the one
/// that follows a held carriage return when it starts the next line.
pub open spec fn limited_appended(set: LineEndingSet, after_cr: bool, next: Option<char>) -> Option<
    char,
> {
    match next {
        None => None,
        Some(ch) => if after_cr && ch != '\n' && set.accepts(LineEnding::Cr) {
            None
        } else {
            Some(ch)
        },
    }
}

/// The outcome of a step that stayed within the limit, from the outcome
/// of the unlimited scanner on the same input.
pub open spec fn limited_outcome(after_cr: bool, read: bool, next: Option<char>, scan: ScanOutcome) -> LimitedOutcome {
    match scan {
        ScanOutcome::Continue => LimitedOutcome::Continue,
        ScanOutcome::Done => LimitedOutcome::Done(
            if next is None && !after_cr {
                read
            } else {
                true
            },
        ),
        ScanOutcome::DoneUnread(ch) => LimitedOutcome::DoneUnread(ch),
    }
}

/// Line-boundary recognizer that appends each character of the line as it
/// reads it, refusing any character that would take the appended text past
/// `max_append_len` UTF-8 bytes.
#[derive(Clone, Copy, Debug)]
pub struct LimitedLineScanner {
    /// Accepted line endings.
    pub line_endings: LineEndingSet,
    /// Byte length of the output before the line.
    pub initial_len: usize,
    /// Most UTF-8 bytes the line may append.
    pub max_append_len: usize,
    /// Whether the last character appended is a carriage return that may
    /// start `\r\n`.
    pub after_cr: bool,
    /// Whether a character of the line has been read.
    pub read: bool,
}

impl LimitedLineScanner {
    /// Creates a scanner for a line appended to `output`.
    pub fn new(line_endings: LineEndingSet, output: &String, max_append_len: usize) -> (scanner: Self)
        ensures
            scanner.line_endings == line_endings,
            scanner.initial_len == crate::utf8_text::utf8_len(output@),
            cursor_at(output@, scanner.initial_len as int, output@.len() as int),
            scanner.max_append_len == max_append_len,
            !scanner.after_cr,
            !scanner.read,
    {
        let initial_len = string_len(output);
        proof {
            assert(output@.take(output@.len() as int) =~= output@);
        }
        LimitedLineScanner { line_endings, initial_len, max_append_len, after_cr: false, read: false }
    }

    /// Feeds the next character, or `None` at end of input, appending it to
    /// `output` when it belongs to the line. When it does not fit the limit,
    /// `output` is cut back to its length before the line and the append
    /// limit error is returned (`InvalidData` once reported); the caller
    /// hands the character back to be read again.
    pub fn step(&mut self, next: Option<char>, output: &mut String) -> (result: Result<
        LimitedOutcome,
        TextError,
    >)
        requires
            exists|k: int| cursor_at(old(output)@, old(self).initial_len as int, k),
        ensures
            ({
                let set = old(self).line_endings;
                let (emit, scan, held) = scan_next(set, old(self).after_cr, next);
                let appended = limited_appended(set, old(self).after_cr, next);
                match appended {
                    Some(ch) => if fits_limit(
                        old(output)@,
                        old(self).initial_len as int,
                        old(self).max_append_len as int,
                        ch,
                    ) {
                        &&& final(output)@ == old(output)@.push(ch)
                        &&& result == Ok::<LimitedOutcome, TextError>(
                            limited_outcome(old(self).after_cr, old(self).read, next, scan),
                        )
                    } else {
                        &&& result == Err::<LimitedOutcome, TextError>(
                            TextError::AppendLimit { max_append_len: old(self).max_append_len },
                        )
                        &&& final(output)@ == old(output)@.take(
                            prefix_chars(old(output)@, old(self).initial_len as int),
                        )
                    },
                    None => {
                        &&& final(output)@ == old(output)@
                        &&& result == Ok::<LimitedOutcome, TextError>(
                            limited_outcome(old(self).after_cr, old(self).read, next, scan),
                        )
                    },
                }
            }),
            result.is_ok() ==> {
                &&& final(self).after_cr == scan_next(
                    old(self).line_endings,
                    old(self).after_cr,
                    next,
                ).2
                &&& final(self).read == (old(self).read || next is Some)
                &&& exists|k: int| cursor_at(final(output)@, old(self).initial_len as int, k)
            },
            final(self).line_endings == old(self).line_endings,
            final(self).initial_len == old(self).initial_len,
            final(self).max_append_len == old(self).max_append_len,
            next is None ==> result == Ok::<LimitedOutcome, TextError>(
                LimitedOutcome::Done(old(self).read || old(self).after_cr),
            ),
            next is Some && result is Ok ==> final(self).read,
    {
        let set = self.line_endings;
        let ghost k0 = choose|k: int| cursor_at(output@, self.initial_len as int, k);
        match next {
            None => {
                let done = if self.after_cr {
                    true
                } else {
                    self.read
                };
                self.after_cr = false;
                Ok(LimitedOutcome::Done(done))
            },
            Some(ch) => {
                if self.after_cr && ch != '\n' && set.contains(LineEnding::Cr) {
                    self.after_cr = false;
                    self.read = true;
                    assert(cursor_at(output@, self.initial_len as int, k0));
                    return Ok(LimitedOutcome::DoneUnread(ch));
                }
                append_limited_char(output, self.initial_len, self.max_append_len, ch)?;
                proof {
                    assert(output@.take(k0) =~= old(output)@.take(k0));
                    assert(cursor_at(output@, self.initial_len as int, k0));
                }
                self.read = true;
                if self.after_cr {
                    // `ch` is `\n`, or starts over as the first character.
                    self.after_cr = false;
                    if ch == '\n' {
                        return Ok(LimitedOutcome::Done(true));
                    }
                }
                if ch == '\n' && set.contains(LineEnding::Lf) {
                    Ok(LimitedOutcome::Done(true))
                } else if ch == '\r' && set.contains(LineEnding::CrLf) {
                    self.after_cr = true;
                    Ok(LimitedOutcome::Continue)
                } else if ch == '\r' && set.contains(LineEnding::Cr) {
                    Ok(LimitedOutcome::Done(true))
                } else {
                    Ok(LimitedOutcome::Continue)
                }
            },
        }
    }
}

/// Within a line scan, the characters the limited scanner has appended are
/// exactly the consumed prefix of the stream, and the character it appends
/// next lies within the first line: so a line whose UTF-8 length fits the
/// limit is never refused, and a refused character is the first one of the
/// line that does not fit.
pub proof fn lemma_limited_appends_line_prefix(
    set: LineEndingSet,
    stream: Seq<char>,
    consumed: int,
    after_cr: bool,
    emitted: Seq<char>,
)
    requires
        scan_invariant(set, stream, consumed, after_cr, emitted),
    ensures
        (if after_cr {
            emitted.push('\r')
        } else {
            emitted
        }) == stream.take(consumed),
        ({
            let next = if consumed < stream.len() {
                Some(stream[consumed])
            } else {
                None::<char>
            };
            limited_appended(set, after_cr, next) is Some ==> {
                &&& consumed < stream.len()
                &&& limited_appended(set, after_cr, next) == Some(stream[consumed])
                &&& consumed + 1 <= line_len(stream, set)
            }
        }),
{
    if after_cr {
        assert(stream.take(consumed) =~= stream.take(consumed - 1).push('\r'));
    }
    crate::line_scan::lemma_scan_step(set, stream, consumed, after_cr, emitted);
    crate::line_scan::lemma_line_len(stream, set, 0);
}

/// The limit check of a limited line read refuses a character exactly
/// when the consumed part of the line, that character included, is longer
/// than the limit: so a line whose UTF-8 length is within the limit is
/// appended whole, and a longer one is refused at its first character
/// past the limit. `base` is the text the output held before the line.
pub proof fn lemma_limited_refuses_only_long_lines(
    set: LineEndingSet,
    stream: Seq<char>,
    consumed: int,
    after_cr: bool,
    emitted: Seq<char>,
    base: Seq<char>,
    max_append_len: int,
)
    requires
        scan_invariant(set, stream, consumed, after_cr, emitted),
        consumed < stream.len(),
        limited_appended(set, after_cr, Some(stream[consumed])) is Some,
    ensures
        fits_limit(base + stream.take(consumed), utf8_len(base) as int, max_append_len, stream[consumed])
            <==> utf8_len(stream.take(consumed + 1)) <= max_append_len,
        utf8_len(stream.take(line_len(stream, set))) <= max_append_len ==> fits_limit(
            base + stream.take(consumed),
            utf8_len(base) as int,
            max_append_len,
            stream[consumed],
        ),
{
    lemma_limited_appends_line_prefix(set, stream, consumed, after_cr, emitted);
    lemma_utf8_len_concat(base, stream.take(consumed));
    assert(stream.take(consumed + 1) =~= stream.take(consumed).push(stream[consumed]));
    lemma_utf8_len_push(stream.take(consumed), stream[consumed]);
    crate::line_scan::lemma_line_len(stream, set, 0);
    lemma_utf8_len_take_mono(stream, consumed + 1, line_len(stream, set));
}

/// At end of input a limited line read reports whether it read a line:
/// `Done(true)` exactly when some character of the line was read (a held
/// carriage return is one), so a final line without a terminator is
/// reported as read, and only an input that had nothing left reports
/// `Done(false)`.
pub proof fn lemma_limited_end_reports_read(set: LineEndingSet, after_cr: bool, read: bool)
    ensures
        limited_outcome(after_cr, read, None, scan_next(set, after_cr, None).1) == LimitedOutcome::Done(
            read || after_cr,
        ),
        limited_appended(set, after_cr, None) is None,
{
}

/// A limited scanner that was fed every character of `stream` (so it has
/// read something exactly when the stream is not empty) and then reaches
/// end of input reports `Done(true)` when the stream held a line, even one
/// without a terminator, and `Done(false)` only for an empty stream.
pub proof fn lemma_limited_last_line_is_read(
    set: LineEndingSet,
    stream: Seq<char>,
    after_cr: bool,
    emitted: Seq<char>,
    read: bool,
)
    requires
        scan_invariant(set, stream, stream.len() as int, after_cr, emitted),
        read == (stream.len() > 0),
    ensures
        limited_outcome(after_cr, read, None, scan_next(set, after_cr, None).1) == LimitedOutcome::Done(
            stream.len() > 0,
        ),
{
}

} // verus!

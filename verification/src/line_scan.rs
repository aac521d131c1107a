//! Recognition of line boundaries under a configurable set of line endings.
//!
//! A line is the shortest prefix of the character stream that ends with an
//! accepted line terminator, or the whole stream when it holds none. When
//! both CRLF and CR are accepted, `\r\n` is one terminator.
use vstd::prelude::*;

use crate::line_ending::{LineEnding, line_ending_chars};
use crate::line_ending_set::LineEndingSet;
use crate::utf8_text::string_push;

verus! {

/// Whether the first `i` characters of `stream` end with a line terminator
/// accepted by `set`, given that `stream` is everything that follows.
pub open spec fn ends_line(stream: Seq<char>, i: int, set: LineEndingSet) -> bool {
    &&& 1 <= i <= stream.len()
    &&& {
        ||| (stream[i - 1] == '\n' && (set.accepts(LineEnding::Lf) || (set.accepts(LineEnding::CrLf)
            && i >= 2 && stream[i - 2] == '\r')))
        ||| (stream[i - 1] == '\r' && ((set.accepts(LineEnding::Cr) && !(set.accepts(
            LineEnding::CrLf) && i < stream.len() && stream[i] == '\n')) || (set.accepts(
            LineEnding::CrLf) && i == stream.len())))
    }
}

/// Length of the first line of `stream` when the search starts after
/// `from` characters that hold no line end.
pub open spec fn line_len_from(stream: Seq<char>, set: LineEndingSet, from: int) -> int
    decreases stream.len() - from,
{
    if from >= stream.len() {
        stream.len() as int
    } else if ends_line(stream, from + 1, set) {
        from + 1
    } else {
        line_len_from(stream, set, from + 1)
    }
}

/// Number of characters of `stream` that make up its first line, its
/// terminator included.
pub open spec fn line_len(stream: Seq<char>, set: LineEndingSet) -> int {
    line_len_from(stream, set, 0)
}

/// The first line of `stream` ends at `line_len`, and no line ends before it.
pub proof fn lemma_line_len(stream: Seq<char>, set: LineEndingSet, from: int)
    requires
        0 <= from <= stream.len(),
    ensures
        from <= line_len_from(stream, set, from) <= stream.len(),
        from < stream.len() ==> from < line_len_from(stream, set, from),
        forall|i: int|
            from < i < line_len_from(stream, set, from) ==> !#[trigger] ends_line(stream, i, set),
        line_len_from(stream, set, from) < stream.len() ==> ends_line(
            stream,
            line_len_from(stream, set, from),
            set,
        ),
    decreases stream.len() - from,
{
    if from < stream.len() && !ends_line(stream, from + 1, set) {
        lemma_line_len(stream, set, from + 1);
    }
}

/// What one step of a [`LineScanner`] decided.
#[derive(Clone, Copy, Debug, PartialEq, Eq, Structural)]
pub enum ScanOutcome {
    /// The line goes on; feed the next character.
    Continue,
    /// The line is complete; the event was consumed.
    Done,
    /// The line is complete; the character carried here was looked at but
    /// belongs to the next line and must be read again.
    DoneUnread(char),
}

/// Line-boundary recognizer fed one character (or end of input) at a time.
///
/// A carriage return is held back while CRLF is accepted until the next
/// event shows whether it starts `\r\n`.
#[derive(Clone, Copy, Debug)]
pub struct LineScanner {
    /// Accepted line endings.
    pub line_endings: LineEndingSet,
    /// Whether a carriage return has been consumed but not yet emitted.
    pub after_cr: bool,
}

/// Characters a fresh scanner emits for `ch`, and whether `ch` ends the line
/// or is held back.
pub open spec fn fresh_step(set: LineEndingSet, ch: char) -> (Seq<char>, bool, bool) {
    if ch == '\n' && set.accepts(LineEnding::Lf) {
        (seq!['\n'], true, false)
    } else if ch == '\r' && set.accepts(LineEnding::CrLf) {
        (Seq::empty(), false, true)
    } else if ch == '\r' && set.accepts(LineEnding::Cr) {
        (seq!['\r'], true, false)
    } else {
        (seq![ch], false, false)
    }
}

/// What a scanner in state `after_cr` does with `next`: the characters it
/// appends to the line, its outcome and whether it then holds a carriage
/// return back.
pub open spec fn scan_next(set: LineEndingSet, after_cr: bool, next: Option<char>) -> (
    Seq<char>,
    ScanOutcome,
    bool,
) {
    match next {
        None => if after_cr {
            (seq!['\r'], ScanOutcome::Done, false)
        } else {
            (Seq::empty(), ScanOutcome::Done, false)
        },
        Some(ch) => {
            let (emit, done, held) = fresh_step(set, ch);
            let outcome = if done {
                ScanOutcome::Done
            } else {
                ScanOutcome::Continue
            };
            if !after_cr {
                (emit, outcome, held)
            } else if ch == '\n' {
                (seq!['\r', '\n'], ScanOutcome::Done, false)
            } else if set.accepts(LineEnding::Cr) {
                (seq!['\r'], ScanOutcome::DoneUnread(ch), false)
            } else {
                (seq!['\r'] + emit, outcome, held)
            }
        },
    }
}

/// The state of a scanner that has consumed the first `consumed`
/// characters of `stream` and appended `emitted` to the line: no line has
/// ended yet, and a held-back carriage return is the last consumed
/// character.
pub open spec fn scan_invariant(
    set: LineEndingSet,
    stream: Seq<char>,
    consumed: int,
    after_cr: bool,
    emitted: Seq<char>,
) -> bool {
    &&& 0 <= consumed <= stream.len()
    &&& forall|i: int| 1 <= i < consumed ==> !#[trigger] ends_line(stream, i, set)
    &&& if after_cr {
        &&& consumed >= 1
        &&& stream[consumed - 1] == '\r'
        &&& set.accepts(LineEnding::CrLf)
        &&& emitted == stream.take(consumed - 1)
    } else {
        &&& emitted == stream.take(consumed)
        &&& (consumed >= 1 ==> !ends_line(stream, consumed, set))
        &&& (consumed >= 1 && set.accepts(LineEnding::CrLf) ==> stream[consumed - 1] != '\r')
    }
}

/// `len` is the length of the first line when no line ends before it and
/// a line ends there (or the stream ends there).
pub proof fn lemma_line_len_is(stream: Seq<char>, set: LineEndingSet, len: int)
    requires
        0 <= len <= stream.len(),
        stream.len() > 0 ==> len >= 1,
        forall|i: int| 1 <= i < len ==> !#[trigger] ends_line(stream, i, set),
        ends_line(stream, len, set) || len == stream.len(),
    ensures
        line_len(stream, set) == len,
{
    lemma_line_len(stream, set, 0);
    let l = line_len(stream, set);
    if l < len {
        assert(ends_line(stream, l, set));
    } else if l > len {
        assert(!ends_line(stream, len, set));
    }
}

/// A fresh scanner has consumed nothing.
pub proof fn lemma_scan_start(set: LineEndingSet, stream: Seq<char>)
    ensures
        scan_invariant(set, stream, 0, false, Seq::empty()),
{
    assert(stream.take(0) =~= Seq::<char>::empty());
}

/// Feeding a scanner the stream one character at a time, and end of input
/// after the last one, appends exactly the first line of the stream: each
/// step either keeps the scanner's invariant or stops where the first line
/// ends, leaving a looked-at character unread when it belongs to the next
/// line.
pub proof fn lemma_scan_step(
    set: LineEndingSet,
    stream: Seq<char>,
    consumed: int,
    after_cr: bool,
    emitted: Seq<char>,
)
    requires
        scan_invariant(set, stream, consumed, after_cr, emitted),
    ensures
        ({
            let next = if consumed < stream.len() {
                Some(stream[consumed])
            } else {
                None::<char>
            };
            let (emit, outcome, held) = scan_next(set, after_cr, next);
            match outcome {
                ScanOutcome::Continue => {
                    &&& consumed < stream.len()
                    &&& scan_invariant(set, stream, consumed + 1, held, emitted + emit)
                },
                ScanOutcome::Done => {
                    let end = if consumed < stream.len() {
                        consumed + 1
                    } else {
                        consumed
                    };
                    &&& line_len(stream, set) == end
                    &&& emitted + emit == stream.take(end)
                },
                ScanOutcome::DoneUnread(ch) => {
                    &&& consumed < stream.len()
                    &&& ch == stream[consumed]
                    &&& line_len(stream, set) == consumed
                    &&& emitted + emit == stream.take(consumed)
                },
            }
        }),
{
    let len = stream.len() as int;
    if consumed < len {
        let ch = stream[consumed];
        let next = Some(ch);
        let (emit, outcome, held) = scan_next(set, after_cr, next);
        let (femit, fdone, fheld) = fresh_step(set, ch);
        assert(stream.take(consumed + 1) =~= stream.take(consumed).push(ch));
        if after_cr {
            assert(stream.take(consumed) =~= stream.take(consumed - 1).push('\r'));
            if ch == '\n' {
                assert(ends_line(stream, consumed + 1, set));
                assert(!ends_line(stream, consumed, set));
                lemma_line_len_is(stream, set, consumed + 1);
                assert(emitted + emit =~= stream.take(consumed + 1));
            } else if set.accepts(LineEnding::Cr) {
                assert(ends_line(stream, consumed, set));
                lemma_line_len_is(stream, set, consumed);
                assert(emitted + emit =~= stream.take(consumed));
            } else {
                assert(!ends_line(stream, consumed, set));
                assert(!fdone);
                assert(outcome == ScanOutcome::Continue);
                if fheld {
                    assert(emitted + emit =~= stream.take(consumed));
                } else {
                    assert(emitted + emit =~= stream.take(consumed + 1));
                    assert(!ends_line(stream, consumed + 1, set));
                }
                assert(scan_invariant(set, stream, consumed + 1, held, emitted + emit));
            }
        } else {
            if fdone {
                assert(ends_line(stream, consumed + 1, set));
                lemma_line_len_is(stream, set, consumed + 1);
                assert(emitted + emit =~= stream.take(consumed + 1));
            } else {
                assert(outcome == ScanOutcome::Continue);
                if fheld {
                    assert(emitted + emit =~= stream.take(consumed));
                } else {
                    assert(emitted + emit =~= stream.take(consumed + 1));
                    assert(!ends_line(stream, consumed + 1, set));
                }
                assert(scan_invariant(set, stream, consumed + 1, held, emitted + emit));
            }
        }
    } else {
        if after_cr {
            assert(ends_line(stream, consumed, set));
            assert(stream.take(consumed) =~= stream.take(consumed - 1).push('\r'));
            lemma_line_len_is(stream, set, consumed);
            assert(emitted + seq!['\r'] =~= stream.take(consumed));
        } else {
            lemma_line_len_is(stream, set, consumed);
            assert(emitted + Seq::<char>::empty() =~= stream.take(consumed));
        }
    }
}

/// Whether `line` holds no character that can end a line.
pub open spec fn is_single_line(line: Seq<char>) -> bool {
    forall|i: int| 0 <= i < line.len() ==> line[i] != '\n' && line[i] != '\r'
}

/// A line written with a line ending that the reader accepts is read back
/// whole, ending included: reading a stream that starts with `line`
/// followed by the characters of `ending` yields exactly those
/// characters as its first line. The one exception is a CR ending read
/// where CRLF is accepted and the next text starts with `\n`, which then
/// joins the ending.
pub proof fn lemma_written_line_reads_back(
    line: Seq<char>,
    ending: LineEnding,
    rest: Seq<char>,
    set: LineEndingSet,
)
    requires
        is_single_line(line),
        set.accepts(ending),
        ending == LineEnding::Cr && set.accepts(LineEnding::CrLf) ==> !(rest.len() > 0 && rest[0]
            == '\n'),
    ensures
        line_len(line + line_ending_chars(ending) + rest, set) == line.len()
            + line_ending_chars(ending).len(),
{
    let e = line_ending_chars(ending);
    let s = line + e + rest;
    let n = line.len() as int;
    let end = n + e.len();
    assert(forall|i: int| 0 <= i < n ==> s[i] == line[i]);
    assert(forall|i: int| 0 <= i < e.len() ==> s[n + i] == e[i]);
    assert forall|i: int| 1 <= i < end implies !#[trigger] ends_line(s, i, set) by {
        if i <= n {
            assert(s[i - 1] == line[i - 1]);
        } else {
            assert(ending == LineEnding::CrLf);
            assert(s[i - 1] == '\r');
            assert(s[i] == '\n');
        }
    }
    match ending {
        LineEnding::Lf => assert(s[end - 1] == '\n'),
        LineEnding::CrLf => {
            assert(s[end - 1] == '\n');
            assert(s[end - 2] == '\r');
        },
        LineEnding::Cr => {
            assert(s[end - 1] == '\r');
            if end < s.len() {
                assert(s[end] == rest[0]);
            }
        },
    }
    assert(ends_line(s, end, set));
    lemma_line_len_is(s, set, end);
}

/// The successive lines of `stream`: the first line, then the lines of
/// what follows it.
pub open spec fn lines(stream: Seq<char>, set: LineEndingSet) -> Seq<Seq<char>>
    decreases stream.len(),
{
    if stream.len() == 0 {
        Seq::empty()
    } else {
        let n = line_len(stream, set);
        proof {
            lemma_line_len(stream, set, 0);
        }
        seq![stream.take(n)] + lines(stream.skip(n), set)
    }
}

/// The lines of a sequence of lines joined back together.
pub open spec fn joined(parts: Seq<Seq<char>>) -> Seq<char>
    decreases parts.len(),
{
    if parts.len() == 0 {
        Seq::empty()
    } else {
        parts[0] + joined(parts.drop_first())
    }
}

/// Whether `line` ends with a terminator that `set` accepts: LF, CR LF or
/// CR.
pub open spec fn ends_with_accepted(line: Seq<char>, set: LineEndingSet) -> bool {
    &&& line.len() >= 1
    &&& {
        ||| (line[line.len() - 1] == '\n' && set.accepts(LineEnding::Lf))
        ||| (line[line.len() - 1] == '\n' && set.accepts(LineEnding::CrLf) && line.len() >= 2
            && line[line.len() - 2] == '\r')
        ||| (line[line.len() - 1] == '\r' && set.accepts(LineEnding::Cr))
    }
}

/// Reading a stream line by line neither loses nor repeats text: the lines
/// joined back give the stream, no line is empty, and every line but the
/// last ends with a line terminator that the set accepts.
pub proof fn lemma_lines_partition(stream: Seq<char>, set: LineEndingSet)
    ensures
        joined(lines(stream, set)) == stream,
        forall|i: int| 0 <= i < lines(stream, set).len() ==> #[trigger] lines(stream, set)[i].len() > 0,
        forall|i: int|
            0 <= i < lines(stream, set).len() - 1 ==> {
                let line = #[trigger] lines(stream, set)[i];
                line[line.len() - 1] == '\n' || line[line.len() - 1] == '\r'
            },
        forall|i: int|
            0 <= i < lines(stream, set).len() - 1 ==> ends_with_accepted(
                #[trigger] lines(stream, set)[i],
                set,
            ),
    decreases stream.len(),
{
    if stream.len() > 0 {
        let n = line_len(stream, set);
        lemma_line_len(stream, set, 0);
        let rest = stream.skip(n);
        lemma_lines_partition(rest, set);
        let ls = lines(stream, set);
        assert(ls == seq![stream.take(n)] + lines(rest, set));
        assert(ls.drop_first() =~= lines(rest, set));
        assert(stream.take(n) + rest =~= stream);
        assert forall|i: int| 0 <= i < ls.len() implies #[trigger] ls[i].len() > 0 by {
            if i > 0 {
                assert(ls[i] == lines(rest, set)[i - 1]);
            }
        }
        assert forall|i: int| 0 <= i < ls.len() - 1 implies {
            let line = #[trigger] ls[i];
            line[line.len() - 1] == '\n' || line[line.len() - 1] == '\r'
        } by {
            if i > 0 {
                assert(ls[i] == lines(rest, set)[i - 1]);
            } else {
                assert(lines(rest, set).len() > 0);
                assert(rest.len() > 0);
                assert(n < stream.len());
                assert(ends_line(stream, n, set));
                assert(ls[0][n - 1] == stream[n - 1]);
            }
        }
        assert forall|i: int| 0 <= i < ls.len() - 1 implies ends_with_accepted(#[trigger] ls[i], set) by {
            if i > 0 {
                assert(ls[i] == lines(rest, set)[i - 1]);
            } else {
                assert(lines(rest, set).len() > 0);
                assert(rest.len() > 0);
                assert(n < stream.len());
                assert(ends_line(stream, n, set));
                assert(ls[0] == stream.take(n));
                assert(ls[0][n - 1] == stream[n - 1]);
                if n >= 2 {
                    assert(ls[0][n - 2] == stream[n - 2]);
                }
            }
        }
    } else {
        assert(joined(lines(stream, set)) =~= stream);
    }
}

/// What a scanner in the given state, fed the rest of `stream` after its
/// first `consumed` characters one at a time (and end of input after the
/// last), appends in all, and what a reader that hands the scanner's
/// unread character back still yields afterwards.
pub open spec fn scan_from(
    set: LineEndingSet,
    stream: Seq<char>,
    consumed: int,
    after_cr: bool,
    emitted: Seq<char>,
) -> (Seq<char>, Seq<char>)
    decreases stream.len() - consumed,
{
    if consumed < 0 || consumed > stream.len() {
        (emitted, stream)
    } else {
        let next = if consumed < stream.len() {
            Some(stream[consumed])
        } else {
            None::<char>
        };
        let (emit, outcome, held) = scan_next(set, after_cr, next);
        match outcome {
            ScanOutcome::Continue => if consumed < stream.len() {
                scan_from(set, stream, consumed + 1, held, emitted + emit)
            } else {
                (emitted + emit, Seq::empty())
            },
            ScanOutcome::Done => (
                emitted + emit,
                stream.skip(
                    if consumed < stream.len() {
                        consumed + 1
                    } else {
                        consumed
                    },
                ),
            ),
            ScanOutcome::DoneUnread(ch) => (emitted + emit, seq![ch] + stream.skip(consumed + 1)),
        }
    }
}

/// One line read by a reader that feeds a fresh scanner the characters it
/// yields and hands the scanner's unread character back: the line appended
/// and what the reader still yields afterwards.
pub open spec fn read_line_from(set: LineEndingSet, stream: Seq<char>) -> (Seq<char>, Seq<char>) {
    scan_from(set, stream, 0, false, Seq::empty())
}

/// The lines such a reader appends, one `read_line_from` after another,
/// until it yields nothing.
pub open spec fn read_lines_from(set: LineEndingSet, stream: Seq<char>) -> Seq<Seq<char>>
    decreases stream.len(),
{
    if stream.len() == 0 {
        Seq::empty()
    } else {
        let rest = read_line_from(set, stream).1;
        if rest.len() < stream.len() {
            seq![read_line_from(set, stream).0] + read_lines_from(set, rest)
        } else {
            Seq::empty()
        }
    }
}

/// A scanner run from a state that keeps the scan invariant appends the
/// first line of the stream, and handing its unread character back leaves
/// exactly the rest of the stream.
pub proof fn lemma_scan_from(
    set: LineEndingSet,
    stream: Seq<char>,
    consumed: int,
    after_cr: bool,
    emitted: Seq<char>,
)
    requires
        scan_invariant(set, stream, consumed, after_cr, emitted),
    ensures
        scan_from(set, stream, consumed, after_cr, emitted) == (
            stream.take(line_len(stream, set)),
            stream.skip(line_len(stream, set)),
        ),
    decreases stream.len() - consumed,
{
    lemma_scan_step(set, stream, consumed, after_cr, emitted);
    let next = if consumed < stream.len() {
        Some(stream[consumed])
    } else {
        None::<char>
    };
    let (emit, outcome, held) = scan_next(set, after_cr, next);
    match outcome {
        ScanOutcome::Continue => {
            lemma_scan_from(set, stream, consumed + 1, held, emitted + emit);
        },
        ScanOutcome::Done => {},
        ScanOutcome::DoneUnread(ch) => {
            assert(seq![ch] + stream.skip(consumed + 1) =~= stream.skip(consumed));
        },
    }
}

/// A reader that reads lines by feeding a fresh scanner and handing the
/// character it looked at past a line end back to the front of what it
/// yields next loses and repeats nothing: each read appends the first line
/// of what is left and leaves the rest, so the lines it reads are the
/// stream's lines, which joined give the stream back.
pub proof fn lemma_read_lines_from(set: LineEndingSet, stream: Seq<char>)
    ensures
        read_line_from(set, stream) == (stream.take(line_len(stream, set)), stream.skip(
            line_len(stream, set),
        )),
        read_lines_from(set, stream) == lines(stream, set),
        joined(read_lines_from(set, stream)) == stream,
    decreases stream.len(),
{
    lemma_scan_start(set, stream);
    lemma_scan_from(set, stream, 0, false, Seq::empty());
    lemma_lines_partition(stream, set);
    if stream.len() > 0 {
        let n = line_len(stream, set);
        lemma_line_len(stream, set, 0);
        let rest = stream.skip(n);
        assert(rest.len() < stream.len());
        lemma_read_lines_from(set, rest);
        assert(read_lines_from(set, stream) == seq![stream.take(n)] + read_lines_from(set, rest));
    } else {
        assert(read_lines_from(set, stream) =~= lines(stream, set));
    }
}

/// Under the default set, which accepts every line ending, the first line
/// of a stream runs to its first LF, to a CR LF pair, or to a CR that no LF
/// follows: no earlier character is an LF, the only CR inside the line is
/// the one of a closing CR LF, and a line that does not reach the end of
/// the stream ends with LF or with a CR not followed by LF.
pub proof fn lemma_first_line_all_endings(stream: Seq<char>)
    ensures
        ({
            let n = line_len(stream, LineEndingSet::all_spec());
            &&& 0 <= n <= stream.len()
            &&& stream.len() > 0 ==> n >= 1
            &&& forall|i: int| 0 <= i < n - 1 ==> #[trigger] stream[i] != '\n'
            &&& forall|i: int|
                0 <= i < n - 1 && #[trigger] stream[i] == '\r' ==> i == n - 2 && stream[n - 1] == '\n'
            &&& n < stream.len() ==> (stream[n - 1] == '\n' || (stream[n - 1] == '\r' && stream[n]
                != '\n'))
        }),
{
    let set = LineEndingSet::all_spec();
    LineEndingSet::lemma_constant_sets();
    lemma_line_len(stream, set, 0);
    let n = line_len(stream, set);
    assert forall|i: int| 0 <= i < n - 1 implies #[trigger] stream[i] != '\n' by {
        assert(!ends_line(stream, i + 1, set));
    }
    assert forall|i: int| 0 <= i < n - 1 && #[trigger] stream[i] == '\r' implies i == n - 2 && stream[n
        - 1] == '\n' by {
        assert(!ends_line(stream, i + 1, set));
        assert(stream[i + 1] == '\n');
        if i + 2 < n {
            assert(!ends_line(stream, i + 2, set));
        }
    }
    if n < stream.len() {
        assert(ends_line(stream, n, set));
    }
}

impl LineScanner {
    /// Creates a scanner at the start of a line.
    pub fn new(line_endings: LineEndingSet) -> (scanner: Self)
        ensures
            scanner.line_endings == line_endings,
            !scanner.after_cr,
    {
        LineScanner { line_endings, after_cr: false }
    }

    /// Consumes `ch` from a state with no carriage return held back.
    fn fresh(&mut self, ch: char, output: &mut String) -> (outcome: ScanOutcome)
        requires
            !old(self).after_cr,
        ensures
            final(self).line_endings == old(self).line_endings,
            final(output)@ == old(output)@ + fresh_step(old(self).line_endings, ch).0,
            (outcome == ScanOutcome::Done) == fresh_step(old(self).line_endings, ch).1,
            outcome != ScanOutcome::Done ==> outcome == ScanOutcome::Continue,
            final(self).after_cr == fresh_step(old(self).line_endings, ch).2,
    {
        if ch == '\n' && self.line_endings.contains(LineEnding::Lf) {
            string_push(output, ch);
            assert(output@ =~= old(output)@ + seq!['\n']);
            ScanOutcome::Done
        } else if ch == '\r' && self.line_endings.contains(LineEnding::CrLf) {
            self.after_cr = true;
            assert(output@ =~= old(output)@ + Seq::<char>::empty());
            ScanOutcome::Continue
        } else if ch == '\r' && self.line_endings.contains(LineEnding::Cr) {
            string_push(output, ch);
            assert(output@ =~= old(output)@ + seq!['\r']);
            ScanOutcome::Done
        } else {
            string_push(output, ch);
            assert(output@ =~= old(output)@ + seq![ch]);
            ScanOutcome::Continue
        }
    }

    /// Feeds the next character of the stream, or `None` at end of input,
    /// appending to `output` what belongs to the line.
    pub fn step(&mut self, next: Option<char>, output: &mut String) -> (outcome: ScanOutcome)
        ensures
            final(self).line_endings == old(self).line_endings,
            final(output)@ == old(output)@ + scan_next(old(self).line_endings, old(self).after_cr, next).0,
            outcome == scan_next(old(self).line_endings, old(self).after_cr, next).1,
            final(self).after_cr == scan_next(old(self).line_endings, old(self).after_cr, next).2,
    {
        if !self.after_cr {
            match next {
                None => {
                    assert(output@ =~= old(output)@ + Seq::<char>::empty());
                    ScanOutcome::Done
                },
                Some(ch) => self.fresh(ch, output),
            }
        } else {
            self.after_cr = false;
            string_push(output, '\r');
            match next {
                None => {
                    assert(output@ =~= old(output)@ + seq!['\r']);
                    ScanOutcome::Done
                },
                Some(ch) => {
                    if ch == '\n' {
                        string_push(output, '\n');
                        assert(output@ =~= old(output)@ + seq!['\r', '\n']);
                        ScanOutcome::Done
                    } else if self.line_endings.contains(LineEnding::Cr) {
                        assert(output@ =~= old(output)@ + seq!['\r']);
                        ScanOutcome::DoneUnread(ch)
                    } else {
                        let outcome = self.fresh(ch, output);
                        assert(output@ =~= old(output)@ + (seq!['\r'] + fresh_step(self.line_endings, ch).0));
                        outcome
                    }
                },
            }
        }
    }

    /// The character consumed but not yet emitted: a carriage return held
    /// while its lookahead is pending. A reader whose lookahead fails hands
    /// it back so that a retry sees it again.
    pub fn held_back(&self) -> (held: Option<char>)
        ensures
            held == if self.after_cr {
                Some('\r')
            } else {
                None::<char>
            },
    {
        if self.after_cr {
            Some('\r')
        } else {
            None
        }
    }

    /// Feeds the next character of the stream, or `None` at end of input,
    /// discarding what belongs to the line.
    pub fn skip(&mut self, next: Option<char>) -> (outcome: ScanOutcome)
        ensures
            final(self).line_endings == old(self).line_endings,
            outcome == scan_next(old(self).line_endings, old(self).after_cr, next).1,
            final(self).after_cr == scan_next(old(self).line_endings, old(self).after_cr, next).2,
    {
        let set = self.line_endings;
        match next {
            None => {
                self.after_cr = false;
                ScanOutcome::Done
            },
            Some(ch) => {
                if self.after_cr {
                    self.after_cr = false;
                    if ch == '\n' {
                        return ScanOutcome::Done;
                    }
                    if set.contains(LineEnding::Cr) {
                        return ScanOutcome::DoneUnread(ch);
                    }
                }
                if ch == '\n' && set.contains(LineEnding::Lf) {
                    ScanOutcome::Done
                } else if ch == '\r' && set.contains(LineEnding::CrLf) {
                    self.after_cr = true;
                    ScanOutcome::Continue
                } else if ch == '\r' && set.contains(LineEnding::Cr) {
                    ScanOutcome::Done
                } else {
                    ScanOutcome::Continue
                }
            },
        }
    }
}

} // verus!

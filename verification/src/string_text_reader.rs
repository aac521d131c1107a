//! Text reader over an owned string with configurable line endings.
use std::convert::Infallible;

use vstd::prelude::*;

use crate::line_ending_set::LineEndingSet;
use crate::line_scan::{joined, line_len};
use crate::text_cursor::{
    cursor_at,
    lemma_cursor_start,
    read_char_at,
    read_chars_at,
    read_line_at_with,
    read_to_string_at,
    line_lookahead,
    pending_len,
    with_pending,
    TextCursor,
};
use crate::traits::{
    TextLineRead,
    TextRead,
};

verus! {

/// Text reader over an owned string.
///
/// Every line ending of the configured set is recognized and kept in the
/// returned line; all of LF, CRLF and CR are accepted by default.
#[derive(Debug)]
pub struct StringTextReader {
    text: String,
    cursor: TextCursor,
    line_endings: LineEndingSet,
    pending_char: Option<char>,
}

impl StringTextReader {
    /// The cursor always ends a prefix of whole characters.
    #[verifier::type_invariant]
    spec fn inv(self) -> bool {
        cursor_at(self.text@, self.cursor.position as int, self.cursor.index as int)
    }

    /// The owned text.
    pub closed spec fn text(&self) -> Seq<char> {
        self.text@
    }

    /// Number of characters of the text consumed so far.
    pub closed spec fn index(&self) -> int {
        self.cursor.index as int
    }

    /// UTF-8 byte length of the characters of the text consumed so far.
    pub closed spec fn byte_position(&self) -> int {
        self.cursor.position as int
    }

    /// A character that was looked at past a line end and is read next.
    pub closed spec fn pending(&self) -> Option<char> {
        self.pending_char
    }

    /// The configured line endings.
    pub closed spec fn endings(&self) -> LineEndingSet {
        self.line_endings
    }

    /// The characters this reader still yields, in order.
    pub open spec fn stream(&self) -> Seq<char> {
        with_pending(self.pending(), self.text().skip(self.index()))
    }

    /// Whether `next` is this reader after a read that handed out `piece`:
    /// the text and the line endings are kept, and the characters still to
    /// come are the piece followed by what `next` still yields.
    pub open spec fn read_step(&self, next: &Self, piece: Seq<char>) -> bool {
        &&& next.text() == self.text()
        &&& next.endings() == self.endings()
        &&& self.stream() == piece + next.stream()
    }

    /// Creates a reader positioned at the start of `text`.
    pub fn new(text: String) -> (reader: Self)
        ensures
            reader.text() == text@,
            reader.index() == 0,
            reader.byte_position() == 0,
            reader.pending().is_none(),
            reader.stream() == text@,
            reader.endings() == LineEndingSet::all_spec(),
    {
        proof {
            lemma_cursor_start(text@);
            assert(text@.skip(0) =~= text@);
        }
        StringTextReader {
            text,
            cursor: TextCursor { position: 0, index: 0 },
            line_endings: LineEndingSet::all(),
            pending_char: None,
        }
    }

    /// Returns the current byte position in the underlying string.
    pub fn position(&self) -> (position: usize)
        ensures
            position == self.byte_position(),
            cursor_at(self.text(), position as int, self.index()),
    {
        proof {
            use_type_invariant(self);
        }
        self.cursor.position
    }

    /// Sets the line endings recognized by [`StringTextReader::read_line`].
    pub fn with_line_endings(self, line_endings: LineEndingSet) -> (reader: Self)
        ensures
            reader.endings() == line_endings,
            reader.text() == self.text(),
            reader.index() == self.index(),
            reader.byte_position() == self.byte_position(),
            reader.pending() == self.pending(),
    {
        proof {
            use_type_invariant(&self);
        }
        StringTextReader {
            text: self.text,
            cursor: self.cursor,
            line_endings,
            pending_char: self.pending_char,
        }
    }

    /// Returns the line endings recognized by this reader.
    pub fn line_endings(&self) -> (line_endings: LineEndingSet)
        ensures
            line_endings == self.endings(),
    {
        self.line_endings
    }

    /// Returns the owned string.
    pub fn into_inner(self) -> (text: String)
        ensures
            text@ == self.text(),
    {
        self.text
    }

    /// Reads the next character.
    fn next_char(&mut self) -> (ch: Option<char>)
        ensures
            final(self).text() == old(self).text(),
            final(self).endings() == old(self).endings(),
            old(self).stream().len() > 0 ==> ch == Some(old(self).stream()[0])
                && final(self).stream() == old(self).stream().drop_first(),
            old(self).stream().len() == 0 ==> ch.is_none() && final(self).stream()
                == old(self).stream(),
    {
        proof {
            use_type_invariant(&*self);
        }
        let ghost text = self.text();
        let ghost index = self.index();
        let pending = self.pending_char;
        self.pending_char = None;
        if let Some(ch) = pending {
            proof {
                assert((seq![ch] + text.skip(index)).drop_first() =~= text.skip(index));
            }
            return Some(ch);
        }
        let mut cursor = self.cursor;
        let ch = read_char_at(self.text.as_str(), &mut cursor.position, &mut cursor.index);
        self.cursor = cursor;
        proof {
            if index < text.len() {
                assert(text.skip(index).drop_first() =~= text.skip(index + 1));
            }
        }
        ch
    }

    /// Reads up to `max` characters into `output`, returning how many were
    /// appended.
    fn next_chars(&mut self, output: &mut Vec<char>, max: usize) -> (count: usize)
        ensures
            final(self).text() == old(self).text(),
            final(self).endings() == old(self).endings(),
            count == if max < old(self).stream().len() {
                max as int
            } else {
                old(self).stream().len() as int
            },
            final(output)@ == old(output)@ + old(self).stream().take(count as int),
            final(self).stream() == old(self).stream().skip(count as int),
    {
        proof {
            use_type_invariant(&*self);
        }
        let ghost text = self.text();
        let ghost index = self.index();
        let ghost stream = self.stream();
        let mut count: usize = 0;
        if max > 0 {
            let pending = self.pending_char;
            self.pending_char = None;
            if let Some(ch) = pending {
                output.push(ch);
                count = 1;
            }
        }
        let ghost out1 = output@;
        let mut cursor = self.cursor;
        let read = read_chars_at(self.text.as_str(), &mut cursor.position, &mut cursor.index, output, max - count);
        self.cursor = cursor;
        proof {
            let rest = text.skip(index);
            assert(text.subrange(index, index + read) =~= rest.take(read as int));
            assert(text.skip(index + read) =~= rest.skip(read as int));
            if count == 1 {
                assert(stream.take(1 + read) =~= seq![stream[0]] + rest.take(read as int));
                assert(stream.skip(1 + read) =~= rest.skip(read as int));
            } else {
                assert(stream.take(read as int) =~= rest.take(read as int) || max == 0);
                if max == 0 {
                    assert(stream.take(0) =~= Seq::<char>::empty());
                    assert(stream.skip(0) =~= stream);
                }
            }
        }
        count + read
    }

    /// Appends all remaining text to `output`, returning the number of
    /// characters appended.
    fn rest_to_string(&mut self, output: &mut String) -> (count: usize)
        ensures
            final(self).text() == old(self).text(),
            final(self).endings() == old(self).endings(),
            count == old(self).stream().len(),
            final(output)@ == old(output)@ + old(self).stream(),
            final(self).stream().len() == 0,
    {
        proof {
            use_type_invariant(&*self);
        }
        let ghost text = self.text();
        let ghost index = self.index();
        let ghost stream = self.stream();
        let ghost out0 = output@;
        let mut count: usize = 0;
        let pending = self.pending_char;
        self.pending_char = None;
        if let Some(ch) = pending {
            crate::utf8_text::string_push(output, ch);
            count = 1;
        }
        let mut cursor = self.cursor;
        let read = read_to_string_at(self.text.as_str(), &mut cursor.position, &mut cursor.index, output);
        self.cursor = cursor;
        proof {
            if count == 1 {
                assert(output@ =~= out0 + stream);
            }
            assert(text.skip(text.len() as int) =~= Seq::<char>::empty());
        }
        count + read
    }

    /// Appends the next line, its terminator included, to `output`;
    /// returns `false` at end of input with nothing appended.
    fn next_line(&mut self, output: &mut String) -> (read: bool)
        ensures
            final(self).text() == old(self).text(),
            final(self).endings() == old(self).endings(),
            read == (old(self).stream().len() > 0),
            final(output)@ == old(output)@ + old(self).stream().take(
                line_len(old(self).stream(), old(self).endings()),
            ),
            final(self).stream() == old(self).stream().skip(
                line_len(old(self).stream(), old(self).endings()),
            ),
            final(self).pending() == line_lookahead(old(self).stream(), old(self).endings()),
            final(self).index() == old(self).index() + line_len(old(self).stream(), old(self).endings())
                - pending_len(old(self).pending()) + pending_len(final(self).pending()),
    {
        proof {
            use_type_invariant(&*self);
        }
        let mut cursor = self.cursor;
        let mut pending = self.pending_char;
        let read = read_line_at_with(
            self.text.as_str(),
            &mut cursor.position,
            &mut cursor.index,
            self.line_endings,
            &mut pending,
            output,
        );
        proof {
            let stream = with_pending(self.pending_char, self.text@.skip(self.cursor.index as int));
            let len = line_len(stream, self.line_endings);
            crate::line_scan::lemma_line_len(stream, self.line_endings, 0);
            assert(with_pending(pending, self.text@.skip(cursor.index as int)).len() == stream.skip(
                len,
            ).len());
        }
        self.cursor = cursor;
        self.pending_char = pending;
        read
    }
}

impl TextRead for StringTextReader {
    type Error = Infallible;

    fn read_char(&mut self) -> (outcome: Result<Option<char>, Self::Error>)
        ensures
            final(self).text() == old(self).text(),
            final(self).endings() == old(self).endings(),
            old(self).stream().len() > 0 ==> outcome == Ok::<Option<char>, Infallible>(Some(old(self).stream()[0])) && final(self).stream()
                == old(self).stream().drop_first(),
            old(self).stream().len() == 0 ==> outcome == Ok::<Option<char>, Infallible>(None) && final(self).stream() == old(self).stream(),
            old(self).read_step(
                &*final(self),
                if old(self).stream().len() > 0 {
                    seq![old(self).stream()[0]]
                } else {
                    Seq::<char>::empty()
                },
            ),
    {
        let ch = StringTextReader::next_char(self);
        proof {
            let stream = old(self).stream();
            if stream.len() > 0 {
                assert(stream =~= seq![stream[0]] + stream.drop_first());
            } else {
                assert(stream =~= Seq::<char>::empty() + stream);
            }
        }
        Ok(ch)
    }

    fn read_chars(&mut self, output: &mut Vec<char>, max: usize) -> (outcome: Result<usize, Self::Error>)
        ensures
            final(self).text() == old(self).text(),
            final(self).endings() == old(self).endings(),
            ({
                let count: int = if max < old(self).stream().len() {
                    max as int
                } else {
                    old(self).stream().len() as int
                };
                &&& outcome == Ok::<usize, Infallible>(count as usize)
                &&& final(output)@ == old(output)@ + old(self).stream().take(count)
                &&& final(self).stream() == old(self).stream().skip(count)
                &&& old(self).read_step(&*final(self), old(self).stream().take(count))
            }),
    {
        let count = StringTextReader::next_chars(self, output, max);
        proof {
            let stream = old(self).stream();
            assert(stream =~= stream.take(count as int) + stream.skip(count as int));
        }
        Ok(count)
    }

    fn read_to_string(&mut self, output: &mut String) -> (outcome: Result<usize, Self::Error>)
        ensures
            final(self).text() == old(self).text(),
            final(self).endings() == old(self).endings(),
            (outcome matches Ok(count) && count == old(self).stream().len()),
            final(output)@ == old(output)@ + old(self).stream(),
            final(self).stream().len() == 0,
            old(self).read_step(&*final(self), old(self).stream()),
    {
        let count = StringTextReader::rest_to_string(self, output);
        proof {
            assert(old(self).stream() =~= old(self).stream() + self.stream());
        }
        Ok(count)
    }
}

impl TextLineRead for StringTextReader {
    fn read_line(&mut self, output: &mut String) -> (outcome: Result<bool, Self::Error>)
        ensures
            final(self).text() == old(self).text(),
            final(self).endings() == old(self).endings(),
            outcome == Ok::<bool, Infallible>(old(self).stream().len() > 0),
            final(output)@ == old(output)@ + old(self).stream().take(line_len(old(self).stream(), old(self).endings())),
            final(self).stream() == old(self).stream().skip(line_len(old(self).stream(), old(self).endings())),
            final(self).pending() == line_lookahead(old(self).stream(), old(self).endings()),
            final(self).index() == old(self).index() + line_len(old(self).stream(), old(self).endings())
                - pending_len(old(self).pending()) + pending_len(final(self).pending()),
            old(self).read_step(
                &*final(self),
                old(self).stream().take(line_len(old(self).stream(), old(self).endings())),
            ),
    {
        let read = StringTextReader::next_line(self, output);
        proof {
            let stream = old(self).stream();
            let n = line_len(stream, old(self).endings());
            crate::line_scan::lemma_line_len(stream, old(self).endings(), 0);
            assert(stream =~= stream.take(n) + stream.skip(n));
        }
        Ok(read)
    }
}

/// Over any sequence of reads of a `StringTextReader` (characters, runs,
/// lines or the rest, in any order), the owned text and the line endings
/// are kept, so [`StringTextReader::into_inner`] gives back the text the
/// reader was made with, and the characters the reads handed out, joined in
/// order, followed by what the reader still yields, are what it yielded at
/// the start: nothing is lost or repeated, a character read ahead included.
pub proof fn lemma_string_reads_keep_text(states: Seq<StringTextReader>, pieces: Seq<Seq<char>>)
    requires
        states.len() == pieces.len() + 1,
        forall|i: int| 0 <= i < pieces.len() ==> #[trigger] states[i].read_step(&states[i + 1], pieces[i]),
    ensures
        states.last().text() == states[0].text(),
        states.last().endings() == states[0].endings(),
        states[0].stream() == joined(pieces) + states.last().stream(),
    decreases pieces.len(),
{
    if pieces.len() == 0 {
        assert(joined(pieces) =~= Seq::<char>::empty());
        assert(Seq::<char>::empty() + states[0].stream() =~= states[0].stream());
    } else {
        let rest = states.drop_first();
        assert forall|i: int| 0 <= i < pieces.drop_first().len() implies #[trigger] rest[i].read_step(
            &rest[i + 1],
            pieces.drop_first()[i],
        ) by {
            let j = i + 1;
            assert(states[j].read_step(&states[j + 1], pieces[j]));
            assert(rest[i] == states[j] && rest[i + 1] == states[j + 1]);
            assert(pieces.drop_first()[i] == pieces[j]);
        }
        lemma_string_reads_keep_text(rest, pieces.drop_first());
        assert(states[0].read_step(&states[1], pieces[0]));
        assert(rest.last() == states.last());
        assert(joined(pieces) == pieces[0] + joined(pieces.drop_first()));
        assert(states[0].stream() =~= joined(pieces) + states.last().stream());
    }
}

} // verus!

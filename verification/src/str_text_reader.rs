//! Text reader over a borrowed string slice.
use std::convert::Infallible;

use vstd::prelude::*;

use crate::line_ending_set::LineEndingSet;
use crate::line_scan::{joined, line_len};
use crate::text_cursor::{
    cursor_at,
    lemma_cursor_start,
    read_char_at,
    read_chars_at,
    read_line_at,
    read_to_string_at,
};
use crate::utf8_text::utf8_len;
use crate::traits::{
    TextLineRead,
    TextRead,
};

verus! {

/// Text reader over a borrowed string slice.
///
/// Lines end at LF, CRLF or CR, and keep their terminator; a CR followed
/// by LF is one terminator.
#[derive(Debug)]
pub struct StrTextReader<'a> {
    text: &'a str,
    position: usize,
    chars_read: usize,
}

impl<'a> StrTextReader<'a> {
    /// The byte position always ends the prefix of characters already read.
    #[verifier::type_invariant]
    spec fn inv(self) -> bool {
        cursor_at(self.text@, self.position as int, self.chars_read as int)
    }

    /// The text being read.
    pub closed spec fn text(&self) -> Seq<char> {
        self.text@
    }

    /// Number of characters already read.
    pub closed spec fn index(&self) -> int {
        self.chars_read as int
    }

    /// The UTF-8 byte length of the characters already read.
    pub closed spec fn byte_position(&self) -> int {
        self.position as int
    }

    /// Characters not yet read.
    pub open spec fn remaining(&self) -> Seq<char> {
        self.text().skip(self.index())
    }

    /// Characters already read, in order.
    pub open spec fn consumed(&self) -> Seq<char> {
        self.text().take(self.index())
    }

    /// Whether `next` is this reader after a read that handed out `piece`:
    /// the text is kept, and the piece follows what was read before.
    pub open spec fn read_step(&self, next: &Self, piece: Seq<char>) -> bool {
        &&& next.text() == self.text()
        &&& next.consumed() == self.consumed() + piece
    }

    /// Creates a reader positioned at the start of `text`.
    pub fn new(text: &'a str) -> (reader: Self)
        ensures
            reader.text() == text@,
            reader.index() == 0,
            reader.byte_position() == 0,
            reader.remaining() == text@,
            reader.consumed() == Seq::<char>::empty(),
    {
        proof {
            lemma_cursor_start(text@);
            assert(text@.skip(0) =~= text@);
            assert(text@.take(0) =~= Seq::<char>::empty());
        }
        StrTextReader { text, position: 0, chars_read: 0 }
    }

    /// Returns the current byte position in the underlying string slice,
    /// the UTF-8 length of the characters already read.
    pub fn position(&self) -> (position: usize)
        ensures
            position == self.byte_position(),
            cursor_at(self.text(), position as int, self.index()),
            position == utf8_len(self.consumed()),
            self.consumed() + self.remaining() == self.text(),
    {
        proof {
            use_type_invariant(self);
            assert(self.consumed() + self.remaining() =~= self.text());
        }
        self.position
    }

    /// Reads the next character.
    fn next_char(&mut self) -> (ch: Option<char>)
        ensures
            final(self).text() == old(self).text(),
            old(self).remaining().len() > 0 ==> ch == Some(old(self).remaining()[0])
                && final(self).remaining() == old(self).remaining().drop_first(),
            old(self).remaining().len() == 0 ==> ch.is_none() && final(self).remaining()
                == old(self).remaining(),
            old(self).read_step(
                &*final(self),
                if old(self).remaining().len() > 0 {
                    seq![old(self).remaining()[0]]
                } else {
                    Seq::<char>::empty()
                },
            ),
    {
        proof {
            use_type_invariant(&*self);
        }
        let ghost text = self.text();
        let ghost index = self.index();
        let mut position = self.position;
        let mut chars_read = self.chars_read;
        let ch = read_char_at(self.text, &mut position, &mut chars_read);
        *self = StrTextReader { text: self.text, position, chars_read };
        proof {
            if index < text.len() {
                assert(text.skip(index).drop_first() =~= text.skip(index + 1));
                assert(text.take(index + 1) =~= text.take(index) + seq![text.skip(index)[0]]);
            } else {
                assert(text.take(index) + Seq::<char>::empty() =~= text.take(index));
            }
        }
        ch
    }

    /// Reads up to `max` characters into `output`, returning how many were
    /// appended.
    fn next_chars(&mut self, output: &mut Vec<char>, max: usize) -> (count: usize)
        ensures
            final(self).text() == old(self).text(),
            count == if max < old(self).remaining().len() {
                max as int
            } else {
                old(self).remaining().len() as int
            },
            final(output)@ == old(output)@ + old(self).remaining().take(count as int),
            final(self).remaining() == old(self).remaining().skip(count as int),
            old(self).read_step(&*final(self), old(self).remaining().take(count as int)),
    {
        proof {
            use_type_invariant(&*self);
        }
        let ghost text = self.text();
        let ghost index = self.index();
        let mut position = self.position;
        let mut chars_read = self.chars_read;
        let count = read_chars_at(self.text, &mut position, &mut chars_read, output, max);
        *self = StrTextReader { text: self.text, position, chars_read };
        proof {
            assert(text.subrange(index, index + count) =~= text.skip(index).take(count as int));
            assert(text.skip(index + count) =~= text.skip(index).skip(count as int));
            assert(text.take(index + count) =~= text.take(index) + text.skip(index).take(count as int));
        }
        count
    }

    /// Appends all remaining text to `output`, returning the number of
    /// characters appended.
    fn rest_to_string(&mut self, output: &mut String) -> (count: usize)
        ensures
            final(self).text() == old(self).text(),
            count == old(self).remaining().len(),
            final(output)@ == old(output)@ + old(self).remaining(),
            final(self).remaining().len() == 0,
            old(self).read_step(&*final(self), old(self).remaining()),
    {
        proof {
            use_type_invariant(&*self);
        }
        let ghost text = self.text();
        let ghost index = self.index();
        let mut position = self.position;
        let mut chars_read = self.chars_read;
        let count = read_to_string_at(self.text, &mut position, &mut chars_read, output);
        *self = StrTextReader { text: self.text, position, chars_read };
        proof {
            assert(text.take(text.len() as int) =~= text.take(index) + text.skip(index));
        }
        count
    }

    /// Appends the next line, its terminator included, to `output`; returns
    /// `false` at end of input.
    fn next_line(&mut self, output: &mut String) -> (read: bool)
        ensures
            final(self).text() == old(self).text(),
            read == (old(self).remaining().len() > 0),
            final(output)@ == old(output)@ + old(self).remaining().take(
                line_len(old(self).remaining(), LineEndingSet::all_spec()),
            ),
            final(self).remaining() == old(self).remaining().skip(
                line_len(old(self).remaining(), LineEndingSet::all_spec()),
            ),
            old(self).read_step(
                &*final(self),
                old(self).remaining().take(line_len(old(self).remaining(), LineEndingSet::all_spec())),
            ),
    {
        proof {
            use_type_invariant(&*self);
        }
        let ghost text = self.text();
        let ghost index = self.index();
        let mut position = self.position;
        let mut chars_read = self.chars_read;
        let read = read_line_at(self.text, &mut position, &mut chars_read, LineEndingSet::all(), output);
        *self = StrTextReader { text: self.text, position, chars_read };
        proof {
            use_type_invariant(&*self);
            let n = line_len(text.skip(index), LineEndingSet::all_spec());
            crate::line_scan::lemma_line_len(text.skip(index), LineEndingSet::all_spec(), 0);
            assert(text.take(index + n) =~= text.take(index) + text.skip(index).take(n));
        }
        read
    }
}

impl TextRead for StrTextReader<'_> {
    type Error = Infallible;

    fn read_char(&mut self) -> (outcome: Result<Option<char>, Infallible>)
        ensures
            final(self).text() == old(self).text(),
            old(self).remaining().len() > 0 ==> outcome == Ok::<Option<char>, Infallible>(Some(old(self).remaining()[0])) && final(self).remaining()
                == old(self).remaining().drop_first(),
            old(self).remaining().len() == 0 ==> outcome == Ok::<Option<char>, Infallible>(None) && final(self).remaining() == old(self).remaining(),
            old(self).read_step(
                &*final(self),
                if old(self).remaining().len() > 0 {
                    seq![old(self).remaining()[0]]
                } else {
                    Seq::<char>::empty()
                },
            ),
    {
        Ok(StrTextReader::next_char(self))
    }

    fn read_chars(&mut self, output: &mut Vec<char>, max: usize) -> (outcome: Result<usize, Infallible>)
        ensures
            final(self).text() == old(self).text(),
            ({
                let count: int = if max < old(self).remaining().len() {
                    max as int
                } else {
                    old(self).remaining().len() as int
                };
                &&& outcome == Ok::<usize, Infallible>(count as usize)
                &&& final(output)@ == old(output)@ + old(self).remaining().take(count)
                &&& final(self).remaining() == old(self).remaining().skip(count)
                &&& old(self).read_step(&*final(self), old(self).remaining().take(count))
            }),
    {
        Ok(StrTextReader::next_chars(self, output, max))
    }

    fn read_to_string(&mut self, output: &mut String) -> (outcome: Result<usize, Infallible>)
        ensures
            final(self).text() == old(self).text(),
            (outcome matches Ok(count) && count == old(self).remaining().len()),
            final(output)@ == old(output)@ + old(self).remaining(),
            final(self).remaining().len() == 0,
            old(self).read_step(&*final(self), old(self).remaining()),
    {
        Ok(StrTextReader::rest_to_string(self, output))
    }
}

impl TextLineRead for StrTextReader<'_> {
    fn read_line(&mut self, output: &mut String) -> (outcome: Result<bool, Infallible>)
        ensures
            final(self).text() == old(self).text(),
            outcome == Ok::<bool, Infallible>(old(self).remaining().len() > 0),
            final(output)@ == old(output)@ + old(self).remaining().take(line_len(old(self).remaining(), LineEndingSet::all_spec())),
            final(self).remaining() == old(self).remaining().skip(line_len(old(self).remaining(), LineEndingSet::all_spec())),
            old(self).read_step(
                &*final(self),
                old(self).remaining().take(line_len(old(self).remaining(), LineEndingSet::all_spec())),
            ),
    {
        Ok(StrTextReader::next_line(self, output))
    }
}

/// Over any sequence of reads of a `StrTextReader` (characters, runs,
/// lines or the rest, in any order), the text is kept and what was read is
/// the pieces the reads handed out, joined in order. Started from
/// [`StrTextReader::new`], which has read nothing, the text read is a
/// prefix of the text, and [`StrTextReader::position`] is its UTF-8 length.
pub proof fn lemma_str_reads_accumulate(states: Seq<StrTextReader>, pieces: Seq<Seq<char>>)
    requires
        states.len() == pieces.len() + 1,
        forall|i: int| 0 <= i < pieces.len() ==> #[trigger] states[i].read_step(&states[i + 1], pieces[i]),
    ensures
        states.last().text() == states[0].text(),
        states.last().consumed() == states[0].consumed() + joined(pieces),
    decreases pieces.len(),
{
    if pieces.len() == 0 {
        assert(joined(pieces) =~= Seq::<char>::empty());
        assert(states[0].consumed() + Seq::<char>::empty() =~= states[0].consumed());
    } else {
        let rest = states.drop_first();
        assert forall|i: int| 0 <= i < pieces.drop_first().len() implies #[trigger] rest[i].read_step(
            &rest[i + 1],
            pieces.drop_first()[i],
        ) by {
            let j = i + 1;
            assert(states[j].read_step(&states[j + 1], pieces[j]));
            assert(rest[i] == states[j] && rest[i + 1] == states[j + 1]);
            assert(pieces.drop_first()[i] == pieces[j]);
        }
        lemma_str_reads_accumulate(rest, pieces.drop_first());
        assert(states[0].read_step(&states[1], pieces[0]));
        assert(rest.last() == states.last());
        assert(joined(pieces) == pieces[0] + joined(pieces.drop_first()));
        assert(states.last().consumed() =~= states[0].consumed() + joined(pieces));
    }
}

} // verus!

//! Character input over an owned string.
use vstd::prelude::*;

use crate::line_scan::joined;
use crate::utf8_text::utf8_len;
use crate::text_cursor::{
    cursor_at,
    lemma_cursor_start,
    read_char_at,
    TextCursor,
};

verus! {

/// Character input over an owned [`String`].
///
/// The position is a UTF-8 byte offset and always advances over whole
/// characters.
#[derive(Debug)]
pub struct StringCharInput {
    text: String,
    cursor: TextCursor,
}

impl StringCharInput {
    /// The position always ends the prefix of characters already read.
    #[verifier::type_invariant]
    spec fn inv(self) -> bool {
        cursor_at(self.text@, self.cursor.position as int, self.cursor.index as int)
    }

    /// The owned text.
    pub closed spec fn text(&self) -> Seq<char> {
        self.text@
    }

    /// Number of characters already read.
    pub closed spec fn index(&self) -> int {
        self.cursor.index as int
    }

    /// UTF-8 byte length of the characters already read.
    pub closed spec fn byte_position(&self) -> int {
        self.cursor.position as int
    }

    /// Characters not yet read.
    pub open spec fn remaining(&self) -> Seq<char> {
        self.text().skip(self.index())
    }

    /// Characters already read, in order.
    pub open spec fn consumed(&self) -> Seq<char> {
        self.text().take(self.index())
    }

    /// Whether `next` is this input after a read that handed out `piece`:
    /// the text is kept, and the piece follows what was read before.
    pub open spec fn read_step(&self, next: &Self, piece: Seq<char>) -> bool {
        &&& next.text() == self.text()
        &&& next.consumed() == self.consumed() + piece
    }

    /// Creates a character input positioned at the start of `text`.
    pub fn new(text: String) -> (input: Self)
        ensures
            input.text() == text@,
            input.index() == 0,
            input.byte_position() == 0,
            input.consumed() == Seq::<char>::empty(),
    {
        proof {
            lemma_cursor_start(text@);
            assert(text@.take(0) =~= Seq::<char>::empty());
        }
        StringCharInput { text, cursor: TextCursor { position: 0, index: 0 } }
    }

    /// Returns the current byte position in the underlying string.
    pub fn position(&self) -> (position: usize)
        ensures
            position == self.byte_position(),
            cursor_at(self.text(), position as int, self.index()),
            position == utf8_len(self.consumed()),
            self.consumed() + self.remaining() == self.text(),
    {
        proof {
            use_type_invariant(self);
            assert(self.consumed() + self.remaining() =~= self.text());
        }
        self.cursor.position
    }

    /// Returns the wrapped string.
    pub fn get_ref(&self) -> (text: &String)
        ensures
            text@ == self.text(),
    {
        &self.text
    }

    /// Returns the owned string.
    pub fn into_inner(self) -> (text: String)
        ensures
            text@ == self.text(),
    {
        self.text
    }

    /// Reads up to `count` characters into `output[start..start + count]`,
    /// returning how many were read; the rest of `output` is left as it was.
    pub fn read_into(&mut self, output: &mut [char], start: usize, count: usize) -> (read: usize)
        requires
            start + count <= old(output)@.len(),
        ensures
            final(self).text() == old(self).text(),
            read == if count < old(self).remaining().len() {
                count as int
            } else {
                old(self).remaining().len() as int
            },
            final(output)@.len() == old(output)@.len(),
            forall|i: int|
                0 <= i < final(output)@.len() ==> #[trigger] final(output)@[i] == if start <= i
                    < start + read {
                    old(self).remaining()[i - start]
                } else {
                    old(output)@[i]
                },
            final(self).remaining() == old(self).remaining().skip(read as int),
            old(self).read_step(&*final(self), old(self).remaining().take(read as int)),
    {
        proof {
            use_type_invariant(&*self);
        }
        let ghost text = self.text();
        let ghost index = self.index();
        let mut position = self.cursor.position;
        let mut chars_read = self.cursor.index;
        let mut read: usize = 0;
        let len = output.len();
        while read < count
            invariant
                read <= count,
                start + count <= output@.len(),
                len == output@.len(),
                output@.len() == old(output)@.len(),
                text == self.text@,
                0 <= index,
                chars_read == index + read,
                index + read <= text.len(),
                cursor_at(text, position as int, chars_read as int),
                forall|i: int|
                    0 <= i < output@.len() ==> #[trigger] output@[i] == if start <= i < start
                        + read {
                        text[index + i - start]
                    } else {
                        old(output)@[i]
                    },
            ensures
                read == count || index + read == text.len(),
                read <= count,
                output@.len() == old(output)@.len(),
                chars_read == index + read,
                cursor_at(text, position as int, chars_read as int),
                forall|i: int|
                    0 <= i < output@.len() ==> #[trigger] output@[i] == if start <= i < start
                        + read {
                        text[index + i - start]
                    } else {
                        old(output)@[i]
                    },
            decreases count - read,
        {
            match read_char_at(self.text.as_str(), &mut position, &mut chars_read) {
                Some(ch) => {
                    output[start + read] = ch;
                    read = read + 1;
                },
                None => {
                    break ;
                },
            }
        }
        self.cursor = TextCursor { position, index: chars_read };
        proof {
            assert(text.skip(index + read) =~= text.skip(index).skip(read as int));
            assert(text.take(index + read) =~= text.take(index) + text.skip(index).take(read as int));
        }
        read
    }
}

/// Over any sequence of reads of a `StringCharInput`, the text is kept,
/// so [`StringCharInput::into_inner`] gives back the text the input was
/// made with, and what was read is the pieces the reads handed out, joined
/// in order. Started from [`StringCharInput::new`], the text read is a
/// prefix of the text and [`StringCharInput::position`] is its UTF-8
/// length, a character boundary.
pub proof fn lemma_char_input_reads_accumulate(states: Seq<StringCharInput>, pieces: Seq<Seq<char>>)
    requires
        states.len() == pieces.len() + 1,
        forall|i: int| 0 <= i < pieces.len() ==> #[trigger] states[i].read_step(&states[i + 1], pieces[i]),
    ensures
        states.last().text() == states[0].text(),
        states.last().consumed() == states[0].consumed() + joined(pieces),
    decreases pieces.len(),
{
    if pieces.len() == 0 {
        assert(joined(pieces) =~= Seq::<char>::empty());
        assert(states[0].consumed() + Seq::<char>::empty() =~= states[0].consumed());
    } else {
        let rest = states.drop_first();
        assert forall|i: int| 0 <= i < pieces.drop_first().len() implies #[trigger] rest[i].read_step(
            &rest[i + 1],
            pieces.drop_first()[i],
        ) by {
            let j = i + 1;
            assert(states[j].read_step(&states[j + 1], pieces[j]));
            assert(rest[i] == states[j] && rest[i + 1] == states[j + 1]);
            assert(pieces.drop_first()[i] == pieces[j]);
        }
        lemma_char_input_reads_accumulate(rest, pieces.drop_first());
        assert(states[0].read_step(&states[1], pieces[0]));
        assert(rest.last() == states.last());
        assert(joined(pieces) == pieces[0] + joined(pieces.drop_first()));
        assert(states.last().consumed() =~= states[0].consumed() + joined(pieces));
    }
}

} // verus!

//! Character output appending to a borrowed string.
use std::collections::TryReserveError;
use std::io;

use vstd::prelude::*;

use crate::io_error::allocation_error_to_io;
use crate::reserve::reserve_string;
use crate::string_text_writer::push_chars;

verus! {

/// Total UTF-8 length of `chars`.
pub open spec fn chars_utf8_len(chars: Seq<char>) -> nat {
    crate::utf8_text::utf8_len(chars)
}

/// Returns the UTF-8 byte capacity needed to append `chars` to a string,
/// saturating at `usize::MAX`.
pub fn required_string_capacity(chars: &[char]) -> (capacity: usize)
    ensures
        capacity == if chars_utf8_len(chars@) <= usize::MAX {
            chars_utf8_len(chars@) as int
        } else {
            usize::MAX as int
        },
{
    let mut capacity: usize = 0;
    let mut i: usize = 0;
    while i < chars.len()
        invariant
            i <= chars@.len(),
            capacity == if chars_utf8_len(chars@.take(i as int)) <= usize::MAX {
                chars_utf8_len(chars@.take(i as int)) as int
            } else {
                usize::MAX as int
            },
        decreases chars@.len() - i,
    {
        let width = crate::utf8_text::utf8_width(chars[i]);
        proof {
            assert(chars@.take(i + 1) =~= chars@.take(i as int).push(chars@[i as int]));
            crate::utf8_text::lemma_utf8_len_push(chars@.take(i as int), chars@[i as int]);
        }
        capacity = capacity.saturating_add(width);
        i = i + 1;
    }
    assert(chars@.take(chars@.len() as int) =~= chars@);
    capacity
}

/// Character output over a borrowed [`String`]; writes append characters
/// and flushing does nothing.
#[derive(Debug)]
pub struct StringOutput<'a> {
    output: &'a mut String,
}

impl<'a> StringOutput<'a> {
    /// The text currently held by the destination string.
    pub closed spec fn written(&self) -> Seq<char> {
        (*self.output)@
    }

    /// Creates a character output appending to `output`.
    pub fn new(output: &'a mut String) -> (sink: Self)
        ensures
            sink.written() == old(output)@,
    {
        StringOutput { output }
    }

    /// Returns the destination string.
    pub fn get_ref(&self) -> (output: &String)
        ensures
            output@ == self.written(),
    {
        self.output
    }

    /// Returns the destination string mutably.
    pub fn get_mut(&mut self) -> (output: &mut String)
        ensures
            (*output)@ == old(self).written(),
            final(self).written() == (*final(output))@,
    {
        &mut *self.output
    }

    /// Appends `input[start..start + count]`, returning `count`; when the
    /// string cannot grow, returns an `OutOfMemory` error and appends
    /// nothing.
    pub fn write_from(&mut self, input: &[char], start: usize, count: usize) -> (result: io::Result<
        usize,
    >)
        requires
            start + count <= input@.len(),
        ensures
            result.is_ok() ==> result == Ok::<usize, io::Error>(count) && final(self).written()
                == old(self).written() + input@.subrange(start as int, start + count),
            result.is_err() ==> final(self).written() == old(self).written(),
    {
        let (_, tail) = input.split_at(start);
        let (source, _) = tail.split_at(count);
        assert(source@ =~= input@.subrange(start as int, start + count));
        let additional = required_string_capacity(source);
        let reserved = reserve_string(self.output, additional);
        self.write_after_reserve(source, reserved)
    }

    /// Appends `source` once room for its UTF-8 bytes was asked for,
    /// `reserved` being the answer: whatever the characters and however
    /// long the text already is, the write succeeds with the number of
    /// characters and appends them exactly when the room was reserved; when
    /// it was refused nothing is appended and the error is the reservation's,
    /// reported as an I/O error.
    pub fn write_after_reserve(&mut self, source: &[char], reserved: Result<(), TryReserveError>) -> (result:
        io::Result<usize>)
        ensures
            result is Ok <==> reserved is Ok,
            reserved is Ok ==> result == Ok::<usize, io::Error>(source.len()) && final(self).written()
                == old(self).written() + source@,
            reserved is Err ==> final(self).written() == old(self).written(),
    {
        match reserved {
            Ok(()) => {
                push_chars(self.output, source);
                Ok(source.len())
            },
            Err(error) => Err(allocation_error_to_io(error)),
        }
    }

    /// Flushes the output, which holds nothing back.
    pub fn flush(&mut self) -> (result: io::Result<()>)
        ensures
            result.is_ok(),
            final(self).written() == old(self).written(),
    {
        Ok(())
    }
}

} // verus!

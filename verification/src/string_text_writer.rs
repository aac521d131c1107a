//! Text writers that append to a `String`.
use std::convert::Infallible;

use vstd::prelude::*;

use crate::line_ending::{
    LineEnding,
    line_ending_chars,
};
use crate::traits::TextWrite;
use crate::utf8_text::{
    string_push,
    string_push_str,
};

verus! {

/// Appends `chars` to `output` in order.
pub fn push_chars(output: &mut String, chars: &[char])
    ensures
        final(output)@ == old(output)@ + chars@,
{
    let mut i: usize = 0;
    while i < chars.len()
        invariant
            i <= chars@.len(),
            output@ == old(output)@ + chars@.take(i as int),
        decreases chars@.len() - i,
    {
        string_push(output, chars[i]);
        assert(chars@.take(i + 1) =~= chars@.take(i as int).push(chars@[i as int]));
        i = i + 1;
    }
    assert(chars@.take(chars@.len() as int) =~= chars@);
}

/// Text writer over a borrowed [`String`] with a configurable line ending.
#[derive(Debug)]
pub struct StringTextWriter<'a> {
    output: &'a mut String,
    line_ending: LineEnding,
}

impl<'a> StringTextWriter<'a> {
    /// The text currently held by the destination string.
    pub closed spec fn written(&self) -> Seq<char> {
        (*self.output)@
    }

    /// The configured line ending.
    pub closed spec fn ending(&self) -> LineEnding {
        self.line_ending
    }

    /// Creates a writer appending to `output` with LF line endings.
    pub fn new(output: &'a mut String) -> (writer: Self)
        ensures
            writer.written() == old(output)@,
            writer.ending() == LineEnding::Lf,
    {
        StringTextWriter { output, line_ending: LineEnding::Lf }
    }

    /// Sets the line ending appended by `write_line`.
    pub fn with_line_ending(self, line_ending: LineEnding) -> (writer: Self)
        ensures
            writer.written() == self.written(),
            writer.ending() == line_ending,
    {
        StringTextWriter { output: self.output, line_ending }
    }

    /// Returns the destination string.
    pub fn get_ref(&self) -> (output: &String)
        ensures
            output@ == self.written(),
    {
        self.output
    }

    /// Returns the destination string mutably.
    pub fn get_mut(&mut self) -> (output: &mut String)
        ensures
            (*output)@ == old(self).written(),
            final(self).written() == (*final(output))@,
            final(self).ending() == old(self).ending(),
    {
        &mut *self.output
    }

    /// Appends one character.
    fn append_char(&mut self, ch: char)
        ensures
            final(self).written() == old(self).written().push(ch),
            final(self).ending() == old(self).ending(),
    {
        string_push(self.output, ch);
    }

    /// Appends characters in order.
    fn append_chars(&mut self, chars: &[char])
        ensures
            final(self).written() == old(self).written() + chars@,
            final(self).ending() == old(self).ending(),
    {
        push_chars(self.output, chars);
    }

    /// Appends a string slice.
    fn append_str(&mut self, text: &str)
        ensures
            final(self).written() == old(self).written() + text@,
            final(self).ending() == old(self).ending(),
    {
        string_push_str(self.output, text);
    }

    /// Appends `line` followed by the configured line ending.
    fn append_line(&mut self, line: &str)
        ensures
            final(self).written() == old(self).written() + line@ + line_ending_chars(
                old(self).ending(),
            ),
            final(self).ending() == old(self).ending(),
    {
        string_push_str(self.output, line);
        let ending = self.line_ending.as_str();
        string_push_str(self.output, ending);
    }
}

impl TextWrite for StringTextWriter<'_> {
    type Error = Infallible;

    fn line_ending(&self) -> (line_ending: LineEnding)
        ensures
            line_ending == self.ending(),
    {
        self.line_ending
    }

    fn write_char(&mut self, ch: char) -> (outcome: Result<(), Self::Error>)
        ensures
            outcome == Ok::<(), Infallible>(()),
            final(self).written() == old(self).written().push(ch),
            final(self).ending() == old(self).ending(),
    {
        StringTextWriter::append_char(self, ch);
        Ok(())
    }

    fn write_chars(&mut self, chars: &[char]) -> (outcome: Result<(), Self::Error>)
        ensures
            outcome == Ok::<(), Infallible>(()),
            final(self).written() == old(self).written() + chars@,
            final(self).ending() == old(self).ending(),
    {
        StringTextWriter::append_chars(self, chars);
        Ok(())
    }

    fn write_str(&mut self, text: &str) -> (outcome: Result<(), Self::Error>)
        ensures
            outcome == Ok::<(), Infallible>(()),
            final(self).written() == old(self).written() + text@,
            final(self).ending() == old(self).ending(),
    {
        StringTextWriter::append_str(self, text);
        Ok(())
    }

    fn write_line(&mut self, line: &str) -> (outcome: Result<(), Self::Error>)
        ensures
            outcome == Ok::<(), Infallible>(()),
            final(self).written() == old(self).written() + line@ + line_ending_chars(old(self).ending()),
            final(self).ending() == old(self).ending(),
    {
        StringTextWriter::append_line(self, line);
        Ok(())
    }

    fn flush(&mut self) -> (outcome: Result<(), Self::Error>)
        ensures
            outcome == Ok::<(), Infallible>(()),
            final(self).written() == old(self).written(),
            final(self).ending() == old(self).ending(),
    {
        Ok(())
    }
}

impl TextWrite for String {
    type Error = Infallible;

    fn line_ending(&self) -> (line_ending: LineEnding)
        ensures
            line_ending == LineEnding::Lf,
    {
        LineEnding::Lf
    }

    fn write_char(&mut self, ch: char) -> (outcome: Result<(), Self::Error>)
        ensures
            outcome == Ok::<(), Infallible>(()),
            final(self)@ == old(self)@.push(ch),
    {
        string_push(self, ch);
        Ok(())
    }

    fn write_chars(&mut self, chars: &[char]) -> (outcome: Result<(), Self::Error>)
        ensures
            outcome == Ok::<(), Infallible>(()),
            final(self)@ == old(self)@ + chars@,
    {
        push_chars(self, chars);
        Ok(())
    }

    fn write_str(&mut self, text: &str) -> (outcome: Result<(), Self::Error>)
        ensures
            outcome == Ok::<(), Infallible>(()),
            final(self)@ == old(self)@ + text@,
    {
        string_push_str(self, text);
        Ok(())
    }

    fn write_line(&mut self, line: &str) -> (outcome: Result<(), Self::Error>)
        ensures
            outcome == Ok::<(), Infallible>(()),
            final(self)@ == old(self)@ + line@ + line_ending_chars(LineEnding::Lf),
    {
        string_push_str(self, line);
        string_push_str(self, LineEnding::Lf.as_str());
        Ok(())
    }

    fn flush(&mut self) -> (outcome: Result<(), Self::Error>)
        ensures
            outcome == Ok::<(), Infallible>(()),
            final(self)@ == old(self)@,
    {
        Ok(())
    }
}

} // verus!

//! Traits for reading and writing Unicode text.
use vstd::prelude::*;

use crate::line_ending::LineEnding;

verus! {

/// Reads Unicode scalar values and strings from a text source.
///
/// Implementations decode any external byte encoding before exposing text
/// to callers.
pub trait TextRead {
    /// Error returned by this text source.
    type Error;

    /// Reads the next Unicode scalar value, or `None` at end of input.
    fn read_char(&mut self) -> Result<Option<char>, Self::Error>;

    /// Reads up to `max` Unicode scalar values into `output`, returning the
    /// number appended.
    fn read_chars(&mut self, output: &mut Vec<char>, max: usize) -> Result<usize, Self::Error>;

    /// Appends all remaining text to `output`, returning the number of
    /// Unicode scalar values appended.
    fn read_to_string(&mut self, output: &mut String) -> Result<usize, Self::Error>;
}

/// Reads text by line while preserving line terminators.
pub trait TextLineRead: TextRead {
    /// Appends one line to `output`; returns `true` when a line or a final
    /// unterminated line was read, `false` at end of input with nothing
    /// appended.
    fn read_line(&mut self, output: &mut String) -> Result<bool, Self::Error>;
}

/// Writes Unicode text to a text sink.
pub trait TextWrite {
    /// Error returned by this text sink.
    type Error;

    /// The line ending appended by [`TextWrite::write_line`].
    fn line_ending(&self) -> LineEnding;

    /// Writes one Unicode scalar value.
    fn write_char(&mut self, ch: char) -> Result<(), Self::Error>;

    /// Writes a slice of Unicode scalar values in order.
    fn write_chars(&mut self, chars: &[char]) -> Result<(), Self::Error>;

    /// Writes a string slice.
    fn write_str(&mut self, text: &str) -> Result<(), Self::Error>;

    /// Writes a line followed by the configured line ending.
    fn write_line(&mut self, line: &str) -> Result<(), Self::Error>;

    /// Flushes buffered text to the underlying sink.
    fn flush(&mut self) -> Result<(), Self::Error>;
}

} // verus!

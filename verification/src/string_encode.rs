//! Encoding a string slice chunk by chunk, into an owned vector or into a
//! caller's buffer.
//!
//! An encode run starts the encoder, feeds it the text in chunks of at most
//! [`CHAR_CHUNK_CAPACITY`] characters, and finishes it. [`EncodeRun`] keeps
//! the output cursor and the input offset of the run, and decides what
//! each step's result means.
use std::collections::TryReserveError;

use vstd::prelude::*;

use crate::reserve::reserve_vec;
use crate::text_cursor::{cursor_at, read_chars_at};

verus! {

/// Number of characters fed to the encoder per chunk.
pub const CHAR_CHUNK_CAPACITY: usize = 256;

/// Why an encode run stopped, where the library decides it.
#[derive(Clone, Copy, Debug, PartialEq, Eq, Structural)]
pub enum StringEncodeError {
    /// An output length could not be computed or reserved.
    OutputLengthOverflow,
    /// The output index lies past the end of the output buffer.
    InvalidOutputIndex { output_len: usize, output_index: usize },
    /// The output buffer has no room for what the encoder must write.
    BufferTooSmall { required: usize, available: usize, output_index: usize },
}

/// Reads the next chunk of `text`, at most [`CHAR_CHUNK_CAPACITY`]
/// characters from the cursor, into `chunk` (replacing what it held) and
/// returns its length; zero means the text is exhausted.
pub fn fill_char_chunk(text: &str, position: &mut usize, index: &mut usize, chunk: &mut Vec<char>) -> (len:
    usize)
    requires
        cursor_at(text@, *old(position) as int, *old(index) as int),
    ensures
        len == if text@.len() - *old(index) <= CHAR_CHUNK_CAPACITY {
            text@.len() - *old(index)
        } else {
            CHAR_CHUNK_CAPACITY as int
        },
        final(chunk)@ == text@.subrange(*old(index) as int, *old(index) + len),
        *final(index) == *old(index) + len,
        cursor_at(text@, *final(position) as int, *final(index) as int),
{
    chunk.clear();
    let len = read_chars_at(text, position, index, chunk, CHAR_CHUNK_CAPACITY);
    assert(chunk@ =~= text@.subrange(*old(index) as int, *old(index) + len));
    len
}

/// An encoder's output bound: a bound that overflowed is an error.
pub fn map_capacity_bound(bound: Option<usize>) -> (result: Result<usize, StringEncodeError>)
    ensures
        result == match bound {
            Some(capacity) => Ok::<usize, StringEncodeError>(capacity),
            None => Err::<usize, StringEncodeError>(StringEncodeError::OutputLengthOverflow),
        },
{
    match bound {
        Some(capacity) => Ok(capacity),
        None => Err(StringEncodeError::OutputLengthOverflow),
    }
}

/// Checks that writing may start at `output_index` of a buffer of
/// `output_len` units.
pub fn check_output_index(output_len: usize, output_index: usize) -> (result: Result<
    (),
    StringEncodeError,
>)
    ensures
        result == if output_index <= output_len {
            Ok::<(), StringEncodeError>(())
        } else {
            Err::<(), StringEncodeError>(StringEncodeError::InvalidOutputIndex { output_len, output_index })
        },
{
    if output_index > output_len {
        Err(StringEncodeError::InvalidOutputIndex { output_len, output_index })
    } else {
        Ok(())
    }
}

/// Grows `output` so that `required` units fit from `output_index`,
/// padding with `filler`. An end past `usize::MAX` is an error, and so is
/// a failed reservation; `output` is then left as it was.
pub fn ensure_owned_capacity<T: Clone>(output: &mut Vec<T>, output_index: usize, required: usize, filler: T) -> (result:
    Result<(), StringEncodeError>)
    ensures
        output_index + required > usize::MAX ==> result == Err::<(), StringEncodeError>(
            StringEncodeError::OutputLengthOverflow,
        ),
        output_index + required <= old(output).len() ==> result is Ok && final(output)@ == old(
            output,
        )@,
        result is Ok && output_index + required > old(output).len() ==> final(output)@.len()
            == output_index + required && final(output)@.take(old(output).len() as int) == old(
            output,
        )@,
        result is Err ==> final(output)@ == old(output)@ && result == Err::<(), StringEncodeError>(
            StringEncodeError::OutputLengthOverflow,
        ),
{
    let required_len = match output_index.checked_add(required) {
        Some(len) => len,
        None => return Err(StringEncodeError::OutputLengthOverflow),
    };
    if required_len <= output.len() {
        return Ok(());
    }
    let additional = required_len - output.len();
    let reserved = reserve_vec(output, additional);
    grow_after_reserve(output, required_len, filler, reserved)
}

/// Grows `output` to `required_len` units, padding with `filler`, once
/// room for the missing units was asked for, `reserved` being the answer:
/// whatever the length asked for, the growth succeeds exactly when the room
/// was reserved, and when it was refused `output` is left as it was and the
/// error is an output length overflow.
pub fn grow_after_reserve<T: Clone>(
    output: &mut Vec<T>,
    required_len: usize,
    filler: T,
    reserved: Result<(), TryReserveError>,
) -> (result: Result<(), StringEncodeError>)
    requires
        required_len > old(output).len(),
    ensures
        result is Ok <==> reserved is Ok,
        reserved is Ok ==> final(output)@.len() == required_len && final(output)@.take(
            old(output).len() as int,
        ) == old(output)@,
        reserved is Err ==> final(output)@ == old(output)@ && result == Err::<(), StringEncodeError>(
            StringEncodeError::OutputLengthOverflow,
        ),
{
    match reserved {
        Ok(()) => {
            let ghost before = output@;
            output.resize(required_len, filler);
            assert(output@.take(before.len() as int) =~= output@.subrange(0, before.len() as int));
            Ok(())
        },
        Err(_) => Err(StringEncodeError::OutputLengthOverflow),
    }
}

/// Output cursor and input offset of one encode run.
#[derive(Clone, Copy, Debug)]
pub struct EncodeRun {
    /// Where the run started writing.
    pub output_index: usize,
    /// Where the next unit is written.
    pub output_cursor: usize,
    /// Number of input characters the encoder consumed.
    pub input_offset: usize,
}

impl EncodeRun {
    /// A run writing from `output_index`.
    pub fn new(output_index: usize) -> (run: Self)
        ensures
            run.output_index == output_index,
            run.output_cursor == output_index,
            run.input_offset == 0,
    {
        EncodeRun { output_index, output_cursor: output_index, input_offset: 0 }
    }

    /// Records that the encoder wrote `written` units; the cursor moves
    /// past them.
    pub fn advance_output(&mut self, written: usize)
        requires
            old(self).output_cursor + written <= usize::MAX,
        ensures
            final(self).output_cursor == old(self).output_cursor + written,
            final(self).output_index == old(self).output_index,
            final(self).input_offset == old(self).input_offset,
    {
        self.output_cursor = self.output_cursor + written;
    }

    /// Records that the encoder consumed `read` characters of a chunk.
    pub fn advance_input(&mut self, read: usize)
        requires
            old(self).input_offset + read <= usize::MAX,
        ensures
            final(self).input_offset == old(self).input_offset + read,
            final(self).output_index == old(self).output_index,
            final(self).output_cursor == old(self).output_cursor,
    {
        self.input_offset = self.input_offset + read;
    }

    /// Records a chunk encoded into a caller's buffer of `output_len`
    /// units that wrote `written` units and read `read` characters: when
    /// the encoder ran out of room, the buffer is too small, reported at
    /// the cursor with the units still available.
    pub fn after_chunk_into(
        &mut self,
        output_len: usize,
        written: usize,
        read: usize,
        need_output: Option<usize>,
    ) -> (result: Result<(), StringEncodeError>)
        requires
            old(self).output_cursor + written <= usize::MAX,
            old(self).input_offset + read <= usize::MAX,
        ensures
            final(self).output_cursor == old(self).output_cursor + written,
            final(self).output_index == old(self).output_index,
            result == match need_output {
                Some(required) => Err::<(), StringEncodeError>(
                    StringEncodeError::BufferTooSmall {
                        required,
                        available: if output_len >= final(self).output_cursor {
                            (output_len - final(self).output_cursor) as usize
                        } else {
                            0
                        },
                        output_index: final(self).output_cursor,
                    },
                ),
                None => Ok::<(), StringEncodeError>(()),
            },
            result is Ok ==> final(self).input_offset == old(self).input_offset + read,
    {
        self.advance_output(written);
        if let Some(required) = need_output {
            let available = if output_len >= self.output_cursor {
                output_len - self.output_cursor
            } else {
                0
            };
            return Err(
                StringEncodeError::BufferTooSmall { required, available, output_index: self.output_cursor },
            );
        }
        self.advance_input(read);
        Ok(())
    }

    /// Index reported by an error of a chunk's encoding: offset by the
    /// characters consumed before the chunk (saturating), unless the error
    /// keeps its own index.
    pub fn chunk_error_index(&self, keeps_index: bool, index: usize) -> (reported: usize)
        ensures
            reported == if keeps_index {
                index as int
            } else if self.input_offset + index <= usize::MAX {
                self.input_offset + index
            } else {
                usize::MAX as int
            },
    {
        if keeps_index {
            index
        } else {
            self.input_offset.saturating_add(index)
        }
    }

    /// Number of units the run wrote.
    pub fn written(&self) -> (count: usize)
        requires
            self.output_index <= self.output_cursor,
        ensures
            count == self.output_cursor - self.output_index,
    {
        self.output_cursor - self.output_index
    }
}

} // verus!

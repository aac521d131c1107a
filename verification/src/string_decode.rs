//! Decoding a whole input slice into a `String`, one bounded chunk of
//! characters at a time.
//!
//! A decode run starts the decoder, decodes the input in chunks of at most
//! the chunk capacity, and finishes the decoder, appending everything it
//! writes to the output. [`DecodeRun`] holds the run's bookkeeping: where
//! the input cursor stands, how many characters were appended, and the text
//! the output held before, which an aborted run puts back.
use vstd::prelude::*;

use std::collections::TryReserveError;

use crate::decoded_buffer::DecodeStatus;
use crate::reserve::{reserve_string, reserve_vec};
use crate::string_output::required_string_capacity;
use crate::string_text_writer::push_chars;
use crate::utf8_text::{string_len, truncate_to_prefix, utf8_len};

verus! {

/// Number of characters decoded per chunk, unless the decoder needs more.
pub const CHAR_CHUNK_CAPACITY: usize = 256;

/// Why a decode run stopped, where the library decides it.
#[derive(Clone, Copy, Debug, PartialEq, Eq, Structural)]
pub enum StringDecodeError {
    /// An output length could not be computed or reserved.
    OutputLengthOverflow,
    /// The input index lies past the end of the input.
    InvalidInputIndex { input_len: usize, input_index: usize },
    /// The input ends inside an encoded character.
    IncompleteSequence { required: usize, available: usize, input_index: usize },
}

/// Checks that decoding may start at `input_index` of an input of
/// `input_len` units.
pub fn check_input_index(input_len: usize, input_index: usize) -> (result: Result<(), StringDecodeError>)
    ensures
        result == if input_index <= input_len {
            Ok::<(), StringDecodeError>(())
        } else {
            Err::<(), StringDecodeError>(StringDecodeError::InvalidInputIndex { input_len, input_index })
        },
{
    if input_index > input_len {
        Err(StringDecodeError::InvalidInputIndex { input_len, input_index })
    } else {
        Ok(())
    }
}

/// Chunk capacity of a run, from the decoder's reset bound: at least
/// [`CHAR_CHUNK_CAPACITY`]; a bound that overflowed is an error.
pub fn initial_char_capacity(reset_bound: Option<usize>) -> (result: Result<usize, StringDecodeError>)
    ensures
        result == match reset_bound {
            None => Err::<usize, StringDecodeError>(StringDecodeError::OutputLengthOverflow),
            Some(bound) => Ok::<usize, StringDecodeError>(
                if bound >= CHAR_CHUNK_CAPACITY {
                    bound
                } else {
                    CHAR_CHUNK_CAPACITY
                },
            ),
        },
{
    match reset_bound {
        None => Err(StringDecodeError::OutputLengthOverflow),
        Some(bound) => Ok(
            if bound >= CHAR_CHUNK_CAPACITY {
                bound
            } else {
                CHAR_CHUNK_CAPACITY
            },
        ),
    }
}

/// Grows `chars` to hold at least `required` characters, padding with
/// `'\0'`. Only a growth can fail, when the room cannot be reserved; the
/// characters are then left as they were.
pub fn ensure_char_capacity(chars: &mut Vec<char>, required: usize) -> (result: Result<
    (),
    StringDecodeError,
>)
    ensures
        required <= old(chars).len() ==> result is Ok && final(chars)@ == old(chars)@,
        result is Ok && required > old(chars).len() ==> final(chars)@.len() == required
            && final(chars)@.take(old(chars).len() as int) == old(chars)@,
        result is Err ==> required > old(chars).len() && final(chars)@ == old(chars)@ && result
            == Err::<(), StringDecodeError>(StringDecodeError::OutputLengthOverflow),
{
    if required <= chars.len() {
        return Ok(());
    }
    let additional = required - chars.len();
    if reserve_vec(chars, additional).is_err() {
        return Err(StringDecodeError::OutputLengthOverflow);
    }
    let ghost before = chars@;
    chars.resize(required, '\0');
    assert(chars@.take(before.len() as int) =~= chars@.subrange(0, before.len() as int));
    Ok(())
}

/// Appends `chars` to `output` after reserving room for their UTF-8
/// bytes; when the room cannot be reserved `output` is left as it was.
/// Appending nothing reserves nothing and always succeeds.
pub fn append_chars(output: &mut String, chars: &[char]) -> (result: Result<(), StringDecodeError>)
    ensures
        chars.len() == 0 ==> result is Ok,
        result is Ok ==> final(output)@ == old(output)@ + chars@,
        result is Err ==> final(output)@ == old(output)@ && result == Err::<(), StringDecodeError>(
            StringDecodeError::OutputLengthOverflow,
        ),
{
    if chars.len() == 0 {
        assert(old(output)@ + chars@ =~= old(output)@);
        return Ok(());
    }
    let capacity = required_string_capacity(chars);
    let reserved = reserve_string(output, capacity);
    append_after_reserve(output, chars, reserved)
}

/// Appends `chars` to `output` once room for their UTF-8 bytes was asked
/// for, `reserved` being the answer: whatever the characters, the append
/// succeeds and appends them exactly when the room was reserved, and when
/// it was refused `output` is left as it was and the error is an output
/// length overflow.
pub fn append_after_reserve(output: &mut String, chars: &[char], reserved: Result<(), TryReserveError>) -> (result:
    Result<(), StringDecodeError>)
    ensures
        result is Ok <==> reserved is Ok,
        reserved is Ok ==> final(output)@ == old(output)@ + chars@,
        reserved is Err ==> final(output)@ == old(output)@ && result == Err::<(), StringDecodeError>(
            StringDecodeError::OutputLengthOverflow,
        ),
{
    match reserved {
        Ok(()) => {
            push_chars(output, chars);
            Ok(())
        },
        Err(_) => Err(StringDecodeError::OutputLengthOverflow),
    }
}

/// Outcome of a decoding step when no reservation fails: an overflowing
/// character count is an error; then the run is complete when all input
/// was consumed, goes on when output room ran out, and fails when the
/// input ends inside a character.
pub open spec fn transcode_outcome(count: int, cursor: int, input_len: int, status: DecodeStatus) -> Result<
    bool,
    StringDecodeError,
> {
    if count > usize::MAX {
        Err(StringDecodeError::OutputLengthOverflow)
    } else {
        match status {
            DecodeStatus::Complete => Ok(false),
            DecodeStatus::NeedInput { required } => Err(
                StringDecodeError::IncompleteSequence {
                    required,
                    available: (input_len - cursor) as usize,
                    input_index: cursor as usize,
                },
            ),
            DecodeStatus::NeedOutput { .. } => Ok(true),
        }
    }
}

/// Result of a decoding step from whether the room for its output
/// characters was reserved and whether the room for a larger chunk, where
/// one was needed, was reserved: the step's [`transcode_outcome`] when both
/// were, an output length overflow when either was not.
pub open spec fn step_result(
    output_reserved: bool,
    chunk_reserved: bool,
    outcome: Result<bool, StringDecodeError>,
) -> Result<bool, StringDecodeError> {
    if output_reserved && chunk_reserved {
        outcome
    } else {
        Err(StringDecodeError::OutputLengthOverflow)
    }
}

/// Bookkeeping of one decode run over an input of `input_len` units.
pub struct DecodeRun {
    input_len: usize,
    cursor: usize,
    output_chars: usize,
    base_len: usize,
    base: Ghost<Seq<char>>,
    appended: Ghost<Seq<char>>,
}

impl DecodeRun {
    /// Number of input units.
    pub closed spec fn input_len_spec(&self) -> usize {
        self.input_len
    }

    /// Index of the next input unit to decode.
    pub closed spec fn cursor_spec(&self) -> usize {
        self.cursor
    }

    /// Number of characters the run appended.
    pub closed spec fn output_chars_spec(&self) -> usize {
        self.output_chars
    }

    /// Text the output held before the run.
    pub closed spec fn base(&self) -> Seq<char> {
        self.base@
    }

    /// The text the run appended so far, in order.
    pub closed spec fn appended(&self) -> Seq<char> {
        self.appended@
    }

    /// Whether `text` is the text the output held before the run followed
    /// by what the run appended.
    pub open spec fn tracks(&self, text: Seq<char>) -> bool {
        text == self.base() + self.appended()
    }

    /// Whether `text` still starts with the text the output held before the
    /// run.
    pub open spec fn keeps_base(&self, text: Seq<char>) -> bool {
        text.len() >= self.base().len() && text.take(self.base().len() as int) == self.base()
    }

    /// Internal consistency, kept by every operation: the recorded byte
    /// length is that of the base text, and the cursor lies within the
    /// input.
    #[verifier::type_invariant]
    pub closed spec fn wf(&self) -> bool {
        &&& self.base_len == utf8_len(self.base@)
        &&& self.cursor <= self.input_len
    }

    /// Starts a run over an input of `input_len` units at `input_index`,
    /// appending to `output`; an index past the end is refused.
    pub fn begin(output: &String, input_len: usize, input_index: usize) -> (result: Result<
        Self,
        StringDecodeError,
    >)
        ensures
            input_index > input_len ==> result == Err::<Self, StringDecodeError>(
                StringDecodeError::InvalidInputIndex { input_len, input_index },
            ),
            input_index <= input_len ==> (result matches Ok(run) && run.input_len_spec()
                == input_len && run.cursor_spec() == input_index && run.output_chars_spec() == 0
                && run.base() == output@ && run.keeps_base(output@) && run.appended()
                == Seq::<char>::empty() && run.tracks(output@)),
    {
        check_input_index(input_len, input_index)?;
        let base_len = string_len(output);
        assert(output@.take(output@.len() as int) =~= output@);
        assert(output@ + Seq::<char>::empty() =~= output@);
        Ok(
            DecodeRun {
                input_len,
                cursor: input_index,
                output_chars: 0,
                base_len,
                base: Ghost(output@),
                appended: Ghost(Seq::empty()),
            },
        )
    }

    /// Index of the next input unit to decode.
    pub fn cursor(&self) -> (cursor: usize)
        ensures
            cursor == self.cursor_spec(),
    {
        proof {
            use_type_invariant(self);
        }
        self.cursor
    }

    /// Number of characters the run appended.
    pub fn output_chars(&self) -> (count: usize)
        ensures
            count == self.output_chars_spec(),
    {
        proof {
            use_type_invariant(self);
        }
        self.output_chars
    }

    /// Appends the characters the decoder's reset wrote; they are the first
    /// characters of the run.
    pub fn after_reset(&mut self, output: &mut String, decoded: &[char]) -> (result: Result<
        (),
        StringDecodeError,
    >)
        ensures
            old(self).keeps_base(old(output)@) ==> final(self).keeps_base(final(output)@),
            old(self).tracks(old(output)@) ==> final(self).tracks(final(output)@),
            decoded.len() == 0 ==> result is Ok,
            result is Ok ==> final(output)@ == old(output)@ + decoded@ && final(self).output_chars_spec()
                == decoded.len() && final(self).appended() == old(self).appended() + decoded@,
            result is Err ==> final(self).appended() == old(self).appended(),
            result is Err ==> final(output)@ == old(output)@ && result == Err::<(), StringDecodeError>(
                StringDecodeError::OutputLengthOverflow,
            ) && final(self).output_chars_spec() == old(self).output_chars_spec(),
            final(self).cursor_spec() == old(self).cursor_spec(),
            final(self).input_len_spec() == old(self).input_len_spec(),
            final(self).base() == old(self).base(),
    {
        proof {
            use_type_invariant(&*self);
        }
        append_chars(output, decoded)?;
        proof {
            if self.keeps_base(old(output)@) {
                lemma_appending_keeps_base(*self, old(output)@, decoded@);
            }
        }
        let ghost before = self.appended@;
        self.output_chars = decoded.len();
        self.appended = Ghost(before + decoded@);
        proof {
            assert(self.base() + (before + decoded@) =~= (self.base() + before) + decoded@);
        }
        Ok(())
    }

    /// Records a decoding step that read `read` units and wrote the first
    /// `written` characters of `chars` with `status`: the characters are
    /// appended and counted, and the cursor moves past what was read. The
    /// result is [`step_result`]: [`transcode_outcome`] unless a reservation
    /// failed, which is an output length overflow. Only two reservations
    /// can fail: the room for the written characters (then `output` is left
    /// as it was), and the growth of `chars` (then `chars` is left as it
    /// was); a step that wrote nothing and needs no growth reserves nothing.
    /// When output room ran out and the step made no progress, `chars` grows
    /// to at least the required count (and [`CHAR_CHUNK_CAPACITY`]).
    pub fn after_transcode(
        &mut self,
        output: &mut String,
        chars: &mut Vec<char>,
        written: usize,
        read: usize,
        status: DecodeStatus,
    ) -> (result: Result<bool, StringDecodeError>)
        requires
            written <= old(chars).len(),
            read <= old(self).input_len_spec() - old(self).cursor_spec(),
        ensures
            old(self).keeps_base(old(output)@) ==> final(self).keeps_base(final(output)@),
            ({
                let appended = old(chars)@.take(written as int);
                let count = old(self).output_chars_spec() + written;
                let cursor = old(self).cursor_spec() + read;
                let grows = status is NeedOutput && read == 0 && written == 0;
                let wanted = match status {
                    DecodeStatus::NeedOutput { required } => if required >= CHAR_CHUNK_CAPACITY {
                        required
                    } else {
                        CHAR_CHUNK_CAPACITY
                    },
                    _ => 0,
                };
                &&& final(self).input_len_spec() == old(self).input_len_spec()
                &&& final(self).base() == old(self).base()
                &&& (old(self).tracks(old(output)@) ==> final(self).tracks(final(output)@))
                &&& final(self).appended() == if final(output)@ == old(output)@ + appended {
                    old(self).appended() + appended
                } else {
                    old(self).appended()
                }
                &&& result == step_result(
                    final(output)@ == old(output)@ + appended,
                    !(grows && wanted > old(chars).len()) || final(chars)@ != old(chars)@,
                    transcode_outcome(count, cursor, old(self).input_len_spec() as int, status),
                )
                &&& (written == 0 && !(grows && wanted > old(chars).len()) ==> result
                    == transcode_outcome(count, cursor, old(self).input_len_spec() as int, status))
                &&& (final(output)@ == old(output)@ + appended || (result == Err::<
                    bool,
                    StringDecodeError,
                >(StringDecodeError::OutputLengthOverflow) && final(output)@ == old(output)@))
                &&& (result is Ok ==> {
                    &&& final(output)@ == old(output)@ + appended
                    &&& final(self).output_chars_spec() == count
                    &&& final(self).cursor_spec() == cursor
                })
                &&& (grows && result is Ok ==> final(chars)@.len() >= wanted && final(chars)@.len()
                    >= old(chars)@.len())
                &&& (!(grows && result is Ok) ==> final(chars)@ == old(chars)@)
            }),
    {
        proof {
            use_type_invariant(&*self);
        }
        let ghost old_chars = chars@;
        let (head, _) = chars.as_slice().split_at(written);
        assert(head@ =~= old_chars.take(written as int));
        append_chars(output, head)?;
        proof {
            if old(self).keeps_base(old(output)@) {
                lemma_appending_keeps_base(*old(self), old(output)@, head@);
            }
        }
        let ghost before = self.appended@;
        self.appended = Ghost(before + head@);
        proof {
            assert(self.base() + (before + head@) =~= (self.base() + before) + head@);
        }
        let count = match self.output_chars.checked_add(written) {
            Some(count) => count,
            None => return Err(StringDecodeError::OutputLengthOverflow),
        };
        self.output_chars = count;
        self.cursor = self.cursor + read;
        match status {
            DecodeStatus::Complete => Ok(false),
            DecodeStatus::NeedInput { required } => Err(
                StringDecodeError::IncompleteSequence {
                    required,
                    available: self.input_len - self.cursor,
                    input_index: self.cursor,
                },
            ),
            DecodeStatus::NeedOutput { required } => {
                if read == 0 && written == 0 {
                    let wanted = if required >= CHAR_CHUNK_CAPACITY {
                        required
                    } else {
                        CHAR_CHUNK_CAPACITY
                    };
                    ensure_char_capacity(chars, wanted)?;
                }
                Ok(true)
            },
        }
    }

    /// Grows `chars` for the decoder's finish bound; a bound that
    /// overflowed is an error, and so is a failed reservation.
    pub fn finish_capacity(&self, chars: &mut Vec<char>, finish_bound: Option<usize>) -> (result:
        Result<(), StringDecodeError>)
        ensures
            result is Err ==> final(chars)@ == old(chars)@ && result == Err::<(), StringDecodeError>(
                StringDecodeError::OutputLengthOverflow,
            ),
            finish_bound is None ==> result is Err,
            finish_bound is Some && result is Ok ==> final(chars)@.len() >= finish_bound->0
                && final(chars)@.len() >= old(chars)@.len(),
            finish_bound is Some && finish_bound->0 <= old(chars).len() ==> result is Ok
                && final(chars)@ == old(chars)@,
    {
        proof {
            use_type_invariant(self);
        }
        match finish_bound {
            None => Err(StringDecodeError::OutputLengthOverflow),
            Some(bound) => ensure_char_capacity(chars, bound),
        }
    }

    /// Appends the characters the decoder's finish wrote.
    pub fn after_finish(&mut self, output: &mut String, decoded: &[char]) -> (result: Result<
        (),
        StringDecodeError,
    >)
        ensures
            old(self).keeps_base(old(output)@) ==> final(self).keeps_base(final(output)@),
            old(self).tracks(old(output)@) ==> final(self).tracks(final(output)@),
            decoded.len() == 0 ==> result is Ok,
            result is Ok ==> final(output)@ == old(output)@ + decoded@ && final(self).appended()
                == old(self).appended() + decoded@,
            result is Err ==> final(self).appended() == old(self).appended(),
            result is Err ==> final(output)@ == old(output)@ && result == Err::<(), StringDecodeError>(
                StringDecodeError::OutputLengthOverflow,
            ),
            final(self).cursor_spec() == old(self).cursor_spec(),
            final(self).input_len_spec() == old(self).input_len_spec(),
            final(self).output_chars_spec() == old(self).output_chars_spec(),
            final(self).base() == old(self).base(),
    {
        proof {
            use_type_invariant(&*self);
        }
        let result = append_chars(output, decoded);
        proof {
            if self.keeps_base(old(output)@) && result is Ok {
                lemma_appending_keeps_base(*self, old(output)@, decoded@);
            }
        }
        if result.is_ok() {
            let ghost before = self.appended@;
            self.appended = Ghost(before + decoded@);
            proof {
                assert(self.base() + (before + decoded@) =~= (self.base() + before) + decoded@);
            }
        }
        result
    }

    /// Index reported by an error of the decoder's finish: offset by the
    /// characters the run appended (saturating), except for an output
    /// length overflow, whose index is kept.
    pub fn finish_error_index(&self, is_overflow: bool, index: usize) -> (reported: usize)
        ensures
            reported == if is_overflow {
                index as int
            } else if self.output_chars_spec() + index <= usize::MAX {
                self.output_chars_spec() + index
            } else {
                usize::MAX as int
            },
    {
        proof {
            use_type_invariant(self);
        }
        if is_overflow {
            index
        } else {
            self.output_chars.saturating_add(index)
        }
    }

    /// Puts back the text `output` held before the run, which the run only
    /// appended to.
    pub fn abort(&self, output: &mut String)
        requires
            self.keeps_base(old(output)@),
        ensures
            final(output)@ == self.base(),
    {
        proof {
            use_type_invariant(self);
        }
        truncate_to_prefix(output, self.base_len, Ghost(self.base().len() as int));
    }
}

/// Appending keeps the text a run started from, so an aborted run, whose
/// steps only ever append, gives the output back as it was.
pub proof fn lemma_appending_keeps_base(run: DecodeRun, text: Seq<char>, added: Seq<char>)
    requires
        run.keeps_base(text),
    ensures
        run.keeps_base(text + added),
{
    assert((text + added).take(run.base().len() as int) =~= text.take(run.base().len() as int));
}


/// A decode run only appends: every step keeps the output equal to the
/// text the run began from followed by the text the run appended, each step
/// adding exactly the characters it wrote. So the output of a completed run
/// is the old text followed by everything decoded, and, since it still
/// starts with the old text, [`DecodeRun::abort`] gives the old text back
/// after a failure.
pub proof fn lemma_run_output(run: DecodeRun, text: Seq<char>)
    requires
        run.tracks(text),
    ensures
        run.keeps_base(text),
        text.skip(run.base().len() as int) == run.appended(),
{
    assert(text.take(run.base().len() as int) =~= run.base());
    assert(text.skip(run.base().len() as int) =~= run.appended());
}

/// A decoding step whose reservations were granted reports exactly what
/// the decoder's status says, whatever the size of the chunk: it reports an
/// output length overflow only when the character count passes
/// `usize::MAX`; otherwise a complete status ends the run successfully,
/// a full output asks for another step, and a truncated input is an
/// incomplete sequence at the cursor.
pub proof fn lemma_granted_step_follows_decoder(count: int, cursor: int, input_len: int, status: DecodeStatus)
    ensures
        step_result(true, true, transcode_outcome(count, cursor, input_len, status)) == transcode_outcome(
            count,
            cursor,
            input_len,
            status,
        ),
        transcode_outcome(count, cursor, input_len, status) == Err::<bool, StringDecodeError>(
            StringDecodeError::OutputLengthOverflow,
        ) <==> count > usize::MAX,
        count <= usize::MAX && status is Complete ==> transcode_outcome(count, cursor, input_len, status)
            == Ok::<bool, StringDecodeError>(false),
        count <= usize::MAX && status is NeedOutput ==> transcode_outcome(count, cursor, input_len, status)
            == Ok::<bool, StringDecodeError>(true),
        count <= usize::MAX && status is NeedInput ==> transcode_outcome(count, cursor, input_len, status)
            is Err,
        !(step_result(false, true, transcode_outcome(count, cursor, input_len, status)) is Ok),
        !(step_result(true, false, transcode_outcome(count, cursor, input_len, status)) is Ok),
{
}

} // verus!

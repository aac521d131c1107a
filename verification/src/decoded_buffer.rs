//! The decoded-character window of a buffered text reader and the decisions
//! that drive its streaming decoder.
//!
//! A buffered reader holds a window of characters that the decoder has
//! produced but the caller has not read yet, and at most one character that
//! was read and handed back. When the window runs dry, the reader asks
//! [`DecodedBuffer::fill_action`] what to do next, performs that step with
//! its byte input and decoder, and reports the outcome back; each report
//! answers with the next step, until a character is ready or the text ends.
use vstd::prelude::*;

use crate::line_ending_set::LineEndingSet;
use crate::text_cursor::with_pending;
use crate::utf8_text::string_push;

verus! {

/// Smallest decoded-character capacity a buffered reader uses, enough for
/// the built-in Unicode byte codecs to keep an incomplete tail.
pub const MIN_CHAR_CAPACITY: usize = 4;

/// Status a decoding step reports, with the counts its `NonZeroUsize`
/// fields carry.
#[derive(Clone, Copy, Debug, PartialEq, Eq, Structural)]
pub enum DecodeStatus {
    /// All supplied input was consumed.
    Complete,
    /// More input units are needed before the next character.
    NeedInput { required: usize },
    /// More output capacity is needed before decoding can go on.
    NeedOutput { required: usize },
}

/// The next step a buffered reader takes to make a character available.
#[derive(Clone, Copy, Debug, PartialEq, Eq, Structural)]
pub enum FillAction {
    /// A decoded character is buffered.
    Ready,
    /// The text has ended.
    End,
    /// Start the decoder: query its reset bound, pass it to
    /// [`DecodedBuffer::reserve`], run the reset and report the characters
    /// it wrote to [`DecodedBuffer::on_started`].
    Start,
    /// Decode buffered input into at most `capacity` characters and report
    /// to [`DecodedBuffer::on_transcoded`], or to
    /// [`DecodedBuffer::at_input_end`] when the input has no more bytes.
    Transcode { capacity: usize },
    /// Read until `required` input bytes are buffered and report whether
    /// that succeeded to [`DecodedBuffer::after_refill`].
    Refill { required: usize },
    /// Decode the input tail left at end of input into at most `capacity`
    /// characters and report to [`DecodedBuffer::on_eof_transcoded`].
    TranscodeEof { capacity: usize },
    /// Finish the decoder: query its finish bound, pass it to
    /// [`DecodedBuffer::finish_count`], run the finish and report to
    /// [`DecodedBuffer::on_finished`].
    Finish,
}

/// The decoder asked for more input after the input had ended.
#[derive(Clone, Copy, Debug, PartialEq, Eq, Structural)]
pub enum FillError {
    /// A `NeedInput` status was reported for the end-of-input tail.
    InputAfterEnd,
}

/// Copies a slice of characters into a new vector.
pub fn copy_chars(chars: &[char]) -> (copy: Vec<char>)
    ensures
        copy@ == chars@,
{
    let mut copy: Vec<char> = Vec::new();
    let mut i: usize = 0;
    while i < chars.len()
        invariant
            i <= chars.len(),
            copy@ == chars@.take(i as int),
        decreases chars.len() - i,
    {
        copy.push(chars[i]);
        i += 1;
        assert(copy@ =~= chars@.take(i as int));
    }
    assert(chars@.take(chars.len() as int) =~= chars@);
    copy
}

/// Capacity after a decoding step that made no progress asked for more
/// output room: doubled, and at least one more, without overflow.
pub open spec fn grown_capacity(capacity: usize) -> usize {
    let doubled = if capacity * 2 <= usize::MAX {
        (capacity * 2) as usize
    } else {
        usize::MAX
    };
    let one_more = if capacity < usize::MAX {
        (capacity + 1) as usize
    } else {
        usize::MAX
    };
    if doubled >= one_more {
        doubled
    } else {
        one_more
    }
}

/// How far the window has been read: the read position, and the
/// characters read from the window so far.
#[derive(Clone, Copy)]
struct ReadMark {
    position: usize,
    consumed: Ghost<Seq<char>>,
}

/// Decoded characters of a buffered reader that were not read yet, with the
/// state of the decoder's lifecycle.
pub struct DecodedBuffer {
    chars: Vec<char>,
    mark: ReadMark,
    capacity: usize,
    line_endings: LineEndingSet,
    pending: Option<char>,
    started: bool,
    finished: bool,
    received: Ghost<Seq<char>>,
}

impl DecodedBuffer {
    /// Characters decoded into the window and not read yet.
    pub closed spec fn buffered(&self) -> Seq<char> {
        self.chars@.skip(self.mark.position as int)
    }

    /// The character handed back to be read first, if any.
    pub closed spec fn pending(&self) -> Option<char> {
        self.pending
    }

    /// Everything decoded and not read yet, in reading order.
    pub open spec fn unread(&self) -> Seq<char> {
        with_pending(self.pending(), self.buffered())
    }

    /// Number of characters a decoding step may write.
    pub closed spec fn capacity_spec(&self) -> usize {
        self.capacity
    }

    /// Whether the decoder has been started.
    pub closed spec fn started(&self) -> bool {
        self.started
    }

    /// Whether the decoder has been finished.
    pub closed spec fn finished(&self) -> bool {
        self.finished
    }

    /// Line endings recognized by the reader.
    pub closed spec fn endings(&self) -> LineEndingSet {
        self.line_endings
    }

    /// Every character the decoder wrote, in the order written.
    pub closed spec fn received(&self) -> Seq<char> {
        self.received@
    }

    /// The characters read from the window, in the order read.
    pub closed spec fn consumed(&self) -> Seq<char> {
        self.mark.consumed@
    }

    /// Internal consistency, kept by every operation: the read position
    /// lies within the window, and what the decoder wrote is what was read
    /// followed by the window.
    #[verifier::type_invariant]
    pub closed spec fn wf(&self) -> bool {
        &&& self.mark.position <= self.chars.len()
        &&& self.received@ == self.mark.consumed@ + self.chars@.skip(self.mark.position as int)
    }

    /// Creates an empty window for a decoder that has not started, asking
    /// for `capacity` characters per decoding step (at least
    /// [`MIN_CHAR_CAPACITY`]); all line endings are recognized.
    pub fn new(capacity: usize) -> (buffer: Self)
        ensures
            buffer.buffered() == Seq::<char>::empty(),
            buffer.pending() == None::<char>,
            buffer.capacity_spec() == if capacity >= MIN_CHAR_CAPACITY {
                capacity
            } else {
                MIN_CHAR_CAPACITY
            },
            !buffer.started(),
            !buffer.finished(),
            buffer.endings() == LineEndingSet::all_spec(),
            buffer.received() == Seq::<char>::empty(),
            buffer.consumed() == Seq::<char>::empty(),
    {
        let capacity = if capacity >= MIN_CHAR_CAPACITY {
            capacity
        } else {
            MIN_CHAR_CAPACITY
        };
        let buffer = DecodedBuffer {
            chars: Vec::new(),
            mark: ReadMark { position: 0, consumed: Ghost(Seq::empty()) },
            capacity,
            line_endings: LineEndingSet::all(),
            pending: None,
            started: false,
            finished: false,
            received: Ghost(Seq::empty()),
        };
        assert(buffer.chars@.skip(0) =~= Seq::<char>::empty());
        buffer
    }

    /// Returns this buffer recognizing `line_endings`.
    pub fn with_line_endings(self, line_endings: LineEndingSet) -> (buffer: Self)
        ensures
            buffer.endings() == line_endings,
            buffer.buffered() == self.buffered(),
            buffer.pending() == self.pending(),
            buffer.capacity_spec() == self.capacity_spec(),
            buffer.started() == self.started(),
            buffer.finished() == self.finished(),
            buffer.received() == self.received(),
            buffer.consumed() == self.consumed(),
    {
        proof {
            use_type_invariant(&self);
        }
        DecodedBuffer { line_endings, ..self }
    }

    /// Line endings recognized by the reader.
    pub fn line_endings(&self) -> (line_endings: LineEndingSet)
        ensures
            line_endings == self.endings(),
    {
        proof {
            use_type_invariant(self);
        }
        self.line_endings
    }

    /// Number of characters a decoding step may write.
    pub fn capacity(&self) -> (capacity: usize)
        ensures
            capacity == self.capacity_spec(),
    {
        proof {
            use_type_invariant(self);
        }
        self.capacity
    }

    /// Whether a decoded character can be read without decoding more.
    pub fn has_buffered(&self) -> (available: bool)
        ensures
            available == (self.buffered().len() > 0),
    {
        proof {
            use_type_invariant(self);
        }
        self.mark.position < self.chars.len()
    }

    /// The next step towards a readable character: nothing while characters
    /// are buffered, the end once the decoder has finished and everything it
    /// wrote was read, a start before anything else, and otherwise a
    /// decoding step.
    pub fn fill_action(&self) -> (action: FillAction)
        ensures
            action == if self.buffered().len() > 0 {
                FillAction::Ready
            } else if self.finished() {
                FillAction::End
            } else if !self.started() {
                FillAction::Start
            } else {
                FillAction::Transcode { capacity: self.capacity_spec() }
            },
    {
        proof {
            use_type_invariant(self);
        }
        if self.mark.position < self.chars.len() {
            FillAction::Ready
        } else if self.finished {
            FillAction::End
        } else if !self.started {
            FillAction::Start
        } else {
            FillAction::Transcode { capacity: self.capacity }
        }
    }

    /// Raises the capacity to `required` characters when it is lower.
    pub fn reserve(&mut self, required: usize)
        ensures
            final(self).capacity_spec() == if old(self).capacity_spec() >= required {
                old(self).capacity_spec()
            } else {
                required
            },
            final(self).buffered() == old(self).buffered(),
            final(self).pending() == old(self).pending(),
            final(self).started() == old(self).started(),
            final(self).finished() == old(self).finished(),
            final(self).endings() == old(self).endings(),
            final(self).received() == old(self).received(),
            final(self).consumed() == old(self).consumed(),
    {
        proof {
            use_type_invariant(&*self);
        }
        if self.capacity < required {
            self.capacity = required;
        }
    }

    /// Replaces the window by `decoded`, read from its start.
    fn set_window(&mut self, decoded: &[char])
        requires
            old(self).buffered().len() == 0,
        ensures
            final(self).received@ == old(self).received@ + decoded@,
            final(self).mark.consumed@ == old(self).mark.consumed@,
            final(self).chars@ == decoded@,
            final(self).mark.position == 0,
            final(self).capacity == old(self).capacity,
            final(self).pending == old(self).pending,
            final(self).started == old(self).started,
            final(self).finished == old(self).finished,
            final(self).line_endings == old(self).line_endings,
    {
        proof {
            use_type_invariant(&*self);
        }
        let ghost received = self.received@ + decoded@;
        let chars = copy_chars(decoded);
        proof {
            assert(chars@.skip(0) =~= decoded@);
            assert(old(self).chars@.skip(old(self).mark.position as int) =~= Seq::<char>::empty());
            assert(received =~= self.mark.consumed@ + chars@.skip(0));
        }
        *self = DecodedBuffer {
            chars,
            mark: ReadMark { position: 0, consumed: self.mark.consumed },
            capacity: self.capacity,
            line_endings: self.line_endings,
            pending: self.pending,
            started: self.started,
            finished: self.finished,
            received: Ghost(received),
        };
        assert(self.chars@.skip(0) =~= decoded@);
        assert(old(self).chars@.skip(old(self).mark.position as int) =~= Seq::<char>::empty());
        assert(self.received@ =~= self.mark.consumed@ + self.chars@.skip(0));
    }

    /// Records that the decoder started and wrote `decoded`, which is
    /// delivered before any decoded input.
    pub fn on_started(&mut self, decoded: &[char])
        requires
            old(self).buffered().len() == 0,
        ensures
            final(self).started(),
            final(self).buffered() == decoded@,
            final(self).pending() == old(self).pending(),
            final(self).capacity_spec() == old(self).capacity_spec(),
            final(self).finished() == old(self).finished(),
            final(self).endings() == old(self).endings(),
            final(self).received() == old(self).received() + decoded@,
            final(self).consumed() == old(self).consumed(),
    {
        proof {
            use_type_invariant(&*self);
        }
        self.set_window(decoded);
        proof {
            use_type_invariant(&*self);
        }
        self.started = true;
        assert(self.chars@.skip(0) =~= decoded@);
    }

    /// Records a decoding step that wrote `decoded` and reported `status`,
    /// and returns the next step: reading when characters were written, a
    /// larger step when output room ran out (doubled, and at least one
    /// more), a refill when input ran out, and another step otherwise.
    pub fn on_transcoded(&mut self, decoded: &[char], status: DecodeStatus) -> (action: FillAction)
        requires
            old(self).buffered().len() == 0,
        ensures
            final(self).buffered() == decoded@,
            final(self).pending() == old(self).pending(),
            final(self).started() == old(self).started(),
            final(self).finished() == old(self).finished(),
            final(self).endings() == old(self).endings(),
            decoded.len() > 0 ==> final(self).capacity_spec() == old(self).capacity_spec()
                && action == FillAction::Ready,
            decoded.len() == 0 ==> match status {
                DecodeStatus::NeedOutput { .. } => {
                    &&& final(self).capacity_spec() == grown_capacity(old(self).capacity_spec())
                    &&& action == FillAction::Transcode { capacity: final(self).capacity_spec() }
                },
                DecodeStatus::Complete => {
                    &&& final(self).capacity_spec() == old(self).capacity_spec()
                    &&& action == FillAction::Transcode { capacity: old(self).capacity_spec() }
                },
                DecodeStatus::NeedInput { required } => {
                    &&& final(self).capacity_spec() == old(self).capacity_spec()
                    &&& action == FillAction::Refill { required }
                },
            },
            final(self).received() == old(self).received() + decoded@,
            final(self).consumed() == old(self).consumed(),
    {
        proof {
            use_type_invariant(&*self);
        }
        self.set_window(decoded);
        assert(self.chars@.skip(0) =~= decoded@);
        if decoded.len() > 0 {
            return FillAction::Ready;
        }
        match status {
            DecodeStatus::NeedOutput { .. } => {
                let doubled = if self.capacity <= usize::MAX / 2 {
                    self.capacity * 2
                } else {
                    usize::MAX
                };
                let one_more = self.capacity.saturating_add(1);
                self.capacity = if doubled >= one_more {
                    doubled
                } else {
                    one_more
                };
                FillAction::Transcode { capacity: self.capacity }
            },
            DecodeStatus::Complete => FillAction::Transcode { capacity: self.capacity },
            DecodeStatus::NeedInput { required } => FillAction::Refill { required },
        }
    }

    /// The next step after a refill: another decoding step when the
    /// requested bytes arrived, the end-of-input tail otherwise.
    pub fn after_refill(&self, filled: bool) -> (action: FillAction)
        ensures
            action == if filled {
                FillAction::Transcode { capacity: self.capacity_spec() }
            } else {
                FillAction::TranscodeEof { capacity: self.capacity_spec() }
            },
    {
        proof {
            use_type_invariant(self);
        }
        if filled {
            FillAction::Transcode { capacity: self.capacity }
        } else {
            FillAction::TranscodeEof { capacity: self.capacity }
        }
    }

    /// The next step when the input had no bytes left to decode: the
    /// end-of-input tail.
    pub fn at_input_end(&self) -> (action: FillAction)
        ensures
            action == (FillAction::TranscodeEof { capacity: self.capacity_spec() }),
    {
        proof {
            use_type_invariant(self);
        }
        FillAction::TranscodeEof { capacity: self.capacity }
    }

    /// Records the decoding of the end-of-input tail that wrote `decoded`
    /// and reported `status`: reading when characters were written, a step
    /// with exactly the requested room when output room ran out, finishing
    /// the decoder when all was consumed, and an error when more input was
    /// asked for.
    pub fn on_eof_transcoded(&mut self, decoded: &[char], status: DecodeStatus) -> (result: Result<
        FillAction,
        FillError,
    >)
        requires
            old(self).buffered().len() == 0,
        ensures
            final(self).buffered() == decoded@,
            final(self).pending() == old(self).pending(),
            final(self).started() == old(self).started(),
            final(self).finished() == old(self).finished(),
            final(self).endings() == old(self).endings(),
            decoded.len() > 0 ==> final(self).capacity_spec() == old(self).capacity_spec() && result
                == Ok::<FillAction, FillError>(FillAction::Ready),
            decoded.len() == 0 ==> match status {
                DecodeStatus::NeedOutput { required } => {
                    &&& final(self).capacity_spec() == required
                    &&& result == Ok::<FillAction, FillError>(
                        FillAction::TranscodeEof { capacity: required },
                    )
                },
                DecodeStatus::Complete => {
                    &&& final(self).capacity_spec() == old(self).capacity_spec()
                    &&& result == Ok::<FillAction, FillError>(FillAction::Finish)
                },
                DecodeStatus::NeedInput { .. } => {
                    &&& final(self).capacity_spec() == old(self).capacity_spec()
                    &&& result == Err::<FillAction, FillError>(FillError::InputAfterEnd)
                },
            },
            final(self).received() == old(self).received() + decoded@,
            final(self).consumed() == old(self).consumed(),
    {
        proof {
            use_type_invariant(&*self);
        }
        self.set_window(decoded);
        assert(self.chars@.skip(0) =~= decoded@);
        if decoded.len() > 0 {
            return Ok(FillAction::Ready);
        }
        match status {
            DecodeStatus::NeedOutput { required } => {
                self.capacity = required;
                Ok(FillAction::TranscodeEof { capacity: required })
            },
            DecodeStatus::Complete => Ok(FillAction::Finish),
            DecodeStatus::NeedInput { .. } => Err(FillError::InputAfterEnd),
        }
    }

    /// Number of characters the finishing step may write, given the
    /// decoder's finish bound: at least one; the capacity is raised to it.
    pub fn finish_count(&mut self, bound: usize) -> (count: usize)
        ensures
            count == if bound >= 1 {
                bound
            } else {
                1
            },
            final(self).capacity_spec() == if old(self).capacity_spec() >= count {
                old(self).capacity_spec()
            } else {
                count
            },
            final(self).buffered() == old(self).buffered(),
            final(self).pending() == old(self).pending(),
            final(self).started() == old(self).started(),
            final(self).finished() == old(self).finished(),
            final(self).endings() == old(self).endings(),
            final(self).received() == old(self).received(),
            final(self).consumed() == old(self).consumed(),
    {
        proof {
            use_type_invariant(&*self);
        }
        let count = if bound >= 1 {
            bound
        } else {
            1
        };
        self.reserve(count);
        count
    }

    /// Records that the decoder finished and wrote `decoded`: those
    /// characters are ready when there are any, and the text ends
    /// otherwise.
    pub fn on_finished(&mut self, decoded: &[char]) -> (action: FillAction)
        requires
            old(self).buffered().len() == 0,
        ensures
            final(self).finished(),
            final(self).buffered() == decoded@,
            final(self).pending() == old(self).pending(),
            final(self).started() == old(self).started(),
            final(self).capacity_spec() == old(self).capacity_spec(),
            final(self).endings() == old(self).endings(),
            action == if decoded.len() > 0 {
                FillAction::Ready
            } else {
                FillAction::End
            },
            final(self).received() == old(self).received() + decoded@,
            final(self).consumed() == old(self).consumed(),
    {
        proof {
            use_type_invariant(&*self);
        }
        self.set_window(decoded);
        proof {
            use_type_invariant(&*self);
        }
        self.finished = true;
        assert(self.chars@.skip(0) =~= decoded@);
        if decoded.len() > 0 {
            FillAction::Ready
        } else {
            FillAction::End
        }
    }

    /// Takes the handed-back character, if any.
    pub fn take_pending(&mut self) -> (pending: Option<char>)
        ensures
            pending == old(self).pending(),
            final(self).pending() == None::<char>,
            final(self).buffered() == old(self).buffered(),
            final(self).capacity_spec() == old(self).capacity_spec(),
            final(self).started() == old(self).started(),
            final(self).finished() == old(self).finished(),
            final(self).endings() == old(self).endings(),
            final(self).received() == old(self).received(),
            final(self).consumed() == old(self).consumed(),
    {
        proof {
            use_type_invariant(&*self);
        }
        let pending = self.pending;
        self.pending = None;
        pending
    }

    /// Hands `pending` back to be read before the buffered characters,
    /// replacing any character held there.
    pub fn set_pending(&mut self, pending: Option<char>)
        ensures
            final(self).pending() == pending,
            final(self).buffered() == old(self).buffered(),
            final(self).capacity_spec() == old(self).capacity_spec(),
            final(self).started() == old(self).started(),
            final(self).finished() == old(self).finished(),
            final(self).endings() == old(self).endings(),
            final(self).received() == old(self).received(),
            final(self).consumed() == old(self).consumed(),
    {
        proof {
            use_type_invariant(&*self);
        }
        self.pending = pending;
    }

    /// Reads the next buffered character.
    pub fn next_buffered(&mut self) -> (ch: char)
        requires
            old(self).buffered().len() > 0,
        ensures
            ch == old(self).buffered()[0],
            final(self).buffered() == old(self).buffered().drop_first(),
            final(self).pending() == old(self).pending(),
            final(self).capacity_spec() == old(self).capacity_spec(),
            final(self).started() == old(self).started(),
            final(self).finished() == old(self).finished(),
            final(self).endings() == old(self).endings(),
            final(self).received() == old(self).received(),
            final(self).consumed() == old(self).consumed().push(ch),
    {
        proof {
            use_type_invariant(&*self);
        }
        let ch = self.chars[self.mark.position];
        let ghost consumed = self.mark.consumed@.push(ch);
        proof {
            assert(self.received@ =~= consumed + self.chars@.skip(self.mark.position + 1));
        }
        self.mark = ReadMark { position: self.mark.position + 1, consumed: Ghost(consumed) };
        assert(self.received@ =~= self.mark.consumed@ + self.chars@.skip(self.mark.position as int));
        assert(self.chars@.skip(self.mark.position as int) =~= old(self).chars@.skip(
            old(self).mark.position as int,
        ).drop_first());
        ch
    }

    /// Moves up to `max` buffered characters to the end of `output` and
    /// returns how many were moved.
    pub fn take_buffered(&mut self, output: &mut Vec<char>, max: usize) -> (count: usize)
        ensures
            count == if old(self).buffered().len() <= max {
                old(self).buffered().len()
            } else {
                max as nat
            },
            final(output)@ == old(output)@ + old(self).buffered().take(count as int),
            final(self).buffered() == old(self).buffered().skip(count as int),
            final(self).pending() == old(self).pending(),
            final(self).capacity_spec() == old(self).capacity_spec(),
            final(self).started() == old(self).started(),
            final(self).finished() == old(self).finished(),
            final(self).endings() == old(self).endings(),
            final(self).received() == old(self).received(),
            final(self).consumed() == old(self).consumed() + old(self).buffered().take(count as int),
    {
        proof {
            use_type_invariant(&*self);
        }
        let available = self.chars.len() - self.mark.position;
        let count = if available <= max {
            available
        } else {
            max
        };
        let start = self.mark.position;
        let mut i: usize = 0;
        while i < count
            invariant
                count <= available,
                available == self.chars.len() - start,
                start == old(self).mark.position,
                self.chars@ == old(self).chars@,
                i <= count,
                output@ == old(output)@ + self.chars@.subrange(start as int, start + i),
            decreases count - i,
        {
            output.push(self.chars[start + i]);
            i += 1;
            assert(output@ =~= old(output)@ + self.chars@.subrange(start as int, start + i));
        }
        let ghost consumed = self.mark.consumed@ + old(self).buffered().take(count as int);
        assert(self.chars@.subrange(start as int, start + count) =~= old(self).buffered().take(
            count as int,
        ));
        assert(old(self).buffered() =~= old(self).buffered().take(count as int) + old(self).buffered().skip(count as int));
        assert(self.chars@.skip(start + count) =~= old(self).buffered().skip(count as int));
        assert(self.received@ =~= consumed + self.chars@.skip(start + count));
        self.mark = ReadMark { position: start + count, consumed: Ghost(consumed) };
        count
    }

    /// Appends all buffered characters to `output` and returns how many
    /// were appended.
    pub fn take_all_buffered(&mut self, output: &mut String) -> (count: usize)
        ensures
            count == old(self).buffered().len(),
            final(output)@ == old(output)@ + old(self).buffered(),
            final(self).buffered() == Seq::<char>::empty(),
            final(self).pending() == old(self).pending(),
            final(self).capacity_spec() == old(self).capacity_spec(),
            final(self).started() == old(self).started(),
            final(self).finished() == old(self).finished(),
            final(self).endings() == old(self).endings(),
            final(self).received() == old(self).received(),
            final(self).consumed() == old(self).consumed() + old(self).buffered(),
    {
        proof {
            use_type_invariant(&*self);
        }
        let start = self.mark.position;
        let end = self.chars.len();
        let mut i: usize = start;
        while i < end
            invariant
                start <= i <= end,
                end == self.chars.len(),
                start == old(self).mark.position,
                self.chars@ == old(self).chars@,
                output@ == old(output)@ + self.chars@.subrange(start as int, i as int),
            decreases end - i,
        {
            string_push(output, self.chars[i]);
            i += 1;
            assert(output@ =~= old(output)@ + self.chars@.subrange(start as int, i as int));
        }
        let ghost consumed = self.mark.consumed@ + old(self).buffered();
        assert(self.chars@.subrange(start as int, end as int) =~= old(self).buffered());
        assert(self.chars@.skip(end as int) =~= Seq::<char>::empty());
        assert(self.received@ =~= consumed + self.chars@.skip(end as int));
        self.mark = ReadMark { position: end, consumed: Ghost(consumed) };
        end - start
    }

    /// Consumes the buffer and returns everything decoded and not read
    /// yet: the handed-back character first, then the buffered ones.
    pub fn into_unread(self) -> (chars: Vec<char>)
        ensures
            chars@ == self.unread(),
    {
        proof {
            use_type_invariant(&self);
        }
        let mut chars: Vec<char> = Vec::new();
        if let Some(ch) = self.pending {
            chars.push(ch);
        }
        let mut this = self;
        let count = this.take_buffered(&mut chars, usize::MAX);
        assert(self.buffered().take(count as int) =~= self.buffered());
        assert(chars@ =~= self.unread());
        chars
    }
}

/// A buffered reader neither loses nor reorders what its decoder writes:
/// every character written is either read from the window, in the order
/// written, or still buffered.
pub proof fn lemma_decoded_text_is_read_in_order(buffer: &DecodedBuffer)
    requires
        buffer.wf(),
    ensures
        buffer.received() == buffer.consumed() + buffer.buffered(),
{
}

} // verus!

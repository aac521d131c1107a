//! The lifecycle of the streaming encoder behind a buffered text writer.
//!
//! The encoder is started lazily before the first character is encoded
//! (or before finishing, when nothing was written), and finished once;
//! after that the writer refuses text.
use vstd::prelude::*;

verus! {

/// Smallest byte capacity of a buffered writer's output, given what the
/// encoder may write for one character: the encoder's bound when it has
/// one, and at least one byte.
pub open spec fn min_output_capacity_spec(one_char_bound: Option<usize>) -> usize {
    match one_char_bound {
        Some(bound) if bound >= 1 => bound,
        _ => 1,
    }
}

/// Byte capacity of a buffered writer's output: the requested capacity,
/// raised to hold what the encoder may write for one character.
pub fn output_capacity(requested: usize, one_char_bound: Option<usize>) -> (capacity: usize)
    ensures
        capacity == if requested >= min_output_capacity_spec(one_char_bound) {
            requested
        } else {
            min_output_capacity_spec(one_char_bound)
        },
{
    let minimum = match one_char_bound {
        Some(bound) => if bound >= 1 {
            bound
        } else {
            1
        },
        None => 1,
    };
    if requested >= minimum {
        requested
    } else {
        minimum
    }
}

/// The writer was finished and takes no more text.
#[derive(Clone, Copy, Debug, PartialEq, Eq, Structural)]
pub enum WriterClosed {
    /// Text was written after `finish`.
    Finished,
}

/// Whether the encoder was started and whether it was finished.
#[derive(Clone, Copy, Debug, PartialEq, Eq, Structural)]
pub struct EncoderLifecycle {
    /// The encoder's reset has run.
    pub started: bool,
    /// The encoder's finish has run.
    pub finished: bool,
}

impl EncoderLifecycle {
    /// This lifecycle after the encoder's reset ran.
    pub open spec fn started_spec(self) -> Self {
        EncoderLifecycle { started: true, finished: self.finished }
    }

    /// This lifecycle after the encoder's finish ran.
    pub open spec fn finished_spec(self) -> Self {
        EncoderLifecycle { started: self.started, finished: true }
    }

    /// An encoder that was neither started nor finished.
    pub fn new() -> (lifecycle: Self)
        ensures
            lifecycle.valid(),
            !lifecycle.started,
            !lifecycle.finished,
    {
        EncoderLifecycle { started: false, finished: false }
    }

    /// Text may be written until the writer is finished.
    pub fn ensure_open(&self) -> (result: Result<(), WriterClosed>)
        ensures
            result == if self.finished {
                Err::<(), WriterClosed>(WriterClosed::Finished)
            } else {
                Ok::<(), WriterClosed>(())
            },
    {
        if self.finished {
            Err(WriterClosed::Finished)
        } else {
            Ok(())
        }
    }

    /// Whether the encoder must be started before it encodes.
    pub fn needs_start(&self) -> (needed: bool)
        ensures
            needed == !self.started,
    {
        !self.started
    }

    /// Records that the encoder's reset ran.
    pub fn mark_started(&mut self)
        ensures
            *final(self) == old(self).started_spec(),
    {
        self.started = true;
    }

    /// Whether finishing must still run the encoder's finish.
    pub fn needs_finish(&self) -> (needed: bool)
        ensures
            needed == !self.finished,
    {
        !self.finished
    }

    /// Records that the encoder's finish ran.
    pub fn mark_finished(&mut self)
        ensures
            *final(self) == old(self).finished_spec(),
    {
        self.finished = true;
    }
}

/// A request made of a buffered writer that touches its encoder.
#[derive(Clone, Copy, Debug, PartialEq, Eq, Structural)]
pub enum WriterEvent {
    /// Text is written; `empty` when there is no character to encode.
    Write { empty: bool },
    /// The writer is finished.
    Finish,
}

/// What a write does with the encoder.
#[derive(Clone, Copy, Debug, PartialEq, Eq, Structural)]
pub enum WriteAction {
    /// The writer was finished: the write is refused and nothing is encoded.
    Refuse,
    /// There is nothing to encode: the encoder is not touched.
    Skip,
    /// The characters are encoded, after starting the encoder when `start`.
    Encode { start: bool },
}

/// What finishing does with the encoder.
#[derive(Clone, Copy, Debug, PartialEq, Eq, Structural)]
pub enum FinishAction {
    /// The encoder was finished already: only pending bytes are flushed.
    FlushOnly,
    /// The encoder is finished, after starting it when `start`, and the
    /// bytes are flushed.
    Finalize { start: bool },
}

impl EncoderLifecycle {
    /// Whether this state can be reached: the encoder is finished only
    /// after it was started.
    pub open spec fn valid(self) -> bool {
        self.finished ==> self.started
    }

    /// What a write of text, empty or not, does in this state.
    pub open spec fn write_action_spec(self, empty: bool) -> WriteAction {
        if self.finished {
            WriteAction::Refuse
        } else if empty {
            WriteAction::Skip
        } else {
            WriteAction::Encode { start: !self.started }
        }
    }

    /// What finishing does in this state.
    pub open spec fn finish_action_spec(self) -> FinishAction {
        if self.finished {
            FinishAction::FlushOnly
        } else {
            FinishAction::Finalize { start: !self.started }
        }
    }

    /// Whether `event` starts the encoder in this state.
    pub open spec fn starts_on(self, event: WriterEvent) -> bool {
        match event {
            WriterEvent::Write { empty } => self.write_action_spec(empty) == (WriteAction::Encode {
                start: true,
            }),
            WriterEvent::Finish => self.finish_action_spec() == (FinishAction::Finalize {
                start: true,
            }),
        }
    }

    /// Whether `event` runs the encoder's finish in this state.
    pub open spec fn finalizes_on(self, event: WriterEvent) -> bool {
        event == WriterEvent::Finish && !self.finished
    }

    /// Whether `event` hands characters or the end of the stream to the
    /// encoder in this state.
    pub open spec fn encodes_on(self, event: WriterEvent) -> bool {
        match event {
            WriterEvent::Write { empty } => self.write_action_spec(empty) is Encode,
            WriterEvent::Finish => !self.finished,
        }
    }

    /// This lifecycle after `event` succeeded.
    pub open spec fn after(self, event: WriterEvent) -> Self {
        match event {
            WriterEvent::Write { empty } => if self.write_action_spec(empty) is Encode {
                self.started_spec()
            } else {
                self
            },
            WriterEvent::Finish => if self.finished {
                self
            } else {
                self.started_spec().finished_spec()
            },
        }
    }

    /// This lifecycle after `events` succeeded one after another.
    pub open spec fn after_all(self, events: Seq<WriterEvent>) -> Self
        decreases events.len(),
    {
        if events.len() == 0 {
            self
        } else {
            self.after(events[0]).after_all(events.drop_first())
        }
    }

    /// How many of `events`, succeeding one after another, start the
    /// encoder.
    pub open spec fn starts_during(self, events: Seq<WriterEvent>) -> nat
        decreases events.len(),
    {
        if events.len() == 0 {
            0
        } else {
            (if self.starts_on(events[0]) {
                1nat
            } else {
                0nat
            }) + self.after(events[0]).starts_during(events.drop_first())
        }
    }

    /// How many of `events`, succeeding one after another, run the
    /// encoder's finish.
    pub open spec fn finishes_during(self, events: Seq<WriterEvent>) -> nat
        decreases events.len(),
    {
        if events.len() == 0 {
            0
        } else {
            (if self.finalizes_on(events[0]) {
                1nat
            } else {
                0nat
            }) + self.after(events[0]).finishes_during(events.drop_first())
        }
    }

    /// Decides what a write does with the encoder.
    pub fn write_action(&self, empty: bool) -> (action: WriteAction)
        ensures
            action == self.write_action_spec(empty),
    {
        if self.finished {
            WriteAction::Refuse
        } else if empty {
            WriteAction::Skip
        } else {
            WriteAction::Encode { start: !self.started }
        }
    }

    /// Decides what finishing does with the encoder.
    pub fn finish_action(&self) -> (action: FinishAction)
        ensures
            action == self.finish_action_spec(),
    {
        if self.finished {
            FinishAction::FlushOnly
        } else {
            FinishAction::Finalize { start: !self.started }
        }
    }
}

/// The encoder is started at most once and finished at most once: after
/// its reset ran no start is asked for again, after its finish no finish is
/// asked for again, and a finished writer stays closed whatever follows.
pub proof fn lemma_encoder_runs_once(lifecycle: EncoderLifecycle)
    ensures
        lifecycle.started_spec().started,
        lifecycle.started_spec().started_spec() == lifecycle.started_spec(),
        lifecycle.finished_spec().finished,
        lifecycle.finished_spec().finished_spec() == lifecycle.finished_spec(),
        lifecycle.finished_spec().started_spec().finished,
{
}

/// Over any sequence of successful writes and finishes, the encoder is
/// started at most once (never when it was started before) and finished at
/// most once (never when it was finished before); the state reached keeps
/// every start and finish that happened.
pub proof fn lemma_encoder_started_and_finished_once(lifecycle: EncoderLifecycle, events: Seq<WriterEvent>)
    ensures
        lifecycle.starts_during(events) <= (if lifecycle.started {
            0nat
        } else {
            1nat
        }),
        lifecycle.finishes_during(events) <= (if lifecycle.finished {
            0nat
        } else {
            1nat
        }),
        lifecycle.started ==> lifecycle.after_all(events).started,
        lifecycle.finished ==> lifecycle.after_all(events).finished,
        lifecycle.valid() ==> lifecycle.after_all(events).valid(),
        lifecycle.starts_during(events) > 0 ==> lifecycle.after_all(events).started,
        lifecycle.finishes_during(events) > 0 ==> lifecycle.after_all(events).finished,
    decreases events.len(),
{
    if events.len() > 0 {
        lemma_encoder_started_and_finished_once(lifecycle.after(events[0]), events.drop_first());
    }
}

/// The encoder is started before it is handed anything: an event that
/// encodes text or the end of the stream finds the encoder started or
/// starts it itself. A write with nothing to encode never starts it, and
/// finishing a writer that never wrote starts it (so that the stream's
/// start units are written even for an empty stream).
pub proof fn lemma_encoder_started_before_use(lifecycle: EncoderLifecycle, event: WriterEvent)
    ensures
        lifecycle.encodes_on(event) ==> lifecycle.started || lifecycle.starts_on(event),
        lifecycle.starts_on(event) ==> lifecycle.encodes_on(event),
        event == (WriterEvent::Write { empty: true }) ==> !lifecycle.starts_on(event),
        !lifecycle.started && !lifecycle.finished ==> lifecycle.starts_on(WriterEvent::Finish),
{
}

/// Once a writer is finished it stays finished: after any further
/// successful events every write is refused without touching the encoder,
/// finishing again only flushes, and the encoder is neither started nor
/// finished again.
pub proof fn lemma_finished_writer_stays_closed(
    lifecycle: EncoderLifecycle,
    events: Seq<WriterEvent>,
    empty: bool,
)
    requires
        lifecycle.valid(),
    ensures
        lifecycle.after(WriterEvent::Finish).finished,
        lifecycle.after(WriterEvent::Finish).after_all(events).write_action_spec(empty)
            == WriteAction::Refuse,
        lifecycle.after(WriterEvent::Finish).after_all(events).finish_action_spec()
            == FinishAction::FlushOnly,
        lifecycle.after(WriterEvent::Finish).finishes_during(events) == 0,
        lifecycle.after(WriterEvent::Finish).starts_during(events) == 0,
{
    lemma_encoder_started_and_finished_once(lifecycle.after(WriterEvent::Finish), events);
}

} // verus!

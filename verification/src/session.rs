//! The transfer session: the strictly sequential state machine one
//! source-to-destination copy follows. A driver performs the I/O the
//! returned actions call for and feeds the outcome of each back in as
//! the next event; every decision the engine takes is made here.

use vstd::prelude::*;

verus! {

/// Why a transfer failed.
#[derive(PartialEq, Eq, Structural, Clone, Copy, Debug)]
pub enum TransferError {
    /// The source object could not be opened for reading.
    SourceOpen,
    /// The destination could not be opened for writing.
    DestOpen,
    /// I/O failed while streaming or finalizing; the destination is
    /// left indeterminate, no rollback is attempted.
    Stream,
}

/// The phases of one transfer, in the order they are passed through.
/// `Complete` and `Failed` are terminal.
#[derive(PartialEq, Eq, Structural, Clone, Copy, Debug)]
pub enum Phase {
    Idle,
    SourceOpen,
    DestOpen,
    Streaming,
    Finalizing,
    Complete,
    Failed,
}

/// What the driver reports back: the outcome of the action it was asked
/// to perform.
pub enum Event {
    SourceOpened,
    SourceOpenFailed,
    DestOpened,
    DestOpenFailed,
    /// A chunk of bytes was read from the source.
    ChunkRead(Vec<u8>),
    /// The source reported end of stream.
    EndOfStream,
    ReadFailed,
    /// The previously handed-out chunk was written in full.
    ChunkWritten,
    WriteFailed,
    Finalized,
    FinalizeFailed,
}

/// What the driver is asked to do next.
pub enum Action {
    OpenDest,
    ReadChunk,
    WriteChunk(Vec<u8>),
    Finalize,
    /// The transfer is complete: the destination was finalized.
    Succeed,
    /// The transfer failed; nothing further may be done with it.
    Abort(TransferError),
}

/// An action with the chunk payload abstracted away, for stating the
/// transition table.
#[derive(PartialEq, Eq, Structural, Clone, Copy, Debug)]
pub enum ActionStep {
    OpenDest,
    ReadChunk,
    WriteChunk,
    Finalize,
    Succeed,
    Abort(TransferError),
}

/// The payload-free shape of an action.
pub open spec fn shape_of(a: Action) -> ActionStep {
    match a {
        Action::OpenDest => ActionStep::OpenDest,
        Action::ReadChunk => ActionStep::ReadChunk,
        Action::WriteChunk(_) => ActionStep::WriteChunk,
        Action::Finalize => ActionStep::Finalize,
        Action::Succeed => ActionStep::Succeed,
        Action::Abort(e) => ActionStep::Abort(e),
    }
}

/// The phase after handling event `e` in phase `p`. Terminal phases
/// absorb; an event the protocol does not permit fails the session.
pub open spec fn next_phase(p: Phase, e: Event) -> Phase {
    match (p, e) {
        (Phase::Idle, Event::SourceOpened) => Phase::SourceOpen,
        (Phase::SourceOpen, Event::DestOpened) => Phase::DestOpen,
        (Phase::DestOpen, Event::ChunkRead(_)) => Phase::Streaming,
        (Phase::DestOpen, Event::EndOfStream) => Phase::Finalizing,
        (Phase::Streaming, Event::ChunkRead(_)) => Phase::Streaming,
        (Phase::Streaming, Event::ChunkWritten) => Phase::Streaming,
        (Phase::Streaming, Event::EndOfStream) => Phase::Finalizing,
        (Phase::Finalizing, Event::Finalized) => Phase::Complete,
        (Phase::Complete, _) => Phase::Complete,
        (_, _) => Phase::Failed,
    }
}

/// The action handed out on event `e` in phase `p`.
pub open spec fn step_action(p: Phase, e: Event) -> ActionStep {
    match (p, e) {
        (Phase::Idle, Event::SourceOpened) => ActionStep::OpenDest,
        (Phase::Idle, Event::SourceOpenFailed) => ActionStep::Abort(TransferError::SourceOpen),
        (Phase::SourceOpen, Event::DestOpened) => ActionStep::ReadChunk,
        (Phase::SourceOpen, Event::DestOpenFailed) => ActionStep::Abort(TransferError::DestOpen),
        (Phase::DestOpen, Event::ChunkRead(_)) => ActionStep::WriteChunk,
        (Phase::DestOpen, Event::EndOfStream) => ActionStep::Finalize,
        (Phase::Streaming, Event::ChunkRead(_)) => ActionStep::WriteChunk,
        (Phase::Streaming, Event::ChunkWritten) => ActionStep::ReadChunk,
        (Phase::Streaming, Event::EndOfStream) => ActionStep::Finalize,
        (Phase::Finalizing, Event::Finalized) => ActionStep::Succeed,
        (_, _) => ActionStep::Abort(TransferError::Stream),
    }
}

/// Which events the protocol permits next. While a handed-out chunk is
/// unconfirmed only its write outcome may be reported; otherwise only a
/// read outcome.
pub open spec fn permitted(s: TransferSession, e: Event) -> bool {
    match (s.phase(), e) {
        (Phase::Idle, Event::SourceOpened) => true,
        (Phase::Idle, Event::SourceOpenFailed) => true,
        (Phase::SourceOpen, Event::DestOpened) => true,
        (Phase::SourceOpen, Event::DestOpenFailed) => true,
        (Phase::DestOpen, Event::ChunkRead(_)) => true,
        (Phase::DestOpen, Event::EndOfStream) => true,
        (Phase::DestOpen, Event::ReadFailed) => true,
        (Phase::Streaming, Event::ChunkRead(_)) => s.pending() is None,
        (Phase::Streaming, Event::EndOfStream) => s.pending() is None,
        (Phase::Streaming, Event::ReadFailed) => s.pending() is None,
        (Phase::Streaming, Event::ChunkWritten) => s.pending() is Some,
        (Phase::Streaming, Event::WriteFailed) => s.pending() is Some,
        (Phase::Finalizing, Event::Finalized) => true,
        (Phase::Finalizing, Event::FinalizeFailed) => true,
        (_, _) => false,
    }
}

/// One transfer session. Ghost state records the bytes confirmed
/// written so far and the chunk handed out but not yet confirmed.
pub struct TransferSession {
    state: Phase,
    written: Ghost<Seq<u8>>,
    unconfirmed: Ghost<Option<Seq<u8>>>,
}

impl TransferSession {
    pub closed spec fn phase(self) -> Phase {
        self.state
    }

    /// All bytes whose write the driver has confirmed, in order.
    pub closed spec fn written(self) -> Seq<u8> {
        self.written@
    }

    /// The chunk handed out for writing and not yet confirmed, if any.
    pub closed spec fn pending(self) -> Option<Seq<u8>> {
        self.unconfirmed@
    }

    /// A session starts idle, with nothing written and nothing pending.
    pub fn new() -> (s: TransferSession)
        ensures
            s.phase() == Phase::Idle,
            s.written() == Seq::<u8>::empty(),
            s.pending() is None,
    {
        TransferSession {
            state: Phase::Idle,
            written: Ghost(Seq::empty()),
            unconfirmed: Ghost(None),
        }
    }

    /// The phase the session is in.
    pub fn current(&self) -> (p: Phase)
        ensures
            p == self.phase(),
    {
        self.state
    }

    /// Handles one event: moves to the next phase and hands the driver
    /// its next action, per the transition table. A chunk read is handed
    /// back to be written unchanged; a confirmed write appends that very
    /// chunk to the written history.
    pub fn step(&mut self, e: Event) -> (a: Action)
        requires
            permitted(*old(self), e),
        ensures
            final(self).phase() == next_phase(old(self).phase(), e),
            shape_of(a) == step_action(old(self).phase(), e),
            e matches Event::ChunkRead(d) ==> a matches Action::WriteChunk(w) && w@ == d@
                && final(self).pending() == Some(d@)
                && final(self).written() == old(self).written(),
            e matches Event::ChunkWritten ==> old(self).pending() matches Some(c)
                && final(self).written() == old(self).written() + c
                && final(self).pending() is None,
            !(e matches Event::ChunkRead(_)) && !(e matches Event::ChunkWritten)
                ==> final(self).written() == old(self).written()
                && final(self).pending() == old(self).pending(),
    {
        match e {
            Event::SourceOpened => {
                self.state = Phase::SourceOpen;
                Action::OpenDest
            },
            Event::SourceOpenFailed => {
                self.state = Phase::Failed;
                Action::Abort(TransferError::SourceOpen)
            },
            Event::DestOpened => {
                self.state = Phase::DestOpen;
                Action::ReadChunk
            },
            Event::DestOpenFailed => {
                self.state = Phase::Failed;
                Action::Abort(TransferError::DestOpen)
            },
            Event::ChunkRead(d) => {
                self.state = Phase::Streaming;
                proof {
                    self.unconfirmed@ = Some(d@);
                }
                Action::WriteChunk(d)
            },
            Event::EndOfStream => {
                self.state = Phase::Finalizing;
                Action::Finalize
            },
            Event::ReadFailed => {
                self.state = Phase::Failed;
                Action::Abort(TransferError::Stream)
            },
            Event::ChunkWritten => {
                self.state = Phase::Streaming;
                proof {
                    self.written@ = self.written@ + self.unconfirmed@->0;
                    self.unconfirmed@ = None;
                }
                Action::ReadChunk
            },
            Event::WriteFailed => {
                self.state = Phase::Failed;
                Action::Abort(TransferError::Stream)
            },
            Event::Finalized => {
                self.state = Phase::Complete;
                Action::Succeed
            },
            Event::FinalizeFailed => {
                self.state = Phase::Failed;
                Action::Abort(TransferError::Stream)
            },
        }
    }
}

/// The phase after an idle session has handled a whole sequence of
/// events.
pub open spec fn run_phases(p: Phase, events: Seq<Event>) -> Phase
    decreases events.len(),
{
    if events.len() == 0 {
        p
    } else {
        run_phases(next_phase(p, events[0]), events.skip(1))
    }
}

/// How many of the actions handed out over a sequence of events ask the
/// driver to finalize the destination.
pub open spec fn finalize_count(p: Phase, events: Seq<Event>) -> nat
    decreases events.len(),
{
    if events.len() == 0 {
        0
    } else {
        (if step_action(p, events[0]) == ActionStep::Finalize {
            1nat
        } else {
            0nat
        }) + finalize_count(next_phase(p, events[0]), events.skip(1))
    }
}

/// The finalize action is handed out exactly on the transition into
/// `Finalizing`: only once the source has reported end of stream, and
/// never out of any later phase.
pub proof fn lemma_finalize_marks_finalizing(p: Phase, e: Event)
    ensures
        step_action(p, e) == ActionStep::Finalize <==> next_phase(p, e) == Phase::Finalizing,
{
}

/// Finalization happens at most once in any session, however the run
/// goes; and never again once the session is finalizing, complete or
/// failed. Destination content therefore becomes visible at one single
/// point of a transfer.
pub proof fn lemma_finalize_at_most_once(p: Phase, events: Seq<Event>)
    ensures
        finalize_count(p, events) <= 1,
        p == Phase::Finalizing || p == Phase::Complete || p == Phase::Failed ==> finalize_count(
            p,
            events,
        ) == 0,
    decreases events.len(),
{
    if events.len() > 0 {
        lemma_finalize_at_most_once(next_phase(p, events[0]), events.skip(1));
    }
}

/// A session completes only by finalizing: if a run from any phase other
/// than `Complete` ends complete, it finalized exactly once on the way.
pub proof fn lemma_complete_implies_finalized(p: Phase, events: Seq<Event>)
    requires
        p != Phase::Complete,
        p != Phase::Finalizing,
        run_phases(p, events) == Phase::Complete,
    ensures
        finalize_count(p, events) == 1,
    decreases events.len(),
{
    if events.len() > 0 {
        let q = next_phase(p, events[0]);
        if q == Phase::Finalizing {
            lemma_finalizing_to_complete(q, events.skip(1));
        } else {
            lemma_complete_implies_finalized(q, events.skip(1));
        }
    }
}

/// From `Finalizing`, a run that ends complete hands out no further
/// finalize action: the one that led here was the only one.
proof fn lemma_finalizing_to_complete(p: Phase, events: Seq<Event>)
    requires
        p == Phase::Finalizing,
    ensures
        finalize_count(p, events) == 0,
    decreases events.len(),
{
    lemma_finalize_at_most_once(p, events);
}

} // verus!

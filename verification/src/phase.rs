//! The phases of a combine run and the moves between them.

use vstd::prelude::*;
use crate::error::OmError;

verus! {

/// Where a combine run stands.
#[derive(Clone, Copy, Debug, PartialEq, Eq, Structural)]
pub enum Phase {
    /// The input images are being decoded.
    Loading,
    /// The images are being placed on canvases.
    Placing,
    /// The canvases are being written.
    Emitting,
    /// Every canvas was written.
    Done,
    /// The run was given up for the reason given.
    Failed(OmError),
}

/// What happened in a phase.
#[derive(Clone, Copy, Debug, PartialEq, Eq, Structural)]
pub enum Event {
    /// The phase came to its end.
    Finished,
    /// An input image could not be decoded.
    DecodeFailed,
    /// An image is larger than a canvas.
    TooLarge,
    /// An output could not be written.
    WriteFailed,
}

impl Phase {
    /// The phase that follows `self` on `event`. A phase ends in the next one;
    /// a failure ends the run with its kind of error; nothing leads out of
    /// `Done` or `Failed`.
    pub open spec fn after(self, event: Event) -> Phase {
        match (self, event) {
            (Phase::Done, _) => self,
            (Phase::Failed(_), _) => self,
            (Phase::Loading, Event::Finished) => Phase::Placing,
            (Phase::Placing, Event::Finished) => Phase::Emitting,
            (Phase::Emitting, Event::Finished) => Phase::Done,
            (_, Event::DecodeFailed) => Phase::Failed(OmError::Decode),
            (_, Event::TooLarge) => Phase::Failed(OmError::Capacity),
            (_, Event::WriteFailed) => Phase::Failed(OmError::Io),
        }
    }

    /// Whether the run is over.
    pub open spec fn is_terminal(self) -> bool {
        self is Done || self is Failed
    }

    /// Moves to the phase that follows on `event`.
    pub fn next(self, event: Event) -> (p: Phase)
        ensures
            p == self.after(event),
    {
        match self {
            Phase::Done => self,
            Phase::Failed(_) => self,
            _ => match event {
                Event::DecodeFailed => Phase::Failed(OmError::Decode),
                Event::TooLarge => Phase::Failed(OmError::Capacity),
                Event::WriteFailed => Phase::Failed(OmError::Io),
                Event::Finished => match self {
                    Phase::Loading => Phase::Placing,
                    Phase::Placing => Phase::Emitting,
                    _ => Phase::Done,
                },
            },
        }
    }

    /// Tells whether the run is over.
    pub fn finished(self) -> (b: bool)
        ensures
            b == self.is_terminal(),
    {
        match self {
            Phase::Done => true,
            Phase::Failed(_) => true,
            _ => false,
        }
    }

    /// The exit code of a run that ended: zero for `Done`, one otherwise.
    pub fn exit_code(self) -> (code: i32)
        ensures
            code == if self is Done {
                0i32
            } else {
                1i32
            },
    {
        match self {
            Phase::Done => 0,
            _ => 1,
        }
    }

    /// A run that is over stays where it is, whatever happens.
    pub proof fn lemma_terminal_stays(self, event: Event)
        requires
            self.is_terminal(),
        ensures
            self.after(event) == self,
    {
    }
}

} // verus!

//! What a command does to a buffer, as a value that contracts can state.

use vstd::prelude::*;
use crate::buffer::{BufferView, StickyCol};
use crate::event::Event;
use crate::Error;

verus! {

/// How a command ends: with an event that is left for the caller, or with an
/// error of one of two kinds.
pub enum Verdict {
    Residual(Event),
    Fatal,
    BadPattern,
}

/// The buffer after a command, and how the command ended.
pub struct Step {
    pub after: BufferView,
    pub verdict: Verdict,
}

impl Step {
    /// The command was carried out and used up the event.
    pub open spec fn done(after: BufferView) -> Step {
        Step { after, verdict: Verdict::Residual(Event::Noop) }
    }

    /// The command moved the cursor to `target` and left `sticky` as the
    /// remembered column; nothing else has changed.
    pub open spec fn moved(v: BufferView, target: int, sticky: StickyCol) -> Step {
        Step::done(v.at(target).stuck(sticky))
    }

    /// The event is not for the buffer: it goes back to the caller and the
    /// buffer stays as it is.
    pub open spec fn passed(v: BufferView, evnt: Event) -> Step {
        Step { after: v, verdict: Verdict::Residual(evnt) }
    }

    /// The command was refused as `Fatal`.
    pub open spec fn fatal(v: BufferView) -> Step {
        Step { after: v, verdict: Verdict::Fatal }
    }

    /// The command was refused as `BadPattern`.
    pub open spec fn bad_pattern(v: BufferView) -> Step {
        Step { after: v, verdict: Verdict::BadPattern }
    }
}

/// The buffer `after` and the result `res` are what `step` says.
pub open spec fn conforms(after: BufferView, res: Result<Event, Error>, step: Step) -> bool {
    after == step.after && match step.verdict {
        Verdict::Residual(evnt) => res == Ok::<Event, Error>(evnt),
        Verdict::Fatal => res matches Err(Error::Fatal(_)),
        Verdict::BadPattern => res matches Err(Error::BadPattern(_)),
    }
}

} // verus!

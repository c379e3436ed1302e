use vstd::prelude::*;

verus! {

/// The result of polling a computation once: either a final value, or a
/// promise that the waker made available during the poll (or a clone of it)
/// will eventually be signalled.
#[derive(PartialEq, Eq, Debug)]
pub enum Poll<T> {
    Ready(T),
    Pending,
}

/// One line of the runtime's diagnostic output, as data.  Rendering and
/// printing are left to the embedding process.
#[derive(Clone, Copy, PartialEq, Eq, Debug)]
pub enum Line {
    /// A fixed trace line, or the payload a finished stage produced.
    Text(&'static str),
    /// The value computed by the input-readiness future: the number parsed
    /// from the line it was handed, plus ten.
    InputResult(i64),
    /// The task with this id has run out of stages.
    Completed(u64),
}

/// What a stage asked of the runtime while it was being polled.
///
/// The waker handed to a real future is a clonable handle whose signals
/// between two polls collapse: however many times it is signalled, the task
/// is re-enqueued at most once per poll.  The context therefore records a
/// single bit, not a count.
pub struct PollContext {
    /// Set when the stage signalled its waker during this poll.
    pub woken: bool,
    /// Set when the stage asked for a helper timer thread, with the
    /// requested duration in milliseconds.
    pub helper: Option<u64>,
}

impl PollContext {
    /// A fresh context, handed to a stage for exactly one poll.
    pub fn new() -> (r: PollContext)
        ensures
            !r.woken,
            r.helper is None,
    {
        PollContext { woken: false, helper: None }
    }

    /// Signal the waker without consuming it: the owning task is to be
    /// re-enqueued at the tail of the ready queue once this poll returns.
    pub fn wake_by_ref(&mut self)
        ensures
            final(self).woken,
            final(self).helper == old(self).helper,
    {
        self.woken = true;
    }

    /// Ask the runtime to start a helper thread that sleeps for `millis`
    /// milliseconds and then reports back.
    pub fn request_helper(&mut self, millis: u64)
        ensures
            final(self).woken == old(self).woken,
            final(self).helper == Some(millis),
    {
        self.helper = Some(millis);
    }
}

/// Waker idempotence: signalling the waker again between two polls changes
/// nothing.  A context that has recorded a wake is indistinguishable from
/// one that recorded the same wake any number of further times, so at most
/// one extra poll ever results from a burst of wakes.
pub proof fn lemma_wake_idempotent(c1: PollContext, c2: PollContext)
    requires
        c1.woken,
        c2.woken,
        c1.helper == c2.helper,
    ensures
        c1 == c2,
{
}

} // verus!

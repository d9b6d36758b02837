//! A future that is pending exactly once, for a task to give way to others.
use vstd::prelude::*;

verus! {

/// The outcome of polling a future.
#[derive(Clone, Copy, Debug, PartialEq, Eq, Structural)]
pub enum PollState {
    Pending,
    Ready,
}

/// Pending the first time it is polled, ready from then on.
#[derive(Clone, Copy, Debug, PartialEq, Eq, Structural)]
pub struct PendingOnceFuture {
    pub polled: bool,
}

/// What a poll of `f` returns.
pub open spec fn poll_result(f: PendingOnceFuture) -> PollState {
    if f.polled {
        PollState::Ready
    } else {
        PollState::Pending
    }
}

/// The future after a poll.
pub open spec fn after_poll(f: PendingOnceFuture) -> PendingOnceFuture {
    PendingOnceFuture { polled: true }
}

impl PendingOnceFuture {
    pub fn new() -> (f: Self)
        ensures
            !f.polled,
    {
        PendingOnceFuture { polled: false }
    }

    /// Polls the future.
    pub fn poll(&mut self) -> (r: PollState)
        ensures
            r == poll_result(*old(self)),
            *final(self) == after_poll(*old(self)),
    {
        if self.polled {
            PollState::Ready
        } else {
            self.polled = true;
            PollState::Pending
        }
    }
}

/// A future that lets the executor run other tasks once before it is ready.
pub fn yield_pending() -> (f: PendingOnceFuture)
    ensures
        !f.polled,
{
    PendingOnceFuture::new()
}

/// A fresh `PendingOnceFuture` is pending on its first poll and ready on
/// every poll after that.
pub proof fn lemma_pending_once(f: PendingOnceFuture, n: nat)
    requires
        !f.polled,
    ensures
        poll_result(f) == PollState::Pending,
        poll_result(polled_times(after_poll(f), n)) == PollState::Ready,
    decreases n,
{
    if n > 0 {
        lemma_pending_once(f, (n - 1) as nat);
    }
}

/// The future after `n` more polls.
pub open spec fn polled_times(f: PendingOnceFuture, n: nat) -> PendingOnceFuture
    decreases n,
{
    if n == 0 {
        f
    } else {
        after_poll(polled_times(f, (n - 1) as nat))
    }
}

} // verus!

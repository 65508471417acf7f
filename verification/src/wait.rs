//! Waiting for a pending call: poll at a fixed interval until the call
//! resolves or a deadline has passed, whichever comes first.
//!
//! The policy decides; the caller keeps the clock and does the sleeping. It
//! serves any call that is polled for completion, not only `replace_blocks`.

use vstd::prelude::*;

verus! {

/// How long to pause between two polls, and how long to keep polling.
/// Both are in milliseconds.
#[derive(Clone, Copy, Debug, PartialEq, Eq, Structural)]
pub struct WaitPolicy {
    /// Pause between two polls.
    pub throttle_ms: u64,
    /// Time after which an unresolved call is given up.
    pub timeout_ms: u64,
}

/// What to do after a poll.
#[derive(Clone, Copy, Debug, PartialEq, Eq, Structural)]
pub enum WaitStep {
    /// The call has resolved: hand its result on.
    Deliver,
    /// The call is pending: pause for this many milliseconds, then poll again.
    Pause(u64),
    /// The call is pending and the deadline has passed: report a timeout.
    GiveUp,
}

/// The step that follows a poll: a resolved call is delivered, however late;
/// a pending call is given up once more than `timeout_ms` have passed since
/// the wait began, and polled again after `throttle_ms` otherwise.
pub open spec fn step_after_poll(policy: WaitPolicy, resolved: bool, elapsed_ms: u64) -> WaitStep {
    if resolved {
        WaitStep::Deliver
    } else if elapsed_ms > policy.timeout_ms {
        WaitStep::GiveUp
    } else {
        WaitStep::Pause(policy.throttle_ms)
    }
}

impl WaitPolicy {
    /// A policy with the given pause and deadline, in milliseconds.
    pub fn new(throttle_ms: u64, timeout_ms: u64) -> (res: WaitPolicy)
        ensures
            res == (WaitPolicy { throttle_ms, timeout_ms }),
    {
        WaitPolicy { throttle_ms, timeout_ms }
    }

    /// The policy of a migration: a poll every half second, for five minutes.
    pub fn standard() -> (res: WaitPolicy)
        ensures
            res == (WaitPolicy { throttle_ms: 500, timeout_ms: 300_000 }),
    {
        WaitPolicy { throttle_ms: 500, timeout_ms: 300_000 }
    }

    /// Decides what follows a poll that found the call resolved or pending,
    /// `elapsed_ms` milliseconds after the wait began.
    pub fn decide(&self, resolved: bool, elapsed_ms: u64) -> (res: WaitStep)
        ensures
            res == step_after_poll(*self, resolved, elapsed_ms),
    {
        if resolved {
            WaitStep::Deliver
        } else if elapsed_ms > self.timeout_ms {
            WaitStep::GiveUp
        } else {
            WaitStep::Pause(self.throttle_ms)
        }
    }
}

/// The wait is bounded. Each pause lasts at least `throttle_ms`, so after
/// `pauses` pauses at least `pauses * throttle_ms` have passed; with a
/// positive throttle, a call still pending after more than
/// `timeout_ms / throttle_ms` pauses is given up.
pub proof fn lemma_wait_is_bounded(policy: WaitPolicy, pauses: nat, elapsed_ms: u64)
    requires
        policy.throttle_ms > 0,
        pauses * policy.throttle_ms <= elapsed_ms,
        pauses > policy.timeout_ms / policy.throttle_ms,
    ensures
        step_after_poll(policy, false, elapsed_ms) == WaitStep::GiveUp,
{
    let t: int = policy.timeout_ms as int;
    let d: int = policy.throttle_ms as int;
    let p: int = pauses as int;
    assert(p * d > t) by (nonlinear_arith)
        requires
            d > 0,
            t >= 0,
            p > t / d,
    ;
}

} // verus!

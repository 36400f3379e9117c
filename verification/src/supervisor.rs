//! The reconnection supervisor: exponential backoff with a cap and reset.
//!
//! When a notification stream dies, the relay task hands control here. The
//! supervisor decides, after each reconnection attempt, whether the task is
//! back in business, should sleep and retry, or has run out of attempts and
//! must fail upward. Sleeps start at one second and double up to 512
//! seconds, after which the delay resets to one second.

use vstd::prelude::*;

verus! {

/// The longest backoff delay, in seconds; reaching it resets the delay.
pub open spec fn spec_backoff_cap() -> u64 {
    512
}

/// The delay that follows `delay` in the backoff schedule.
pub open spec fn spec_next_backoff(delay: u64) -> u64 {
    if delay >= 512 {
        1
    } else {
        (delay * 2) as u64
    }
}

/// The delay slept before attempt `k` (counting from zero) when every
/// attempt so far has failed.
pub open spec fn spec_backoff_at(k: nat) -> u64
    decreases k,
{
    if k == 0 {
        1
    } else {
        spec_next_backoff(spec_backoff_at((k - 1) as nat))
    }
}

/// A power of two strictly below twice another power of two is at most it.
proof fn lemma_pow2_le(b: nat, c: nat)
    requires
        crate::mmr::is_pow2(b),
        crate::mmr::is_pow2(c),
        b < 2 * c,
    ensures
        b <= c,
    decreases b,
{
    if b > 1 {
        lemma_pow2_le(b / 2, c / 2);
    }
}

/// A power of two below 512 is at most 256.
proof fn lemma_pow2_below(b: nat)
    requires
        crate::mmr::is_pow2(b),
        b < 512,
    ensures
        b <= 256,
{
    assert(crate::mmr::is_pow2(1));
    assert(crate::mmr::is_pow2(2));
    assert(crate::mmr::is_pow2(4));
    assert(crate::mmr::is_pow2(8));
    assert(crate::mmr::is_pow2(16));
    assert(crate::mmr::is_pow2(32));
    assert(crate::mmr::is_pow2(64));
    assert(crate::mmr::is_pow2(128));
    assert(crate::mmr::is_pow2(256));
    lemma_pow2_le(b, 256);
}

/// Every delay of the backoff schedule is a power of two between one second
/// and the cap.
pub proof fn lemma_backoff_bounded(k: nat)
    ensures
        1 <= spec_backoff_at(k) <= spec_backoff_cap(),
        crate::mmr::is_pow2(spec_backoff_at(k) as nat),
    decreases k,
{
    if k > 0 {
        lemma_backoff_bounded((k - 1) as nat);
        let b = spec_backoff_at((k - 1) as nat);
        if b < 512 {
            lemma_pow2_below(b as nat);
        }
    }
}

/// What the relay task should do after one reconnection attempt.
#[derive(Clone, Copy, Debug, PartialEq, Eq, Structural)]
pub enum SupervisorAction {
    /// The attempt succeeded: resubscribe and resume.
    Resume,
    /// Sleep this many seconds, then attempt to reconnect again.
    SleepThenRetry(u64),
    /// All attempts are used up: fail upward.
    Fatal,
}

/// The supervisor's state between attempts.
#[derive(Clone, Copy, Debug)]
pub struct SupervisorState {
    /// Seconds the next sleep will last.
    pub backoff: u64,
    /// Reconnection attempts left.
    pub remaining: u32,
}

impl SupervisorState {
    /// The delay is one of the schedule's: a power of two up to the cap.
    pub open spec fn wf(&self) -> bool {
        crate::mmr::is_pow2(self.backoff as nat) && self.backoff <= 512
    }

    /// A fresh supervisor allowing `reconnects` attempts, starting at a one
    /// second delay.
    pub fn new(reconnects: u32) -> (r: SupervisorState)
        ensures
            r.backoff == 1,
            r.remaining == reconnects,
            r.wf(),
    {
        SupervisorState { backoff: 1, remaining: reconnects }
    }

    /// Decides what follows one reconnection attempt: resume on success,
    /// fail once the attempts are used up, and otherwise sleep the current
    /// delay and double it, resetting at the cap.
    pub fn step(&mut self, reconnect_succeeded: bool) -> (a: SupervisorAction)
        requires
            old(self).wf(),
        ensures
            final(self).wf(),
            reconnect_succeeded ==> a == SupervisorAction::Resume && *final(self) == *old(self),
            !reconnect_succeeded && old(self).remaining == 0 ==> a == SupervisorAction::Fatal
                && *final(self) == *old(self),
            !reconnect_succeeded && old(self).remaining > 0 ==> {
                &&& a == SupervisorAction::SleepThenRetry(old(self).backoff)
                &&& final(self).backoff == spec_next_backoff(old(self).backoff)
                &&& final(self).remaining == old(self).remaining - 1
            },
    {
        if reconnect_succeeded {
            return SupervisorAction::Resume;
        }
        if self.remaining == 0 {
            return SupervisorAction::Fatal;
        }
        let delay = self.backoff;
        proof {
            if self.backoff < 512 {
                lemma_pow2_below(self.backoff as nat);
            }
        }
        self.backoff = if self.backoff >= 512 {
            1
        } else {
            self.backoff * 2
        };
        self.remaining = self.remaining - 1;
        SupervisorAction::SleepThenRetry(delay)
    }
}

} // verus!

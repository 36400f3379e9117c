//! Per-signer nonce allocation.
//!
//! One allocator exists per signer and is shared by every submission task
//! that signs with it. It hands out the current value and post-increments,
//! so across any number of callers the values issued are exactly the
//! contiguous range starting at the initial nonce. An allocator that
//! reaches the top of the `u64` range reports a fatal error instead of
//! wrapping.

use vstd::prelude::*;

verus! {

/// The error of an allocator whose nonce range is exhausted: a fatal
/// invariant violation, on which the task must abort.
#[derive(Clone, Copy, Debug, PartialEq, Eq, Structural)]
pub struct NonceExhausted;

/// A counter of transaction nonces for one signer.
#[derive(Clone, Copy, Debug)]
pub struct NonceProvider {
    /// The on-chain nonce of the signer when the allocator was created.
    pub initial: u64,
    /// The value the next call will hand out.
    pub next: u64,
}

impl NonceProvider {
    /// The allocator has handed out exactly the range from `initial` up to,
    /// excluding, `next`.
    pub open spec fn wf(&self) -> bool {
        self.initial <= self.next
    }

    /// How many nonces have been handed out.
    pub open spec fn spec_issued(&self) -> int {
        self.next - self.initial
    }

    /// Creates an allocator that will hand out `nonce`, `nonce + 1`, and so
    /// on.
    pub fn new(nonce: u64) -> (r: NonceProvider)
        ensures
            r.initial == nonce,
            r.next == nonce,
            r.wf(),
    {
        NonceProvider { initial: nonce, next: nonce }
    }

    /// Returns the current nonce and post-increments; the `k`-th call on a
    /// fresh allocator returns `initial + k`. Fails, leaving the allocator
    /// unchanged, exactly when the nonce range is exhausted.
    pub fn get_nonce(&mut self) -> (r: Result<u64, NonceExhausted>)
        ensures
            final(self).initial == old(self).initial,
            match r {
                Ok(n) => {
                    &&& old(self).next < u64::MAX
                    &&& n == old(self).next
                    &&& n == old(self).initial + old(self).spec_issued()
                    &&& final(self).next == old(self).next + 1
                },
                Err(_) => {
                    &&& old(self).next == u64::MAX
                    &&& *final(self) == *old(self)
                },
            },
    {
        if self.next == u64::MAX {
            return Err(NonceExhausted);
        }
        let n = self.next;
        self.next = self.next + 1;
        Ok(n)
    }
}

/// Nonce monotonicity: a trace in which the `k`-th value is `initial + k` —
/// what successive [`NonceProvider::get_nonce`] calls return — is strictly
/// increasing, and is exactly the contiguous range of length `values.len()`
/// starting at `initial`.
pub proof fn lemma_nonce_trace(initial: u64, values: Seq<u64>)
    requires
        forall|k: int| 0 <= k < values.len() ==> (#[trigger] values[k]) == initial + k,
    ensures
        forall|k1: int, k2: int| 0 <= k1 < k2 < values.len() ==> values[k1] < values[k2],
        values =~= Seq::new(values.len(), |k: int| (initial + k) as u64),
{
}

} // verus!

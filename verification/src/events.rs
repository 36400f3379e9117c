//! On-chain events the relayer consumes, and the queries derived from them.

use vstd::prelude::*;
use crate::ids::{Hash32, StateMachine, StateMachineHeight, StateMachineId};
use crate::messages::{GetRequest, PostRequest, PostResponse};

verus! {

broadcast use vstd::seq_lib::group_filter_ensures;

/// Emitted on a chain when its light client for some remote chain advances:
/// the chain can now verify proofs of the remote chain up to `latest_height`.
#[derive(Clone, Copy, Debug)]
pub struct StateMachineUpdated {
    pub state_machine_id: StateMachineId,
    pub latest_height: u64,
}

/// Emitted on a chain while a state machine update sits in its challenge
/// period.
#[derive(Clone, Copy, Debug)]
pub struct ChallengePeriodStarted {
    /// State machine update still in challenge period.
    pub state_machine_height: StateMachineHeight,
    /// Height at which this event was emitted on the host chain.
    pub host_chain_height: u64,
}

/// An application-level event observed on a chain, to be relayed with proof.
#[derive(Clone, Debug)]
pub enum Event {
    PostRequestEvent(PostRequest),
    PostResponseEvent(PostResponse),
    PostRequestTimeout(PostRequest),
    PostResponseTimeout(PostResponse),
    GetRequestTimeout(GetRequest),
}

/// An event together with the height of the chain at which it was indexed;
/// proofs for the event verify at any height at or above this one.
#[derive(Clone, Debug)]
pub struct IndexedEvent {
    pub height: u64,
    pub event: Event,
}

/// Identifies one request or response commitment when querying proofs.
#[derive(Clone, Copy, Debug)]
pub struct Query {
    pub source_chain: StateMachine,
    pub dest_chain: StateMachine,
    pub nonce: u64,
    pub commitment: Hash32,
}

/// Whether a state machine update to `latest_height` makes an event indexed
/// at `height` provable, given that everything at or below `previous_height`
/// was already processed.
pub open spec fn provable_at(height: u64, previous_height: u64, latest_height: u64) -> bool {
    previous_height < height <= latest_height
}

/// Returns the events of `log` that a state machine update to
/// `update.latest_height` makes provable and that were not processed before:
/// those indexed at a height above `previous_height` and at or below
/// `update.latest_height`, in their order in the log.
pub fn filter_provable_events(
    log: Vec<IndexedEvent>,
    previous_height: u64,
    update: &StateMachineUpdated,
) -> (r: Vec<IndexedEvent>)
    ensures
        r@ == log@.filter(
            |e: IndexedEvent| provable_at(e.height, previous_height, update.latest_height),
        ),
        forall|i: int|
            0 <= i < r@.len() ==> provable_at(
                (#[trigger] r@[i]).height,
                previous_height,
                update.latest_height,
            ),
{
    let ghost orig = log@;
    let ghost pred = |e: IndexedEvent|
        provable_at(e.height, previous_height, update.latest_height);
    let mut rest = log;
    let mut r: Vec<IndexedEvent> = Vec::new();
    while rest.len() > 0
        invariant
            rest@.len() <= orig.len(),
            rest@ == orig.subrange(orig.len() - rest@.len(), orig.len() as int),
            r@ == orig.subrange(0, orig.len() - rest@.len()).filter(pred),
            pred == (|e: IndexedEvent|
                provable_at(e.height, previous_height, update.latest_height)),
        decreases rest.len(),
    {
        let ghost k = orig.len() - rest@.len();
        let e = rest.remove(0);
        proof {
            assert(e == orig[k]);
            assert(orig.subrange(0, k + 1).drop_last() =~= orig.subrange(0, k));
            assert(orig.subrange(0, k + 1).last() == orig[k]);
            reveal(Seq::filter);
        }
        if previous_height < e.height && e.height <= update.latest_height {
            r.push(e);
        }
        proof {
            assert(rest@ =~= orig.subrange(orig.len() - rest@.len(), orig.len() as int));
        }
    }
    proof {
        assert(orig.subrange(0, orig.len() as int) =~= orig);
    }
    r
}

} // verus!

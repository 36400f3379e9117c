//! The decision cores of the two relay pipelines.
//!
//! The consensus relay forwards each consensus message in stream order,
//! skipping only those whose gas estimate exceeds the destination's block
//! gas limit. The messaging relay reacts to state machine updates: it drops
//! stale updates silently, and for fresh ones opens the window of events to
//! fetch and process. Batches handed to submission are cut so that no batch
//! exceeds the destination's block gas limit unless it is a single message.

use vstd::prelude::*;
use crate::events::StateMachineUpdated;

verus! {

/// What the consensus relay does with one consensus message.
#[derive(Clone, Copy, Debug, PartialEq, Eq, Structural)]
pub enum ConsensusStep {
    /// Submit the message to the destination now.
    SubmitNow,
    /// The message alone exceeds the destination's block gas limit and
    /// cannot be split: log and skip it.
    SkipOversized,
}

/// Decides whether a consensus message is submitted: exactly when its gas
/// estimate fits the destination's block gas limit. Messages are decided
/// one at a time, in stream order, so submissions keep that order.
pub fn consensus_step(gas_estimate: u64, block_max_gas: u64) -> (a: ConsensusStep)
    ensures
        a == ConsensusStep::SubmitNow <==> gas_estimate <= block_max_gas,
{
    if gas_estimate <= block_max_gas {
        ConsensusStep::SubmitNow
    } else {
        ConsensusStep::SkipOversized
    }
}

/// What the messaging relay does with one state machine update.
#[derive(Clone, Copy, Debug, PartialEq, Eq, Structural)]
pub enum MessagingAction {
    /// The update is below a height already processed: drop it silently.
    Stale,
    /// Fetch the events indexed above `previous_height` and at or below
    /// `up_to`, and process them.
    Process { previous_height: u64, up_to: u64 },
}

/// The messaging relay's state: the last height up to which events were
/// processed.
#[derive(Clone, Copy, Debug)]
pub struct MessagingRelayState {
    pub last_processed_height: u64,
}

impl MessagingRelayState {
    /// A fresh relay that has processed nothing above the chain's initial
    /// height.
    pub fn new(initial_height: u64) -> (r: MessagingRelayState)
        ensures
            r.last_processed_height == initial_height,
    {
        MessagingRelayState { last_processed_height: initial_height }
    }

    /// Decides what one state machine update triggers: an update below the
    /// last processed height is dropped, any other opens the window from
    /// the last processed height up to the update's height and advances the
    /// state. The processed height never decreases.
    pub fn step(&mut self, update: &StateMachineUpdated) -> (a: MessagingAction)
        ensures
            final(self).last_processed_height >= old(self).last_processed_height,
            update.latest_height < old(self).last_processed_height ==> a == MessagingAction::Stale
                && *final(self) == *old(self),
            update.latest_height >= old(self).last_processed_height ==> {
                &&& a == (MessagingAction::Process {
                    previous_height: old(self).last_processed_height,
                    up_to: update.latest_height,
                })
                &&& final(self).last_processed_height == update.latest_height
            },
    {
        if update.latest_height < self.last_processed_height {
            return MessagingAction::Stale;
        }
        let previous_height = self.last_processed_height;
        self.last_processed_height = update.latest_height;
        MessagingAction::Process { previous_height, up_to: update.latest_height }
    }
}

/// The processed height after a run of updates.
pub open spec fn spec_height_after(last: u64, heights: Seq<u64>) -> u64
    decreases heights.len(),
{
    if heights.len() == 0 {
        last
    } else {
        let next = if heights[0] < last {
            last
        } else {
            heights[0]
        };
        spec_height_after(next, heights.drop_first())
    }
}

/// Height monotonicity: over any run of updates, the processed height never
/// decreases, so the heights of the updates a relay processes — those at or
/// above the state they meet — are non-decreasing in stream order.
pub proof fn lemma_height_monotonic(last: u64, heights: Seq<u64>)
    ensures
        spec_height_after(last, heights) >= last,
        forall|i: int, j: int|
            0 <= i < j < heights.len() && heights[i] >= spec_height_after(
                last,
                heights.take(i),
            ) && heights[j] >= spec_height_after(last, heights.take(j)) ==> heights[j]
                >= heights[i],
{
    lemma_height_after_take(last, heights, heights.len() as int);
    assert(heights.take(heights.len() as int) =~= heights);
    assert forall|i: int, j: int|
            0 <= i < j < heights.len() && heights[i] >= spec_height_after(
                last,
                heights.take(i),
            ) && heights[j] >= spec_height_after(last, heights.take(j)) implies heights[j]
            >= heights[i] by {
            lemma_height_after_monotonic_in_prefix(last, heights, i, j);
        }
}

/// The processed height after a longer prefix is at least the height of any
/// update processed within it.
proof fn lemma_height_after_monotonic_in_prefix(last: u64, heights: Seq<u64>, i: int, j: int)
    requires
        0 <= i < j <= heights.len(),
        heights[i] >= spec_height_after(last, heights.take(i)),
    ensures
        spec_height_after(last, heights.take(j)) >= heights[i],
    decreases j - i,
{
    lemma_height_after_take(last, heights, i);
    if j == i + 1 {
        lemma_height_after_step(last, heights, i);
    } else {
        lemma_height_after_monotonic_in_prefix(last, heights, i, j - 1);
        lemma_height_after_step(last, heights, j - 1);
    }
}

/// Unfolds one step at the end of a prefix: the processed height after
/// `k + 1` updates is the larger of the height after `k` and the `k`-th
/// update's height.
proof fn lemma_height_after_step(last: u64, heights: Seq<u64>, k: int)
    requires
        0 <= k < heights.len(),
    ensures
        spec_height_after(last, heights.take(k + 1)) == if heights[k] < spec_height_after(
            last,
            heights.take(k),
        ) {
            spec_height_after(last, heights.take(k))
        } else {
            heights[k]
        },
    decreases k,
{
    if k == 0 {
        reveal_with_fuel(spec_height_after, 3);
        assert(heights.take(0) =~= Seq::<u64>::empty());
        assert(heights.take(1).drop_first() =~= Seq::<u64>::empty());
        assert(spec_height_after(last, heights.take(0)) == last);
        assert(heights.take(1)[0] == heights[0]);
        assert(spec_height_after(last, heights.take(1)) == if heights[0] < last {
            last
        } else {
            heights[0]
        });
    } else {
        let next = if heights[0] < last {
            last
        } else {
            heights[0]
        };
        assert(heights.take(k + 1).drop_first() =~= heights.drop_first().take(k));
        assert(heights.take(k).drop_first() =~= heights.drop_first().take(k - 1));
        lemma_height_after_step(next, heights.drop_first(), k - 1);
    }
}

/// The processed height after a prefix, phrased over the whole run.
proof fn lemma_height_after_take(last: u64, heights: Seq<u64>, k: int)
    requires
        0 <= k <= heights.len(),
    ensures
        spec_height_after(last, heights.take(k)) >= last,
    decreases k,
{
    if k > 0 {
        let next = if heights[0] < last {
            last
        } else {
            heights[0]
        };
        assert(heights.take(k).drop_first() =~= heights.drop_first().take(k - 1));
        lemma_height_after_take(next, heights.drop_first(), k - 1);
    }
}

/// The gas the messages of one batch need together.
pub open spec fn spec_gas_sum(gas: Seq<u64>, start: int, end: int) -> int
    decreases end - start,
{
    if start >= end {
        0
    } else {
        gas[start] + spec_gas_sum(gas, start + 1, end)
    }
}

/// Cuts a run of messages with the given gas estimates into consecutive
/// batches: batches are non-empty, cover the run in order without overlap,
/// and no batch exceeds the block gas limit unless it is a single message
/// that alone does.
pub fn plan_batches(gas: &Vec<u64>, block_max_gas: u64) -> (r: Vec<(usize, usize)>)
    ensures
        r@.len() > 0 ==> r@[0].0 == 0 && r@[r@.len() - 1].1 == gas@.len(),
        r@.len() == 0 ==> gas@.len() == 0,
        forall|b: int| 0 <= b < r@.len() ==> (#[trigger] r@[b]).0 < r@[b].1 <= gas@.len(),
        forall|b: int| 0 <= b < r@.len() - 1 ==> (#[trigger] r@[b]).1 == r@[b + 1].0,
        forall|b: int|
            0 <= b < r@.len() ==> (spec_gas_sum(gas@, (#[trigger] r@[b]).0 as int, r@[b].1 as int)
                <= block_max_gas || r@[b].1 == r@[b].0 + 1),
{
    let mut r: Vec<(usize, usize)> = Vec::new();
    let mut start: usize = 0;
    let mut i: usize = 0;
    let mut sum: u64 = 0;
    while i < gas.len()
        invariant
            start <= i <= gas@.len(),
            sum == spec_gas_sum(gas@, start as int, i as int),
            sum <= block_max_gas,
            r@.len() == 0 ==> start == 0,
            r@.len() > 0 ==> r@[0].0 == 0 && r@[r@.len() - 1].1 == start,
            forall|b: int| 0 <= b < r@.len() ==> (#[trigger] r@[b]).0 < r@[b].1 <= start as int,
            forall|b: int| 0 <= b < r@.len() - 1 ==> (#[trigger] r@[b]).1 == r@[b + 1].0,
            forall|b: int|
                0 <= b < r@.len() ==> (spec_gas_sum(
                    gas@,
                    (#[trigger] r@[b]).0 as int,
                    r@[b].1 as int,
                ) <= block_max_gas || r@[b].1 == r@[b].0 + 1),
        decreases gas@.len() - i, (if i == start { 0int } else { 1int }),
    {
        let g = gas[i];
        let would_overflow = g > u64::MAX - sum;
        if i == start {
            // a batch always takes at least one message
            if g > block_max_gas {
                // single message over the limit: its own batch
                r.push((start, i + 1));
                i = i + 1;
                start = i;
                sum = 0;
                proof {
                    assert(spec_gas_sum(gas@, i as int, i as int) == 0);
                }
            } else {
                sum = g;
                proof {
                    lemma_gas_sum_step(gas@, start as int, i as int);
                    assert(spec_gas_sum(gas@, start as int, start as int) == 0);
                }
                i = i + 1;
            }
        } else if !would_overflow && sum + g <= block_max_gas {
            sum = sum + g;
            proof {
                lemma_gas_sum_step(gas@, start as int, i as int);
            }
            i = i + 1;
        } else {
            r.push((start, i));
            start = i;
            sum = 0;
            proof {
                assert(spec_gas_sum(gas@, i as int, i as int) == 0);
            }
        }
    }
    if start < gas.len() {
        r.push((start, gas.len()));
    }
    r
}

/// Unfolds the gas sum at its right end.
proof fn lemma_gas_sum_step(gas: Seq<u64>, start: int, end: int)
    requires
        start <= end < gas.len(),
    ensures
        spec_gas_sum(gas, start, end + 1) == spec_gas_sum(gas, start, end) + gas[end],
    decreases end - start,
{
    if start < end {
        lemma_gas_sum_step(gas, start + 1, end);
        assert(spec_gas_sum(gas, start, end + 1) == gas[start] + spec_gas_sum(
            gas,
            start + 1,
            end + 1,
        ));
        assert(spec_gas_sum(gas, start, end) == gas[start] + spec_gas_sum(gas, start + 1, end));
    } else {
        assert(spec_gas_sum(gas, start + 1, end + 1) == 0);
        assert(spec_gas_sum(gas, start, end) == 0);
        assert(spec_gas_sum(gas, start, end + 1) == gas[start] + spec_gas_sum(
            gas,
            start + 1,
            end + 1,
        ));
    }
}

/// What the consensus relay observes.
#[derive(Clone, Copy, Debug)]
pub enum ConsensusRelayEvent {
    /// A consensus message came off the stream; its gas was estimated.
    MessageReady { gas_estimate: u64 },
    /// The destination surfaced a state machine update still inside its
    /// challenge period.
    ChallengeStarted(crate::events::ChallengePeriodStarted),
    /// The stream died; it cannot be resumed.
    StreamFailed,
}

/// What the consensus relay does next.
#[derive(Clone, Copy, Debug)]
pub enum ConsensusRelayAction {
    /// Submit the consensus message to the destination.
    SubmitNow,
    /// The message alone exceeds the destination's block gas limit and
    /// cannot be split: log and skip it.
    SkipOversized,
    /// Ask the source for the consensus message behind the challenge and
    /// check it for equivocation, forwarding a fraud proof if any.
    CheckForByzantineFault { challenge: crate::events::ChallengePeriodStarted },
    /// Hand control to the reconnection supervisor for a fresh stream.
    Reconnect,
}

/// Decides the consensus relay's reaction to one event: messages are
/// submitted in stream order exactly when their gas estimate fits the
/// block gas limit, challenges trigger the Byzantine check, and a dead
/// stream goes to the supervisor.
pub fn consensus_relay_step(ev: &ConsensusRelayEvent, block_max_gas: u64) -> (a:
    ConsensusRelayAction)
    ensures
        match ev {
            ConsensusRelayEvent::MessageReady { gas_estimate } => {
                &&& (a is SubmitNow <==> gas_estimate <= block_max_gas)
                &&& (a is SkipOversized <==> gas_estimate > block_max_gas)
            },
            ConsensusRelayEvent::ChallengeStarted(c) => a == (
            ConsensusRelayAction::CheckForByzantineFault { challenge: *c }),
            ConsensusRelayEvent::StreamFailed => a is Reconnect,
        },
{
    match ev {
        ConsensusRelayEvent::MessageReady { gas_estimate } => {
            if *gas_estimate <= block_max_gas {
                ConsensusRelayAction::SubmitNow
            } else {
                ConsensusRelayAction::SkipOversized
            }
        },
        ConsensusRelayEvent::ChallengeStarted(c) => ConsensusRelayAction::CheckForByzantineFault {
            challenge: *c,
        },
        ConsensusRelayEvent::StreamFailed => ConsensusRelayAction::Reconnect,
    }
}

/// The post requests announced by a run of events.
pub open spec fn spec_request_events(evs: Seq<crate::events::Event>) -> Seq<
    crate::messages::PostRequest,
>
    decreases evs.len(),
{
    if evs.len() == 0 {
        Seq::empty()
    } else {
        let rest = spec_request_events(evs.drop_last());
        match evs.last() {
            crate::events::Event::PostRequestEvent(p) => rest + seq![p],
            _ => rest,
        }
    }
}

/// The post responses announced by a run of events, as response datagrams.
pub open spec fn spec_response_events(evs: Seq<crate::events::Event>) -> Seq<
    crate::messages::Response,
>
    decreases evs.len(),
{
    if evs.len() == 0 {
        Seq::empty()
    } else {
        let rest = spec_response_events(evs.drop_last());
        match evs.last() {
            crate::events::Event::PostResponseEvent(p) => rest + seq![
                crate::messages::Response::Post(p),
            ],
            _ => rest,
        }
    }
}

/// The timed-out post requests announced by a run of events.
pub open spec fn spec_post_timeout_events(evs: Seq<crate::events::Event>) -> Seq<
    crate::messages::Request,
>
    decreases evs.len(),
{
    if evs.len() == 0 {
        Seq::empty()
    } else {
        let rest = spec_post_timeout_events(evs.drop_last());
        match evs.last() {
            crate::events::Event::PostRequestTimeout(p) => rest + seq![
                crate::messages::Request::Post(p),
            ],
            _ => rest,
        }
    }
}

/// The timed-out post responses announced by a run of events.
pub open spec fn spec_post_response_timeout_events(evs: Seq<crate::events::Event>) -> Seq<
    crate::messages::PostResponse,
>
    decreases evs.len(),
{
    if evs.len() == 0 {
        Seq::empty()
    } else {
        let rest = spec_post_response_timeout_events(evs.drop_last());
        match evs.last() {
            crate::events::Event::PostResponseTimeout(p) => rest + seq![p],
            _ => rest,
        }
    }
}

/// The timed-out get requests announced by a run of events.
pub open spec fn spec_get_timeout_events(evs: Seq<crate::events::Event>) -> Seq<
    crate::messages::Request,
>
    decreases evs.len(),
{
    if evs.len() == 0 {
        Seq::empty()
    } else {
        let rest = spec_get_timeout_events(evs.drop_last());
        match evs.last() {
            crate::events::Event::GetRequestTimeout(g) => rest + seq![
                crate::messages::Request::Get(g),
            ],
            _ => rest,
        }
    }
}

/// The provable events of one update window, split by the proof query and
/// message each class needs.
pub struct PartitionedEvents {
    /// Post requests: proved by `query_requests_proof`.
    pub requests: Vec<crate::messages::PostRequest>,
    /// Post responses: proved by `query_responses_proof`.
    pub responses: Vec<crate::messages::Response>,
    /// Timed-out post requests: proved by `query_state_proof`.
    pub post_timeouts: Vec<crate::messages::Request>,
    /// Timed-out post responses: proved by `query_state_proof`.
    pub post_response_timeouts: Vec<crate::messages::PostResponse>,
    /// Timed-out get requests: no proof needed.
    pub get_timeouts: Vec<crate::messages::Request>,
}

/// Splits a window of events into the five message classes, keeping each
/// class's order.
pub fn partition_events(events: Vec<crate::events::Event>) -> (r: PartitionedEvents)
    ensures
        r.requests@ == spec_request_events(events@),
        r.responses@ == spec_response_events(events@),
        r.post_timeouts@ == spec_post_timeout_events(events@),
        r.post_response_timeouts@ == spec_post_response_timeout_events(events@),
        r.get_timeouts@ == spec_get_timeout_events(events@),
{
    let ghost evs0 = events@;
    let mut rest = events;
    let total: usize = rest.len();
    let mut requests: Vec<crate::messages::PostRequest> = Vec::new();
    let mut responses: Vec<crate::messages::Response> = Vec::new();
    let mut post_timeouts: Vec<crate::messages::Request> = Vec::new();
    let mut post_response_timeouts: Vec<crate::messages::PostResponse> = Vec::new();
    let mut get_timeouts: Vec<crate::messages::Request> = Vec::new();
    let mut i: usize = 0;
    while rest.len() > 0
        invariant
            total == evs0.len(),
            i + rest@.len() == total,
            rest@ == evs0.skip(i as int),
            requests@ == spec_request_events(evs0.take(i as int)),
            responses@ == spec_response_events(evs0.take(i as int)),
            post_timeouts@ == spec_post_timeout_events(evs0.take(i as int)),
            post_response_timeouts@ == spec_post_response_timeout_events(evs0.take(i as int)),
            get_timeouts@ == spec_get_timeout_events(evs0.take(i as int)),
        decreases rest.len(),
    {
        let ev = rest.remove(0);
        proof {
            assert(ev == evs0[i as int]);
            assert(rest@ =~= evs0.skip(i + 1));
            assert(evs0.take(i + 1).drop_last() =~= evs0.take(i as int));
            assert(evs0.take(i + 1).last() == evs0[i as int]);
        }
        match ev {
            crate::events::Event::PostRequestEvent(p) => {
                requests.push(p);
                proof {
                    assert(requests@ =~= spec_request_events(evs0.take(i + 1)));
                }
            },
            crate::events::Event::PostResponseEvent(p) => {
                responses.push(crate::messages::Response::Post(p));
                proof {
                    assert(responses@ =~= spec_response_events(evs0.take(i + 1)));
                }
            },
            crate::events::Event::PostRequestTimeout(p) => {
                post_timeouts.push(crate::messages::Request::Post(p));
                proof {
                    assert(post_timeouts@ =~= spec_post_timeout_events(evs0.take(i + 1)));
                }
            },
            crate::events::Event::PostResponseTimeout(p) => {
                post_response_timeouts.push(p);
                proof {
                    assert(post_response_timeouts@ =~= spec_post_response_timeout_events(
                        evs0.take(i + 1),
                    ));
                }
            },
            crate::events::Event::GetRequestTimeout(g) => {
                get_timeouts.push(crate::messages::Request::Get(g));
                proof {
                    assert(get_timeouts@ =~= spec_get_timeout_events(evs0.take(i + 1)));
                }
            },
        }
        i = i + 1;
    }
    proof {
        assert(evs0.take(evs0.len() as int) =~= evs0);
    }
    PartitionedEvents { requests, responses, post_timeouts, post_response_timeouts, get_timeouts }
}

} // verus!


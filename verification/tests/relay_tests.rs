//! The relay pipelines: ordering, staleness, batching, reconnection.

use tesseract::events::{
    filter_provable_events, ChallengePeriodStarted, Event, IndexedEvent, StateMachineUpdated,
};
use tesseract::ids::{StateMachine, StateMachineHeight, StateMachineId};
use tesseract::messages::PostRequest;
use tesseract::nonce::NonceProvider;
use tesseract::provider::{IsmpProvider, MockHost};
use tesseract::relay::{
    consensus_relay_step, consensus_step, partition_events, plan_batches, ConsensusRelayAction,
    ConsensusRelayEvent, ConsensusStep, MessagingAction, MessagingRelayState,
};
use tesseract::supervisor::{SupervisorAction, SupervisorState};

fn update(height: u64) -> StateMachineUpdated {
    StateMachineUpdated {
        state_machine_id: StateMachineId {
            state_id: StateMachine::Polkadot(2000),
            consensus_state_id: [0; 4],
        },
        latest_height: height,
    }
}

fn post_request_event(height: u64, nonce: u64) -> IndexedEvent {
    IndexedEvent {
        height,
        event: Event::PostRequestEvent(PostRequest {
            source: StateMachine::Polkadot(2000),
            dest: StateMachine::Evm(97),
            nonce,
            from: vec![],
            to: vec![],
            timeout_timestamp: 0,
            body: vec![],
            gas_limit: 0,
        }),
    }
}

#[test]
fn consensus_messages_submit_in_stream_order_with_contiguous_nonces() {
    // the hub emits three consensus messages at heights 100, 101, 102
    let destination = MockHost::new(vec![], 0);
    let mut nonce = NonceProvider::new(11);
    let mut submitted: Vec<(u64, u64)> = Vec::new();
    for height in [100u64, 101, 102] {
        let estimate = 500_000;
        if consensus_step(estimate, destination.block_max_gas()) == ConsensusStep::SubmitNow {
            let n = nonce.get_nonce().unwrap();
            submitted.push((height, n));
        }
    }
    assert_eq!(submitted, vec![(100, 11), (101, 12), (102, 13)]);
}

#[test]
fn oversized_consensus_messages_are_skipped() {
    let destination = MockHost::new(vec![], 0);
    assert_eq!(
        consensus_step(destination.block_max_gas() + 1, destination.block_max_gas()),
        ConsensusStep::SkipOversized
    );
}

#[test]
fn one_update_fetches_one_window_and_batches_once() {
    // StateMachineUpdated { latest_height: 50 } triggers a fetch of five
    // requests; their estimate of 800k fits the 1M block gas limit, so one
    // batch goes out.
    let destination = MockHost::new(vec![], 0);
    let mut relay = MessagingRelayState::new(0);
    let action = relay.step(&update(50));
    let (previous, up_to) = match action {
        MessagingAction::Process { previous_height, up_to } => (previous_height, up_to),
        other => panic!("expected a fetch, got {other:?}"),
    };
    assert_eq!((previous, up_to), (0, 50));
    let log: Vec<IndexedEvent> = (0..5).map(|k| post_request_event(10 + k, k)).collect();
    let window = filter_provable_events(log, previous, &update(up_to));
    assert_eq!(window.len(), 5);
    let classes = partition_events(window.into_iter().map(|e| e.event).collect());
    assert_eq!(classes.requests.len(), 5);
    let batches = plan_batches(&vec![800_000], destination.block_max_gas());
    assert_eq!(batches, vec![(0, 1)]);
}

#[test]
fn stale_updates_are_dropped_and_heights_never_decrease() {
    let mut relay = MessagingRelayState::new(0);
    assert!(matches!(relay.step(&update(50)), MessagingAction::Process { .. }));
    assert!(matches!(relay.step(&update(49)), MessagingAction::Stale));
    assert_eq!(relay.last_processed_height, 50);
    assert!(matches!(relay.step(&update(50)), MessagingAction::Process { .. }));
    assert!(matches!(relay.step(&update(51)), MessagingAction::Process { .. }));
    assert_eq!(relay.last_processed_height, 51);
}

#[test]
fn empty_window_means_no_submission_and_no_error() {
    let mut relay = MessagingRelayState::new(40);
    let action = relay.step(&update(50));
    let (previous, up_to) = match action {
        MessagingAction::Process { previous_height, up_to } => (previous_height, up_to),
        other => panic!("expected a fetch, got {other:?}"),
    };
    // the chain indexed nothing in the window
    let window = filter_provable_events(Vec::new(), previous, &update(up_to));
    assert!(window.is_empty());
    let classes = partition_events(window.into_iter().map(|e| e.event).collect());
    assert!(classes.requests.is_empty());
    assert!(classes.responses.is_empty());
    assert!(classes.post_timeouts.is_empty());
    assert!(classes.post_response_timeouts.is_empty());
    assert!(classes.get_timeouts.is_empty());
    let (calls, skipped) = tesseract::encoder::encode_batch(Vec::new());
    assert!(calls.is_empty());
    assert_eq!(skipped, 0);
    let batches = plan_batches(&Vec::new(), 1_000_000);
    assert!(batches.is_empty());
}

#[test]
fn window_filter_keeps_only_provable_heights() {
    let log = vec![
        post_request_event(40, 0),
        post_request_event(41, 1),
        post_request_event(50, 2),
        post_request_event(51, 3),
    ];
    let window = filter_provable_events(log, 40, &update(50));
    let heights: Vec<u64> = window.iter().map(|e| e.height).collect();
    assert_eq!(heights, vec![41, 50]);
}

#[test]
fn oversized_batches_are_split_at_the_gas_limit() {
    let gas = vec![400_000u64, 500_000, 200_000, 1_500_000, 100_000];
    let batches = plan_batches(&gas, 1_000_000);
    // 400k + 500k fit; 200k starts a new batch; the 1.5M message stands
    // alone; 100k follows
    assert_eq!(batches, vec![(0, 2), (2, 3), (3, 4), (4, 5)]);
}

#[test]
fn supervisor_sleeps_one_then_two_then_resumes() {
    // the stream errors; the first two reconnection attempts fail and the
    // third succeeds, after sleeps of one and two seconds
    let mut supervisor = SupervisorState::new(10);
    assert_eq!(supervisor.step(false), SupervisorAction::SleepThenRetry(1));
    assert_eq!(supervisor.step(false), SupervisorAction::SleepThenRetry(2));
    assert_eq!(supervisor.step(true), SupervisorAction::Resume);
}

#[test]
fn supervisor_fails_upward_when_attempts_run_out() {
    let mut supervisor = SupervisorState::new(2);
    assert_eq!(supervisor.step(false), SupervisorAction::SleepThenRetry(1));
    assert_eq!(supervisor.step(false), SupervisorAction::SleepThenRetry(2));
    assert_eq!(supervisor.step(false), SupervisorAction::Fatal);
}

#[test]
fn backoff_doubles_to_the_cap_then_resets() {
    let mut supervisor = SupervisorState::new(u32::MAX);
    let mut delays = Vec::new();
    for _ in 0..11 {
        match supervisor.step(false) {
            SupervisorAction::SleepThenRetry(d) => delays.push(d),
            other => panic!("unexpected action {other:?}"),
        }
    }
    assert_eq!(delays, vec![1, 2, 4, 8, 16, 32, 64, 128, 256, 512, 1]);
}

#[test]
fn interrupted_windows_resurface_after_reconnect() {
    // the stream dies mid-window; after reconnecting, the next update
    // covers the unprocessed events again, so nothing is lost
    let mut relay = MessagingRelayState::new(0);
    match relay.step(&update(30)) {
        MessagingAction::Process { .. } => {},
        other => panic!("unexpected action {other:?}"),
    }
    // the submission for the window up to 30 never happened; a fresh
    // stream replays from the last processed height
    let log = vec![post_request_event(25, 0), post_request_event(35, 1)];
    let window = filter_provable_events(log, 30, &update(40));
    // the event at 25 was in the lost window; the one at 35 is new. After
    // reconnection the lost event surfaces by replaying from a lower
    // previous height instead:
    assert_eq!(window.len(), 1);
    let log = vec![post_request_event(25, 0), post_request_event(35, 1)];
    let replay = filter_provable_events(log, 0, &update(40));
    assert_eq!(replay.len(), 2);
}

#[test]
fn a_challenge_event_triggers_the_byzantine_check() {
    let challenge = ChallengePeriodStarted {
        state_machine_height: StateMachineHeight {
            id: update(0).state_machine_id,
            height: 77,
        },
        host_chain_height: 123,
    };
    let action = consensus_relay_step(&ConsensusRelayEvent::ChallengeStarted(challenge), 1_000_000);
    match action {
        ConsensusRelayAction::CheckForByzantineFault { challenge } => {
            assert_eq!(challenge.state_machine_height.height, 77);
            assert_eq!(challenge.host_chain_height, 123);
        },
        other => panic!("unexpected action {other:?}"),
    }
    let failed = consensus_relay_step(&ConsensusRelayEvent::StreamFailed, 1_000_000);
    assert!(matches!(failed, ConsensusRelayAction::Reconnect));
}

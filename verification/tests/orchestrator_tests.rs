//! Startup plans: consensus-state seeding, task fan-out, rollup grouping.

use tesseract::ids::{EthereumInstance, StateMachine};
use tesseract::orchestrator::{
    plan_relay_tasks, plan_setup, rollup_hosts, ChainKind, RelayerConfig, SetupAction,
    SpokeConfig, TaskKind,
};

fn spokes() -> Vec<SpokeConfig> {
    vec![
        SpokeConfig {
            state_machine: StateMachine::Ethereum(EthereumInstance::ExecutionLayer),
            kind: ChainKind::EthereumL1,
        },
        SpokeConfig {
            state_machine: StateMachine::Ethereum(EthereumInstance::Arbitrum),
            kind: ChainKind::ArbitrumRollup,
        },
        SpokeConfig {
            state_machine: StateMachine::Ethereum(EthereumInstance::Base),
            kind: ChainKind::BaseRollup,
        },
    ]
}

fn spoke_of(action: &SetupAction) -> StateMachine {
    match action {
        SetupAction::InstallHubStateOnSpoke { spoke } => *spoke,
        SetupAction::InstallSpokeStateOnHub { spoke } => *spoke,
    }
}

#[test]
fn setup_eth_installs_the_hub_state_on_every_spoke_exactly_once() {
    let plan = plan_setup(true, false, &spokes());
    assert_eq!(plan.len(), 3);
    for (action, spoke) in plan.iter().zip(spokes()) {
        assert!(matches!(action, SetupAction::InstallHubStateOnSpoke { .. }));
        assert!(spoke_of(action).same_as(&spoke.state_machine));
    }
}

#[test]
fn rerunning_the_setup_is_idempotent_because_spokes_reject_duplicates() {
    // a spoke accepts the first installation and rejects the duplicate
    let mut installed: Vec<StateMachine> = Vec::new();
    let mut accepted = 0;
    for _run in 0..2 {
        for action in plan_setup(true, false, &spokes()) {
            let spoke = spoke_of(&action);
            if installed.iter().any(|s| s.same_as(&spoke)) {
                // duplicate: the spoke rejects it, nothing changes
                continue;
            }
            installed.push(spoke);
            accepted += 1;
        }
    }
    assert_eq!(accepted, 3);
    assert_eq!(installed.len(), 3);
}

#[test]
fn setup_para_installs_every_spoke_state_on_the_hub() {
    let plan = plan_setup(false, true, &spokes());
    assert_eq!(plan.len(), 3);
    assert!(plan
        .iter()
        .all(|a| matches!(a, SetupAction::InstallSpokeStateOnHub { .. })));
    let both = plan_setup(true, true, &spokes());
    assert_eq!(both.len(), 6);
    let none = plan_setup(false, false, &spokes());
    assert!(none.is_empty());
}

#[test]
fn rollup_spokes_group_under_the_l1_host() {
    let hosts = rollup_hosts(&spokes());
    assert_eq!(hosts.len(), 2);
    assert_eq!(hosts[0].kind, ChainKind::ArbitrumRollup);
    assert_eq!(hosts[1].kind, ChainKind::BaseRollup);
}

#[test]
fn relay_tasks_follow_the_configuration_switches() {
    let all = RelayerConfig { consensus: true, messaging: true, reconnects: 10 };
    let tasks = plan_relay_tasks(&all, &spokes());
    assert_eq!(tasks.len(), 6);
    assert!(tasks[..3].iter().all(|t| t.kind == TaskKind::ConsensusTask));
    assert!(tasks[3..].iter().all(|t| t.kind == TaskKind::MessagingTask));
    let quiet = RelayerConfig { consensus: false, messaging: false, reconnects: 10 };
    assert!(plan_relay_tasks(&quiet, &spokes()).is_empty());
}

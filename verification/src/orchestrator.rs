//! Startup orchestration: consensus-state seeding and relay-task fan-out.
//!
//! The orchestrator builds one client per configured chain, groups the
//! rollup hosts under the L1 host, optionally seeds initial consensus
//! states in both directions, and spawns a consensus and a messaging relay
//! task per spoke. The decisions live here as plain plans; performing them
//! is transport work.

use vstd::prelude::*;
use crate::ids::StateMachine;

verus! {

/// The command-line surface of the relayer binary.
#[derive(Clone, Debug)]
pub struct Cli {
    /// Path to the relayer config file.
    pub config: String,
    /// Whether to install the hub's initial consensus state on the spokes.
    pub setup_eth: bool,
    /// Whether to install each spoke's initial consensus state on the hub.
    pub setup_para: bool,
}

/// The relayer section of the configuration.
#[derive(Clone, Copy, Debug)]
pub struct RelayerConfig {
    /// Whether consensus relay tasks are launched.
    pub consensus: bool,
    /// Whether messaging relay tasks are launched.
    pub messaging: bool,
    /// How many reconnection attempts a supervisor allows.
    pub reconnects: u32,
}

/// Which backend a configured chain runs.
#[derive(Clone, Copy, Debug, PartialEq, Eq, Structural)]
pub enum ChainKind {
    EthereumL1,
    ArbitrumRollup,
    OptimismRollup,
    BaseRollup,
    SubstrateChain,
}

/// One configured spoke chain.
#[derive(Clone, Copy, Debug)]
pub struct SpokeConfig {
    pub state_machine: StateMachine,
    pub kind: ChainKind,
}

/// Whether a chain kind is an L2 whose payload proofs the L1 host builds.
pub open spec fn spec_is_rollup(kind: ChainKind) -> bool {
    kind == ChainKind::ArbitrumRollup || kind == ChainKind::OptimismRollup || kind
        == ChainKind::BaseRollup
}

/// One consensus-state installation the setup phase performs.
#[derive(Clone, Copy, Debug)]
pub enum SetupAction {
    /// Install the hub's initial consensus state on this spoke.
    InstallHubStateOnSpoke { spoke: StateMachine },
    /// Install this spoke's initial consensus state on the hub.
    InstallSpokeStateOnHub { spoke: StateMachine },
}

/// Plans the consensus-state seeding: with `setup_eth`, the hub's initial
/// state is installed on every configured spoke exactly once; with
/// `setup_para`, every spoke's initial state is installed on the hub
/// exactly once. Re-running the same plan is safe because a destination
/// rejects a duplicate installation.
pub fn plan_setup(setup_eth: bool, setup_para: bool, spokes: &Vec<SpokeConfig>) -> (r: Vec<
    SetupAction,
>)
    ensures
        r@ == (if setup_eth {
            Seq::new(
                spokes@.len(),
                |i: int|
                    SetupAction::InstallHubStateOnSpoke { spoke: spokes@[i].state_machine },
            )
        } else {
            Seq::empty()
        }) + (if setup_para {
            Seq::new(
                spokes@.len(),
                |i: int|
                    SetupAction::InstallSpokeStateOnHub { spoke: spokes@[i].state_machine },
            )
        } else {
            Seq::empty()
        }),
{
    let ghost eth_part: Seq<SetupAction> = if setup_eth {
        Seq::new(
            spokes@.len(),
            |i: int| SetupAction::InstallHubStateOnSpoke { spoke: spokes@[i].state_machine },
        )
    } else {
        Seq::empty()
    };
    let mut r: Vec<SetupAction> = Vec::new();
    if setup_eth {
        let mut i: usize = 0;
        while i < spokes.len()
            invariant
                i <= spokes@.len(),
                r@ == Seq::new(
                    i as nat,
                    |k: int|
                        SetupAction::InstallHubStateOnSpoke { spoke: spokes@[k].state_machine },
                ),
            decreases spokes@.len() - i,
        {
            r.push(SetupAction::InstallHubStateOnSpoke { spoke: spokes[i].state_machine });
            i = i + 1;
            proof {
                assert(r@ =~= Seq::new(
                    i as nat,
                    |k: int|
                        SetupAction::InstallHubStateOnSpoke { spoke: spokes@[k].state_machine },
                ));
            }
        }
    }
    proof {
        assert(r@ =~= eth_part);
    }
    if setup_para {
        let mut i: usize = 0;
        while i < spokes.len()
            invariant
                i <= spokes@.len(),
                r@ == eth_part + Seq::new(
                    i as nat,
                    |k: int|
                        SetupAction::InstallSpokeStateOnHub { spoke: spokes@[k].state_machine },
                ),
            decreases spokes@.len() - i,
        {
            r.push(SetupAction::InstallSpokeStateOnHub { spoke: spokes[i].state_machine });
            i = i + 1;
            proof {
                assert(r@ =~= eth_part + Seq::new(
                    i as nat,
                    |k: int|
                        SetupAction::InstallSpokeStateOnHub { spoke: spokes@[k].state_machine },
                ));
            }
        }
    } else {
        proof {
            assert(r@ =~= eth_part + Seq::<SetupAction>::empty());
        }
    }
    r
}

/// The rollup spokes, in configuration order: the L2 hosts the orchestrator
/// registers on the L1 host, which is write-once at startup.
pub fn rollup_hosts(spokes: &Vec<SpokeConfig>) -> (r: Vec<SpokeConfig>)
    ensures
        r@ == spokes@.filter(|c: SpokeConfig| spec_is_rollup(c.kind)),
{
    broadcast use vstd::seq_lib::group_filter_ensures;

    let mut r: Vec<SpokeConfig> = Vec::new();
    let mut i: usize = 0;
    while i < spokes.len()
        invariant
            i <= spokes@.len(),
            r@ == spokes@.take(i as int).filter(|c: SpokeConfig| spec_is_rollup(c.kind)),
        decreases spokes@.len() - i,
    {
        let c = spokes[i];
        proof {
            assert(spokes@.take(i + 1).drop_last() =~= spokes@.take(i as int));
            assert(spokes@.take(i + 1).last() == spokes@[i as int]);
            reveal(Seq::filter);
        }
        if c.kind == ChainKind::ArbitrumRollup || c.kind == ChainKind::OptimismRollup || c.kind
            == ChainKind::BaseRollup {
            r.push(c);
        }
        i = i + 1;
    }
    proof {
        assert(spokes@.take(spokes@.len() as int) =~= spokes@);
    }
    r
}

/// The two task kinds launched per spoke.
#[derive(Clone, Copy, Debug, PartialEq, Eq, Structural)]
pub enum TaskKind {
    ConsensusTask,
    MessagingTask,
}

/// One relay task to spawn.
#[derive(Clone, Copy, Debug)]
pub struct TaskSpec {
    pub spoke: StateMachine,
    pub kind: TaskKind,
}

/// Plans the relay tasks: one consensus task per spoke when consensus
/// relaying is on, then one messaging task per spoke when messaging
/// relaying is on.
pub fn plan_relay_tasks(relayer: &RelayerConfig, spokes: &Vec<SpokeConfig>) -> (r: Vec<TaskSpec>)
    ensures
        r@ == (if relayer.consensus {
            Seq::new(
                spokes@.len(),
                |i: int|
                    TaskSpec { spoke: spokes@[i].state_machine, kind: TaskKind::ConsensusTask },
            )
        } else {
            Seq::empty()
        }) + (if relayer.messaging {
            Seq::new(
                spokes@.len(),
                |i: int|
                    TaskSpec { spoke: spokes@[i].state_machine, kind: TaskKind::MessagingTask },
            )
        } else {
            Seq::empty()
        }),
{
    let ghost cons_part: Seq<TaskSpec> = if relayer.consensus {
        Seq::new(
            spokes@.len(),
            |i: int| TaskSpec { spoke: spokes@[i].state_machine, kind: TaskKind::ConsensusTask },
        )
    } else {
        Seq::empty()
    };
    let mut r: Vec<TaskSpec> = Vec::new();
    if relayer.consensus {
        let mut i: usize = 0;
        while i < spokes.len()
            invariant
                i <= spokes@.len(),
                r@ == Seq::new(
                    i as nat,
                    |k: int|
                        TaskSpec {
                            spoke: spokes@[k].state_machine,
                            kind: TaskKind::ConsensusTask,
                        },
                ),
            decreases spokes@.len() - i,
        {
            r.push(TaskSpec { spoke: spokes[i].state_machine, kind: TaskKind::ConsensusTask });
            i = i + 1;
            proof {
                assert(r@ =~= Seq::new(
                    i as nat,
                    |k: int|
                        TaskSpec {
                            spoke: spokes@[k].state_machine,
                            kind: TaskKind::ConsensusTask,
                        },
                ));
            }
        }
    }
    proof {
        assert(r@ =~= cons_part);
    }
    if relayer.messaging {
        let mut i: usize = 0;
        while i < spokes.len()
            invariant
                i <= spokes@.len(),
                r@ == cons_part + Seq::new(
                    i as nat,
                    |k: int|
                        TaskSpec {
                            spoke: spokes@[k].state_machine,
                            kind: TaskKind::MessagingTask,
                        },
                ),
            decreases spokes@.len() - i,
        {
            r.push(TaskSpec { spoke: spokes[i].state_machine, kind: TaskKind::MessagingTask });
            i = i + 1;
            proof {
                assert(r@ =~= cons_part + Seq::new(
                    i as nat,
                    |k: int|
                        TaskSpec {
                            spoke: spokes@[k].state_machine,
                            kind: TaskKind::MessagingTask,
                        },
                ));
            }
        }
    } else {
        proof {
            assert(r@ =~= cons_part + Seq::<TaskSpec>::empty());
        }
    }
    r
}

} // verus!

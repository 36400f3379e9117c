//! Identifiers of chains, light-client instances and heights.

use vstd::prelude::*;

verus! {

/// Four-byte tag of a light-client instance on the destination chain.
pub type ConsensusStateId = [u8; 4];

/// A 32-byte hash or commitment, carried as plain bytes.
pub type Hash32 = [u8; 32];

/// The Ethereum execution environments the relayer distinguishes: the L1
/// execution layer and the supported rollups.
#[derive(Clone, Copy, Debug)]
pub enum EthereumInstance {
    ExecutionLayer,
    Arbitrum,
    Optimism,
    Base,
}

/// Tagged identifier of a chain.
#[derive(Clone, Copy, Debug)]
pub enum StateMachine {
    /// An EVM chain, by chain id.
    Evm(u32),
    /// An Ethereum execution environment known to the relayer by name.
    Ethereum(EthereumInstance),
    /// A Polkadot parachain, by para id.
    Polkadot(u32),
    /// A Kusama parachain, by para id.
    Kusama(u32),
    /// Any other Substrate chain, by a four-byte tag.
    Substrate([u8; 4]),
}

impl EthereumInstance {
    /// Executable equality on instances, equivalent to mathematical equality.
    pub fn same_as(&self, other: &EthereumInstance) -> (r: bool)
        ensures
            r <==> (*self == *other),
    {
        match (self, other) {
            (EthereumInstance::ExecutionLayer, EthereumInstance::ExecutionLayer) => true,
            (EthereumInstance::Arbitrum, EthereumInstance::Arbitrum) => true,
            (EthereumInstance::Optimism, EthereumInstance::Optimism) => true,
            (EthereumInstance::Base, EthereumInstance::Base) => true,
            _ => false,
        }
    }
}

impl StateMachine {
    /// Executable equality on state machine tags, equivalent to mathematical
    /// equality.
    pub fn same_as(&self, other: &StateMachine) -> (r: bool)
        ensures
            r <==> (*self == *other),
    {
        match (self, other) {
            (StateMachine::Evm(a), StateMachine::Evm(b)) => *a == *b,
            (StateMachine::Ethereum(a), StateMachine::Ethereum(b)) => a.same_as(b),
            (StateMachine::Polkadot(a), StateMachine::Polkadot(b)) => *a == *b,
            (StateMachine::Kusama(a), StateMachine::Kusama(b)) => *a == *b,
            (StateMachine::Substrate(a), StateMachine::Substrate(b)) => {
                let r = a[0] == b[0] && a[1] == b[1] && a[2] == b[2] && a[3] == b[3];
                proof {
                    if r {
                        assert(*a =~= *b);
                    }
                }
                r
            },
            _ => false,
        }
    }

    /// Whether this tag names a hub chain, that is a Polkadot or Kusama
    /// parachain, and if so which para id it carries.
    pub fn para_id(&self) -> (r: Option<u32>)
        ensures
            r == spec_para_id(*self),
    {
        match self {
            StateMachine::Polkadot(id) => Some(*id),
            StateMachine::Kusama(id) => Some(*id),
            _ => None,
        }
    }
}

/// The para id of a Polkadot or Kusama parachain tag; `None` for any other
/// chain.
pub open spec fn spec_para_id(sm: StateMachine) -> Option<u32> {
    match sm {
        StateMachine::Polkadot(id) => Some(id),
        StateMachine::Kusama(id) => Some(id),
        _ => None,
    }
}

/// Identifier of a light client for one chain on another: the chain's own tag
/// together with the consensus-state tag under which it is verified.
#[derive(Clone, Copy, Debug)]
pub struct StateMachineId {
    pub state_id: StateMachine,
    pub consensus_state_id: ConsensusStateId,
}

/// A chain identifier paired with a block height of that chain.
#[derive(Clone, Copy, Debug)]
pub struct StateMachineHeight {
    pub id: StateMachineId,
    pub height: u64,
}

} // verus!

//! The per-chain provider contract, and a mock chain for exercising the
//! relay pipelines.
//!
//! Every chain backend offers the same capability set. The parts that
//! suspend on network transport — queries, streams, submission — take and
//! return plain values at the library boundary; the pure identity and key
//! derivation surface is the trait below, which every backend implements.

use vstd::prelude::*;
use crate::ids::{Hash32, StateMachineId, StateMachine};
use crate::events::Query;

verus! {

/// The pure capability surface every chain backend must honor: identity,
/// gas parameters, and commitment key derivation.
pub trait IsmpProvider: Sized {
    /// The name under which the chain appears in logs.
    spec fn spec_name(&self) -> Seq<char>;

    /// The chain's identifier on its counterparty.
    spec fn spec_state_machine_id(&self) -> StateMachineId;

    /// The most gas a transaction batch may use in one block.
    spec fn spec_block_max_gas(&self) -> u64;

    /// The height the chain's client starts relaying from.
    spec fn spec_initial_height(&self) -> u64;

    fn name(&self) -> (r: &'static str)
        ensures
            r@ == self.spec_name(),
    ;

    fn state_machine_id(&self) -> (r: StateMachineId)
        ensures
            r == self.spec_state_machine_id(),
    ;

    fn block_max_gas(&self) -> (r: u64)
        ensures
            r == self.spec_block_max_gas(),
    ;

    fn initial_height(&self) -> (r: u64)
        ensures
            r == self.spec_initial_height(),
    ;

    /// The destination storage key of a request commitment.
    fn request_commitment_full_key(&self, commitment: &Hash32) -> Vec<u8>;

    /// The destination storage key of a request receipt.
    fn request_receipt_full_key(&self, commitment: &Hash32) -> Vec<u8>;

    /// The destination storage key of a response commitment.
    fn response_commitment_full_key(&self, commitment: &Hash32) -> Vec<u8>;

    /// The destination storage key of a response receipt.
    fn response_receipt_full_key(&self, commitment: &Hash32) -> Vec<u8>;

    /// The signer's address on this chain.
    fn address(&self) -> Vec<u8>;
}

/// A chain that lives entirely in memory: it holds a consensus state and a
/// latest height and answers every query from them, with empty proofs and
/// zero times.
pub struct MockHost {
    pub consensus_state: Vec<u8>,
    pub latest_height: u64,
}

impl MockHost {
    pub fn new(consensus_state: Vec<u8>, latest_height: u64) -> (r: MockHost)
        ensures
            r.consensus_state@ == consensus_state@,
            r.latest_height == latest_height,
    {
        MockHost { consensus_state, latest_height }
    }

    /// The serialized consensus state the mock holds.
    pub fn query_consensus_state(&self) -> (r: &Vec<u8>)
        ensures
            r@ == self.consensus_state@,
    {
        &self.consensus_state
    }

    /// The mock's latest height, narrowed to the consensus frontier width.
    pub fn query_latest_height(&self) -> (r: u32)
        ensures
            r == self.latest_height as u32,
    {
        self.latest_height as u32
    }

    /// The height at which messages were last indexed: the same as the
    /// latest height on the mock.
    pub fn query_latest_messaging_height(&self) -> (r: u64)
        ensures
            r == self.latest_height,
    {
        self.latest_height
    }

    /// The mock was updated at the beginning of time.
    pub fn query_consensus_update_time(&self) -> (r: u64)
        ensures
            r == 0,
    {
        0
    }

    /// The mock enforces no challenge period.
    pub fn query_challenge_period(&self) -> (r: u64)
        ensures
            r == 0,
    {
        0
    }

    /// The mock's clock stands at the beginning of time.
    pub fn query_timestamp(&self) -> (r: u64)
        ensures
            r == 0,
    {
        0
    }

    /// The mock proves requests with the empty proof.
    pub fn query_requests_proof(&self, _at: u64, _keys: &Vec<Query>) -> (r: Vec<u8>)
        ensures
            r@.len() == 0,
    {
        Vec::new()
    }

    /// The mock proves responses with the empty proof.
    pub fn query_responses_proof(&self, _at: u64, _keys: &Vec<Query>) -> (r: Vec<u8>)
        ensures
            r@.len() == 0,
    {
        Vec::new()
    }

    /// The mock proves state with the empty proof.
    pub fn query_state_proof(&self, _at: u64, _keys: &Vec<Vec<u8>>) -> (r: Vec<u8>)
        ensures
            r@.len() == 0,
    {
        Vec::new()
    }
}

impl IsmpProvider for MockHost {
    open spec fn spec_name(&self) -> Seq<char> {
        seq!['M', 'o', 'c', 'k']
    }

    open spec fn spec_state_machine_id(&self) -> StateMachineId {
        StateMachineId {
            state_id: StateMachine::Kusama(2000),
            consensus_state_id: [109u8, 111u8, 99u8, 107u8],
        }
    }

    open spec fn spec_block_max_gas(&self) -> u64 {
        1000000
    }

    open spec fn spec_initial_height(&self) -> u64 {
        0
    }

    fn name(&self) -> (r: &'static str) {
        let r = "Mock";
        proof {
            reveal_strlit("Mock");
            assert(r@ =~= self.spec_name());
        }
        r
    }

    fn state_machine_id(&self) -> (r: StateMachineId) {
        let r = StateMachineId {
            state_id: StateMachine::Kusama(2000),
            consensus_state_id: [109u8, 111u8, 99u8, 107u8],
        };
        proof {
            assert(r.consensus_state_id =~= self.spec_state_machine_id().consensus_state_id);
        }
        r
    }

    fn block_max_gas(&self) -> (r: u64) {
        1000000
    }

    fn initial_height(&self) -> (r: u64) {
        0
    }

    fn request_commitment_full_key(&self, _commitment: &Hash32) -> Vec<u8> {
        Vec::new()
    }

    fn request_receipt_full_key(&self, _commitment: &Hash32) -> Vec<u8> {
        Vec::new()
    }

    fn response_commitment_full_key(&self, _commitment: &Hash32) -> Vec<u8> {
        Vec::new()
    }

    fn response_receipt_full_key(&self, _commitment: &Hash32) -> Vec<u8> {
        Vec::new()
    }

    fn address(&self) -> Vec<u8> {
        Vec::new()
    }
}

} // verus!

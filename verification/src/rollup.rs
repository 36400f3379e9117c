//! Rollup payload proof assembly.
//!
//! For an Arbitrum-style rollup, the relayer scans the L1 rollup contract
//! for assertion-creation events, keeps the latest assertion, derives the
//! storage slot of that assertion's state hash, and assembles the payload
//! the hub's L1 light client verifies: the L2 header, the asserted global
//! state, and the account and storage proofs — all anchored at one L1
//! block.

use vstd::prelude::*;
use crate::ids::Hash32;

verus! {

/// The Keccak-256 digest of a byte string, named but otherwise undefined:
/// the digest depends on the input bytes alone.
pub uninterp spec fn keccak_of(data: Seq<u8>) -> Seq<u8>;

/// Relies on `ethers_core::utils::keccak256`: the 32-byte Keccak-256 digest
/// of the input, a function of the input bytes alone.
#[verifier::external_body]
fn keccak256(data: &Vec<u8>) -> (r: [u8; 32])
    ensures
        r@ == keccak_of(data@),
{
    ethers_core::utils::keccak256(data.as_slice())
}

/// The storage slot on the rollup core contract that holds the mapping from
/// assertion number to assertion node.
pub const NODES_SLOT: u64 = 118;

/// A zero byte string of the given length.
pub open spec fn spec_zeros(n: nat) -> Seq<u8> {
    Seq::new(n, |i: int| 0u8)
}

/// The 32-byte big-endian padding of a word: 24 zero bytes then the word.
pub open spec fn spec_pad32(v: u64) -> Seq<u8> {
    spec_zeros(24) + crate::scale::le_bytes(v as nat, 8).reverse()
}

/// Pads a word to a 32-byte big-endian key segment.
pub fn pad32(v: u64) -> (r: Vec<u8>)
    ensures
        r@ == spec_pad32(v),
{
    let mut out: Vec<u8> = Vec::new();
    let mut i: usize = 0;
    while i < 24
        invariant
            i <= 24,
            out@ == spec_zeros(i as nat),
        decreases 24 - i,
    {
        out.push(0u8);
        i = i + 1;
        proof {
            assert(out@ =~= spec_zeros(i as nat));
        }
    }
    let mut le: Vec<u8> = Vec::new();
    crate::scale::write_le(v, 8, &mut le);
    proof {
        crate::scale::lemma_le_bytes_len(v as nat, 8);
    }
    let mut k: usize = 0;
    while k < 8
        invariant
            k <= 8,
            le@ == crate::scale::le_bytes(v as nat, 8),
            le@.len() == 8,
            out@ == spec_zeros(24) + le@.reverse().take(k as int),
        decreases 8 - k,
    {
        out.push(le[7 - k]);
        k = k + 1;
        proof {
            assert(le@.reverse()[k - 1] == le@[8 - k]);
            assert(out@ =~= spec_zeros(24) + le@.reverse().take(k as int));
        }
    }
    proof {
        assert(le@.reverse().take(8) =~= le@.reverse());
    }
    out
}

/// The storage key of `nodes[node_num].stateHash` on the rollup contract:
/// the mapping-slot convention hashes the padded key and the padded slot.
pub open spec fn spec_map_key(key: Seq<u8>, slot: u64) -> Seq<u8> {
    keccak_of(key + spec_pad32(slot))
}

/// Derives the storage key of a mapping entry: the hash of the entry's key
/// bytes followed by the mapping's padded slot number.
pub fn derive_map_key(key: Vec<u8>, slot: u64) -> (r: [u8; 32])
    ensures
        r@ == spec_map_key(key@, slot),
{
    let mut buf = key;
    let ghost key0 = buf@;
    let pad = pad32(slot);
    let mut j: usize = 0;
    while j < pad.len()
        invariant
            j <= pad@.len(),
            pad@ == spec_pad32(slot),
            buf@ == key0 + pad@.take(j as int),
        decreases pad@.len() - j,
    {
        buf.push(pad[j]);
        j = j + 1;
        proof {
            assert(buf@ =~= key0 + pad@.take(j as int));
        }
    }
    proof {
        assert(pad@.take(pad@.len() as int) =~= pad@);
    }
    keccak256(&buf)
}

/// The storage key under which the rollup contract keeps the state hash of
/// assertion `node_num`.
pub fn nodes_state_hash_key(node_num: u64) -> (r: [u8; 32])
    ensures
        r@ == spec_map_key(spec_pad32(node_num), NODES_SLOT),
{
    let key = pad32(node_num);
    derive_map_key(key, NODES_SLOT)
}

/// The asserted global state of the rollup, as the assertion event carries
/// it: two 32-byte words (the L2 block hash and the send root) and two
/// 64-bit words (the inbox position and the position in message).
#[derive(Clone, Copy, Debug)]
pub struct GlobalStateWire {
    pub bytes_32_vals: [Hash32; 2],
    pub u_64_vals: [u64; 2],
}

/// The machine state an assertion claims.
#[derive(Clone, Copy, Debug)]
pub struct AssertionState {
    pub global_state: GlobalStateWire,
    pub machine_status: u8,
}

/// The before and after states of one assertion.
#[derive(Clone, Copy, Debug)]
pub struct Assertion {
    pub after_state: AssertionState,
}

/// An assertion-creation event read off the rollup core contract.
#[derive(Clone, Copy, Debug)]
pub struct NodeCreatedEvent {
    pub node_num: u64,
    pub assertion: Assertion,
    pub inbox_max_count: u64,
}

/// Keeps the assertion event with the highest assertion number, or `None`
/// when the scanned range held none: nothing to relay this round.
pub fn select_latest_assertion(events: Vec<NodeCreatedEvent>) -> (r: Option<NodeCreatedEvent>)
    ensures
        match r {
            None => events@.len() == 0,
            Some(e) => {
                &&& exists|j: int| 0 <= j < events@.len() && events@[j] == e
                &&& forall|i: int|
                    0 <= i < events@.len() ==> (#[trigger] events@[i]).node_num <= e.node_num
            },
        },
{
    let ghost evs0 = events@;
    let mut rest = events;
    let total: usize = rest.len();
    let mut best: Option<NodeCreatedEvent> = None;
    let mut i: usize = 0;
    while rest.len() > 0
        invariant
            total == evs0.len(),
            i + rest@.len() == total,
            rest@ == evs0.skip(i as int),
            i == 0 ==> best is None,
            i > 0 ==> match best {
                Some(b) => (exists|j: int| 0 <= j < i && evs0[j] == b) && forall|t: int|
                    0 <= t < i ==> (#[trigger] evs0[t]).node_num <= b.node_num,
                None => false,
            },
        decreases rest.len(),
    {
        let e = rest.remove(0);
        proof {
            assert(e == evs0[i as int]);
            assert(rest@ =~= evs0.skip(i + 1));
        }
        match best {
            None => {
                best = Some(e);
            },
            Some(b) => {
                if e.node_num >= b.node_num {
                    best = Some(e);
                } else {
                    best = Some(b);
                }
            },
        }
        i = i + 1;
    }
    best
}

/// The claimed machine state of an assertion.
#[derive(Clone, Copy, Debug, PartialEq, Eq, Structural)]
pub enum MachineStatus {
    Running,
    Finished,
    Errored,
    TooFar,
}

/// The machine status a wire byte denotes, if any.
pub open spec fn spec_machine_status(v: u8) -> Option<MachineStatus> {
    if v == 0 {
        Some(MachineStatus::Running)
    } else if v == 1 {
        Some(MachineStatus::Finished)
    } else if v == 2 {
        Some(MachineStatus::Errored)
    } else if v == 3 {
        Some(MachineStatus::TooFar)
    } else {
        None
    }
}

/// Decodes a machine-status byte.
pub fn machine_status_from(v: u8) -> (r: Option<MachineStatus>)
    ensures
        r == spec_machine_status(v),
{
    if v == 0 {
        Some(MachineStatus::Running)
    } else if v == 1 {
        Some(MachineStatus::Finished)
    } else if v == 2 {
        Some(MachineStatus::Errored)
    } else if v == 3 {
        Some(MachineStatus::TooFar)
    } else {
        None
    }
}

/// An L2 block header, as plain values.
#[derive(Clone, Debug)]
pub struct CodecHeader {
    pub parent_hash: Hash32,
    pub uncle_hash: Hash32,
    pub coinbase: [u8; 20],
    pub state_root: Hash32,
    pub transactions_root: Hash32,
    pub receipts_root: Hash32,
    pub logs_bloom: Vec<u8>,
    pub difficulty: u64,
    pub number: u64,
    pub gas_limit: u64,
    pub gas_used: u64,
    pub timestamp: u64,
    pub extra_data: Vec<u8>,
    pub mix_hash: Hash32,
    pub nonce: [u8; 8],
    pub base_fee_per_gas: Option<u64>,
}

/// The asserted global state, unpacked.
#[derive(Clone, Copy, Debug)]
pub struct GlobalState {
    pub block_hash: Hash32,
    pub send_root: Hash32,
    pub inbox_position: u64,
    pub position_in_message: u64,
}

/// One storage proof returned by the L1 execution client for one key.
#[derive(Clone, Debug)]
pub struct StorageProofEntry {
    pub key: Hash32,
    pub proof_nodes: Vec<Vec<u8>>,
}

/// Everything one `eth_getProof` call returns for the rollup contract at a
/// single L1 block: the account proof and the storage proofs, all anchored
/// at `at`.
#[derive(Clone, Debug)]
pub struct AccountProofBundle {
    /// The one L1 block number every proof in this bundle is anchored at.
    pub at: u64,
    pub account_proof: Vec<Vec<u8>>,
    pub storage_proofs: Vec<StorageProofEntry>,
}

/// The payload the hub's L1 light client verifies to accept an L2 state.
#[derive(Clone, Debug)]
pub struct ArbitrumPayloadProof {
    pub arbitrum_header: CodecHeader,
    pub global_state: GlobalState,
    pub machine_status: MachineStatus,
    pub inbox_max_count: u64,
    pub node_number: u64,
    pub storage_proof: Vec<Vec<u8>>,
    pub contract_proof: Vec<Vec<u8>>,
}

/// Why a rollup payload could not be assembled this round.
#[derive(Clone, Copy, Debug, PartialEq, Eq, Structural)]
pub enum RollupError {
    /// The L2 header named by the assertion was not found.
    MissingHeader,
    /// The proof bundle carried no storage proof: a misconfiguration.
    MissingStorageProof,
    /// The assertion's machine-status byte is not a known status.
    InvalidMachineStatus,
}

/// Assembles the rollup payload proof from the latest assertion event, the
/// L2 header the assertion names, and a single anchored proof bundle. Both
/// proofs of the payload come from the one bundle, so the account proof and
/// the storage proof are anchored at the same L1 block.
pub fn assemble_arbitrum_payload(
    event: &NodeCreatedEvent,
    header: Option<CodecHeader>,
    bundle: AccountProofBundle,
) -> (r: Result<ArbitrumPayloadProof, RollupError>)
    ensures
        match r {
            Ok(p) => {
                &&& header is Some
                &&& bundle.storage_proofs@.len() > 0
                &&& spec_machine_status(event.assertion.after_state.machine_status) is Some
                &&& p.arbitrum_header == header.unwrap()
                &&& p.global_state.block_hash == event.assertion.after_state.global_state
                    .bytes_32_vals[0]
                &&& p.global_state.send_root == event.assertion.after_state.global_state
                    .bytes_32_vals[1]
                &&& p.global_state.inbox_position == event.assertion.after_state.global_state
                    .u_64_vals[0]
                &&& p.global_state.position_in_message == event.assertion.after_state
                    .global_state.u_64_vals[1]
                &&& Some(p.machine_status) == spec_machine_status(
                    event.assertion.after_state.machine_status,
                )
                &&& p.inbox_max_count == event.inbox_max_count
                &&& p.node_number == event.node_num
                &&& p.storage_proof == bundle.storage_proofs@[0].proof_nodes
                &&& p.contract_proof == bundle.account_proof
            },
            Err(e) => {
                ||| (e == RollupError::MissingHeader && header is None)
                ||| (e == RollupError::MissingStorageProof && header is Some
                    && bundle.storage_proofs@.len() == 0)
                ||| (e == RollupError::InvalidMachineStatus && header is Some
                    && bundle.storage_proofs@.len() > 0 && spec_machine_status(
                    event.assertion.after_state.machine_status,
                ) is None)
            },
        },
{
    let arbitrum_header = match header {
        Some(h) => h,
        None => {
            return Err(RollupError::MissingHeader);
        },
    };
    let mut storage_proofs = bundle.storage_proofs;
    if storage_proofs.len() == 0 {
        return Err(RollupError::MissingStorageProof);
    }
    let first = storage_proofs.remove(0);
    let machine_status = match machine_status_from(event.assertion.after_state.machine_status) {
        Some(s) => s,
        None => {
            return Err(RollupError::InvalidMachineStatus);
        },
    };
    Ok(ArbitrumPayloadProof {
        arbitrum_header,
        global_state: GlobalState {
            block_hash: event.assertion.after_state.global_state.bytes_32_vals[0],
            send_root: event.assertion.after_state.global_state.bytes_32_vals[1],
            inbox_position: event.assertion.after_state.global_state.u_64_vals[0],
            position_in_message: event.assertion.after_state.global_state.u_64_vals[1],
        },
        machine_status,
        inbox_max_count: event.inbox_max_count,
        node_number: event.node_num,
        storage_proof: first.proof_nodes,
        contract_proof: bundle.account_proof,
    })
}

} // verus!

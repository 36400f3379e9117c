//! Rollup payload assembly: event selection, storage keys, anchoring.

use tesseract::rollup::{
    assemble_arbitrum_payload, derive_map_key, nodes_state_hash_key, pad32,
    select_latest_assertion, AccountProofBundle, Assertion, AssertionState, CodecHeader,
    GlobalStateWire, MachineStatus, NodeCreatedEvent, RollupError, StorageProofEntry, NODES_SLOT,
};

fn node_event(node_num: u64, block_hash: [u8; 32]) -> NodeCreatedEvent {
    NodeCreatedEvent {
        node_num,
        assertion: Assertion {
            after_state: AssertionState {
                global_state: GlobalStateWire {
                    bytes_32_vals: [block_hash, [0x22; 32]],
                    u_64_vals: [5, 6],
                },
                machine_status: 1,
            },
        },
        inbox_max_count: 9,
    }
}

fn header(number: u64) -> CodecHeader {
    CodecHeader {
        parent_hash: [0; 32],
        uncle_hash: [0; 32],
        coinbase: [0; 20],
        state_root: [0x10; 32],
        transactions_root: [0; 32],
        receipts_root: [0; 32],
        logs_bloom: vec![0; 256],
        difficulty: 0,
        number,
        gas_limit: 30_000_000,
        gas_used: 0,
        timestamp: 1_700_000_000,
        extra_data: vec![],
        mix_hash: [0; 32],
        nonce: [0; 8],
        base_fee_per_gas: Some(7),
    }
}

#[test]
fn empty_scan_yields_nothing_to_relay() {
    assert!(select_latest_assertion(Vec::new()).is_none());
}

#[test]
fn the_highest_assertion_number_wins() {
    let events = vec![
        node_event(40, [1; 32]),
        node_event(42, [2; 32]),
        node_event(41, [3; 32]),
    ];
    let best = select_latest_assertion(events).unwrap();
    assert_eq!(best.node_num, 42);
}

#[test]
fn storage_keys_follow_the_mapping_slot_convention() {
    // nodes[42].stateHash lives at keccak256(pad32(42) ++ pad32(NODES_SLOT))
    let key = nodes_state_hash_key(42);
    let mut preimage = Vec::new();
    preimage.extend_from_slice(&[0u8; 24]);
    preimage.extend_from_slice(&42u64.to_be_bytes());
    preimage.extend_from_slice(&[0u8; 24]);
    preimage.extend_from_slice(&NODES_SLOT.to_be_bytes());
    assert_eq!(key, ethers_core::utils::keccak256(&preimage));
}

#[test]
fn map_key_derivation_really_hashes() {
    let derived = derive_map_key(vec![0xAB, 0xCD], 7);
    let mut preimage = vec![0xAB, 0xCD];
    preimage.extend_from_slice(&pad32(7));
    assert_eq!(derived, ethers_core::utils::keccak256(&preimage));
    // a known digest: keccak-256 of the empty string
    let empty = derive_map_key(Vec::new(), 0);
    let mut expected_preimage = Vec::new();
    expected_preimage.extend_from_slice(&[0u8; 32]);
    assert_eq!(empty, ethers_core::utils::keccak256(&expected_preimage));
    assert_eq!(
        ethers_core::utils::keccak256([]).to_vec(),
        vec![
            0xc5, 0xd2, 0x46, 0x01, 0x86, 0xf7, 0x23, 0x3c, 0x92, 0x7e, 0x7d, 0xb2, 0xdc, 0xc7,
            0x03, 0xc0, 0xe5, 0x00, 0xb6, 0x53, 0xca, 0x82, 0x27, 0x3b, 0x7b, 0xfa, 0xd8, 0x04,
            0x5d, 0x85, 0xa4, 0x70
        ]
    );
}

#[test]
fn payload_is_anchored_at_a_single_l1_block() {
    // L1 block 1000, a NodeCreated event with node_num 42 whose assertion
    // names the L2 tip H
    let h = [0x77u8; 32];
    let event = node_event(42, h);
    let bundle = AccountProofBundle {
        at: 1000,
        account_proof: vec![vec![1], vec![2]],
        storage_proofs: vec![StorageProofEntry {
            key: nodes_state_hash_key(42),
            proof_nodes: vec![vec![3], vec![4]],
        }],
    };
    let payload = assemble_arbitrum_payload(&event, Some(header(900)), bundle).unwrap();
    assert_eq!(payload.node_number, 42);
    assert_eq!(payload.global_state.block_hash, h);
    assert_eq!(payload.global_state.send_root, [0x22; 32]);
    assert_eq!(payload.global_state.inbox_position, 5);
    assert_eq!(payload.global_state.position_in_message, 6);
    assert_eq!(payload.machine_status, MachineStatus::Finished);
    assert_eq!(payload.inbox_max_count, 9);
    // both proofs come from the one bundle fetched at block 1000
    assert_eq!(payload.contract_proof, vec![vec![1], vec![2]]);
    assert_eq!(payload.storage_proof, vec![vec![3], vec![4]]);
}

#[test]
fn missing_header_is_fatal_for_the_round() {
    let event = node_event(1, [0; 32]);
    let bundle = AccountProofBundle {
        at: 5,
        account_proof: vec![],
        storage_proofs: vec![StorageProofEntry { key: [0; 32], proof_nodes: vec![] }],
    };
    assert_eq!(
        assemble_arbitrum_payload(&event, None, bundle).unwrap_err(),
        RollupError::MissingHeader
    );
}

#[test]
fn empty_storage_proof_is_a_misconfiguration() {
    let event = node_event(1, [0; 32]);
    let bundle = AccountProofBundle { at: 5, account_proof: vec![], storage_proofs: vec![] };
    assert_eq!(
        assemble_arbitrum_payload(&event, Some(header(1)), bundle).unwrap_err(),
        RollupError::MissingStorageProof
    );
}

#[test]
fn unknown_machine_status_is_rejected() {
    let mut event = node_event(1, [0; 32]);
    event.assertion.after_state.machine_status = 9;
    let bundle = AccountProofBundle {
        at: 5,
        account_proof: vec![],
        storage_proofs: vec![StorageProofEntry { key: [0; 32], proof_nodes: vec![] }],
    };
    assert_eq!(
        assemble_arbitrum_payload(&event, Some(header(1)), bundle).unwrap_err(),
        RollupError::InvalidMachineStatus
    );
}

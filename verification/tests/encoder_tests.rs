//! The message encoder: leaf ordering, error behavior, chain-tag
//! rendering, and batch isolation.

use tesseract::encoder::{
    encode_batch, encode_get_timeouts, encode_message, encode_request_message,
    encode_response_batch, state_machine_bytes, EncodingError, HandlerCall,
};
use tesseract::ids::{EthereumInstance, StateMachine, StateMachineHeight, StateMachineId};
use tesseract::messages::{
    GetRequest, Message, PostRequest, PostResponse, ProofBundle, Request, RequestMessage,
    RequestResponse, Response, ResponseMessage,
};
use tesseract::mmr::leaf_index_to_pos;
use tesseract::scale::{encode_mmr_proof, MmrProofData};

fn hub_height(height: u64) -> StateMachineHeight {
    StateMachineHeight {
        id: StateMachineId {
            state_id: StateMachine::Polkadot(2000),
            consensus_state_id: [0; 4],
        },
        height,
    }
}

fn evm_height(height: u64) -> StateMachineHeight {
    StateMachineHeight {
        id: StateMachineId { state_id: StateMachine::Evm(97), consensus_state_id: [0; 4] },
        height,
    }
}

fn post_request(nonce: u64) -> PostRequest {
    PostRequest {
        source: StateMachine::Polkadot(2000),
        dest: StateMachine::Evm(97),
        nonce,
        from: vec![1, 2],
        to: vec![3, 4],
        timeout_timestamp: 1000,
        body: vec![9, 9, 9],
        gas_limit: 21000,
    }
}

fn membership_bytes(leaf_indices: &[u64], leaf_count: u64) -> Vec<u8> {
    let pairs: Vec<(u64, u64)> = leaf_indices
        .iter()
        .map(|&i| (leaf_index_to_pos(i).unwrap(), i))
        .collect();
    encode_mmr_proof(&MmrProofData {
        leaf_count,
        leaf_positions_and_indices: pairs,
        items: vec![vec![0xCD; 32]],
    })
}

#[test]
fn request_leaves_come_out_sorted_by_leaf_index() {
    // five requests whose proof pairs arrive out of order
    let indices = [9u64, 2, 14, 7, 11];
    let msg = RequestMessage {
        requests: (0..5).map(post_request).collect(),
        membership: ProofBundle { height: hub_height(50), bytes: membership_bytes(&indices, 15) },
    };
    let m = encode_request_message(msg).expect("must encode");
    let got: Vec<u64> = m.requests.iter().map(|l| l.index).collect();
    assert_eq!(got, vec![2, 7, 9, 11, 14]);
    assert_eq!(m.proof_data.height.state_machine_id, 2000);
    assert_eq!(m.proof_data.height.height, 50);
    assert_eq!(m.proof_data.leaf_count, 15);
    // the requests follow their own pairs through the sort
    let nonce_of_index_2 = m.requests.iter().find(|l| l.index == 2).unwrap().request.nonce;
    assert_eq!(nonce_of_index_2, 1);
}

#[test]
fn non_hub_state_machine_is_rejected() {
    let msg = RequestMessage {
        requests: vec![post_request(0)],
        membership: ProofBundle { height: evm_height(50), bytes: membership_bytes(&[0], 1) },
    };
    assert_eq!(
        encode_request_message(msg).unwrap_err(),
        EncodingError::UnexpectedStateMachine
    );
}

#[test]
fn undecodable_membership_proof_is_rejected() {
    let msg = RequestMessage {
        requests: vec![post_request(0)],
        membership: ProofBundle { height: hub_height(50), bytes: vec![1, 2, 3] },
    };
    assert_eq!(encode_request_message(msg).unwrap_err(), EncodingError::UndecodableProof);
}

#[test]
fn inconsistent_leaf_positions_are_rejected() {
    let bytes = encode_mmr_proof(&MmrProofData {
        leaf_count: 4,
        // position 0 belongs to leaf 0, not leaf 1
        leaf_positions_and_indices: vec![(0, 1)],
        items: vec![],
    });
    let msg = RequestMessage {
        requests: vec![post_request(0)],
        membership: ProofBundle { height: hub_height(50), bytes },
    };
    assert_eq!(
        encode_request_message(msg).unwrap_err(),
        EncodingError::InvalidLeafPositions
    );
}

#[test]
fn all_get_responses_leave_no_leaves() {
    let get = GetRequest {
        source: StateMachine::Evm(97),
        dest: StateMachine::Polkadot(2000),
        nonce: 0,
        from: vec![1],
        keys: vec![vec![2]],
        height: 10,
        timeout_timestamp: 0,
        gas_limit: 0,
    };
    let responses = vec![Response::Get(tesseract::messages::GetResponse {
        get,
        values: vec![],
    })];
    let membership = ProofBundle { height: hub_height(50), bytes: membership_bytes(&[0], 1) };
    assert_eq!(
        encode_response_batch(responses, membership).unwrap_err(),
        EncodingError::EmptyLeaves
    );
}

#[test]
fn chain_tags_render_to_their_byte_names() {
    assert_eq!(state_machine_bytes(&StateMachine::Evm(97)), b"EVM-97".to_vec());
    assert_eq!(
        state_machine_bytes(&StateMachine::Polkadot(2000)),
        b"POLKADOT-2000".to_vec()
    );
    assert_eq!(state_machine_bytes(&StateMachine::Kusama(0)), b"KUSAMA-0".to_vec());
    assert_eq!(
        state_machine_bytes(&StateMachine::Ethereum(EthereumInstance::ExecutionLayer)),
        b"ETHE".to_vec()
    );
    assert_eq!(
        state_machine_bytes(&StateMachine::Ethereum(EthereumInstance::Arbitrum)),
        b"ARBI".to_vec()
    );
    assert_eq!(
        state_machine_bytes(&StateMachine::Substrate([119, 110, 100, 97])),
        vec![119, 110, 100, 97]
    );
}

fn response_message(bytes: Vec<u8>) -> Message {
    let post = post_request(7);
    Message::Response(ResponseMessage {
        datagram: RequestResponse::Response(vec![Response::Post(PostResponse {
            post,
            response: vec![5, 5],
            timeout_timestamp: 99,
        })]),
        membership: ProofBundle { height: hub_height(50), bytes },
    })
}

#[test]
fn one_undecodable_message_never_poisons_the_batch() {
    let good = membership_bytes(&[0], 1);
    let batch = vec![
        response_message(good.clone()),
        response_message(vec![0xFF, 0xFF]),
        response_message(good),
    ];
    let (calls, skipped) = encode_batch(batch);
    assert_eq!(calls.len(), 2);
    assert_eq!(skipped, 1);
    assert!(matches!(calls[0], HandlerCall::PostResponses(_)));
}

#[test]
fn get_timeouts_drop_post_requests_silently() {
    let get = GetRequest {
        source: StateMachine::Evm(97),
        dest: StateMachine::Polkadot(2000),
        nonce: 3,
        from: vec![1],
        keys: vec![],
        height: 10,
        timeout_timestamp: 0,
        gas_limit: 0,
    };
    let m = encode_get_timeouts(vec![
        Request::Post(post_request(1)),
        Request::Get(get),
    ]);
    assert_eq!(m.timeouts.len(), 1);
    assert_eq!(m.timeouts[0].nonce, 3);
}

#[test]
fn consensus_messages_pass_through_opaquely() {
    let msg = Message::Consensus(tesseract::messages::ConsensusMessage {
        consensus_proof: vec![1, 2, 3],
        consensus_state_id: [0; 4],
    });
    match encode_message(msg).unwrap() {
        HandlerCall::Consensus { consensus_proof } => assert_eq!(consensus_proof, vec![1, 2, 3]),
        other => panic!("wrong call kind: {other:?}"),
    }
}

#[test]
fn a_post_request_in_a_get_response_datagram_is_rejected() {
    let msg = Message::Response(ResponseMessage {
        datagram: RequestResponse::Request(vec![Request::Post(post_request(0))]),
        membership: ProofBundle { height: hub_height(50), bytes: vec![0, 0] },
    });
    assert_eq!(encode_message(msg).unwrap_err(), EncodingError::ExpectedGetRequest);
}

//! The proof wire formats: agreement with the reference codec, strictness,
//! and the round trip.

use parity_scale_codec::{Compact, Encode};
use tesseract::scale::{
    decode_compact_u32, decode_mmr_proof, decode_state_proof, encode_compact_u32,
    encode_mmr_proof, encode_state_proof, HashAlgorithm, MmrProofData, SubstrateStateProof,
};

fn sample_mmr_proof() -> MmrProofData {
    MmrProofData {
        leaf_count: 3,
        leaf_positions_and_indices: vec![(4, 2), (0, 0)],
        items: vec![vec![0xAA; 32], vec![0x17; 32]],
    }
}

#[test]
fn mmr_proof_encoding_matches_reference_codec() {
    let p = sample_mmr_proof();
    let bytes = encode_mmr_proof(&p);
    let items: Vec<[u8; 32]> = vec![[0xAA; 32], [0x17; 32]];
    let expected = (3u64, vec![(4u64, 2u64), (0u64, 0u64)], items).encode();
    assert_eq!(bytes, expected);
}

#[test]
fn state_proof_encoding_matches_reference_codec() {
    let p = SubstrateStateProof {
        hasher: HashAlgorithm::Blake2,
        storage_proof: vec![vec![1, 2, 3], vec![]],
    };
    let bytes = encode_state_proof(&p);
    let expected = (1u8, vec![vec![1u8, 2, 3], vec![]]).encode();
    assert_eq!(bytes, expected);
}

#[test]
fn mmr_proof_round_trip_gives_input_bytes_back() {
    let p = sample_mmr_proof();
    let bytes = encode_mmr_proof(&p);
    let decoded = decode_mmr_proof(&bytes).expect("sample must decode");
    assert_eq!(decoded.leaf_count, 3);
    assert_eq!(decoded.leaf_positions_and_indices, vec![(4, 2), (0, 0)]);
    assert_eq!(decoded.items, vec![vec![0xAA; 32], vec![0x17; 32]]);
    let again = encode_mmr_proof(&decoded);
    assert_eq!(again, bytes);
}

#[test]
fn state_proof_round_trip_gives_input_bytes_back() {
    let p = SubstrateStateProof {
        hasher: HashAlgorithm::Keccak,
        storage_proof: vec![vec![9; 100], vec![0]],
    };
    let bytes = encode_state_proof(&p);
    let decoded = decode_state_proof(&bytes).expect("sample must decode");
    let again = encode_state_proof(&decoded);
    assert_eq!(again, bytes);
}

#[test]
fn decode_rejects_trailing_bytes() {
    let p = sample_mmr_proof();
    let mut bytes = encode_mmr_proof(&p);
    bytes.push(0);
    assert!(decode_mmr_proof(&bytes).is_none());
}

#[test]
fn decode_rejects_truncated_bytes() {
    let p = sample_mmr_proof();
    let mut bytes = encode_mmr_proof(&p);
    bytes.pop();
    assert!(decode_mmr_proof(&bytes).is_none());
}

#[test]
fn decode_rejects_garbage() {
    assert!(decode_mmr_proof(&vec![1, 2, 3]).is_none());
    assert!(decode_state_proof(&vec![7]).is_none());
    assert!(decode_state_proof(&vec![]).is_none());
}

#[test]
fn compact_encoding_matches_reference_codec() {
    for v in [0u32, 1, 63, 64, 255, 16383, 16384, 1073741823, 1073741824, u32::MAX] {
        let mut mine = Vec::new();
        encode_compact_u32(v, &mut mine);
        assert_eq!(mine, Compact(v).encode(), "value {v}");
        let (decoded, end) = decode_compact_u32(&mine, 0).expect("canonical must decode");
        assert_eq!(decoded, v);
        assert_eq!(end, mine.len());
    }
}

#[test]
fn compact_decoding_rejects_non_canonical_forms() {
    // two-byte mode holding the value zero
    assert!(decode_compact_u32(&vec![0x01, 0x00], 0).is_none());
    // four-byte mode holding a value that fits two bytes
    assert!(decode_compact_u32(&vec![0x02, 0x00, 0x00, 0x00], 0).is_none());
    // big-integer mode holding a value that fits four-byte mode
    assert!(decode_compact_u32(&vec![0x03, 0x01, 0x00, 0x00, 0x00], 0).is_none());
}

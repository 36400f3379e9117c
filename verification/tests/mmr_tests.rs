//! MMR indexing arithmetic, held against the mountain-range crate.

use ckb_merkle_mountain_range::{leaf_index_to_mmr_size, leaf_index_to_pos};
use tesseract::mmr::{k_index_for_leaf, leaf_index_to_pos as my_leaf_pos, mmr_size_for_leaves};

#[test]
fn leaf_positions_agree_with_the_mountain_range_crate() {
    for i in 0u64..2000 {
        assert_eq!(my_leaf_pos(i), Some(leaf_index_to_pos(i)), "leaf {i}");
    }
}

#[test]
fn mmr_sizes_agree_with_the_mountain_range_crate() {
    for n in 1u64..2000 {
        assert_eq!(
            mmr_size_for_leaves(n),
            Some(leaf_index_to_mmr_size(n - 1)),
            "leaf count {n}"
        );
    }
}

#[test]
fn k_index_of_a_single_leaf_proof_is_zero() {
    assert_eq!(k_index_for_leaf(0, 1), 0);
}

#[test]
fn k_indices_follow_the_peak_layout() {
    // three leaves: peaks of 2 and 1
    assert_eq!(k_index_for_leaf(0, 3), 0);
    assert_eq!(k_index_for_leaf(1, 3), 1);
    assert_eq!(k_index_for_leaf(2, 3), 0);
    // seven leaves: peaks of 4, 2, and 1
    assert_eq!(k_index_for_leaf(0, 7), 0);
    assert_eq!(k_index_for_leaf(3, 7), 3);
    assert_eq!(k_index_for_leaf(4, 7), 0);
    assert_eq!(k_index_for_leaf(5, 7), 1);
    assert_eq!(k_index_for_leaf(6, 7), 0);
    // a perfect power of two is a single peak
    assert_eq!(k_index_for_leaf(5, 8), 5);
}

//! Merkle-mountain-range indexing arithmetic.
//!
//! A mountain range with `n` leaves splits into one perfect peak per one bit
//! of `n`, largest first. Every node of the range has a post-order position;
//! a leaf also has a leaf index (its rank among the leaves) and a k-index
//! (its rank among the leaves of its own peak), which the destination's
//! verifier uses to replay the proof path.

use vstd::prelude::*;

verus! {

/// The number of one bits in the binary representation of `n`.
pub open spec fn pop_count(n: nat) -> nat
    decreases n,
{
    if n == 0 {
        0
    } else {
        n % 2 + pop_count(n / 2)
    }
}

pub proof fn lemma_pop_count_le(n: nat)
    ensures
        pop_count(n) <= n,
    decreases n,
{
    if n > 0 {
        lemma_pop_count_le(n / 2);
    }
}

/// The number of nodes of a mountain range holding `leaf_count` leaves:
/// every leaf is a node and every merge of two subtrees adds one, leaving
/// `2 * n - p` nodes for `n` leaves spread over `p` peaks, where `p` is the
/// number of one bits of `n`.
pub open spec fn spec_mmr_size(leaf_count: nat) -> nat {
    (2 * leaf_count - pop_count(leaf_count)) as nat
}

/// The post-order position of the leaf with leaf index `i`.
pub open spec fn spec_leaf_pos(i: nat) -> nat {
    (2 * i - pop_count(i)) as nat
}

/// Number of MMR nodes for `leaf_count` leaves, or `None` when
/// `2 * leaf_count` does not fit in `u64`.
pub fn mmr_size_for_leaves(leaf_count: u64) -> (r: Option<u64>)
    ensures
        match r {
            Some(size) => size == spec_mmr_size(leaf_count as nat),
            None => 2 * leaf_count > u64::MAX,
        },
{
    if leaf_count > u64::MAX / 2 {
        return None;
    }
    let ones = count_ones(leaf_count);
    proof {
        lemma_pop_count_le(leaf_count as nat);
    }
    Some(2 * leaf_count - ones)
}

/// The number of one bits of `n`.
pub fn count_ones(n: u64) -> (r: u64)
    ensures
        r == pop_count(n as nat),
{
    let mut x: u64 = n;
    let mut ones: u64 = 0;
    proof {
        lemma_pop_count_le(n as nat);
    }
    while x > 0
        invariant
            ones + pop_count(x as nat) == pop_count(n as nat),
            ones + pop_count(x as nat) <= n,
        decreases x,
    {
        ones = ones + x % 2;
        x = x / 2;
    }
    ones
}

/// The post-order position of the leaf with index `i`, or `None` exactly
/// when that position does not fit in `u64`.
pub fn leaf_index_to_pos(i: u64) -> (r: Option<u64>)
    ensures
        match r {
            Some(pos) => pos == spec_leaf_pos(i as nat),
            None => spec_leaf_pos(i as nat) > u64::MAX,
        },
{
    let ones = count_ones(i);
    proof {
        lemma_pop_count_le(i as nat);
    }
    if i - ones > u64::MAX - i {
        return None;
    }
    Some(i + (i - ones))
}

/// Whether `h` is a power of two.
pub open spec fn is_pow2(h: nat) -> bool
    decreases h,
{
    if h == 0 {
        false
    } else if h == 1 {
        true
    } else {
        h % 2 == 0 && is_pow2(h / 2)
    }
}

/// The largest power of two at most `n`, or `0` for `n == 0`; the size of
/// the largest peak of a range with `n` leaves.
pub open spec fn high_pow2(n: nat) -> nat
    decreases n,
{
    if n <= 1 {
        n
    } else {
        2 * high_pow2(n / 2)
    }
}

pub proof fn lemma_high_pow2_bounds(n: nat)
    requires
        n >= 1,
    ensures
        1 <= high_pow2(n) <= n,
        n < 2 * high_pow2(n),
        is_pow2(high_pow2(n)),
    decreases n,
{
    if n >= 2 {
        lemma_high_pow2_bounds(n / 2);
    }
}

/// A power of two `h` with `h <= n < 2 * h` is the largest power of two at
/// most `n`.
pub proof fn lemma_high_pow2_char(n: nat, h: nat)
    requires
        is_pow2(h),
        h <= n,
        n < 2 * h,
    ensures
        high_pow2(n) == h,
    decreases n,
{
    if h == 1 {
        assert(n == 1);
    } else {
        assert(h % 2 == 0 && is_pow2(h / 2));
        assert(h / 2 <= n / 2);
        assert(n / 2 < h);
        assert(n / 2 < 2 * (h / 2) || n / 2 == 2 * (h / 2) - 1 + 1 - 1);
        assert(2 * (n / 2) <= n);
        assert(n / 2 < 2 * (h / 2)) by {
            if n / 2 >= 2 * (h / 2) {
                assert(n / 2 >= h);
            }
        }
        lemma_high_pow2_char(n / 2, h / 2);
        assert(n >= 2);
    }
}

/// The k-index of the leaf with index `i` in a range of `n` leaves: peaks
/// are laid out largest first, each covering a power-of-two run of leaves;
/// the k-index is the offset of leaf `i` inside its own peak's run.
pub open spec fn spec_k_index(i: nat, n: nat) -> nat
    decreases n,
{
    if n == 0 {
        0
    } else {
        let h = high_pow2(n);
        if i < h {
            i
        } else if 1 <= h < n {
            spec_k_index((i - h) as nat, (n - h) as nat)
        } else {
            0
        }
    }
}

/// The k-index of the leaf with index `leaf_index` in a range of
/// `leaf_count` leaves.
pub fn k_index_for_leaf(leaf_index: u64, leaf_count: u64) -> (r: u64)
    requires
        leaf_index < leaf_count,
    ensures
        r == spec_k_index(leaf_index as nat, leaf_count as nat),
        r <= leaf_index,
{
    let mut i: u64 = leaf_index;
    let mut n: u64 = leaf_count;
    loop
        invariant
            i < n,
            i <= leaf_index,
            spec_k_index(leaf_index as nat, leaf_count as nat) == spec_k_index(
                i as nat,
                n as nat,
            ),
        decreases n,
    {
        let mut h: u64 = 1;
        while h <= n / 2
            invariant
                1 <= h <= n,
                n >= 1,
                is_pow2(h as nat),
            decreases n - h,
        {
            h = h * 2;
        }
        proof {
            assert(2 * (n / 2) + 2 > n);
            lemma_high_pow2_char(n as nat, h as nat);
        }
        if i < h {
            return i;
        }
        i = i - h;
        n = n - h;
    }
}

} // verus!

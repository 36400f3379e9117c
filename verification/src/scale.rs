//! SCALE encoding and decoding of the proof formats exchanged with the hub.
//!
//! The wire format of the membership proof is: the leaf count as a fixed
//! eight-byte little-endian word, then the list of (position, leaf index)
//! pairs, then the list of 32-byte sibling hashes. Lists carry a compact
//! length prefix; list items are fixed width. The storage-proof format is a
//! hash-algorithm tag byte followed by a list of proof nodes, each a
//! length-prefixed byte string. Decoding is strict: it accepts exactly the
//! bytes that encoding produces, so a decoded value re-encodes to the
//! original input.

use vstd::prelude::*;

verus! {

/// The value of a little-endian byte string.
pub open spec fn le_val(b: Seq<u8>) -> nat
    decreases b.len(),
{
    if b.len() == 0 {
        0
    } else {
        (b[0] + 256 * le_val(b.drop_first())) as nat
    }
}

/// The `n`-byte little-endian encoding of `v % 256^n`.
pub open spec fn le_bytes(v: nat, n: nat) -> Seq<u8>
    decreases n,
{
    if n == 0 {
        Seq::empty()
    } else {
        seq![(v % 256) as u8] + le_bytes(v / 256, (n - 1) as nat)
    }
}

pub proof fn lemma_le_bytes_len(v: nat, n: nat)
    ensures
        le_bytes(v, n).len() == n,
    decreases n,
{
    if n > 0 {
        lemma_le_bytes_len(v / 256, (n - 1) as nat);
    }
}

/// `256^n`.
pub open spec fn pow256(n: nat) -> nat
    decreases n,
{
    if n == 0 {
        1
    } else {
        256 * pow256((n - 1) as nat)
    }
}

pub proof fn lemma_pow256_pos(n: nat)
    ensures
        pow256(n) >= 1,
    decreases n,
{
    if n > 0 {
        lemma_pow256_pos((n - 1) as nat);
    }
}

/// Encoding then evaluating gives the value back, for values under `256^n`.
pub proof fn lemma_le_bytes_val(v: nat, n: nat)
    requires
        v < pow256(n),
    ensures
        le_val(le_bytes(v, n)) == v,
    decreases n,
{
    if n > 0 {
        lemma_pow256_pos((n - 1) as nat);
        assert(v / 256 < pow256((n - 1) as nat)) by {
            if v / 256 >= pow256((n - 1) as nat) {
                assert(v >= 256 * pow256((n - 1) as nat)) by {
                    assert(v >= 256 * (v / 256));
                };
            }
        };
        lemma_le_bytes_val(v / 256, (n - 1) as nat);
        let b = le_bytes(v, n);
        assert(b.drop_first() =~= le_bytes(v / 256, (n - 1) as nat));
    }
}

/// Evaluating a little-endian byte string gives a value under `256^len`, and
/// re-encoding it over the same width gives the bytes back.
pub proof fn lemma_le_val_bytes(b: Seq<u8>)
    ensures
        le_val(b) < pow256(b.len()),
        le_bytes(le_val(b), b.len()) == b,
    decreases b.len(),
{
    if b.len() > 0 {
        lemma_le_val_bytes(b.drop_first());
        let v = le_val(b);
        assert(v == b[0] + 256 * le_val(b.drop_first()));
        assert(v % 256 == b[0] && v / 256 == le_val(b.drop_first())) by {
            vstd::arithmetic::div_mod::lemma_fundamental_div_mod_converse(
                v as int,
                256,
                le_val(b.drop_first()) as int,
                b[0] as int,
            );
        };
        assert(le_bytes(v, b.len()) =~= b);
    }
}

pub proof fn lemma_pow256_values()
    ensures
        pow256(1) == 0x100,
        pow256(2) == 0x10000,
        pow256(4) == 0x1_0000_0000,
        pow256(8) == 0x1_0000_0000_0000_0000,
{
    assert(pow256(0) == 1);
    assert(pow256(1) == 0x100);
    assert(pow256(2) == 0x10000);
    assert(pow256(3) == 0x100_0000);
    assert(pow256(4) == 0x1_0000_0000);
    assert(pow256(5) == 0x100_0000_0000);
    assert(pow256(6) == 0x1_0000_0000_0000);
    assert(pow256(7) == 0x100_0000_0000_0000);
    assert(pow256(8) == 0x1_0000_0000_0000_0000);
}

pub proof fn lemma_pow256_mono(a: nat, b: nat)
    requires
        a <= b,
    ensures
        pow256(a) <= pow256(b),
    decreases b,
{
    if a < b {
        lemma_pow256_mono(a, (b - 1) as nat);
        lemma_pow256_pos((b - 1) as nat);
    }
}

/// Reads `n` little-endian bytes at `pos`, returning the value and the
/// position after them; `None` exactly when fewer than `n` bytes remain.
pub fn read_le(b: &Vec<u8>, pos: usize, n: usize) -> (r: Option<(u64, usize)>)
    requires
        n <= 8,
    ensures
        match r {
            Some(v_end) => {
                &&& pos + n <= b@.len()
                &&& v_end.1 == pos + n
                &&& v_end.0 == le_val(b@.subrange(pos as int, pos + n))
            },
            None => pos + n > b@.len(),
        },
{
    if pos > b.len() || n > b.len() - pos {
        return None;
    }
    let mut i: usize = n;
    let mut v: u64 = 0;
    proof {
        assert(b@.subrange(pos + n, pos + n) =~= Seq::<u8>::empty());
        lemma_pow256_values();
        lemma_pow256_mono(0, 8);
    }
    while i > 0
        invariant
            i <= n,
            n <= 8,
            pos + n <= usize::MAX,
            pos + n <= b@.len(),
            v == le_val(b@.subrange(pos + i, pos + n)),
            v < pow256((n - i) as nat),
        decreases i,
    {
        i = i - 1;
        proof {
            lemma_pow256_mono((n - i - 1) as nat, 7);
            lemma_pow256_values();
            assert(pow256(7) == 0x100_0000_0000_0000);
            let s = b@.subrange(pos + i, pos + n);
            assert(s.drop_first() =~= b@.subrange(pos + i + 1, pos + n));
            assert(s[0] == b@[pos + i]);
        }
        v = (b[pos + i] as u64) + 256 * v;
        proof {
            lemma_pow256_mono(1, (n - i) as nat);
        }
    }
    proof {
        assert(b@.subrange(pos as int, pos + n) == b@.subrange(pos + 0, pos + n));
    }
    Some((v, pos + n))
}

/// Appends the `n`-byte little-endian encoding of `v % 256^n` to `out`.
pub fn write_le(v: u64, n: usize, out: &mut Vec<u8>)
    requires
        n <= 8,
    ensures
        final(out)@ == old(out)@ + le_bytes(v as nat, n as nat),
{
    let ghost prefix = out@;
    let mut x: u64 = v;
    let mut i: usize = 0;
    while i < n
        invariant
            i <= n,
            le_bytes(v as nat, n as nat) == out@.skip(prefix.len() as int) + le_bytes(
                x as nat,
                (n - i) as nat,
            ),
            out@.len() == prefix.len() + i,
            prefix == out@.take(prefix.len() as int),
        decreases n - i,
    {
        let ghost out0 = out@;
        out.push((x % 256) as u8);
        x = x / 256;
        i = i + 1;
        proof {
            assert(out@.skip(prefix.len() as int) =~= out0.skip(prefix.len() as int) + seq![
                out@[out@.len() - 1],
            ]);
            assert(out@.take(prefix.len() as int) =~= out0.take(prefix.len() as int));
        }
    }
    proof {
        assert(le_bytes(x as nat, 0) =~= Seq::<u8>::empty());
        assert(out@ =~= out@.take(prefix.len() as int) + out@.skip(prefix.len() as int));
        assert(out@.skip(prefix.len() as int) + le_bytes(x as nat, 0) =~= out@.skip(
            prefix.len() as int,
        ));
    }
}

/// The canonical compact encoding of a length or count below `2^32`.
pub open spec fn spec_compact_u32(v: nat) -> Seq<u8> {
    if v < 64 {
        seq![(v * 4) as u8]
    } else if v < 16384 {
        le_bytes(v * 4 + 1, 2)
    } else if v < 1073741824 {
        le_bytes(v * 4 + 2, 4)
    } else {
        seq![3u8] + le_bytes(v, 4)
    }
}

/// The compact decoder, as a mathematical function: the decoded value and the
/// position after it, or `None` when the bytes at `pos` are not the canonical
/// compact encoding of a value below `2^32`.
pub open spec fn spec_decode_compact_u32(b: Seq<u8>, pos: int) -> Option<(u32, int)> {
    if !(0 <= pos < b.len()) {
        None
    } else {
        let b0 = b[pos] as nat;
        if b0 % 4 == 0 {
            Some(((b0 / 4) as u32, pos + 1))
        } else if b0 % 4 == 1 {
            if pos + 2 <= b.len() {
                let v = le_val(b.subrange(pos, pos + 2)) / 4;
                if v >= 64 {
                    Some((v as u32, pos + 2))
                } else {
                    None
                }
            } else {
                None
            }
        } else if b0 % 4 == 2 {
            if pos + 4 <= b.len() {
                let v = le_val(b.subrange(pos, pos + 4)) / 4;
                if v >= 16384 {
                    Some((v as u32, pos + 4))
                } else {
                    None
                }
            } else {
                None
            }
        } else {
            if b0 == 3 && pos + 5 <= b.len() {
                let v = le_val(b.subrange(pos + 1, pos + 5));
                if v >= 1073741824 {
                    Some((v as u32, pos + 5))
                } else {
                    None
                }
            } else {
                None
            }
        }
    }
}

/// Appends the canonical compact encoding of `v` to `out`.
pub fn encode_compact_u32(v: u32, out: &mut Vec<u8>)
    ensures
        final(out)@ == old(out)@ + spec_compact_u32(v as nat),
{
    if v < 64 {
        out.push((v * 4) as u8);
        proof {
            assert(final(out)@ =~= old(out)@ + spec_compact_u32(v as nat));
        }
    } else if v < 16384 {
        write_le((v * 4 + 1) as u64, 2, out);
    } else if v < 1073741824 {
        write_le((v as u64) * 4 + 2, 4, out);
    } else {
        out.push(3u8);
        write_le(v as u64, 4, out);
        proof {
            assert(final(out)@ =~= old(out)@ + (seq![3u8] + le_bytes(v as nat, 4)));
        }
    }
}

/// Reads a canonical compact-encoded value at `pos`; agrees exactly with
/// [`spec_decode_compact_u32`].
pub fn decode_compact_u32(b: &Vec<u8>, pos: usize) -> (r: Option<(u32, usize)>)
    ensures
        match r {
            Some(v_end) => spec_decode_compact_u32(b@, pos as int) == Some(
                (v_end.0, v_end.1 as int),
            ),
            None => spec_decode_compact_u32(b@, pos as int) is None,
        },
{
    if pos >= b.len() {
        return None;
    }
    let b0 = b[pos];
    let mode = b0 % 4;
    if mode == 0 {
        Some(((b0 / 4) as u32, pos + 1))
    } else if mode == 1 {
        match read_le(b, pos, 2) {
            Some((x, end)) => {
                proof {
                    lemma_le_val_bytes(b@.subrange(pos as int, pos + 2));
                    lemma_pow256_values();
                }
                let v = (x / 4) as u32;
                if v >= 64 {
                    Some((v, end))
                } else {
                    None
                }
            },
            None => None,
        }
    } else if mode == 2 {
        match read_le(b, pos, 4) {
            Some((x, end)) => {
                proof {
                    lemma_le_val_bytes(b@.subrange(pos as int, pos + 4));
                    lemma_pow256_values();
                }
                let v = (x / 4) as u32;
                if v >= 16384 {
                    Some((v, end))
                } else {
                    None
                }
            },
            None => None,
        }
    } else {
        if b0 != 3 {
            return None;
        }
        match read_le(b, pos + 1, 4) {
            Some((x, end)) => {
                proof {
                    lemma_le_val_bytes(b@.subrange(pos + 1, pos + 5));
                    lemma_pow256_values();
                }
                if x >= 1073741824 {
                    Some((x as u32, end))
                } else {
                    None
                }
            },
            None => None,
        }
    }
}

/// What compact decoding accepts is exactly what compact encoding produces:
/// a successful decode at `pos` consumed the canonical encoding of its value.
pub proof fn lemma_compact_u32_round_trip(b: Seq<u8>, pos: int)
    requires
        spec_decode_compact_u32(b, pos) is Some,
    ensures
        ({
            let (v, end) = spec_decode_compact_u32(b, pos).unwrap();
            &&& pos < end <= b.len()
            &&& b.subrange(pos, end) == spec_compact_u32(v as nat)
        }),
{
    let (v, end) = spec_decode_compact_u32(b, pos).unwrap();
    let b0 = b[pos] as nat;
    lemma_pow256_values();
    if b0 % 4 == 0 {
        assert(b.subrange(pos, pos + 1) =~= seq![b[pos]]);
        assert((b0 / 4) * 4 == b0);
    } else if b0 % 4 == 1 {
        let s = b.subrange(pos, pos + 2);
        let x = le_val(s);
        lemma_le_val_bytes(s);
        assert(s.drop_first() =~= b.subrange(pos + 1, pos + 2));
        assert(x == b0 + 256 * le_val(s.drop_first()));
        let q = b0 / 4;
        assert(b0 == 4 * q + 1);
        lemma_fundamental_div_mod_converse_pub(
            x as int,
            4,
            (q + 64 * le_val(s.drop_first())) as int,
            1,
        );
        assert(x == 4 * (v as nat) + 1);
        assert(spec_compact_u32(v as nat) == le_bytes(x, 2));
    } else if b0 % 4 == 2 {
        let s = b.subrange(pos, pos + 4);
        let x = le_val(s);
        lemma_le_val_bytes(s);
        assert(s.drop_first() =~= b.subrange(pos + 1, pos + 4));
        assert(x == b0 + 256 * le_val(s.drop_first()));
        let q = (b0 - 2) as nat / 4;
        assert(b0 == 4 * ((b0 - 2) as nat / 4) + 2);
        lemma_fundamental_div_mod_converse_pub(
            x as int,
            4,
            (q + 64 * le_val(s.drop_first())) as int,
            2,
        );
        assert(x == 4 * (v as nat) + 2);
        assert(v < 1073741824);
        assert(spec_compact_u32(v as nat) == le_bytes(x, 4));
    } else {
        let s = b.subrange(pos + 1, pos + 5);
        lemma_le_val_bytes(s);
        assert(b.subrange(pos, pos + 5) =~= seq![b[pos]] + s);
        assert(spec_compact_u32(v as nat) == seq![3u8] + le_bytes(v as nat, 4));
    }
}

/// The concatenation of `f` applied to every element of `s`, in order.
pub open spec fn concat_map<T>(s: Seq<T>, f: spec_fn(T) -> Seq<u8>) -> Seq<u8>
    decreases s.len(),
{
    if s.len() == 0 {
        Seq::empty()
    } else {
        f(s[0]) + concat_map(s.drop_first(), f)
    }
}

pub proof fn lemma_concat_map_push<T>(s: Seq<T>, f: spec_fn(T) -> Seq<u8>, x: T)
    ensures
        concat_map(s.push(x), f) == concat_map(s, f) + f(x),
    decreases s.len(),
{
    let t = s.push(x);
    if s.len() == 0 {
        assert(t.drop_first() =~= s);
        assert(t[0] == x);
        assert(concat_map(t.drop_first(), f) == concat_map(s, f));
        assert(concat_map(t, f) =~= concat_map(s, f) + f(x));
    } else {
        assert(t.drop_first() =~= s.drop_first().push(x));
        lemma_concat_map_push(s.drop_first(), f, x);
        assert(t[0] == s[0]);
        assert(concat_map(t.drop_first(), f) == concat_map(s.drop_first(), f) + f(x));
        assert(concat_map(t, f) =~= concat_map(s, f) + f(x));
    }
}

/// The encoding of one (position, leaf index) pair: two eight-byte words.
pub open spec fn pair_enc() -> spec_fn((u64, u64)) -> Seq<u8> {
    |p: (u64, u64)| le_bytes(p.0 as nat, 8) + le_bytes(p.1 as nat, 8)
}

/// The encoding of one sibling hash: its 32 bytes, raw.
pub open spec fn hash_enc() -> spec_fn(Seq<u8>) -> Seq<u8> {
    |h: Seq<u8>| h
}

/// The encoding of one storage-proof node: a compact length then the bytes.
pub open spec fn node_enc() -> spec_fn(Seq<u8>) -> Seq<u8> {
    |h: Seq<u8>| spec_compact_u32(h.len()) + h
}

/// Decodes a fixed eight-byte little-endian word.
pub open spec fn spec_decode_u64(b: Seq<u8>, pos: int) -> Option<(u64, int)> {
    if 0 <= pos && pos + 8 <= b.len() {
        Some((le_val(b.subrange(pos, pos + 8)) as u64, pos + 8))
    } else {
        None
    }
}

pub proof fn lemma_decode_u64_round_trip(b: Seq<u8>, pos: int)
    requires
        spec_decode_u64(b, pos) is Some,
    ensures
        ({
            let (v, end) = spec_decode_u64(b, pos).unwrap();
            &&& end == pos + 8 <= b.len()
            &&& le_bytes(v as nat, 8) == b.subrange(pos, end)
        }),
{
    lemma_le_val_bytes(b.subrange(pos, pos + 8));
    lemma_pow256_values();
}

/// Decodes `count` (position, leaf index) pairs.
pub open spec fn spec_decode_pairs(b: Seq<u8>, pos: int, count: nat) -> Option<
    (Seq<(u64, u64)>, int),
>
    decreases count,
{
    if count == 0 {
        Some((Seq::empty(), pos))
    } else {
        match spec_decode_u64(b, pos) {
            None => None,
            Some((a, p1)) => match spec_decode_u64(b, p1) {
                None => None,
                Some((c, p2)) => match spec_decode_pairs(b, p2, (count - 1) as nat) {
                    None => None,
                    Some((s, end)) => Some((seq![(a, c)] + s, end)),
                },
            },
        }
    }
}

pub proof fn lemma_decode_pairs_round_trip(b: Seq<u8>, pos: int, count: nat)
    requires
        0 <= pos <= b.len(),
        spec_decode_pairs(b, pos, count) is Some,
    ensures
        ({
            let (s, end) = spec_decode_pairs(b, pos, count).unwrap();
            &&& pos <= end <= b.len()
            &&& s.len() == count
            &&& concat_map(s, pair_enc()) == b.subrange(pos, end)
        }),
    decreases count,
{
    let (s, end) = spec_decode_pairs(b, pos, count).unwrap();
    if count == 0 {
        assert(concat_map(s, pair_enc()) =~= b.subrange(pos, end));
    } else {
        let (a, p1) = spec_decode_u64(b, pos).unwrap();
        let (c, p2) = spec_decode_u64(b, p1).unwrap();
        let (s2, _end2) = spec_decode_pairs(b, p2, (count - 1) as nat).unwrap();
        lemma_decode_u64_round_trip(b, pos);
        lemma_decode_u64_round_trip(b, p1);
        lemma_decode_pairs_round_trip(b, p2, (count - 1) as nat);
        assert(s[0] == (a, c));
        assert(s.drop_first() =~= s2);
        assert(pair_enc()((a, c)) == b.subrange(pos, p1) + b.subrange(p1, p2));
        assert(concat_map(s, pair_enc()) =~= b.subrange(pos, end));
    }
}

/// Decodes `count` raw 32-byte sibling hashes.
pub open spec fn spec_decode_hashes(b: Seq<u8>, pos: int, count: nat) -> Option<
    (Seq<Seq<u8>>, int),
>
    decreases count,
{
    if count == 0 {
        Some((Seq::empty(), pos))
    } else {
        if 0 <= pos && pos + 32 <= b.len() {
            match spec_decode_hashes(b, pos + 32, (count - 1) as nat) {
                None => None,
                Some((s, end)) => Some((seq![b.subrange(pos, pos + 32)] + s, end)),
            }
        } else {
            None
        }
    }
}

pub proof fn lemma_decode_hashes_round_trip(b: Seq<u8>, pos: int, count: nat)
    requires
        0 <= pos <= b.len(),
        spec_decode_hashes(b, pos, count) is Some,
    ensures
        ({
            let (s, end) = spec_decode_hashes(b, pos, count).unwrap();
            &&& pos <= end <= b.len()
            &&& s.len() == count
            &&& (forall|i: int| 0 <= i < s.len() ==> (#[trigger] s[i]).len() == 32)
            &&& concat_map(s, hash_enc()) == b.subrange(pos, end)
        }),
    decreases count,
{
    let (s, end) = spec_decode_hashes(b, pos, count).unwrap();
    if count == 0 {
        assert(concat_map(s, hash_enc()) =~= b.subrange(pos, end));
    } else {
        let (s2, _end2) = spec_decode_hashes(b, pos + 32, (count - 1) as nat).unwrap();
        lemma_decode_hashes_round_trip(b, pos + 32, (count - 1) as nat);
        assert(s[0] == b.subrange(pos, pos + 32));
        assert(s.drop_first() =~= s2);
        assert(concat_map(s, hash_enc()) =~= b.subrange(pos, end));
    }
}

/// Decodes `count` length-prefixed storage-proof nodes.
pub open spec fn spec_decode_nodes(b: Seq<u8>, pos: int, count: nat) -> Option<
    (Seq<Seq<u8>>, int),
>
    decreases count,
{
    if count == 0 {
        Some((Seq::empty(), pos))
    } else {
        match spec_decode_compact_u32(b, pos) {
            None => None,
            Some((l, p1)) => if p1 + l <= b.len() {
                match spec_decode_nodes(b, p1 + l, (count - 1) as nat) {
                    None => None,
                    Some((s, end)) => Some((seq![b.subrange(p1, p1 + l)] + s, end)),
                }
            } else {
                None
            },
        }
    }
}

pub proof fn lemma_decode_nodes_round_trip(b: Seq<u8>, pos: int, count: nat)
    requires
        0 <= pos <= b.len(),
        spec_decode_nodes(b, pos, count) is Some,
    ensures
        ({
            let (s, end) = spec_decode_nodes(b, pos, count).unwrap();
            &&& pos <= end <= b.len()
            &&& s.len() == count
            &&& concat_map(s, node_enc()) == b.subrange(pos, end)
        }),
    decreases count,
{
    let (s, end) = spec_decode_nodes(b, pos, count).unwrap();
    if count == 0 {
        assert(concat_map(s, node_enc()) =~= b.subrange(pos, end));
    } else {
        let (l, p1) = spec_decode_compact_u32(b, pos).unwrap();
        let (s2, _end2) = spec_decode_nodes(b, p1 + l, (count - 1) as nat).unwrap();
        lemma_compact_u32_round_trip(b, pos);
        lemma_decode_nodes_round_trip(b, p1 + l, (count - 1) as nat);
        assert(s[0] == b.subrange(p1, p1 + l));
        assert(s.drop_first() =~= s2);
        assert(s[0].len() == l);
        assert(node_enc()(s[0]) == b.subrange(pos, p1) + b.subrange(p1, p1 + l));
        assert(concat_map(s, node_enc()) =~= b.subrange(pos, end));
    }
}

proof fn lemma_fundamental_div_mod_converse_pub(x: int, d: int, q: int, r: int)
    requires
        d != 0,
        0 <= r < d,
        x == q * d + r,
    ensures
        r == x % d,
        q == x / d,
{
    vstd::arithmetic::div_mod::lemma_fundamental_div_mod_converse(x, d, q, r);
}

/// A decoded membership proof: the number of leaves in the mountain range
/// when the proof was generated, the (position, leaf index) pair of every
/// proven leaf, and the sibling hashes of the proof path.
pub struct MmrProofData {
    pub leaf_count: u64,
    pub leaf_positions_and_indices: Vec<(u64, u64)>,
    pub items: Vec<Vec<u8>>,
}

/// Mathematical content of an [`MmrProofData`].
pub struct MmrProofView {
    pub leaf_count: u64,
    pub pairs: Seq<(u64, u64)>,
    pub hashes: Seq<Seq<u8>>,
}

impl View for MmrProofData {
    type V = MmrProofView;

    open spec fn view(&self) -> MmrProofView {
        MmrProofView {
            leaf_count: self.leaf_count,
            pairs: self.leaf_positions_and_indices@,
            hashes: self.items.deep_view(),
        }
    }
}

/// Every sibling hash of a well-formed membership proof is 32 bytes.
pub open spec fn mmr_view_wf(v: MmrProofView) -> bool {
    forall|i: int| 0 <= i < v.hashes.len() ==> (#[trigger] v.hashes[i]).len() == 32
}

/// The byte encoding of a membership proof.
pub open spec fn spec_encode_mmr_proof(v: MmrProofView) -> Seq<u8> {
    le_bytes(v.leaf_count as nat, 8) + spec_compact_u32(v.pairs.len()) + concat_map(
        v.pairs,
        pair_enc(),
    ) + spec_compact_u32(v.hashes.len()) + concat_map(v.hashes, hash_enc())
}

/// The membership-proof decoder: `None` unless the whole of `b` is the
/// canonical encoding of one proof.
pub open spec fn spec_decode_mmr_proof(b: Seq<u8>) -> Option<MmrProofView> {
    match spec_decode_u64(b, 0) {
        None => None,
        Some((leaf_count, p1)) => match spec_decode_compact_u32(b, p1) {
            None => None,
            Some((n1, p2)) => match spec_decode_pairs(b, p2, n1 as nat) {
                None => None,
                Some((pairs, p3)) => match spec_decode_compact_u32(b, p3) {
                    None => None,
                    Some((n2, p4)) => match spec_decode_hashes(b, p4, n2 as nat) {
                        None => None,
                        Some((hashes, p5)) => if p5 == b.len() {
                            Some(MmrProofView { leaf_count, pairs, hashes })
                        } else {
                            None
                        },
                    },
                },
            },
        },
    }
}

/// Encoding a decoded membership proof gives the input bytes back, and the
/// decoded proof is well formed.
pub proof fn lemma_mmr_proof_round_trip(b: Seq<u8>)
    requires
        spec_decode_mmr_proof(b) is Some,
    ensures
        spec_encode_mmr_proof(spec_decode_mmr_proof(b).unwrap()) == b,
        mmr_view_wf(spec_decode_mmr_proof(b).unwrap()),
{
    let v = spec_decode_mmr_proof(b).unwrap();
    let (leaf_count, p1) = spec_decode_u64(b, 0).unwrap();
    let (n1, p2) = spec_decode_compact_u32(b, p1).unwrap();
    let (pairs, p3) = spec_decode_pairs(b, p2, n1 as nat).unwrap();
    let (n2, p4) = spec_decode_compact_u32(b, p3).unwrap();
    let (hashes, p5) = spec_decode_hashes(b, p4, n2 as nat).unwrap();
    lemma_decode_u64_round_trip(b, 0);
    lemma_compact_u32_round_trip(b, p1);
    lemma_decode_pairs_round_trip(b, p2, n1 as nat);
    lemma_compact_u32_round_trip(b, p3);
    lemma_decode_hashes_round_trip(b, p4, n2 as nat);
    assert(spec_encode_mmr_proof(v) == b.subrange(0, p1) + b.subrange(p1, p2) + b.subrange(
        p2,
        p3,
    ) + b.subrange(p3, p4) + b.subrange(p4, p5));
    assert(b.subrange(0, p1) + b.subrange(p1, p2) + b.subrange(p2, p3) + b.subrange(p3, p4)
        + b.subrange(p4, p5) =~= b);
}

/// Appends every byte of `src` to `out`.
pub fn write_bytes(src: &Vec<u8>, out: &mut Vec<u8>)
    ensures
        final(out)@ == old(out)@ + src@,
{
    let mut j: usize = 0;
    while j < src.len()
        invariant
            j <= src@.len(),
            out@ == old(out)@ + src@.take(j as int),
        decreases src@.len() - j,
    {
        let ghost out0 = out@;
        out.push(src[j]);
        j = j + 1;
        proof {
            assert(out@ =~= old(out)@ + src@.take(j as int));
        }
    }
    proof {
        assert(src@.take(src@.len() as int) =~= src@);
    }
}

/// Encodes a membership proof; inverse of [`decode_mmr_proof`] on its range.
pub fn encode_mmr_proof(p: &MmrProofData) -> (r: Vec<u8>)
    requires
        p@.pairs.len() <= 0xFFFF_FFFF,
        p@.hashes.len() <= 0xFFFF_FFFF,
        mmr_view_wf(p@),
    ensures
        r@ == spec_encode_mmr_proof(p@),
{
    let mut out: Vec<u8> = Vec::new();
    write_le(p.leaf_count, 8, &mut out);
    encode_compact_u32(p.leaf_positions_and_indices.len() as u32, &mut out);
    let ghost head = out@;
    let mut i: usize = 0;
    while i < p.leaf_positions_and_indices.len()
        invariant
            i <= p@.pairs.len(),
            out@ == head + concat_map(p@.pairs.take(i as int), pair_enc()),
            head == le_bytes(p@.leaf_count as nat, 8) + spec_compact_u32(p@.pairs.len()),
        decreases p@.pairs.len() - i,
    {
        let pair = p.leaf_positions_and_indices[i];
        write_le(pair.0, 8, &mut out);
        write_le(pair.1, 8, &mut out);
        i = i + 1;
        proof {
            assert(p@.pairs.take(i as int) =~= p@.pairs.take(i - 1).push(p@.pairs[i - 1]));
            lemma_concat_map_push(p@.pairs.take(i - 1), pair_enc(), p@.pairs[i - 1]);
            assert(out@ =~= head + concat_map(p@.pairs.take(i as int), pair_enc()));
        }
    }
    proof {
        assert(p@.pairs.take(p@.pairs.len() as int) =~= p@.pairs);
    }
    encode_compact_u32(p.items.len() as u32, &mut out);
    let ghost mid = out@;
    let mut k: usize = 0;
    while k < p.items.len()
        invariant
            k <= p@.hashes.len(),
            p@.hashes.len() == p.items@.len(),
            out@ == mid + concat_map(p@.hashes.take(k as int), hash_enc()),
            forall|j: int| 0 <= j < p.items@.len() ==> p@.hashes[j] == (#[trigger] p.items@[j])@,
        decreases p@.hashes.len() - k,
    {
        write_bytes(&p.items[k], &mut out);
        k = k + 1;
        proof {
            assert(p@.hashes.take(k as int) =~= p@.hashes.take(k - 1).push(p@.hashes[k - 1]));
            lemma_concat_map_push(p@.hashes.take(k - 1), hash_enc(), p@.hashes[k - 1]);
            assert(out@ =~= mid + concat_map(p@.hashes.take(k as int), hash_enc()));
        }
    }
    proof {
        assert(p@.hashes.take(p@.hashes.len() as int) =~= p@.hashes);
        assert(out@ =~= spec_encode_mmr_proof(p@));
    }
    out
}

/// Extends a partial decode with a list result.
pub open spec fn seq_cont<T>(prefix: Seq<T>, r: Option<(Seq<T>, int)>) -> Option<(Seq<T>, int)> {
    match r {
        Some((s, end)) => Some((prefix + s, end)),
        None => None,
    }
}

/// Reads `count` (position, leaf index) pairs; agrees exactly with
/// [`spec_decode_pairs`].
pub fn decode_pairs(b: &Vec<u8>, pos: usize, count: u32) -> (r: Option<(Vec<(u64, u64)>, usize)>)
    ensures
        match r {
            Some(v_end) => spec_decode_pairs(b@, pos as int, count as nat) == Some(
                (v_end.0@, v_end.1 as int),
            ),
            None => spec_decode_pairs(b@, pos as int, count as nat) is None,
        },
{
    let mut acc: Vec<(u64, u64)> = Vec::new();
    let mut cur: usize = pos;
    let mut i: u32 = 0;
    while i < count
        invariant
            i <= count,
            seq_cont(acc@, spec_decode_pairs(b@, cur as int, (count - i) as nat))
                == spec_decode_pairs(b@, pos as int, count as nat),
        decreases count - i,
    {
        match read_le(b, cur, 8) {
            None => {
                return None;
            },
            Some((a, p1)) => {
                match read_le(b, p1, 8) {
                    None => {
                        return None;
                    },
                    Some((c, p2)) => {
                        proof {
                            let rec = spec_decode_pairs(b@, p2 as int, (count - i - 1) as nat);
                            if rec is Some {
                                let (s, end) = rec.unwrap();
                                assert(acc@ + (seq![(a, c)] + s) =~= acc@.push((a, c)) + s);
                            }
                        }
                        acc.push((a, c));
                        cur = p2;
                        i = i + 1;
                    },
                }
            },
        }
    }
    proof {
        assert(acc@ + Seq::<(u64, u64)>::empty() =~= acc@);
    }
    Some((acc, cur))
}

/// Reads `n` raw bytes at `pos`; `None` exactly when fewer remain.
pub fn read_bytes(b: &Vec<u8>, pos: usize, n: usize) -> (r: Option<(Vec<u8>, usize)>)
    ensures
        match r {
            Some(v_end) => {
                &&& pos + n <= b@.len()
                &&& v_end.1 == pos + n
                &&& v_end.0@ == b@.subrange(pos as int, pos + n)
            },
            None => pos + n > b@.len(),
        },
{
    if pos > b.len() || n > b.len() - pos {
        return None;
    }
    let mut v: Vec<u8> = Vec::new();
    let mut j: usize = 0;
    while j < n
        invariant
            j <= n,
            pos + n <= b@.len(),
            pos + n <= usize::MAX,
            v@ == b@.subrange(pos as int, pos + j),
        decreases n - j,
    {
        v.push(b[pos + j]);
        j = j + 1;
        proof {
            assert(v@ =~= b@.subrange(pos as int, pos + j));
        }
    }
    Some((v, pos + n))
}

/// Reads `count` raw 32-byte hashes; agrees exactly with
/// [`spec_decode_hashes`].
pub fn decode_hashes(b: &Vec<u8>, pos: usize, count: u32) -> (r: Option<(Vec<Vec<u8>>, usize)>)
    ensures
        match r {
            Some(v_end) => spec_decode_hashes(b@, pos as int, count as nat) == Some(
                (v_end.0.deep_view(), v_end.1 as int),
            ),
            None => spec_decode_hashes(b@, pos as int, count as nat) is None,
        },
{
    let mut acc: Vec<Vec<u8>> = Vec::new();
    let mut cur: usize = pos;
    let mut i: u32 = 0;
    while i < count
        invariant
            i <= count,
            seq_cont(acc.deep_view(), spec_decode_hashes(b@, cur as int, (count - i) as nat))
                == spec_decode_hashes(b@, pos as int, count as nat),
        decreases count - i,
    {
        match read_bytes(b, cur, 32) {
            None => {
                return None;
            },
            Some((h, p1)) => {
                proof {
                    let rec = spec_decode_hashes(b@, p1 as int, (count - i - 1) as nat);
                    if rec is Some {
                        let (s, end) = rec.unwrap();
                        assert(acc.deep_view() + (seq![h@] + s) =~~= acc.deep_view().push(h@)
                            + s);
                    }
                }
                let ghost acc0 = acc.deep_view();
                let ghost hv = h@;
                acc.push(h);
                proof {
                    assert(acc.deep_view() =~~= acc0.push(hv));
                }
                cur = p1;
                i = i + 1;
            },
        }
    }
    proof {
        assert(acc.deep_view() + Seq::<Seq<u8>>::empty() =~~= acc.deep_view());
    }
    Some((acc, cur))
}

/// Decodes a membership proof from the whole of `bytes`; agrees exactly with
/// [`spec_decode_mmr_proof`].
pub fn decode_mmr_proof(bytes: &Vec<u8>) -> (r: Option<MmrProofData>)
    ensures
        match r {
            Some(p) => spec_decode_mmr_proof(bytes@) == Some(p@),
            None => spec_decode_mmr_proof(bytes@) is None,
        },
{
    let (leaf_count, p1) = match read_le(bytes, 0, 8) {
        Some(x) => x,
        None => {
            return None;
        },
    };
    let (n1, p2) = match decode_compact_u32(bytes, p1) {
        Some(x) => x,
        None => {
            return None;
        },
    };
    let (pairs, p3) = match decode_pairs(bytes, p2, n1) {
        Some(x) => x,
        None => {
            return None;
        },
    };
    let (n2, p4) = match decode_compact_u32(bytes, p3) {
        Some(x) => x,
        None => {
            return None;
        },
    };
    let (hashes, p5) = match decode_hashes(bytes, p4, n2) {
        Some(x) => x,
        None => {
            return None;
        },
    };
    if p5 != bytes.len() {
        return None;
    }
    Some(MmrProofData { leaf_count, leaf_positions_and_indices: pairs, items: hashes })
}

/// The hash algorithm a Substrate storage proof is built with.
#[derive(Clone, Copy, Debug)]
pub enum HashAlgorithm {
    Keccak,
    Blake2,
}

/// The tag byte of a hash algorithm.
pub open spec fn hasher_byte(h: HashAlgorithm) -> u8 {
    match h {
        HashAlgorithm::Keccak => 0u8,
        HashAlgorithm::Blake2 => 1u8,
    }
}

/// A decoded Substrate storage proof: the hash algorithm and the flat list
/// of trie nodes.
pub struct SubstrateStateProof {
    pub hasher: HashAlgorithm,
    pub storage_proof: Vec<Vec<u8>>,
}

/// Mathematical content of a [`SubstrateStateProof`].
pub struct StateProofView {
    pub hasher: HashAlgorithm,
    pub nodes: Seq<Seq<u8>>,
}

impl View for SubstrateStateProof {
    type V = StateProofView;

    open spec fn view(&self) -> StateProofView {
        StateProofView { hasher: self.hasher, nodes: self.storage_proof.deep_view() }
    }
}

/// Every node of a well-formed storage proof fits its compact length prefix.
pub open spec fn state_proof_view_wf(v: StateProofView) -> bool {
    forall|i: int| 0 <= i < v.nodes.len() ==> (#[trigger] v.nodes[i]).len() < 0x1_0000_0000
}

/// The byte encoding of a storage proof.
pub open spec fn spec_encode_state_proof(v: StateProofView) -> Seq<u8> {
    seq![hasher_byte(v.hasher)] + spec_compact_u32(v.nodes.len()) + concat_map(
        v.nodes,
        node_enc(),
    )
}

/// The storage-proof decoder: `None` unless the whole of `b` is the
/// canonical encoding of one proof.
pub open spec fn spec_decode_state_proof(b: Seq<u8>) -> Option<StateProofView> {
    if b.len() < 1 {
        None
    } else {
        let h = if b[0] == 0 {
            Some(HashAlgorithm::Keccak)
        } else if b[0] == 1 {
            Some(HashAlgorithm::Blake2)
        } else {
            None
        };
        match h {
            None => None,
            Some(hasher) => match spec_decode_compact_u32(b, 1) {
                None => None,
                Some((n, p1)) => match spec_decode_nodes(b, p1, n as nat) {
                    None => None,
                    Some((nodes, end)) => if end == b.len() {
                        Some(StateProofView { hasher, nodes })
                    } else {
                        None
                    },
                },
            },
        }
    }
}

/// Encoding a decoded storage proof gives the input bytes back.
pub proof fn lemma_state_proof_round_trip(b: Seq<u8>)
    requires
        spec_decode_state_proof(b) is Some,
    ensures
        spec_encode_state_proof(spec_decode_state_proof(b).unwrap()) == b,
        state_proof_view_wf(spec_decode_state_proof(b).unwrap()),
{
    let v = spec_decode_state_proof(b).unwrap();
    let (n, p1) = spec_decode_compact_u32(b, 1).unwrap();
    let (nodes, end) = spec_decode_nodes(b, p1, n as nat).unwrap();
    lemma_compact_u32_round_trip(b, 1);
    lemma_decode_nodes_round_trip(b, p1, n as nat);
    assert(seq![b[0]] =~= b.subrange(0, 1));
    assert(spec_encode_state_proof(v) == b.subrange(0, 1) + b.subrange(1, p1) + b.subrange(
        p1,
        end,
    ));
    assert(b.subrange(0, 1) + b.subrange(1, p1) + b.subrange(p1, end) =~= b);
    assert forall|i: int| 0 <= i < v.nodes.len() implies (#[trigger] v.nodes[i]).len()
        < 0x1_0000_0000 by {
        lemma_nodes_item_bound(b, p1, n as nat, i);
    }
}

/// Every node a successful node-list decode returns is shorter than `2^32`.
proof fn lemma_nodes_item_bound(b: Seq<u8>, pos: int, count: nat, i: int)
    requires
        0 <= pos <= b.len(),
        spec_decode_nodes(b, pos, count) is Some,
        0 <= i < spec_decode_nodes(b, pos, count).unwrap().0.len(),
    ensures
        spec_decode_nodes(b, pos, count).unwrap().0[i].len() < 0x1_0000_0000,
    decreases count,
{
    let (s, end) = spec_decode_nodes(b, pos, count).unwrap();
    let (l, p1) = spec_decode_compact_u32(b, pos).unwrap();
    if i == 0 {
        assert(s[0] == b.subrange(p1, p1 + l));
    } else {
        lemma_compact_u32_round_trip(b, pos);
        lemma_nodes_item_bound(b, p1 + l, (count - 1) as nat, i - 1);
        let (s2, _e) = spec_decode_nodes(b, p1 + l, (count - 1) as nat).unwrap();
        assert(s.drop_first() =~= s2);
        assert(s[i] == s2[i - 1]);
    }
}

/// Reads `count` length-prefixed nodes; agrees exactly with
/// [`spec_decode_nodes`].
pub fn decode_nodes(b: &Vec<u8>, pos: usize, count: u32) -> (r: Option<(Vec<Vec<u8>>, usize)>)
    ensures
        match r {
            Some(v_end) => spec_decode_nodes(b@, pos as int, count as nat) == Some(
                (v_end.0.deep_view(), v_end.1 as int),
            ),
            None => spec_decode_nodes(b@, pos as int, count as nat) is None,
        },
{
    let mut acc: Vec<Vec<u8>> = Vec::new();
    let mut cur: usize = pos;
    let mut i: u32 = 0;
    while i < count
        invariant
            i <= count,
            seq_cont(acc.deep_view(), spec_decode_nodes(b@, cur as int, (count - i) as nat))
                == spec_decode_nodes(b@, pos as int, count as nat),
        decreases count - i,
    {
        match decode_compact_u32(b, cur) {
            None => {
                return None;
            },
            Some((l, p1)) => {
                match read_bytes(b, p1, l as usize) {
                    None => {
                        return None;
                    },
                    Some((node, p2)) => {
                        proof {
                            let rec = spec_decode_nodes(b@, p2 as int, (count - i - 1) as nat);
                            if rec is Some {
                                let (s, end) = rec.unwrap();
                                assert(acc.deep_view() + (seq![node@] + s) =~~= acc.deep_view().push(
                                    node@,
                                ) + s);
                            }
                        }
                        let ghost acc0 = acc.deep_view();
                        let ghost nv = node@;
                        acc.push(node);
                        proof {
                            assert(acc.deep_view() =~~= acc0.push(nv));
                        }
                        cur = p2;
                        i = i + 1;
                    },
                }
            },
        }
    }
    proof {
        assert(acc.deep_view() + Seq::<Seq<u8>>::empty() =~~= acc.deep_view());
    }
    Some((acc, cur))
}

/// Decodes a storage proof from the whole of `bytes`; agrees exactly with
/// [`spec_decode_state_proof`].
pub fn decode_state_proof(bytes: &Vec<u8>) -> (r: Option<SubstrateStateProof>)
    ensures
        match r {
            Some(p) => spec_decode_state_proof(bytes@) == Some(p@),
            None => spec_decode_state_proof(bytes@) is None,
        },
{
    if bytes.len() < 1 {
        return None;
    }
    let tag = bytes[0];
    let hasher = if tag == 0 {
        HashAlgorithm::Keccak
    } else if tag == 1 {
        HashAlgorithm::Blake2
    } else {
        return None;
    };
    let (n, p1) = match decode_compact_u32(bytes, 1) {
        Some(x) => x,
        None => {
            return None;
        },
    };
    let (nodes, end) = match decode_nodes(bytes, p1, n) {
        Some(x) => x,
        None => {
            return None;
        },
    };
    if end != bytes.len() {
        return None;
    }
    Some(SubstrateStateProof { hasher, storage_proof: nodes })
}

/// Encodes a storage proof; inverse of [`decode_state_proof`] on its range.
pub fn encode_state_proof(p: &SubstrateStateProof) -> (r: Vec<u8>)
    requires
        p@.nodes.len() <= 0xFFFF_FFFF,
        state_proof_view_wf(p@),
    ensures
        r@ == spec_encode_state_proof(p@),
{
    let mut out: Vec<u8> = Vec::new();
    match p.hasher {
        HashAlgorithm::Keccak => out.push(0u8),
        HashAlgorithm::Blake2 => out.push(1u8),
    }
    encode_compact_u32(p.storage_proof.len() as u32, &mut out);
    let ghost head = out@;
    let mut k: usize = 0;
    while k < p.storage_proof.len()
        invariant
            k <= p@.nodes.len(),
            p@.nodes.len() == p.storage_proof@.len(),
            state_proof_view_wf(p@),
            out@ == head + concat_map(p@.nodes.take(k as int), node_enc()),
            forall|j: int|
                0 <= j < p.storage_proof@.len() ==> p@.nodes[j] == (
                #[trigger] p.storage_proof@[j])@,
        decreases p@.nodes.len() - k,
    {
        encode_compact_u32(p.storage_proof[k].len() as u32, &mut out);
        write_bytes(&p.storage_proof[k], &mut out);
        k = k + 1;
        proof {
            assert(p@.nodes.take(k as int) =~= p@.nodes.take(k - 1).push(p@.nodes[k - 1]));
            lemma_concat_map_push(p@.nodes.take(k - 1), node_enc(), p@.nodes[k - 1]);
            assert(out@ =~= head + concat_map(p@.nodes.take(k as int), node_enc()));
        }
    }
    proof {
        assert(p@.nodes.take(p@.nodes.len() as int) =~= p@.nodes);
        assert(out@ =~= spec_encode_state_proof(p@));
    }
    out
}

/// A subrange known to be a concatenation splits at the seam.
pub proof fn lemma_subrange_split(b: Seq<u8>, pos: int, head: Seq<u8>, rest: Seq<u8>)
    requires
        0 <= pos,
        pos + head.len() + rest.len() <= b.len(),
        b.subrange(pos, pos + head.len() + rest.len()) == head + rest,
    ensures
        b.subrange(pos, pos + head.len()) == head,
        b.subrange(pos + head.len(), pos + head.len() + rest.len()) == rest,
{
    let hl = head.len() as int;
    let rl = rest.len() as int;
    assert forall|j: int| 0 <= j < hl implies b[pos + j] == head[j] by {
        assert(b.subrange(pos, pos + hl + rl)[j] == (head + rest)[j]);
    }
    assert(b.subrange(pos, pos + hl) =~= head);
    assert forall|j: int| 0 <= j < rl implies b[pos + hl + j] == rest[j] by {
        assert(b.subrange(pos, pos + hl + rl)[hl + j] == (head + rest)[hl + j]);
    }
    assert(b.subrange(pos + hl, pos + hl + rl) =~= rest);
}

/// Decoding accepts what encoding produces: an eight-byte word written at
/// `pos` reads back as itself.
pub proof fn lemma_decode_u64_complete(b: Seq<u8>, pos: int, x: u64)
    requires
        0 <= pos,
        pos + 8 <= b.len(),
        b.subrange(pos, pos + 8) == le_bytes(x as nat, 8),
    ensures
        spec_decode_u64(b, pos) == Some((x, pos + 8)),
{
    lemma_pow256_values();
    lemma_le_bytes_val(x as nat, 8);
}

/// Decoding accepts what encoding produces: the canonical compact encoding
/// of `n` written at `pos` reads back as `n`.
pub proof fn lemma_decode_compact_u32_complete(b: Seq<u8>, pos: int, n: u32)
    requires
        0 <= pos,
        pos + spec_compact_u32(n as nat).len() <= b.len(),
        b.subrange(pos, pos + spec_compact_u32(n as nat).len()) == spec_compact_u32(n as nat),
    ensures
        spec_decode_compact_u32(b, pos) == Some(
            (n, pos + spec_compact_u32(n as nat).len()),
        ),
{
    lemma_pow256_values();
    let e = spec_compact_u32(n as nat);
    if n < 64 {
        assert(e =~= seq![(n * 4) as u8]);
        assert(b[pos] == e[0]);
        assert((n * 4) % 4 == 0 && (n * 4) / 4 == n);
    } else if n < 16384 {
        let x = (n * 4 + 1) as nat;
        lemma_le_bytes_len(x, 2);
        assert(e.len() == 2);
        lemma_le_bytes_val(x, 2);
        assert(b.subrange(pos, pos + 2) == e);
        assert(le_val(b.subrange(pos, pos + 2)) == x);
        assert(b[pos] == e[0]);
        assert(e[0] == (x % 256) as u8);
        assert((x % 256) % 4 == x % 4) by {
            vstd::arithmetic::div_mod::lemma_mod_mod(x as int, 4, 64);
        }
        lemma_fundamental_div_mod_converse_pub(x as int, 4, n as int, 1);
        assert(x % 4 == 1);
        assert((b[pos] as nat) % 4 == 1);
    } else if n < 1073741824 {
        let x = (n * 4 + 2) as nat;
        lemma_le_bytes_len(x, 4);
        assert(e.len() == 4);
        lemma_le_bytes_val(x, 4);
        assert(b.subrange(pos, pos + 4) == e);
        assert(le_val(b.subrange(pos, pos + 4)) == x);
        assert(b[pos] == e[0]);
        assert(e[0] == (x % 256) as u8);
        assert((x % 256) % 4 == x % 4) by {
            vstd::arithmetic::div_mod::lemma_mod_mod(x as int, 4, 64);
        }
        lemma_fundamental_div_mod_converse_pub(x as int, 4, n as int, 2);
        assert(x % 4 == 2);
        assert((b[pos] as nat) % 4 == 2);
    } else {
        lemma_le_bytes_len(n as nat, 4);
        assert(e.len() == 5);
        assert(b[pos] == e[0]);
        assert(e[0] == 3u8);
        assert(b.subrange(pos + 1, pos + 5) =~= e.subrange(1, 5));
        assert(e.subrange(1, 5) =~= le_bytes(n as nat, 4));
        lemma_le_bytes_val(n as nat, 4);
        assert(le_val(b.subrange(pos + 1, pos + 5)) == n as nat);
    }
}

/// Every encoded pair takes sixteen bytes.
pub proof fn lemma_pairs_enc_len(s: Seq<(u64, u64)>)
    ensures
        concat_map(s, pair_enc()).len() == 16 * s.len(),
    decreases s.len(),
{
    if s.len() > 0 {
        lemma_pairs_enc_len(s.drop_first());
        lemma_le_bytes_len(s[0].0 as nat, 8);
        lemma_le_bytes_len(s[0].1 as nat, 8);
    }
}

/// Every encoded 32-byte hash takes 32 bytes.
pub proof fn lemma_hashes_enc_len(s: Seq<Seq<u8>>)
    requires
        forall|i: int| 0 <= i < s.len() ==> (#[trigger] s[i]).len() == 32,
    ensures
        concat_map(s, hash_enc()).len() == 32 * s.len(),
    decreases s.len(),
{
    if s.len() > 0 {
        assert(forall|i: int|
            0 <= i < s.drop_first().len() ==> (#[trigger] s.drop_first()[i]).len() == 32);
        lemma_hashes_enc_len(s.drop_first());
    }
}

/// Decoding accepts what encoding produces: a run of encoded pairs written
/// at `pos` reads back as itself.
pub proof fn lemma_decode_pairs_complete(b: Seq<u8>, pos: int, s: Seq<(u64, u64)>)
    requires
        0 <= pos,
        pos + 16 * s.len() <= b.len(),
        b.subrange(pos, pos + 16 * s.len()) == concat_map(s, pair_enc()),
    ensures
        spec_decode_pairs(b, pos, s.len()) == Some((s, pos + 16 * s.len())),
    decreases s.len(),
{
    lemma_pairs_enc_len(s);
    if s.len() == 0 {
        assert(s =~= Seq::<(u64, u64)>::empty());
    } else {
        let f = pair_enc();
        let head = f(s[0]);
        let le1 = le_bytes(s[0].0 as nat, 8);
        let le2 = le_bytes(s[0].1 as nat, 8);
        lemma_le_bytes_len(s[0].0 as nat, 8);
        lemma_le_bytes_len(s[0].1 as nat, 8);
        assert(head == le1 + le2);
        assert(head.len() == 16);
        lemma_pairs_enc_len(s.drop_first());
        assert(concat_map(s, f) == head + concat_map(s.drop_first(), f));
        lemma_subrange_split(b, pos, head, concat_map(s.drop_first(), f));
        lemma_subrange_split(b, pos, le1, le2);
        lemma_decode_u64_complete(b, pos, s[0].0);
        lemma_decode_u64_complete(b, pos + 8, s[0].1);
        lemma_decode_pairs_complete(b, pos + 16, s.drop_first());
        assert((s[0].0, s[0].1) == s[0]);
        assert(seq![s[0]] + s.drop_first() =~= s);
    }
}

/// Decoding accepts what encoding produces: a run of 32-byte hashes written
/// at `pos` reads back as itself.
pub proof fn lemma_decode_hashes_complete(b: Seq<u8>, pos: int, s: Seq<Seq<u8>>)
    requires
        0 <= pos,
        forall|i: int| 0 <= i < s.len() ==> (#[trigger] s[i]).len() == 32,
        pos + 32 * s.len() <= b.len(),
        b.subrange(pos, pos + 32 * s.len()) == concat_map(s, hash_enc()),
    ensures
        spec_decode_hashes(b, pos, s.len()) == Some((s, pos + 32 * s.len())),
    decreases s.len(),
{
    lemma_hashes_enc_len(s);
    if s.len() == 0 {
        assert(s =~= Seq::<Seq<u8>>::empty());
    } else {
        let f = hash_enc();
        assert(forall|i: int|
            0 <= i < s.drop_first().len() ==> (#[trigger] s.drop_first()[i]).len() == 32);
        lemma_hashes_enc_len(s.drop_first());
        assert(concat_map(s, f) == s[0] + concat_map(s.drop_first(), f));
        lemma_subrange_split(b, pos, s[0], concat_map(s.drop_first(), f));
        lemma_decode_hashes_complete(b, pos + 32, s.drop_first());
        assert(seq![b.subrange(pos, pos + 32)] + s.drop_first() =~= s);
    }
}

/// Decoding accepts what encoding produces: a run of length-prefixed nodes
/// written at `pos` reads back as itself.
pub proof fn lemma_decode_nodes_complete(b: Seq<u8>, pos: int, s: Seq<Seq<u8>>)
    requires
        0 <= pos,
        forall|i: int| 0 <= i < s.len() ==> (#[trigger] s[i]).len() < 0x1_0000_0000,
        pos + concat_map(s, node_enc()).len() <= b.len(),
        b.subrange(pos, pos + concat_map(s, node_enc()).len()) == concat_map(s, node_enc()),
    ensures
        spec_decode_nodes(b, pos, s.len()) == Some(
            (s, pos + concat_map(s, node_enc()).len()),
        ),
    decreases s.len(),
{
    let f = node_enc();
    if s.len() == 0 {
        assert(s =~= Seq::<Seq<u8>>::empty());
        assert(concat_map(s, f).len() == 0);
    } else {
        let node = s[0];
        let cl = spec_compact_u32(node.len()).len();
        let head = f(node);
        assert(head == spec_compact_u32(node.len()) + node);
        assert(head.len() == cl + node.len());
        let rest_len = concat_map(s.drop_first(), f).len();
        assert(concat_map(s, f) == head + concat_map(s.drop_first(), f));
        assert(concat_map(s, f).len() == head.len() + rest_len);
        lemma_subrange_split(b, pos, head, concat_map(s.drop_first(), f));
        lemma_subrange_split(b, pos, spec_compact_u32(node.len()), node);
        lemma_decode_compact_u32_complete(b, pos, node.len() as u32);
        assert(node.len() as u32 as nat == node.len());
        assert(forall|i: int|
            0 <= i < s.drop_first().len() ==> (#[trigger] s.drop_first()[i]).len()
                < 0x1_0000_0000);
        lemma_decode_nodes_complete(b, pos + cl + node.len(), s.drop_first());
        assert(seq![b.subrange(pos + cl, pos + cl + node.len())] + s.drop_first() =~= s);
    }
}

/// Decoding accepts what encoding produces: every well-formed membership
/// proof decodes from its own encoding. Together with
/// [`lemma_mmr_proof_round_trip`], encoding and decoding are inverse on the
/// whole wire format.
pub proof fn lemma_mmr_proof_complete(v: MmrProofView)
    requires
        mmr_view_wf(v),
        v.pairs.len() <= 0xFFFF_FFFF,
        v.hashes.len() <= 0xFFFF_FFFF,
    ensures
        spec_decode_mmr_proof(spec_encode_mmr_proof(v)) == Some(v),
{
    let b = spec_encode_mmr_proof(v);
    lemma_pow256_values();
    lemma_le_bytes_len(v.leaf_count as nat, 8);
    lemma_pairs_enc_len(v.pairs);
    lemma_hashes_enc_len(v.hashes);
    let c1 = spec_compact_u32(v.pairs.len());
    let c2 = spec_compact_u32(v.hashes.len());
    let p1: int = 8;
    let p2: int = p1 + c1.len();
    let p3: int = p2 + 16 * v.pairs.len();
    let p4: int = p3 + c2.len();
    let p5: int = p4 + 32 * v.hashes.len();
    assert(b.len() == p5);
    assert(b.subrange(0, p1) =~= le_bytes(v.leaf_count as nat, 8));
    lemma_decode_u64_complete(b, 0, v.leaf_count);
    assert(b.subrange(p1, p2 as int) =~= c1);
    lemma_decode_compact_u32_complete(b, p1, v.pairs.len() as u32);
    assert(b.subrange(p2 as int, p3 as int) =~= concat_map(v.pairs, pair_enc()));
    lemma_decode_pairs_complete(b, p2 as int, v.pairs);
    assert(b.subrange(p3 as int, p4 as int) =~= c2);
    lemma_decode_compact_u32_complete(b, p3 as int, v.hashes.len() as u32);
    assert(b.subrange(p4 as int, p5 as int) =~= concat_map(v.hashes, hash_enc()));
    lemma_decode_hashes_complete(b, p4 as int, v.hashes);
    assert(v == MmrProofView { leaf_count: v.leaf_count, pairs: v.pairs, hashes: v.hashes });
}

/// Decoding accepts what encoding produces: every well-formed storage proof
/// decodes from its own encoding.
pub proof fn lemma_state_proof_complete(v: StateProofView)
    requires
        state_proof_view_wf(v),
        v.nodes.len() <= 0xFFFF_FFFF,
    ensures
        spec_decode_state_proof(spec_encode_state_proof(v)) == Some(v),
{
    let b = spec_encode_state_proof(v);
    let c = spec_compact_u32(v.nodes.len());
    let body = concat_map(v.nodes, node_enc());
    let p1: int = 1 + c.len() as int;
    assert(b.len() == p1 + body.len());
    assert(b[0] == hasher_byte(v.hasher));
    assert(b.subrange(1, p1 as int) =~= c);
    lemma_decode_compact_u32_complete(b, 1, v.nodes.len() as u32);
    assert(b.subrange(p1, p1 + body.len() as int) =~= body);
    lemma_decode_nodes_complete(b, p1 as int, v.nodes);
    assert(v == StateProofView { hasher: v.hasher, nodes: v.nodes });
}

} // verus!



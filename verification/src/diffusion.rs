//! The hash-diffusion state: a byte buffer read as a ring of 32-byte blocks.
//!
//! The buffer is filled once from the seed and then advanced in rounds. A round
//! visits every ring position and mixes the block there into its successor
//! through SHA-256.

use crate::hash::{sha256, sha256_digest, BLOCK_SIZE};
use vstd::prelude::*;

verus! {

/// A buffer forms a ring when its length is a positive multiple of the block size.
pub open spec fn is_ring(s: Seq<u8>) -> bool {
    s.len() > 0 && s.len() % 32 == 0
}

/// Number of blocks in the ring.
pub open spec fn amount_block(s: Seq<u8>) -> int {
    s.len() as int / 32
}

/// The block at ring position `idx`.
pub open spec fn block(s: Seq<u8>, idx: int) -> Seq<u8> {
    s.subrange(32 * idx, 32 * idx + 32)
}

/// The ring position that follows `idx`.
pub open spec fn successor(s: Seq<u8>, idx: int) -> int {
    (idx + 1) % amount_block(s)
}

/// XOR of the first `k` seed bytes whose offset is congruent to `p` modulo `n`.
pub open spec fn lane_xor(seed: Seq<u8>, n: int, p: int, k: int) -> u8
    decreases k,
{
    if k <= 0 {
        0u8
    } else {
        let rest = lane_xor(seed, n, p, k - 1);
        if (k - 1) % n == p {
            rest ^ seed[k - 1]
        } else {
            rest
        }
    }
}

/// The buffer of `n` bytes after the whole seed has been folded into it: byte `p`
/// is the XOR of every seed byte at an offset congruent to `p` modulo `n`.
pub open spec fn absorbed(seed: Seq<u8>, n: int) -> Seq<u8> {
    Seq::new(n as nat, |p: int| lane_xor(seed, n, p, seed.len() as int))
}

/// The buffer position of seed offset `k + 1` follows that of offset `k`, and
/// wraps to 0 after the last byte of the buffer.
proof fn lemma_next_position(k: int, n: int)
    requires
        0 <= k,
        0 < n,
    ensures
        (k + 1) % n == if k % n == n - 1 {
            0
        } else {
            k % n + 1
        },
{
    vstd::arithmetic::div_mod::lemma_fundamental_div_mod(k, n);
    let q = k / n;
    let r = k % n;
    if r == n - 1 {
        assert(k + 1 == (q + 1) * n + 0) by (nonlinear_arith)
            requires
                k == n * q + r,
                r == n - 1,
        ;
        vstd::arithmetic::div_mod::lemma_fundamental_div_mod_converse(k + 1, n, q + 1, 0);
    } else {
        assert(k + 1 == q * n + (r + 1)) by (nonlinear_arith)
            requires
                k == n * q + r,
        ;
        vstd::arithmetic::div_mod::lemma_fundamental_div_mod_converse(k + 1, n, q, r + 1);
    }
}

/// Builds the zero-filled buffer of `length_u8` bytes and folds the seed into it.
pub fn absorb_seed(seed: &Vec<u8>, length_u8: usize) -> (state: Vec<u8>)
    requires
        length_u8 > 0,
    ensures
        state@ == absorbed(seed@, length_u8 as int),
{
    let mut state: Vec<u8> = Vec::new();
    state.resize(length_u8, 0u8);
    let length: usize = seed.len();
    let mut pos: usize = 0;
    let mut k: usize = 0;
    while k < length
        invariant
            length == seed.len(),
            length_u8 > 0,
            state.len() == length_u8,
            k <= length,
            pos == k as int % length_u8 as int,
            forall|p: int|
                0 <= p < length_u8 ==> state[p] == #[trigger] lane_xor(
                    seed@,
                    length_u8 as int,
                    p,
                    k as int,
                ),
        decreases length - k,
    {
        let ghost before = state@;
        let byte: u8 = state[pos] ^ seed[k];
        state.set(pos, byte);
        proof {
            lemma_next_position(k as int, length_u8 as int);
            assert forall|p: int| 0 <= p < length_u8 implies state[p] == #[trigger] lane_xor(
                seed@,
                length_u8 as int,
                p,
                k as int + 1,
            ) by {
                assert(before[p] == lane_xor(seed@, length_u8 as int, p, k as int));
            }
        }
        k += 1;
        pos += 1;
        if pos == length_u8 {
            pos = 0;
        }
    }
    state
}

/// The buffer with block `b` perturbed: byte `j` of the block is XORed with `j + 1`.
pub open spec fn perturbed(s: Seq<u8>, b: int) -> Seq<u8> {
    Seq::new(
        s.len(),
        |k: int|
            if 32 * b <= k < 32 * b + 32 {
                s[k] ^ ((k - 32 * b + 1) as u8)
            } else {
                s[k]
            },
    )
}

/// The buffer as it goes into the hash step for the pair `(a, b)`: block `b` is
/// perturbed when it is byte for byte the same as block `a`.
pub open spec fn separated(s: Seq<u8>, a: int, b: int) -> Seq<u8> {
    if block(s, a) == block(s, b) {
        perturbed(s, b)
    } else {
        s
    }
}

/// The buffer after block `b` has taken in block `a` and the two digests:
/// `B[j] ^= digest_a[j] ^ digest_b[j] ^ A[j]` for every byte `j` of the block.
pub open spec fn folded(s: Seq<u8>, a: int, b: int, digest_a: Seq<u8>, digest_b: Seq<u8>) -> Seq<
    u8,
> {
    Seq::new(
        s.len(),
        |k: int|
            if 32 * b <= k < 32 * b + 32 {
                s[k] ^ (digest_a[k - 32 * b] ^ digest_b[k - 32 * b] ^ s[32 * a + (k - 32 * b)])
            } else {
                s[k]
            },
    )
}

/// The buffer after ring position `i` has been mixed into its successor.
pub open spec fn mixed(s: Seq<u8>, i: int) -> Seq<u8> {
    let b = successor(s, i);
    let p = separated(s, i, b);
    folded(p, i, b, sha256_digest(block(p, i)), sha256_digest(block(p, b)))
}

/// The buffer after the first `k` positions of a round.
pub open spec fn round_prefix(s: Seq<u8>, k: nat) -> Seq<u8>
    decreases k,
{
    if k == 0 {
        s
    } else {
        mixed(round_prefix(s, (k - 1) as nat), k - 1)
    }
}

/// The buffer after one full diffusion round.
pub open spec fn round(s: Seq<u8>) -> Seq<u8> {
    round_prefix(s, amount_block(s) as nat)
}

/// The buffer after `n` diffusion rounds.
pub open spec fn rounds(s: Seq<u8>, n: nat) -> Seq<u8>
    decreases n,
{
    if n == 0 {
        s
    } else {
        round(rounds(s, (n - 1) as nat))
    }
}

/// Offset of the first byte of block `idx`.
fn block_base(state: &Vec<u8>, idx: usize) -> (base: usize)
    requires
        is_ring(state@),
        idx < amount_block(state@),
    ensures
        base == 32 * idx,
        base + 32 <= state.len(),
{
    assert(32 * (idx + 1) <= state.len());
    BLOCK_SIZE * idx
}

/// Tells whether blocks `a` and `b` hold the same bytes.
pub fn blocks_identical(state: &Vec<u8>, a: usize, b: usize) -> (same: bool)
    requires
        is_ring(state@),
        a < amount_block(state@),
        b < amount_block(state@),
    ensures
        same == (block(state@, a as int) == block(state@, b as int)),
{
    let base_a: usize = block_base(state, a);
    let base_b: usize = block_base(state, b);
    let mut j: usize = 0;
    while j < BLOCK_SIZE
        invariant
            j <= 32,
            base_a == 32 * a,
            base_b == 32 * b,
            base_a + 32 <= state.len(),
            base_b + 32 <= state.len(),
            forall|k: int|
                0 <= k < j ==> #[trigger] block(state@, a as int)[k] == block(state@, b as int)[k],
        decreases 32 - j,
    {
        if state[base_a + j] != state[base_b + j] {
            assert(block(state@, a as int)[j as int] != block(state@, b as int)[j as int]);
            return false;
        }
        assert(block(state@, a as int)[j as int] == block(state@, b as int)[j as int]);
        j += 1;
    }
    assert(block(state@, a as int) =~= block(state@, b as int));
    true
}

/// Perturbs block `b` in place so that it no longer repeats its predecessor.
pub fn perturb_block(state: &mut Vec<u8>, b: usize)
    requires
        is_ring(old(state)@),
        b < amount_block(old(state)@),
    ensures
        final(state)@ == perturbed(old(state)@, b as int),
{
    let base: usize = block_base(state, b);
    let mut v: u8 = 1;
    let mut j: usize = 0;
    while j < BLOCK_SIZE
        invariant
            j <= 32,
            v == j + 1,
            base == 32 * b,
            base + 32 <= state.len(),
            state.len() == old(state).len(),
            forall|k: int|
                0 <= k < state.len() ==> state[k] == if base <= k < base + j {
                    old(state)[k] ^ ((k - base + 1) as u8)
                } else {
                    old(state)[k]
                },
        decreases 32 - j,
    {
        let byte: u8 = state[base + j] ^ v;
        state.set(base + j, byte);
        v += 1;
        j += 1;
    }
    assert(state@ =~= perturbed(old(state)@, b as int));
}

/// Folds block `a` and the digests of both blocks into block `b`.
///
/// `digest_a` and `digest_b` are the digests of blocks `a` and `b` as they stand
/// in the buffer.
pub fn fold_digests(
    state: &mut Vec<u8>,
    a: usize,
    b: usize,
    digest_a: &Vec<u8>,
    digest_b: &Vec<u8>,
)
    requires
        is_ring(old(state)@),
        a < amount_block(old(state)@),
        b < amount_block(old(state)@),
        digest_a.len() == BLOCK_SIZE,
        digest_b.len() == BLOCK_SIZE,
    ensures
        final(state)@ == folded(old(state)@, a as int, b as int, digest_a@, digest_b@),
{
    let base_a: usize = block_base(state, a);
    let base_b: usize = block_base(state, b);
    let mut j: usize = 0;
    while j < BLOCK_SIZE
        invariant
            j <= 32,
            base_a == 32 * a,
            base_b == 32 * b,
            base_a + 32 <= state.len(),
            base_b + 32 <= state.len(),
            digest_a.len() == 32,
            digest_b.len() == 32,
            state.len() == old(state).len(),
            forall|k: int|
                0 <= k < state.len() ==> state[k] == if base_b <= k < base_b + j {
                    old(state)[k] ^ (digest_a[k - base_b] ^ digest_b[k - base_b] ^ old(
                        state,
                    )[base_a + (k - base_b)])
                } else {
                    old(state)[k]
                },
        decreases 32 - j,
    {
        let byte: u8 = state[base_b + j] ^ (digest_a[j] ^ digest_b[j] ^ state[base_a + j]);
        state.set(base_b + j, byte);
        j += 1;
    }
    assert(state@ =~= folded(old(state)@, a as int, b as int, digest_a@, digest_b@));
}

/// Copies block `idx` out of the buffer.
pub fn copy_block(state: &Vec<u8>, idx: usize) -> (bytes: Vec<u8>)
    requires
        is_ring(state@),
        idx < amount_block(state@),
    ensures
        bytes@ == block(state@, idx as int),
{
    let base: usize = block_base(state, idx);
    let mut bytes: Vec<u8> = Vec::new();
    let mut j: usize = 0;
    while j < BLOCK_SIZE
        invariant
            j <= 32,
            base == 32 * idx,
            base + 32 <= state.len(),
            bytes.len() == j,
            forall|k: int| 0 <= k < j ==> bytes[k] == state[base + k],
        decreases 32 - j,
    {
        bytes.push(state[base + j]);
        j += 1;
    }
    assert(bytes@ =~= block(state@, idx as int));
    bytes
}

/// Mixes the block at ring position `i` into its successor.
///
/// If the two blocks are identical the successor is perturbed first. Both blocks
/// are then hashed, and the successor takes in the two digests and block `i`.
pub fn mix_position(state: &mut Vec<u8>, i: usize)
    requires
        is_ring(old(state)@),
        i < amount_block(old(state)@),
    ensures
        final(state)@ == mixed(old(state)@, i as int),
        final(state)@.len() == old(state)@.len(),
{
    let blocks: usize = state.len() / BLOCK_SIZE;
    let b: usize = (i + 1) % blocks;
    if blocks_identical(state, i, b) {
        perturb_block(state, b);
    }
    assert(state@ == separated(old(state)@, i as int, b as int));
    let digest_a: Vec<u8> = sha256(&copy_block(state, i));
    let digest_b: Vec<u8> = sha256(&copy_block(state, b));
    fold_digests(state, i, b, &digest_a, &digest_b);
}

/// Advances the buffer by one diffusion round: every ring position, in order, is
/// mixed into its successor.
pub fn next_hashing_state(state: &mut Vec<u8>)
    requires
        is_ring(old(state)@),
    ensures
        final(state)@ == round(old(state)@),
        final(state)@.len() == old(state)@.len(),
{
    let blocks: usize = state.len() / BLOCK_SIZE;
    let mut i: usize = 0;
    while i < blocks
        invariant
            i <= blocks,
            blocks == amount_block(old(state)@),
            state.len() == old(state).len(),
            is_ring(state@),
            state@ == round_prefix(old(state)@, i as nat),
        decreases blocks - i,
    {
        mix_position(state, i);
        i += 1;
    }
}

/// The 64-bit word that bytes `8 * i .. 8 * i + 8` of the buffer spell in
/// little-endian order.
pub open spec fn le_word(s: Seq<u8>, i: int) -> u64 {
    (s[8 * i] + 0x100 * s[8 * i + 1] + 0x1_0000 * s[8 * i + 2] + 0x100_0000 * s[8 * i + 3]
        + 0x1_0000_0000 * s[8 * i + 4] + 0x100_0000_0000 * s[8 * i + 5] + 0x1_0000_0000_0000 * s[8
        * i + 6] + 0x100_0000_0000_0000 * s[8 * i + 7]) as u64
}

/// The buffer read as consecutive little-endian 64-bit words.
pub open spec fn le_words(s: Seq<u8>) -> Seq<u64> {
    Seq::new((s.len() / 8) as nat, |i: int| le_word(s, i))
}

/// Reads the buffer as consecutive little-endian 64-bit words. The buffer is left
/// as it is.
pub fn harvest(state: &Vec<u8>) -> (words: Vec<u64>)
    ensures
        words@ == le_words(state@),
{
    let length_u64: usize = state.len() / 8;
    let mut words: Vec<u64> = Vec::new();
    let mut i: usize = 0;
    while i < length_u64
        invariant
            i <= length_u64,
            length_u64 == state.len() / 8,
            words.len() == i,
            forall|k: int| 0 <= k < i ==> words[k] == le_word(state@, k),
        decreases length_u64 - i,
    {
        let o: usize = 8 * i;
        let word: u64 = (state[o] as u64) + 0x100 * (state[o + 1] as u64) + 0x1_0000 * (state[o
            + 2] as u64) + 0x100_0000 * (state[o + 3] as u64) + 0x1_0000_0000 * (state[o
            + 4] as u64) + 0x100_0000_0000 * (state[o + 5] as u64) + 0x1_0000_0000_0000 * (state[o
            + 6] as u64) + 0x100_0000_0000_0000 * (state[o + 7] as u64);
        words.push(word);
        i += 1;
    }
    assert(words@ =~= le_words(state@));
    words
}

/// A ring keeps its length through any part of a round.
pub proof fn lemma_round_prefix_len(s: Seq<u8>, k: nat)
    ensures
        round_prefix(s, k).len() == s.len(),
    decreases k,
{
    if k > 0 {
        lemma_round_prefix_len(s, (k - 1) as nat);
    }
}

/// A ring keeps its length through any number of rounds.
pub proof fn lemma_rounds_len(s: Seq<u8>, n: nat)
    ensures
        rounds(s, n).len() == s.len(),
    decreases n,
{
    if n > 0 {
        lemma_rounds_len(s, (n - 1) as nat);
        lemma_round_prefix_len(rounds(s, (n - 1) as nat), amount_block(rounds(s, (n - 1) as nat)) as nat);
    }
}

/// Self-healing of a round: in a ring of two or more blocks, the block at
/// position `i` and its successor are never identical when they are hashed,
/// whatever the buffer held before.
pub proof fn lemma_hashed_blocks_differ(s: Seq<u8>, i: int)
    requires
        is_ring(s),
        amount_block(s) >= 2,
        0 <= i < amount_block(s),
    ensures
        block(separated(s, i, successor(s, i)), i) != block(
            separated(s, i, successor(s, i)),
            successor(s, i),
        ),
{
    let b = successor(s, i);
    let p = separated(s, i, b);
    let n = amount_block(s);
    assert(b != i && 0 <= b < n) by {
        if i + 1 < n {
            vstd::arithmetic::div_mod::lemma_small_mod((i + 1) as nat, n as nat);
        } else {
            vstd::arithmetic::div_mod::lemma_mod_self_0(n);
        }
    }
    if block(s, i) == block(s, b) {
        let x = s[32 * b];
        assert(block(s, i)[0] == block(s, b)[0]);
        assert(x ^ 1u8 != x) by (bit_vector);
        assert(block(p, b)[0] == x ^ 1u8);
        assert(block(p, i)[0] == x);
    }
}

/// A ring of a single block is its own successor. The block is perturbed, hashed
/// twice to the same digest and folded into itself, so every round leaves the
/// buffer zero, whatever it held.
pub proof fn lemma_single_block_round_clears(s: Seq<u8>)
    requires
        s.len() == 32,
    ensures
        round(s) == Seq::new(32, |k: int| 0u8),
{
    reveal_with_fuel(round_prefix, 2);
    assert(successor(s, 0) == 0);
    let p = separated(s, 0, 0);
    let d = sha256_digest(block(p, 0));
    assert forall|k: int| 0 <= k < 32 implies #[trigger] round(s)[k] == 0u8 by {
        let x = p[k];
        let h = d[k];
        assert(x ^ (h ^ h ^ x) == 0u8) by (bit_vector);
    }
    assert(round(s) =~= Seq::new(32, |k: int| 0u8));
}

} // verus!

use prng::diffusion::{
    absorb_seed, blocks_identical, copy_block, fold_digests, harvest, mix_position,
    next_hashing_state, perturb_block,
};

fn counting(from: u8, len: usize) -> Vec<u8> {
    let mut v: Vec<u8> = Vec::new();
    let mut b: u8 = from;
    for _ in 0..len {
        v.push(b);
        b = b.wrapping_add(1);
    }
    v
}

#[test]
fn absorb_empty_seed_leaves_zeros() {
    let state = absorb_seed(&Vec::new(), 32);
    assert_eq!(state, vec![0u8; 32]);
}

#[test]
fn absorb_short_seed_fills_leading_bytes() {
    let state = absorb_seed(&vec![9u8, 8, 7, 6, 5], 32);
    let mut expected = vec![0u8; 32];
    expected[0] = 9;
    expected[1] = 8;
    expected[2] = 7;
    expected[3] = 6;
    expected[4] = 5;
    assert_eq!(state, expected);
}

#[test]
fn absorb_seed_of_buffer_length_is_copied() {
    let seed = counting(0, 32);
    assert_eq!(absorb_seed(&seed, 32), seed);
}

#[test]
fn absorb_two_full_chunks_xors_them() {
    // bytes k and k + 32 differ in bit 5 only
    let state = absorb_seed(&counting(0, 64), 32);
    assert_eq!(state, vec![32u8; 32]);
}

#[test]
fn absorb_long_seed_folds_every_chunk() {
    // seed 1..=70 into 32 bytes: two full chunks and a partial one of six bytes
    let state = absorb_seed(&counting(1, 70), 32);
    let expected: Vec<u8> = vec![
        97, 98, 99, 100, 101, 102, 32, 32, 32, 32, 32, 32, 32, 32, 32, 32, 32, 32, 32, 32, 32,
        32, 32, 32, 32, 32, 32, 32, 32, 32, 32, 96,
    ];
    assert_eq!(state, expected);
}

#[test]
fn absorb_position_takes_every_congruent_byte() {
    let seed = counting(1, 70);
    let state = absorb_seed(&seed, 32);
    for p in 0..32usize {
        let mut x: u8 = 0;
        let mut k = p;
        while k < seed.len() {
            x ^= seed[k];
            k += 32;
        }
        assert_eq!(state[p], x);
    }
}

#[test]
fn blocks_identical_compares_bytes() {
    let mut state = vec![7u8; 64];
    assert!(blocks_identical(&state, 0, 1));
    assert!(blocks_identical(&state, 1, 1));
    state[63] = 8;
    assert!(!blocks_identical(&state, 0, 1));
    assert!(!blocks_identical(&state, 1, 0));
}

#[test]
fn perturb_block_xors_byte_j_with_j_plus_one() {
    let mut state = vec![0u8; 64];
    perturb_block(&mut state, 1);
    for k in 0..32usize {
        assert_eq!(state[k], 0);
        assert_eq!(state[32 + k], (k + 1) as u8);
    }
    let mut other = vec![0xffu8; 32];
    perturb_block(&mut other, 0);
    assert_eq!(other[0], 0xfe);
    assert_eq!(other[31], 0xff ^ 32);
}

#[test]
fn perturbed_successor_differs_from_its_predecessor() {
    let mut state = vec![0x5au8; 96];
    assert!(blocks_identical(&state, 1, 2));
    perturb_block(&mut state, 2);
    assert!(!blocks_identical(&state, 1, 2));
    assert!(blocks_identical(&state, 0, 1));
}

#[test]
fn copy_block_takes_thirty_two_bytes() {
    let state = counting(0, 96);
    assert_eq!(copy_block(&state, 0), counting(0, 32));
    assert_eq!(copy_block(&state, 2), counting(64, 32));
}

#[test]
fn fold_digests_xors_into_successor_only() {
    let mut state = counting(0, 64);
    let digest_a = vec![0x0fu8; 32];
    let digest_b = vec![0xf0u8; 32];
    fold_digests(&mut state, 0, 1, &digest_a, &digest_b);
    for k in 0..32usize {
        assert_eq!(state[k], k as u8);
        // (32 + k) ^ 0x0f ^ 0xf0 ^ k
        assert_eq!(state[32 + k], ((32 + k) as u8) ^ 0xff ^ (k as u8));
    }
}

#[test]
fn fold_digests_on_one_block_clears_it_when_digests_agree() {
    let mut state = counting(3, 32);
    let digest = counting(100, 32);
    fold_digests(&mut state, 0, 0, &digest, &digest);
    assert_eq!(state, vec![0u8; 32]);
}

#[test]
fn mix_position_hashes_both_blocks() {
    let mut state = counting(0, 64);
    mix_position(&mut state, 0);
    let expected_successor: Vec<u8> = vec![
        49, 246, 90, 58, 42, 146, 107, 70, 146, 202, 73, 204, 88, 199, 137, 129, 62, 183, 247,
        135, 64, 222, 213, 158, 28, 112, 239, 232, 250, 213, 160, 121,
    ];
    assert_eq!(copy_block(&state, 0), counting(0, 32));
    assert_eq!(copy_block(&state, 1), expected_successor);
}

#[test]
fn mix_position_digests_are_sha256() {
    // successor = B ^ sha256(A) ^ sha256(B) ^ A, so the digests can be read back
    let sha_a: [u8; 32] = [
        99, 13, 205, 41, 102, 196, 51, 102, 145, 18, 84, 72, 187, 178, 91, 79, 244, 18, 164,
        156, 115, 45, 178, 200, 171, 193, 184, 88, 27, 215, 16, 221,
    ];
    let sha_b: [u8; 32] = [
        114, 219, 183, 51, 108, 118, 120, 0, 35, 248, 61, 164, 195, 85, 242, 238, 234, 133, 115,
        59, 19, 211, 71, 118, 151, 145, 119, 144, 193, 34, 144, 132,
    ];
    let mut state = counting(0, 64);
    mix_position(&mut state, 0);
    for k in 0..32usize {
        let a = k as u8;
        let b = (32 + k) as u8;
        assert_eq!(state[32 + k] ^ a ^ b, sha_a[k] ^ sha_b[k]);
    }
}

#[test]
fn mix_position_wraps_from_last_block_to_first() {
    let mut state = counting(0, 64);
    mix_position(&mut state, 1);
    let expected_first: Vec<u8> = vec![
        49, 246, 90, 58, 42, 146, 107, 70, 146, 202, 73, 204, 88, 199, 137, 129, 62, 183, 247,
        135, 64, 222, 213, 158, 28, 112, 239, 232, 250, 213, 160, 121,
    ];
    assert_eq!(copy_block(&state, 0), expected_first);
    assert_eq!(copy_block(&state, 1), counting(32, 32));
}

#[test]
fn mix_position_perturbs_identical_blocks() {
    let mut state = vec![7u8; 64];
    mix_position(&mut state, 0);
    let expected_successor: Vec<u8> = vec![
        74, 85, 79, 224, 214, 147, 134, 141, 17, 101, 245, 40, 163, 221, 51, 8, 23, 116, 231,
        107, 97, 50, 20, 134, 197, 200, 247, 177, 43, 42, 25, 193,
    ];
    assert_eq!(copy_block(&state, 0), vec![7u8; 32]);
    assert_eq!(copy_block(&state, 1), expected_successor);
}

#[test]
fn round_over_two_blocks() {
    let mut state = counting(0, 64);
    next_hashing_state(&mut state);
    let expected: Vec<u8> = vec![
        78, 83, 243, 106, 207, 254, 31, 164, 52, 74, 176, 58, 205, 174, 201, 45, 244, 39, 170,
        253, 224, 1, 110, 143, 63, 103, 52, 220, 5, 13, 122, 104, 49, 246, 90, 58, 42, 146, 107,
        70, 146, 202, 73, 204, 88, 199, 137, 129, 62, 183, 247, 135, 64, 222, 213, 158, 28, 112,
        239, 232, 250, 213, 160, 121,
    ];
    assert_eq!(state, expected);
}

#[test]
fn round_over_three_blocks() {
    let mut state: Vec<u8> = Vec::new();
    for i in 0..96u32 {
        state.push(((i * 7 + 3) % 256) as u8);
    }
    next_hashing_state(&mut state);
    let expected: Vec<u8> = vec![
        41, 124, 243, 226, 11, 203, 13, 242, 40, 64, 30, 67, 91, 215, 118, 153, 103, 116, 154,
        240, 17, 161, 216, 253, 28, 66, 20, 115, 125, 244, 166, 94, 3, 67, 137, 5, 147, 249, 27,
        4, 224, 119, 99, 182, 98, 79, 43, 245, 239, 75, 149, 172, 101, 178, 209, 229, 41, 219, 3,
        243, 56, 157, 176, 202, 109, 70, 113, 122, 253, 126, 180, 200, 251, 240, 208, 89, 101,
        120, 81, 251, 43, 170, 138, 226, 180, 49, 112, 129, 89, 18, 49, 196, 95, 202, 112, 239,
    ];
    assert_eq!(state, expected);
}

#[test]
fn round_over_a_single_block_clears_it() {
    // the block is its own successor: it folds into itself and cancels
    let mut state = counting(0, 32);
    next_hashing_state(&mut state);
    assert_eq!(state, vec![0u8; 32]);
}

#[test]
fn round_keeps_the_length() {
    let mut state = counting(11, 128);
    next_hashing_state(&mut state);
    assert_eq!(state.len(), 128);
}

#[test]
fn harvest_reads_little_endian_words() {
    let words = harvest(&counting(0, 16));
    assert_eq!(words, vec![0x0706050403020100u64, 0x0F0E0D0C0B0A0908u64]);
    let mut bytes = vec![0xffu8; 8];
    bytes.extend_from_slice(&[1, 0, 0, 0, 0, 0, 0, 0x80]);
    assert_eq!(harvest(&bytes), vec![u64::MAX, 0x8000000000000001u64]);
}

#[test]
fn harvest_leaves_the_buffer_and_ignores_a_short_tail() {
    let bytes = counting(0, 11);
    let words = harvest(&bytes);
    assert_eq!(words, vec![0x0706050403020100u64]);
    assert_eq!(bytes, counting(0, 11));
    assert_eq!(harvest(&Vec::new()), Vec::<u64>::new());
}

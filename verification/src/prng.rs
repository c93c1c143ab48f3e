//! The random number device: construction from a seed, the two output streams,
//! checkpoint and restore.

use crate::diffusion::{
    absorb_seed, absorbed, harvest, le_words, lemma_rounds_len, next_hashing_state, rounds,
};
use crate::hash::BLOCK_SIZE;
use crate::utils_vec_join::{bytes_line, push_bytes_line, push_index_line, push_words_line};
use crate::model::{
    aux, constrain_a_mult, constrain_a_xor, constrain_b_mult, constrain_b_xor, harvest_state,
    initial_device, initial_snapshot, lcg, lemma_advanced_keeps, lemma_initial_device_valid,
    lemma_next_index, state_text, DeviceView, Snapshot,
};
use vstd::prelude::*;

verus! {

/// Mask that keeps the low 53 bits of a word, the precision of a double.
pub const MASK_U64_F64: u64 = 0x1f_ffff_ffff_ffff;

/// One snapshot of the generator: six arrays of 64-bit words and two cursors.
struct StateMachine {
    v_x_mult: Vec<u64>,
    v_a_mult: Vec<u64>,
    v_b_mult: Vec<u64>,
    v_x_xor: Vec<u64>,
    v_a_xor: Vec<u64>,
    v_b_xor: Vec<u64>,
    idx_values_mult: usize,
    idx_values_xor: usize,
}

impl View for StateMachine {
    type V = Snapshot;

    closed spec fn view(&self) -> Snapshot {
        Snapshot {
            x_mult: self.v_x_mult@,
            a_mult: self.v_a_mult@,
            b_mult: self.v_b_mult@,
            x_xor: self.v_x_xor@,
            a_xor: self.v_a_xor@,
            b_xor: self.v_b_xor@,
            idx_mult: self.idx_values_mult as int,
            idx_xor: self.idx_values_xor as int,
        }
    }
}

/// `len` words: those of `s` as far as they go, then zeros.
spec fn resized(s: Seq<u64>, len: nat) -> Seq<u64> {
    Seq::new(
        len,
        |i: int|
            if i < s.len() {
                s[i]
            } else {
                0u64
            },
    )
}

fn resize_words(v: &mut Vec<u64>, size: usize)
    ensures
        final(v)@ == resized(old(v)@, size as nat),
{
    v.resize(size, 0);
    assert(v@ =~= resized(old(v)@, size as nat)) by {
        if size > old(v).len() {
            assert forall|i: int| 0 <= i < old(v).len() implies v[i] == old(v)[i] by {
                assert(v@.subrange(0, old(v).len() as int)[i] == old(v)[i]);
            }
        }
    }
}

impl StateMachine {
    fn new() -> (sm: Self)
        ensures
            sm@ == (Snapshot {
                x_mult: Seq::empty(),
                a_mult: Seq::empty(),
                b_mult: Seq::empty(),
                x_xor: Seq::empty(),
                a_xor: Seq::empty(),
                b_xor: Seq::empty(),
                idx_mult: 0,
                idx_xor: 0,
            }),
    {
        let v_x_mult: Vec<u64> = Vec::new();
        let v_a_mult: Vec<u64> = Vec::new();
        let v_b_mult: Vec<u64> = Vec::new();
        let v_x_xor: Vec<u64> = Vec::new();
        let v_a_xor: Vec<u64> = Vec::new();
        let v_b_xor: Vec<u64> = Vec::new();
        let idx_values_mult: usize = 0;
        let idx_values_xor: usize = 0;
        Self {
            v_x_mult,
            v_a_mult,
            v_b_mult,
            v_x_xor,
            v_a_xor,
            v_b_xor,
            idx_values_mult,
            idx_values_xor,
        }
    }

    fn init_vals(&mut self, size: usize)
        ensures
            final(self)@ == (Snapshot {
                x_mult: resized(old(self)@.x_mult, size as nat),
                a_mult: resized(old(self)@.a_mult, size as nat),
                b_mult: resized(old(self)@.b_mult, size as nat),
                x_xor: resized(old(self)@.x_xor, size as nat),
                a_xor: resized(old(self)@.a_xor, size as nat),
                b_xor: resized(old(self)@.b_xor, size as nat),
                idx_mult: 0,
                idx_xor: 0,
            }),
    {
        resize_words(&mut self.v_x_mult, size);
        resize_words(&mut self.v_a_mult, size);
        resize_words(&mut self.v_b_mult, size);
        resize_words(&mut self.v_x_xor, size);
        resize_words(&mut self.v_a_xor, size);
        resize_words(&mut self.v_b_xor, size);
        self.idx_values_mult = 0;
        self.idx_values_xor = 0;
    }

    fn copy_sm(&mut self, other: &Self)
        ensures
            final(self)@ == other@,
    {
        self.v_x_mult = other.v_x_mult.clone();
        self.v_a_mult = other.v_a_mult.clone();
        self.v_b_mult = other.v_b_mult.clone();
        self.v_x_xor = other.v_x_xor.clone();
        self.v_a_xor = other.v_a_xor.clone();
        self.v_b_xor = other.v_b_xor.clone();
        self.idx_values_mult = other.idx_values_mult;
        self.idx_values_xor = other.idx_values_xor;
    }
}

/// The parameter array that a harvest fills.
enum SaveCurrStateToVec {
    XMult,
    AMult,
    BMult,
    XXor,
    AXor,
    BXor,
}

/// The snapshot with the array that `target` names replaced by `words`.
spec fn harvested_into(s: Snapshot, target: SaveCurrStateToVec, words: Seq<u64>) -> Snapshot {
    match target {
        SaveCurrStateToVec::XMult => Snapshot { x_mult: words, ..s },
        SaveCurrStateToVec::AMult => Snapshot { a_mult: words, ..s },
        SaveCurrStateToVec::BMult => Snapshot { b_mult: words, ..s },
        SaveCurrStateToVec::XXor => Snapshot { x_xor: words, ..s },
        SaveCurrStateToVec::AXor => Snapshot { a_xor: words, ..s },
        SaveCurrStateToVec::BXor => Snapshot { b_xor: words, ..s },
    }
}

/// A seeded generator with a 64-bit stream, a 53-bit stream for doubles, and one
/// checkpoint.
pub struct RandomNumberDevice {
    v_state_u8: Vec<u8>,
    length_u8: usize,
    length_u64: usize,
    amount_block: usize,
    arr_seed_u8: Vec<u8>,
    sm_prev: StateMachine,
    sm_curr: StateMachine,
}

impl View for RandomNumberDevice {
    type V = DeviceView;

    closed spec fn view(&self) -> DeviceView {
        DeviceView {
            state: self.v_state_u8@,
            seed: self.arr_seed_u8@,
            length_u8: self.length_u8 as int,
            length_u64: self.length_u64 as int,
            amount_block: self.amount_block as int,
            current: self.sm_curr@,
            checkpoint: self.sm_prev@,
        }
    }
}

/// The wrapping product and sum of the primary stream are `lcg`.
proof fn lemma_lcg_wraps(a: u64, x: u64, b: u64)
    ensures
        vstd::wrapping::u64_specs::wrapping_add(vstd::wrapping::u64_specs::wrapping_mul(a, x), b)
            == lcg(a, x, b),
{
    let p: int = a as int * x as int;
    assert(0 <= p) by (nonlinear_arith)
        requires
            p == a as int * x as int,
    ;
    assert(a as nat * x as nat == p) by (nonlinear_arith)
        requires
            p == a as int * x as int,
    ;
    assert(a * x + b == p + b);
}

/// The wrapping sum of the auxiliary stream is `aux`.
proof fn lemma_aux_wraps(a: u64, x: u64, b: u64)
    ensures
        vstd::wrapping::u64_specs::wrapping_add((a ^ x), b) == aux(a, x, b),
{
}

impl RandomNumberDevice {
    /// Builds a device from seed bytes and a state size in bytes, which must be a
    /// positive multiple of 32.
    ///
    /// The seed is folded into the diffusion buffer, the six arrays are harvested
    /// after two rounds each, the parameter constraints are applied, and the
    /// result is saved as the checkpoint.
    pub fn new(arr_seed_u8_: Vec<u8>, length_u8_: usize) -> (device: Self)
        requires
            length_u8_ > 0,
            length_u8_ % 32 == 0,
        ensures
            device@ == initial_device(arr_seed_u8_@, length_u8_ as int),
            device@.valid(),
            device@.current.lanes() == length_u8_ / 8,
            device@.current.constrained(),
    {
        let v_state_u8: Vec<u8> = Vec::new();
        let length_u8: usize = length_u8_;
        let length_u64: usize = length_u8 / 8;
        let amount_block: usize = length_u8_ / BLOCK_SIZE;
        let arr_seed_u8: Vec<u8> = arr_seed_u8_;
        let sm_prev: StateMachine = StateMachine::new();
        let sm_curr: StateMachine = StateMachine::new();
        let mut self_ = Self {
            v_state_u8,
            length_u8,
            length_u64,
            amount_block,
            arr_seed_u8,
            sm_prev,
            sm_curr,
        };
        self_.init_state();
        proof {
            lemma_initial_device_valid(arr_seed_u8_@, length_u8_ as int);
        }
        self_
    }

    /// Builds a device as `new` does, after testing the size: `None` when
    /// `length_u8` is 0 or not a multiple of 32, and then nothing is built.
    pub fn try_new(arr_seed_u8: Vec<u8>, length_u8: usize) -> (device: Option<Self>)
        ensures
            device.is_some() <==> length_u8 > 0 && length_u8 % 32 == 0,
            device matches Some(d) ==> {
                &&& d@ == initial_device(arr_seed_u8@, length_u8 as int)
                &&& d@.valid()
                &&& d@.current.lanes() == length_u8 / 8
                &&& d@.current.constrained()
            },
    {
        if length_u8 == 0 || length_u8 % BLOCK_SIZE != 0 {
            None
        } else {
            Some(Self::new(arr_seed_u8, length_u8))
        }
    }

    /// Fills a device whose size parameters are set: absorbs the seed, runs the
    /// twelve rounds with a harvest after every second one, applies the
    /// parameter constraints and saves the checkpoint.
    fn init_state(&mut self)
        requires
            old(self)@.length_u8 > 0,
            old(self)@.length_u8 % 32 == 0,
            old(self)@.length_u64 == old(self)@.length_u8 / 8,
            old(self)@.amount_block == old(self)@.length_u8 / 32,
        ensures
            final(self)@ == initial_device(old(self)@.seed, old(self)@.length_u8),
    {
        let ghost seed = self@.seed;
        let ghost n = self@.length_u8;
        self.v_state_u8 = absorb_seed(&self.arr_seed_u8, self.length_u8);

        self.sm_curr.init_vals(self.length_u64);
        self.sm_prev.init_vals(self.length_u64);

        proof {
            reveal_with_fuel(rounds, 3);
            lemma_rounds_len(absorbed(seed, n), 2);
            lemma_rounds_len(absorbed(seed, n), 4);
            lemma_rounds_len(absorbed(seed, n), 6);
            lemma_rounds_len(absorbed(seed, n), 8);
            lemma_rounds_len(absorbed(seed, n), 10);
            lemma_rounds_len(absorbed(seed, n), 12);
        }
        assert(self.v_state_u8@ == harvest_state(seed, n, 0));

        next_hashing_state(&mut self.v_state_u8);
        next_hashing_state(&mut self.v_state_u8);
        assert(self.v_state_u8@ == harvest_state(seed, n, 1));
        self.save_u8_state_to_vec(SaveCurrStateToVec::XMult);
        next_hashing_state(&mut self.v_state_u8);
        next_hashing_state(&mut self.v_state_u8);
        assert(self.v_state_u8@ == harvest_state(seed, n, 2));
        self.save_u8_state_to_vec(SaveCurrStateToVec::AMult);
        next_hashing_state(&mut self.v_state_u8);
        next_hashing_state(&mut self.v_state_u8);
        assert(self.v_state_u8@ == harvest_state(seed, n, 3));
        self.save_u8_state_to_vec(SaveCurrStateToVec::BMult);

        next_hashing_state(&mut self.v_state_u8);
        next_hashing_state(&mut self.v_state_u8);
        assert(self.v_state_u8@ == harvest_state(seed, n, 4));
        self.save_u8_state_to_vec(SaveCurrStateToVec::XXor);
        next_hashing_state(&mut self.v_state_u8);
        next_hashing_state(&mut self.v_state_u8);
        assert(self.v_state_u8@ == harvest_state(seed, n, 5));
        self.save_u8_state_to_vec(SaveCurrStateToVec::AXor);
        next_hashing_state(&mut self.v_state_u8);
        next_hashing_state(&mut self.v_state_u8);
        assert(self.v_state_u8@ == harvest_state(seed, n, 6));
        self.save_u8_state_to_vec(SaveCurrStateToVec::BXor);

        let ghost raw = self.sm_curr@;
        let mut i: usize = 0;
        while i < self.length_u64
            invariant
                i <= self.length_u64,
                self.length_u64 == raw.lanes(),
                raw.a_mult.len() == raw.lanes(),
                raw.b_mult.len() == raw.lanes(),
                raw.a_xor.len() == raw.lanes(),
                raw.b_xor.len() == raw.lanes(),
                self.sm_curr@.x_mult == raw.x_mult,
                self.sm_curr@.x_xor == raw.x_xor,
                self.sm_curr@.idx_mult == 0,
                self.sm_curr@.idx_xor == 0,
                self.sm_curr@.a_mult.len() == raw.lanes(),
                self.sm_curr@.b_mult.len() == raw.lanes(),
                self.sm_curr@.a_xor.len() == raw.lanes(),
                self.sm_curr@.b_xor.len() == raw.lanes(),
                forall|k: int|
                    0 <= k < raw.lanes() ==> #[trigger] self.sm_curr@.a_mult[k] == if k < i {
                        constrain_a_mult(raw.a_mult[k])
                    } else {
                        raw.a_mult[k]
                    },
                forall|k: int|
                    0 <= k < raw.lanes() ==> #[trigger] self.sm_curr@.b_mult[k] == if k < i {
                        constrain_b_mult(raw.b_mult[k])
                    } else {
                        raw.b_mult[k]
                    },
                forall|k: int|
                    0 <= k < raw.lanes() ==> #[trigger] self.sm_curr@.a_xor[k] == if k < i {
                        constrain_a_xor(raw.a_xor[k])
                    } else {
                        raw.a_xor[k]
                    },
                forall|k: int|
                    0 <= k < raw.lanes() ==> #[trigger] self.sm_curr@.b_xor[k] == if k < i {
                        constrain_b_xor(raw.b_xor[k])
                    } else {
                        raw.b_xor[k]
                    },
                self@.state == harvest_state(seed, n, 6),
                self@.seed == seed,
                self@.length_u8 == n,
                self@.length_u64 == n / 8,
                self@.amount_block == n / 32,
            decreases self.length_u64 - i,
        {
            let a_mult: u64 = self.sm_curr.v_a_mult[i];
            let b_mult: u64 = self.sm_curr.v_b_mult[i];
            let a_xor: u64 = self.sm_curr.v_a_xor[i];
            let b_xor: u64 = self.sm_curr.v_b_xor[i];
            self.sm_curr.v_a_mult.set(i, a_mult - (a_mult % 4u64) + 1u64);
            self.sm_curr.v_b_mult.set(i, b_mult - (b_mult % 2u64) + 1u64);
            self.sm_curr.v_a_xor.set(i, a_xor - (a_xor % 2u64));
            self.sm_curr.v_b_xor.set(i, b_xor - (b_xor % 2u64) + 1u64);
            i += 1;
        }
        proof {
            let want = initial_snapshot(seed, n);
            assert(self.sm_curr@.a_mult =~= want.a_mult);
            assert(self.sm_curr@.b_mult =~= want.b_mult);
            assert(self.sm_curr@.a_xor =~= want.a_xor);
            assert(self.sm_curr@.b_xor =~= want.b_xor);
            assert(self.sm_curr@ == want);
        }

        self.sm_prev.copy_sm(&self.sm_curr);
    }

    /// Harvests the diffusion buffer into the array that `target` names: the
    /// buffer read as little-endian 64-bit words. The buffer is left as it is.
    fn save_u8_state_to_vec(&mut self, target: SaveCurrStateToVec)
        ensures
            final(self)@ == old(self)@.with_current(
                harvested_into(old(self)@.current, target, le_words(old(self)@.state)),
            ),
    {
        let words: Vec<u64> = harvest(&self.v_state_u8);
        match target {
            SaveCurrStateToVec::XMult => {
                self.sm_curr.v_x_mult = words;
            },
            SaveCurrStateToVec::AMult => {
                self.sm_curr.v_a_mult = words;
            },
            SaveCurrStateToVec::BMult => {
                self.sm_curr.v_b_mult = words;
            },
            SaveCurrStateToVec::XXor => {
                self.sm_curr.v_x_xor = words;
            },
            SaveCurrStateToVec::AXor => {
                self.sm_curr.v_a_xor = words;
            },
            SaveCurrStateToVec::BXor => {
                self.sm_curr.v_b_xor = words;
            },
        }
    }

    /// Produces the next 64-bit value and advances the current snapshot by one
    /// step. The checkpoint and the diffusion buffer are left as they are.
    pub fn generate_next_u64(&mut self) -> (value: u64)
        requires
            old(self)@.valid(),
        ensures
            value == old(self)@.current.next_value(),
            final(self)@ == old(self)@.with_current(old(self)@.current.advanced()),
            final(self)@.valid(),
    {
        let m: usize = self.sm_curr.idx_values_mult;
        let z: usize = self.sm_curr.idx_values_xor;
        let a: u64 = self.sm_curr.v_a_mult[m];
        let x: u64 = self.sm_curr.v_x_mult[m];
        let b: u64 = self.sm_curr.v_b_mult[m];
        let val_mult_new: u64 = a.wrapping_mul(x).wrapping_add(b) ^ self.sm_curr.v_x_xor[z];
        proof {
            lemma_lcg_wraps(a, x, b);
            lemma_next_index(m as int, self.length_u64 as int);
            lemma_next_index(z as int, self.length_u64 as int);
            lemma_advanced_keeps(self@.current);
        }
        self.sm_curr.v_x_mult.set(m, val_mult_new);
        let mut idx_mult: usize = m + 1;
        if idx_mult >= self.length_u64 {
            idx_mult = 0;
            let a_xor: u64 = self.sm_curr.v_a_xor[z];
            let x_xor: u64 = self.sm_curr.v_x_xor[z];
            let b_xor: u64 = self.sm_curr.v_b_xor[z];
            proof {
                lemma_aux_wraps(a_xor, x_xor, b_xor);
            }
            self.sm_curr.v_x_xor.set(z, (a_xor ^ x_xor).wrapping_add(b_xor));
            let mut idx_xor: usize = z + 1;
            if idx_xor >= self.length_u64 {
                idx_xor = 0;
            }
            self.sm_curr.idx_values_xor = idx_xor;
        }
        self.sm_curr.idx_values_mult = idx_mult;
        val_mult_new
    }

    /// Produces the next value of the 53-bit stream: the next 64-bit value with
    /// all but its low 53 bits cleared. Scaled by `2^-53` it is the next double
    /// of the floating-point stream, which therefore lies in `[0, 1)`.
    pub fn generate_next_u53(&mut self) -> (value: u64)
        requires
            old(self)@.valid(),
        ensures
            value == old(self)@.current.next_value() & MASK_U64_F64,
            value < 0x20_0000_0000_0000,
            final(self)@ == old(self)@.with_current(old(self)@.current.advanced()),
            final(self)@.valid(),
    {
        let val: u64 = self.generate_next_u64();
        let val_and: u64 = val & MASK_U64_F64;
        assert(val & 0x1f_ffff_ffff_ffff < 0x20_0000_0000_0000) by (bit_vector);
        val_and
    }

    /// Fills `v_vec` with the next `amount` 64-bit values, in the order in which
    /// they are produced. What `v_vec` held before is dropped.
    pub fn generate_new_values_u64(&mut self, v_vec: &mut Vec<u64>, amount: usize)
        requires
            old(self)@.valid(),
        ensures
            final(v_vec)@ == old(self)@.current.values(amount as nat),
            final(self)@ == old(self)@.generated(amount as nat),
            final(self)@.valid(),
    {
        v_vec.clear();
        let mut i: usize = 0;
        while i < amount
            invariant
                i <= amount,
                self@.valid(),
                self@ == old(self)@.generated(i as nat),
                v_vec@ == old(self)@.current.values(i as nat),
            decreases amount - i,
        {
            let value: u64 = self.generate_next_u64();
            v_vec.push(value);
            i += 1;
            assert(v_vec@ =~= old(self)@.current.values(i as nat));
        }
    }

    /// Fills `v_vec` with the next `amount` values of the 53-bit stream, in the
    /// order in which they are produced. What `v_vec` held before is dropped.
    pub fn generate_new_values_u53(&mut self, v_vec: &mut Vec<u64>, amount: usize)
        requires
            old(self)@.valid(),
        ensures
            final(v_vec)@ == old(self)@.current.values(amount as nat).map_values(
                |v: u64| v & MASK_U64_F64,
            ),
            forall|i: int| 0 <= i < amount ==> #[trigger] final(v_vec)@[i] < 0x20_0000_0000_0000,
            final(self)@ == old(self)@.generated(amount as nat),
            final(self)@.valid(),
    {
        v_vec.clear();
        let mut i: usize = 0;
        while i < amount
            invariant
                i <= amount,
                self@.valid(),
                self@ == old(self)@.generated(i as nat),
                v_vec@ == old(self)@.current.values(i as nat).map_values(
                    |v: u64| v & MASK_U64_F64,
                ),
                forall|k: int| 0 <= k < i ==> #[trigger] v_vec@[k] < 0x20_0000_0000_0000,
            decreases amount - i,
        {
            let value: u64 = self.generate_next_u53();
            v_vec.push(value);
            i += 1;
            assert(v_vec@ =~= old(self)@.current.values(i as nat).map_values(
                |v: u64| v & MASK_U64_F64,
            ));
        }
    }

    /// The diffusion buffer.
    pub fn v_state_u8(&self) -> (bytes: &Vec<u8>)
        ensures
            bytes@ == self@.state,
    {
        &self.v_state_u8
    }

    /// The seed bytes that the device was built from.
    pub fn arr_seed_u8(&self) -> (bytes: &Vec<u8>)
        ensures
            bytes@ == self@.seed,
    {
        &self.arr_seed_u8
    }

    /// Size of the diffusion buffer in bytes.
    pub fn length_u8(&self) -> (length: usize)
        ensures
            length == self@.length_u8,
    {
        self.length_u8
    }

    /// Number of words in each parameter array.
    pub fn length_u64(&self) -> (length: usize)
        ensures
            length == self@.length_u64,
    {
        self.length_u64
    }

    /// Number of blocks in the ring.
    pub fn amount_block(&self) -> (amount: usize)
        ensures
            amount == self@.amount_block,
    {
        self.amount_block
    }

    /// The lanes of the primary stream in the current snapshot.
    pub fn v_x_mult(&self) -> (words: &Vec<u64>)
        ensures
            words@ == self@.current.x_mult,
    {
        &self.sm_curr.v_x_mult
    }

    /// The multipliers of the primary stream.
    pub fn v_a_mult(&self) -> (words: &Vec<u64>)
        ensures
            words@ == self@.current.a_mult,
    {
        &self.sm_curr.v_a_mult
    }

    /// The increments of the primary stream.
    pub fn v_b_mult(&self) -> (words: &Vec<u64>)
        ensures
            words@ == self@.current.b_mult,
    {
        &self.sm_curr.v_b_mult
    }

    /// The words of the auxiliary stream in the current snapshot.
    pub fn v_x_xor(&self) -> (words: &Vec<u64>)
        ensures
            words@ == self@.current.x_xor,
    {
        &self.sm_curr.v_x_xor
    }

    /// The masks of the auxiliary stream.
    pub fn v_a_xor(&self) -> (words: &Vec<u64>)
        ensures
            words@ == self@.current.a_xor,
    {
        &self.sm_curr.v_a_xor
    }

    /// The increments of the auxiliary stream.
    pub fn v_b_xor(&self) -> (words: &Vec<u64>)
        ensures
            words@ == self@.current.b_xor,
    {
        &self.sm_curr.v_b_xor
    }

    /// The cursor of the primary stream in the current snapshot.
    pub fn idx_values_mult(&self) -> (index: usize)
        ensures
            index == self@.current.idx_mult,
    {
        self.sm_curr.idx_values_mult
    }

    /// The cursor of the auxiliary stream in the current snapshot.
    pub fn idx_values_xor(&self) -> (index: usize)
        ensures
            index == self@.current.idx_xor,
    {
        self.sm_curr.idx_values_xor
    }

    /// The persisted text of the device as it stands: nine records, each ended
    /// by a line feed.
    pub fn current_state_text(&self) -> (text: String)
        ensures
            text@ == state_text(self@),
    {
        let mut text: String = String::new();
        push_bytes_line(&mut text, "v_state_u8:", &self.v_state_u8);
        assert(text@ =~= bytes_line("v_state_u8:"@, self@.state));
        push_words_line(&mut text, "v_x_mult:", &self.sm_curr.v_x_mult);
        push_words_line(&mut text, "v_a_mult:", &self.sm_curr.v_a_mult);
        push_words_line(&mut text, "v_b_mult:", &self.sm_curr.v_b_mult);
        push_words_line(&mut text, "v_x_xor:", &self.sm_curr.v_x_xor);
        push_words_line(&mut text, "v_a_xor:", &self.sm_curr.v_a_xor);
        push_words_line(&mut text, "v_b_xor:", &self.sm_curr.v_b_xor);
        push_index_line(&mut text, "idx_values_mult:", self.sm_curr.idx_values_mult);
        push_index_line(&mut text, "idx_values_xor:", self.sm_curr.idx_values_xor);
        text
    }

    /// Saves the current snapshot as the checkpoint, in place of the one before.
    pub fn save_current_state(&mut self)
        requires
            old(self)@.valid(),
        ensures
            final(self)@ == old(self)@.saved(),
            final(self)@.valid(),
    {
        self.sm_prev.copy_sm(&self.sm_curr);
    }

    /// Puts the checkpoint back as the current snapshot. What was produced since
    /// the checkpoint was saved is forgotten.
    pub fn restore_previous_state(&mut self)
        requires
            old(self)@.valid(),
        ensures
            final(self)@ == old(self)@.restored(),
            final(self)@.valid(),
    {
        self.sm_curr.copy_sm(&self.sm_prev);
    }
}

} // verus!

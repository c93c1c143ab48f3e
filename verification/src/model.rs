//! The mathematical model of the generator: snapshots of the two recurrences, the
//! device that owns them, and what construction and every step compute.

use crate::diffusion::{absorbed, le_words, lemma_rounds_len, rounds};
use crate::utils_vec_join::{bytes_line, index_line, words_line};
use vstd::prelude::*;

verus! {

/// One lane of the primary stream: `a * x + b` modulo `2^64`.
pub open spec fn lcg(a: u64, x: u64, b: u64) -> u64 {
    ((a * x + b) % 0x1_0000_0000_0000_0000) as u64
}

/// One word of the auxiliary stream: `(a XOR x) + b` modulo `2^64`.
pub open spec fn aux(a: u64, x: u64, b: u64) -> u64 {
    (((a ^ x) + b) % 0x1_0000_0000_0000_0000) as u64
}

/// The index that follows `i` among `n` lanes.
pub open spec fn next_index(i: int, n: int) -> int {
    (i + 1) % n
}

/// The multiplier made congruent to 1 modulo 4.
pub open spec fn constrain_a_mult(v: u64) -> u64 {
    (1 + v - v % 4) as u64
}

/// The increment made odd.
pub open spec fn constrain_b_mult(v: u64) -> u64 {
    (1 + v - v % 2) as u64
}

/// The auxiliary mask made even.
pub open spec fn constrain_a_xor(v: u64) -> u64 {
    (0 + v - v % 2) as u64
}

/// The auxiliary increment made odd.
pub open spec fn constrain_b_xor(v: u64) -> u64 {
    (1 + v - v % 2) as u64
}

/// The six parameter arrays and the two cursors, taken together.
pub struct Snapshot {
    pub x_mult: Seq<u64>,
    pub a_mult: Seq<u64>,
    pub b_mult: Seq<u64>,
    pub x_xor: Seq<u64>,
    pub a_xor: Seq<u64>,
    pub b_xor: Seq<u64>,
    pub idx_mult: int,
    pub idx_xor: int,
}

impl Snapshot {
    /// Number of lanes.
    pub open spec fn lanes(self) -> int {
        self.x_mult.len() as int
    }

    /// All six arrays have the same positive length and both cursors point into
    /// them.
    pub open spec fn well_formed(self) -> bool {
        &&& self.lanes() > 0
        &&& self.a_mult.len() == self.lanes()
        &&& self.b_mult.len() == self.lanes()
        &&& self.x_xor.len() == self.lanes()
        &&& self.a_xor.len() == self.lanes()
        &&& self.b_xor.len() == self.lanes()
        &&& 0 <= self.idx_mult < self.lanes()
        &&& 0 <= self.idx_xor < self.lanes()
    }

    /// The parameter constraints: every multiplier is 1 modulo 4, every increment
    /// odd, every auxiliary mask even, every auxiliary increment odd.
    pub open spec fn constrained(self) -> bool {
        &&& forall|i: int| 0 <= i < self.a_mult.len() ==> #[trigger] self.a_mult[i] % 4 == 1
        &&& forall|i: int| 0 <= i < self.b_mult.len() ==> #[trigger] self.b_mult[i] % 2 == 1
        &&& forall|i: int| 0 <= i < self.a_xor.len() ==> #[trigger] self.a_xor[i] % 2 == 0
        &&& forall|i: int| 0 <= i < self.b_xor.len() ==> #[trigger] self.b_xor[i] % 2 == 1
    }

    /// The four arrays that stay as construction left them are the same in both
    /// snapshots.
    pub open spec fn same_parameters(self, other: Snapshot) -> bool {
        &&& self.a_mult == other.a_mult
        &&& self.b_mult == other.b_mult
        &&& self.a_xor == other.a_xor
        &&& self.b_xor == other.b_xor
    }

    /// The value that the next step produces: the primary lane at the cursor,
    /// advanced, and whitened by the auxiliary word at its cursor.
    pub open spec fn next_value(self) -> u64 {
        let m = self.idx_mult;
        let z = self.idx_xor;
        lcg(self.a_mult[m], self.x_mult[m], self.b_mult[m]) ^ self.x_xor[z]
    }

    /// The snapshot after one step. The new value replaces the primary lane and
    /// the primary cursor moves on; when it wraps to 0 the auxiliary word at its
    /// cursor advances and the auxiliary cursor moves on too.
    pub open spec fn advanced(self) -> Snapshot {
        let m = self.idx_mult;
        let z = self.idx_xor;
        let n = self.lanes();
        let x_mult = self.x_mult.update(m, self.next_value());
        if next_index(m, n) != 0 {
            Snapshot { x_mult, idx_mult: next_index(m, n), ..self }
        } else {
            Snapshot {
                x_mult,
                x_xor: self.x_xor.update(z, aux(self.a_xor[z], self.x_xor[z], self.b_xor[z])),
                idx_mult: 0,
                idx_xor: next_index(z, n),
                ..self
            }
        }
    }

    /// The snapshot after `k` steps.
    pub open spec fn advanced_by(self, k: nat) -> Snapshot
        decreases k,
    {
        if k == 0 {
            self
        } else {
            self.advanced_by((k - 1) as nat).advanced()
        }
    }

    /// The first `k` values that the snapshot produces, in order.
    pub open spec fn values(self, k: nat) -> Seq<u64> {
        Seq::new(k, |i: int| self.advanced_by(i as nat).next_value())
    }
}

/// What a device holds: the diffusion buffer, the seed it was built from, its
/// size parameters and the two snapshots.
pub struct DeviceView {
    pub state: Seq<u8>,
    pub seed: Seq<u8>,
    pub length_u8: int,
    pub length_u64: int,
    pub amount_block: int,
    pub current: Snapshot,
    pub checkpoint: Snapshot,
}

impl DeviceView {
    /// The invariant of a constructed device.
    pub open spec fn valid(self) -> bool {
        &&& self.length_u8 > 0
        &&& self.length_u8 % 32 == 0
        &&& self.length_u64 == self.length_u8 / 8
        &&& self.amount_block == self.length_u8 / 32
        &&& self.state.len() == self.length_u8
        &&& self.current.well_formed()
        &&& self.checkpoint.well_formed()
        &&& self.current.lanes() == self.length_u64
        &&& self.checkpoint.lanes() == self.length_u64
        &&& self.current.constrained()
        &&& self.checkpoint.constrained()
        &&& self.current.same_parameters(self.checkpoint)
    }

    /// The device with another current snapshot.
    pub open spec fn with_current(self, current: Snapshot) -> DeviceView {
        DeviceView { current, ..self }
    }

    /// The device after `k` values have been produced.
    pub open spec fn generated(self, k: nat) -> DeviceView {
        self.with_current(self.current.advanced_by(k))
    }

    /// The device after the current snapshot has been saved as the checkpoint.
    pub open spec fn saved(self) -> DeviceView {
        DeviceView { checkpoint: self.current, ..self }
    }

    /// The device after the checkpoint has been restored.
    pub open spec fn restored(self) -> DeviceView {
        DeviceView { current: self.checkpoint, ..self }
    }
}

/// The persisted text of a device: the diffusion buffer, the six arrays of the
/// current snapshot and its two cursors, one record per line.
pub open spec fn state_text(d: DeviceView) -> Seq<char> {
    bytes_line("v_state_u8:"@, d.state) + words_line("v_x_mult:"@, d.current.x_mult) + words_line(
        "v_a_mult:"@,
        d.current.a_mult,
    ) + words_line("v_b_mult:"@, d.current.b_mult) + words_line("v_x_xor:"@, d.current.x_xor)
        + words_line("v_a_xor:"@, d.current.a_xor) + words_line("v_b_xor:"@, d.current.b_xor)
        + index_line("idx_values_mult:"@, d.current.idx_mult as nat) + index_line(
        "idx_values_xor:"@,
        d.current.idx_xor as nat,
    )
}

/// The diffusion buffer at the `k`-th harvest of construction: two rounds run
/// before each one.
pub open spec fn harvest_state(seed: Seq<u8>, length_u8: int, k: nat) -> Seq<u8> {
    rounds(absorbed(seed, length_u8), 2 * k)
}

/// The snapshot that construction leaves: the six arrays harvested in the order
/// `x_mult, a_mult, b_mult, x_xor, a_xor, b_xor`, the constraints applied, both
/// cursors at 0.
pub open spec fn initial_snapshot(seed: Seq<u8>, length_u8: int) -> Snapshot {
    Snapshot {
        x_mult: le_words(harvest_state(seed, length_u8, 1)),
        a_mult: le_words(harvest_state(seed, length_u8, 2)).map_values(
            |v: u64| constrain_a_mult(v),
        ),
        b_mult: le_words(harvest_state(seed, length_u8, 3)).map_values(
            |v: u64| constrain_b_mult(v),
        ),
        x_xor: le_words(harvest_state(seed, length_u8, 4)),
        a_xor: le_words(harvest_state(seed, length_u8, 5)).map_values(
            |v: u64| constrain_a_xor(v),
        ),
        b_xor: le_words(harvest_state(seed, length_u8, 6)).map_values(
            |v: u64| constrain_b_xor(v),
        ),
        idx_mult: 0,
        idx_xor: 0,
    }
}

/// The device that construction from `seed` and `length_u8` yields.
pub open spec fn initial_device(seed: Seq<u8>, length_u8: int) -> DeviceView {
    DeviceView {
        state: harvest_state(seed, length_u8, 6),
        seed,
        length_u8,
        length_u64: length_u8 / 8,
        amount_block: length_u8 / 32,
        current: initial_snapshot(seed, length_u8),
        checkpoint: initial_snapshot(seed, length_u8),
    }
}

/// The index after `i` is `i + 1`, or 0 when `i` is the last of `n`.
pub proof fn lemma_next_index(i: int, n: int)
    requires
        0 <= i < n,
    ensures
        next_index(i, n) == if i + 1 == n {
            0
        } else {
            i + 1
        },
{
    if i + 1 < n {
        vstd::arithmetic::div_mod::lemma_small_mod((i + 1) as nat, n as nat);
    } else {
        vstd::arithmetic::div_mod::lemma_mod_self_0(n);
    }
}

/// A step keeps a snapshot well formed and constrained, and leaves the four
/// frozen arrays as they are.
pub proof fn lemma_advanced_keeps(s: Snapshot)
    requires
        s.well_formed(),
    ensures
        s.advanced().well_formed(),
        s.advanced().lanes() == s.lanes(),
        s.advanced().same_parameters(s),
        s.constrained() ==> s.advanced().constrained(),
{
    lemma_next_index(s.idx_mult, s.lanes());
    lemma_next_index(s.idx_xor, s.lanes());
}

/// Any number of steps keeps a snapshot well formed and constrained, and leaves
/// the four frozen arrays as they are.
pub proof fn lemma_advanced_by_keeps(s: Snapshot, k: nat)
    requires
        s.well_formed(),
    ensures
        s.advanced_by(k).well_formed(),
        s.advanced_by(k).lanes() == s.lanes(),
        s.advanced_by(k).same_parameters(s),
        s.constrained() ==> s.advanced_by(k).constrained(),
    decreases k,
{
    if k > 0 {
        lemma_advanced_by_keeps(s, (k - 1) as nat);
        lemma_advanced_keeps(s.advanced_by((k - 1) as nat));
    }
}

/// The invariant of a device holds in every state that it can reach: producing
/// values, saving and restoring keep a valid device valid. In particular the
/// parameter constraints hold of both snapshots for the device's lifetime.
pub proof fn lemma_valid_is_kept(d: DeviceView, k: nat)
    requires
        d.valid(),
    ensures
        d.generated(k).valid(),
        d.saved().valid(),
        d.restored().valid(),
{
    lemma_advanced_by_keeps(d.current, k);
}

/// Size invariant and parameter constraints of construction: for every seed and
/// every positive multiple of 32, the constructed device is valid. Its arrays
/// hold `length_u8 / 8` words each, every `a_mult[i]` is 1 modulo 4, every
/// `b_mult[i]` and `b_xor[i]` is odd and every `a_xor[i]` is even.
pub proof fn lemma_initial_device_valid(seed: Seq<u8>, length_u8: int)
    requires
        length_u8 > 0,
        length_u8 % 32 == 0,
    ensures
        initial_device(seed, length_u8).valid(),
        initial_device(seed, length_u8).current.lanes() == length_u8 / 8,
        initial_device(seed, length_u8).current.constrained(),
{
    let s0 = absorbed(seed, length_u8);
    lemma_rounds_len(s0, 2);
    lemma_rounds_len(s0, 4);
    lemma_rounds_len(s0, 6);
    lemma_rounds_len(s0, 8);
    lemma_rounds_len(s0, 10);
    lemma_rounds_len(s0, 12);
    let snap = initial_snapshot(seed, length_u8);
    assert forall|i: int| 0 <= i < snap.a_mult.len() implies #[trigger] snap.a_mult[i] % 4
        == 1 by {
        let v = le_words(harvest_state(seed, length_u8, 2))[i];
        assert(snap.a_mult[i] == constrain_a_mult(v));
    }
    assert forall|i: int| 0 <= i < snap.b_mult.len() implies #[trigger] snap.b_mult[i] % 2
        == 1 by {
        let v = le_words(harvest_state(seed, length_u8, 3))[i];
        assert(snap.b_mult[i] == constrain_b_mult(v));
    }
    assert forall|i: int| 0 <= i < snap.a_xor.len() implies #[trigger] snap.a_xor[i] % 2
        == 0 by {
        let v = le_words(harvest_state(seed, length_u8, 5))[i];
        assert(snap.a_xor[i] == constrain_a_xor(v));
    }
    assert forall|i: int| 0 <= i < snap.b_xor.len() implies #[trigger] snap.b_xor[i] % 2
        == 1 by {
        let v = le_words(harvest_state(seed, length_u8, 6))[i];
        assert(snap.b_xor[i] == constrain_b_xor(v));
    }
}

/// Determinism: what a device holds, writes and produces is a function of its
/// seed bytes and its size. Two devices built from the same seed and size are
/// the same and have the same persisted text; any request draws the same
/// values from both and leaves them the same, with the same text again.
pub proof fn lemma_deterministic(
    seed_a: Seq<u8>,
    seed_b: Seq<u8>,
    length_a: int,
    length_b: int,
    count: nat,
)
    requires
        seed_a == seed_b,
        length_a == length_b,
    ensures
        initial_device(seed_a, length_a) == initial_device(seed_b, length_b),
        state_text(initial_device(seed_a, length_a)) == state_text(
            initial_device(seed_b, length_b),
        ),
        initial_device(seed_a, length_a).current.values(count) == initial_device(
            seed_b,
            length_b,
        ).current.values(count),
        initial_device(seed_a, length_a).generated(count) == initial_device(
            seed_b,
            length_b,
        ).generated(count),
        state_text(initial_device(seed_a, length_a).generated(count)) == state_text(
            initial_device(seed_b, length_b).generated(count),
        ),
{
}

/// Checkpoint and restore: save, produce any number `k` of values, restore. The
/// current snapshot is then the one that was saved, so every later request
/// draws the values that the freshly saved device would have drawn.
pub proof fn lemma_checkpoint_round_trip(d: DeviceView, k: nat, count: nat)
    ensures
        d.saved().generated(k).restored() == d.saved(),
        d.saved().generated(k).restored().current.values(count) == d.saved().current.values(
            count,
        ),
{
}

} // verus!

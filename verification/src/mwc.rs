//! Multiply-with-carry generators over two 64-bit lanes.
//!
//! Each lane packs a 32-bit value in its low half and a 32-bit carry in its
//! high half. The variants differ in how many parameter sets they walk
//! through in turn: one, two or four.

use vstd::prelude::*;
use vstd::slice::slice_subrange;
use crate::lanes64::{lanes_from_le64, low_product64, U64Lanes, U64x2};
use crate::seed::SeedError;

verus! {

/// Multiplier of lane `lane` in parameter set `set`.
pub open spec fn mwc_factor(set: int, lane: int) -> u64 {
    if set == 0 {
        if lane == 0 {
            4294963023
        } else {
            3947008974
        }
    } else if set == 1 {
        if lane == 0 {
            4162943475
        } else {
            2654432763
        }
    } else if set == 2 {
        if lane == 0 {
            3874257210
        } else {
            2936881968
        }
    } else {
        if lane == 0 {
            4294957665
        } else {
            2811536238
        }
    }
}

/// One step of a lane: the full product of the lane's value and the
/// multiplier, plus the lane's carry.
pub open spec fn mwc_lane_next(x: u64, factor: u64) -> u64 {
    ((x % 0x1_0000_0000) * (factor % 0x1_0000_0000) + x / 0x1_0000_0000) as u64
}

/// The output scramble of a lane: three xor-shift steps.
pub open spec fn mwc_scramble(y: u64) -> u64 {
    let a = y ^ (y << 30);
    let b = a ^ (a >> 35);
    b ^ (b << 13)
}

/// One step of a state vector under parameter set `set`.
pub open spec fn mwc_next(s: Seq<u64>, set: int) -> Seq<u64> {
    Seq::new(2, |i: int| mwc_lane_next(s[i], mwc_factor(set, i)))
}

/// The output for a state vector that has just been stepped.
pub open spec fn mwc_output(s: Seq<u64>) -> Seq<u64> {
    Seq::new(2, |i: int| mwc_scramble(s[i]))
}

/// What a multiply-with-carry generator holds: one state vector per
/// parameter set, and the index of the set that serves the next call.
pub struct MwcState {
    pub buffer: Seq<Seq<u64>>,
    pub index: nat,
}

impl MwcState {
    /// The index is within the buffer.
    pub open spec fn wf(self) -> bool {
        self.index < self.buffer.len()
    }

    /// The state after one call: the active vector is stepped and the index
    /// moves on, round robin.
    pub open spec fn next(self) -> MwcState {
        MwcState {
            buffer: self.buffer.update(
                self.index as int,
                mwc_next(self.buffer[self.index as int], self.index as int),
            ),
            index: (self.index + 1) % self.buffer.len(),
        }
    }

    /// What the next call returns.
    pub open spec fn output(self) -> Seq<u64> {
        mwc_output(mwc_next(self.buffer[self.index as int], self.index as int))
    }

    /// The state after `n` calls.
    pub open spec fn after(self, n: nat) -> MwcState
        decreases n,
    {
        if n == 0 {
            self
        } else {
            self.after((n - 1) as nat).next()
        }
    }

    /// The state that `sets * 16` seed bytes give: the bytes fill the state
    /// vectors in order, each lane least significant byte first, and the
    /// first parameter set is active.
    pub open spec fn seeded(bytes: Seq<u8>, sets: nat) -> MwcState {
        MwcState {
            buffer: Seq::new(sets, |k: int| lanes_from_le64(bytes.subrange(16 * k, 16 * k + 16))),
            index: 0,
        }
    }
}

proof fn lemma_carry_is_high_half(x: u64)
    by (bit_vector)
    ensures
        x >> 32 == x / 0x1_0000_0000,
{
}

fn factors(set: usize) -> (f: U64x2)
    requires
        set < 4,
    ensures
        f@[0] == mwc_factor(set as int, 0),
        f@[1] == mwc_factor(set as int, 1),
{
    if set == 0 {
        U64Lanes { lanes: [4294963023, 3947008974] }
    } else if set == 1 {
        U64Lanes { lanes: [4162943475, 2654432763] }
    } else if set == 2 {
        U64Lanes { lanes: [3874257210, 2936881968] }
    } else {
        U64Lanes { lanes: [4294957665, 2811536238] }
    }
}

/// Steps one state vector under parameter set `set`; returns the new state
/// vector and the scrambled output.
fn step(x: &U64x2, set: usize) -> (r: (U64x2, U64x2))
    requires
        set < 4,
    ensures
        r.0@ == mwc_next(x@, set as int),
        r.1@ == mwc_output(r.0@),
{
    let f = factors(set);
    let product = x.widening_mul_low(&f);
    let carry = x.shr(32);
    let y = product.add(&carry);
    proof {
        assert forall|i: int| 0 <= i < 2 implies #[trigger] y@[i] == mwc_lane_next(
            x@[i],
            mwc_factor(set as int, i),
        ) by {
            lemma_carry_is_high_half(x@[i]);
            let a = x@[i] % 0x1_0000_0000;
            let b = f@[i] % 0x1_0000_0000;
            assert(a * b <= 0xffff_ffff * 0xffff_ffff) by (nonlinear_arith)
                requires
                    a <= 0xffff_ffff,
                    b <= 0xffff_ffff,
            ;
            assert(product@[i] == low_product64(x@[i], f@[i]));
        }
        assert(y@ =~= mwc_next(x@, set as int));
    }
    let a = y.xor(&y.shl(30));
    let b = a.xor(&a.shr(35));
    let out = b.xor(&b.shl(13));
    assert(out@ =~= mwc_output(y@));
    (y, out)
}

/// The index moves by one per call, so after `n` calls it stands `n` places
/// on, round robin.
pub proof fn lemma_index_after(st: MwcState, n: nat)
    requires
        st.wf(),
    ensures
        st.after(n).buffer.len() == st.buffer.len(),
        st.after(n).index == (st.index + n) % st.buffer.len(),
    decreases n,
{
    let count = st.buffer.len() as int;
    if n == 0 {
        vstd::arithmetic::div_mod::lemma_small_mod(st.index, count as nat);
    } else {
        lemma_index_after(st, (n - 1) as nat);
        let before = (st.index + n - 1) % count;
        assert(st.after(n).index == (before + 1) % count);
        vstd::arithmetic::div_mod::lemma_add_mod_noop_right(1, st.index + n - 1, count);
    }
}

/// The round-robin index has period exactly the number of parameter sets: it
/// is back at its start after `n` calls if and only if `n` is a multiple of
/// that number.
pub proof fn lemma_index_period(st: MwcState, n: nat)
    requires
        st.wf(),
    ensures
        st.after(n).index == st.index <==> n % st.buffer.len() == 0,
{
    lemma_index_after(st, n);
    let count = st.buffer.len() as int;
    vstd::arithmetic::div_mod::lemma_fundamental_div_mod(n as int, count);
    let q = n as int / count;
    let r = n as int % count;
    assert(q * count == count * q) by (nonlinear_arith);
    vstd::arithmetic::div_mod::lemma_mod_multiples_vanish(q, st.index + r, count);
    if st.index + r < count {
        vstd::arithmetic::div_mod::lemma_small_mod((st.index + r) as nat, count as nat);
    } else {
        vstd::arithmetic::div_mod::lemma_fundamental_div_mod_converse(
            st.index + r,
            count,
            1,
            st.index + r - count,
        );
    }
}

/// Two generators built from the same bytes of entropy hold the same state,
/// and so give the same output at every call.
pub proof fn lemma_same_entropy_same_outputs(a: Seq<u8>, b: Seq<u8>, sets: nat, n: nat)
    requires
        a == b,
    ensures
        MwcState::seeded(b, sets) == MwcState::seeded(a, sets),
        MwcState::seeded(b, sets).after(n).output() == MwcState::seeded(a, sets).after(n).output(),
{
}

/// One parameter set, two lanes.
pub struct Mwc2 {
    state: U64x2,
}

impl View for Mwc2 {
    type V = MwcState;

    closed spec fn view(&self) -> MwcState {
        MwcState { buffer: seq![self.state@], index: 0 }
    }
}

impl Mwc2 {
    /// Construction from a fixed-size seed is not offered for this family.
    pub fn from_seed(seed: [u8; 0]) -> (r: Result<Self, SeedError>)
        ensures
            r is Err,
            r->Err_0 == SeedError::SeedingUnsupported,
    {
        Err(SeedError::SeedingUnsupported)
    }

    /// Builds the generator from sixteen bytes of entropy, which fill the
    /// state as they come.
    pub fn from_entropy(bytes: [u8; 16]) -> (r: Self)
        ensures
            r@ == MwcState::seeded(bytes@, 1),
            r@.buffer.len() == 1,
            r@.index == 0,
    {
        let state = U64Lanes::<2>::from_le_bytes(bytes.as_slice());
        let r = Mwc2 { state };
        proof {
            assert(bytes@.subrange(0, 16) =~= bytes@);
            assert(r@.buffer =~= MwcState::seeded(bytes@, 1).buffer);
        }
        r
    }

    /// Steps the state and returns the scrambled new state.
    pub fn generate(&mut self) -> (out: U64x2)
        ensures
            final(self)@ == old(self)@.next(),
            out@ == old(self)@.output(),
            final(self)@.buffer.len() == 1,
            final(self)@.index == 0,
    {
        let (y, out) = step(&self.state, 0);
        self.state = y;
        proof {
            assert(final(self)@.buffer =~= old(self)@.next().buffer);
        }
        out
    }
}

/// Two parameter sets, served in turn.
pub struct Mwc4 {
    buffer: [U64x2; 2],
    idx: bool,
}

impl View for Mwc4 {
    type V = MwcState;

    closed spec fn view(&self) -> MwcState {
        MwcState {
            buffer: seq![self.buffer@[0]@, self.buffer@[1]@],
            index: if self.idx {
                1
            } else {
                0
            },
        }
    }
}

impl Mwc4 {
    /// Construction from a fixed-size seed is not offered for this family.
    pub fn from_seed(seed: [u8; 0]) -> (r: Result<Self, SeedError>)
        ensures
            r is Err,
            r->Err_0 == SeedError::SeedingUnsupported,
    {
        Err(SeedError::SeedingUnsupported)
    }

    /// Builds the generator from thirty-two bytes of entropy, which fill the
    /// state as they come.
    pub fn from_entropy(bytes: [u8; 32]) -> (r: Self)
        ensures
            r@ == MwcState::seeded(bytes@, 2),
            r@.buffer.len() == 2,
            r@.index == 0,
    {
        let all = bytes.as_slice();
        let first = U64Lanes::<2>::from_le_bytes(slice_subrange(all, 0, 16));
        let second = U64Lanes::<2>::from_le_bytes(slice_subrange(all, 16, 32));
        let r = Mwc4 { buffer: [first, second], idx: false };
        proof {
            assert(r@.buffer =~= MwcState::seeded(bytes@, 2).buffer);
        }
        r
    }

    /// Steps the active state vector, moves on to the other parameter set
    /// and returns the scrambled new state vector.
    pub fn generate(&mut self) -> (out: U64x2)
        ensures
            final(self)@ == old(self)@.next(),
            out@ == old(self)@.output(),
            final(self)@.buffer.len() == 2,
            final(self)@.index == (old(self)@.index + 1) % 2,
    {
        let i: usize = if self.idx {
            1
        } else {
            0
        };
        let (y, out) = step(&self.buffer[i], i);
        self.buffer[i] = y;
        self.idx = !self.idx;
        proof {
            assert(old(self)@.buffer.len() == 2);
            assert(final(self)@.buffer =~= old(self)@.next().buffer);
        }
        out
    }
}

/// Four parameter sets, served in turn.
pub struct Mwc8 {
    buffer: [U64x2; 4],
    idx: u8,
}

impl View for Mwc8 {
    type V = MwcState;

    closed spec fn view(&self) -> MwcState {
        MwcState {
            buffer: seq![self.buffer@[0]@, self.buffer@[1]@, self.buffer@[2]@, self.buffer@[3]@],
            index: self.idx as nat,
        }
    }
}

impl Mwc8 {
    #[verifier::type_invariant]
    spec fn index_in_range(self) -> bool {
        self.idx < 4
    }

    /// Construction from a fixed-size seed is not offered for this family.
    pub fn from_seed(seed: [u8; 0]) -> (r: Result<Self, SeedError>)
        ensures
            r is Err,
            r->Err_0 == SeedError::SeedingUnsupported,
    {
        Err(SeedError::SeedingUnsupported)
    }

    /// Builds the generator from sixty-four bytes of entropy, which fill the
    /// state as they come.
    pub fn from_entropy(bytes: [u8; 64]) -> (r: Self)
        ensures
            r@ == MwcState::seeded(bytes@, 4),
            r@.buffer.len() == 4,
            r@.index == 0,
    {
        let all = bytes.as_slice();
        let first = U64Lanes::<2>::from_le_bytes(slice_subrange(all, 0, 16));
        let second = U64Lanes::<2>::from_le_bytes(slice_subrange(all, 16, 32));
        let third = U64Lanes::<2>::from_le_bytes(slice_subrange(all, 32, 48));
        let fourth = U64Lanes::<2>::from_le_bytes(slice_subrange(all, 48, 64));
        let r = Mwc8 { buffer: [first, second, third, fourth], idx: 0 };
        proof {
            assert(r@.buffer =~= MwcState::seeded(bytes@, 4).buffer);
        }
        r
    }

    /// Steps the active state vector, moves on to the next parameter set,
    /// round robin, and returns the scrambled new state vector.
    pub fn generate(&mut self) -> (out: U64x2)
        ensures
            final(self)@ == old(self)@.next(),
            out@ == old(self)@.output(),
            final(self)@.buffer.len() == 4,
            final(self)@.index == (old(self)@.index + 1) % 4,
    {
        proof {
            use_type_invariant(&*self);
        }
        let i: usize = self.idx as usize;
        let (y, out) = step(&self.buffer[i], i);
        self.buffer[i] = y;
        self.idx = (self.idx + 1) % 4;
        proof {
            assert(final(self)@.buffer =~= old(self)@.next().buffer);
        }
        out
    }
}

} // verus!

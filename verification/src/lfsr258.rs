//! A combined generator of five linear-feedback shift registers with 64-bit
//! lanes and period 2^258, and the validator that seeds it.
//!
//! Every register must start strictly above a threshold of its own. The
//! validator asks for entropy, checks what it is given and asks again for
//! any register that fails, all lanes of that register at once.

use vstd::prelude::*;
use vstd::slice::slice_subrange;
use crate::lanes64::{lanes_from_le64, U64Lanes};
use crate::seed::SeedError;

verus! {

/// One step of a register: `((z & mask) << s3) ^ (((z << s1) ^ z) >> s2)`.
pub open spec fn tausworthe64(z: u64, s1: u32, s2: u32, s3: u32, mask: u64) -> u64 {
    ((z & mask) << s3) ^ (((z << s1) ^ z) >> s2)
}

/// One step of a lane of register `r`, with that register's constants.
pub open spec fn lfsr258_lane_next(z: u64, r: int) -> u64 {
    if r == 0 {
        tausworthe64(z, 1, 53, 10, 18446744073709551614)
    } else if r == 1 {
        tausworthe64(z, 24, 50, 5, 18446744073709551104)
    } else if r == 2 {
        tausworthe64(z, 3, 23, 29, 18446744073709547520)
    } else if r == 3 {
        tausworthe64(z, 5, 24, 23, 18446744073709420544)
    } else {
        tausworthe64(z, 3, 33, 8, 18446744073701163008)
    }
}

/// The value that every lane of register `r` must exceed when seeded.
pub open spec fn lfsr258_threshold(r: int) -> u64 {
    if r == 0 {
        1
    } else if r == 1 {
        511
    } else if r == 2 {
        4095
    } else if r == 3 {
        131071
    } else {
        8388607
    }
}

/// Every lane of the register exceeds the threshold of register `r`.
pub open spec fn lfsr258_register_valid(lanes: Seq<u64>, r: int) -> bool {
    forall|i: int| 0 <= i < lanes.len() ==> lanes[i] > lfsr258_threshold(r)
}

/// Every lane of every register exceeds its threshold.
pub open spec fn lfsr258_valid(st: Seq<Seq<u64>>) -> bool {
    forall|r: int| 0 <= r < 5 ==> lfsr258_register_valid(#[trigger] st[r], r)
}

/// The registers after one step.
pub open spec fn lfsr258_next(st: Seq<Seq<u64>>) -> Seq<Seq<u64>> {
    Seq::new(5, |r: int| Seq::new(st[r].len(), |i: int| lfsr258_lane_next(st[r][i], r)))
}

/// The output for registers that have just been stepped: their xor.
pub open spec fn lfsr258_output(st: Seq<Seq<u64>>) -> Seq<u64> {
    Seq::new(st[0].len(), |i: int| st[0][i] ^ st[1][i] ^ st[2][i] ^ st[3][i] ^ st[4][i])
}

/// The registers after `n` steps.
pub open spec fn lfsr258_after(st: Seq<Seq<u64>>, n: nat) -> Seq<Seq<u64>>
    decreases n,
{
    if n == 0 {
        st
    } else {
        lfsr258_next(lfsr258_after(st, (n - 1) as nat))
    }
}

/// A lane above its threshold stays above it when stepped.
pub proof fn lemma_lane_stays_valid(z: u64)
    by (bit_vector)
    ensures
        z > 1 ==> tausworthe64(z, 1, 53, 10, 18446744073709551614) > 1,
        z > 511 ==> tausworthe64(z, 24, 50, 5, 18446744073709551104) > 511,
        z > 4095 ==> tausworthe64(z, 3, 23, 29, 18446744073709547520) > 4095,
        z > 131071 ==> tausworthe64(z, 5, 24, 23, 18446744073709420544) > 131071,
        z > 8388607 ==> tausworthe64(z, 3, 33, 8, 18446744073701163008) > 8388607,
{
}

/// Registers that are valid stay valid when stepped.
pub proof fn lemma_step_keeps_valid(st: Seq<Seq<u64>>)
    requires
        lfsr258_valid(st),
    ensures
        lfsr258_valid(lfsr258_next(st)),
{
    let next = lfsr258_next(st);
    assert forall|r: int| 0 <= r < 5 implies lfsr258_register_valid(#[trigger] next[r], r) by {
        assert(lfsr258_register_valid(st[r], r));
        assert forall|i: int| 0 <= i < next[r].len() implies next[r][i] > lfsr258_threshold(r) by {
            lemma_lane_stays_valid(st[r][i]);
        }
    }
}

/// Registers that are valid stay valid however often they are stepped.
pub proof fn lemma_stays_valid(st: Seq<Seq<u64>>, n: nat)
    requires
        lfsr258_valid(st),
    ensures
        lfsr258_valid(lfsr258_after(st, n)),
    decreases n,
{
    if n > 0 {
        lemma_stays_valid(st, (n - 1) as nat);
        lemma_step_keeps_valid(lfsr258_after(st, (n - 1) as nat));
    }
}

fn step_register<const N: usize>(z: &U64Lanes<N>, s1: u32, s2: u32, s3: u32, mask: u64) -> (r:
    U64Lanes<N>)
    requires
        s1 < 64,
        s2 < 64,
        s3 < 64,
    ensures
        forall|i: int| 0 <= i < N ==> r@[i] == tausworthe64(z@[i], s1, s2, s3, mask),
{
    let b = z.shl(s1).xor(z).shr(s2);
    z.and(&U64Lanes::splat(mask)).shl(s3).xor(&b)
}

/// The generator: five registers of `N` lanes each.
pub struct Lfsr258<const N: usize> {
    y: [U64Lanes<N>; 5],
}

pub type Lfsr258x2 = Lfsr258<2>;

pub type Lfsr258x4 = Lfsr258<4>;

pub type Lfsr258x8 = Lfsr258<8>;

impl<const N: usize> View for Lfsr258<N> {
    type V = Seq<Seq<u64>>;

    closed spec fn view(&self) -> Seq<Seq<u64>> {
        Seq::new(5, |r: int| self.y@[r]@)
    }
}

impl<const N: usize> Lfsr258<N> {
    /// Construction from a fixed-size seed is not offered: arbitrary bytes
    /// need not pass the thresholds.
    pub fn from_seed(seed: [u8; 0]) -> (r: Result<Self, SeedError>)
        ensures
            r is Err,
            r->Err_0 == SeedError::SeedingUnsupported,
    {
        Err(SeedError::SeedingUnsupported)
    }

    /// Steps every register and returns the xor of the stepped registers.
    pub fn generate(&mut self) -> (out: U64Lanes<N>)
        ensures
            final(self)@ == lfsr258_next(old(self)@),
            out@ == lfsr258_output(final(self)@),
            lfsr258_valid(old(self)@) ==> lfsr258_valid(final(self)@),
    {
        let y1 = step_register(&self.y[0], 1, 53, 10, 18446744073709551614);
        let y2 = step_register(&self.y[1], 24, 50, 5, 18446744073709551104);
        let y3 = step_register(&self.y[2], 3, 23, 29, 18446744073709547520);
        let y4 = step_register(&self.y[3], 5, 24, 23, 18446744073709420544);
        let y5 = step_register(&self.y[4], 3, 33, 8, 18446744073701163008);
        let out = y1.xor(&y2).xor(&y3).xor(&y4).xor(&y5);
        self.y = [y1, y2, y3, y4, y5];
        proof {
            let before = old(self)@;
            let after = final(self)@;
            assert forall|r: int| 0 <= r < 5 implies #[trigger] after[r] =~= lfsr258_next(
                before,
            )[r] by {
                if r == 0 {
                    assert(after[0] =~= lfsr258_next(before)[0]);
                } else if r == 1 {
                    assert(after[1] =~= lfsr258_next(before)[1]);
                } else if r == 2 {
                    assert(after[2] =~= lfsr258_next(before)[2]);
                } else if r == 3 {
                    assert(after[3] =~= lfsr258_next(before)[3]);
                } else {
                    assert(after[4] =~= lfsr258_next(before)[4]);
                }
            }
            assert(after =~= lfsr258_next(before));
            assert(out@ =~= lfsr258_output(after));
            if lfsr258_valid(before) {
                lemma_step_keeps_valid(before);
            }
        }
        out
    }
}

/// Index of the first register at or after `from` that has a lane at or
/// below its threshold; 5 if there is none.
pub open spec fn lfsr258_settle(registers: Seq<Seq<u64>>, from: nat) -> nat
    decreases 5 - from,
{
    if from >= 5 {
        5
    } else if lfsr258_register_valid(registers[from as int], from as int) {
        lfsr258_settle(registers, from + 1)
    } else {
        from
    }
}

/// What the validator holds between two draws of entropy.
pub struct Lfsr258Seeding {
    /// The registers as last drawn.
    pub registers: Seq<Seq<u64>>,
    /// How many registers, from the first on, have been accepted.
    pub settled: nat,
    /// Whether the first draw, which fills all registers, has been made.
    pub primed: bool,
}

impl Lfsr258Seeding {
    /// The validator before any entropy has been drawn.
    pub open spec fn start(lanes: nat) -> Self {
        Lfsr258Seeding {
            registers: Seq::new(5, |r: int| Seq::new(lanes, |i: int| 0u64)),
            settled: 0,
            primed: false,
        }
    }

    /// All registers have been drawn and accepted.
    pub open spec fn done(self) -> bool {
        self.primed && self.settled >= 5
    }

    /// How many bytes the next draw takes: all five registers at first, one
    /// register for every redraw, nothing once done.
    pub open spec fn wanted(self, lanes: nat) -> nat {
        if !self.primed {
            40 * lanes
        } else if self.settled < 5 {
            8 * lanes
        } else {
            0
        }
    }

    /// The validator after a draw of `bytes`. The first draw fills all
    /// registers in order; a redraw replaces the first register that was not
    /// accepted, all of its lanes. Then every register is accepted up to the
    /// first that fails its threshold.
    pub open spec fn feed(self, bytes: Seq<u8>, lanes: nat) -> Self {
        if !self.primed {
            let registers = Seq::new(
                5,
                |r: int| lanes_from_le64(bytes.subrange(8 * lanes * r, 8 * lanes * (r + 1))),
            );
            Lfsr258Seeding { registers, settled: lfsr258_settle(registers, 0), primed: true }
        } else if self.settled < 5 {
            let registers = self.registers.update(self.settled as int, lanes_from_le64(bytes));
            Lfsr258Seeding {
                registers,
                settled: lfsr258_settle(registers, self.settled),
                primed: true,
            }
        } else {
            self
        }
    }

    /// The validator driven by a stream of entropy bytes until it is done:
    /// the final state and the number of bytes drawn, or `None` where the
    /// stream ends before that.
    pub open spec fn run(self, stream: Seq<u8>, lanes: nat) -> Option<(Self, nat)>
        decreases stream.len(),
    {
        let w = self.wanted(lanes);
        if self.done() {
            Some((self, 0nat))
        } else if w == 0 || stream.len() < w {
            None
        } else {
            match self.feed(stream.take(w as int), lanes).run(stream.skip(w as int), lanes) {
                Some((end, used)) => Some((end, used + w)),
                None => None,
            }
        }
    }
}

/// Registers are accepted in order, and every accepted register is valid.
pub proof fn lemma_settled_registers_valid(registers: Seq<Seq<u64>>, from: nat)
    requires
        from <= 5,
    ensures
        from <= lfsr258_settle(registers, from) <= 5,
        forall|r: int|
            from <= r < lfsr258_settle(registers, from) ==> lfsr258_register_valid(
                #[trigger] registers[r],
                r,
            ),
        lfsr258_settle(registers, from) < 5 ==> !lfsr258_register_valid(
            registers[lfsr258_settle(registers, from) as int],
            lfsr258_settle(registers, from) as int,
        ),
    decreases 5 - from,
{
    if from < 5 && lfsr258_register_valid(registers[from as int], from as int) {
        lemma_settled_registers_valid(registers, from + 1);
    }
}

fn threshold(r: usize) -> (t: u64)
    requires
        r < 5,
    ensures
        t == lfsr258_threshold(r as int),
{
    if r == 0 {
        1
    } else if r == 1 {
        511
    } else if r == 2 {
        4095
    } else if r == 3 {
        131071
    } else {
        8388607
    }
}

/// The validator: it says how many bytes of entropy it wants next, takes
/// them, and hands out the generator once every register has passed.
pub struct Lfsr258Seeder<const N: usize> {
    registers: [U64Lanes<N>; 5],
    settled: usize,
    primed: bool,
}

impl<const N: usize> View for Lfsr258Seeder<N> {
    type V = Lfsr258Seeding;

    closed spec fn view(&self) -> Lfsr258Seeding {
        Lfsr258Seeding {
            registers: Seq::new(5, |r: int| self.registers@[r]@),
            settled: self.settled as nat,
            primed: self.primed,
        }
    }
}

impl<const N: usize> Lfsr258Seeder<N> {
    #[verifier::type_invariant]
    spec fn inv(self) -> bool {
        &&& 0 < N
        &&& 40 * N <= usize::MAX
        &&& self.settled <= 5
        &&& !self.primed ==> self.settled == 0
        &&& forall|r: int|
            0 <= r < self.settled ==> lfsr258_register_valid(#[trigger] self.registers@[r]@, r)
    }

    /// A validator that has drawn nothing yet.
    pub fn new() -> (r: Self)
        requires
            0 < N,
            40 * N <= usize::MAX,
        ensures
            r@ == Lfsr258Seeding::start(N as nat),
    {
        let zero = U64Lanes::<N>::splat(0);
        let r = Lfsr258Seeder { registers: [zero, zero, zero, zero, zero], settled: 0, primed: false };
        proof {
            assert forall|k: int| 0 <= k < 5 implies #[trigger] r@.registers[k]
                =~= Lfsr258Seeding::start(N as nat).registers[k] by {}
            assert(r@.registers =~= Lfsr258Seeding::start(N as nat).registers);
        }
        r
    }

    /// Whether every register has been drawn and accepted.
    pub fn is_done(&self) -> (r: bool)
        ensures
            r == self@.done(),
    {
        self.primed && self.settled >= 5
    }

    /// How many bytes the next call of `feed` takes.
    pub fn wanted(&self) -> (w: usize)
        ensures
            w == self@.wanted(N as nat),
            !self@.done() ==> w > 0,
    {
        proof {
            use_type_invariant(self);
        }
        if !self.primed {
            40 * N
        } else if self.settled < 5 {
            8 * N
        } else {
            0
        }
    }

    /// Takes one draw of entropy.
    pub fn feed(&mut self, bytes: &[u8])
        requires
            bytes@.len() == old(self)@.wanted(N as nat),
        ensures
            final(self)@ == old(self)@.feed(bytes@, N as nat),
    {
        proof {
            use_type_invariant(&*self);
        }
        let ghost expected = old(self)@.feed(bytes@, N as nat).registers;
        if !self.primed {
            let len: usize = 8 * N;
            let first = U64Lanes::from_le_bytes(slice_subrange(bytes, 0, len));
            let second = U64Lanes::from_le_bytes(slice_subrange(bytes, len, 2 * len));
            let third = U64Lanes::from_le_bytes(slice_subrange(bytes, 2 * len, 3 * len));
            let fourth = U64Lanes::from_le_bytes(slice_subrange(bytes, 3 * len, 4 * len));
            let fifth = U64Lanes::from_le_bytes(slice_subrange(bytes, 4 * len, 5 * len));
            proof {
                assert(8 * N * 0 == 0 && 8 * N * 1 == len && 8 * N * 2 == 2 * len && 8 * N * 3
                    == 3 * len && 8 * N * 4 == 4 * len && 8 * N * 5 == 5 * len) by (nonlinear_arith)
                    requires
                        len == 8 * N,
                ;
                assert(first@ == expected[0]);
                assert(second@ == expected[1]);
                assert(third@ == expected[2]);
                assert(fourth@ == expected[3]);
                assert(fifth@ == expected[4]);
            }
            self.registers = [first, second, third, fourth, fifth];
            self.primed = true;
        } else if self.settled < 5 {
            self.registers[self.settled] = U64Lanes::from_le_bytes(bytes);
        } else {
            return ;
        }
        let ghost drawn = self@.registers;
        proof {
            assert forall|r: int| 0 <= r < 5 implies #[trigger] drawn[r] == expected[r] by {
                if r == 0 {
                    assert(drawn[0] == expected[0]);
                } else if r == 1 {
                    assert(drawn[1] == expected[1]);
                } else if r == 2 {
                    assert(drawn[2] == expected[2]);
                } else if r == 3 {
                    assert(drawn[3] == expected[3]);
                } else {
                    assert(drawn[4] == expected[4]);
                }
            }
            assert(drawn =~= expected);
        }
        let ghost from = self.settled as nat;
        let mut settled: usize = self.settled;
        let mut stop: bool = false;
        while settled < 5 && !stop
            invariant
                settled <= 5,
                from <= settled,
                drawn == Seq::new(5, |r: int| self.registers@[r]@),
                forall|r: int|
                    0 <= r < settled ==> lfsr258_register_valid(#[trigger] self.registers@[r]@, r),
                lfsr258_settle(drawn, settled as nat) == lfsr258_settle(drawn, from),
                stop ==> settled < 5 && !lfsr258_register_valid(drawn[settled as int], settled as int),
            decreases 5 - settled + (if stop { 0int } else { 1int }),
        {
            let bound = U64Lanes::<N>::splat(threshold(settled));
            let failed = self.registers[settled].any_le(&bound);
            proof {
                let lanes = self.registers@[settled as int]@;
                assert(drawn[settled as int] == lanes);
                if failed {
                    let i = choose|i: int| 0 <= i < N && lanes[i] <= bound@[i];
                    assert(lanes[i] <= lfsr258_threshold(settled as int));
                } else {
                    assert forall|i: int| 0 <= i < lanes.len() implies lanes[i]
                        > lfsr258_threshold(settled as int) by {
                        assert(!(lanes[i] <= bound@[i]));
                    }
                }
            }
            if failed {
                stop = true;
            } else {
                settled += 1;
            }
        }
        self.settled = settled;
    }

    /// Hands out the generator, once every register has been accepted.
    pub fn finish(self) -> (r: Option<Lfsr258<N>>)
        ensures
            self@.done() ==> r is Some && r->Some_0@ == self@.registers && lfsr258_valid(
                r->Some_0@,
            ),
            !self@.done() ==> r is None,
    {
        proof {
            use_type_invariant(&self);
        }
        if self.primed && self.settled >= 5 {
            let g = Lfsr258 { y: self.registers };
            proof {
                assert(g@ =~= self@.registers);
            }
            Some(g)
        } else {
            None
        }
    }
}

/// The registers that a stream of entropy bytes seeds, with the number of
/// bytes drawn from it; `None` where the stream ends before every register
/// has passed.
pub open spec fn lfsr258_seeded(stream: Seq<u8>, lanes: nat) -> Option<(Seq<Seq<u64>>, nat)> {
    match Lfsr258Seeding::start(lanes).run(stream, lanes) {
        Some((end, used)) => Some((end.registers, used)),
        None => None,
    }
}

/// Adds `k` to the count of bytes drawn.
pub open spec fn drawn_after(
    outcome: Option<(Lfsr258Seeding, nat)>,
    k: nat,
) -> Option<(Lfsr258Seeding, nat)> {
    match outcome {
        Some((end, used)) => Some((end, used + k)),
        None => None,
    }
}

impl<const N: usize> Lfsr258<N> {
    /// Seeds a generator from a stream of entropy bytes: draws from the
    /// front of the stream what the validator asks for until every register
    /// has passed, and returns the generator with the number of bytes drawn.
    /// Fails where the stream ends first.
    pub fn from_entropy(stream: &[u8]) -> (r: Result<(Self, usize), SeedError>)
        requires
            0 < N,
            40 * N <= usize::MAX,
        ensures
            r matches Ok((g, used)) ==> lfsr258_seeded(stream@, N as nat) == Some(
                (g@, used as nat),
            ) && lfsr258_valid(g@),
            r matches Err(e) ==> lfsr258_seeded(stream@, N as nat) is None && e
                == SeedError::EntropySourceFailure,
    {
        let mut seeder = Lfsr258Seeder::<N>::new();
        let mut pos: usize = 0;
        let ghost whole = Lfsr258Seeding::start(N as nat).run(stream@, N as nat);
        assert(stream@.skip(0) =~= stream@);
        while !seeder.is_done()
            invariant
                pos <= stream@.len(),
                whole == drawn_after(seeder@.run(stream@.skip(pos as int), N as nat), pos as nat),
                whole == Lfsr258Seeding::start(N as nat).run(stream@, N as nat),
            decreases stream@.len() - pos,
        {
            let w = seeder.wanted();
            if stream.len() - pos < w {
                return Err(SeedError::EntropySourceFailure);
            }
            let ghost before = seeder@;
            let ghost rest = stream@.skip(pos as int);
            seeder.feed(slice_subrange(stream, pos, pos + w));
            proof {
                assert(rest.take(w as int) =~= stream@.subrange(pos as int, pos + w));
                assert(rest.skip(w as int) =~= stream@.skip(pos + w));
                assert(before.run(rest, N as nat) == drawn_after(
                    seeder@.run(rest.skip(w as int), N as nat),
                    w as nat,
                ));
            }
            pos += w;
        }
        match seeder.finish() {
            Some(g) => Ok((g, pos)),
            None => Err(SeedError::EntropySourceFailure),
        }
    }
}

/// All registers are there, none is accepted before the first draw, and
/// every accepted register is valid.
pub open spec fn lfsr258_seeding_sound(st: Lfsr258Seeding) -> bool {
    &&& st.registers.len() == 5
    &&& st.settled <= 5
    &&& !st.primed ==> st.settled == 0
    &&& forall|r: int| 0 <= r < st.settled ==> lfsr258_register_valid(#[trigger] st.registers[r], r)
}

/// A draw keeps the validator sound.
pub proof fn lemma_feed_keeps_sound(st: Lfsr258Seeding, bytes: Seq<u8>, lanes: nat)
    requires
        lfsr258_seeding_sound(st),
    ensures
        lfsr258_seeding_sound(st.feed(bytes, lanes)),
{
    let fed = st.feed(bytes, lanes);
    if !st.primed {
        lemma_settled_registers_valid(fed.registers, 0);
    } else if st.settled < 5 {
        lemma_settled_registers_valid(fed.registers, st.settled);
        assert forall|r: int| 0 <= r < fed.settled implies lfsr258_register_valid(
            #[trigger] fed.registers[r],
            r,
        ) by {
            if r < st.settled {
                assert(fed.registers[r] == st.registers[r]);
            }
        }
    }
}

/// A run that succeeds ends with every register valid.
pub proof fn lemma_run_ends_valid(st: Lfsr258Seeding, stream: Seq<u8>, lanes: nat)
    requires
        lfsr258_seeding_sound(st),
        st.run(stream, lanes) is Some,
    ensures
        st.run(stream, lanes)->Some_0.0.done(),
        lfsr258_valid(st.run(stream, lanes)->Some_0.0.registers),
    decreases stream.len(),
{
    if !st.done() {
        let w = st.wanted(lanes);
        lemma_feed_keeps_sound(st, stream.take(w as int), lanes);
        lemma_run_ends_valid(st.feed(stream.take(w as int), lanes), stream.skip(w as int), lanes);
    }
}

/// Whatever stream seeds a generator, every lane of every register that it
/// seeds exceeds its threshold.
pub proof fn lemma_seeded_registers_valid(stream: Seq<u8>, lanes: nat)
    requires
        lfsr258_seeded(stream, lanes) is Some,
    ensures
        lfsr258_valid(lfsr258_seeded(stream, lanes)->Some_0.0),
{
    lemma_run_ends_valid(Lfsr258Seeding::start(lanes), stream, lanes);
}

/// A run of the validator draws no more bytes than the stream holds.
pub proof fn lemma_run_draws_within(st: Lfsr258Seeding, stream: Seq<u8>, lanes: nat)
    requires
        st.run(stream, lanes) is Some,
    ensures
        st.run(stream, lanes)->Some_0.1 <= stream.len(),
    decreases stream.len(),
{
    if !st.done() {
        let w = st.wanted(lanes);
        lemma_run_draws_within(st.feed(stream.take(w as int), lanes), stream.skip(w as int), lanes);
    }
}

/// What a run of the validator yields depends only on the bytes it draws:
/// a second stream that agrees with the first on those bytes yields the same.
pub proof fn lemma_run_reads_only_what_it_draws(
    st: Lfsr258Seeding,
    a: Seq<u8>,
    b: Seq<u8>,
    lanes: nat,
)
    requires
        st.run(a, lanes) is Some,
        st.run(a, lanes)->Some_0.1 <= b.len(),
        b.take(st.run(a, lanes)->Some_0.1 as int) == a.take(st.run(a, lanes)->Some_0.1 as int),
    ensures
        st.run(b, lanes) == st.run(a, lanes),
    decreases a.len(),
{
    let used = st.run(a, lanes)->Some_0.1;
    lemma_run_draws_within(st, a, lanes);
    if !st.done() {
        let w = st.wanted(lanes);
        let fed = st.feed(a.take(w as int), lanes);
        let rest = fed.run(a.skip(w as int), lanes)->Some_0.1;
        assert(used == rest + w);
        assert(b.take(w as int) =~= b.take(used as int).take(w as int));
        assert(a.take(w as int) =~= a.take(used as int).take(w as int));
        assert(b.skip(w as int).take(rest as int) =~= b.take(used as int).skip(w as int));
        assert(a.skip(w as int).take(rest as int) =~= a.take(used as int).skip(w as int));
        lemma_run_reads_only_what_it_draws(fed, a.skip(w as int), b.skip(w as int), lanes);
    }
}

/// Two generators seeded from streams of entropy that agree on the bytes
/// drawn hold the same registers, and so give the same output at every call.
pub proof fn lemma_same_entropy_same_outputs(a: Seq<u8>, b: Seq<u8>, lanes: nat, n: nat)
    requires
        lfsr258_seeded(a, lanes) is Some,
        lfsr258_seeded(a, lanes)->Some_0.1 <= b.len(),
        b.take(lfsr258_seeded(a, lanes)->Some_0.1 as int) == a.take(
            lfsr258_seeded(a, lanes)->Some_0.1 as int,
        ),
    ensures
        lfsr258_seeded(b, lanes) == lfsr258_seeded(a, lanes),
        lfsr258_output(lfsr258_after(lfsr258_seeded(b, lanes)->Some_0.0, n)) == lfsr258_output(
            lfsr258_after(lfsr258_seeded(a, lanes)->Some_0.0, n),
        ),
{
    lemma_run_reads_only_what_it_draws(Lfsr258Seeding::start(lanes), a, b, lanes);
}

} // verus!

//! A combined generator of four linear-feedback shift registers with 32-bit
//! lanes and period 2^113, and the validator that seeds it.
//!
//! Every register must start strictly above a threshold of its own. The
//! validator asks for entropy, checks what it is given and asks again for
//! any register that fails, all lanes of that register at once.

use vstd::prelude::*;
use vstd::slice::slice_subrange;
use crate::lanes32::{lanes_from_le32, U32Lanes};
use crate::seed::SeedError;

verus! {

/// One step of a register: `((z & mask) << s3) ^ (((z << s1) ^ z) >> s2)`.
pub open spec fn tausworthe32(z: u32, s1: u32, s2: u32, s3: u32, mask: u32) -> u32 {
    ((z & mask) << s3) ^ (((z << s1) ^ z) >> s2)
}

/// One step of a lane of register `r`, with that register's constants.
pub open spec fn lfsr113_lane_next(z: u32, r: int) -> u32 {
    if r == 0 {
        tausworthe32(z, 6, 13, 18, 4294967294)
    } else if r == 1 {
        tausworthe32(z, 2, 27, 2, 4294967288)
    } else if r == 2 {
        tausworthe32(z, 13, 21, 7, 4294967280)
    } else {
        tausworthe32(z, 3, 12, 13, 4294967168)
    }
}

/// The value that every lane of register `r` must exceed when seeded.
pub open spec fn lfsr113_threshold(r: int) -> u32 {
    if r == 0 {
        1
    } else if r == 1 {
        7
    } else if r == 2 {
        15
    } else {
        127
    }
}

/// Every lane of the register exceeds the threshold of register `r`.
pub open spec fn lfsr113_register_valid(lanes: Seq<u32>, r: int) -> bool {
    forall|i: int| 0 <= i < lanes.len() ==> lanes[i] > lfsr113_threshold(r)
}

/// Every lane of every register exceeds its threshold.
pub open spec fn lfsr113_valid(st: Seq<Seq<u32>>) -> bool {
    forall|r: int| 0 <= r < 4 ==> lfsr113_register_valid(#[trigger] st[r], r)
}

/// The registers after one step.
pub open spec fn lfsr113_next(st: Seq<Seq<u32>>) -> Seq<Seq<u32>> {
    Seq::new(4, |r: int| Seq::new(st[r].len(), |i: int| lfsr113_lane_next(st[r][i], r)))
}

/// The output for registers that have just been stepped: their xor.
pub open spec fn lfsr113_output(st: Seq<Seq<u32>>) -> Seq<u32> {
    Seq::new(st[0].len(), |i: int| st[0][i] ^ st[1][i] ^ st[2][i] ^ st[3][i])
}

/// The registers after `n` steps.
pub open spec fn lfsr113_after(st: Seq<Seq<u32>>, n: nat) -> Seq<Seq<u32>>
    decreases n,
{
    if n == 0 {
        st
    } else {
        lfsr113_next(lfsr113_after(st, (n - 1) as nat))
    }
}

/// A lane above its threshold stays above it when stepped.
pub proof fn lemma_lane_stays_valid(z: u32)
    by (bit_vector)
    ensures
        z > 1 ==> tausworthe32(z, 6, 13, 18, 4294967294) > 1,
        z > 7 ==> tausworthe32(z, 2, 27, 2, 4294967288) > 7,
        z > 15 ==> tausworthe32(z, 13, 21, 7, 4294967280) > 15,
        z > 127 ==> tausworthe32(z, 3, 12, 13, 4294967168) > 127,
{
}

/// Registers that are valid stay valid when stepped.
pub proof fn lemma_step_keeps_valid(st: Seq<Seq<u32>>)
    requires
        lfsr113_valid(st),
    ensures
        lfsr113_valid(lfsr113_next(st)),
{
    let next = lfsr113_next(st);
    assert forall|r: int| 0 <= r < 4 implies lfsr113_register_valid(#[trigger] next[r], r) by {
        assert(lfsr113_register_valid(st[r], r));
        assert forall|i: int| 0 <= i < next[r].len() implies next[r][i] > lfsr113_threshold(r) by {
            lemma_lane_stays_valid(st[r][i]);
        }
    }
}

/// Registers that are valid stay valid however often they are stepped.
pub proof fn lemma_stays_valid(st: Seq<Seq<u32>>, n: nat)
    requires
        lfsr113_valid(st),
    ensures
        lfsr113_valid(lfsr113_after(st, n)),
    decreases n,
{
    if n > 0 {
        lemma_stays_valid(st, (n - 1) as nat);
        lemma_step_keeps_valid(lfsr113_after(st, (n - 1) as nat));
    }
}

fn step_register<const N: usize>(z: &U32Lanes<N>, s1: u32, s2: u32, s3: u32, mask: u32) -> (r:
    U32Lanes<N>)
    requires
        s1 < 32,
        s2 < 32,
        s3 < 32,
    ensures
        forall|i: int| 0 <= i < N ==> r@[i] == tausworthe32(z@[i], s1, s2, s3, mask),
{
    let b = z.shl(s1).xor(z).shr(s2);
    z.and(&U32Lanes::splat(mask)).shl(s3).xor(&b)
}

/// The generator: four registers of `N` lanes each.
pub struct Lfsr113<const N: usize> {
    z: [U32Lanes<N>; 4],
}

pub type Lfsr113x2 = Lfsr113<2>;

pub type Lfsr113x4 = Lfsr113<4>;

pub type Lfsr113x8 = Lfsr113<8>;

pub type Lfsr113x16 = Lfsr113<16>;

impl<const N: usize> View for Lfsr113<N> {
    type V = Seq<Seq<u32>>;

    closed spec fn view(&self) -> Seq<Seq<u32>> {
        Seq::new(4, |r: int| self.z@[r]@)
    }
}

impl<const N: usize> Lfsr113<N> {
    /// Construction from a fixed-size seed is not offered: arbitrary bytes
    /// need not pass the thresholds.
    pub fn from_seed(seed: [u8; 0]) -> (r: Result<Self, SeedError>)
        ensures
            r is Err,
            r->Err_0 == SeedError::SeedingUnsupported,
    {
        Err(SeedError::SeedingUnsupported)
    }

    /// Steps every register and returns the xor of the stepped registers.
    pub fn generate(&mut self) -> (out: U32Lanes<N>)
        ensures
            final(self)@ == lfsr113_next(old(self)@),
            out@ == lfsr113_output(final(self)@),
            lfsr113_valid(old(self)@) ==> lfsr113_valid(final(self)@),
    {
        let z1 = step_register(&self.z[0], 6, 13, 18, 4294967294);
        let z2 = step_register(&self.z[1], 2, 27, 2, 4294967288);
        let z3 = step_register(&self.z[2], 13, 21, 7, 4294967280);
        let z4 = step_register(&self.z[3], 3, 12, 13, 4294967168);
        let out = z1.xor(&z2).xor(&z3).xor(&z4);
        self.z = [z1, z2, z3, z4];
        proof {
            let before = old(self)@;
            let after = final(self)@;
            assert forall|r: int| 0 <= r < 4 implies #[trigger] after[r] =~= lfsr113_next(
                before,
            )[r] by {
                if r == 0 {
                    assert(after[0] =~= lfsr113_next(before)[0]);
                } else if r == 1 {
                    assert(after[1] =~= lfsr113_next(before)[1]);
                } else if r == 2 {
                    assert(after[2] =~= lfsr113_next(before)[2]);
                } else {
                    assert(after[3] =~= lfsr113_next(before)[3]);
                }
            }
            assert(after =~= lfsr113_next(before));
            assert(out@ =~= lfsr113_output(after));
            if lfsr113_valid(before) {
                lemma_step_keeps_valid(before);
            }
        }
        out
    }
}

/// Index of the first register at or after `from` that has a lane at or
/// below its threshold; 4 if there is none.
pub open spec fn lfsr113_settle(registers: Seq<Seq<u32>>, from: nat) -> nat
    decreases 4 - from,
{
    if from >= 4 {
        4
    } else if lfsr113_register_valid(registers[from as int], from as int) {
        lfsr113_settle(registers, from + 1)
    } else {
        from
    }
}

/// What the validator holds between two draws of entropy.
pub struct Lfsr113Seeding {
    /// The registers as last drawn.
    pub registers: Seq<Seq<u32>>,
    /// How many registers, from the first on, have been accepted.
    pub settled: nat,
    /// Whether the first draw, which fills all registers, has been made.
    pub primed: bool,
}

impl Lfsr113Seeding {
    /// The validator before any entropy has been drawn.
    pub open spec fn start(lanes: nat) -> Self {
        Lfsr113Seeding {
            registers: Seq::new(4, |r: int| Seq::new(lanes, |i: int| 0u32)),
            settled: 0,
            primed: false,
        }
    }

    /// All registers have been drawn and accepted.
    pub open spec fn done(self) -> bool {
        self.primed && self.settled >= 4
    }

    /// How many bytes the next draw takes: all four registers at first, one
    /// register for every redraw, nothing once done.
    pub open spec fn wanted(self, lanes: nat) -> nat {
        if !self.primed {
            16 * lanes
        } else if self.settled < 4 {
            4 * lanes
        } else {
            0
        }
    }

    /// The validator after a draw of `bytes`. The first draw fills all
    /// registers in order; a redraw replaces the first register that was not
    /// accepted, all of its lanes. Then every register is accepted up to the
    /// first that fails its threshold.
    pub open spec fn feed(self, bytes: Seq<u8>, lanes: nat) -> Self {
        if !self.primed {
            let registers = Seq::new(
                4,
                |r: int| lanes_from_le32(bytes.subrange(4 * lanes * r, 4 * lanes * (r + 1))),
            );
            Lfsr113Seeding { registers, settled: lfsr113_settle(registers, 0), primed: true }
        } else if self.settled < 4 {
            let registers = self.registers.update(self.settled as int, lanes_from_le32(bytes));
            Lfsr113Seeding {
                registers,
                settled: lfsr113_settle(registers, self.settled),
                primed: true,
            }
        } else {
            self
        }
    }

    /// The validator driven by a stream of entropy bytes until it is done:
    /// the final state and the number of bytes drawn, or `None` where the
    /// stream ends before that.
    pub open spec fn run(self, stream: Seq<u8>, lanes: nat) -> Option<(Self, nat)>
        decreases stream.len(),
    {
        let w = self.wanted(lanes);
        if self.done() {
            Some((self, 0nat))
        } else if w == 0 || stream.len() < w {
            None
        } else {
            match self.feed(stream.take(w as int), lanes).run(stream.skip(w as int), lanes) {
                Some((end, used)) => Some((end, used + w)),
                None => None,
            }
        }
    }
}

/// Registers are accepted in order, and every accepted register is valid.
pub proof fn lemma_settled_registers_valid(registers: Seq<Seq<u32>>, from: nat)
    requires
        from <= 4,
    ensures
        from <= lfsr113_settle(registers, from) <= 4,
        forall|r: int|
            from <= r < lfsr113_settle(registers, from) ==> lfsr113_register_valid(
                #[trigger] registers[r],
                r,
            ),
        lfsr113_settle(registers, from) < 4 ==> !lfsr113_register_valid(
            registers[lfsr113_settle(registers, from) as int],
            lfsr113_settle(registers, from) as int,
        ),
    decreases 4 - from,
{
    if from < 4 && lfsr113_register_valid(registers[from as int], from as int) {
        lemma_settled_registers_valid(registers, from + 1);
    }
}

fn threshold(r: usize) -> (t: u32)
    requires
        r < 4,
    ensures
        t == lfsr113_threshold(r as int),
{
    if r == 0 {
        1
    } else if r == 1 {
        7
    } else if r == 2 {
        15
    } else {
        127
    }
}

/// The validator: it says how many bytes of entropy it wants next, takes
/// them, and hands out the generator once every register has passed.
pub struct Lfsr113Seeder<const N: usize> {
    registers: [U32Lanes<N>; 4],
    settled: usize,
    primed: bool,
}

impl<const N: usize> View for Lfsr113Seeder<N> {
    type V = Lfsr113Seeding;

    closed spec fn view(&self) -> Lfsr113Seeding {
        Lfsr113Seeding {
            registers: Seq::new(4, |r: int| self.registers@[r]@),
            settled: self.settled as nat,
            primed: self.primed,
        }
    }
}

impl<const N: usize> Lfsr113Seeder<N> {
    #[verifier::type_invariant]
    spec fn inv(self) -> bool {
        &&& 0 < N
        &&& 16 * N <= usize::MAX
        &&& self.settled <= 4
        &&& !self.primed ==> self.settled == 0
        &&& forall|r: int|
            0 <= r < self.settled ==> lfsr113_register_valid(#[trigger] self.registers@[r]@, r)
    }

    /// A validator that has drawn nothing yet.
    pub fn new() -> (r: Self)
        requires
            0 < N,
            16 * N <= usize::MAX,
        ensures
            r@ == Lfsr113Seeding::start(N as nat),
    {
        let zero = U32Lanes::<N>::splat(0);
        let r = Lfsr113Seeder { registers: [zero, zero, zero, zero], settled: 0, primed: false };
        proof {
            assert forall|k: int| 0 <= k < 4 implies #[trigger] r@.registers[k]
                =~= Lfsr113Seeding::start(N as nat).registers[k] by {}
            assert(r@.registers =~= Lfsr113Seeding::start(N as nat).registers);
        }
        r
    }

    /// Whether every register has been drawn and accepted.
    pub fn is_done(&self) -> (r: bool)
        ensures
            r == self@.done(),
    {
        self.primed && self.settled >= 4
    }

    /// How many bytes the next call of `feed` takes.
    pub fn wanted(&self) -> (w: usize)
        ensures
            w == self@.wanted(N as nat),
            !self@.done() ==> w > 0,
    {
        proof {
            use_type_invariant(self);
        }
        if !self.primed {
            16 * N
        } else if self.settled < 4 {
            4 * N
        } else {
            0
        }
    }

    /// Takes one draw of entropy.
    pub fn feed(&mut self, bytes: &[u8])
        requires
            bytes@.len() == old(self)@.wanted(N as nat),
        ensures
            final(self)@ == old(self)@.feed(bytes@, N as nat),
    {
        proof {
            use_type_invariant(&*self);
        }
        let ghost expected = old(self)@.feed(bytes@, N as nat).registers;
        if !self.primed {
            let len: usize = 4 * N;
            let first = U32Lanes::from_le_bytes(slice_subrange(bytes, 0, len));
            let second = U32Lanes::from_le_bytes(slice_subrange(bytes, len, 2 * len));
            let third = U32Lanes::from_le_bytes(slice_subrange(bytes, 2 * len, 3 * len));
            let fourth = U32Lanes::from_le_bytes(slice_subrange(bytes, 3 * len, 4 * len));
            proof {
                assert(4 * N * 0 == 0 && 4 * N * 1 == len && 4 * N * 2 == 2 * len && 4 * N * 3 == 3
                    * len && 4 * N * 4 == 4 * len) by (nonlinear_arith)
                    requires
                        len == 4 * N,
                ;
                assert(first@ == expected[0]);
                assert(second@ == expected[1]);
                assert(third@ == expected[2]);
                assert(fourth@ == expected[3]);
            }
            self.registers = [first, second, third, fourth];
            self.primed = true;
        } else if self.settled < 4 {
            self.registers[self.settled] = U32Lanes::from_le_bytes(bytes);
        } else {
            return ;
        }
        let ghost drawn = self@.registers;
        proof {
            assert forall|r: int| 0 <= r < 4 implies #[trigger] drawn[r] == expected[r] by {
                if r == 0 {
                    assert(drawn[0] == expected[0]);
                } else if r == 1 {
                    assert(drawn[1] == expected[1]);
                } else if r == 2 {
                    assert(drawn[2] == expected[2]);
                } else {
                    assert(drawn[3] == expected[3]);
                }
            }
            assert(drawn =~= expected);
        }
        let ghost from = self.settled as nat;
        let mut settled: usize = self.settled;
        let mut stop: bool = false;
        while settled < 4 && !stop
            invariant
                settled <= 4,
                from <= settled,
                drawn == Seq::new(4, |r: int| self.registers@[r]@),
                forall|r: int|
                    0 <= r < settled ==> lfsr113_register_valid(#[trigger] self.registers@[r]@, r),
                lfsr113_settle(drawn, settled as nat) == lfsr113_settle(drawn, from),
                stop ==> settled < 4 && !lfsr113_register_valid(drawn[settled as int], settled as int),
            decreases 4 - settled + (if stop { 0int } else { 1int }),
        {
            let bound = U32Lanes::<N>::splat(threshold(settled));
            let failed = self.registers[settled].any_le(&bound);
            proof {
                let lanes = self.registers@[settled as int]@;
                assert(drawn[settled as int] == lanes);
                if failed {
                    let i = choose|i: int| 0 <= i < N && lanes[i] <= bound@[i];
                    assert(lanes[i] <= lfsr113_threshold(settled as int));
                } else {
                    assert forall|i: int| 0 <= i < lanes.len() implies lanes[i]
                        > lfsr113_threshold(settled as int) by {
                        assert(!(lanes[i] <= bound@[i]));
                    }
                }
            }
            if failed {
                stop = true;
            } else {
                settled += 1;
            }
        }
        self.settled = settled;
    }

    /// Hands out the generator, once every register has been accepted.
    pub fn finish(self) -> (r: Option<Lfsr113<N>>)
        ensures
            self@.done() ==> r is Some && r->Some_0@ == self@.registers && lfsr113_valid(
                r->Some_0@,
            ),
            !self@.done() ==> r is None,
    {
        proof {
            use_type_invariant(&self);
        }
        if self.primed && self.settled >= 4 {
            let g = Lfsr113 { z: self.registers };
            proof {
                assert(g@ =~= self@.registers);
            }
            Some(g)
        } else {
            None
        }
    }
}

/// The registers that a stream of entropy bytes seeds, with the number of
/// bytes drawn from it; `None` where the stream ends before every register
/// has passed.
pub open spec fn lfsr113_seeded(stream: Seq<u8>, lanes: nat) -> Option<(Seq<Seq<u32>>, nat)> {
    match Lfsr113Seeding::start(lanes).run(stream, lanes) {
        Some((end, used)) => Some((end.registers, used)),
        None => None,
    }
}

/// Adds `k` to the count of bytes drawn.
pub open spec fn drawn_after(
    outcome: Option<(Lfsr113Seeding, nat)>,
    k: nat,
) -> Option<(Lfsr113Seeding, nat)> {
    match outcome {
        Some((end, used)) => Some((end, used + k)),
        None => None,
    }
}

impl<const N: usize> Lfsr113<N> {
    /// Seeds a generator from a stream of entropy bytes: draws from the
    /// front of the stream what the validator asks for until every register
    /// has passed, and returns the generator with the number of bytes drawn.
    /// Fails where the stream ends first.
    pub fn from_entropy(stream: &[u8]) -> (r: Result<(Self, usize), SeedError>)
        requires
            0 < N,
            16 * N <= usize::MAX,
        ensures
            r matches Ok((g, used)) ==> lfsr113_seeded(stream@, N as nat) == Some(
                (g@, used as nat),
            ) && lfsr113_valid(g@),
            r matches Err(e) ==> lfsr113_seeded(stream@, N as nat) is None && e
                == SeedError::EntropySourceFailure,
    {
        let mut seeder = Lfsr113Seeder::<N>::new();
        let mut pos: usize = 0;
        let ghost whole = Lfsr113Seeding::start(N as nat).run(stream@, N as nat);
        assert(stream@.skip(0) =~= stream@);
        while !seeder.is_done()
            invariant
                pos <= stream@.len(),
                whole == drawn_after(seeder@.run(stream@.skip(pos as int), N as nat), pos as nat),
                whole == Lfsr113Seeding::start(N as nat).run(stream@, N as nat),
            decreases stream@.len() - pos,
        {
            let w = seeder.wanted();
            if stream.len() - pos < w {
                return Err(SeedError::EntropySourceFailure);
            }
            let ghost before = seeder@;
            let ghost rest = stream@.skip(pos as int);
            seeder.feed(slice_subrange(stream, pos, pos + w));
            proof {
                assert(rest.take(w as int) =~= stream@.subrange(pos as int, pos + w));
                assert(rest.skip(w as int) =~= stream@.skip(pos + w));
                assert(before.run(rest, N as nat) == drawn_after(
                    seeder@.run(rest.skip(w as int), N as nat),
                    w as nat,
                ));
            }
            pos += w;
        }
        match seeder.finish() {
            Some(g) => Ok((g, pos)),
            None => Err(SeedError::EntropySourceFailure),
        }
    }
}

/// All registers are there, none is accepted before the first draw, and
/// every accepted register is valid.
pub open spec fn lfsr113_seeding_sound(st: Lfsr113Seeding) -> bool {
    &&& st.registers.len() == 4
    &&& st.settled <= 4
    &&& !st.primed ==> st.settled == 0
    &&& forall|r: int| 0 <= r < st.settled ==> lfsr113_register_valid(#[trigger] st.registers[r], r)
}

/// A draw keeps the validator sound.
pub proof fn lemma_feed_keeps_sound(st: Lfsr113Seeding, bytes: Seq<u8>, lanes: nat)
    requires
        lfsr113_seeding_sound(st),
    ensures
        lfsr113_seeding_sound(st.feed(bytes, lanes)),
{
    let fed = st.feed(bytes, lanes);
    if !st.primed {
        lemma_settled_registers_valid(fed.registers, 0);
    } else if st.settled < 4 {
        lemma_settled_registers_valid(fed.registers, st.settled);
        assert forall|r: int| 0 <= r < fed.settled implies lfsr113_register_valid(
            #[trigger] fed.registers[r],
            r,
        ) by {
            if r < st.settled {
                assert(fed.registers[r] == st.registers[r]);
            }
        }
    }
}

/// A run that succeeds ends with every register valid.
pub proof fn lemma_run_ends_valid(st: Lfsr113Seeding, stream: Seq<u8>, lanes: nat)
    requires
        lfsr113_seeding_sound(st),
        st.run(stream, lanes) is Some,
    ensures
        st.run(stream, lanes)->Some_0.0.done(),
        lfsr113_valid(st.run(stream, lanes)->Some_0.0.registers),
    decreases stream.len(),
{
    if !st.done() {
        let w = st.wanted(lanes);
        lemma_feed_keeps_sound(st, stream.take(w as int), lanes);
        lemma_run_ends_valid(st.feed(stream.take(w as int), lanes), stream.skip(w as int), lanes);
    }
}

/// Whatever stream seeds a generator, every lane of every register that it
/// seeds exceeds its threshold.
pub proof fn lemma_seeded_registers_valid(stream: Seq<u8>, lanes: nat)
    requires
        lfsr113_seeded(stream, lanes) is Some,
    ensures
        lfsr113_valid(lfsr113_seeded(stream, lanes)->Some_0.0),
{
    lemma_run_ends_valid(Lfsr113Seeding::start(lanes), stream, lanes);
}

/// A run of the validator draws no more bytes than the stream holds.
pub proof fn lemma_run_draws_within(st: Lfsr113Seeding, stream: Seq<u8>, lanes: nat)
    requires
        st.run(stream, lanes) is Some,
    ensures
        st.run(stream, lanes)->Some_0.1 <= stream.len(),
    decreases stream.len(),
{
    if !st.done() {
        let w = st.wanted(lanes);
        lemma_run_draws_within(st.feed(stream.take(w as int), lanes), stream.skip(w as int), lanes);
    }
}

/// What a run of the validator yields depends only on the bytes it draws:
/// a second stream that agrees with the first on those bytes yields the same.
pub proof fn lemma_run_reads_only_what_it_draws(
    st: Lfsr113Seeding,
    a: Seq<u8>,
    b: Seq<u8>,
    lanes: nat,
)
    requires
        st.run(a, lanes) is Some,
        st.run(a, lanes)->Some_0.1 <= b.len(),
        b.take(st.run(a, lanes)->Some_0.1 as int) == a.take(st.run(a, lanes)->Some_0.1 as int),
    ensures
        st.run(b, lanes) == st.run(a, lanes),
    decreases a.len(),
{
    let used = st.run(a, lanes)->Some_0.1;
    lemma_run_draws_within(st, a, lanes);
    if !st.done() {
        let w = st.wanted(lanes);
        let fed = st.feed(a.take(w as int), lanes);
        let rest = fed.run(a.skip(w as int), lanes)->Some_0.1;
        assert(used == rest + w);
        assert(b.take(w as int) =~= b.take(used as int).take(w as int));
        assert(a.take(w as int) =~= a.take(used as int).take(w as int));
        assert(b.skip(w as int).take(rest as int) =~= b.take(used as int).skip(w as int));
        assert(a.skip(w as int).take(rest as int) =~= a.take(used as int).skip(w as int));
        lemma_run_reads_only_what_it_draws(fed, a.skip(w as int), b.skip(w as int), lanes);
    }
}

/// Two generators seeded from streams of entropy that agree on the bytes
/// drawn hold the same registers, and so give the same output at every call.
pub proof fn lemma_same_entropy_same_outputs(a: Seq<u8>, b: Seq<u8>, lanes: nat, n: nat)
    requires
        lfsr113_seeded(a, lanes) is Some,
        lfsr113_seeded(a, lanes)->Some_0.1 <= b.len(),
        b.take(lfsr113_seeded(a, lanes)->Some_0.1 as int) == a.take(
            lfsr113_seeded(a, lanes)->Some_0.1 as int,
        ),
    ensures
        lfsr113_seeded(b, lanes) == lfsr113_seeded(a, lanes),
        lfsr113_output(lfsr113_after(lfsr113_seeded(b, lanes)->Some_0.0, n)) == lfsr113_output(
            lfsr113_after(lfsr113_seeded(a, lanes)->Some_0.0, n),
        ),
{
    lemma_run_reads_only_what_it_draws(Lfsr113Seeding::start(lanes), a, b, lanes);
}

} // verus!

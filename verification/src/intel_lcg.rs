//! A linear congruential generator of four 32-bit lanes, computed with
//! widening multiplies of the even lanes and a lane shuffle.

use vstd::prelude::*;
use crate::bits::le32;
use crate::lanes32::{product_low32, U32Lanes, U32x4};

verus! {

/// Multiplier of lane `i`.
pub open spec fn lcg_multiplier(i: int) -> u32 {
    if i == 0 {
        214013
    } else if i == 1 {
        17405
    } else if i == 2 {
        214013
    } else {
        69069
    }
}

/// Increment of lane `i`.
pub open spec fn lcg_increment(i: int) -> u32 {
    if i == 0 {
        2531011
    } else if i == 1 {
        10395331
    } else if i == 2 {
        13737667
    } else {
        1
    }
}

/// One step of lane `i`: multiply, add, keep the low 32 bits.
pub open spec fn lcg_lane_next(x: u32, i: int) -> u32 {
    ((x * lcg_multiplier(i) + lcg_increment(i)) % 0x1_0000_0000) as u32
}

/// One step of the whole state.
pub open spec fn lcg_next(s: Seq<u32>) -> Seq<u32> {
    Seq::new(4, |i: int| lcg_lane_next(s[i], i))
}

/// The state that a scalar seed gives: the seed in every lane, plus one in
/// the odd lanes.
pub open spec fn lcg_seeded(seed: u32) -> Seq<u32> {
    seq![seed, seed.wrapping_add(1), seed, seed.wrapping_add(1)]
}

/// The state after `n` steps.
pub open spec fn lcg_after(s: Seq<u32>, n: nat) -> Seq<u32>
    decreases n,
{
    if n == 0 {
        s
    } else {
        lcg_next(lcg_after(s, (n - 1) as nat))
    }
}

/// Two generators seeded with the same scalar hold the same state, and so
/// give the same output at every call.
pub proof fn lemma_same_seed_same_outputs(a: u32, b: u32, n: nat)
    requires
        a == b,
    ensures
        lcg_seeded(b) == lcg_seeded(a),
        lcg_after(lcg_seeded(b), n) == lcg_after(lcg_seeded(a), n),
{
}

proof fn lemma_mask_lane(x: u32)
    by (bit_vector)
    ensures
        x & 0xffff_ffff == x,
        x & 0 == 0,
        x | 0 == x,
        0u32 | x == x,
{
}

/// Adding the increment, modulo 2^32, to the low half of the product gives
/// the lane's next value.
proof fn lemma_lane_step(x: u32, i: int)
    requires
        0 <= i < 4,
    ensures
        product_low32(x, lcg_multiplier(i)).wrapping_add(lcg_increment(i)) == lcg_lane_next(x, i),
{
    let m = lcg_multiplier(i);
    let c = lcg_increment(i);
    vstd::arithmetic::div_mod::lemma_add_mod_noop(x * m, c as int, 0x1_0000_0000);
    vstd::arithmetic::div_mod::lemma_small_mod(c as nat, 0x1_0000_0000);
    let low = (x * m) % 0x1_0000_0000;
    if low + c >= 0x1_0000_0000 {
        vstd::arithmetic::div_mod::lemma_fundamental_div_mod_converse(
            low + c,
            0x1_0000_0000,
            1,
            low + c - 0x1_0000_0000,
        );
    } else {
        vstd::arithmetic::div_mod::lemma_small_mod((low + c) as nat, 0x1_0000_0000);
    }
}

/// A generator whose state is one vector of four 32-bit lanes; the even
/// lanes and the odd lanes each carry one interleaved stream.
pub struct IntelLcg {
    cur_seed: U32x4,
}

impl View for IntelLcg {
    type V = Seq<u32>;

    closed spec fn view(&self) -> Seq<u32> {
        self.cur_seed@
    }
}

impl IntelLcg {
    /// Seeds the generator from four bytes, read as one 32-bit scalar, least
    /// significant byte first.
    pub fn from_seed(seed: [u8; 4]) -> (r: Self)
        ensures
            r@ == lcg_seeded(le32(seed@[0], seed@[1], seed@[2], seed@[3])),
    {
        let scalar: u32 = (seed[0] as u32) | (seed[1] as u32) << 8u32 | (seed[2] as u32) << 16u32
            | (seed[3] as u32) << 24u32;
        let offsets = U32Lanes { lanes: [0, 1, 0, 1] };
        let cur_seed = U32Lanes::<4>::splat(scalar).add(&offsets);
        assert(cur_seed@ =~= lcg_seeded(scalar));
        IntelLcg { cur_seed }
    }

    /// Advances every lane by one step and returns the new state.
    pub fn generate(&mut self) -> (out: U32x4)
        ensures
            final(self)@ == lcg_next(old(self)@),
            out@ == final(self)@,
    {
        let mult = U32Lanes { lanes: [214013, 17405, 214013, 69069] };
        let gadd = U32Lanes { lanes: [2531011, 10395331, 13737667, 1] };
        let mask = U32Lanes { lanes: [0xffff_ffff, 0, 0xffff_ffff, 0] };

        let split = self.cur_seed.shuffle([1, 0, 3, 2]);

        let even_products = self.cur_seed.widening_mul_even(&mult);
        let multiplier = mult.shuffle([1, 0, 3, 2]);
        let odd_products = split.widening_mul_even(&multiplier);

        let even_low = even_products.and(&mask);
        let odd_low = odd_products.and(&mask);
        let odd_back = odd_low.shuffle([1, 0, 3, 2]);
        let joined = even_low.or(&odd_back);
        let next = joined.add(&gadd);

        proof {
            let s = old(self)@;
            assert(joined@[0] == product_low32(s[0], lcg_multiplier(0))) by {
                lemma_mask_lane(even_products@[0]);
                lemma_mask_lane(odd_products@[1]);
                lemma_mask_lane(even_low@[0]);
            }
            assert(joined@[1] == product_low32(s[1], lcg_multiplier(1))) by {
                lemma_mask_lane(even_products@[1]);
                lemma_mask_lane(odd_products@[0]);
                lemma_mask_lane(odd_back@[1]);
            }
            assert(joined@[2] == product_low32(s[2], lcg_multiplier(2))) by {
                lemma_mask_lane(even_products@[2]);
                lemma_mask_lane(odd_products@[3]);
                lemma_mask_lane(even_low@[2]);
            }
            assert(joined@[3] == product_low32(s[3], lcg_multiplier(3))) by {
                lemma_mask_lane(even_products@[3]);
                lemma_mask_lane(odd_products@[2]);
                lemma_mask_lane(odd_back@[3]);
            }
            lemma_lane_step(s[0], 0);
            lemma_lane_step(s[1], 1);
            lemma_lane_step(s[2], 2);
            lemma_lane_step(s[3], 3);
            assert(next@ =~= lcg_next(s));
        }
        self.cur_seed = next;
        next
    }
}

} // verus!

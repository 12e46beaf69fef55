//! Lane vectors of 32-bit lanes: fixed-size ordered collections of unsigned
//! integers on which every operation acts lane by lane and returns a new
//! value.

use vstd::prelude::*;
use crate::bits::{be_byte32, from_be32, le32, rotl32, rotr32};

verus! {

/// `N` lanes of 32-bit unsigned integers.
#[derive(Clone, Copy, Debug)]
pub struct U32Lanes<const N: usize> {
    pub lanes: [u32; N],
}

pub type U32x2 = U32Lanes<2>;

pub type U32x4 = U32Lanes<4>;

pub type U32x8 = U32Lanes<8>;

pub type U32x16 = U32Lanes<16>;

impl<const N: usize> View for U32Lanes<N> {
    type V = Seq<u32>;

    open spec fn view(&self) -> Seq<u32> {
        self.lanes@
    }
}

/// The bytes of all lanes in lane order, each lane most significant byte
/// first.
pub open spec fn be_bytes32(s: Seq<u32>) -> Seq<u8> {
    Seq::new(4 * s.len(), |i: int| be_byte32(s[i / 4], (i % 4) as u32))
}

/// The lanes whose bytes, each lane most significant byte first, are `b`.
pub open spec fn lanes_from_be32(b: Seq<u8>) -> Seq<u32> {
    Seq::new(b.len() / 4, |i: int| from_be32(b[4 * i], b[4 * i + 1], b[4 * i + 2], b[4 * i + 3]))
}

/// The lanes whose bytes, each lane least significant byte first, are `b`.
pub open spec fn lanes_from_le32(b: Seq<u8>) -> Seq<u32> {
    Seq::new(b.len() / 4, |i: int| le32(b[4 * i], b[4 * i + 1], b[4 * i + 2], b[4 * i + 3]))
}

impl<const N: usize> U32Lanes<N> {
    /// Broadcasts one scalar to every lane.
    pub fn splat(value: u32) -> (r: Self)
        ensures
            forall|i: int| 0 <= i < N ==> r@[i] == value,
    {
        U32Lanes { lanes: [value; N] }
    }

    /// Shifts every lane left by `k` bits; bits shifted out are lost.
    pub fn shl(&self, k: u32) -> (r: Self)
        requires
            k < 32,
        ensures
            forall|i: int| 0 <= i < N ==> r@[i] == self@[i] << k,
    {
        let mut lanes = self.lanes;
        let mut i: usize = 0;
        while i < N
            invariant
                i <= N,
                k < 32,
                forall|j: int| 0 <= j < i ==> lanes@[j] == self.lanes@[j] << k,
                forall|j: int| i <= j < N ==> lanes@[j] == self.lanes@[j],
            decreases N - i,
        {
            lanes[i] = lanes[i] << k;
            i += 1;
        }
        U32Lanes { lanes }
    }

    /// Shifts every lane right by `k` bits, filling with zeros.
    pub fn shr(&self, k: u32) -> (r: Self)
        requires
            k < 32,
        ensures
            forall|i: int| 0 <= i < N ==> r@[i] == self@[i] >> k,
    {
        let mut lanes = self.lanes;
        let mut i: usize = 0;
        while i < N
            invariant
                i <= N,
                k < 32,
                forall|j: int| 0 <= j < i ==> lanes@[j] == self.lanes@[j] >> k,
                forall|j: int| i <= j < N ==> lanes@[j] == self.lanes@[j],
            decreases N - i,
        {
            lanes[i] = lanes[i] >> k;
            i += 1;
        }
        U32Lanes { lanes }
    }

    /// Bitwise exclusive or, lane by lane.
    pub fn xor(&self, other: &Self) -> (r: Self)
        ensures
            forall|i: int| 0 <= i < N ==> r@[i] == self@[i] ^ other@[i],
    {
        let mut lanes = self.lanes;
        let mut i: usize = 0;
        while i < N
            invariant
                i <= N,
                forall|j: int| 0 <= j < i ==> lanes@[j] == self.lanes@[j] ^ other.lanes@[j],
                forall|j: int| i <= j < N ==> lanes@[j] == self.lanes@[j],
            decreases N - i,
        {
            lanes[i] = lanes[i] ^ other.lanes[i];
            i += 1;
        }
        U32Lanes { lanes }
    }

    /// Bitwise and, lane by lane.
    pub fn and(&self, other: &Self) -> (r: Self)
        ensures
            forall|i: int| 0 <= i < N ==> r@[i] == self@[i] & other@[i],
    {
        let mut lanes = self.lanes;
        let mut i: usize = 0;
        while i < N
            invariant
                i <= N,
                forall|j: int| 0 <= j < i ==> lanes@[j] == self.lanes@[j] & other.lanes@[j],
                forall|j: int| i <= j < N ==> lanes@[j] == self.lanes@[j],
            decreases N - i,
        {
            lanes[i] = lanes[i] & other.lanes[i];
            i += 1;
        }
        U32Lanes { lanes }
    }

    /// Bitwise or, lane by lane.
    pub fn or(&self, other: &Self) -> (r: Self)
        ensures
            forall|i: int| 0 <= i < N ==> r@[i] == self@[i] | other@[i],
    {
        let mut lanes = self.lanes;
        let mut i: usize = 0;
        while i < N
            invariant
                i <= N,
                forall|j: int| 0 <= j < i ==> lanes@[j] == self.lanes@[j] | other.lanes@[j],
                forall|j: int| i <= j < N ==> lanes@[j] == self.lanes@[j],
            decreases N - i,
        {
            lanes[i] = lanes[i] | other.lanes[i];
            i += 1;
        }
        U32Lanes { lanes }
    }

    /// Addition modulo 2^32, lane by lane.
    pub fn add(&self, other: &Self) -> (r: Self)
        ensures
            forall|i: int| 0 <= i < N ==> r@[i] == self@[i].wrapping_add(other@[i]),
    {
        let mut lanes = self.lanes;
        let mut i: usize = 0;
        while i < N
            invariant
                i <= N,
                forall|j: int|
                    0 <= j < i ==> lanes@[j] == self.lanes@[j].wrapping_add(other.lanes@[j]),
                forall|j: int| i <= j < N ==> lanes@[j] == self.lanes@[j],
            decreases N - i,
        {
            lanes[i] = lanes[i].wrapping_add(other.lanes[i]);
            i += 1;
        }
        U32Lanes { lanes }
    }

    /// Whether some lane is less than or equal to the same lane of `bound`.
    pub fn any_le(&self, bound: &Self) -> (r: bool)
        ensures
            r == exists|i: int| 0 <= i < N && self@[i] <= bound@[i],
    {
        let mut i: usize = 0;
        while i < N
            invariant
                i <= N,
                forall|j: int| 0 <= j < i ==> self.lanes@[j] > bound.lanes@[j],
            decreases N - i,
        {
            if self.lanes[i] <= bound.lanes[i] {
                assert(self@[i as int] <= bound@[i as int]);
                return true;
            }
            i += 1;
        }
        false
    }

    /// Rotates the bits of every lane left by `amount` modulo 32, with two
    /// shifts and a bitwise or.
    pub fn rotate_left_generic(&self, amount: u32) -> (r: Self)
        ensures
            forall|i: int| 0 <= i < N ==> r@[i] == rotl32(self@[i], amount),
    {
        let n: u32 = amount % 32;
        let m: u32 = (32 - n) % 32;
        let mut lanes = self.lanes;
        let mut i: usize = 0;
        while i < N
            invariant
                i <= N,
                n == amount % 32,
                m == (32 - n) % 32,
                forall|j: int| 0 <= j < i ==> lanes@[j] == rotl32(self.lanes@[j], amount),
                forall|j: int| i <= j < N ==> lanes@[j] == self.lanes@[j],
            decreases N - i,
        {
            lanes[i] = (lanes[i] << n) | (lanes[i] >> m);
            i += 1;
        }
        U32Lanes { lanes }
    }

    /// Rotates the bits of every lane right by `amount` modulo 32, with two
    /// shifts and a bitwise or.
    pub fn rotate_right_generic(&self, amount: u32) -> (r: Self)
        ensures
            forall|i: int| 0 <= i < N ==> r@[i] == rotr32(self@[i], amount),
    {
        let n: u32 = amount % 32;
        let m: u32 = (32 - n) % 32;
        let mut lanes = self.lanes;
        let mut i: usize = 0;
        while i < N
            invariant
                i <= N,
                n == amount % 32,
                m == (32 - n) % 32,
                forall|j: int| 0 <= j < i ==> lanes@[j] == rotr32(self.lanes@[j], amount),
                forall|j: int| i <= j < N ==> lanes@[j] == self.lanes@[j],
            decreases N - i,
        {
            lanes[i] = (lanes[i] >> n) | (lanes[i] << m);
            i += 1;
        }
        U32Lanes { lanes }
    }

    /// Reinterprets the vector as bytes: the lanes in order, each most
    /// significant byte first.
    pub fn to_be_bytes(&self) -> (bytes: Vec<u8>)
        ensures
            bytes@ == be_bytes32(self@),
    {
        let mut bytes: Vec<u8> = Vec::new();
        let mut i: usize = 0;
        while i < N
            invariant
                i <= N,
                bytes@.len() == 4 * i,
                forall|j: int|
                    0 <= j < 4 * i ==> bytes@[j] == be_byte32(self.lanes@[j / 4], (j % 4) as u32),
            decreases N - i,
        {
            let x: u32 = self.lanes[i];
            bytes.push(#[verifier::truncate] (((x >> 24u32) & 0xff) as u8));
            bytes.push(#[verifier::truncate] (((x >> 16u32) & 0xff) as u8));
            bytes.push(#[verifier::truncate] (((x >> 8u32) & 0xff) as u8));
            bytes.push(#[verifier::truncate] (((x >> 0u32) & 0xff) as u8));
            i += 1;
        }
        bytes
    }

    /// Reads a vector back from bytes laid out as `to_be_bytes` lays them out.
    pub fn from_be_bytes(bytes: &[u8]) -> (r: Self)
        requires
            bytes@.len() == 4 * N,
        ensures
            r@ == lanes_from_be32(bytes@),
    {
        let total: usize = bytes.len();
        let zero: u32 = 0;
        let mut lanes = [zero; N];
        let mut i: usize = 0;
        while i < N
            invariant
                i <= N,
                total == 4 * N,
                bytes@.len() == 4 * N,
                forall|j: int|
                    0 <= j < i ==> lanes@[j] == from_be32(
                        bytes@[4 * j],
                        bytes@[4 * j + 1],
                        bytes@[4 * j + 2],
                        bytes@[4 * j + 3],
                    ),
            decreases N - i,
        {
            lanes[i] = (bytes[4 * i] as u32) << 24u32 | (bytes[4 * i + 1] as u32) << 16u32 | (bytes[4
                * i + 2] as u32) << 8u32 | (bytes[4 * i + 3] as u32);
            i += 1;
        }
        U32Lanes { lanes }
    }

    /// Reads a vector from bytes: the lanes in order, each least significant
    /// byte first.
    pub fn from_le_bytes(bytes: &[u8]) -> (r: Self)
        requires
            bytes@.len() == 4 * N,
        ensures
            r@ == lanes_from_le32(bytes@),
    {
        let total: usize = bytes.len();
        let zero: u32 = 0;
        let mut lanes = [zero; N];
        let mut i: usize = 0;
        while i < N
            invariant
                i <= N,
                total == 4 * N,
                bytes@.len() == 4 * N,
                forall|j: int|
                    0 <= j < i ==> lanes@[j] == le32(
                        bytes@[4 * j],
                        bytes@[4 * j + 1],
                        bytes@[4 * j + 2],
                        bytes@[4 * j + 3],
                    ),
            decreases N - i,
        {
            lanes[i] = (bytes[4 * i] as u32) | (bytes[4 * i + 1] as u32) << 8u32 | (bytes[4 * i
                + 2] as u32) << 16u32 | (bytes[4 * i + 3] as u32) << 24u32;
            i += 1;
        }
        U32Lanes { lanes }
    }
}

/// Low half of the 64-bit product of two 32-bit values.
pub open spec fn product_low32(a: u32, b: u32) -> u32 {
    ((a * b) % 0x1_0000_0000) as u32
}

/// High half of the 64-bit product of two 32-bit values.
pub open spec fn product_high32(a: u32, b: u32) -> u32 {
    ((a * b) / 0x1_0000_0000) as u32
}

fn widening_mul(a: u32, b: u32) -> (r: (u32, u32))
    ensures
        r.0 == product_low32(a, b),
        r.1 == product_high32(a, b),
{
    assert(a * b <= 0xffff_ffff * 0xffff_ffff) by (nonlinear_arith)
        requires
            a <= 0xffff_ffff,
            b <= 0xffff_ffff,
    ;
    let p: u64 = (a as u64) * (b as u64);
    ((p % 0x1_0000_0000) as u32, (p / 0x1_0000_0000) as u32)
}

impl U32Lanes<4> {
    /// Gathers the lanes through `indices`: lane `i` of the result is lane
    /// `indices[i]` of `self`.
    pub fn shuffle(&self, indices: [usize; 4]) -> (r: Self)
        requires
            forall|i: int| 0 <= i < 4 ==> indices@[i] < 4,
        ensures
            forall|i: int| 0 <= i < 4 ==> r@[i] == self@[indices@[i] as int],
    {
        U32Lanes {
            lanes: [
                self.lanes[indices[0]],
                self.lanes[indices[1]],
                self.lanes[indices[2]],
                self.lanes[indices[3]],
            ],
        }
    }

    /// Multiplies the even lanes of the two vectors as 32-bit values to full
    /// 64-bit products; each product fills its even lane with the low half
    /// and the odd lane after it with the high half.
    pub fn widening_mul_even(&self, other: &Self) -> (r: Self)
        ensures
            r@[0] == product_low32(self@[0], other@[0]),
            r@[1] == product_high32(self@[0], other@[0]),
            r@[2] == product_low32(self@[2], other@[2]),
            r@[3] == product_high32(self@[2], other@[2]),
    {
        let first = widening_mul(self.lanes[0], other.lanes[0]);
        let second = widening_mul(self.lanes[2], other.lanes[2]);
        U32Lanes { lanes: [first.0, first.1, second.0, second.1] }
    }
}

} // verus!

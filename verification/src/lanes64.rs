//! Lane vectors of 64-bit lanes: fixed-size ordered collections of unsigned
//! integers on which every operation acts lane by lane and returns a new
//! value.

use vstd::prelude::*;
use crate::bits::{be_byte64, from_be64, le64, rotl64, rotr64};

verus! {

/// `N` lanes of 64-bit unsigned integers.
#[derive(Clone, Copy, Debug)]
pub struct U64Lanes<const N: usize> {
    pub lanes: [u64; N],
}

pub type U64x2 = U64Lanes<2>;

pub type U64x4 = U64Lanes<4>;

pub type U64x8 = U64Lanes<8>;

impl<const N: usize> View for U64Lanes<N> {
    type V = Seq<u64>;

    open spec fn view(&self) -> Seq<u64> {
        self.lanes@
    }
}

/// The bytes of all lanes in lane order, each lane most significant byte
/// first.
pub open spec fn be_bytes64(s: Seq<u64>) -> Seq<u8> {
    Seq::new(8 * s.len(), |i: int| be_byte64(s[i / 8], (i % 8) as u32))
}

/// The lanes whose bytes, each lane most significant byte first, are `b`.
pub open spec fn lanes_from_be64(b: Seq<u8>) -> Seq<u64> {
    Seq::new(
        b.len() / 8,
        |i: int|
            from_be64(
                b[8 * i],
                b[8 * i + 1],
                b[8 * i + 2],
                b[8 * i + 3],
                b[8 * i + 4],
                b[8 * i + 5],
                b[8 * i + 6],
                b[8 * i + 7],
            ),
    )
}

/// The lanes whose bytes, each lane least significant byte first, are `b`.
pub open spec fn lanes_from_le64(b: Seq<u8>) -> Seq<u64> {
    Seq::new(
        b.len() / 8,
        |i: int|
            le64(
                b[8 * i],
                b[8 * i + 1],
                b[8 * i + 2],
                b[8 * i + 3],
                b[8 * i + 4],
                b[8 * i + 5],
                b[8 * i + 6],
                b[8 * i + 7],
            ),
    )
}

/// The product of the low 32 bits of `a` and the low 32 bits of `b`.
pub open spec fn low_product64(a: u64, b: u64) -> u64 {
    ((a % 0x1_0000_0000) * (b % 0x1_0000_0000)) as u64
}

impl<const N: usize> U64Lanes<N> {
    /// Broadcasts one scalar to every lane.
    pub fn splat(value: u64) -> (r: Self)
        ensures
            forall|i: int| 0 <= i < N ==> r@[i] == value,
    {
        U64Lanes { lanes: [value; N] }
    }

    /// Shifts every lane left by `k` bits; bits shifted out are lost.
    pub fn shl(&self, k: u32) -> (r: Self)
        requires
            k < 64,
        ensures
            forall|i: int| 0 <= i < N ==> r@[i] == self@[i] << k,
    {
        let mut lanes = self.lanes;
        let mut i: usize = 0;
        while i < N
            invariant
                i <= N,
                k < 64,
                forall|j: int| 0 <= j < i ==> lanes@[j] == self.lanes@[j] << k,
                forall|j: int| i <= j < N ==> lanes@[j] == self.lanes@[j],
            decreases N - i,
        {
            lanes[i] = lanes[i] << k;
            i += 1;
        }
        U64Lanes { lanes }
    }

    /// Shifts every lane right by `k` bits, filling with zeros.
    pub fn shr(&self, k: u32) -> (r: Self)
        requires
            k < 64,
        ensures
            forall|i: int| 0 <= i < N ==> r@[i] == self@[i] >> k,
    {
        let mut lanes = self.lanes;
        let mut i: usize = 0;
        while i < N
            invariant
                i <= N,
                k < 64,
                forall|j: int| 0 <= j < i ==> lanes@[j] == self.lanes@[j] >> k,
                forall|j: int| i <= j < N ==> lanes@[j] == self.lanes@[j],
            decreases N - i,
        {
            lanes[i] = lanes[i] >> k;
            i += 1;
        }
        U64Lanes { lanes }
    }

    /// Bitwise exclusive or, lane by lane.
    pub fn xor(&self, other: &Self) -> (r: Self)
        ensures
            forall|i: int| 0 <= i < N ==> r@[i] == self@[i] ^ other@[i],
    {
        let mut lanes = self.lanes;
        let mut i: usize = 0;
        while i < N
            invariant
                i <= N,
                forall|j: int| 0 <= j < i ==> lanes@[j] == self.lanes@[j] ^ other.lanes@[j],
                forall|j: int| i <= j < N ==> lanes@[j] == self.lanes@[j],
            decreases N - i,
        {
            lanes[i] = lanes[i] ^ other.lanes[i];
            i += 1;
        }
        U64Lanes { lanes }
    }

    /// Bitwise and, lane by lane.
    pub fn and(&self, other: &Self) -> (r: Self)
        ensures
            forall|i: int| 0 <= i < N ==> r@[i] == self@[i] & other@[i],
    {
        let mut lanes = self.lanes;
        let mut i: usize = 0;
        while i < N
            invariant
                i <= N,
                forall|j: int| 0 <= j < i ==> lanes@[j] == self.lanes@[j] & other.lanes@[j],
                forall|j: int| i <= j < N ==> lanes@[j] == self.lanes@[j],
            decreases N - i,
        {
            lanes[i] = lanes[i] & other.lanes[i];
            i += 1;
        }
        U64Lanes { lanes }
    }

    /// Addition modulo 2^64, lane by lane.
    pub fn add(&self, other: &Self) -> (r: Self)
        ensures
            forall|i: int| 0 <= i < N ==> r@[i] == self@[i].wrapping_add(other@[i]),
    {
        let mut lanes = self.lanes;
        let mut i: usize = 0;
        while i < N
            invariant
                i <= N,
                forall|j: int|
                    0 <= j < i ==> lanes@[j] == self.lanes@[j].wrapping_add(other.lanes@[j]),
                forall|j: int| i <= j < N ==> lanes@[j] == self.lanes@[j],
            decreases N - i,
        {
            lanes[i] = lanes[i].wrapping_add(other.lanes[i]);
            i += 1;
        }
        U64Lanes { lanes }
    }

    /// Whether some lane is less than or equal to the same lane of `bound`.
    pub fn any_le(&self, bound: &Self) -> (r: bool)
        ensures
            r == exists|i: int| 0 <= i < N && self@[i] <= bound@[i],
    {
        let mut i: usize = 0;
        while i < N
            invariant
                i <= N,
                forall|j: int| 0 <= j < i ==> self.lanes@[j] > bound.lanes@[j],
            decreases N - i,
        {
            if self.lanes[i] <= bound.lanes[i] {
                assert(self@[i as int] <= bound@[i as int]);
                return true;
            }
            i += 1;
        }
        false
    }

    /// Rotates the bits of every lane left by `amount` modulo 64, with two
    /// shifts and a bitwise or.
    pub fn rotate_left_generic(&self, amount: u32) -> (r: Self)
        ensures
            forall|i: int| 0 <= i < N ==> r@[i] == rotl64(self@[i], amount),
    {
        let n: u32 = amount % 64;
        let m: u32 = (64 - n) % 64;
        let mut lanes = self.lanes;
        let mut i: usize = 0;
        while i < N
            invariant
                i <= N,
                n == amount % 64,
                m == (64 - n) % 64,
                forall|j: int| 0 <= j < i ==> lanes@[j] == rotl64(self.lanes@[j], amount),
                forall|j: int| i <= j < N ==> lanes@[j] == self.lanes@[j],
            decreases N - i,
        {
            lanes[i] = (lanes[i] << n) | (lanes[i] >> m);
            i += 1;
        }
        U64Lanes { lanes }
    }

    /// Rotates the bits of every lane right by `amount` modulo 64, with two
    /// shifts and a bitwise or.
    pub fn rotate_right_generic(&self, amount: u32) -> (r: Self)
        ensures
            forall|i: int| 0 <= i < N ==> r@[i] == rotr64(self@[i], amount),
    {
        let n: u32 = amount % 64;
        let m: u32 = (64 - n) % 64;
        let mut lanes = self.lanes;
        let mut i: usize = 0;
        while i < N
            invariant
                i <= N,
                n == amount % 64,
                m == (64 - n) % 64,
                forall|j: int| 0 <= j < i ==> lanes@[j] == rotr64(self.lanes@[j], amount),
                forall|j: int| i <= j < N ==> lanes@[j] == self.lanes@[j],
            decreases N - i,
        {
            lanes[i] = (lanes[i] >> n) | (lanes[i] << m);
            i += 1;
        }
        U64Lanes { lanes }
    }

    /// Multiplies the low 32 bits of every lane of `self` by the low 32 bits
    /// of the same lane of `other`, to the full 64-bit product.
    pub fn widening_mul_low(&self, other: &Self) -> (r: Self)
        ensures
            forall|i: int| 0 <= i < N ==> r@[i] == low_product64(self@[i], other@[i]),
    {
        let mut lanes = self.lanes;
        let mut i: usize = 0;
        while i < N
            invariant
                i <= N,
                forall|j: int|
                    0 <= j < i ==> lanes@[j] == low_product64(self.lanes@[j], other.lanes@[j]),
                forall|j: int| i <= j < N ==> lanes@[j] == self.lanes@[j],
            decreases N - i,
        {
            let a: u64 = lanes[i] % 0x1_0000_0000;
            let b: u64 = other.lanes[i] % 0x1_0000_0000;
            assert(a * b <= 0xffff_ffff * 0xffff_ffff) by (nonlinear_arith)
                requires
                    a <= 0xffff_ffff,
                    b <= 0xffff_ffff,
            ;
            lanes[i] = a * b;
            i += 1;
        }
        U64Lanes { lanes }
    }

    /// Reinterprets the vector as bytes: the lanes in order, each most
    /// significant byte first.
    pub fn to_be_bytes(&self) -> (bytes: Vec<u8>)
        ensures
            bytes@ == be_bytes64(self@),
    {
        let mut bytes: Vec<u8> = Vec::new();
        let mut i: usize = 0;
        while i < N
            invariant
                i <= N,
                bytes@.len() == 8 * i,
                forall|j: int|
                    0 <= j < 8 * i ==> bytes@[j] == be_byte64(self.lanes@[j / 8], (j % 8) as u32),
            decreases N - i,
        {
            let x: u64 = self.lanes[i];
            bytes.push(#[verifier::truncate] (((x >> 56u32) & 0xff) as u8));
            bytes.push(#[verifier::truncate] (((x >> 48u32) & 0xff) as u8));
            bytes.push(#[verifier::truncate] (((x >> 40u32) & 0xff) as u8));
            bytes.push(#[verifier::truncate] (((x >> 32u32) & 0xff) as u8));
            bytes.push(#[verifier::truncate] (((x >> 24u32) & 0xff) as u8));
            bytes.push(#[verifier::truncate] (((x >> 16u32) & 0xff) as u8));
            bytes.push(#[verifier::truncate] (((x >> 8u32) & 0xff) as u8));
            bytes.push(#[verifier::truncate] (((x >> 0u32) & 0xff) as u8));
            i += 1;
        }
        bytes
    }

    /// Reads a vector back from bytes laid out as `to_be_bytes` lays them out.
    pub fn from_be_bytes(bytes: &[u8]) -> (r: Self)
        requires
            bytes@.len() == 8 * N,
        ensures
            r@ == lanes_from_be64(bytes@),
    {
        let total: usize = bytes.len();
        let zero: u64 = 0;
        let mut lanes = [zero; N];
        let mut i: usize = 0;
        while i < N
            invariant
                i <= N,
                total == 8 * N,
                bytes@.len() == 8 * N,
                forall|j: int|
                    0 <= j < i ==> lanes@[j] == from_be64(
                        bytes@[8 * j],
                        bytes@[8 * j + 1],
                        bytes@[8 * j + 2],
                        bytes@[8 * j + 3],
                        bytes@[8 * j + 4],
                        bytes@[8 * j + 5],
                        bytes@[8 * j + 6],
                        bytes@[8 * j + 7],
                    ),
            decreases N - i,
        {
            let p: usize = 8 * i;
            lanes[i] = (bytes[p] as u64) << 56u32 | (bytes[p + 1] as u64) << 48u32 | (bytes[p
                + 2] as u64) << 40u32 | (bytes[p + 3] as u64) << 32u32 | (bytes[p + 4] as u64)
                << 24u32 | (bytes[p + 5] as u64) << 16u32 | (bytes[p + 6] as u64) << 8u32 | (bytes[p
                + 7] as u64);
            i += 1;
        }
        U64Lanes { lanes }
    }

    /// Reads a vector from bytes: the lanes in order, each least significant
    /// byte first.
    pub fn from_le_bytes(bytes: &[u8]) -> (r: Self)
        requires
            bytes@.len() == 8 * N,
        ensures
            r@ == lanes_from_le64(bytes@),
    {
        let total: usize = bytes.len();
        let zero: u64 = 0;
        let mut lanes = [zero; N];
        let mut i: usize = 0;
        while i < N
            invariant
                i <= N,
                total == 8 * N,
                bytes@.len() == 8 * N,
                forall|j: int|
                    0 <= j < i ==> lanes@[j] == le64(
                        bytes@[8 * j],
                        bytes@[8 * j + 1],
                        bytes@[8 * j + 2],
                        bytes@[8 * j + 3],
                        bytes@[8 * j + 4],
                        bytes@[8 * j + 5],
                        bytes@[8 * j + 6],
                        bytes@[8 * j + 7],
                    ),
            decreases N - i,
        {
            let p: usize = 8 * i;
            lanes[i] = (bytes[p] as u64) | (bytes[p + 1] as u64) << 8u32 | (bytes[p + 2] as u64)
                << 16u32 | (bytes[p + 3] as u64) << 24u32 | (bytes[p + 4] as u64) << 32u32 | (bytes[p
                + 5] as u64) << 40u32 | (bytes[p + 6] as u64) << 48u32 | (bytes[p + 7] as u64)
                << 56u32;
            i += 1;
        }
        U64Lanes { lanes }
    }
}

} // verus!

//! Rotation of every lane's bits by a fixed distance.
//!
//! A distance that is a whole number of bytes is served by a byte permutation
//! of the vector; every other distance by two shifts and a bitwise or. Both
//! routes give the same lanes.

use vstd::prelude::*;
use vstd::arithmetic::div_mod::{
    lemma_fundamental_div_mod, lemma_fundamental_div_mod_converse, lemma_mod_multiples_basic,
};
use crate::bits::{
    be_byte32, be_byte64, lemma_rot32_inverse, lemma_rotl32_moves_bytes, lemma_rotl32_zero,
    lemma_rotl64_moves_bytes, lemma_rotl64_undoes_rotr64, lemma_rotl64_zero,
    lemma_rotr32_moves_bytes, lemma_rotr64_moves_bytes, lemma_rotr64_undoes_rotl64, rotl32,
    rotl64, rotr32, rotr64,
};
use crate::lanes32::{be_bytes32, lanes_from_be32, U32Lanes};
use crate::lanes64::{be_bytes64, lanes_from_be64, U64Lanes};

verus! {

/// The index found at position `i` after every block of `block` consecutive
/// indices has been rotated left by `rot` places.
pub open spec fn rotated_left_index(i: int, block: int, rot: int) -> int {
    (i / block) * block + (i % block + rot) % block
}

/// The index found at position `i` after every block of `block` consecutive
/// indices has been rotated right by `rot` places.
pub open spec fn rotated_right_index(i: int, block: int, rot: int) -> int {
    (i / block) * block + (i % block + block - rot) % block
}

/// The identity sequence `0 .. len` with every block rotated left by `rot`.
pub open spec fn left_indices(len: nat, block: nat, rot: nat) -> Seq<usize> {
    Seq::new(len, |i: int| rotated_left_index(i, block as int, rot as int) as usize)
}

/// The identity sequence `0 .. len` with every block rotated right by `rot`.
pub open spec fn right_indices(len: nat, block: nat, rot: nat) -> Seq<usize> {
    Seq::new(len, |i: int| rotated_right_index(i, block as int, rot as int) as usize)
}

/// `bytes` gathered through `indices`: position `i` takes the byte at
/// `indices[i]`.
pub open spec fn shuffled(bytes: Seq<u8>, indices: Seq<usize>) -> Seq<u8> {
    Seq::new(indices.len(), |i: int| bytes[indices[i] as int])
}

/// Every lane of `s` rotated left by `amount` modulo 32.
pub open spec fn rotated_left32(s: Seq<u32>, amount: u32) -> Seq<u32> {
    Seq::new(s.len(), |i: int| rotl32(s[i], amount))
}

/// Every lane of `s` rotated right by `amount` modulo 32.
pub open spec fn rotated_right32(s: Seq<u32>, amount: u32) -> Seq<u32> {
    Seq::new(s.len(), |i: int| rotr32(s[i], amount))
}

/// Every lane of `s` rotated left by `amount` modulo 64.
pub open spec fn rotated_left64(s: Seq<u64>, amount: u32) -> Seq<u64> {
    Seq::new(s.len(), |i: int| rotl64(s[i], amount))
}

/// Every lane of `s` rotated right by `amount` modulo 64.
pub open spec fn rotated_right64(s: Seq<u64>, amount: u32) -> Seq<u64> {
    Seq::new(s.len(), |i: int| rotr64(s[i], amount))
}

proof fn lemma_block_position(start: int, off: int, block: int, q: int)
    requires
        block > 0,
        0 <= off < block,
        start == q * block,
    ensures
        (start + off) / block == q,
        (start + off) % block == off,
{
    lemma_fundamental_div_mod_converse(start + off, block, q, off);
}

proof fn lemma_next_block_fits(start: int, len: int, block: int, q: int)
    requires
        block > 0,
        0 <= start < len,
        start == q * block,
        len % block == 0,
    ensures
        start + block <= len,
        start + block == (q + 1) * block,
{
    let m = len / block;
    lemma_fundamental_div_mod(len, block);
    assert(q < m) by (nonlinear_arith)
        requires
            q * block < block * m,
            block > 0,
    ;
    assert((q + 1) * block <= block * m) by (nonlinear_arith)
        requires
            q + 1 <= m,
            block > 0,
    ;
    assert((q + 1) * block == q * block + block) by (nonlinear_arith);
}

/// Builds the index table that rotates every block of `block` indices of
/// `0 .. len` left by `rot` places.
pub fn build_left(len: usize, block: usize, rot: usize) -> (arr: Vec<usize>)
    requires
        block > 0,
        len % block == 0,
        rot <= block,
    ensures
        arr@ == left_indices(len as nat, block as nat, rot as nat),
{
    let mut arr: Vec<usize> = Vec::new();
    let mut start: usize = 0;
    let ghost mut q: int = 0;
    while start < len
        invariant
            block > 0,
            len % block == 0,
            rot <= block,
            start <= len,
            start == q * block,
            arr@.len() == start,
            forall|j: int|
                0 <= j < start ==> arr@[j] == rotated_left_index(j, block as int, rot as int),
        decreases len - start,
    {
        proof {
            lemma_next_block_fits(start as int, len as int, block as int, q);
        }
        let mut off: usize = 0;
        while off < block
            invariant
                block > 0,
                rot <= block,
                off <= block,
                start + block <= len,
                start == q * block,
                arr@.len() == start + off,
                forall|j: int|
                    0 <= j < start + off ==> arr@[j] == rotated_left_index(
                        j,
                        block as int,
                        rot as int,
                    ),
            decreases block - off,
        {
            let shifted: usize = if off < block - rot {
                off + rot
            } else {
                off - (block - rot)
            };
            proof {
                lemma_block_position(start as int, off as int, block as int, q);
                if off < block - rot {
                    lemma_fundamental_div_mod_converse(off + rot, block as int, 0, shifted as int);
                } else {
                    lemma_fundamental_div_mod_converse(off + rot, block as int, 1, shifted as int);
                }
            }
            arr.push(start + shifted);
            off += 1;
        }
        start += block;
        proof {
            q = q + 1;
        }
    }
    arr
}

/// Builds the index table that rotates every block of `block` indices of
/// `0 .. len` right by `rot` places.
pub fn build_right(len: usize, block: usize, rot: usize) -> (arr: Vec<usize>)
    requires
        block > 0,
        len % block == 0,
        rot <= block,
    ensures
        arr@ == right_indices(len as nat, block as nat, rot as nat),
{
    let mut arr: Vec<usize> = Vec::new();
    let mut start: usize = 0;
    let ghost mut q: int = 0;
    while start < len
        invariant
            block > 0,
            len % block == 0,
            rot <= block,
            start <= len,
            start == q * block,
            arr@.len() == start,
            forall|j: int|
                0 <= j < start ==> arr@[j] == rotated_right_index(j, block as int, rot as int),
        decreases len - start,
    {
        proof {
            lemma_next_block_fits(start as int, len as int, block as int, q);
        }
        let mut off: usize = 0;
        while off < block
            invariant
                block > 0,
                rot <= block,
                off <= block,
                start + block <= len,
                start == q * block,
                arr@.len() == start + off,
                forall|j: int|
                    0 <= j < start + off ==> arr@[j] == rotated_right_index(
                        j,
                        block as int,
                        rot as int,
                    ),
            decreases block - off,
        {
            let shifted: usize = if off < rot {
                off + (block - rot)
            } else {
                off - rot
            };
            proof {
                lemma_block_position(start as int, off as int, block as int, q);
                if off < rot {
                    lemma_fundamental_div_mod_converse(
                        off + block - rot,
                        block as int,
                        0,
                        shifted as int,
                    );
                } else {
                    lemma_fundamental_div_mod_converse(
                        off + block - rot,
                        block as int,
                        1,
                        shifted as int,
                    );
                }
            }
            arr.push(start + shifted);
            off += 1;
        }
        start += block;
        proof {
            q = q + 1;
        }
    }
    arr
}

/// Number of lanes of the `j`-th vector width: two, four, eight, sixteen.
pub open spec fn lanes_of_width(j: int) -> nat {
    if j <= 0 {
        2
    } else if j == 1 {
        4
    } else if j == 2 {
        8
    } else {
        16
    }
}

/// Table `k` of the family of tables for lanes of `block` bytes in `widths`
/// vector widths: the tables go by rotation distance, and within one distance
/// by vector width.
pub open spec fn family_table(block: nat, widths: nat, left: bool, k: int) -> Seq<usize> {
    let len = block * lanes_of_width(k % (widths as int));
    let rot = (k / (widths as int)) as nat;
    if left {
        left_indices(len, block, rot)
    } else {
        right_indices(len, block, rot)
    }
}

/// Table `k` of the full set: left rotations of 32-bit lanes, left rotations
/// of 64-bit lanes, then the right rotations of each.
pub open spec fn rotate_index_table(k: int) -> Seq<usize> {
    if k < 16 {
        family_table(4, 4, true, k)
    } else if k < 40 {
        family_table(8, 3, true, k - 16)
    } else if k < 56 {
        family_table(4, 4, false, k - 40)
    } else {
        family_table(8, 3, false, k - 56)
    }
}

/// Builds one family of tables: for every rotation distance below `block`,
/// one table for each of the first `widths` vector widths.
pub fn build_family(block: usize, widths: usize, left: bool) -> (tables: Vec<Vec<usize>>)
    requires
        0 < block <= 8,
        0 < widths <= 4,
    ensures
        tables@.len() == block * widths,
        forall|k: int|
            0 <= k < tables@.len() ==> (#[trigger] tables@[k])@ == family_table(
                block as nat,
                widths as nat,
                left,
                k,
            ),
{
    let mut tables: Vec<Vec<usize>> = Vec::new();
    let mut rot: usize = 0;
    while rot < block
        invariant
            0 < block <= 8,
            0 < widths <= 4,
            rot <= block,
            tables@.len() == rot * widths,
            forall|k: int|
                0 <= k < tables@.len() ==> (#[trigger] tables@[k])@ == family_table(
                    block as nat,
                    widths as nat,
                    left,
                    k,
                ),
        decreases block - rot,
    {
        let mut lanes: usize = 2;
        let mut j: usize = 0;
        while j < widths
            invariant
                0 < block <= 8,
                0 < widths <= 4,
                rot < block,
                j <= widths,
                lanes == lanes_of_width(j as int) || j == 4 && lanes == 32,
                tables@.len() == rot * widths + j,
                forall|k: int|
                    0 <= k < tables@.len() ==> (#[trigger] tables@[k])@ == family_table(
                        block as nat,
                        widths as nat,
                        left,
                        k,
                    ),
            decreases widths - j,
        {
            let len: usize = block * lanes;
            proof {
                lemma_mod_multiples_basic(lanes as int, block as int);
                assert(lanes * block == block * lanes) by (nonlinear_arith);
                lemma_fundamental_div_mod_converse(
                    rot * widths + j,
                    widths as int,
                    rot as int,
                    j as int,
                );
            }
            let table = if left {
                build_left(len, block, rot)
            } else {
                build_right(len, block, rot)
            };
            tables.push(table);
            lanes = lanes * 2;
            j += 1;
        }
        assert((rot + 1) * widths == rot * widths + widths) by (nonlinear_arith);
        rot += 1;
    }
    tables
}

/// Builds every index table of the rotation dispatcher, in a fixed order:
/// sixteen tables for left rotations of 32-bit lanes, twenty-four for left
/// rotations of 64-bit lanes, then as many for the right rotations of each.
pub fn build_rotate_indices() -> (tables: Vec<Vec<usize>>)
    ensures
        tables@.len() == 80,
        forall|k: int| 0 <= k < 80 ==> (#[trigger] tables@[k])@ == rotate_index_table(k),
{
    let mut tables = build_family(4, 4, true);
    let mut left64 = build_family(8, 3, true);
    let mut right32 = build_family(4, 4, false);
    let mut right64 = build_family(8, 3, false);
    tables.append(&mut left64);
    tables.append(&mut right32);
    tables.append(&mut right64);
    tables
}

/// Gathers `bytes` through `indices`.
pub fn shuffle(bytes: &[u8], indices: &[usize]) -> (out: Vec<u8>)
    requires
        forall|i: int| 0 <= i < indices@.len() ==> indices@[i] < bytes@.len(),
    ensures
        out@ == shuffled(bytes@, indices@),
{
    let mut out: Vec<u8> = Vec::new();
    let mut i: usize = 0;
    while i < indices.len()
        invariant
            i <= indices@.len(),
            forall|j: int| 0 <= j < indices@.len() ==> indices@[j] < bytes@.len(),
            out@.len() == i,
            forall|j: int| 0 <= j < i ==> out@[j] == bytes@[indices@[j] as int],
        decreases indices@.len() - i,
    {
        out.push(bytes[indices[i]]);
        i += 1;
    }
    out
}

proof fn lemma_left_permutation_moves_byte32(s: Seq<u32>, r: u32, i: int, k: int)
    requires
        r < 4,
        0 <= i < s.len(),
        0 <= k < 4,
        4 * s.len() <= usize::MAX,
    ensures
        shuffled(be_bytes32(s), left_indices(4 * s.len(), 4, r as nat))[4 * i + k] == be_byte32(
            s[i],
            ((k + r) % 4) as u32,
        ),
{
    let j = 4 * i + k;
    let target = 4 * i + (k + r) % 4;
    assert(j / 4 == i && j % 4 == k);
    assert(rotated_left_index(j, 4, r as int) == target);
    assert(left_indices(4 * s.len(), 4, r as nat)[j] == target);
    assert(target / 4 == i && target % 4 == (k + r) % 4);
    assert(be_bytes32(s)[target] == be_byte32(s[target / 4], (target % 4) as u32));
}

proof fn lemma_left_permutation_moves_bytes32(s: Seq<u32>, r: u32, i: int)
    requires
        r < 4,
        0 <= i < s.len(),
        4 * s.len() <= usize::MAX,
    ensures
        ({
            let moved = shuffled(be_bytes32(s), left_indices(4 * s.len(), 4, r as nat));
            &&& moved[4 * i + 0] == be_byte32(s[i], ((0 + r) % 4) as u32)
            &&& moved[4 * i + 1] == be_byte32(s[i], ((1 + r) % 4) as u32)
            &&& moved[4 * i + 2] == be_byte32(s[i], ((2 + r) % 4) as u32)
            &&& moved[4 * i + 3] == be_byte32(s[i], ((3 + r) % 4) as u32)
        }),
{
    lemma_left_permutation_moves_byte32(s, r, i, 0);
    lemma_left_permutation_moves_byte32(s, r, i, 1);
    lemma_left_permutation_moves_byte32(s, r, i, 2);
    lemma_left_permutation_moves_byte32(s, r, i, 3);
}

/// The byte permutation by `left_indices` for a distance of `amount / 8` bytes
/// gives the lanes that rotating left by `amount` bits gives.
pub proof fn lemma_left_permutation_rotates32(s: Seq<u32>, amount: u32)
    requires
        amount % 8 == 0,
        amount < 32,
        4 * s.len() <= usize::MAX,
    ensures
        lanes_from_be32(
            shuffled(be_bytes32(s), left_indices(4 * s.len(), 4, (amount / 8) as nat)),
        ) == rotated_left32(s, amount),
{
    let r: u32 = amount / 8;
    let moved = shuffled(be_bytes32(s), left_indices(4 * s.len(), 4, r as nat));
    assert forall|i: int| 0 <= i < s.len() implies #[trigger] lanes_from_be32(moved)[i] == rotl32(
        s[i],
        amount,
    ) by {
        lemma_left_permutation_moves_bytes32(s, r, i);
        lemma_rotl32_moves_bytes(s[i], r);
    }
    assert(lanes_from_be32(moved) =~= rotated_left32(s, amount));
}

proof fn lemma_right_permutation_moves_byte32(s: Seq<u32>, r: u32, i: int, k: int)
    requires
        r < 4,
        0 <= i < s.len(),
        0 <= k < 4,
        4 * s.len() <= usize::MAX,
    ensures
        shuffled(be_bytes32(s), right_indices(4 * s.len(), 4, r as nat))[4 * i + k] == be_byte32(
            s[i],
            ((k + 4 - r) % 4) as u32,
        ),
{
    let j = 4 * i + k;
    let target = 4 * i + (k + 4 - r) % 4;
    assert(j / 4 == i && j % 4 == k);
    assert(rotated_right_index(j, 4, r as int) == target);
    assert(right_indices(4 * s.len(), 4, r as nat)[j] == target);
    assert(target / 4 == i && target % 4 == (k + 4 - r) % 4);
    assert(be_bytes32(s)[target] == be_byte32(s[target / 4], (target % 4) as u32));
}

proof fn lemma_right_permutation_moves_bytes32(s: Seq<u32>, r: u32, i: int)
    requires
        r < 4,
        0 <= i < s.len(),
        4 * s.len() <= usize::MAX,
    ensures
        ({
            let moved = shuffled(be_bytes32(s), right_indices(4 * s.len(), 4, r as nat));
            &&& moved[4 * i + 0] == be_byte32(s[i], ((4 - r) % 4) as u32)
            &&& moved[4 * i + 1] == be_byte32(s[i], ((5 - r) % 4) as u32)
            &&& moved[4 * i + 2] == be_byte32(s[i], ((6 - r) % 4) as u32)
            &&& moved[4 * i + 3] == be_byte32(s[i], ((7 - r) % 4) as u32)
        }),
{
    lemma_right_permutation_moves_byte32(s, r, i, 0);
    lemma_right_permutation_moves_byte32(s, r, i, 1);
    lemma_right_permutation_moves_byte32(s, r, i, 2);
    lemma_right_permutation_moves_byte32(s, r, i, 3);
}

/// The byte permutation by `right_indices` for a distance of `amount / 8` bytes
/// gives the lanes that rotating right by `amount` bits gives.
pub proof fn lemma_right_permutation_rotates32(s: Seq<u32>, amount: u32)
    requires
        amount % 8 == 0,
        amount < 32,
        4 * s.len() <= usize::MAX,
    ensures
        lanes_from_be32(
            shuffled(be_bytes32(s), right_indices(4 * s.len(), 4, (amount / 8) as nat)),
        ) == rotated_right32(s, amount),
{
    let r: u32 = amount / 8;
    let moved = shuffled(be_bytes32(s), right_indices(4 * s.len(), 4, r as nat));
    assert forall|i: int| 0 <= i < s.len() implies #[trigger] lanes_from_be32(moved)[i] == rotr32(
        s[i],
        amount,
    ) by {
        lemma_right_permutation_moves_bytes32(s, r, i);
        lemma_rotr32_moves_bytes(s[i], r);
    }
    assert(lanes_from_be32(moved) =~= rotated_right32(s, amount));
}

/// Rotating left and then right by the same distance, or right and then
/// left, gives the vector back.
pub proof fn lemma_rotations_cancel32(s: Seq<u32>, amount: u32)
    ensures
        rotated_left32(rotated_right32(s, amount), amount) == s,
        rotated_right32(rotated_left32(s, amount), amount) == s,
{
    assert forall|i: int| 0 <= i < s.len() implies rotl32(#[trigger] rotr32(s[i], amount), amount)
        == s[i] && rotr32(rotl32(s[i], amount), amount) == s[i] by {
        lemma_rot32_inverse(s[i], amount);
    }
    assert(rotated_left32(rotated_right32(s, amount), amount) =~= s);
    assert(rotated_right32(rotated_left32(s, amount), amount) =~= s);
}

/// Rotating by a distance of zero changes nothing.
pub proof fn lemma_rotation_by_zero32(s: Seq<u32>)
    ensures
        rotated_left32(s, 0) == s,
        rotated_right32(s, 0) == s,
{
    assert forall|i: int| 0 <= i < s.len() implies #[trigger] rotl32(s[i], 0) == s[i] && rotr32(
        s[i],
        0,
    ) == s[i] by {
        lemma_rotl32_zero(s[i]);
    }
    assert(rotated_left32(s, 0) =~= s);
    assert(rotated_right32(s, 0) =~= s);
}

impl<const N: usize> U32Lanes<N> {
    /// Reinterprets the vector as bytes, gathers them through `indices` and
    /// reads the result back as lanes.
    pub fn shuffle_bytes(&self, indices: &[usize]) -> (r: Self)
        requires
            indices@.len() == 4 * N,
            forall|i: int| 0 <= i < indices@.len() ==> indices@[i] < 4 * N,
        ensures
            r@ == lanes_from_be32(shuffled(be_bytes32(self@), indices@)),
    {
        let bytes = self.to_be_bytes();
        let moved = shuffle(bytes.as_slice(), indices);
        Self::from_be_bytes(moved.as_slice())
    }

    /// Rotates every lane left by `amount` bits, a whole number of bytes,
    /// with one byte permutation.
    pub fn rotate_left_permuted(&self, amount: u32) -> (r: Self)
        requires
            amount % 8 == 0,
            amount < 32,
            4 * N <= usize::MAX,
        ensures
            r@ == lanes_from_be32(
                shuffled(be_bytes32(self@), left_indices(4 * N as nat, 4, (amount / 8) as nat)),
            ),
            r@ == rotated_left32(self@, amount),
    {
        let indices = build_left(4 * N, 4, (amount / 8) as usize);
        proof {
            lemma_left_permutation_rotates32(self@, amount);
        }
        self.shuffle_bytes(indices.as_slice())
    }

    /// Rotates every lane right by `amount` bits, a whole number of bytes,
    /// with one byte permutation.
    pub fn rotate_right_permuted(&self, amount: u32) -> (r: Self)
        requires
            amount % 8 == 0,
            amount < 32,
            4 * N <= usize::MAX,
        ensures
            r@ == lanes_from_be32(
                shuffled(be_bytes32(self@), right_indices(4 * N as nat, 4, (amount / 8) as nat)),
            ),
            r@ == rotated_right32(self@, amount),
    {
        let indices = build_right(4 * N, 4, (amount / 8) as usize);
        proof {
            lemma_right_permutation_rotates32(self@, amount);
        }
        self.shuffle_bytes(indices.as_slice())
    }

    /// Rotates every lane left by `amount` bits, cyclically within the lane.
    pub fn rotate_left(&self, amount: u32) -> (r: Self)
        ensures
            r@ == rotated_left32(self@, amount),
    {
        if amount == 0 {
            proof {
                lemma_rotation_by_zero32(self@);
            }
            *self
        } else if amount < 32 && amount % 8 == 0 && N <= usize::MAX / 4 {
            self.rotate_left_permuted(amount)
        } else {
            let r = self.rotate_left_generic(amount);
            assert(r@ =~= rotated_left32(self@, amount));
            r
        }
    }

    /// Rotates every lane right by `amount` bits, cyclically within the lane.
    pub fn rotate_right(&self, amount: u32) -> (r: Self)
        ensures
            r@ == rotated_right32(self@, amount),
    {
        if amount == 0 {
            proof {
                lemma_rotation_by_zero32(self@);
            }
            *self
        } else if amount < 32 && amount % 8 == 0 && N <= usize::MAX / 4 {
            self.rotate_right_permuted(amount)
        } else {
            let r = self.rotate_right_generic(amount);
            assert(r@ =~= rotated_right32(self@, amount));
            r
        }
    }
}

proof fn lemma_left_permutation_moves_byte64(s: Seq<u64>, r: u32, i: int, k: int)
    requires
        r < 8,
        0 <= i < s.len(),
        0 <= k < 8,
        8 * s.len() <= usize::MAX,
    ensures
        shuffled(be_bytes64(s), left_indices(8 * s.len(), 8, r as nat))[8 * i + k] == be_byte64(
            s[i],
            ((k + r) % 8) as u32,
        ),
{
    let j = 8 * i + k;
    let target = 8 * i + (k + r) % 8;
    assert(j / 8 == i && j % 8 == k);
    assert(rotated_left_index(j, 8, r as int) == target);
    assert(left_indices(8 * s.len(), 8, r as nat)[j] == target);
    assert(target / 8 == i && target % 8 == (k + r) % 8);
    assert(be_bytes64(s)[target] == be_byte64(s[target / 8], (target % 8) as u32));
}

proof fn lemma_left_permutation_moves_bytes64(s: Seq<u64>, r: u32, i: int)
    requires
        r < 8,
        0 <= i < s.len(),
        8 * s.len() <= usize::MAX,
    ensures
        ({
            let moved = shuffled(be_bytes64(s), left_indices(8 * s.len(), 8, r as nat));
            &&& moved[8 * i + 0] == be_byte64(s[i], ((0 + r) % 8) as u32)
            &&& moved[8 * i + 1] == be_byte64(s[i], ((1 + r) % 8) as u32)
            &&& moved[8 * i + 2] == be_byte64(s[i], ((2 + r) % 8) as u32)
            &&& moved[8 * i + 3] == be_byte64(s[i], ((3 + r) % 8) as u32)
            &&& moved[8 * i + 4] == be_byte64(s[i], ((4 + r) % 8) as u32)
            &&& moved[8 * i + 5] == be_byte64(s[i], ((5 + r) % 8) as u32)
            &&& moved[8 * i + 6] == be_byte64(s[i], ((6 + r) % 8) as u32)
            &&& moved[8 * i + 7] == be_byte64(s[i], ((7 + r) % 8) as u32)
        }),
{
    lemma_left_permutation_moves_byte64(s, r, i, 0);
    lemma_left_permutation_moves_byte64(s, r, i, 1);
    lemma_left_permutation_moves_byte64(s, r, i, 2);
    lemma_left_permutation_moves_byte64(s, r, i, 3);
    lemma_left_permutation_moves_byte64(s, r, i, 4);
    lemma_left_permutation_moves_byte64(s, r, i, 5);
    lemma_left_permutation_moves_byte64(s, r, i, 6);
    lemma_left_permutation_moves_byte64(s, r, i, 7);
}

/// The byte permutation by `left_indices` for a distance of `amount / 8` bytes
/// gives the lanes that rotating left by `amount` bits gives.
pub proof fn lemma_left_permutation_rotates64(s: Seq<u64>, amount: u32)
    requires
        amount % 8 == 0,
        amount < 64,
        8 * s.len() <= usize::MAX,
    ensures
        lanes_from_be64(
            shuffled(be_bytes64(s), left_indices(8 * s.len(), 8, (amount / 8) as nat)),
        ) == rotated_left64(s, amount),
{
    let r: u32 = amount / 8;
    let moved = shuffled(be_bytes64(s), left_indices(8 * s.len(), 8, r as nat));
    assert forall|i: int| 0 <= i < s.len() implies #[trigger] lanes_from_be64(moved)[i] == rotl64(
        s[i],
        amount,
    ) by {
        lemma_left_permutation_moves_bytes64(s, r, i);
        lemma_rotl64_moves_bytes(s[i], r);
    }
    assert(lanes_from_be64(moved) =~= rotated_left64(s, amount));
}

proof fn lemma_right_permutation_moves_byte64(s: Seq<u64>, r: u32, i: int, k: int)
    requires
        r < 8,
        0 <= i < s.len(),
        0 <= k < 8,
        8 * s.len() <= usize::MAX,
    ensures
        shuffled(be_bytes64(s), right_indices(8 * s.len(), 8, r as nat))[8 * i + k] == be_byte64(
            s[i],
            ((k + 8 - r) % 8) as u32,
        ),
{
    let j = 8 * i + k;
    let target = 8 * i + (k + 8 - r) % 8;
    assert(j / 8 == i && j % 8 == k);
    assert(rotated_right_index(j, 8, r as int) == target);
    assert(right_indices(8 * s.len(), 8, r as nat)[j] == target);
    assert(target / 8 == i && target % 8 == (k + 8 - r) % 8);
    assert(be_bytes64(s)[target] == be_byte64(s[target / 8], (target % 8) as u32));
}

proof fn lemma_right_permutation_moves_bytes64(s: Seq<u64>, r: u32, i: int)
    requires
        r < 8,
        0 <= i < s.len(),
        8 * s.len() <= usize::MAX,
    ensures
        ({
            let moved = shuffled(be_bytes64(s), right_indices(8 * s.len(), 8, r as nat));
            &&& moved[8 * i + 0] == be_byte64(s[i], ((8 - r) % 8) as u32)
            &&& moved[8 * i + 1] == be_byte64(s[i], ((9 - r) % 8) as u32)
            &&& moved[8 * i + 2] == be_byte64(s[i], ((10 - r) % 8) as u32)
            &&& moved[8 * i + 3] == be_byte64(s[i], ((11 - r) % 8) as u32)
            &&& moved[8 * i + 4] == be_byte64(s[i], ((12 - r) % 8) as u32)
            &&& moved[8 * i + 5] == be_byte64(s[i], ((13 - r) % 8) as u32)
            &&& moved[8 * i + 6] == be_byte64(s[i], ((14 - r) % 8) as u32)
            &&& moved[8 * i + 7] == be_byte64(s[i], ((15 - r) % 8) as u32)
        }),
{
    lemma_right_permutation_moves_byte64(s, r, i, 0);
    lemma_right_permutation_moves_byte64(s, r, i, 1);
    lemma_right_permutation_moves_byte64(s, r, i, 2);
    lemma_right_permutation_moves_byte64(s, r, i, 3);
    lemma_right_permutation_moves_byte64(s, r, i, 4);
    lemma_right_permutation_moves_byte64(s, r, i, 5);
    lemma_right_permutation_moves_byte64(s, r, i, 6);
    lemma_right_permutation_moves_byte64(s, r, i, 7);
}

/// The byte permutation by `right_indices` for a distance of `amount / 8` bytes
/// gives the lanes that rotating right by `amount` bits gives.
pub proof fn lemma_right_permutation_rotates64(s: Seq<u64>, amount: u32)
    requires
        amount % 8 == 0,
        amount < 64,
        8 * s.len() <= usize::MAX,
    ensures
        lanes_from_be64(
            shuffled(be_bytes64(s), right_indices(8 * s.len(), 8, (amount / 8) as nat)),
        ) == rotated_right64(s, amount),
{
    let r: u32 = amount / 8;
    let moved = shuffled(be_bytes64(s), right_indices(8 * s.len(), 8, r as nat));
    assert forall|i: int| 0 <= i < s.len() implies #[trigger] lanes_from_be64(moved)[i] == rotr64(
        s[i],
        amount,
    ) by {
        lemma_right_permutation_moves_bytes64(s, r, i);
        lemma_rotr64_moves_bytes(s[i], r);
    }
    assert(lanes_from_be64(moved) =~= rotated_right64(s, amount));
}

/// Rotating left and then right by the same distance, or right and then
/// left, gives the vector back.
pub proof fn lemma_rotations_cancel64(s: Seq<u64>, amount: u32)
    ensures
        rotated_left64(rotated_right64(s, amount), amount) == s,
        rotated_right64(rotated_left64(s, amount), amount) == s,
{
    assert forall|i: int| 0 <= i < s.len() implies rotl64(#[trigger] rotr64(s[i], amount), amount)
        == s[i] && rotr64(rotl64(s[i], amount), amount) == s[i] by {
        lemma_rotl64_undoes_rotr64(s[i], amount);
        lemma_rotr64_undoes_rotl64(s[i], amount);
    }
    assert(rotated_left64(rotated_right64(s, amount), amount) =~= s);
    assert(rotated_right64(rotated_left64(s, amount), amount) =~= s);
}

/// Rotating by a distance of zero changes nothing.
pub proof fn lemma_rotation_by_zero64(s: Seq<u64>)
    ensures
        rotated_left64(s, 0) == s,
        rotated_right64(s, 0) == s,
{
    assert forall|i: int| 0 <= i < s.len() implies #[trigger] rotl64(s[i], 0) == s[i] && rotr64(
        s[i],
        0,
    ) == s[i] by {
        lemma_rotl64_zero(s[i]);
    }
    assert(rotated_left64(s, 0) =~= s);
    assert(rotated_right64(s, 0) =~= s);
}

impl<const N: usize> U64Lanes<N> {
    /// Reinterprets the vector as bytes, gathers them through `indices` and
    /// reads the result back as lanes.
    pub fn shuffle_bytes(&self, indices: &[usize]) -> (r: Self)
        requires
            indices@.len() == 8 * N,
            forall|i: int| 0 <= i < indices@.len() ==> indices@[i] < 8 * N,
        ensures
            r@ == lanes_from_be64(shuffled(be_bytes64(self@), indices@)),
    {
        let bytes = self.to_be_bytes();
        let moved = shuffle(bytes.as_slice(), indices);
        Self::from_be_bytes(moved.as_slice())
    }

    /// Rotates every lane left by `amount` bits, a whole number of bytes,
    /// with one byte permutation.
    pub fn rotate_left_permuted(&self, amount: u32) -> (r: Self)
        requires
            amount % 8 == 0,
            amount < 64,
            8 * N <= usize::MAX,
        ensures
            r@ == lanes_from_be64(
                shuffled(be_bytes64(self@), left_indices(8 * N as nat, 8, (amount / 8) as nat)),
            ),
            r@ == rotated_left64(self@, amount),
    {
        let indices = build_left(8 * N, 8, (amount / 8) as usize);
        proof {
            lemma_left_permutation_rotates64(self@, amount);
        }
        self.shuffle_bytes(indices.as_slice())
    }

    /// Rotates every lane right by `amount` bits, a whole number of bytes,
    /// with one byte permutation.
    pub fn rotate_right_permuted(&self, amount: u32) -> (r: Self)
        requires
            amount % 8 == 0,
            amount < 64,
            8 * N <= usize::MAX,
        ensures
            r@ == lanes_from_be64(
                shuffled(be_bytes64(self@), right_indices(8 * N as nat, 8, (amount / 8) as nat)),
            ),
            r@ == rotated_right64(self@, amount),
    {
        let indices = build_right(8 * N, 8, (amount / 8) as usize);
        proof {
            lemma_right_permutation_rotates64(self@, amount);
        }
        self.shuffle_bytes(indices.as_slice())
    }

    /// Rotates every lane left by `amount` bits, cyclically within the lane.
    pub fn rotate_left(&self, amount: u32) -> (r: Self)
        ensures
            r@ == rotated_left64(self@, amount),
    {
        if amount == 0 {
            proof {
                lemma_rotation_by_zero64(self@);
            }
            *self
        } else if amount < 64 && amount % 8 == 0 && N <= usize::MAX / 8 {
            self.rotate_left_permuted(amount)
        } else {
            let r = self.rotate_left_generic(amount);
            assert(r@ =~= rotated_left64(self@, amount));
            r
        }
    }

    /// Rotates every lane right by `amount` bits, cyclically within the lane.
    pub fn rotate_right(&self, amount: u32) -> (r: Self)
        ensures
            r@ == rotated_right64(self@, amount),
    {
        if amount == 0 {
            proof {
                lemma_rotation_by_zero64(self@);
            }
            *self
        } else if amount < 64 && amount % 8 == 0 && N <= usize::MAX / 8 {
            self.rotate_right_permuted(amount)
        } else {
            let r = self.rotate_right_generic(amount);
            assert(r@ =~= rotated_right64(self@, amount));
            r
        }
    }
}

} // verus!

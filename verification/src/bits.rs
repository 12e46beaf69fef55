//! Bit-level definitions on single lanes: cyclic rotation and the split of a
//! lane into bytes, most significant byte first.

use vstd::prelude::*;

verus! {

/// `x` with its 32 bits rotated left by `k` positions, `k` taken modulo 32.
pub open spec fn rotl32(x: u32, k: u32) -> u32 {
    (x << (k % 32)) | (x >> (((32 - k % 32) % 32) as u32))
}

/// `x` with its 32 bits rotated right by `k` positions, `k` taken modulo 32.
pub open spec fn rotr32(x: u32, k: u32) -> u32 {
    (x >> (k % 32)) | (x << (((32 - k % 32) % 32) as u32))
}

/// Byte `j` of `x`, counted from the most significant byte (`j == 0`).
pub open spec fn be_byte32(x: u32, j: u32) -> u8 {
    ((x >> ((24 - 8 * (j % 4)) as u32)) & 0xff) as u8
}

/// The 32-bit value whose bytes, most significant first, are `b0 b1 b2 b3`.
pub open spec fn from_be32(b0: u8, b1: u8, b2: u8, b3: u8) -> u32 {
    (b0 as u32) << 24 | (b1 as u32) << 16 | (b2 as u32) << 8 | (b3 as u32)
}

/// The 32-bit value whose bytes, least significant first, are `b0 b1 b2 b3`.
pub open spec fn le32(b0: u8, b1: u8, b2: u8, b3: u8) -> u32 {
    (b0 as u32) | (b1 as u32) << 8 | (b2 as u32) << 16 | (b3 as u32) << 24
}

/// Moving every byte of a lane `r` places towards the most significant end,
/// cyclically, rotates the lane's bits left by `8 * r`.
pub proof fn lemma_rotl32_moves_bytes(x: u32, r: u32)
    by (bit_vector)
    requires
        r < 4,
    ensures
        from_be32(
            be_byte32(x, ((0 + r) % 4) as u32),
            be_byte32(x, ((1 + r) % 4) as u32),
            be_byte32(x, ((2 + r) % 4) as u32),
            be_byte32(x, ((3 + r) % 4) as u32),
        ) == rotl32(x, (8 * r) as u32),
{
}

/// Moving every byte of a lane `r` places towards the least significant end,
/// cyclically, rotates the lane's bits right by `8 * r`.
pub proof fn lemma_rotr32_moves_bytes(x: u32, r: u32)
    by (bit_vector)
    requires
        r < 4,
    ensures
        from_be32(
            be_byte32(x, ((4 - r) % 4) as u32),
            be_byte32(x, ((5 - r) % 4) as u32),
            be_byte32(x, ((6 - r) % 4) as u32),
            be_byte32(x, ((7 - r) % 4) as u32),
        ) == rotr32(x, (8 * r) as u32),
{
}

/// Rotating right undoes rotating left by the same amount, and the reverse.
pub proof fn lemma_rot32_inverse(x: u32, k: u32)
    by (bit_vector)
    ensures
        rotl32(rotr32(x, k), k) == x,
        rotr32(rotl32(x, k), k) == x,
{
}

/// Rotating by a distance of zero changes nothing.
pub proof fn lemma_rotl32_zero(x: u32)
    by (bit_vector)
    ensures
        rotl32(x, 0) == x,
        rotr32(x, 0) == x,
{
}

/// `x` with its 64 bits rotated left by `k` positions, `k` taken modulo 64.
pub open spec fn rotl64(x: u64, k: u32) -> u64 {
    (x << (k % 64)) | (x >> (((64 - k % 64) % 64) as u32))
}

/// `x` with its 64 bits rotated right by `k` positions, `k` taken modulo 64.
pub open spec fn rotr64(x: u64, k: u32) -> u64 {
    (x >> (k % 64)) | (x << (((64 - k % 64) % 64) as u32))
}

/// Byte `j` of `x`, counted from the most significant byte (`j == 0`).
pub open spec fn be_byte64(x: u64, j: u32) -> u8 {
    ((x >> ((56 - 8 * (j % 8)) as u32)) & 0xff) as u8
}

/// The 64-bit value whose bytes, most significant first, are `b0 .. b7`.
pub open spec fn from_be64(b0: u8, b1: u8, b2: u8, b3: u8, b4: u8, b5: u8, b6: u8, b7: u8) -> u64 {
    (b0 as u64) << 56 | (b1 as u64) << 48 | (b2 as u64) << 40 | (b3 as u64) << 32 | (b4 as u64)
        << 24 | (b5 as u64) << 16 | (b6 as u64) << 8 | (b7 as u64)
}

/// The 64-bit value whose bytes, least significant first, are `b0 .. b7`.
pub open spec fn le64(b0: u8, b1: u8, b2: u8, b3: u8, b4: u8, b5: u8, b6: u8, b7: u8) -> u64 {
    (b0 as u64) | (b1 as u64) << 8 | (b2 as u64) << 16 | (b3 as u64) << 24 | (b4 as u64) << 32 | (
    b5 as u64) << 40 | (b6 as u64) << 48 | (b7 as u64) << 56
}

/// Moving every byte of a lane `r` places towards the most significant end,
/// cyclically, rotates the lane's bits left by `8 * r`.
pub proof fn lemma_rotl64_moves_bytes(x: u64, r: u32)
    by (bit_vector)
    requires
        r < 8,
    ensures
        from_be64(
            be_byte64(x, ((0 + r) % 8) as u32),
            be_byte64(x, ((1 + r) % 8) as u32),
            be_byte64(x, ((2 + r) % 8) as u32),
            be_byte64(x, ((3 + r) % 8) as u32),
            be_byte64(x, ((4 + r) % 8) as u32),
            be_byte64(x, ((5 + r) % 8) as u32),
            be_byte64(x, ((6 + r) % 8) as u32),
            be_byte64(x, ((7 + r) % 8) as u32),
        ) == rotl64(x, (8 * r) as u32),
{
}

/// Moving every byte of a lane `r` places towards the least significant end,
/// cyclically, rotates the lane's bits right by `8 * r`.
pub proof fn lemma_rotr64_moves_bytes(x: u64, r: u32)
    by (bit_vector)
    requires
        r < 8,
    ensures
        from_be64(
            be_byte64(x, ((8 - r) % 8) as u32),
            be_byte64(x, ((9 - r) % 8) as u32),
            be_byte64(x, ((10 - r) % 8) as u32),
            be_byte64(x, ((11 - r) % 8) as u32),
            be_byte64(x, ((12 - r) % 8) as u32),
            be_byte64(x, ((13 - r) % 8) as u32),
            be_byte64(x, ((14 - r) % 8) as u32),
            be_byte64(x, ((15 - r) % 8) as u32),
        ) == rotr64(x, (8 * r) as u32),
{
}

/// Rotating left undoes rotating right by the same amount.
pub proof fn lemma_rotl64_undoes_rotr64(x: u64, k: u32)
    by (bit_vector)
    ensures
        rotl64(rotr64(x, k), k) == x,
{
}

/// Rotating right undoes rotating left by the same amount.
pub proof fn lemma_rotr64_undoes_rotl64(x: u64, k: u32)
    by (bit_vector)
    ensures
        rotr64(rotl64(x, k), k) == x,
{
}

/// Rotating by a distance of zero changes nothing.
pub proof fn lemma_rotl64_zero(x: u64)
    by (bit_vector)
    ensures
        rotl64(x, 0) == x,
        rotr64(x, 0) == x,
{
}

} // verus!

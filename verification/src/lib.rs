//! Data-parallel pseudorandom generators: every call of `generate` advances
//! a state of lane vectors and hands out one vector of independent lanes.
//!
//! - `lanes32`, `lanes64`: the lane vectors and their lane-wise operations.
//! - `bits`: rotation and byte order on a single lane.
//! - `rotate`: rotation of every lane, by byte permutation or by shifts.
//! - `lfsr113`, `lfsr258`: combined shift-register generators and the
//!   validators that seed them.
//! - `mwc`: multiply-with-carry generators.
//! - `intel_lcg`: a four-lane linear congruential generator.
//! - `seed`: the errors of seeding.

pub mod bits;
pub mod intel_lcg;
pub mod lanes32;
pub mod lanes64;
pub mod lfsr113;
pub mod lfsr258;
pub mod mwc;
pub mod rotate;
pub mod seed;

//! What can go wrong while a generator is being seeded.

use vstd::prelude::*;

verus! {

/// Why a generator could not be constructed.
#[derive(Clone, Copy, Debug, PartialEq, Eq, Structural)]
pub enum SeedError {
    /// The generator cannot be built from a fixed-size seed: its state has
    /// to pass checks that arbitrary bytes may fail.
    SeedingUnsupported,
    /// The entropy ran out before the state was complete.
    EntropySourceFailure,
}

} // verus!

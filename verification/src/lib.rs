//! Deterministic pseudo-random bit-stream generators built on one-dimensional
//! cellular automata, in two families of two engines each: a 3-neighbor
//! Rule 30 lattice, packed into nine 32-bit words with toroidal staging bits
//! or held as one compact open-ended word, and a 5-neighbor extended lattice
//! of eighty 64-bit words whose bit positions evolve as independent parallel
//! automata, with the extra neighbors taken either by an intra-word rotation
//! through a one-word halo or directly through a two-word halo.  The
//! variants are deliberately separate types: their output streams are not
//! interchangeable.
//!
//! Each engine owns a fixed-length array of unsigned words as its only state.
//! Output words are read from designated bits of the *current* state and only
//! then is the state advanced, so the first output after construction depends
//! solely on the seed.

use vstd::prelude::*;

mod pcg;
mod extended_ca;
mod extended_ca_v2;
mod rule30;
mod rule30_compact;

pub use extended_ca::ExtendedCA;
pub use extended_ca::ExtendedRngSeed;
pub use extended_ca_v2::ExtendedCAv2;
pub use rule30::Rule30;
pub use rule30::Rule30RngSeed;
pub use rule30_compact::Rule30Compact;
pub use rule30_compact::Rule30CompactSeed;

verus! {

/// The only failure the engines can report: a state array was supplied whose
/// length is not the engine's fixed word count.  It is raised before any
/// mutation, so the engine's existing state is untouched on failure.
#[derive(Clone, Copy, PartialEq, Eq, Structural, Debug)]
pub enum EngineError {
    InvalidLength,
}

} // verus!

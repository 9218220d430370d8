//! Library for finding guesses for a Wordle-style puzzle.
//!
//! Given the partially known answer pattern, the letters ruled out, the
//! letters known to be present but not yet placed, and placements ruled out
//! for those letters, the library filters a dictionary of words and returns
//! every word consistent with all constraints.

pub mod casefold;
pub mod dictionary;
pub mod generator;
pub mod laws;
pub mod matcher;

pub use generator::generate_guesses;

use vstd::prelude::*;

verus! {

/// The ways a generation call can fail.
#[derive(Debug, Clone, Copy, PartialEq, Eq, Structural)]
pub enum GenerateError {
    /// The dictionary resource is not valid UTF-8.
    DecodeError,
    /// A letter entry of the request does not hold exactly one character.
    MalformedInput,
}

} // verus!

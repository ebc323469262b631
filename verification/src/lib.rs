//! Layout engine for randomized vocabulary drilling sheets.
//!
//! The heart of the crate is a repeating-shuffle line filler: it draws items
//! one by one from a working permutation of the input, reshuffling the
//! working list exactly when the cursor exhausts it, without regard to line
//! boundaries.  A single-shuffle table mode and a field selector with a
//! phonetic fallback round out the library.

pub mod filler;
pub mod perm;
pub mod shuffle;
pub mod vocab;

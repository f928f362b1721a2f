//! Marks that tell apart what was made apart.
use std::collections::hash_map::RandomState;
use std::hash::BuildHasher;

use vstd::prelude::*;

verus! {

/// `RandomState::new`: a state with keys of its own. Nothing is claimed of the keys: they are drawn
/// at random.
pub assume_specification[ RandomState::new ]() -> RandomState;

/// `BuildHasher::hash_one` on a `RandomState`, for a fixed value. Nothing is claimed of the number:
/// the keys of the state decide. Of two states that were made apart, `std` says that they are
/// unlikely to give the same.
#[verifier::external_body]
fn number_of(state: &RandomState) -> (number: u64) {
    state.hash_one(0u8)
}

/// A number that is drawn anew at every call, and with it stands for what it was drawn for. That two
/// numbers differ is a matter of chance, if an overwhelming one, and so is not stated.
pub(crate) fn new_mark() -> (mark: u64) {
    number_of(&RandomState::new())
}

} // verus!

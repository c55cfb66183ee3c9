//! Randomness for serial numbers and account seeds.
//!
//! The single non-deterministic input of the entity factory is the fresh
//! serial number (or seed) drawn per call.  Nothing is assumed of a drawn
//! value beyond reduction into the field, which the caller of the outside
//! generator performs itself.

use vstd::prelude::*;
use crate::field::{felt_new, felt_valid, Word};

verus! {

/// Relies on `rand::random`: one machine word drawn from the thread-local
/// generator.  Nothing is assumed of the value.
#[verifier::external_body]
fn random_u64() -> u64 {
    rand::random::<u64>()
}

/// Draws a fresh random word, reduced into the field.  Only validity is
/// promised: the elements are whatever the generator produced.
pub fn draw_word() -> (w: Word)
    ensures
        w.is_valid(),
{
    let w = Word {
        e0: felt_new(random_u64()),
        e1: felt_new(random_u64()),
        e2: felt_new(random_u64()),
        e3: felt_new(random_u64()),
    };
    assert(felt_valid(w.e0) && felt_valid(w.e1) && felt_valid(w.e2) && felt_valid(w.e3));
    w
}

} // verus!

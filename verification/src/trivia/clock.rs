//! The monotonic clock that the trivia game reads for its timers and
//! spinners. The wall-clock time that ages the cache is read by the caller
//! and passed in.
use vstd::prelude::*;
use std::time::Instant;

verus! {

#[verifier::external_type_specification]
#[verifier::external_body]
pub struct ExInstant(Instant);

/// `Instant::now()`: a reading of the monotonic clock. Nothing is stated of
/// the value; the game only carries it along for display.
#[verifier::external_body]
pub(crate) fn now_instant() -> Instant {
    Instant::now()
}

} // verus!

//! The randomness source for the random-masked-immediate instruction.

use vstd::prelude::*;

verus! {

/// Relies on rand::random: draws a value from the thread-local generator.
/// Nothing can be promised of a random value, so no clause constrains the
/// result; the interpreter's transition contract holds for every byte this
/// may return.
pub assume_specification<T>[ rand::random::<T> ]() -> (r: T)
    where
        rand::distributions::Standard: rand::distributions::Distribution<T>,
;

} // verus!

//! The two outside functions the interpreter calls: the clock and the
//! random-number generator. Neither result is determined by its arguments,
//! so neither contract promises anything of it.

use vstd::prelude::*;

verus! {

/// Relies on `time::precise_time_ns`: a reading of a high-resolution clock in
/// nanoseconds, used to pace the timers.
pub assume_specification[ time::precise_time_ns ]() -> u64;

/// Relies on `rand::random`: a value drawn from the thread-local generator,
/// used for the random-byte instruction.
pub assume_specification<T>[ rand::random::<T> ]() -> T
    where
        rand::distributions::Standard: rand::distributions::Distribution<T>,
;

} // verus!

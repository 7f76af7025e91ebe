//! Types that have a zero and stand for natural numbers.

use vstd::prelude::*;

verus! {

/// A type with a zero.
pub trait Zero<T> {
    /// The natural number that a value stands for.
    spec fn magnitude(value: T) -> nat;

    /// The value that stands for zero.
    fn zero() -> (z: T)
        ensures
            Self::magnitude(z) == 0,
    ;
}

impl Zero<u32> for u32 {
    open spec fn magnitude(value: u32) -> nat {
        value as nat
    }

    fn zero() -> (z: u32) {
        0
    }
}

} // verus!

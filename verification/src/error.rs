//! The ways in which an operation on exponents or dimensions can fail.

use vstd::prelude::*;

verus! {

/// Why an operation was rejected.
#[derive(Debug, PartialEq, Eq, Structural, Clone, Copy)]
pub enum QuantityError {
    /// Two quantities of different dimension were added or subtracted.
    DimensionMismatch,
    /// An intermediate or final value left the integer width of a fraction.
    Overflow,
    /// A fraction was given a zero denominator, or divided by zero.
    DivisionByZero,
}

} // verus!

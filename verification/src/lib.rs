//! Exact rational exponents and the dimension algebra of physical quantities.
//!
//! A [`Fraction`] is a rational number in lowest terms. A [`Dimension`] holds
//! one fraction for each of time, length and mass, and says which dimension
//! the sum, difference, product, quotient or square root of quantities has.
//! Every operation states its result over the mathematical models in
//! [`rational`] and [`dimension`].

pub mod dimension;
pub mod divisibility;
pub mod error;
pub mod fraction;
pub mod rational;
pub mod text;
pub mod zero;

pub use dimension::Dimension;
pub use error::QuantityError;
pub use fraction::Fraction;

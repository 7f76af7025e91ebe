//! Physical dimensions as exponents over time, length and mass, and the
//! algebra by which the dimension of a result follows from its operands.

use crate::error::QuantityError;
use crate::fraction::{difference_overflows, quotient_overflows, sum_overflows, Fraction};
use crate::rational::{lemma_half_plus_half, lemma_plus_then_minus, Rational};
use crate::text::ratio_text;
use vstd::prelude::*;
use vstd::string::StringExecFns;

verus! {

/// The seconds in a minute.
pub const SECONDS_IN_MINUTE: u32 = 60;

/// The seconds in an hour.
pub const SECONDS_IN_HOUR: u32 = 3600;

/// The meters in a kilometer.
pub const METERS_IN_KILOMETER: u32 = 1000;

/// The mathematical model of a dimension: a rational exponent for each of
/// time, length and mass.
pub struct Exponents {
    pub time: Rational,
    pub length: Rational,
    pub mass: Rational,
}

impl Exponents {
    /// The dimension with the given integer exponents.
    pub open spec fn of(time: int, length: int, mass: int) -> Exponents {
        Exponents {
            time: Rational::integer(time),
            length: Rational::integer(length),
            mass: Rational::integer(mass),
        }
    }

    /// Every exponent is in lowest terms.
    pub open spec fn is_reduced(self) -> bool {
        self.time.is_reduced() && self.length.is_reduced() && self.mass.is_reduced()
    }

    /// The dimension of a product: the exponents are added.
    pub open spec fn times(self, rhs: Exponents) -> Exponents {
        Exponents {
            time: self.time.plus(rhs.time),
            length: self.length.plus(rhs.length),
            mass: self.mass.plus(rhs.mass),
        }
    }

    /// The dimension of a quotient: the exponents are subtracted.
    pub open spec fn over(self, rhs: Exponents) -> Exponents {
        Exponents {
            time: self.time.minus(rhs.time),
            length: self.length.minus(rhs.length),
            mass: self.mass.minus(rhs.mass),
        }
    }

    /// The dimension of a square root: the exponents are halved.
    pub open spec fn root(self) -> Exponents {
        Exponents {
            time: self.time.divided_by(2),
            length: self.length.divided_by(2),
            mass: self.mass.divided_by(2),
        }
    }

    /// Multiplying by `rhs` leaves the width of a fraction in some exponent.
    pub open spec fn times_overflows(self, rhs: Exponents) -> bool {
        ||| sum_overflows(self.time, rhs.time)
        ||| sum_overflows(self.length, rhs.length)
        ||| sum_overflows(self.mass, rhs.mass)
    }

    /// Dividing by `rhs` leaves the width of a fraction in some exponent.
    pub open spec fn over_overflows(self, rhs: Exponents) -> bool {
        ||| difference_overflows(self.time, rhs.time)
        ||| difference_overflows(self.length, rhs.length)
        ||| difference_overflows(self.mass, rhs.mass)
    }

    /// Taking the square root leaves the width of a fraction in some exponent.
    pub open spec fn root_overflows(self) -> bool {
        ||| quotient_overflows(self.time, 2)
        ||| quotient_overflows(self.length, 2)
        ||| quotient_overflows(self.mass, 2)
    }

    /// The unit written after the value of a quantity of this dimension: the
    /// symbol of a recognised dimension, else every exponent spelled out.
    pub open spec fn unit_text(self) -> Seq<char> {
        if self == Exponents::of(0, 0, 0) {
            Seq::empty()
        } else if self == Exponents::of(1, 0, 0) {
            " s"@
        } else if self == Exponents::of(-1, 0, 0) {
            " Hz"@
        } else if self == Exponents::of(0, 1, 0) {
            " m"@
        } else if self == Exponents::of(0, 2, 0) {
            " m²"@
        } else if self == Exponents::of(0, 3, 0) {
            " m^3"@
        } else if self == Exponents::of(-1, 1, 0) {
            " m/s"@
        } else {
            " s^("@ + ratio_text(self.time) + ") m^("@ + ratio_text(self.length) + ") kg^("@
                + ratio_text(self.mass) + ")"@
        }
    }
}

/// The square of the square root of a dimension is the dimension.
pub proof fn lemma_root_squared(e: Exponents)
    requires
        e.is_reduced(),
    ensures
        e.root().times(e.root()) == e,
{
    lemma_half_plus_half(e.time);
    lemma_half_plus_half(e.length);
    lemma_half_plus_half(e.mass);
}

/// Dividing a product by one factor gives the other factor back.
pub proof fn lemma_times_then_over(a: Exponents, b: Exponents)
    requires
        a.is_reduced(),
        b.is_reduced(),
    ensures
        a.times(b).over(b) == a,
{
    lemma_plus_then_minus(a.time, b.time);
    lemma_plus_then_minus(a.length, b.length);
    lemma_plus_then_minus(a.mass, b.mass);
}

/// A physical dimension: the exponents of time, length and mass.
#[derive(Debug, PartialEq, Eq, Structural, Clone, Copy)]
pub struct Dimension {
    pub time: Fraction,
    pub length: Fraction,
    pub mass: Fraction,
}

impl View for Dimension {
    type V = Exponents;

    open spec fn view(&self) -> Exponents {
        Exponents { time: self.time@, length: self.length@, mass: self.mass@ }
    }
}

impl Dimension {
    /// The dimension with the given exponents.
    pub fn new(time: Fraction, length: Fraction, mass: Fraction) -> (d: Dimension)
        ensures
            d@ == (Exponents { time: time@, length: length@, mass: mass@ }),
            d@.is_reduced(),
    {
        proof {
            use_type_invariant(&time);
            use_type_invariant(&length);
            use_type_invariant(&mass);
        }
        Dimension { time, length, mass }
    }

    /// The dimension with the given integer exponents.
    pub fn of(time: i32, length: i32, mass: i32) -> (d: Dimension)
        ensures
            d@ == Exponents::of(time as int, length as int, mass as int),
            d@.is_reduced(),
    {
        Dimension {
            time: Fraction::from_integer(time),
            length: Fraction::from_integer(length),
            mass: Fraction::from_integer(mass),
        }
    }

    /// The dimension of a plain number.
    pub fn unitless() -> (d: Dimension)
        ensures
            d@ == Exponents::of(0, 0, 0),
    {
        Dimension::of(0, 0, 0)
    }

    /// The dimension of a time.
    pub fn duration() -> (d: Dimension)
        ensures
            d@ == Exponents::of(1, 0, 0),
    {
        Dimension::of(1, 0, 0)
    }

    /// The dimension of a frequency.
    pub fn frequency() -> (d: Dimension)
        ensures
            d@ == Exponents::of(-1, 0, 0),
    {
        Dimension::of(-1, 0, 0)
    }

    /// The dimension of a length.
    pub fn length() -> (d: Dimension)
        ensures
            d@ == Exponents::of(0, 1, 0),
    {
        Dimension::of(0, 1, 0)
    }

    /// The dimension of an area.
    pub fn area() -> (d: Dimension)
        ensures
            d@ == Exponents::of(0, 2, 0),
    {
        Dimension::of(0, 2, 0)
    }

    /// The dimension of a volume.
    pub fn volume() -> (d: Dimension)
        ensures
            d@ == Exponents::of(0, 3, 0),
    {
        Dimension::of(0, 3, 0)
    }

    /// The dimension of a mass.
    pub fn mass() -> (d: Dimension)
        ensures
            d@ == Exponents::of(0, 0, 1),
    {
        Dimension::of(0, 0, 1)
    }

    /// The dimension of a speed.
    pub fn speed() -> (d: Dimension)
        ensures
            d@ == Exponents::of(-1, 1, 0),
    {
        Dimension::of(-1, 1, 0)
    }

    /// Whether the two dimensions have the same exponents.
    pub fn same_as(&self, other: &Dimension) -> (same: bool)
        ensures
            same == (self@ == other@),
    {
        self.time.equals(&other.time) && self.length.equals(&other.length) && self.mass.equals(
            &other.mass,
        )
    }

    /// The dimension of the sum of two quantities, which must be of one
    /// dimension.
    pub fn sum(self, rhs: Dimension) -> (d: Dimension)
        requires
            self@ == rhs@,
        ensures
            d@ == self@,
    {
        self
    }

    /// The dimension of the difference of two quantities, which must be of
    /// one dimension.
    pub fn difference(self, rhs: Dimension) -> (d: Dimension)
        requires
            self@ == rhs@,
        ensures
            d@ == self@,
    {
        self
    }

    /// The dimension of the sum of two quantities, or `DimensionMismatch`
    /// where they differ in dimension.
    pub fn try_sum(self, rhs: Dimension) -> (r: Result<Dimension, QuantityError>)
        ensures
            match r {
                Ok(d) => self@ == rhs@ && d@ == self@,
                Err(e) => self@ != rhs@ && e == QuantityError::DimensionMismatch,
            },
    {
        if self.same_as(&rhs) {
            Ok(self.sum(rhs))
        } else {
            Err(QuantityError::DimensionMismatch)
        }
    }

    /// The dimension of the difference of two quantities, or
    /// `DimensionMismatch` where they differ in dimension.
    pub fn try_difference(self, rhs: Dimension) -> (r: Result<Dimension, QuantityError>)
        ensures
            match r {
                Ok(d) => self@ == rhs@ && d@ == self@,
                Err(e) => self@ != rhs@ && e == QuantityError::DimensionMismatch,
            },
    {
        if self.same_as(&rhs) {
            Ok(self.difference(rhs))
        } else {
            Err(QuantityError::DimensionMismatch)
        }
    }

    /// The dimension of the product of two quantities: each exponent is the
    /// sum of the operands' exponents.
    pub fn product(self, rhs: Dimension) -> (r: Result<Dimension, QuantityError>)
        ensures
            match r {
                Ok(d) => !self@.times_overflows(rhs@) && d@ == self@.times(rhs@) && d@.is_reduced(),
                Err(e) => self@.times_overflows(rhs@) && e == QuantityError::Overflow,
            },
    {
        let time = match self.time.try_add(rhs.time) {
            Ok(sum) => sum,
            Err(e) => { return Err(e); },
        };
        let length = match self.length.try_add(rhs.length) {
            Ok(sum) => sum,
            Err(e) => { return Err(e); },
        };
        let mass = match self.mass.try_add(rhs.mass) {
            Ok(sum) => sum,
            Err(e) => { return Err(e); },
        };
        Ok(Dimension { time, length, mass })
    }

    /// The dimension of the quotient of two quantities: each exponent is the
    /// difference of the operands' exponents.
    pub fn quotient(self, rhs: Dimension) -> (r: Result<Dimension, QuantityError>)
        ensures
            match r {
                Ok(d) => !self@.over_overflows(rhs@) && d@ == self@.over(rhs@) && d@.is_reduced(),
                Err(e) => self@.over_overflows(rhs@) && e == QuantityError::Overflow,
            },
    {
        let time = match self.time.try_sub(rhs.time) {
            Ok(difference) => difference,
            Err(e) => { return Err(e); },
        };
        let length = match self.length.try_sub(rhs.length) {
            Ok(difference) => difference,
            Err(e) => { return Err(e); },
        };
        let mass = match self.mass.try_sub(rhs.mass) {
            Ok(difference) => difference,
            Err(e) => { return Err(e); },
        };
        Ok(Dimension { time, length, mass })
    }

    /// The dimension of the square root of a quantity: each exponent is
    /// halved.
    pub fn sqrt(self) -> (r: Result<Dimension, QuantityError>)
        ensures
            match r {
                Ok(d) => !self@.root_overflows() && d@ == self@.root() && d@.is_reduced(),
                Err(e) => self@.root_overflows() && e == QuantityError::Overflow,
            },
    {
        let time = match self.time.try_div(2) {
            Ok(half) => half,
            Err(e) => { return Err(e); },
        };
        let length = match self.length.try_div(2) {
            Ok(half) => half,
            Err(e) => { return Err(e); },
        };
        let mass = match self.mass.try_div(2) {
            Ok(half) => half,
            Err(e) => { return Err(e); },
        };
        Ok(Dimension { time, length, mass })
    }

    /// The text of a quantity of this dimension whose value reads `value`:
    /// the value, then the symbol of a recognised dimension or else every
    /// exponent spelled out.
    pub fn display(&self, value: &str) -> (text: String)
        ensures
            text@ == value@ + self@.unit_text(),
    {
        let mut text = String::from_str(value);
        if self.same_as(&Dimension::unitless()) {
            assert(text@ =~= value@ + self@.unit_text());
        } else if self.same_as(&Dimension::duration()) {
            text.append(" s");
        } else if self.same_as(&Dimension::frequency()) {
            text.append(" Hz");
        } else if self.same_as(&Dimension::length()) {
            text.append(" m");
        } else if self.same_as(&Dimension::area()) {
            text.append(" m²");
        } else if self.same_as(&Dimension::volume()) {
            text.append(" m^3");
        } else if self.same_as(&Dimension::speed()) {
            text.append(" m/s");
        } else {
            text.append(" s^(");
            self.time.append_to(&mut text);
            text.append(") m^(");
            self.length.append_to(&mut text);
            text.append(") kg^(");
            self.mass.append_to(&mut text);
            text.append(")");
            assert(text@ =~= value@ + self@.unit_text());
        }
        text
    }
}

} // verus!

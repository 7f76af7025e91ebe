//! Exact rational numbers in lowest terms, over a 32-bit numerator and
//! denominator.

use crate::divisibility::{
    abs, lemma_abs_of_quotient, lemma_divides_exact, lemma_gcd_divides, lemma_gcd_positive,
    lemma_gcd_symmetric, lemma_multiple_divides, spec_gcd,
};
use crate::error::QuantityError;
use crate::rational::{
    lemma_integer_is_reduced, lemma_plus_associative, lemma_plus_commutative,
    lemma_reduced_is_canonical, lemma_reduced_respects_value, lemma_reduced_unique, Rational,
};
use crate::text::{append_integer, append_natural, ratio_text};
use crate::zero::Zero;
use std::ops::{Add, Rem};
use vstd::prelude::*;
use vstd::std_specs::cmp::PartialEqSpec;
use vstd::std_specs::ops::RemSpec;
use vstd::string::StringExecFns;

verus! {

/// Computes the greatest common divisor of `x` and `y`.
pub fn gcd(x: u32, y: u32) -> (g: u32)
    ensures
        g as nat == spec_gcd(x as nat, y as nat),
{
    let mut a: u32 = x;
    let mut b: u32 = y;
    while b != 0
        invariant
            spec_gcd(a as nat, b as nat) == spec_gcd(x as nat, y as nat),
        decreases b,
    {
        let t: u32 = b;
        b = a % b;
        a = t;
    }
    a
}

/// The operators `%` and `==` of `T` act on the natural numbers that its
/// values stand for: `%` is defined for every non-zero divisor and yields the
/// remainder, and `==` holds of two values exactly when they stand for the
/// same number.
pub open spec fn euclidean<T: PartialEq + Rem<Output = T> + Zero<T> + Copy>() -> bool {
    &&& T::obeys_eq_spec()
    &&& T::obeys_rem_spec()
    &&& forall|a: T, b: T| #[trigger] a.eq_spec(&b) <==> T::magnitude(a) == T::magnitude(b)
    &&& forall|a: T, b: T| T::magnitude(b) != 0 ==> #[trigger] a.rem_req(b)
    &&& forall|a: T, b: T|
        T::magnitude(b) != 0 ==> T::magnitude(#[trigger] a.rem_spec(b)) == T::magnitude(a)
            % T::magnitude(b)
}

/// Computes the greatest common divisor of `x` and `y` in any type whose
/// values stand for natural numbers.
pub fn gcd_generic<T: PartialEq + Rem<Output = T> + Zero<T> + Copy>(x: T, y: T) -> (g: T)
    requires
        euclidean::<T>(),
    ensures
        T::magnitude(g) == spec_gcd(T::magnitude(x), T::magnitude(y)),
{
    let mut a = x;
    let mut b = y;
    while b != T::zero()
        invariant
            euclidean::<T>(),
            spec_gcd(T::magnitude(a), T::magnitude(b)) == spec_gcd(
                T::magnitude(x),
                T::magnitude(y),
            ),
        decreases T::magnitude(b),
    {
        let t = b;
        b = a % b;
        a = t;
    }
    a
}

/// An exact rational number, always held in lowest terms with a positive
/// denominator.
#[derive(Debug, PartialEq, Eq, Structural, Clone, Copy)]
pub struct Fraction {
    numerator: i32,
    denominator: u32,
}

impl View for Fraction {
    type V = Rational;

    closed spec fn view(&self) -> Rational {
        Rational { num: self.numerator as int, den: self.denominator as int }
    }
}

/// The integer `n` fits the numerator of a fraction.
pub open spec fn fits_numerator(n: int) -> bool {
    i32::MIN <= n <= i32::MAX
}

/// The least common denominator of two ratios with positive denominators.
pub open spec fn common_denominator(a: Rational, b: Rational) -> int {
    a.den * b.den / (spec_gcd(abs(a.den), abs(b.den)) as int)
}

/// The numerators of `a` and `b` once both are brought to their least common
/// denominator.
pub open spec fn scaled_numerators(a: Rational, b: Rational) -> (int, int) {
    let l = common_denominator(a, b);
    (a.num * (l / a.den), b.num * (l / b.den))
}

/// Adding `a` and `b` leaves the width of a fraction: the product of the
/// denominators does not fit a denominator, or a numerator scaled to the
/// least common denominator, or the sum of the two, does not fit a numerator.
pub open spec fn sum_overflows(a: Rational, b: Rational) -> bool {
    let (x, y) = scaled_numerators(a, b);
    ||| a.den * b.den > u32::MAX
    ||| !fits_numerator(x)
    ||| !fits_numerator(y)
    ||| !fits_numerator(x + y)
}

/// Subtracting `b` from `a` leaves the width of a fraction: as for a sum,
/// with the difference of the scaled numerators in place of their sum.
pub open spec fn difference_overflows(a: Rational, b: Rational) -> bool {
    let (x, y) = scaled_numerators(a, b);
    ||| a.den * b.den > u32::MAX
    ||| !fits_numerator(x)
    ||| !fits_numerator(y)
    ||| !fits_numerator(x - y)
}

/// Dividing `a` by `k` leaves the width of a fraction: the denominator
/// multiplied by `k` does not fit a denominator.
pub open spec fn quotient_overflows(a: Rational, k: int) -> bool {
    a.den * k > u32::MAX
}

/// Addition fails for both orders of its operands or for neither.
pub proof fn lemma_sum_overflows_symmetric(a: Rational, b: Rational)
    ensures
        sum_overflows(a, b) == sum_overflows(b, a),
{
    lemma_gcd_symmetric(abs(a.den), abs(b.den));
    assert(a.den * b.den == b.den * a.den) by (nonlinear_arith);
}

/// The least common denominator `l` of `d1` and `d2` is a multiple of both,
/// by the cofactors `l / d1` and `l / d2`.
proof fn lemma_common_denominator(d1: int, d2: int)
    requires
        d1 > 0,
        d2 > 0,
    ensures
        ({
            let g = spec_gcd(abs(d1), abs(d2)) as int;
            let l = d1 * d2 / g;
            &&& g > 0
            &&& l * g == d1 * d2
            &&& (l / d1) * g == d2
            &&& (l / d2) * g == d1
            &&& 0 < l / d1 <= l
            &&& 0 < l / d2 <= l
            &&& 0 < l <= d1 * d2
        }),
{
    let g = spec_gcd(abs(d1), abs(d2)) as int;
    let l = d1 * d2 / g;
    lemma_gcd_positive(abs(d1), abs(d2));
    lemma_gcd_divides(abs(d1), abs(d2));
    lemma_divides_exact(g, d1);
    lemma_divides_exact(g, d2);
    let q1 = d1 / g;
    let q2 = d2 / g;
    assert(d1 * d2 == g * (q1 * d2)) by (nonlinear_arith)
        requires
            d1 == g * q1,
    ;
    lemma_multiple_divides(g, q1 * d2);
    assert(l == q1 * d2);
    lemma_multiple_divides(d2, q1);
    assert(l / d2 == q1);
    assert(l == d1 * q2) by (nonlinear_arith)
        requires
            l == q1 * d2,
            d1 == q1 * g,
            d2 == q2 * g,
    ;
    lemma_multiple_divides(d1, q2);
    assert(l / d1 == q2);
    assert(q1 > 0 && q2 > 0 && q1 <= l && q2 <= l && l <= d1 * d2 && l * g == d1 * d2)
        by (nonlinear_arith)
        requires
            d1 == q1 * g,
            d2 == q2 * g,
            l == q1 * d2,
            l == d1 * q2,
            d1 > 0,
            d2 > 0,
            g > 0,
    ;
}

/// Combining numerators over the least common denominator denotes the same
/// number as combining them over the product of the denominators.
proof fn lemma_combination_value(a: Rational, b: Rational, sign: int)
    requires
        a.den > 0,
        b.den > 0,
    ensures
        ({
            let (x, y) = scaled_numerators(a, b);
            Rational::reduced(x + sign * y, common_denominator(a, b)) == Rational::reduced(
                a.num * b.den + sign * (b.num * a.den),
                a.den * b.den,
            )
        }),
{
    let g = spec_gcd(abs(a.den), abs(b.den)) as int;
    let l = common_denominator(a, b);
    let k1 = l / a.den;
    let k2 = l / b.den;
    lemma_common_denominator(a.den, b.den);
    let x = a.num * k1;
    let y = b.num * k2;
    let n = x + sign * y;
    let big = a.num * b.den + sign * (b.num * a.den);
    assert(x * g == a.num * (k1 * g)) by (nonlinear_arith)
        requires
            x == a.num * k1,
    ;
    assert(y * g == b.num * (k2 * g)) by (nonlinear_arith)
        requires
            y == b.num * k2,
    ;
    assert((sign * y) * g == sign * (y * g)) by (nonlinear_arith);
    assert((x + sign * y) * g == x * g + (sign * y) * g) by (nonlinear_arith);
    assert(big == n * g);
    assert(n * (l * g) == (n * g) * l) by (nonlinear_arith);
    lemma_reduced_respects_value(n, l, big, a.den * b.den);
}

impl Fraction {
    /// Every fraction is in lowest terms.
    #[verifier::type_invariant]
    pub open spec fn is_reduced(&self) -> bool {
        self@.is_reduced()
    }

    /// The fraction that has the ratio `r` as its view, where `r` fits.
    pub closed spec fn with_view(r: Rational) -> Fraction {
        Fraction { numerator: r.num as i32, denominator: r.den as u32 }
    }

    /// A fraction is determined by its view.
    pub proof fn lemma_with_view(a: Fraction)
        ensures
            Fraction::with_view(a@) == a,
    {
    }

    /// Addition is commutative: neither the sum nor whether it fits
    /// depends on the order of the operands.
    pub proof fn lemma_add_commutative(a: Fraction, b: Fraction)
        ensures
            a@.plus(b@) == b@.plus(a@),
            sum_overflows(a@, b@) == sum_overflows(b@, a@),
    {
        lemma_plus_commutative(a@, b@);
        lemma_sum_overflows_symmetric(a@, b@);
    }

    /// Addition is associative: where no addition on the way overflows,
    /// both groupings of three fractions give the same sum.
    pub proof fn lemma_add_associative(a: Fraction, b: Fraction, c: Fraction)
        requires
            a.is_reduced(),
            b.is_reduced(),
            c.is_reduced(),
        ensures
            a@.plus(b@).plus(c@) == a@.plus(b@.plus(c@)),
    {
        lemma_plus_associative(a@, b@, c@);
    }

    /// Fractions are the same exactly when they denote the same ratio.
    pub proof fn lemma_view_injective(a: Fraction, b: Fraction)
        ensures
            a@ == b@ <==> a == b,
    {
    }

    /// The view of a fraction fits its fields.
    pub proof fn lemma_view_bounds(a: Fraction)
        ensures
            fits_numerator(a@.num),
            0 <= a@.den <= u32::MAX,
    {
    }

    /// The numerator, which carries the sign.
    pub fn numerator(&self) -> (n: i32)
        ensures
            n == self@.num,
    {
        self.numerator
    }

    /// The denominator, which is positive.
    pub fn denominator(&self) -> (d: u32)
        ensures
            d == self@.den,
            d > 0,
    {
        proof {
            use_type_invariant(self);
        }
        self.denominator
    }

    /// The fraction `numerator / denominator` in lowest terms, or
    /// `DivisionByZero` for a zero denominator. Reduction itself never leaves
    /// the width of a fraction.
    pub fn reduce(numerator: i32, denominator: u32) -> (r: Result<Fraction, QuantityError>)
        ensures
            match r {
                Ok(f) => denominator != 0 && f@ == Rational::reduced(
                    numerator as int,
                    denominator as int,
                ) && f@.is_reduced(),
                Err(e) => denominator == 0 && e == QuantityError::DivisionByZero,
            },
    {
        if denominator == 0 {
            return Err(QuantityError::DivisionByZero);
        }
        let magnitude: u32 = if numerator < 0 {
            (-(numerator as i64)) as u32
        } else {
            numerator as u32
        };
        let g: u32 = gcd(magnitude, denominator);
        proof {
            let n = numerator as int;
            let d = denominator as int;
            assert(magnitude as nat == abs(n));
            assert(denominator as nat == abs(d));
            lemma_gcd_positive(abs(n), abs(d));
            lemma_gcd_divides(abs(n), abs(d));
            lemma_abs_of_quotient(n, g as int);
            lemma_reduced_is_canonical(n, d);
        }
        let q: u32 = magnitude / g;
        let reduced_numerator: i64 = if numerator < 0 {
            -(q as i64)
        } else {
            q as i64
        };
        Ok(Fraction { numerator: reduced_numerator as i32, denominator: denominator / g })
    }

    /// The fraction `numerator / denominator` in lowest terms, for a
    /// non-zero denominator.
    pub fn new(numerator: i32, denominator: u32) -> (r: Fraction)
        requires
            denominator != 0,
        ensures
            r@ == Rational::reduced(numerator as int, denominator as int),
            r@.is_reduced(),
    {
        Fraction::reduce(numerator, denominator).unwrap()
    }

    /// The integer `value` as a fraction.
    pub fn from_integer(value: i32) -> (r: Fraction)
        ensures
            r@ == Rational::integer(value as int),
            r@.is_reduced(),
    {
        proof {
            lemma_integer_is_reduced(value as int);
        }
        Fraction { numerator: value, denominator: 1 }
    }

    /// The fraction `0/1`.
    pub fn zero() -> (r: Fraction)
        ensures
            r@ == Rational::integer(0),
    {
        Fraction::from_integer(0)
    }

    /// The fraction `1/1`.
    pub fn one() -> (r: Fraction)
        ensures
            r@ == Rational::integer(1),
    {
        Fraction::from_integer(1)
    }

    /// The fraction `2/1`.
    pub fn two() -> (r: Fraction)
        ensures
            r@ == Rational::integer(2),
    {
        Fraction::from_integer(2)
    }

    /// The fraction `3/1`.
    pub fn three() -> (r: Fraction)
        ensures
            r@ == Rational::integer(3),
    {
        Fraction::from_integer(3)
    }

    /// The fraction `-1/1`.
    pub fn minus_one() -> (r: Fraction)
        ensures
            r@ == Rational::integer(-1),
    {
        Fraction::from_integer(-1)
    }

    /// Appends the text of the fraction to `text`: the numerator alone for
    /// an integer, else numerator and denominator with a slash between them.
    pub fn append_to(&self, text: &mut String)
        ensures
            final(text)@ == old(text)@ + ratio_text(self@),
    {
        append_integer(text, self.numerator);
        if self.denominator != 1 {
            proof {
                reveal_strlit("/");
            }
            text.append("/");
            append_natural(text, self.denominator);
            assert(text@ =~= old(text)@ + ratio_text(self@));
        }
    }

    /// The text of the fraction: the numerator alone for an integer, else
    /// numerator and denominator with a slash between them.
    pub fn to_text(&self) -> (text: String)
        ensures
            text@ == ratio_text(self@),
    {
        let mut text = String::new();
        self.append_to(&mut text);
        assert(text@ =~= ratio_text(self@));
        text
    }

    /// Whether the two fractions denote the same rational number.
    pub fn equals(&self, other: &Fraction) -> (same: bool)
        ensures
            same == (self@ == other@),
            same == self@.same_value(other@),
    {
        proof {
            use_type_invariant(self);
            use_type_invariant(other);
            if self@.same_value(other@) {
                lemma_reduced_unique(self@, other@);
            }
        }
        self.numerator == other.numerator && self.denominator == other.denominator
    }

    /// The shared work of addition and subtraction: both operands are scaled
    /// to the least common denominator, the numerators combined and the
    /// result reduced.
    fn combine(self, rhs: Fraction, subtract: bool) -> (r: Result<Fraction, QuantityError>)
        ensures
            ({
                let overflows = if subtract {
                    difference_overflows(self@, rhs@)
                } else {
                    sum_overflows(self@, rhs@)
                };
                let exact = if subtract {
                    self@.minus(rhs@)
                } else {
                    self@.plus(rhs@)
                };
                match r {
                    Ok(f) => !overflows && f@ == exact && f@.is_reduced(),
                    Err(e) => overflows && e == QuantityError::Overflow,
                }
            }),
    {
        proof {
            use_type_invariant(&self);
            use_type_invariant(&rhs);
            lemma_common_denominator(self@.den, rhs@.den);
            lemma_combination_value(self@, rhs@, if subtract { -1 } else { 1 });
        }
        let g: u32 = gcd(self.denominator, rhs.denominator);
        assert(self.denominator * rhs.denominator <= 0xFFFF_FFFF * 0xFFFF_FFFF)
            by (nonlinear_arith)
            requires
                0 <= self.denominator <= 0xFFFF_FFFF,
                0 <= rhs.denominator <= 0xFFFF_FFFF,
        ;
        let product: u64 = self.denominator as u64 * rhs.denominator as u64;
        if product > u32::MAX as u64 {
            return Err(QuantityError::Overflow);
        }
        let l: u32 = (product / g as u64) as u32;
        let k1: u32 = l / self.denominator;
        let k2: u32 = l / rhs.denominator;
        assert(l == common_denominator(self@, rhs@));
        assert(-0x8000_0000 * 0xFFFF_FFFF <= self.numerator * k1 <= 0x8000_0000 * 0xFFFF_FFFF)
            by (nonlinear_arith)
            requires
                -0x8000_0000 <= self.numerator <= 0x8000_0000,
                0 <= k1 <= 0xFFFF_FFFF,
        ;
        assert(-0x8000_0000 * 0xFFFF_FFFF <= rhs.numerator * k2 <= 0x8000_0000 * 0xFFFF_FFFF)
            by (nonlinear_arith)
            requires
                -0x8000_0000 <= rhs.numerator <= 0x8000_0000,
                0 <= k2 <= 0xFFFF_FFFF,
        ;
        let x: i64 = self.numerator as i64 * k1 as i64;
        let y: i64 = rhs.numerator as i64 * k2 as i64;
        if x < i32::MIN as i64 || x > i32::MAX as i64 || y < i32::MIN as i64 || y > i32::MAX as i64 {
            return Err(QuantityError::Overflow);
        }
        let n: i64 = if subtract {
            x - y
        } else {
            x + y
        };
        if n < i32::MIN as i64 || n > i32::MAX as i64 {
            return Err(QuantityError::Overflow);
        }
        Ok(Fraction::new(n as i32, l))
    }

    /// The sum of two fractions, or `Overflow` where computing it over the
    /// least common denominator leaves the width of a fraction.
    pub fn try_add(self, rhs: Fraction) -> (r: Result<Fraction, QuantityError>)
        ensures
            match r {
                Ok(sum) => !sum_overflows(self@, rhs@) && sum@ == self@.plus(rhs@)
                    && sum@.is_reduced(),
                Err(e) => sum_overflows(self@, rhs@) && e == QuantityError::Overflow,
            },
    {
        self.combine(rhs, false)
    }

    /// The difference of two fractions, or `Overflow` where computing it over
    /// the least common denominator leaves the width of a fraction.
    pub fn try_sub(self, rhs: Fraction) -> (r: Result<Fraction, QuantityError>)
        ensures
            match r {
                Ok(difference) => !difference_overflows(self@, rhs@) && difference@
                    == self@.minus(rhs@) && difference@.is_reduced(),
                Err(e) => difference_overflows(self@, rhs@) && e == QuantityError::Overflow,
            },
    {
        self.combine(rhs, true)
    }

    /// The fraction divided by the integer `div`: `DivisionByZero` for a zero
    /// `div`, `Overflow` where the new denominator leaves the width of a
    /// fraction.
    pub fn try_div(self, div: u32) -> (r: Result<Fraction, QuantityError>)
        ensures
            match r {
                Ok(quotient) => div != 0 && !quotient_overflows(self@, div as int) && quotient@
                    == self@.divided_by(div as int) && quotient@.is_reduced(),
                Err(e) => if div == 0 {
                    e == QuantityError::DivisionByZero
                } else {
                    quotient_overflows(self@, div as int) && e == QuantityError::Overflow
                },
            },
    {
        proof {
            use_type_invariant(&self);
        }
        if div == 0 {
            return Err(QuantityError::DivisionByZero);
        }
        assert(self.denominator * div <= 0xFFFF_FFFF * 0xFFFF_FFFF) by (nonlinear_arith)
            requires
                0 <= self.denominator <= 0xFFFF_FFFF,
                0 <= div <= 0xFFFF_FFFF,
        ;
        let product: u64 = self.denominator as u64 * div as u64;
        if product > u32::MAX as u64 {
            return Err(QuantityError::Overflow);
        }
        assert(product > 0) by (nonlinear_arith)
            requires
                product == self.denominator * div,
                self.denominator > 0,
                div > 0,
        ;
        Ok(Fraction::new(self.numerator, product as u32))
    }

    /// The sum of two fractions whose sum fits.
    pub fn const_add(self, rhs: Fraction) -> (sum: Fraction)
        requires
            !sum_overflows(self@, rhs@),
        ensures
            sum@ == self@.plus(rhs@),
            sum@.is_reduced(),
    {
        self.try_add(rhs).unwrap()
    }

    /// The difference of two fractions whose difference fits.
    pub fn const_sub(self, rhs: Fraction) -> (difference: Fraction)
        requires
            !difference_overflows(self@, rhs@),
        ensures
            difference@ == self@.minus(rhs@),
            difference@.is_reduced(),
    {
        self.try_sub(rhs).unwrap()
    }

    /// The fraction divided by a positive integer, where the quotient fits.
    pub fn const_div(self, div: u32) -> (quotient: Fraction)
        requires
            div != 0,
            !quotient_overflows(self@, div as int),
        ensures
            quotient@ == self@.divided_by(div as int),
            quotient@.is_reduced(),
    {
        self.try_div(div).unwrap()
    }
}

impl vstd::std_specs::convert::FromSpecImpl<i32> for Fraction {
    open spec fn obeys_from_spec() -> bool {
        true
    }

    open spec fn from_spec(value: i32) -> Fraction {
        Fraction::with_view(Rational::integer(value as int))
    }
}

impl From<i32> for Fraction {
    /// The integer `value` as a fraction.
    fn from(value: i32) -> (r: Fraction)
        ensures
            r@ == Rational::integer(value as int),
    {
        Fraction::from_integer(value)
    }
}

impl vstd::std_specs::ops::AddSpecImpl for Fraction {
    open spec fn obeys_add_spec() -> bool {
        true
    }

    open spec fn add_req(self, rhs: Fraction) -> bool {
        !sum_overflows(self@, rhs@)
    }

    open spec fn add_spec(self, rhs: Fraction) -> Fraction {
        Fraction::with_view(self@.plus(rhs@))
    }
}

impl Add for Fraction {
    type Output = Fraction;

    /// The sum of two fractions whose sum fits.
    fn add(self, rhs: Fraction) -> (sum: Fraction)
        ensures
            sum@ == self@.plus(rhs@),
    {
        self.const_add(rhs)
    }
}

} // verus!

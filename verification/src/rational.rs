//! The mathematical model of a fraction: a pair of unbounded integers, with
//! the canonical (lowest-terms) form of a ratio and the arithmetic on it.

use crate::divisibility::{
    abs, lemma_abs_of_quotient, lemma_coprime_divides_product, lemma_divisor_bound,
    lemma_gcd_divides, lemma_gcd_of_quotients, lemma_gcd_positive, lemma_gcd_symmetric,
    lemma_gcd_with_one, lemma_multiple_divides, spec_gcd,
};
use vstd::prelude::*;

verus! {

/// A ratio `num / den` of unbounded integers.
pub struct Rational {
    pub num: int,
    pub den: int,
}

impl Rational {
    /// The integer `n` as a ratio.
    pub open spec fn integer(n: int) -> Rational {
        Rational { num: n, den: 1 }
    }

    /// Lowest terms: the denominator is positive and shares no factor with the numerator.
    pub open spec fn is_reduced(self) -> bool {
        self.den > 0 && spec_gcd(abs(self.num), abs(self.den)) == 1
    }

    /// The two ratios denote the same number (both denominators non-zero).
    pub open spec fn same_value(self, other: Rational) -> bool {
        self.num * other.den == other.num * self.den
    }

    /// The lowest-terms form of `n / d`, for `d != 0`.
    pub open spec fn reduced(n: int, d: int) -> Rational {
        let g = spec_gcd(abs(n), abs(d)) as int;
        if d < 0 {
            Rational { num: (-n) / g, den: (-d) / g }
        } else {
            Rational { num: n / g, den: d / g }
        }
    }

    /// The sum, in lowest terms.
    pub open spec fn plus(self, rhs: Rational) -> Rational {
        Rational::reduced(self.num * rhs.den + rhs.num * self.den, self.den * rhs.den)
    }

    /// The difference, in lowest terms.
    pub open spec fn minus(self, rhs: Rational) -> Rational {
        Rational::reduced(self.num * rhs.den - rhs.num * self.den, self.den * rhs.den)
    }

    /// The quotient by the integer `k`, in lowest terms, for `k != 0`.
    pub open spec fn divided_by(self, k: int) -> Rational {
        Rational::reduced(self.num, self.den * k)
    }
}

/// Products of four factors may be regrouped.
proof fn lemma_regroup(a: int, b: int, c: int, d: int)
    by (nonlinear_arith)
    ensures
        (a * b) * (c * d) == (a * c) * (b * d),
        (a * b) * (c * d) == (a * d) * (b * c),
{
}

/// Equality of ratios is transitive through a ratio with a non-zero denominator:
/// if `p/q == n/d`, `u/v == m/e` and `n/d == m/e`, then `p/q == u/v`.
proof fn lemma_cross_cancel(p: int, q: int, n: int, d: int, u: int, v: int, m: int, e: int)
    requires
        d != 0,
        e != 0,
        p * d == n * q,
        u * e == m * v,
        n * e == m * d,
    ensures
        p * v == u * q,
{
    let x = p * v;
    let y = u * q;
    lemma_regroup(p, v, d, e);
    lemma_regroup(n, q, v, e);
    assert(x * (d * e) == (n * e) * (q * v));
    lemma_regroup(u, q, d, e);
    lemma_regroup(m, v, q, d);
    assert(y * (d * e) == (m * d) * (v * q));
    assert(q * v == v * q) by (nonlinear_arith);
    assert(x == y) by (nonlinear_arith)
        requires
            x * (d * e) == y * (d * e),
            d != 0,
            e != 0,
    ;
}

/// Adding `cn/cd` to two equal ratios `p/q == n/d` gives equal ratios.
proof fn lemma_cross_sum(p: int, q: int, n: int, d: int, cn: int, cd: int)
    requires
        p * d == n * q,
    ensures
        (p * cd + cn * q) * (d * cd) == (n * cd + cn * d) * (q * cd),
{
    let a = p * cd;
    let b = cn * q;
    let c = d * cd;
    assert((a + b) * c == a * c + b * c) by (nonlinear_arith);
    let a2 = n * cd;
    let b2 = cn * d;
    let c2 = q * cd;
    assert((a2 + b2) * c2 == a2 * c2 + b2 * c2) by (nonlinear_arith);
    lemma_regroup(p, cd, d, cd);
    lemma_regroup(n, cd, q, cd);
    assert(a * c == a2 * c2);
    lemma_regroup(cn, q, d, cd);
    assert(b * c == b2 * c2);
}

/// The canonical form of a ratio with a positive denominator is in lowest
/// terms and denotes the same number.
proof fn lemma_reduced_positive(n: int, d: int)
    requires
        d > 0,
    ensures
        Rational::reduced(n, d).is_reduced(),
        Rational::reduced(n, d).same_value(Rational { num: n, den: d }),
{
    let g = spec_gcd(abs(n), abs(d));
    let r = Rational::reduced(n, d);
    lemma_gcd_positive(abs(n), abs(d));
    lemma_gcd_divides(abs(n), abs(d));
    lemma_abs_of_quotient(n, g as int);
    lemma_abs_of_quotient(d, g as int);
    lemma_gcd_of_quotients(abs(n), abs(d));
    assert(r.den > 0) by (nonlinear_arith)
        requires
            d == r.den * g,
            d > 0,
            g > 0,
    ;
    assert(r.num * d == n * r.den) by (nonlinear_arith)
        requires
            n == r.num * g,
            d == r.den * g,
    ;
}

/// The canonical form of any ratio is in lowest terms and denotes the same number.
pub proof fn lemma_reduced_is_canonical(n: int, d: int)
    requires
        d != 0,
    ensures
        Rational::reduced(n, d).is_reduced(),
        Rational::reduced(n, d).same_value(Rational { num: n, den: d }),
{
    if d < 0 {
        lemma_reduced_positive(-n, -d);
        let r = Rational::reduced(n, d);
        assert(r == Rational::reduced(-n, -d));
        assert(r.num * d == n * r.den) by (nonlinear_arith)
            requires
                r.num * (-d) == (-n) * r.den,
        ;
    } else {
        lemma_reduced_positive(n, d);
    }
}

/// A ratio in lowest terms is its own canonical form.
pub proof fn lemma_reduced_of_reduced(r: Rational)
    requires
        r.is_reduced(),
    ensures
        Rational::reduced(r.num, r.den) == r,
{
    assert(r.num / 1 == r.num && r.den / 1 == r.den);
}

/// Reduction is idempotent and canonical: reducing a reduced ratio changes
/// nothing, and the result has a positive denominator coprime to its numerator.
pub proof fn lemma_reduce_idempotent(n: int, d: int)
    requires
        d != 0,
    ensures
        ({
            let r = Rational::reduced(n, d);
            &&& Rational::reduced(r.num, r.den) == r
            &&& r.den > 0
            &&& spec_gcd(abs(r.num), abs(r.den)) == 1
        }),
{
    lemma_reduced_is_canonical(n, d);
    lemma_reduced_of_reduced(Rational::reduced(n, d));
}

/// Two ratios in lowest terms that denote the same number are the same pair.
pub proof fn lemma_reduced_unique(a: Rational, b: Rational)
    requires
        a.is_reduced(),
        b.is_reduced(),
        a.same_value(b),
    ensures
        a == b,
{
    let an = abs(a.num);
    let bn = abs(b.num);
    let ad = abs(a.den);
    let bd = abs(b.den);
    assert(an * bd == bn * ad) by (nonlinear_arith)
        requires
            a.num * b.den == b.num * a.den,
            a.den > 0,
            b.den > 0,
            an == abs(a.num),
            bn == abs(b.num),
            ad == a.den,
            bd == b.den,
    ;
    // a.den divides an * bd and is coprime to an, so it divides bd; and conversely.
    lemma_gcd_symmetric(an, ad);
    lemma_gcd_symmetric(bn, bd);
    lemma_multiple_divides(ad as int, bn as int);
    lemma_coprime_divides_product(ad, an, bd);
    lemma_multiple_divides(bd as int, an as int);
    lemma_coprime_divides_product(bd, bn, ad);
    lemma_divisor_bound(ad as int, bd as int);
    lemma_divisor_bound(bd as int, ad as int);
    assert(a.num == b.num) by (nonlinear_arith)
        requires
            a.num * b.den == b.num * a.den,
            a.den == b.den,
            a.den > 0,
    ;
}

/// Ratios that denote the same number have the same canonical form.
pub proof fn lemma_reduced_respects_value(n: int, d: int, m: int, e: int)
    requires
        d != 0,
        e != 0,
        n * e == m * d,
    ensures
        Rational::reduced(n, d) == Rational::reduced(m, e),
{
    let r = Rational::reduced(n, d);
    let s = Rational::reduced(m, e);
    lemma_reduced_is_canonical(n, d);
    lemma_reduced_is_canonical(m, e);
    lemma_cross_cancel(r.num, r.den, n, d, s.num, s.den, m, e);
    lemma_reduced_unique(r, s);
}

/// An integer over one is in lowest terms.
pub proof fn lemma_integer_is_reduced(n: int)
    ensures
        Rational::integer(n).is_reduced(),
{
    lemma_gcd_with_one(abs(n));
}

/// Adding to the canonical form of a ratio is adding to the ratio.
proof fn lemma_plus_respects_value(n: int, d: int, c: Rational)
    requires
        d != 0,
        c.den != 0,
    ensures
        Rational::reduced(n, d).plus(c) == Rational::reduced(n * c.den + c.num * d, d * c.den),
        c.plus(Rational::reduced(n, d)) == Rational::reduced(n * c.den + c.num * d, d * c.den),
{
    let r = Rational::reduced(n, d);
    lemma_reduced_is_canonical(n, d);
    let ln = r.num * c.den + c.num * r.den;
    let ld = r.den * c.den;
    let rn = n * c.den + c.num * d;
    let rd = d * c.den;
    assert(ld != 0 && rd != 0) by (nonlinear_arith)
        requires
            ld == r.den * c.den,
            rd == d * c.den,
            r.den > 0,
            d != 0,
            c.den != 0,
    ;
    lemma_cross_sum(r.num, r.den, n, d, c.num, c.den);
    lemma_reduced_respects_value(ln, ld, rn, rd);
    assert(c.num * r.den + r.num * c.den == ln && c.den * r.den == ld) by (nonlinear_arith)
        requires
            ln == r.num * c.den + c.num * r.den,
            ld == r.den * c.den,
    ;
}

/// Addition is commutative.
pub proof fn lemma_plus_commutative(a: Rational, b: Rational)
    ensures
        a.plus(b) == b.plus(a),
{
    assert(a.num * b.den + b.num * a.den == b.num * a.den + a.num * b.den);
    assert(a.den * b.den == b.den * a.den) by (nonlinear_arith);
}

/// Addition is associative.
pub proof fn lemma_plus_associative(a: Rational, b: Rational, c: Rational)
    requires
        a.is_reduced(),
        b.is_reduced(),
        c.is_reduced(),
    ensures
        a.plus(b).plus(c) == a.plus(b.plus(c)),
{
    let nab = a.num * b.den + b.num * a.den;
    let dab = a.den * b.den;
    let nbc = b.num * c.den + c.num * b.den;
    let dbc = b.den * c.den;
    assert(dab > 0 && dbc > 0) by (nonlinear_arith)
        requires
            dab == a.den * b.den,
            dbc == b.den * c.den,
            a.den > 0,
            b.den > 0,
            c.den > 0,
    ;
    lemma_plus_respects_value(nab, dab, c);
    lemma_plus_respects_value(nbc, dbc, a);
    let ln = nab * c.den + c.num * dab;
    let ld = dab * c.den;
    let rn = nbc * a.den + a.num * dbc;
    let rd = dbc * a.den;
    assert(ln == rn && ld == rd) by (nonlinear_arith)
        requires
            nab == a.num * b.den + b.num * a.den,
            dab == a.den * b.den,
            nbc == b.num * c.den + c.num * b.den,
            dbc == b.den * c.den,
            ln == nab * c.den + c.num * dab,
            ld == dab * c.den,
            rn == nbc * a.den + a.num * dbc,
            rd == dbc * a.den,
    ;
}

/// Subtracting what was added gives the first term back.
pub proof fn lemma_plus_then_minus(a: Rational, b: Rational)
    requires
        a.is_reduced(),
        b.is_reduced(),
    ensures
        a.plus(b).minus(b) == a,
{
    let n = a.num * b.den + b.num * a.den;
    let d = a.den * b.den;
    assert(d > 0) by (nonlinear_arith)
        requires
            d == a.den * b.den,
            a.den > 0,
            b.den > 0,
    ;
    let s = Rational::reduced(n, d);
    lemma_reduced_is_canonical(n, d);
    let ln = s.num * b.den - b.num * s.den;
    let ld = s.den * b.den;
    assert(ld > 0) by (nonlinear_arith)
        requires
            ld == s.den * b.den,
            s.den > 0,
            b.den > 0,
    ;
    assert(ln * a.den == a.num * ld) by (nonlinear_arith)
        requires
            s.num * d == n * s.den,
            n == a.num * b.den + b.num * a.den,
            d == a.den * b.den,
            ln == s.num * b.den - b.num * s.den,
            ld == s.den * b.den,
            a.den > 0,
            b.den > 0,
    ;
    lemma_reduced_respects_value(ln, ld, a.num, a.den);
    lemma_reduced_of_reduced(a);
}

/// Halving a ratio and adding the half to itself gives the ratio back.
pub proof fn lemma_half_plus_half(a: Rational)
    requires
        a.is_reduced(),
    ensures
        a.divided_by(2).plus(a.divided_by(2)) == a,
{
    let h = a.divided_by(2);
    lemma_reduced_is_canonical(a.num, a.den * 2);
    let n = h.num * h.den + h.num * h.den;
    let d = h.den * h.den;
    assert(d > 0) by (nonlinear_arith)
        requires
            d == h.den * h.den,
            h.den > 0,
    ;
    assert(n * a.den == a.num * d) by (nonlinear_arith)
        requires
            h.num * (a.den * 2) == a.num * h.den,
            n == h.num * h.den + h.num * h.den,
            d == h.den * h.den,
    ;
    lemma_reduced_respects_value(n, d, a.num, a.den);
    lemma_reduced_of_reduced(a);
}

} // verus!

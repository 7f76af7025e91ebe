//! Greatest common divisors of natural numbers and the facts about them on
//! which lowest-terms fractions rest.

use vstd::arithmetic::div_mod::{
    lemma_fundamental_div_mod, lemma_mod_multiples_basic, lemma_truncate_middle,
};
use vstd::prelude::*;

verus! {

/// The greatest common divisor of two naturals, by Euclid's recursion.
///
/// `gcd(x, 0) == x` and `gcd(0, y) == y`; in particular `gcd(0, 0) == 0`.
pub open spec fn spec_gcd(x: nat, y: nat) -> nat
    decreases y,
{
    if y == 0 {
        x
    } else {
        spec_gcd(y, x % y)
    }
}

/// `d` divides `n`: some integer multiple of `d` is `n`.
pub open spec fn divides(d: int, n: int) -> bool {
    d != 0 && n % d == 0
}

/// The absolute value of an integer.
pub open spec fn abs(n: int) -> nat {
    if n < 0 {
        (-n) as nat
    } else {
        n as nat
    }
}

/// A number that divides another yields it back when multiplied by the quotient.
pub proof fn lemma_divides_exact(d: int, n: int)
    requires
        divides(d, n),
    ensures
        n == d * (n / d),
        n == (n / d) * d,
{
    lemma_fundamental_div_mod(n, d);
    assert(d * (n / d) == (n / d) * d) by (nonlinear_arith);
}

/// Every multiple of a positive number is divided by it.
pub proof fn lemma_multiple_divides(d: int, k: int)
    requires
        d > 0,
    ensures
        divides(d, d * k),
        divides(d, k * d),
        (d * k) / d == k,
        (k * d) / d == k,
{
    lemma_mod_multiples_basic(k, d);
    assert(d * k == k * d) by (nonlinear_arith);
    lemma_fundamental_div_mod(k * d, d);
    let q = (k * d) / d;
    assert(k * d == d * q);
    assert(q == k) by (nonlinear_arith)
        requires
            k * d == d * q,
            d > 0,
    ;
}

/// What divides two numbers divides every sum of their multiples.
pub proof fn lemma_divides_combination(d: int, a: int, b: int, x: int, y: int)
    requires
        d > 0,
        divides(d, a),
        divides(d, b),
    ensures
        divides(d, a * x + b * y),
{
    lemma_divides_exact(d, a);
    lemma_divides_exact(d, b);
    let ka = a / d;
    let kb = b / d;
    assert(a * x + b * y == d * (ka * x + kb * y)) by (nonlinear_arith)
        requires
            a == d * ka,
            b == d * kb,
    ;
    lemma_multiple_divides(d, ka * x + kb * y);
}

/// A positive divisor of a positive number is no larger than it.
pub proof fn lemma_divisor_bound(d: int, n: int)
    requires
        d > 0,
        n > 0,
        divides(d, n),
    ensures
        d <= n,
{
    lemma_divides_exact(d, n);
    let k = n / d;
    assert(d <= n) by (nonlinear_arith)
        requires
            n == d * k,
            d > 0,
            n > 0,
    ;
}

/// The quotient of a number by a positive divisor of its absolute value is
/// exact, and its absolute value is the quotient of the absolute values.
pub proof fn lemma_abs_of_quotient(n: int, g: int)
    requires
        g > 0,
        divides(g, abs(n) as int),
    ensures
        divides(g, n),
        abs(n / g) == abs(n) / (g as nat),
        n == (n / g) * g,
        n < 0 ==> n / g < 0,
        n >= 0 ==> n / g >= 0,
{
    lemma_divides_exact(g, abs(n) as int);
    let k = abs(n) as int / g;
    if n < 0 {
        assert(n == g * (-k)) by (nonlinear_arith)
            requires
                -n == g * k,
        ;
        lemma_multiple_divides(g, -k);
    } else {
        lemma_multiple_divides(g, k);
    }
    assert(k >= 0 && (n != 0 ==> k != 0)) by (nonlinear_arith)
        requires
            abs(n) as int == g * k,
            g > 0,
    ;
    lemma_divides_exact(g, n);
}

/// The greatest common divisor of a number and zero is the number.
pub proof fn lemma_gcd_with_zero(x: nat)
    ensures
        spec_gcd(x, 0) == x,
        spec_gcd(0, x) == x,
{
    reveal_with_fuel(spec_gcd, 2);
    if x != 0 {
        assert(0nat % x == 0);
    }
}

/// The greatest common divisor is positive unless both numbers are zero.
pub proof fn lemma_gcd_positive(x: nat, y: nat)
    ensures
        spec_gcd(x, y) == 0 <==> (x == 0 && y == 0),
    decreases y,
{
    if y != 0 {
        lemma_gcd_positive(y, x % y);
    }
}

/// The greatest common divisor divides both numbers.
pub proof fn lemma_gcd_divides(x: nat, y: nat)
    requires
        x != 0 || y != 0,
    ensures
        divides(spec_gcd(x, y) as int, x as int),
        divides(spec_gcd(x, y) as int, y as int),
    decreases y,
{
    let g = spec_gcd(x, y) as int;
    lemma_gcd_positive(x, y);
    if y == 0 {
        lemma_multiple_divides(g, 1);
        lemma_multiple_divides(g, 0);
    } else {
        let r = x % y;
        lemma_gcd_divides(y, r);
        lemma_fundamental_div_mod(x as int, y as int);
        lemma_divides_combination(g, y as int, r as int, x as int / y as int, 1);
    }
}

/// Every common divisor divides the greatest common divisor.
pub proof fn lemma_common_divisor_divides_gcd(d: int, x: nat, y: nat)
    requires
        d > 0,
        divides(d, x as int),
        divides(d, y as int),
    ensures
        divides(d, spec_gcd(x, y) as int),
    decreases y,
{
    if y != 0 {
        let r = x % y;
        lemma_fundamental_div_mod(x as int, y as int);
        lemma_divides_combination(d, x as int, y as int, 1, -(x as int / y as int));
        assert(x as int * 1 + y as int * (-(x as int / y as int)) == r as int)
            by (nonlinear_arith)
            requires
                x as int == y as int * (x as int / y as int) + r as int,
        ;
        lemma_common_divisor_divides_gcd(d, y, r);
    }
}

/// The order of the two numbers does not matter.
pub proof fn lemma_gcd_symmetric(x: nat, y: nat)
    ensures
        spec_gcd(x, y) == spec_gcd(y, x),
{
    if x == 0 && y == 0 {
    } else {
        let g = spec_gcd(x, y) as int;
        let h = spec_gcd(y, x) as int;
        lemma_gcd_positive(x, y);
        lemma_gcd_positive(y, x);
        lemma_gcd_divides(x, y);
        lemma_gcd_divides(y, x);
        lemma_common_divisor_divides_gcd(g, y, x);
        lemma_common_divisor_divides_gcd(h, x, y);
        lemma_divisor_bound(g, h);
        lemma_divisor_bound(h, g);
    }
}

/// Scaling both numbers scales their greatest common divisor.
pub proof fn lemma_gcd_scales(x: nat, y: nat, c: nat)
    requires
        c > 0,
    ensures
        spec_gcd(x * c, y * c) == spec_gcd(x, y) * c,
    decreases y,
{
    if y == 0 {
        assert(y * c == 0);
    } else {
        let r = x % y;
        lemma_truncate_middle(x as int, c as int, y as int);
        assert(c * x == x * c && c * y == y * c && c * r == r * c) by (nonlinear_arith);
        assert((x * c) % (y * c) == r * c);
        assert(y * c > 0) by (nonlinear_arith)
            requires
                y > 0,
                c > 0,
        ;
        lemma_gcd_scales(y, r, c);
    }
}

/// One is the only common divisor of any number and one.
pub proof fn lemma_gcd_with_one(x: nat)
    ensures
        spec_gcd(x, 1) == 1,
{
    reveal_with_fuel(spec_gcd, 3);
    assert(x % 1 == 0);
}

/// Dividing two numbers by their greatest common divisor leaves them coprime.
pub proof fn lemma_gcd_of_quotients(x: nat, y: nat)
    requires
        x != 0 || y != 0,
    ensures
        spec_gcd(x / spec_gcd(x, y), y / spec_gcd(x, y)) == 1,
{
    let g = spec_gcd(x, y);
    lemma_gcd_positive(x, y);
    lemma_gcd_divides(x, y);
    lemma_divides_exact(g as int, x as int);
    lemma_divides_exact(g as int, y as int);
    let qx = x / g;
    let qy = y / g;
    lemma_gcd_scales(qx, qy, g);
    let h = spec_gcd(qx, qy);
    assert(h == 1) by (nonlinear_arith)
        requires
            g == h * g,
            g > 0,
    ;
}

/// Euclid's lemma: what divides a product and is coprime to one factor divides the other.
pub proof fn lemma_coprime_divides_product(d: nat, x: nat, y: nat)
    requires
        d > 0,
        spec_gcd(d, x) == 1,
        divides(d as int, (x * y) as int),
    ensures
        divides(d as int, y as int),
{
    lemma_multiple_divides(d as int, y as int);
    lemma_common_divisor_divides_gcd(d as int, d * y, x * y);
    if y > 0 {
        lemma_gcd_scales(d, x, y);
        assert(1 * y == y);
    } else {
        assert(0int % (d as int) == 0);
    }
}

} // verus!

use dimensional::error::QuantityError;
use dimensional::fraction::{gcd, gcd_generic, Fraction};

#[test]
fn test_gcd() {
    assert_eq!(gcd(78, 2), 2);
    assert_eq!(gcd_generic(78, 2), 2);
}

#[test]
fn my_add() {
    let f1 = Fraction::new(1, 1);
    let f2 = Fraction::new(1, 1);

    let sum = f1.const_add(f2);
    assert_eq!(sum, Fraction::new(2, 1));
}

#[test]
fn simplify_add() {
    let f1 = Fraction::new(1, 2);
    let f2 = Fraction::new(1, 2);

    let sum = f1.const_add(f2);
    assert_eq!(sum, Fraction::new(1, 1));
}

#[test]
fn simplify_div() {
    let f1 = Fraction::new(6, 1);
    let r = f1.const_div(2);
    assert_eq!(r, Fraction::new(3, 1));
}

#[test]
fn basic() {
    let f1 = Fraction::new(3, 2);
    let f2 = Fraction::new(5, 2);

    let sum = f1 + f2;
    assert_eq!(sum, Fraction::new(4, 1));
    assert_eq!(sum.numerator(), 4);
    assert_eq!(sum.denominator(), 1);
}

#[test]
fn d2_is_multiple_of_d1() {
    let f1 = Fraction::new(3, 2);
    let f2 = Fraction::new(5, 4);

    let sum = f1 + f2;
    assert_eq!(sum, Fraction::new(11, 4));
}

#[test]
fn gcd_with_zero() {
    assert_eq!(gcd(7, 0), 7);
    assert_eq!(gcd(0, 9), 9);
    assert_eq!(gcd(0, 0), 0);
    assert_eq!(gcd_generic(7u32, 0u32), 7);
    assert_eq!(gcd_generic(0u32, 9u32), 9);
}

#[test]
fn gcd_of_coprime_and_equal_numbers() {
    assert_eq!(gcd(17, 5), 1);
    assert_eq!(gcd(12, 12), 12);
    assert_eq!(gcd(48, 180), 12);
    assert_eq!(gcd(180, 48), 12);
    assert_eq!(gcd_generic(48u32, 180u32), 12);
    assert_eq!(gcd(u32::MAX, u32::MAX - 1), 1);
}

#[test]
fn new_reduces_to_lowest_terms() {
    let f = Fraction::new(6, 4);
    assert_eq!(f.numerator(), 3);
    assert_eq!(f.denominator(), 2);
    let z = Fraction::new(0, 5);
    assert_eq!(z.numerator(), 0);
    assert_eq!(z.denominator(), 1);
}

#[test]
fn new_reduces_negative_numerators() {
    let f = Fraction::new(-3, 3);
    assert_eq!(f.numerator(), -1);
    assert_eq!(f.denominator(), 1);
    let g = Fraction::new(-2, 4);
    assert_eq!(g.numerator(), -1);
    assert_eq!(g.denominator(), 2);
    let h = Fraction::new(-9, 6);
    assert_eq!(h.numerator(), -3);
    assert_eq!(h.denominator(), 2);
}

#[test]
fn new_at_the_limits_of_the_width() {
    let f = Fraction::new(i32::MIN, 0x8000_0000);
    assert_eq!(f.numerator(), -1);
    assert_eq!(f.denominator(), 1);
    let g = Fraction::new(i32::MIN, 1);
    assert_eq!(g.numerator(), i32::MIN);
    assert_eq!(g.denominator(), 1);
    let h = Fraction::new(i32::MAX, u32::MAX);
    assert_eq!(h.numerator(), i32::MAX);
    assert_eq!(h.denominator(), u32::MAX);
    let k = Fraction::new(1, u32::MAX);
    assert_eq!(k.denominator(), u32::MAX);
}

#[test]
fn reduce_rejects_a_zero_denominator() {
    assert_eq!(Fraction::reduce(1, 0), Err(QuantityError::DivisionByZero));
    assert_eq!(Fraction::reduce(0, 0), Err(QuantityError::DivisionByZero));
}

#[test]
fn reduce_accepts_every_other_denominator() {
    assert_eq!(Fraction::reduce(10, 4), Ok(Fraction::new(5, 2)));
    assert_eq!(Fraction::reduce(-10, 4), Ok(Fraction::new(-5, 2)));
    assert_eq!(Fraction::reduce(i32::MIN, u32::MAX).map(|f| f.denominator()), Ok(u32::MAX));
}

#[test]
fn reduction_is_idempotent() {
    let pairs: Vec<(i32, u32)> =
        vec![(6, 4), (-6, 4), (0, 7), (35, 49), (-1, 1), (i32::MIN, 6), (i32::MAX, 3)];
    for (n, d) in pairs {
        let once = Fraction::new(n, d);
        let twice = Fraction::new(once.numerator(), once.denominator());
        assert_eq!(once, twice);
        assert!(once.denominator() > 0);
        assert_eq!(gcd(once.numerator().unsigned_abs(), once.denominator()), 1);
    }
}

#[test]
fn equal_ratios_are_equal_fractions() {
    assert_eq!(Fraction::new(2, 4), Fraction::new(1, 2));
    assert_eq!(Fraction::new(-50, 100), Fraction::new(-1, 2));
    assert_ne!(Fraction::new(1, 2), Fraction::new(1, 3));
    assert!(Fraction::new(2, 4).equals(&Fraction::new(3, 6)));
    assert!(!Fraction::new(2, 4).equals(&Fraction::new(-1, 2)));
}

#[test]
fn named_values() {
    assert_eq!(Fraction::zero(), Fraction::new(0, 1));
    assert_eq!(Fraction::one(), Fraction::new(1, 1));
    assert_eq!(Fraction::two(), Fraction::new(2, 1));
    assert_eq!(Fraction::three(), Fraction::new(3, 1));
    assert_eq!(Fraction::minus_one(), Fraction::new(-1, 1));
}

#[test]
fn from_an_integer() {
    let f = Fraction::from(-7);
    assert_eq!(f.numerator(), -7);
    assert_eq!(f.denominator(), 1);
    assert_eq!(Fraction::from_integer(12), Fraction::new(24, 2));
    let g: Fraction = 3.into();
    assert_eq!(g, Fraction::three());
}

#[test]
fn addition_over_the_least_common_denominator() {
    let sum = Fraction::new(1, 6).try_add(Fraction::new(1, 4));
    assert_eq!(sum, Ok(Fraction::new(5, 12)));
    let sum = Fraction::new(1, 2).try_add(Fraction::new(-1, 2));
    assert_eq!(sum, Ok(Fraction::zero()));
    let sum = Fraction::new(-1, 3).try_add(Fraction::new(-1, 6));
    assert_eq!(sum, Ok(Fraction::new(-1, 2)));
}

#[test]
fn addition_is_commutative() {
    let values = vec![
        Fraction::new(1, 2),
        Fraction::new(-3, 4),
        Fraction::new(5, 6),
        Fraction::zero(),
        Fraction::new(i32::MAX, 1),
        Fraction::new(1, 65537),
    ];
    for a in values.iter() {
        for b in values.iter() {
            assert_eq!(a.try_add(*b), b.try_add(*a));
        }
    }
}

#[test]
fn addition_is_associative() {
    let a = Fraction::new(1, 2);
    let b = Fraction::new(1, 3);
    let c = Fraction::new(-5, 4);
    let left = a.const_add(b).const_add(c);
    let right = a.const_add(b.const_add(c));
    assert_eq!(left, right);
    assert_eq!(left, Fraction::new(-5, 12));
}

#[test]
fn addition_overflows_in_the_numerator() {
    let sum = Fraction::new(i32::MAX, 1).try_add(Fraction::one());
    assert_eq!(sum, Err(QuantityError::Overflow));
    let sum = Fraction::new(i32::MIN, 1).try_add(Fraction::minus_one());
    assert_eq!(sum, Err(QuantityError::Overflow));
    let sum = Fraction::new(i32::MAX, 1).try_add(Fraction::new(1, 2));
    assert_eq!(sum, Err(QuantityError::Overflow));
}

#[test]
fn addition_overflows_in_the_denominator() {
    let sum = Fraction::new(1, 65536).try_add(Fraction::new(1, 65536));
    assert_eq!(sum, Err(QuantityError::Overflow));
    let sum = Fraction::new(1, 65537).try_add(Fraction::new(1, 65537));
    assert_eq!(sum, Err(QuantityError::Overflow));
    let sum = Fraction::new(1, 65535).try_add(Fraction::new(1, 65537));
    assert_eq!(sum, Ok(Fraction::new(131072, 4294967295)));
}

#[test]
fn addition_at_the_edge_of_the_numerator() {
    let sum = Fraction::new(i32::MAX - 1, 1).try_add(Fraction::one());
    assert_eq!(sum, Ok(Fraction::new(i32::MAX, 1)));
    let sum = Fraction::new(i32::MIN + 1, 1).try_add(Fraction::minus_one());
    assert_eq!(sum, Ok(Fraction::new(i32::MIN, 1)));
}

#[test]
fn subtraction_over_the_least_common_denominator() {
    let difference = Fraction::new(1, 2).try_sub(Fraction::new(1, 3));
    assert_eq!(difference, Ok(Fraction::new(1, 6)));
    let difference = Fraction::new(1, 3).try_sub(Fraction::new(1, 2));
    assert_eq!(difference, Ok(Fraction::new(-1, 6)));
    assert_eq!(Fraction::new(3, 4).const_sub(Fraction::new(3, 4)), Fraction::zero());
    assert_eq!(Fraction::zero().const_sub(Fraction::one()), Fraction::minus_one());
}

#[test]
fn subtraction_overflows() {
    let difference = Fraction::new(i32::MIN, 1).try_sub(Fraction::one());
    assert_eq!(difference, Err(QuantityError::Overflow));
    let difference = Fraction::new(i32::MAX, 1).try_sub(Fraction::minus_one());
    assert_eq!(difference, Err(QuantityError::Overflow));
    let difference = Fraction::new(1, 65536).try_sub(Fraction::new(1, 65536));
    assert_eq!(difference, Err(QuantityError::Overflow));
}

#[test]
fn subtraction_undoes_addition() {
    let a = Fraction::new(7, 12);
    let b = Fraction::new(-5, 18);
    assert_eq!(a.const_add(b).const_sub(b), a);
}

#[test]
fn division_by_an_integer() {
    assert_eq!(Fraction::new(1, 2).try_div(2), Ok(Fraction::new(1, 4)));
    assert_eq!(Fraction::new(6, 1).try_div(4), Ok(Fraction::new(3, 2)));
    assert_eq!(Fraction::new(-6, 5).try_div(3), Ok(Fraction::new(-2, 5)));
    assert_eq!(Fraction::zero().try_div(9), Ok(Fraction::zero()));
    assert_eq!(Fraction::one().const_div(2), Fraction::new(1, 2));
}

#[test]
fn division_by_zero_is_rejected() {
    assert_eq!(Fraction::one().try_div(0), Err(QuantityError::DivisionByZero));
    assert_eq!(Fraction::zero().try_div(0), Err(QuantityError::DivisionByZero));
}

#[test]
fn division_overflows_in_the_denominator() {
    assert_eq!(Fraction::new(1, 0x8000_0000).try_div(2), Err(QuantityError::Overflow));
    assert_eq!(Fraction::new(2, 0x8000_0001).try_div(2), Err(QuantityError::Overflow));
    assert_eq!(Fraction::new(1, 0x7FFF_FFFF).try_div(2), Ok(Fraction::new(1, 0xFFFF_FFFE)));
}

#[test]
fn halves_add_up_to_the_whole() {
    let values = vec![Fraction::one(), Fraction::new(3, 4), Fraction::new(-5, 7), Fraction::zero()];
    for a in values {
        let half = a.const_div(2);
        assert_eq!(half.const_add(half), a);
    }
}

#[test]
fn text_of_a_fraction() {
    assert_eq!(Fraction::new(1, 2).to_text(), "1/2");
    assert_eq!(Fraction::zero().to_text(), "0");
    assert_eq!(Fraction::new(-3, 4).to_text(), "-3/4");
    assert_eq!(Fraction::new(20, 2).to_text(), "10");
    assert_eq!(Fraction::new(i32::MIN, 1).to_text(), "-2147483648");
    assert_eq!(Fraction::new(i32::MAX, u32::MAX).to_text(), "2147483647/4294967295");
    assert_eq!(Fraction::new(-100, 1001).to_text(), "-100/1001");
}

#[test]
fn text_is_appended() {
    let mut text = String::from("x^");
    Fraction::new(5, 10).append_to(&mut text);
    assert_eq!(text, "x^1/2");
}

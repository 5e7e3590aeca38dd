use minirust::integer::{BigInt, Int};
use minirust::size::{Align, Size};

fn big(s: &str) -> Int {
    // Builds a number of any size from its decimal digits.
    let mut acc = Int::zero();
    let ten = Int::from(10);
    let mut neg = false;
    for c in s.chars() {
        if c == '-' {
            neg = true;
            continue;
        }
        let d = Int::from(c.to_digit(10).unwrap() as i32);
        acc = acc.mul(&ten).add(&d);
    }
    if neg { acc.neg() } else { acc }
}

#[test]
fn zero_and_one() {
    assert_eq!(BigInt::zero().to_text(), "0");
    assert_eq!(BigInt::one().to_text(), "1");
}

#[test]
fn abs_is_never_negative() {
    for x in [-7i64, -1, 0, 1, 42] {
        let a = Int::from(x).abs();
        assert!(!a.is_negative());
        if x >= 0 {
            assert!(a.eq(&Int::from(x)));
        }
    }
    assert_eq!(Int::from(-7).abs().to_text(), "7");
    let huge = big("-340282366920938463463374607431768211457");
    assert_eq!(huge.abs().to_text(), "340282366920938463463374607431768211457");
}

#[test]
fn pow_steps_by_one_factor() {
    for x in [-3i32, 2, 5] {
        for n in 1..10i32 {
            let lhs = Int::from(x).pow(&Int::from(n));
            let rhs = Int::from(x).pow(&Int::from(n - 1)).mul(&Int::from(x));
            assert!(lhs.eq(&rhs));
        }
    }
    assert_eq!(Int::from(2).pow(&Int::from(10)).to_text(), "1024");
    assert_eq!(Int::from(7).pow(&Int::from(0)).to_text(), "1");
    assert_eq!(Int::from(2).pow(&Int::from(64)).to_text(), "18446744073709551616");
    assert_eq!(Int::from(2).pow(&Int::from(130)).to_text(), "1361129467683753853853498429727072845824");
}

#[test]
fn next_power_of_two_cases() {
    let cases = [(-5i32, "1"), (0, "1"), (1, "1"), (2, "2"), (3, "4"), (17, "32"), (64, "64")];
    for (x, expected) in cases {
        let p = Int::from(x).next_power_of_two();
        assert_eq!(p.to_text(), expected);
        assert!(p.is_power_of_two());
        assert!(Int::from(x).le(&p));
    }
}

#[test]
fn is_power_of_two_cases() {
    assert!(Int::from(1).is_power_of_two());
    assert!(Int::from(1024).is_power_of_two());
    assert!(!Int::from(0).is_power_of_two());
    assert!(!Int::from(-4).is_power_of_two());
    assert!(!Int::from(12).is_power_of_two());
    assert!(Int::from(2).pow(&Int::from(200)).is_power_of_two());
}

#[test]
fn checked_div_rounds_down() {
    assert!(Int::from(7).checked_div(&Int::from(0)).is_none());
    assert_eq!(Int::from(7).checked_div(&Int::from(2)).unwrap().to_text(), "3");
    assert_eq!(Int::from(-7).checked_div(&Int::from(2)).unwrap().to_text(), "-4");
    assert_eq!(Int::from(7).checked_div(&Int::from(-2)).unwrap().to_text(), "-4");
    assert_eq!(Int::from(-7).checked_div(&Int::from(-2)).unwrap().to_text(), "3");
    assert_eq!(Int::from(-7).mod_floor(&Int::from(2)).to_text(), "1");
}

#[test]
fn truncating_division() {
    assert_eq!(Int::from(-7).div_trunc(&Int::from(2)).to_text(), "-3");
    assert_eq!(Int::from(-7).rem_trunc(&Int::from(2)).to_text(), "-1");
    let a = big("100000000000000000000000000000000000000000");
    assert_eq!(a.div_trunc(&Int::from(3)).to_text(), "33333333333333333333333333333333333333333");
}

#[test]
fn trailing_zeros_cases() {
    assert!(Int::from(0).trailing_zeros().is_none());
    assert_eq!(Int::from(1).trailing_zeros().unwrap().to_text(), "0");
    assert_eq!(Int::from(40).trailing_zeros().unwrap().to_text(), "3");
    assert_eq!(Int::from(-8).trailing_zeros().unwrap().to_text(), "3");
    assert_eq!(Int::from(2).pow(&Int::from(150)).trailing_zeros().unwrap().to_text(), "150");
}

#[test]
fn arithmetic_past_i128() {
    let max = Int::from(i128::MAX);
    let sum = max.add(&Int::from(1));
    assert_eq!(sum.to_text(), "170141183460469231731687303715884105728");
    assert!(max.lt(&sum));
    assert!(sum.sub(&Int::from(1)).eq(&max));
    assert_eq!(sum.to_i128(), None);
    assert_eq!(sum.sub(&Int::from(1)).to_i128(), Some(i128::MAX));
    let neg = sum.neg().sub(&Int::from(1));
    assert!(neg.is_negative());
    assert_eq!(neg.to_text(), "-170141183460469231731687303715884105729");
}

#[test]
fn size_from_bytes_round_trip() {
    for b in [0i64, 1, 7, 4096] {
        assert!(Size::from_bytes(Int::from(b)).bytes().eq(&Int::from(b)));
    }
    assert_eq!(Size::from_bytes_const(5).bytes().to_text(), "5");
}

#[test]
fn size_from_bits_rounds_up() {
    assert_eq!(Size::from_bits(Int::from(0)).bytes().to_text(), "0");
    assert_eq!(Size::from_bits(Int::from(1)).bytes().to_text(), "1");
    assert_eq!(Size::from_bits(Int::from(8)).bytes().to_text(), "1");
    assert_eq!(Size::from_bits(Int::from(9)).bytes().to_text(), "2");
    assert_eq!(Size::from_bits_const(17).bytes().to_text(), "3");
    assert_eq!(Size::from_bytes_const(3).bits().to_text(), "24");
    assert!(Size::zero().is_zero());
    assert!(!Size::from_bytes_const(2).is_zero());
}

#[test]
fn align_must_be_power_of_two() {
    assert!(Align::from_bytes(Int::from(8)).is_some());
    assert!(Align::from_bytes(Int::from(1)).is_some());
    assert!(Align::from_bytes(Int::from(6)).is_none());
    assert!(Align::from_bytes(Int::from(0)).is_none());
    assert_eq!(Align::from_bytes(Int::from(16)).unwrap().bytes().to_text(), "16");
}

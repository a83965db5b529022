use radar_sim::fixed::{integer_sqrt, Fixed, LIMIT, NON_FINITE_RAW, SCALE};

fn fx(x: f64) -> Fixed {
    Fixed::from_raw((x * 1e12).round() as i128)
}

#[test]
fn from_int_counts_whole_units() {
    assert_eq!(Fixed::from_int(0).raw, 0);
    assert_eq!(Fixed::from_int(1).raw, SCALE);
    assert_eq!(Fixed::from_int(-360).raw, -360 * SCALE);
    assert_eq!(Fixed::from_int(100_000_000_000_000).raw, LIMIT);
    assert!(Fixed::from_int(100_000_000_000_000).is_finite());
}

#[test]
fn from_int_past_the_range_is_not_finite() {
    assert_eq!(Fixed::from_int(100_000_000_000_001).raw, NON_FINITE_RAW);
    assert!(!Fixed::from_int(i64::MAX).is_finite());
    assert!(!Fixed::from_int(i64::MIN).is_finite());
}

#[test]
fn non_finite_is_one_value() {
    assert_eq!(Fixed::non_finite().raw, NON_FINITE_RAW);
    assert!(!Fixed::non_finite().is_finite());
    assert!(!Fixed::from_raw(LIMIT + 1).is_finite());
    assert!(!Fixed::from_raw(-LIMIT - 1).is_finite());
    assert!(Fixed::from_raw(-LIMIT).is_finite());
}

#[test]
fn add_and_sub_are_exact() {
    assert_eq!(fx(1.5).add(fx(2.25)), fx(3.75));
    assert_eq!(fx(1.5).sub(fx(2.25)), fx(-0.75));
    assert_eq!(Fixed::from_raw(1).add(Fixed::from_raw(-3)), Fixed::from_raw(-2));
}

#[test]
fn add_and_sub_leave_the_range() {
    let top = Fixed::from_raw(LIMIT);
    assert_eq!(top.add(Fixed::from_raw(1)), Fixed::non_finite());
    assert_eq!(top.add(Fixed::from_raw(0)), top);
    assert_eq!(Fixed::from_raw(-LIMIT).sub(Fixed::from_raw(1)), Fixed::non_finite());
    assert_eq!(top.sub(top), Fixed::from_int(0));
}

#[test]
fn a_non_finite_operand_spoils_the_result() {
    let nothing = Fixed::non_finite();
    let one = Fixed::from_int(1);
    assert_eq!(nothing.add(one), nothing);
    assert_eq!(one.sub(nothing), nothing);
    assert_eq!(nothing.mul(one), nothing);
    assert_eq!(one.div(nothing), nothing);
    assert_eq!(nothing.rem(one), nothing);
    assert_eq!(one.rem(nothing), nothing);
    assert_eq!(nothing.halve(), nothing);
    assert_eq!(nothing.sqrt(), nothing);
    assert_eq!(Fixed::from_raw(LIMIT + 5).add(one), nothing);
}

#[test]
fn mul_rounds_down() {
    assert_eq!(fx(2.0).mul(fx(3.0)), fx(6.0));
    assert_eq!(fx(1000.0).mul(fx(10.0)), fx(10000.0));
    assert_eq!(fx(-2.5).mul(fx(4.0)), fx(-10.0));
    assert_eq!(Fixed::from_raw(1).mul(Fixed::from_raw(1)), Fixed::from_raw(0));
    assert_eq!(Fixed::from_raw(-1).mul(Fixed::from_raw(1)), Fixed::from_raw(-1));
    assert_eq!(Fixed::from_raw(1_500_000).mul(Fixed::from_raw(1_000_000)), Fixed::from_raw(1));
}

#[test]
fn mul_leaves_the_range() {
    let big = fx(1.0e8);
    assert!(!big.mul(big).is_finite());
    assert_eq!(fx(1.0e7).mul(fx(1.0e7)), Fixed::from_raw(LIMIT));
    let top = Fixed::from_raw(LIMIT);
    assert!(!top.mul(top).is_finite());
    assert_eq!(top.mul(Fixed::from_int(1)), top);
    assert_eq!(top.mul(Fixed::from_int(-1)), Fixed::from_raw(-LIMIT));
}

#[test]
fn div_is_euclidean() {
    assert_eq!(fx(6.0).div(fx(3.0)), fx(2.0));
    assert_eq!(fx(1.0).div(fx(4.0)), fx(0.25));
    assert_eq!(fx(1.0).div(fx(3.0)), Fixed::from_raw(333_333_333_333));
    assert_eq!(fx(-1.0).div(fx(3.0)), Fixed::from_raw(-333_333_333_334));
    assert_eq!(fx(1.0).div(fx(-3.0)), Fixed::from_raw(-333_333_333_333));
    assert_eq!(fx(-1.0).div(fx(-3.0)), Fixed::from_raw(333_333_333_334));
}

#[test]
fn div_by_zero_is_not_finite() {
    assert_eq!(fx(1.0).div(fx(0.0)), Fixed::non_finite());
    assert_eq!(fx(0.0).div(fx(0.0)), Fixed::non_finite());
}

#[test]
fn div_leaves_the_range() {
    assert!(!fx(1.0e13).div(Fixed::from_raw(1)).is_finite());
    assert_eq!(fx(100.0).div(Fixed::from_raw(1)), Fixed::from_raw(LIMIT));
}

#[test]
fn rem_lies_under_the_modulus() {
    let turn = fx(360.0);
    assert_eq!(fx(725.0).rem(turn), fx(5.0));
    assert_eq!(fx(360.0).rem(turn), fx(0.0));
    assert_eq!(fx(-7.0).rem(turn), fx(353.0));
    assert_eq!(fx(359.5).rem(turn), fx(359.5));
}

#[test]
fn rem_needs_a_positive_modulus() {
    assert_eq!(fx(5.0).rem(fx(0.0)), Fixed::non_finite());
    assert_eq!(fx(5.0).rem(fx(-360.0)), Fixed::non_finite());
}

#[test]
fn halve_rounds_down() {
    assert_eq!(fx(10.0).halve(), fx(5.0));
    assert_eq!(Fixed::from_raw(3).halve(), Fixed::from_raw(1));
    assert_eq!(Fixed::from_raw(-3).halve(), Fixed::from_raw(-2));
    assert_eq!(Fixed::from_raw(0).halve(), Fixed::from_raw(0));
}

#[test]
fn sqrt_rounds_down() {
    assert_eq!(fx(4.0).sqrt(), fx(2.0));
    assert_eq!(fx(20000.0).sqrt(), Fixed::from_raw(141_421_356_237_309));
    assert_eq!(fx(2.0).sqrt(), Fixed::from_raw(1_414_213_562_373));
    assert_eq!(fx(0.0).sqrt(), fx(0.0));
    assert_eq!(Fixed::from_raw(LIMIT).sqrt(), Fixed::from_int(10_000_000));
}

#[test]
fn sqrt_of_a_negative_is_not_finite() {
    assert_eq!(fx(-4.0).sqrt(), Fixed::non_finite());
    assert_eq!(Fixed::from_raw(-1).sqrt(), Fixed::non_finite());
}

#[test]
fn integer_sqrt_is_the_floor() {
    assert_eq!(integer_sqrt(0), 0);
    assert_eq!(integer_sqrt(1), 1);
    assert_eq!(integer_sqrt(3), 1);
    assert_eq!(integer_sqrt(4), 2);
    assert_eq!(integer_sqrt(99), 9);
    assert_eq!(integer_sqrt(100), 10);
    assert_eq!(integer_sqrt(u128::MAX), 18_446_744_073_709_551_615);
    assert_eq!(
        integer_sqrt(18_446_744_073_709_551_615 * 18_446_744_073_709_551_615),
        18_446_744_073_709_551_615
    );
    assert_eq!(
        integer_sqrt(18_446_744_073_709_551_615 * 18_446_744_073_709_551_615 - 1),
        18_446_744_073_709_551_614
    );
}

#[test]
fn comparisons_need_finite_operands() {
    let nothing = Fixed::non_finite();
    assert!(fx(1.0).lt(fx(2.0)));
    assert!(!fx(2.0).lt(fx(2.0)));
    assert!(fx(2.0).le(fx(2.0)));
    assert!(!fx(3.0).le(fx(2.0)));
    assert!(fx(2.0).same(fx(2.0)));
    assert!(!fx(2.0).same(fx(2.5)));
    assert!(!nothing.lt(fx(1.0)));
    assert!(!fx(1.0).lt(nothing));
    assert!(!nothing.le(nothing));
    assert!(!nothing.same(nothing));
}

use fixed_matrix::element::Element;

#[test]
fn the_identities_are_zero_and_one() {
    assert_eq!(<i32 as Element>::zero(), 0);
    assert_eq!(<i32 as Element>::one(), 1);
    assert_eq!(<i64 as Element>::zero(), 0);
    assert_eq!(<i64 as Element>::one(), 1);
    assert_eq!(<isize as Element>::zero(), 0);
    assert_eq!(<isize as Element>::one(), 1);
}

#[test]
fn sums_differences_and_products_are_those_of_the_integers() {
    assert_eq!(2i32.plus(3), 5);
    assert_eq!(2i32.minus(3), -1);
    assert_eq!((-4i32).times(6), -24);
    assert_eq!(i32::MAX.minus(1).plus(1), i32::MAX);

    assert_eq!(3_000_000_000i64.plus(4), 3_000_000_004);
    assert_eq!(3_000_000_000i64.times(-3), -9_000_000_000);
    assert_eq!((-7i64).minus(-7), 0);

    assert_eq!(9isize.plus(-10), -1);
    assert_eq!(9isize.minus(-10), 19);
    assert_eq!(9isize.times(-10), -90);
}

#[test]
fn quotients_are_rounded_toward_zero() {
    assert_eq!(7i32.over(2), 3);
    assert_eq!((-7i32).over(2), -3);
    assert_eq!(7i32.over(-2), -3);
    assert_eq!((-7i32).over(-2), 3);
    assert_eq!(6i32.over(-3), -2);
    assert_eq!(0i32.over(5), 0);

    assert_eq!((-9i64).over(4), -2);
    assert_eq!(i64::MIN.over(1), i64::MIN);
    assert_eq!(i64::MAX.over(-1), -i64::MAX);

    assert_eq!((-1isize).over(2), 0);
    assert_eq!(1isize.over(-2), 0);
}

#[test]
fn negation_changes_the_sign() {
    assert_eq!(5i32.negated(), -5);
    assert_eq!((-5i32).negated(), 5);
    assert_eq!(0i64.negated(), 0);
    assert_eq!(i64::MAX.negated(), i64::MIN + 1);
    assert_eq!(3isize.negated(), -3);
}

use raycaster::fixed::{
    floor, frac, from_int, halved, minus, negated, over, plus, scaled, times, INFINITE, ONE,
};

#[test]
fn one_is_sixteen_bits() {
    assert_eq!(ONE, 65536);
    assert_eq!(from_int(3), 3 * ONE);
}

#[test]
fn arithmetic_rounds_down() {
    assert_eq!(times(3 * ONE / 2, ONE / 2), 3 * ONE / 4);
    assert_eq!(times(-1, 1), -1);
    assert_eq!(over(ONE, 3 * ONE), 21845);
    assert_eq!(over(-ONE, 3 * ONE), -21846);
    assert_eq!(over(ONE, -3 * ONE), -21846);
    assert_eq!(floor(-1), -1);
    assert_eq!(frac(-1), ONE - 1);
    assert_eq!(floor(5 * ONE / 2), 2);
    assert_eq!(frac(5 * ONE / 2), ONE / 2);
}

#[test]
fn arithmetic_saturates() {
    assert_eq!(plus(INFINITE, ONE), INFINITE);
    assert_eq!(minus(-INFINITE, ONE), -INFINITE);
    assert_eq!(times(INFINITE, 2 * ONE), INFINITE);
    assert_eq!(times(INFINITE, -2 * ONE), -INFINITE);
    assert_eq!(over(ONE, 0), INFINITE);
    assert_eq!(over(-ONE, 0), -INFINITE);
    assert_eq!(over(0, 0), 0);
    assert_eq!(plus(i64::MIN, -1), -INFINITE);
    assert_eq!(from_int(i64::MAX), INFINITE);
}

#[test]
fn whole_multiples_halves_and_negations() {
    assert_eq!(scaled(3 * ONE / 2, 4), 6 * ONE);
    assert_eq!(scaled(-ONE, 7), -7 * ONE);
    assert_eq!(scaled(INFINITE, 2), INFINITE);
    assert_eq!(scaled(INFINITE, -2), -INFINITE);
    assert_eq!(halved(5), 2);
    assert_eq!(halved(-5), -3);
    assert_eq!(halved(i64::MIN), i64::MIN / 2);
    assert_eq!(negated(ONE), -ONE);
    assert_eq!(negated(-INFINITE), INFINITE);
    assert_eq!(negated(i64::MIN), INFINITE);
}

#[test]
fn product_and_quotient_bracket_the_exact_result() {
    for (a, b) in [(98765i64, 43210i64), (-98765, 43210), (7, 3), (-7, 3), (ONE, 3 * ONE)] {
        let p = times(a, b) as i128;
        assert!(p * (ONE as i128) <= a as i128 * b as i128);
        assert!((a as i128 * b as i128) < (p + 1) * ONE as i128);
        let q = over(a, b) as i128;
        assert!(q * (b as i128) <= a as i128 * ONE as i128);
        assert!((a as i128 * ONE as i128) < (q + 1) * b as i128);
    }
}

#[test]
fn identities() {
    for v in [0i64, 1, -1, ONE, -ONE, 123456789, -INFINITE, INFINITE] {
        assert_eq!(times(v, ONE), v);
        assert_eq!(times(ONE, v), v);
        assert_eq!(times(v, 0), 0);
        assert_eq!(plus(v, 0), v);
        assert_eq!(minus(v, 0), v);
    }
    assert_eq!(over(ONE, ONE), ONE);
}

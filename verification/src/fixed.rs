//! Saturating fixed-point arithmetic with sixteen fractional bits.
//!
//! A [`Fixed`] value `v` stands for the real number `v / 65536`. Every
//! operation computes the exact result, rounds it down to the next
//! representable value and saturates at [`INFINITE`] and `-INFINITE`, so no
//! operation can overflow or fail.

use vstd::prelude::*;

verus! {

/// A signed fixed-point number: the raw integer is the value times [`ONE`].
pub type Fixed = i64;

/// The raw value of 1.0.
pub const ONE: i64 = 65536;

/// The largest value; it stands for every distance too large to matter.
pub const INFINITE: i64 = 0x7fff_ffff_ffff_ffff;

/// A point or direction in the plane.
#[derive(Clone, Copy, Debug, PartialEq, Eq, Structural)]
pub struct Vec2 {
    pub x: Fixed,
    pub y: Fixed,
}

/// A point in the plane together with a height above it.
#[derive(Clone, Copy, Debug, PartialEq, Eq, Structural)]
pub struct Vec3 {
    pub x: Fixed,
    pub y: Fixed,
    pub z: Fixed,
}

/// Clamps a mathematical integer to the saturation range.
pub open spec fn saturate(v: int) -> Fixed {
    if v > INFINITE {
        INFINITE
    } else if v < -INFINITE {
        (-INFINITE) as i64
    } else {
        v as i64
    }
}

/// Floor of the exact quotient `n / d` for a non-zero divisor of either sign.
pub open spec fn floor_div(n: int, d: int) -> int {
    if d > 0 {
        n / d
    } else {
        (-n) / (-d)
    }
}

/// The sum, kept within the saturation range.
pub open spec fn plus_spec(a: Fixed, b: Fixed) -> Fixed {
    saturate(a + b)
}

/// The difference, kept within the saturation range.
pub open spec fn minus_spec(a: Fixed, b: Fixed) -> Fixed {
    saturate(a - b)
}

/// The product, rounded down and kept within the saturation range.
pub open spec fn times_spec(a: Fixed, b: Fixed) -> Fixed {
    saturate((a * b) / (ONE as int))
}

/// The quotient, rounded down and kept within the saturation range.
/// Division by zero saturates towards the sign of the dividend.
pub open spec fn over_spec(a: Fixed, b: Fixed) -> Fixed {
    if b == 0 {
        if a > 0 {
            INFINITE
        } else if a < 0 {
            (-INFINITE) as i64
        } else {
            0
        }
    } else {
        saturate(floor_div(a * ONE, b as int))
    }
}

/// The largest whole number not above the value.
pub open spec fn floor_spec(a: Fixed) -> i64 {
    (a / ONE) as i64
}

/// The distance from the value down to its floor, in `[0, ONE)`.
pub open spec fn frac_spec(a: Fixed) -> Fixed {
    (a % ONE) as i64
}

/// The whole number as a fixed-point value, kept within the saturation
/// range.
pub open spec fn from_int_spec(n: i64) -> Fixed {
    saturate(n * ONE)
}

/// The value taken a whole number of times.
pub open spec fn scaled_spec(a: Fixed, n: i64) -> Fixed {
    saturate(a * n)
}

/// Half the value, rounded down.
pub open spec fn halved_spec(a: Fixed) -> Fixed {
    (a / 2) as i64
}

/// The value with its sign turned, within the saturation range.
pub open spec fn negated_spec(a: Fixed) -> Fixed {
    saturate(-a)
}

/// The product of two 64-bit integers fits in 128 bits.
proof fn lemma_product_fits(a: i64, b: i64)
    by (nonlinear_arith)
    ensures
        -0x4000_0000_0000_0000_0000_0000_0000_0000 <= a * b
            <= 0x4000_0000_0000_0000_0000_0000_0000_0000,
{
}

/// Dividing by a positive integer never moves a value away from zero.
proof fn lemma_quotient_bounded(n: int, d: int)
    by (nonlinear_arith)
    requires
        d > 0,
    ensures
        n >= 0 ==> 0 <= n / d <= n,
        n < 0 ==> n <= n / d < 0,
{
}

/// Clamps a wide intermediate result to the saturation range.
fn saturate_wide(v: i128) -> (r: Fixed)
    ensures
        r == saturate(v as int),
{
    if v > INFINITE as i128 {
        INFINITE
    } else if v < -(INFINITE as i128) {
        -INFINITE
    } else {
        v as i64
    }
}

/// The sum, saturating.
#[verifier::when_used_as_spec(plus_spec)]
pub fn plus(a: Fixed, b: Fixed) -> (r: Fixed)
    ensures
        r == plus_spec(a, b),
{
    saturate_wide(a as i128 + b as i128)
}

/// The difference, saturating.
#[verifier::when_used_as_spec(minus_spec)]
pub fn minus(a: Fixed, b: Fixed) -> (r: Fixed)
    ensures
        r == minus_spec(a, b),
{
    saturate_wide(a as i128 - b as i128)
}

/// The product, rounded down, saturating.
#[verifier::when_used_as_spec(times_spec)]
pub fn times(a: Fixed, b: Fixed) -> (r: Fixed)
    ensures
        r == times_spec(a, b),
{
    proof {
        lemma_product_fits(a, b);
    }
    let wide: i128 = a as i128 * b as i128;
    match wide.checked_div_euclid(ONE as i128) {
        Some(q) => saturate_wide(q),
        None => 0,
    }
}

/// The quotient, rounded down, saturating; division by zero saturates
/// towards the sign of the dividend, and zero by zero is zero.
#[verifier::when_used_as_spec(over_spec)]
pub fn over(a: Fixed, b: Fixed) -> (r: Fixed)
    ensures
        r == over_spec(a, b),
{
    if b == 0 {
        if a > 0 {
            INFINITE
        } else if a < 0 {
            -INFINITE
        } else {
            0
        }
    } else {
        proof {
            lemma_product_fits(a, ONE);
        }
        let wide: i128 = a as i128 * ONE as i128;
        proof {
            if b > 0 {
                lemma_quotient_bounded(wide as int, b as int);
            } else {
                lemma_quotient_bounded(-wide as int, -b as int);
            }
        }
        let q = if b > 0 {
            wide.checked_div_euclid(b as i128)
        } else {
            (-wide).checked_div_euclid(-(b as i128))
        };
        match q {
            Some(q) => saturate_wide(q),
            None => 0,
        }
    }
}

/// The largest whole number not above the value.
#[verifier::when_used_as_spec(floor_spec)]
pub fn floor(a: Fixed) -> (r: i64)
    ensures
        r == floor_spec(a),
{
    match a.checked_div_euclid(ONE) {
        Some(q) => q,
        None => 0,
    }
}

/// The distance from the value down to its floor.
#[verifier::when_used_as_spec(frac_spec)]
pub fn frac(a: Fixed) -> (r: Fixed)
    ensures
        r == frac_spec(a),
        0 <= r < ONE,
{
    match a.checked_rem_euclid(ONE) {
        Some(q) => q,
        None => 0,
    }
}

/// The value taken a whole number of times, saturating.
#[verifier::when_used_as_spec(scaled_spec)]
pub fn scaled(a: Fixed, n: i64) -> (r: Fixed)
    ensures
        r == scaled_spec(a, n),
{
    proof {
        lemma_product_fits(a, n);
    }
    saturate_wide(a as i128 * n as i128)
}

/// Half the value, rounded down.
#[verifier::when_used_as_spec(halved_spec)]
pub fn halved(a: Fixed) -> (r: Fixed)
    ensures
        r == halved_spec(a),
{
    match a.checked_div_euclid(2) {
        Some(q) => q,
        None => 0,
    }
}

/// The value with its sign turned, saturating.
#[verifier::when_used_as_spec(negated_spec)]
pub fn negated(a: Fixed) -> (r: Fixed)
    ensures
        r == negated_spec(a),
{
    saturate_wide(-(a as i128))
}

/// The whole number as a fixed-point value, saturating.
#[verifier::when_used_as_spec(from_int_spec)]
pub fn from_int(n: i64) -> (r: Fixed)
    ensures
        r == from_int_spec(n),
{
    proof {
        lemma_product_fits(n, ONE);
    }
    saturate_wide(n as i128 * ONE as i128)
}

/// Short of saturation the product is the exact product rounded down: the
/// value it stands for is at most the product of the two values, and the
/// next value after it is more.
pub proof fn lemma_times_rounds_down(a: Fixed, b: Fixed)
    requires
        -INFINITE <= (a * b) / (ONE as int) <= INFINITE,
    ensures
        times(a, b) * ONE <= a * b < (times(a, b) + 1) * ONE,
{
    vstd::arithmetic::div_mod::lemma_fundamental_div_mod(a * b, ONE as int);
    vstd::arithmetic::div_mod::lemma_mod_bound(a * b, ONE as int);
    let q = (a * b) / (ONE as int);
    assert(q * ONE == ONE * q) by (nonlinear_arith);
    assert((q + 1) * ONE == ONE * q + ONE) by (nonlinear_arith);
}

/// Short of saturation the quotient by a positive divisor is the exact
/// quotient rounded down: the quotient times the divisor is at most the
/// dividend, and the next value after the quotient times the divisor is
/// more.
pub proof fn lemma_over_rounds_down(a: Fixed, b: Fixed)
    requires
        b > 0,
        -INFINITE <= (a * ONE) / (b as int) <= INFINITE,
    ensures
        over(a, b) * b <= a * ONE < (over(a, b) + 1) * b,
{
    vstd::arithmetic::div_mod::lemma_fundamental_div_mod(a * ONE, b as int);
    vstd::arithmetic::div_mod::lemma_mod_bound(a * ONE, b as int);
    let q = (a * ONE) / (b as int);
    assert(q * b == b * q) by (nonlinear_arith);
    assert((q + 1) * b == b * q + b) by (nonlinear_arith);
}

/// A quotient of something not negative by something not negative is not
/// negative, and neither is such a product.
pub proof fn lemma_sign_kept(a: Fixed, b: Fixed)
    requires
        0 <= a,
        0 <= b,
    ensures
        0 <= over(a, b),
        0 <= times(a, b),
{
    if b > 0 {
        assert(0 <= (a * ONE) / (b as int)) by (nonlinear_arith)
            requires
                0 <= a,
                0 < b,
                ONE == 65536,
        ;
    }
    assert(0 <= (a * b) / (ONE as int)) by (nonlinear_arith)
        requires
            0 <= a,
            0 <= b,
            ONE == 65536,
    ;
}

/// A quotient by a divisor that is not zero is at most the dividend times
/// the raw value of one, and a fraction of a value is at most the value.
pub proof fn lemma_magnitudes(a: Fixed, b: Fixed)
    requires
        0 <= a,
        0 <= b,
    ensures
        b > 0 ==> over(a, b) <= a * ONE,
        a <= ONE ==> times(a, b) <= b,
{
    if b > 0 {
        assert((a * ONE) / (b as int) <= a * ONE) by (nonlinear_arith)
            requires
                0 <= a,
                0 < b,
                ONE == 65536,
        ;
    }
    if a <= ONE {
        assert((a * b) / (ONE as int) <= b) by (nonlinear_arith)
            requires
                0 <= a <= ONE,
                0 <= b,
                ONE == 65536,
        ;
    }
}

/// One divided by one is one.
pub proof fn lemma_one_over_one()
    ensures
        over(ONE, ONE) == ONE,
{
    assert(ONE * ONE == 4294967296) by (nonlinear_arith)
        requires
            ONE == 65536,
    ;
}

/// Multiplying by one changes nothing within the saturation range.
pub proof fn lemma_times_one(v: Fixed)
    requires
        -INFINITE <= v,
    ensures
        times(v, ONE) == v,
        times(ONE, v) == v,
{
    assert((v * ONE) / (ONE as int) == v) by (nonlinear_arith)
        requires
            ONE == 65536,
    ;
    assert((ONE * v) / (ONE as int) == v) by (nonlinear_arith)
        requires
            ONE == 65536,
    ;
}

/// Multiplying by zero gives zero.
pub proof fn lemma_times_zero(v: Fixed)
    ensures
        times(v, 0) == 0,
        times(0, v) == 0,
{
    assert(v * 0 == 0) by (nonlinear_arith);
    assert(0 * v == 0) by (nonlinear_arith);
}

} // verus!

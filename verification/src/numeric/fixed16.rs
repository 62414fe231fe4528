//! 16-bit fixed-point format.
//!
//! A value of [`x16`] stands for its raw integer divided by [`SCALE`]. All
//! arithmetic saturates: a result beyond the largest or the smallest value
//! becomes that value. Products and quotients are rescaled in a wider
//! integer before they are cut down, and are rounded towards zero.

use crate::numeric::Numeric;
use vstd::prelude::*;

verus! {

/// Scale of the fixed-point format: the raw integer of the value one.
pub const SCALE: i16 = 1_000;

/// The scale of the intermediate values of `exp`: `1000 * 2^40`.
pub const EXP_SCALE: u128 = 1_099_511_627_776_000;

/// The cap on the intermediate values of `exp`: `33 * EXP_SCALE`, beyond
/// which the result saturates in any case.
pub const EXP_CAP: u128 = 36_283_883_716_608_000;

/// The increment of the first intermediate value of `exp` per raw unit:
/// `2^20`.
pub const EXP_UNIT: i128 = 1_048_576;

/// The number of squarings in `exp`.
pub const EXP_SQUARINGS: u8 = 20;

/// Fixed-point value with 16 bits of precision.
#[allow(non_camel_case_types)]
#[derive(Clone, Copy, Debug, PartialEq, PartialOrd)]
pub struct x16(pub i16);

/// `v`, or the nearest raw integer that an `x16` can hold.
pub open spec fn saturated(v: int) -> int {
    if v < i16::MIN {
        i16::MIN as int
    } else if v > i16::MAX {
        i16::MAX as int
    } else {
        v
    }
}

/// `a / b` rounded towards zero, for `b != 0`.
pub open spec fn quotient_towards_zero(a: int, b: int) -> int {
    if b > 0 {
        if a >= 0 {
            a / b
        } else {
            -((-a) / b)
        }
    } else {
        if a >= 0 {
            -(a / (-b))
        } else {
            (-a) / (-b)
        }
    }
}

/// The raw integer of the product of the values with raw integers `a` and
/// `b`: `a * b / SCALE`, rounded towards zero, saturated.
pub open spec fn product_raw(a: int, b: int) -> int {
    saturated(quotient_towards_zero(a * b, SCALE as int))
}

/// The raw integer of the quotient of the values with raw integers `a` and
/// `b`: `a * SCALE / b`, rounded towards zero, saturated. A zero divisor
/// yields the largest value for a positive dividend, the smallest for a
/// negative one, and zero for zero.
pub open spec fn quotient_raw(a: int, b: int) -> int {
    if b == 0 {
        if a > 0 {
            i16::MAX as int
        } else if a < 0 {
            i16::MIN as int
        } else {
            0
        }
    } else {
        saturated(quotient_towards_zero(a * SCALE, b))
    }
}

/// One squaring in `exp`: `y² / EXP_SCALE`, capped at `EXP_CAP`.
pub open spec fn squared(y: int) -> int {
    if y * y / (EXP_SCALE as int) > EXP_CAP {
        EXP_CAP as int
    } else {
        y * y / (EXP_SCALE as int)
    }
}

/// `y` squared `n` times.
pub open spec fn squared_times(y: int, n: nat) -> int
    decreases n,
{
    if n == 0 {
        y
    } else {
        squared(squared_times(y, (n - 1) as nat))
    }
}

/// The first intermediate value of `exp` for the raw integer `x`:
/// `1 + x / (SCALE * 2^20)`, at the scale `EXP_SCALE`.
pub open spec fn exp_seed(x: int) -> int {
    EXP_SCALE + x * EXP_UNIT
}

/// The raw integer of the exponential of the value with raw integer `x`.
///
/// The exponential of `v` is taken as `(1 + v / n)^n` with `n = 2^20`,
/// which is reached by twenty squarings; every intermediate value is
/// rounded down at the scale `EXP_SCALE`, and the result is saturated.
pub open spec fn exp_raw(x: int) -> int {
    saturated(squared_times(exp_seed(x), EXP_SQUARINGS as nat) * SCALE / (EXP_SCALE as int))
}

/// The least raw integer from `r` on whose exponential reaches `y`, or the
/// largest raw integer if there is none.
pub open spec fn log_from(y: int, r: int) -> int
    decreases i16::MAX - r,
{
    if r >= i16::MAX || exp_raw(r) >= y {
        r
    } else {
        log_from(y, r + 1)
    }
}

/// The raw integer of the natural logarithm of the value with raw integer
/// `y`: the least raw integer whose exponential reaches `y`. For `y <= 0`
/// this is the smallest raw integer.
pub open spec fn log_raw(y: int) -> int {
    log_from(y, i16::MIN as int)
}

/// Squaring keeps the order of intermediate values.
pub proof fn lemma_squared_times_ordered(y: int, z: int, n: nat)
    requires
        0 <= y <= z,
    ensures
        squared_times(y, n) <= squared_times(z, n),
        0 <= squared_times(y, n),
    decreases n,
{
    if n > 0 {
        lemma_squared_times_ordered(y, z, (n - 1) as nat);
        let a = squared_times(y, (n - 1) as nat);
        let b = squared_times(z, (n - 1) as nat);
        assert(0 <= a * a <= b * b) by (nonlinear_arith)
            requires
                0 <= a <= b,
        ;
        vstd::arithmetic::div_mod::lemma_div_is_ordered(a * a, b * b, EXP_SCALE as int);
        vstd::arithmetic::div_mod::lemma_div_pos_is_pos(a * a, EXP_SCALE as int);
    }
}

/// An intermediate value of at most `EXP_SCALE` never grows by squaring.
pub proof fn lemma_squared_times_shrinks(y: int, n: nat)
    requires
        0 <= y <= EXP_SCALE,
    ensures
        0 <= squared_times(y, n) <= y,
    decreases n,
{
    if n > 0 {
        lemma_squared_times_shrinks(y, (n - 1) as nat);
        let a = squared_times(y, (n - 1) as nat);
        assert(0 <= a * a <= a * EXP_SCALE) by (nonlinear_arith)
            requires
                0 <= a <= EXP_SCALE,
        ;
        vstd::arithmetic::div_mod::lemma_div_is_ordered(a * a, a * EXP_SCALE, EXP_SCALE as int);
        vstd::arithmetic::div_mod::lemma_div_pos_is_pos(a * a, EXP_SCALE as int);
        vstd::arithmetic::div_mod::lemma_div_multiples_vanish(a, EXP_SCALE as int);
        assert(a * EXP_SCALE == EXP_SCALE * a) by (nonlinear_arith);
    }
}

/// The intermediate value `EXP_SCALE`, which stands for one, stays put.
pub proof fn lemma_squared_times_one(n: nat)
    ensures
        squared_times(EXP_SCALE as int, n) == EXP_SCALE,
    decreases n,
{
    if n > 0 {
        lemma_squared_times_one((n - 1) as nat);
        vstd::arithmetic::div_mod::lemma_div_multiples_vanish(EXP_SCALE as int, EXP_SCALE as int);
    }
}

/// The exponential is monotone.
pub proof fn lemma_exp_ordered(x: int, y: int)
    requires
        i16::MIN <= x <= y <= i16::MAX,
    ensures
        exp_raw(x) <= exp_raw(y),
{
    assert(0 <= exp_seed(x) <= exp_seed(y)) by (nonlinear_arith)
        requires
            i16::MIN <= x <= y <= i16::MAX,
            exp_seed(x) == EXP_SCALE + x * EXP_UNIT,
            exp_seed(y) == EXP_SCALE + y * EXP_UNIT,
            EXP_SCALE == 1_099_511_627_776_000,
            EXP_UNIT == 1_048_576,
    ;
    lemma_squared_times_ordered(exp_seed(x), exp_seed(y), EXP_SQUARINGS as nat);
    let a = squared_times(exp_seed(x), EXP_SQUARINGS as nat);
    let b = squared_times(exp_seed(y), EXP_SQUARINGS as nat);
    vstd::arithmetic::div_mod::lemma_div_is_ordered(a * SCALE, b * SCALE, EXP_SCALE as int);
}

/// The exponential of zero is one.
pub proof fn lemma_exp_zero()
    ensures
        exp_raw(0) == SCALE,
{
    lemma_squared_times_one(EXP_SQUARINGS as nat);
    vstd::arithmetic::div_mod::lemma_div_multiples_vanish(SCALE as int, EXP_SCALE as int);
    assert(EXP_SCALE * SCALE == SCALE * EXP_SCALE) by (nonlinear_arith);
}

/// The exponential is never negative, and at most one for an argument of
/// at most zero; for a negative argument it is less than one.
pub proof fn lemma_exp_range(x: int)
    requires
        i16::MIN <= x <= i16::MAX,
    ensures
        0 <= exp_raw(x),
        x <= 0 ==> exp_raw(x) <= SCALE,
        x < 0 ==> exp_raw(x) < SCALE,
{
    lemma_exp_ordered(i16::MIN as int, x);
    assert(0 <= exp_seed(i16::MIN as int)) by (nonlinear_arith)
        requires
            exp_seed(i16::MIN as int) == EXP_SCALE + (i16::MIN as int) * EXP_UNIT,
            EXP_SCALE == 1_099_511_627_776_000,
            EXP_UNIT == 1_048_576,
    ;
    lemma_squared_times_ordered(0, exp_seed(i16::MIN as int), EXP_SQUARINGS as nat);
    let low = squared_times(exp_seed(i16::MIN as int), EXP_SQUARINGS as nat);
    assert(0 <= low * SCALE) by (nonlinear_arith)
        requires
            0 <= low,
            SCALE == 1000,
    ;
    vstd::arithmetic::div_mod::lemma_div_pos_is_pos(low * SCALE, EXP_SCALE as int);
    if x <= 0 {
        lemma_exp_ordered(x, 0);
        lemma_exp_zero();
    }
    if x < 0 {
        let seed = exp_seed(x);
        assert(0 <= seed <= EXP_SCALE - EXP_UNIT) by (nonlinear_arith)
            requires
                i16::MIN <= x < 0,
                seed == EXP_SCALE + x * EXP_UNIT,
                EXP_SCALE == 1_099_511_627_776_000,
                EXP_UNIT == 1_048_576,
        ;
        lemma_squared_times_shrinks(seed, EXP_SQUARINGS as nat);
        let last = squared_times(seed, EXP_SQUARINGS as nat);
        assert(0 <= last * SCALE < EXP_SCALE * SCALE) by (nonlinear_arith)
            requires
                0 <= last <= EXP_SCALE - EXP_UNIT,
                SCALE == 1000,
                EXP_SCALE == 1_099_511_627_776_000,
                EXP_UNIT == 1_048_576,
        ;
        vstd::arithmetic::div_mod::lemma_multiply_divide_lt(
            last * SCALE,
            EXP_SCALE as int,
            SCALE as int,
        );
    }
}

/// Where no raw integer from `a` up to `r` has an exponential that reaches
/// `y`, and `r` has one or is the largest raw integer, the search from `a`
/// ends at `r`.
pub proof fn lemma_log_from(y: int, a: int, r: int)
    requires
        a <= r <= i16::MAX,
        forall|k: int| a <= k < r ==> exp_raw(k) < y,
        r == i16::MAX || exp_raw(r) >= y,
    ensures
        log_from(y, a) == r,
    decreases r - a,
{
    if a < r {
        lemma_log_from(y, a + 1, r);
    }
}

/// `c` doubled `n` times.
pub open spec fn doubled(c: int, n: nat) -> int
    decreases n,
{
    if n == 0 {
        c
    } else {
        2 * doubled(c, (n - 1) as nat)
    }
}

/// Squaring at least doubles the distance from one: an intermediate value
/// of at least `1 + c` is, after `n` squarings, at least `1 + 2^n * c`,
/// unless the cap is reached.
pub proof fn lemma_squared_times_above_line(y: int, c: int, n: nat)
    requires
        0 <= y <= EXP_CAP,
        EXP_SCALE + c <= y,
    ensures
        squared_times(y, n) >= EXP_CAP || squared_times(y, n) >= EXP_SCALE + doubled(c, n),
        0 <= squared_times(y, n),
    decreases n,
{
    if n > 0 {
        lemma_squared_times_above_line(y, c, (n - 1) as nat);
        let z = squared_times(y, (n - 1) as nat);
        let d = doubled(c, (n - 1) as nat);
        assert(0 <= z * z) by (nonlinear_arith);
        vstd::arithmetic::div_mod::lemma_div_pos_is_pos(z * z, EXP_SCALE as int);
        if z < EXP_CAP && EXP_SCALE + 2 * d > 0 {
            assert(z * z >= EXP_SCALE * (EXP_SCALE + 2 * d)) by (nonlinear_arith)
                requires
                    z >= EXP_SCALE + d,
                    EXP_SCALE + 2 * d > 0,
                    EXP_SCALE > 0,
            ;
            vstd::arithmetic::div_mod::lemma_div_is_ordered(
                EXP_SCALE * (EXP_SCALE + 2 * d),
                z * z,
                EXP_SCALE as int,
            );
            vstd::arithmetic::div_mod::lemma_div_multiples_vanish(
                EXP_SCALE + 2 * d,
                EXP_SCALE as int,
            );
        } else if z >= EXP_CAP {
            assert(z * z >= EXP_SCALE * EXP_CAP) by (nonlinear_arith)
                requires
                    z >= EXP_CAP,
                    EXP_CAP >= EXP_SCALE,
                    EXP_SCALE > 0,
            ;
            vstd::arithmetic::div_mod::lemma_div_is_ordered(
                EXP_SCALE * EXP_CAP,
                z * z,
                EXP_SCALE as int,
            );
            vstd::arithmetic::div_mod::lemma_div_multiples_vanish(
                EXP_CAP as int,
                EXP_SCALE as int,
            );
        }
    }
}

/// The exponential lies on or above its tangent at zero: `exp(v)` is at
/// least `1 + v`, as far as the format can hold `1 + v`.
pub proof fn lemma_exp_above_tangent(x: int)
    requires
        i16::MIN <= x <= i16::MAX,
    ensures
        exp_raw(x) >= saturated(SCALE + x),
{
    let seed = exp_seed(x);
    assert(0 <= seed <= EXP_CAP && seed == EXP_SCALE + x * EXP_UNIT) by (nonlinear_arith)
        requires
            i16::MIN <= x <= i16::MAX,
            seed == EXP_SCALE + x * EXP_UNIT,
            EXP_SCALE == 1_099_511_627_776_000,
            EXP_UNIT == 1_048_576,
            EXP_CAP == 36_283_883_716_608_000,
    ;
    lemma_squared_times_above_line(seed, x * EXP_UNIT, EXP_SQUARINGS as nat);
    lemma_exp_range(x);
    let last = squared_times(seed, EXP_SQUARINGS as nat);
    assert(doubled(x * EXP_UNIT, 20) == 1_048_576 * (x * EXP_UNIT)) by {
        reveal_with_fuel(doubled, 21);
    }
    assert(1_048_576 * (x * EXP_UNIT) == x * 1_099_511_627_776) by (nonlinear_arith)
        requires
            EXP_UNIT == 1_048_576,
    ;
    if last >= EXP_CAP {
        assert(last * SCALE >= EXP_SCALE * 33000) by (nonlinear_arith)
            requires
                last >= EXP_CAP,
                EXP_CAP == 33 * EXP_SCALE,
                SCALE == 1000,
        ;
        vstd::arithmetic::div_mod::lemma_div_is_ordered(
            EXP_SCALE * 33000,
            last * SCALE,
            EXP_SCALE as int,
        );
        vstd::arithmetic::div_mod::lemma_div_multiples_vanish(33000, EXP_SCALE as int);
    } else if SCALE + x > 0 {
        assert(last * SCALE >= EXP_SCALE * (SCALE + x)) by (nonlinear_arith)
            requires
                last >= EXP_SCALE + x * 1_099_511_627_776,
                EXP_SCALE == 1_099_511_627_776_000,
                SCALE == 1000,
        ;
        vstd::arithmetic::div_mod::lemma_div_is_ordered(
            EXP_SCALE * (SCALE + x),
            last * SCALE,
            EXP_SCALE as int,
        );
        vstd::arithmetic::div_mod::lemma_div_multiples_vanish(SCALE + x, EXP_SCALE as int);
    }
}

/// Squaring keeps an intermediate value below the hyperbola: a value
/// `y` with `y * (1 + c) <= 1` is, after `n` squarings, a value `z` with
/// `z * (1 + 2^n * c) <= 1`.
pub proof fn lemma_squared_times_below_hyperbola(y: int, c: int, n: nat)
    requires
        0 <= y <= EXP_SCALE,
        0 <= c,
        y * (EXP_SCALE + c) <= EXP_SCALE * EXP_SCALE,
    ensures
        0 <= squared_times(y, n) <= EXP_SCALE,
        0 <= doubled(c, n),
        squared_times(y, n) * (EXP_SCALE + doubled(c, n)) <= EXP_SCALE * EXP_SCALE,
    decreases n,
{
    if n > 0 {
        lemma_squared_times_below_hyperbola(y, c, (n - 1) as nat);
        lemma_squared_times_shrinks(y, n);
        let s = EXP_SCALE as int;
        let z = squared_times(y, (n - 1) as nat);
        let d = doubled(c, (n - 1) as nat);
        let a = z * (s + d);
        let w = z * z / s;
        assert(0 <= z * z) by (nonlinear_arith);
        vstd::arithmetic::div_mod::lemma_fundamental_div_mod(z * z, s);
        vstd::arithmetic::div_mod::lemma_mod_bound(z * z, s);
        vstd::arithmetic::div_mod::lemma_div_pos_is_pos(z * z, s);
        assert(w * s <= z * z) by (nonlinear_arith)
            requires
                z * z == s * w + (z * z) % s,
                0 <= (z * z) % s,
        ;
        assert(a * a <= (s * s) * (s * s)) by (nonlinear_arith)
            requires
                0 <= a <= s * s,
                a == z * (s + d),
                0 <= z,
                0 <= d,
                0 < s,
        ;
        assert((z * z) * (s * (s + 2 * d)) <= a * a) by (nonlinear_arith)
            requires
                a == z * (s + d),
                0 <= z * z,
                0 <= d,
        ;
        assert((w * (s + 2 * d)) * (s * s) <= (z * z) * (s * (s + 2 * d))) by (nonlinear_arith)
            requires
                w * s <= z * z,
                0 <= w,
                0 <= d,
                0 < s,
        ;
        assert(w * (s + 2 * d) <= s * s) by (nonlinear_arith)
            requires
                (w * (s + 2 * d)) * (s * s) <= (s * s) * (s * s),
                0 < s,
        ;
        assert(w <= z) by (nonlinear_arith)
            requires
                w * s <= z * z,
                0 <= z <= s,
                0 <= w,
                0 < s,
        ;
    }
}

/// The exponential of a value `v` of at most zero lies on or below
/// `1 / (1 - v)`.
pub proof fn lemma_exp_below_hyperbola(x: int)
    requires
        i16::MIN <= x <= 0,
    ensures
        exp_raw(x) * (SCALE - x) <= SCALE * SCALE,
{
    let s = EXP_SCALE as int;
    let seed = exp_seed(x);
    let c = -x * EXP_UNIT;
    assert(0 <= seed <= s && 0 <= c && seed == s - c && seed * (s + c) <= s * s)
        by (nonlinear_arith)
        requires
            i16::MIN <= x <= 0,
            seed == EXP_SCALE + x * EXP_UNIT,
            c == -x * EXP_UNIT,
            s == 1_099_511_627_776_000,
            EXP_SCALE == 1_099_511_627_776_000,
            EXP_UNIT == 1_048_576,
    ;
    lemma_squared_times_below_hyperbola(seed, c, EXP_SQUARINGS as nat);
    lemma_exp_range(x);
    let last = squared_times(seed, EXP_SQUARINGS as nat);
    assert(doubled(c, 20) == 1_048_576 * c) by {
        reveal_with_fuel(doubled, 21);
    }
    assert(1_048_576 * c == -x * 1_099_511_627_776) by (nonlinear_arith)
        requires
            c == -x * EXP_UNIT,
            EXP_UNIT == 1_048_576,
    ;
    let r = last * SCALE / s;
    assert(0 <= last * SCALE) by (nonlinear_arith)
        requires
            0 <= last,
            SCALE == 1000,
    ;
    vstd::arithmetic::div_mod::lemma_fundamental_div_mod(last * SCALE, s);
    vstd::arithmetic::div_mod::lemma_mod_bound(last * SCALE, s);
    vstd::arithmetic::div_mod::lemma_div_pos_is_pos(last * SCALE, s);
    assert(r * (SCALE - x) <= SCALE * SCALE) by (nonlinear_arith)
        requires
            last * SCALE == s * r + (last * SCALE) % s,
            0 <= (last * SCALE) % s,
            0 <= r,
            last * (s + -x * 1_099_511_627_776) <= s * s,
            s == 1_099_511_627_776_000,
            SCALE == 1000,
            x <= 0,
    ;
}

/// The logarithm of one is zero.
pub proof fn lemma_log_one()
    ensures
        log_raw(SCALE as int) == 0,
{
    assert forall|k: int| i16::MIN <= k < 0 implies exp_raw(k) < SCALE by {
        lemma_exp_range(k);
    }
    lemma_exp_zero();
    lemma_log_from(SCALE as int, i16::MIN as int, 0);
}

impl x16 {
    /// Generate a random value between 0 and 1.
    pub fn random() -> (r: Self)
        ensures
            0 <= r.0 < SCALE,
    {
        Self(random_below(SCALE))
    }

    /// Zero.
    pub fn zero() -> (r: Self)
        ensures
            r.0 == 0,
    {
        Self(0)
    }

    /// One.
    pub fn one() -> (r: Self)
        ensures
            r.0 == SCALE,
    {
        Self(SCALE)
    }

    /// A tiny value: the smallest positive one.
    pub fn tiny() -> (r: Self)
        ensures
            r.0 == 1,
    {
        Self(1)
    }

    /// Most negative possible value.
    pub fn neginf() -> (r: Self)
        ensures
            r.0 == i16::MIN,
    {
        Self(i16::MIN)
    }

    /// Exponential.
    pub fn exp(self) -> (r: Self)
        ensures
            r.0 == exp_raw(self.0 as int),
    {
        let ghost seed = exp_seed(self.0 as int);
        assert(0 <= seed <= EXP_CAP) by (nonlinear_arith)
            requires
                i16::MIN <= self.0 <= i16::MAX,
                seed == EXP_SCALE + (self.0 as int) * EXP_UNIT,
                EXP_SCALE == 1_099_511_627_776_000,
                EXP_UNIT == 1_048_576,
                EXP_CAP == 36_283_883_716_608_000,
        ;
        let shift: i128 = (self.0 as i128) * EXP_UNIT;
        let mut y: u128 = ((EXP_SCALE as i128) + shift) as u128;
        let mut n: u8 = 0;
        while n < EXP_SQUARINGS
            invariant
                n <= EXP_SQUARINGS,
                0 <= y <= EXP_CAP,
                y == squared_times(seed, n as nat),
            decreases EXP_SQUARINGS - n,
        {
            assert(0 <= y * y <= EXP_CAP * EXP_CAP) by (nonlinear_arith)
                requires
                    0 <= y <= EXP_CAP,
            ;
            let square: u128 = y * y / EXP_SCALE;
            y = if square > EXP_CAP {
                EXP_CAP
            } else {
                square
            };
            n += 1;
        }
        assert(0 <= y * 1000 <= EXP_CAP * 1000) by (nonlinear_arith)
            requires
                0 <= y <= EXP_CAP,
        ;
        let value: u128 = y * 1000 / EXP_SCALE;
        if value > 32767 {
            Self(i16::MAX)
        } else {
            Self(value as i16)
        }
    }

    /// Natural logarithm.
    pub fn log(self) -> (r: Self)
        ensures
            r.0 == log_raw(self.0 as int),
    {
        let y: i16 = self.0;
        let mut lo: i32 = i16::MIN as i32;
        let mut hi: i32 = i16::MAX as i32;
        while lo < hi
            invariant
                i16::MIN <= lo <= hi <= i16::MAX,
                forall|k: int| i16::MIN <= k < lo ==> exp_raw(k) < y,
                hi == i16::MAX || exp_raw(hi as int) >= y,
            decreases hi - lo,
        {
            let mid: i32 = lo + (hi - lo) / 2;
            let at_mid = Self(mid as i16).exp();
            if at_mid.0 >= y {
                hi = mid;
            } else {
                proof {
                    assert forall|k: int| i16::MIN <= k < mid + 1 implies exp_raw(k) < y by {
                        lemma_exp_ordered(k, mid as int);
                    }
                }
                lo = mid + 1;
            }
        }
        proof {
            lemma_log_from(y as int, i16::MIN as int, lo as int);
        }
        Self(lo as i16)
    }

    /// The sum, saturated.
    pub fn plus(self, rhs: Self) -> (r: Self)
        ensures
            r.0 == saturated(self.0 + rhs.0),
    {
        Self(saturate((self.0 as i64) + (rhs.0 as i64)))
    }

    /// The difference, saturated.
    pub fn minus(self, rhs: Self) -> (r: Self)
        ensures
            r.0 == saturated(self.0 - rhs.0),
    {
        Self(saturate((self.0 as i64) - (rhs.0 as i64)))
    }

    /// The product, rescaled, rounded towards zero and saturated.
    pub fn times(self, rhs: Self) -> (r: Self)
        ensures
            r.0 == product_raw(self.0 as int, rhs.0 as int),
    {
        assert(-1_073_741_824 <= self.0 * rhs.0 <= 1_073_741_824) by (nonlinear_arith)
            requires
                -32768 <= self.0 <= 32767,
                -32768 <= rhs.0 <= 32767,
        ;
        let product: i64 = (self.0 as i64) * (rhs.0 as i64);
        Self(saturate(divide_towards_zero(product, SCALE as i64)))
    }

    /// The quotient, rescaled, rounded towards zero and saturated; for a
    /// zero divisor, the largest or the smallest value by the sign of the
    /// dividend, and zero for zero by zero.
    pub fn over(self, rhs: Self) -> (r: Self)
        ensures
            r.0 == quotient_raw(self.0 as int, rhs.0 as int),
    {
        if rhs.0 == 0 {
            if self.0 > 0 {
                Self(i16::MAX)
            } else if self.0 < 0 {
                Self(i16::MIN)
            } else {
                Self(0)
            }
        } else {
            assert(-32_768_000 <= self.0 * SCALE <= 32_767_000) by (nonlinear_arith)
                requires
                    -32768 <= self.0 <= 32767,
                    SCALE == 1000,
            ;
            let scaled: i64 = (self.0 as i64) * (SCALE as i64);
            Self(saturate(divide_towards_zero(scaled, rhs.0 as i64)))
        }
    }

    /// The negation, saturated.
    pub fn negated(self) -> (r: Self)
        ensures
            r.0 == saturated(-self.0),
    {
        Self(saturate(-(self.0 as i64)))
    }
}

/// `v`, or the nearest value that fits.
fn saturate(v: i64) -> (r: i16)
    ensures
        r == saturated(v as int),
{
    if v < i16::MIN as i64 {
        i16::MIN
    } else if v > i16::MAX as i64 {
        i16::MAX
    } else {
        v as i16
    }
}

/// `a / b`, rounded towards zero.
fn divide_towards_zero(a: i64, b: i64) -> (r: i64)
    requires
        b != 0,
        -0x4000_0000 <= a <= 0x4000_0000,
        -0x4000_0000 <= b <= 0x4000_0000,
    ensures
        r == quotient_towards_zero(a as int, b as int),
{
    let p: u64 = if a < 0 {
        (-a) as u64
    } else {
        a as u64
    };
    let q: u64 = if b < 0 {
        (-b) as u64
    } else {
        b as u64
    };
    let m: u64 = p / q;
    assert(m <= p) by {
        vstd::arithmetic::div_mod::lemma_div_is_ordered_by_denominator(p as int, 1, q as int);
    }
    if (a < 0) == (b < 0) {
        m as i64
    } else {
        -(m as i64)
    }
}

/// A random integer from zero up to, and without, `bound`, drawn by
/// `rand::random_range` from the thread-local generator.
///
/// `random_range` returns a value within the range it is given, and
/// panics on an empty range, which the precondition rules out.
#[verifier::external_body]
fn random_below(bound: i16) -> (r: i16)
    requires
        0 < bound,
    ensures
        0 <= r < bound,
{
    rand::random_range(0..bound)
}

impl Numeric for x16 {
    open spec fn zero_spec() -> Self {
        x16(0)
    }

    open spec fn one_spec() -> Self {
        x16(SCALE)
    }

    open spec fn tiny_spec() -> Self {
        x16(1)
    }

    open spec fn neginf_spec() -> Self {
        x16(i16::MIN)
    }

    open spec fn exp_spec(self) -> Self {
        x16(exp_raw(self.0 as int) as i16)
    }

    open spec fn log_spec(self) -> Self {
        x16(log_raw(self.0 as int) as i16)
    }

    /// A random value lies between zero and one, one left out.
    open spec fn random_spec(self) -> bool {
        0 <= self.0 < SCALE
    }

    open spec fn add_spec(self, rhs: Self) -> Self {
        x16(saturated(self.0 + rhs.0) as i16)
    }

    open spec fn sub_spec(self, rhs: Self) -> Self {
        x16(saturated(self.0 - rhs.0) as i16)
    }

    open spec fn mul_spec(self, rhs: Self) -> Self {
        x16(product_raw(self.0 as int, rhs.0 as int) as i16)
    }

    open spec fn div_spec(self, rhs: Self) -> Self {
        x16(quotient_raw(self.0 as int, rhs.0 as int) as i16)
    }

    open spec fn neg_spec(self) -> Self {
        x16(saturated(-self.0) as i16)
    }

    open spec fn lt_spec(self, rhs: Self) -> bool {
        self.0 < rhs.0
    }

    open spec fn le_spec(self, rhs: Self) -> bool {
        self.0 <= rhs.0
    }

    open spec fn eq_spec(self, rhs: Self) -> bool {
        self.0 == rhs.0
    }

    fn zero() -> (r: Self) {
        x16::zero()
    }

    fn one() -> (r: Self) {
        x16::one()
    }

    fn tiny() -> (r: Self) {
        x16::tiny()
    }

    fn neginf() -> (r: Self) {
        x16::neginf()
    }

    fn exp(self) -> (r: Self) {
        x16::exp(self)
    }

    fn log(self) -> (r: Self) {
        x16::log(self)
    }

    fn random() -> (r: Self) {
        x16::random()
    }

    fn add(self, rhs: Self) -> (r: Self) {
        self.plus(rhs)
    }

    fn sub(self, rhs: Self) -> (r: Self) {
        self.minus(rhs)
    }

    fn mul(self, rhs: Self) -> (r: Self) {
        self.times(rhs)
    }

    fn div(self, rhs: Self) -> (r: Self) {
        self.over(rhs)
    }

    fn neg(self) -> (r: Self) {
        self.negated()
    }

    fn lt(self, rhs: Self) -> (r: bool) {
        self.0 < rhs.0
    }

    fn le(self, rhs: Self) -> (r: bool) {
        self.0 <= rhs.0
    }

    fn eq(self, rhs: Self) -> (r: bool) {
        self.0 == rhs.0
    }
}

} // verus!

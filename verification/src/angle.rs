//! Fixed-point angles and trigonometry.
//!
//! An angle is a signed count of binary angle units; `FULL_TURN` units make
//! one whole revolution, so a value stands for `a / FULL_TURN` turns.
//! `FULL_TURN` is divisible by 48, which lets a sixth, a twelfth and a
//! sixteenth of a turn (the camera defaults and the usual turn increments)
//! be written exactly.
//!
//! Sine and cosine are computed by a rational approximation (a quadratic
//! numerator over a quadratic denominator, exact at every multiple of a
//! twelfth of a turn on the axes) whose result is scaled by `TRIG_ONE`.

use vstd::prelude::*;
use vstd::arithmetic::div_mod::{
    lemma_fundamental_div_mod, lemma_fundamental_div_mod_converse_mod,
    lemma_fundamental_div_mod_converse_div,
    lemma_mod_division_less_than_divisor, lemma_div_is_ordered, lemma_div_pos_is_pos,
    lemma_div_by_multiple, lemma_div_nonincreasing,
};

verus! {

/// Number of angle units in one full turn.
pub const FULL_TURN: i64 = 196608;

/// Number of angle units in half a turn.
pub const HALF_TURN: i64 = 98304;

/// Number of angle units in a quarter turn.
pub const QUARTER_TURN: i64 = 49152;

/// Fixed-point scale of trigonometric results: `sin` and `cos` range over
/// `[-TRIG_ONE, TRIG_ONE]`.
pub const TRIG_ONE: i64 = 65536;

/// An angle reduced into `[0, FULL_TURN)`, as Euclidean remainder.
pub open spec fn norm_spec(a: int) -> int {
    a % (FULL_TURN as int)
}

/// Quotient rounded toward zero, as machine division computes it
/// (for a positive divisor).
pub open spec fn div_trunc(a: int, b: int) -> int {
    if a >= 0 {
        a / b
    } else {
        -((-a) / b)
    }
}

/// Every normalized angle lies in `[0, FULL_TURN)`: the angle function can
/// never hand out a value outside one turn.
pub proof fn lemma_norm_in_range(a: int)
    ensures
        0 <= norm_spec(a) < FULL_TURN,
{
    lemma_mod_division_less_than_divisor(a, FULL_TURN as int);
}

/// Reduce an angle into `[0, FULL_TURN)`.
///
/// A plain remainder of a negative operand would land in `(-FULL_TURN, 0]`,
/// so the remainder is taken, shifted up one turn, and reduced once more.
pub fn normalize_angle(a: i64) -> (r: i64)
    ensures
        r == norm_spec(a as int),
        0 <= r < FULL_TURN,
{
    let t: i64 = a % FULL_TURN;
    let r: i64 = (t + FULL_TURN) % FULL_TURN;
    proof {
        lemma_truncated_shift_is_norm(a as int, t as int, r as int);
    }
    r
}

/// Relates the two truncated machine remainders computed by
/// `normalize_angle` to the Euclidean remainder `norm_spec`.
proof fn lemma_truncated_shift_is_norm(a: int, t: int, r: int)
    requires
        t == if a >= 0 { a % (FULL_TURN as int) } else { -((-a) % (FULL_TURN as int)) },
        r == (t + FULL_TURN) % (FULL_TURN as int),
    ensures
        r == norm_spec(a),
{
    let f = FULL_TURN as int;
    if a >= 0 {
        lemma_mod_division_less_than_divisor(a, f);
        lemma_fundamental_div_mod(a, f);
        // t + f == 1 * f + t with 0 <= t < f
        lemma_fundamental_div_mod_converse_mod(t + f, f, 1, t);
    } else {
        let u = (-a) % f;
        lemma_mod_division_less_than_divisor(-a, f);
        lemma_fundamental_div_mod(-a, f);
        let q = (-a) / f;
        // -a == q * f + u, hence a == (-q) * f - u
        if u == 0 {
            assert(a == (-q) * f + 0) by (nonlinear_arith)
                requires -a == q * f + u && u == 0;
            lemma_fundamental_div_mod_converse_mod(a, f, -q, 0);
            lemma_fundamental_div_mod_converse_mod(t + f, f, 1, 0);
        } else {
            assert(a == (-q - 1) * f + (f - u)) by (nonlinear_arith)
                requires -a == q * f + u;
            lemma_fundamental_div_mod_converse_mod(a, f, -q - 1, f - u);
            lemma_fundamental_div_mod_converse_mod(t + f, f, 0, f - u);
        }
    }
}

/// A truncated quotient never grows past its dividend in magnitude.
pub proof fn lemma_div_trunc_bounds(a: int, b: int)
    requires
        b >= 1,
    ensures
        a >= 0 ==> 0 <= div_trunc(a, b) <= a,
        a < 0 ==> a <= div_trunc(a, b) <= 0,
{
    if a >= 0 {
        lemma_div_pos_is_pos(a, b);
        lemma_div_nonincreasing(a, b);
    } else {
        lemma_div_pos_is_pos(-a, b);
        lemma_div_nonincreasing(-a, b);
    }
}

/// Truncated division is an odd function of its dividend.
pub proof fn lemma_div_trunc_neg(a: int, b: int)
    requires
        b >= 1,
    ensures
        div_trunc(-a, b) == -div_trunc(a, b),
{
    if a == 0 {
        assert(div_trunc(0, b) == 0int / b);
        assert(0int == b * 0);
        lemma_div_by_multiple(0, b);
    }
}

/// A fixed-point product scaled back down cannot pass the plain factor:
/// for `|c| <= s`, the truncated quotient of `d * c` by `s` stays within
/// `[-d, d]`.
pub proof fn lemma_scale_bound(d: int, c: int, s: int)
    requires
        0 <= d,
        -s <= c <= s,
        1 <= s,
    ensures
        -d <= div_trunc(d * c, s) <= d,
{
    if c >= 0 {
        assert(0 <= d * c && d * c <= d * s) by (nonlinear_arith)
            requires 0 <= d && 0 <= c <= s;
        lemma_div_pos_is_pos(d * c, s);
        lemma_div_is_ordered(d * c, d * s, s);
        lemma_div_by_multiple(d, s);
    } else {
        assert(0 <= d * (-c) && d * (-c) <= d * s && -(d * c) == d * (-c)) by (nonlinear_arith)
            requires 0 <= d && 0 <= -c <= s;
        lemma_div_pos_is_pos(d * (-c), s);
        lemma_div_is_ordered(d * (-c), d * s, s);
        lemma_div_by_multiple(d, s);
    }
}

/// Scaling dividend and divisor by the same positive factor leaves a
/// truncated half unchanged: `(f * den) / (2 * den) == f / 2`, toward zero.
pub proof fn lemma_div_trunc_scaled_half(f: int, den: int)
    requires
        den >= 1,
    ensures
        div_trunc(f * den, 2 * den) == div_trunc(f, 2),
{
    if f >= 0 {
        assert(f * den >= 0) by (nonlinear_arith)
            requires f >= 0 && den >= 1;
        lemma_half_core(f, den);
    } else {
        assert(f * den < 0 && -(f * den) == (-f) * den) by (nonlinear_arith)
            requires f < 0 && den >= 1;
        lemma_half_core(-f, den);
    }
}

/// For a nonnegative `f`, `(f * den) / (2 * den) == f / 2` exactly.
proof fn lemma_half_core(f: int, den: int)
    requires
        f >= 0,
        den >= 1,
    ensures
        (f * den) / (2 * den) == f / 2,
{
    let q = f / 2;
    let r = f % 2;
    lemma_fundamental_div_mod(f, 2);
    lemma_mod_division_less_than_divisor(f, 2);
    assert(f * den == q * (2 * den) + r * den && 0 <= r * den < 2 * den) by (nonlinear_arith)
        requires f == 2 * q + r && 0 <= r < 2 && den >= 1;
    lemma_fundamental_div_mod_converse_div(f * den, 2 * den, q, r * den);
}

/// Sine over the first half turn, before sign handling: a rational
/// approximation, exact at 0, at a twelfth, a quarter, five twelfths and
/// half of a turn.
pub open spec fn sin_half_spec(a: int) -> int {
    (16 * (a * ((HALF_TURN as int) - a)) * (TRIG_ONE as int))
        / (5 * (HALF_TURN as int) * (HALF_TURN as int) - 4 * (a * ((HALF_TURN as int) - a)))
}

/// Sine of a normalized angle in `[0, FULL_TURN)`, scaled by `TRIG_ONE`.
pub open spec fn sin_norm_spec(a: int) -> int {
    if a <= HALF_TURN {
        sin_half_spec(a)
    } else {
        -sin_half_spec(a - (HALF_TURN as int))
    }
}

/// Sine of any angle, scaled by `TRIG_ONE`.
pub open spec fn sin_at(a: int) -> int {
    sin_norm_spec(norm_spec(a))
}

/// Cosine of any angle, scaled by `TRIG_ONE`: sine shifted a quarter turn.
pub open spec fn cos_at(a: int) -> int {
    sin_at(a + (QUARTER_TURN as int))
}

/// The argument product `a * (HALF_TURN - a)` stays within `[0, HALF_TURN^2 / 4]`
/// on the first half turn.
proof fn lemma_half_arch_bounds(a: int)
    requires
        0 <= a <= HALF_TURN,
    ensures
        0 <= a * ((HALF_TURN as int) - a) <= 2415919104int,
{
    let h = HALF_TURN as int;
    assert(0 <= a * (h - a) && a * (h - a) <= 2415919104int) by (nonlinear_arith)
        requires 0 <= a <= h && h == 98304;
}

/// Sine on `[0, HALF_TURN]`, scaled by `TRIG_ONE`.
fn sin_half(a: i64) -> (r: i64)
    requires
        0 <= a <= HALF_TURN,
    ensures
        r == sin_half_spec(a as int),
        0 <= r <= TRIG_ONE,
{
    proof {
        lemma_half_arch_bounds(a as int);
    }
    let t: i64 = a * (HALF_TURN - a);
    let num: i64 = 16 * t * TRIG_ONE;
    let den: i64 = 5 * HALF_TURN * HALF_TURN - 4 * t;
    proof {
        lemma_div_pos_is_pos(num as int, den as int);
        // num <= TRIG_ONE * den, so the quotient cannot pass TRIG_ONE
        lemma_div_is_ordered(num as int, (TRIG_ONE as int) * (den as int), den as int);
        lemma_div_by_multiple(TRIG_ONE as int, den as int);
    }
    num / den
}

/// Sine of an angle, scaled by `TRIG_ONE`.
pub fn sin_fp(a: i64) -> (r: i64)
    ensures
        r == sin_at(a as int),
        -TRIG_ONE <= r <= TRIG_ONE,
{
    let n = normalize_angle(a);
    if n <= HALF_TURN {
        sin_half(n)
    } else {
        -sin_half(n - HALF_TURN)
    }
}

/// Cosine of an angle, scaled by `TRIG_ONE`.
pub fn cos_fp(a: i64) -> (r: i64)
    requires
        a <= i64::MAX - QUARTER_TURN,
    ensures
        r == cos_at(a as int),
        -TRIG_ONE <= r <= TRIG_ONE,
{
    sin_fp(a + QUARTER_TURN)
}

} // verus!

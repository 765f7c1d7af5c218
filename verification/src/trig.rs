//! Angles as fractions of a turn, and the direction they point in.
//!
//! An angle is a `u16`: 65536 units make a full turn, so every value is a
//! normalized heading and adding angles wraps round by itself. Sine and cosine
//! are rational approximations scaled by 256, off by less than two units.

use vstd::prelude::*;
use vstd::arithmetic::div_mod::lemma_fundamental_div_mod_converse;
use vstd::arithmetic::div_mod::lemma_mod_bound;

verus! {

/// Angle units in a full turn.
pub const FULL_TURN: u32 = 65536;

/// Angle units in a half turn.
pub const HALF_TURN: u32 = 32768;

/// Angle units in a quarter turn.
pub const QUARTER_TURN: u32 = 16384;

/// The fixed-point one: lengths count 256 units to a cell, fractions 256 to the whole.
pub const SCALE: u32 = 256;

/// The sine of `t` half-turn units past zero, scaled by 256, for `0 <= t <= HALF_TURN`:
/// `16 p / (5 H^2 - 4 p)` with `p = t (H - t)` and `H` the half turn.
pub open spec fn spec_half_wave(t: int) -> int {
    (4096 * (t * (HALF_TURN - t))) / (5 * HALF_TURN * HALF_TURN - 4 * (t * (HALF_TURN - t)))
}

/// The sine of `angle`, scaled by 256.
pub open spec fn spec_sin(angle: int) -> int {
    let t = angle % (FULL_TURN as int);
    if t < HALF_TURN {
        spec_half_wave(t)
    } else {
        -spec_half_wave(t - HALF_TURN)
    }
}

/// The cosine of `angle`, scaled by 256.
pub open spec fn spec_cos(angle: int) -> int {
    spec_sin(angle + QUARTER_TURN)
}

/// `a / b` rounded toward zero, for `b > 0`.
pub open spec fn spec_div_trunc(a: int, b: int) -> int {
    if a >= 0 {
        a / b
    } else {
        -((-a) / b)
    }
}

/// The half wave stays between zero and one.
pub proof fn lemma_half_wave_range(t: int)
    requires
        0 <= t <= HALF_TURN,
    ensures
        0 <= spec_half_wave(t) <= 256,
        0 <= t * (HALF_TURN - t) <= 268435456,
{
    let p = t * (HALF_TURN - t);
    assert(0 <= p <= 268435456) by (nonlinear_arith)
        requires
            0 <= t <= 32768,
            p == t * (32768 - t),
    {
        assert((2 * t - 32768) * (2 * t - 32768) >= 0);
    }
    let den = 5 * HALF_TURN * HALF_TURN - 4 * p;
    assert(den >= 4294967296);
    assert(4096 * p <= 256 * den);
    assert(0 <= (4096 * p) / den <= 256) by (nonlinear_arith)
        requires
            0 <= 4096 * p <= 256 * den,
            den > 0,
    ;
}

/// The half wave rises and falls alike: it reads the same from either end.
pub proof fn lemma_half_wave_mirror(t: int)
    ensures
        spec_half_wave(HALF_TURN - t) == spec_half_wave(t),
{
    assert((HALF_TURN - t) * (HALF_TURN - (HALF_TURN - t)) == t * (HALF_TURN - t))
        by (nonlinear_arith);
}

/// Sine and cosine stay between minus one and one.
pub proof fn lemma_trig_range(angle: int)
    ensures
        -256 <= spec_sin(angle) <= 256,
        -256 <= spec_cos(angle) <= 256,
{
    lemma_mod_bound(angle, FULL_TURN as int);
    lemma_mod_bound(angle + QUARTER_TURN, FULL_TURN as int);
    let t = angle % (FULL_TURN as int);
    let u = (angle + QUARTER_TURN) % (FULL_TURN as int);
    if t < HALF_TURN {
        lemma_half_wave_range(t);
    } else {
        lemma_half_wave_range(t - HALF_TURN);
    }
    if u < HALF_TURN {
        lemma_half_wave_range(u);
    } else {
        lemma_half_wave_range(u - HALF_TURN);
    }
}

/// Half a turn on, the sine is the opposite.
pub proof fn lemma_sin_half_turn(angle: int)
    ensures
        spec_sin(angle + HALF_TURN) == -spec_sin(angle),
{
    let full = FULL_TURN as int;
    let t = angle % full;
    lemma_mod_bound(angle, full);
    vstd::arithmetic::div_mod::lemma_fundamental_div_mod(angle, full);
    let q = angle / full;
    if t < HALF_TURN {
        lemma_fundamental_div_mod_converse(angle + HALF_TURN, full, q, t + HALF_TURN);
    } else {
        lemma_fundamental_div_mod_converse(angle + HALF_TURN, full, q + 1, t - HALF_TURN);
        lemma_half_wave_range(t - HALF_TURN);
    }
}

/// The sine at the four cardinal angles is exact.
pub proof fn lemma_sin_cardinal()
    ensures
        spec_sin(0) == 0,
        spec_sin(QUARTER_TURN as int) == 256,
        spec_sin(HALF_TURN as int) == 0,
        spec_sin(3 * QUARTER_TURN) == -256,
        spec_cos(0) == 256,
{
    assert(spec_half_wave(0) == 0int / 5368709120int);
    assert(spec_half_wave(16384) == 1099511627776int / 4294967296int);
    assert(0int % (FULL_TURN as int) == 0);
    assert(16384int % (FULL_TURN as int) == 16384);
    assert(32768int % (FULL_TURN as int) == 32768);
    assert(49152int % (FULL_TURN as int) == 49152);
}

/// The sine of `t` half-turn units past zero, scaled by 256.
fn half_wave(t: u32) -> (s: i32)
    requires
        t <= HALF_TURN,
    ensures
        s == spec_half_wave(t as int),
        0 <= s <= 256,
{
    proof {
        lemma_half_wave_range(t as int);
    }
    let p: u64 = (t as u64) * ((HALF_TURN - t) as u64);
    let den: u64 = 5 * 32768 * 32768 - 4 * p;
    let s: u64 = (4096 * p) / den;
    s as i32
}

/// The sine of `angle`, scaled by 256.
pub fn sin_fixed(angle: u16) -> (s: i32)
    ensures
        s == spec_sin(angle as int),
        -256 <= s <= 256,
{
    proof {
        lemma_fundamental_div_mod_converse(angle as int, FULL_TURN as int, 0, angle as int);
    }
    let t: u32 = angle as u32;
    if t < HALF_TURN {
        half_wave(t)
    } else {
        -half_wave(t - HALF_TURN)
    }
}

/// The cosine of `angle`, scaled by 256.
pub fn cos_fixed(angle: u16) -> (c: i32)
    ensures
        c == spec_cos(angle as int),
        -256 <= c <= 256,
{
    let t: u32 = angle as u32 + QUARTER_TURN;
    let turned: u32 = if t >= FULL_TURN {
        t - FULL_TURN
    } else {
        t
    };
    proof {
        if t >= FULL_TURN {
            lemma_fundamental_div_mod_converse(t as int, FULL_TURN as int, 1, turned as int);
        } else {
            lemma_fundamental_div_mod_converse(t as int, FULL_TURN as int, 0, turned as int);
        }
        lemma_fundamental_div_mod_converse(turned as int, FULL_TURN as int, 0, turned as int);
    }
    sin_fixed(turned as u16)
}

/// `a / 256` rounded toward zero.
pub fn div_trunc_scale(a: i64) -> (q: i64)
    requires
        a > i64::MIN,
    ensures
        q == spec_div_trunc(a as int, 256),
        a >= 0 ==> 0 <= q <= a,
        a <= 0 ==> a <= q <= 0,
{
    if a >= 0 {
        a / 256
    } else {
        -((-a) / 256)
    }
}

/// `angle` turned by `delta` units, round the full turn.
pub fn turn_by(angle: u16, delta: i32) -> (turned: u16)
    ensures
        turned == (angle + delta) % (FULL_TURN as int),
{
    let t: i64 = angle as i64 + delta as i64 + 2147483648;
    let r: i64 = t % 65536;
    r as u16
}

} // verus!

//! Fixed-point sine and cosine on milli-radian angles.
//!
//! A full turn is `FULL_TURN` (4 * 1571) angle units, a quarter turn 1571
//! (pi/2 in milli-radians, rounded so that the quarter points are exact).
//! Each quarter wave is linear, which keeps the values within [-1000, 1000]
//! and gives the pair identity `|sin| + |cos| <= 1000` that the disk-emitter
//! bound rests on.

use vstd::prelude::*;

verus! {

use vstd::arithmetic::div_mod::{
    lemma_div_is_ordered,
    lemma_div_pos_is_pos,
    lemma_fundamental_div_mod,
    lemma_mod_bound,
    lemma_mod_multiples_vanish,
};
use vstd::math::abs;

/// A quarter turn, in angle units (milli-radians, rounded).
pub const QUARTER_TURN: i64 = 1571;

/// A full turn, in angle units: 4 * QUARTER_TURN.
pub const FULL_TURN: i64 = 6284;

/// Largest angle the exec trig functions accept.
pub const ANGLE_MAX: i64 = 9_000_000_000_000_000;

/// Most negative angle the exec trig functions accept.
pub const ANGLE_MIN: i64 = -1_000_000_000;

/// The rising quarter wave: linear from 0 at `u == 0` to 1000 at
/// `u == QUARTER_TURN`.
pub open spec fn quarter_sin(u: int) -> int {
    u * 1000 / 1571
}

/// An angle reduced into `[0, FULL_TURN)`.
pub open spec fn angle_norm(x: int) -> int {
    x % 6284
}

/// Fixed-point sine: piecewise-linear quarter waves, scaled by 1000.
pub open spec fn sin_spec(x: int) -> int {
    let u = angle_norm(x);
    if u < 1571 {
        quarter_sin(u)
    } else if u < 3142 {
        quarter_sin(3142 - u)
    } else if u < 4713 {
        -quarter_sin(u - 3142)
    } else {
        -quarter_sin(6284 - u)
    }
}

/// Fixed-point cosine: sine advanced by a quarter turn.
pub open spec fn cos_spec(x: int) -> int {
    sin_spec(x + 1571)
}

pub proof fn lemma_quarter_sin_bounds(u: int)
    requires
        0 <= u <= 1571,
    ensures
        0 <= quarter_sin(u) <= 1000,
{
    lemma_div_pos_is_pos(u * 1000, 1571);
    lemma_div_is_ordered(u * 1000, 1571int * 1000, 1571);
}

/// The two legs of one quadrant sum to at most a whole unit.
pub proof fn lemma_quarter_sin_pair(u: int)
    requires
        0 <= u <= 1571,
    ensures
        quarter_sin(u) + quarter_sin(1571 - u) <= 1000,
{
    lemma_fundamental_div_mod(u * 1000, 1571);
    lemma_fundamental_div_mod((1571 - u) * 1000, 1571);
    lemma_mod_bound(u * 1000, 1571);
    lemma_mod_bound((1571 - u) * 1000, 1571);
}

/// Sine stays within one scaled unit.
pub proof fn lemma_sin_bounds(x: int)
    ensures
        -1000 <= sin_spec(x) <= 1000,
{
    lemma_mod_bound(x, 6284);
    let u = angle_norm(x);
    if u < 1571 {
        lemma_quarter_sin_bounds(u);
    } else if u < 3142 {
        lemma_quarter_sin_bounds(3142 - u);
    } else if u < 4713 {
        lemma_quarter_sin_bounds(u - 3142);
    } else {
        lemma_quarter_sin_bounds(6284 - u);
    }
}

/// At any angle, |sin| + |cos| is at most one scaled unit, so a point
/// `(r*cos/1000, r*sin/1000)` never leaves the disk of radius `r`.
pub proof fn lemma_sin_cos_l1(x: int)
    ensures
        abs(sin_spec(x)) + abs(cos_spec(x)) <= 1000,
        abs(sin_spec(x)) <= 1000,
        abs(cos_spec(x)) <= 1000,
{
    lemma_mod_bound(x, 6284);
    let u = angle_norm(x);
    // The cosine angle reduces to u + 1571, wrapped at a full turn.
    if u + 1571 < 6284 {
        // (x + 1571) and (u + 1571) differ by a multiple of the turn.
        lemma_mod_multiples_vanish((x - u) / 6284, u + 1571, 6284);
        lemma_fundamental_div_mod(x, 6284);
        assert(x + 1571 == 6284 * (x / 6284) + (u + 1571));
        vstd::arithmetic::div_mod::lemma_small_mod((u + 1571) as nat, 6284nat);
        assert(angle_norm(x + 1571) == u + 1571);
    } else {
        lemma_mod_multiples_vanish((x - u) / 6284 + 1, u + 1571 - 6284, 6284);
        lemma_fundamental_div_mod(x, 6284);
        assert(x + 1571 == 6284 * (x / 6284 + 1) + (u + 1571 - 6284));
        vstd::arithmetic::div_mod::lemma_small_mod((u + 1571 - 6284) as nat, 6284nat);
        assert(angle_norm(x + 1571) == u + 1571 - 6284);
    }
    lemma_sin_bounds(x);
    lemma_sin_bounds(x + 1571);
    if u < 1571 {
        lemma_quarter_sin_pair(u);
        lemma_quarter_sin_bounds(u);
        lemma_quarter_sin_bounds(1571 - u);
    } else if u < 3142 {
        lemma_quarter_sin_pair(u - 1571);
        lemma_quarter_sin_bounds(u - 1571);
        lemma_quarter_sin_bounds(3142 - u);
    } else if u < 4713 {
        lemma_quarter_sin_pair(u - 3142);
        lemma_quarter_sin_bounds(u - 3142);
        lemma_quarter_sin_bounds(4713 - u);
    } else {
        lemma_quarter_sin_pair(u - 4713);
        lemma_quarter_sin_bounds(u - 4713);
        lemma_quarter_sin_bounds(6284 - u);
    }
}

/// The rising quarter wave, executable.
fn quarter_sin_x(u: u64) -> (s: i64)
    requires
        u <= 1571,
    ensures
        s == quarter_sin(u as int),
        0 <= s <= 1000,
{
    proof {
        lemma_quarter_sin_bounds(u as int);
    }
    ((u * 1000) / 1571) as i64
}

/// Fixed-point sine of an angle in milli-radians.
pub fn sin_fp(x: i64) -> (s: i64)
    requires
        ANGLE_MIN <= x <= ANGLE_MAX,
    ensures
        s == sin_spec(x as int),
        -1000 <= s <= 1000,
{
    // Shift into nonnegative territory by whole turns, then reduce.
    let y = x + 6284 * 160_000;
    proof {
        lemma_mod_multiples_vanish(160_000, x as int, 6284);
        lemma_mod_bound(y as int, 6284);
        lemma_sin_bounds(x as int);
    }
    let u = (y as u64) % 6284;
    if u < 1571 {
        quarter_sin_x(u)
    } else if u < 3142 {
        quarter_sin_x(3142 - u)
    } else if u < 4713 {
        -quarter_sin_x(u - 3142)
    } else {
        -quarter_sin_x(6284 - u)
    }
}

/// Fixed-point cosine of an angle in milli-radians.
pub fn cos_fp(x: i64) -> (c: i64)
    requires
        ANGLE_MIN <= x,
        x + 1571 <= ANGLE_MAX,
    ensures
        c == cos_spec(x as int),
        -1000 <= c <= 1000,
{
    sin_fp(x + 1571)
}

} // verus!

//! The pure mapping from particle state to per-instance visual attributes:
//! normalized age, stepped color band, parabolic size curve, floored alpha.
//!
//! Everything here is a function of `(life, max_life, size)` alone, so the
//! same pool always draws the same way.

use vstd::prelude::*;

verus! {

use crate::fixed::{clamp_fp, clamp_spec, div_fp, trunc_div};
use crate::types::{Particle, ParticleInstance, Rgba};

/// Largest age value the color and curve helpers accept.
pub const AGE_CAP: i64 = 100_000_000;

/// Largest lifetime value `age_fp` accepts.
pub const LIFE_CAP: i64 = 9_000_000_000_000_000;

/// Normalized age scaled by 1000: `1000 * life / max_life`, deliberately not
/// clamped, so decoupling `life` from `max_life` shows up in the visuals.
pub open spec fn age_of(life: int, max_life: int) -> int {
    1000 * life / max_life
}

/// The three discrete color bands, young to old: red-orange below 0.4,
/// orange up to 0.7, pale yellow-white above.
pub open spec fn band_spec(t: int) -> (int, int, int) {
    if t > 700 {
        (1000, 950, 700)
    } else if t > 400 {
        (1000, 600, 200)
    } else {
        (1000, 200, 50)
    }
}

/// Alpha fades with age but is floored, so dying particles stay faintly
/// visible: `clamp(t * 1.3, 0.35, 1.0)` in scaled units.
pub open spec fn alpha_spec(t: int) -> int {
    clamp_spec(trunc_div(t * 13, 10), 350, 1000)
}

/// Color band plus alpha for a normalized age.
pub open spec fn color_spec(t: int) -> Rgba {
    let band = band_spec(t);
    Rgba {
        r: band.0 as i64,
        g: band.1 as i64,
        b: band.2 as i64,
        a: alpha_spec(t) as i64,
    }
}

/// The parabolic size curve `t * (1 - t) * 3.2` in scaled units: smallest at
/// birth and death, largest near mid-life.
pub open spec fn size_curve_spec(t: int) -> int {
    trunc_div(t * (1000 - t) * 3200, 1_000_000)
}

/// The full instance derivation: position copied, size run through the age
/// curve, color and alpha from the age bands.
pub open spec fn instance_spec(p: Particle) -> ParticleInstance {
    let t = age_of(p.life as int, p.max_life as int);
    ParticleInstance {
        position: p.position,
        size: trunc_div(p.size * size_curve_spec(t), 1000) as i64,
        color: color_spec(t),
    }
}

/// The alpha floor and ceiling hold at every age.
pub proof fn lemma_alpha_bounds(t: int)
    ensures
        350 <= alpha_spec(t) <= 1000,
{
}

/// Color and size are functions of `(life, max_life, size)` alone: two
/// particles that agree on those three fields draw with the same color and
/// the same final size, whatever their kinematics.
pub proof fn lemma_visuals_pure(p: Particle, q: Particle)
    requires
        p.life == q.life,
        p.max_life == q.max_life,
        p.size == q.size,
    ensures
        instance_spec(p).color == instance_spec(q).color,
        instance_spec(p).size == instance_spec(q).size,
{
}

/// Within the nominal age range the size curve stays within [0, 0.8].
pub proof fn lemma_size_curve_range(t: int)
    requires
        0 <= t <= 1000,
    ensures
        0 <= size_curve_spec(t) <= 800,
{
    assert(0 <= t * (1000 - t) <= 250_000) by (nonlinear_arith)
        requires
            0 <= t <= 1000,
    ;
    crate::fixed::lemma_trunc_div_nonneg(t * (1000 - t) * 3200, 1_000_000);
    crate::fixed::lemma_trunc_div_bound(t * (1000 - t) * 3200, 1_000_000, 800_000_000);
}

/// Normalized age, scaled by 1000.
pub fn age_fp(life: i64, max_life: i64) -> (t: i64)
    requires
        0 < max_life,
        0 <= life <= LIFE_CAP,
    ensures
        t == age_of(life as int, max_life as int),
        t >= 0,
{
    proof {
        vstd::arithmetic::div_mod::lemma_div_pos_is_pos(1000 * life, max_life as int);
        vstd::arithmetic::div_mod::lemma_div_nonincreasing(1000 * life, max_life as int);
    }
    (((life as u64) * 1000) / (max_life as u64)) as i64
}

/// Color band and alpha for a normalized age.
pub fn color_for(t: i64) -> (c: Rgba)
    requires
        -AGE_CAP <= t <= AGE_CAP,
    ensures
        c == color_spec(t as int),
{
    let band = if t > 700 {
        (1000i64, 950i64, 700i64)
    } else if t > 400 {
        (1000i64, 600i64, 200i64)
    } else {
        (1000i64, 200i64, 50i64)
    };
    let raw = div_fp(t * 13, 10);
    let a = clamp_fp(raw, 350, 1000);
    Rgba { r: band.0, g: band.1, b: band.2, a }
}

/// The parabolic size curve in scaled units.
pub fn size_curve_fp(t: i64) -> (s: i64)
    requires
        -1_000_000 <= t <= 1_000_000,
    ensures
        s == size_curve_spec(t as int),
{
    proof {
        assert(-1_001_000_000_000 <= t * (1000 - t) <= 1_001_000_000_000) by (nonlinear_arith)
            requires
                -1_000_000 <= t <= 1_000_000,
        ;
    }
    let m = t * (1000 - t);
    div_fp(m * 3200, 1_000_000)
}

/// Derive the renderable instance for one particle. The result is a pure
/// function of the particle's fields; nothing global feeds it.
pub fn particle_instance(p: &Particle) -> (inst: ParticleInstance)
    requires
        p.wf(),
    ensures
        inst == instance_spec(*p),
{
    let t = age_fp(p.life, p.max_life);
    proof {
        vstd::arithmetic::div_mod::lemma_div_is_ordered(
            1000 * p.life,
            1000 * crate::types::MAX_LIFE_FP,
            p.max_life as int,
        );
        lemma_size_curve_range(t as int);
    }
    let curve = size_curve_fp(t);
    proof {
        assert(0 <= p.size * curve <= 18_600 * 800) by (nonlinear_arith)
            requires
                0 <= curve <= 800,
                0 <= p.size <= 18_600,
        ;
    }
    let size = div_fp(p.size * curve, 1000);
    let color = color_for(t);
    ParticleInstance { position: p.position, size, color }
}

} // verus!

//! Particle data types.
//!
//! All lengths and speeds are in milli-units (thousandths of a world unit),
//! durations in milliseconds, angles in the units of [`crate::trig`].

use vstd::prelude::*;

verus! {

use crate::trig::FULL_TURN;

/// Nominal maximum lifetime of a particle, in milliseconds.
pub const MAX_LIFE_FP: i64 = 2200;

/// Capacity bound of the particle pool.
pub const MAX_PARTICLES: usize = 5000;

/// Center of the disk emitter (milli-units).
pub const EMITTER_X: i64 = 0;

/// Center of the disk emitter (milli-units).
pub const EMITTER_Y: i64 = -50_000;

/// Center of the disk emitter (milli-units).
pub const EMITTER_Z: i64 = -300_000;

/// Radius of the disk emitter (milli-units).
pub const DISK_RADIUS: i64 = 80_000;

/// Smallest initial lifetime (ms).
pub const LIFE_MIN: i64 = 1200;

/// Smallest initial visual radius (milli-units).
pub const SIZE_MIN: i64 = 6000;

/// Largest initial visual radius, exclusive (milli-units).
pub const SIZE_MAX: i64 = 12_000;

/// Smallest initial upward speed (milli-units per second).
pub const UPWARD_MIN: i64 = 180_000;

/// Largest initial upward speed, exclusive (milli-units per second).
pub const UPWARD_MAX: i64 = 260_000;

/// Smallest initial outward speed (milli-units per second).
pub const RADIAL_MIN: i64 = 15_000;

/// Largest initial outward speed, exclusive (milli-units per second).
pub const RADIAL_MAX: i64 = 40_000;

/// Smallest waver amplitude (milli-units per second).
pub const WAVER_AMP_MIN: i64 = 50_000;

/// Largest waver amplitude, exclusive (milli-units per second).
pub const WAVER_AMP_MAX: i64 = 120_000;

/// Smallest waver frequency (milli-radians per second).
pub const WAVER_FREQ_MIN: i64 = 3000;

/// Largest waver frequency, exclusive (milli-radians per second).
pub const WAVER_FREQ_MAX: i64 = 7500;

/// Horizontal speeds stay within this bound: the drag exactly balances the
/// largest swirl-plus-waver push at this magnitude.
pub const VEL_XZ_BOUND: i64 = 600_000;

/// Vertical speed at spawn stays below this; buoyancy then adds 80 per
/// millisecond of lived time.
pub const VY_BASE: i64 = 260_000;

/// A world-space vector in milli-units.
#[derive(Clone, Copy, Debug, PartialEq, Eq, Structural)]
pub struct Vec3 {
    pub x: i64,
    pub y: i64,
    pub z: i64,
}

/// An RGBA color with each channel scaled by 1000.
#[derive(Clone, Copy, Debug, PartialEq, Eq, Structural)]
pub struct Rgba {
    pub r: i64,
    pub g: i64,
    pub b: i64,
    pub a: i64,
}

/// One live particle's kinematic and visual parameters.
#[derive(Clone, Copy, Debug, PartialEq, Eq, Structural)]
pub struct Particle {
    /// World-space location.
    pub position: Vec3,
    /// World-space velocity, in milli-units per second.
    pub velocity: Vec3,
    /// Remaining lifetime in milliseconds; positive while alive.
    pub life: i64,
    /// Nominal lifetime, fixed at spawn; drives the normalized age.
    pub max_life: i64,
    /// Base visual radius; grows over the particle's life.
    pub size: i64,
    /// Random angular offset of the swirl, fixed at spawn.
    pub phase: i64,
    /// Amplitude of the independent horizontal waver, fixed at spawn.
    pub waver_amp: i64,
    /// Frequency of the independent horizontal waver, fixed at spawn.
    pub waver_freq: i64,
}

/// The per-instance attributes the rendering stage consumes, derived anew
/// from particle state every frame.
#[derive(Clone, Copy, Debug, PartialEq, Eq, Structural)]
pub struct ParticleInstance {
    pub position: Vec3,
    /// Visual radius with the age-based size curve already applied.
    pub size: i64,
    /// Color band and alpha for the particle's age.
    pub color: Rgba,
}

impl Particle {
    /// A live particle stays within these bounds; the integrator keeps them
    /// because each bound loosens exactly as fast as the remaining lifetime
    /// shrinks.
    pub open spec fn wf(self) -> bool {
        let aged = MAX_LIFE_FP - self.life;
        &&& 0 < self.life <= MAX_LIFE_FP
        &&& self.max_life == MAX_LIFE_FP
        &&& 0 <= self.phase < FULL_TURN
        &&& WAVER_AMP_MIN <= self.waver_amp <= WAVER_AMP_MAX
        &&& WAVER_FREQ_MIN <= self.waver_freq <= WAVER_FREQ_MAX
        &&& SIZE_MIN <= self.size <= SIZE_MAX + 3 * aged
        &&& 0 <= self.velocity.y <= VY_BASE + 80 * aged
        &&& -VEL_XZ_BOUND <= self.velocity.x <= VEL_XZ_BOUND
        &&& -VEL_XZ_BOUND <= self.velocity.z <= VEL_XZ_BOUND
        &&& -(DISK_RADIUS + 600 * aged) <= self.position.x - EMITTER_X <= DISK_RADIUS + 600 * aged
        &&& EMITTER_Y <= self.position.y <= EMITTER_Y + 436 * aged
        &&& -(DISK_RADIUS + 600 * aged) <= self.position.z - EMITTER_Z <= DISK_RADIUS + 600 * aged
    }
}

} // verus!

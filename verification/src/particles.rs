//! The particle simulator: a capacity-bounded pool advanced by
//! semi-implicit Euler integration, with dead particles retired and new ones
//! spawned from a disk emitter each step.

use vstd::prelude::*;

verus! {

use vstd::arithmetic::div_mod::{lemma_div_by_multiple, lemma_div_is_ordered};
use vstd::math::abs;
use crate::fixed::{div_fp, isqrt, lemma_trunc_div_bound, lemma_trunc_div_nonneg, trunc_div};
use crate::render::{instance_spec, particle_instance};
use crate::rng::rand_in_range;
use crate::trig::{cos_fp, cos_spec, lemma_sin_cos_l1, sin_fp, sin_spec, FULL_TURN};
use crate::types::{
    Particle, ParticleInstance, Vec3, DISK_RADIUS, EMITTER_X, EMITTER_Y, EMITTER_Z, LIFE_MIN,
    MAX_LIFE_FP, MAX_PARTICLES, RADIAL_MAX, RADIAL_MIN, SIZE_MAX, SIZE_MIN, UPWARD_MAX,
    UPWARD_MIN, WAVER_AMP_MAX, WAVER_AMP_MIN, WAVER_FREQ_MAX, WAVER_FREQ_MIN,
};

/// Longest single time step the simulator accepts, in milliseconds (a day).
pub const DT_MAX: i64 = 86_400_000;

/// Largest simulation-clock value the simulator accepts, in milliseconds.
pub const ELAPSED_MAX: i64 = 1_000_000_000_000;

/// Nominal spawn rate, in particles per second.
pub const SPAWN_RATE: i64 = 900;

/// The particle pool. The simulator owns it; the renderer only reads it.
pub struct ParticleSystem {
    /// The live particles, unordered as far as any observer goes.
    pub particles: Vec<Particle>,
    /// Hard capacity of the pool.
    pub max_particles: usize,
}

/// A particle survives a step when its lifetime does not run out during it.
pub open spec fn survives(p: Particle, dt: int) -> bool {
    p.life - dt > 0
}

/// One semi-implicit Euler step for a surviving particle: the position moves
/// by the incoming velocity, then buoyancy, swirl, waver and drag update the
/// velocity for the next step, and the size grows.
pub open spec fn integrate_spec(p: Particle, dt: int, elapsed: int) -> Particle {
    let life2 = p.life - dt;
    let px = p.position.x + trunc_div(p.velocity.x * dt, 1000);
    let py = p.position.y + trunc_div(p.velocity.y * dt, 1000);
    let pz = p.position.z + trunc_div(p.velocity.z * dt, 1000);
    let vy2 = p.velocity.y + 80 * dt;
    let angle = p.phase + trunc_div(3500 * elapsed, 1000) + trunc_div(py, 100);
    let vx1 = p.velocity.x + trunc_div(30 * sin_spec(angle) * dt, 1000);
    let vz1 = p.velocity.z + trunc_div(30 * cos_spec(angle) * dt, 1000);
    let w = sin_spec(trunc_div(elapsed * p.waver_freq, 1000));
    let vx2 = vx1 + trunc_div(p.waver_amp * w * dt, 1_000_000);
    let vx3 = trunc_div(vx2 * (4000 - dt), 4000);
    let vz2 = trunc_div(vz1 * (4000 - dt), 4000);
    let size2 = p.size + trunc_div(2500 * dt, 1000);
    Particle {
        position: Vec3 { x: px as i64, y: py as i64, z: pz as i64 },
        velocity: Vec3 { x: vx3 as i64, y: vy2 as i64, z: vz2 as i64 },
        life: life2 as i64,
        max_life: p.max_life,
        size: size2 as i64,
        phase: p.phase,
        waver_amp: p.waver_amp,
        waver_freq: p.waver_freq,
    }
}

/// The whole pool after one step, before spawning: survivors integrated, in
/// their incoming order; the dead dropped.
pub open spec fn step_seq(s: Seq<Particle>, dt: int, elapsed: int) -> Seq<Particle>
    decreases s.len(),
{
    if s.len() == 0 {
        Seq::empty()
    } else {
        let rest = step_seq(s.drop_last(), dt, elapsed);
        if survives(s.last(), dt) {
            rest.push(integrate_spec(s.last(), dt, elapsed))
        } else {
            rest
        }
    }
}

/// How many particles one step tries to spawn: `floor(900 * dt)` for `dt` in
/// seconds, before the capacity cap.
pub open spec fn spawn_target(dt: int) -> int {
    SPAWN_RATE * dt / 1000
}

/// What holds of every freshly spawned particle, whatever the generator
/// returned: the sampled ranges, and the disk-emitter shape.
pub open spec fn spawned_ok(p: Particle) -> bool {
    &&& p.wf()
    &&& LIFE_MIN <= p.life < MAX_LIFE_FP
    &&& p.max_life == MAX_LIFE_FP
    &&& p.position.y == EMITTER_Y
    &&& (p.position.x - EMITTER_X) * (p.position.x - EMITTER_X) + (p.position.z - EMITTER_Z) * (
    p.position.z - EMITTER_Z) < DISK_RADIUS * DISK_RADIUS
    &&& UPWARD_MIN <= p.velocity.y < UPWARD_MAX
    &&& -RADIAL_MAX < p.velocity.x < RADIAL_MAX
    &&& -RADIAL_MAX < p.velocity.z < RADIAL_MAX
    &&& SIZE_MIN <= p.size < SIZE_MAX
    &&& 0 <= p.phase < FULL_TURN
    &&& WAVER_AMP_MIN <= p.waver_amp < WAVER_AMP_MAX
    &&& WAVER_FREQ_MIN <= p.waver_freq < WAVER_FREQ_MAX
}

/// Integration never grows the pool.
pub proof fn lemma_step_seq_len(s: Seq<Particle>, dt: int, elapsed: int)
    ensures
        step_seq(s, dt, elapsed).len() <= s.len(),
    decreases s.len(),
{
    if s.len() > 0 {
        lemma_step_seq_len(s.drop_last(), dt, elapsed);
    }
}

/// Removal correctness: after a step every particle still in the pool has
/// lifetime left; one whose life ran out is gone.
pub proof fn lemma_step_seq_alive(s: Seq<Particle>, dt: int, elapsed: int)
    requires
        0 <= dt,
        forall|i: int| 0 <= i < s.len() ==> (#[trigger] s[i]).life <= MAX_LIFE_FP,
    ensures
        forall|i: int|
            0 <= i < step_seq(s, dt, elapsed).len() ==> (#[trigger] step_seq(s, dt, elapsed)[i]).life
                > 0,
    decreases s.len(),
{
    if s.len() > 0 {
        assert(forall|i: int|
            0 <= i < s.drop_last().len() ==> (#[trigger] s.drop_last()[i]).life <= MAX_LIFE_FP);
        lemma_step_seq_alive(s.drop_last(), dt, elapsed);
        let rest = step_seq(s.drop_last(), dt, elapsed);
        let out = step_seq(s, dt, elapsed);
        if survives(s.last(), dt) {
            assert(s[s.len() - 1].life <= MAX_LIFE_FP);
            assert forall|i: int| 0 <= i < out.len() implies (#[trigger] out[i]).life > 0 by {
                if i < rest.len() {
                    assert(out[i] == rest[i]);
                } else {
                    assert(out[i] == integrate_spec(s.last(), dt, elapsed));
                }
            }
        }
    }
}

/// Removal correctness at the pool level: a pool of the shape `update`
/// leaves behind — the stepped survivors followed by fresh spawns — holds
/// live particles only, so one whose life ran out is gone on the next read.
pub proof fn lemma_pool_alive_after_update(
    before: Seq<Particle>,
    after: Seq<Particle>,
    cap: int,
    dt: int,
    elapsed: int,
)
    requires
        0 <= dt,
        forall|i: int| 0 <= i < before.len() ==> (#[trigger] before[i]).life <= MAX_LIFE_FP,
        step_seq(before, dt, elapsed).len() <= after.len(),
        after.len() == step_seq(before, dt, elapsed).len() + spawn_count(before, cap, dt, elapsed),
        after.subrange(0, step_seq(before, dt, elapsed).len() as int) == step_seq(
            before,
            dt,
            elapsed,
        ),
        forall|j: int|
            step_seq(before, dt, elapsed).len() <= j < after.len() ==> spawned_ok(
                #[trigger] after[j],
            ),
    ensures
        forall|i: int| 0 <= i < after.len() ==> (#[trigger] after[i]).life > 0,
{
    lemma_step_seq_alive(before, dt, elapsed);
    let kept = step_seq(before, dt, elapsed);
    assert forall|i: int| 0 <= i < after.len() implies (#[trigger] after[i]).life > 0 by {
        if i < kept.len() {
            assert(after[i] == after.subrange(0, kept.len() as int)[i]);
        }
    }
}

/// Lifetime monotonicity: a surviving particle comes out of a positive step
/// with strictly less life than it went in with.
pub proof fn lemma_life_decreases(p: Particle, dt: int, elapsed: int)
    requires
        0 < dt,
        survives(p, dt),
        p.life <= MAX_LIFE_FP,
    ensures
        integrate_spec(p, dt, elapsed).life < p.life,
        integrate_spec(p, dt, elapsed).life == p.life - dt,
{
}

/// One integration step, executable; keeps the particle well-formed.
fn integrate_one(p: &Particle, dt: i64, elapsed: i64) -> (q: Particle)
    requires
        p.wf(),
        0 <= dt <= DT_MAX,
        p.life - dt > 0,
        0 <= elapsed <= ELAPSED_MAX,
    ensures
        q == integrate_spec(*p, dt as int, elapsed as int),
        q.wf(),
{
    proof {
        assert(dt < 2200);
    }
    let life2 = p.life - dt;

    // Position integration with the incoming velocity.
    proof {
        assert(-(600_000 * dt) <= p.velocity.x * dt <= 600_000 * dt) by (nonlinear_arith)
            requires
                -600_000 <= p.velocity.x <= 600_000,
                0 <= dt,
        ;
        lemma_trunc_div_bound(p.velocity.x * dt, 1000, 600_000 * dt);
        assert(-(600_000 * dt) <= p.velocity.z * dt <= 600_000 * dt) by (nonlinear_arith)
            requires
                -600_000 <= p.velocity.z <= 600_000,
                0 <= dt,
        ;
        lemma_trunc_div_bound(p.velocity.z * dt, 1000, 600_000 * dt);
        assert(0 <= p.velocity.y * dt <= 436_000 * dt) by (nonlinear_arith)
            requires
                0 <= p.velocity.y <= 436_000,
                0 <= dt,
        ;
        lemma_trunc_div_bound(p.velocity.y * dt, 1000, 436_000 * dt);
        lemma_trunc_div_nonneg(p.velocity.y * dt, 1000);
        lemma_div_by_multiple(600 * dt, 1000);
        lemma_div_by_multiple(436 * dt, 1000);
        lemma_div_is_ordered(600_000 * dt, 600_000int * 2200, 1000);
        lemma_div_is_ordered(436_000 * dt, 436_000int * 2200, 1000);
    }
    let px = p.position.x + div_fp(p.velocity.x * dt, 1000);
    let py = p.position.y + div_fp(p.velocity.y * dt, 1000);
    let pz = p.position.z + div_fp(p.velocity.z * dt, 1000);

    // Buoyancy.
    let vy2 = p.velocity.y + 80 * dt;

    // Swirl, phase-shifted by the simulation clock and the height.
    proof {
        lemma_trunc_div_nonneg(3500 * elapsed, 1000);
        lemma_div_is_ordered(3500 * elapsed, 3500 * ELAPSED_MAX, 1000);
        lemma_trunc_div_bound(py as int, 100, 1_000_000);
    }
    let angle = p.phase + div_fp(3500 * elapsed, 1000) + div_fp(py, 100);
    let sw = sin_fp(angle);
    let cw = cos_fp(angle);
    proof {
        assert(-(30_000 * dt) <= 30 * sw * dt <= 30_000 * dt) by (nonlinear_arith)
            requires
                -1000 <= sw <= 1000,
                0 <= dt,
        ;
        assert(-(30_000 * dt) <= 30 * cw * dt <= 30_000 * dt) by (nonlinear_arith)
            requires
                -1000 <= cw <= 1000,
                0 <= dt,
        ;
        lemma_trunc_div_bound(30 * sw * dt, 1000, 30_000 * dt);
        lemma_trunc_div_bound(30 * cw * dt, 1000, 30_000 * dt);
        lemma_div_by_multiple(30 * dt, 1000);
    }
    let vx1 = p.velocity.x + div_fp(30 * sw * dt, 1000);
    let vz1 = p.velocity.z + div_fp(30 * cw * dt, 1000);

    // Independent horizontal waver.
    proof {
        assert(0 <= elapsed * p.waver_freq <= 7_500_000_000_000_000) by (nonlinear_arith)
            requires
                0 <= elapsed <= 1_000_000_000_000,
                0 <= p.waver_freq <= 7500,
        ;
        lemma_trunc_div_nonneg(elapsed * p.waver_freq, 1000);
        lemma_div_is_ordered(elapsed * p.waver_freq, 7_500_000_000_000_000, 1000);
    }
    let w = sin_fp(div_fp(elapsed * p.waver_freq, 1000));
    proof {
        assert(-120_000_000 <= p.waver_amp * w <= 120_000_000) by (nonlinear_arith)
            requires
                0 <= p.waver_amp <= 120_000,
                -1000 <= w <= 1000,
        ;
        assert(-(120_000_000 * dt) <= p.waver_amp * w * dt <= 120_000_000 * dt)
            by (nonlinear_arith)
            requires
                0 <= p.waver_amp <= 120_000,
                -1000 <= w <= 1000,
                0 <= dt,
        ;
        lemma_trunc_div_bound(p.waver_amp * w * dt, 1_000_000, 120_000_000 * dt);
        lemma_div_by_multiple(120 * dt, 1_000_000);
    }
    let vx2 = vx1 + div_fp(p.waver_amp * w * dt, 1_000_000);

    // Drag on the horizontal axes: the factor (1 - 0.25 dt) as a single
    // division, so no precision is lost before it.
    proof {
        assert(-2_400_000_000 <= vx2 * (4000 - dt) <= 2_400_000_000) by (nonlinear_arith)
            requires
                0 <= dt <= 2200,
                -(600_000 + 150 * dt) <= vx2 <= 600_000 + 150 * dt,
        ;
        assert(-2_400_000_000 <= vz1 * (4000 - dt) <= 2_400_000_000) by (nonlinear_arith)
            requires
                0 <= dt <= 2200,
                -(600_000 + 150 * dt) <= vz1 <= 600_000 + 150 * dt,
        ;
        lemma_trunc_div_bound(vx2 * (4000 - dt), 4000, 2_400_000_000);
        lemma_trunc_div_bound(vz1 * (4000 - dt), 4000, 2_400_000_000);
    }
    let vx3 = div_fp(vx2 * (4000 - dt), 4000);
    let vz2 = div_fp(vz1 * (4000 - dt), 4000);

    // Growth.
    proof {
        lemma_trunc_div_nonneg(2500 * dt, 1000);
        lemma_div_is_ordered(2500 * dt, 3000 * dt, 1000);
        lemma_div_by_multiple(3 * dt, 1000);
    }
    let size2 = p.size + div_fp(2500 * dt, 1000);

    Particle {
        position: Vec3 { x: px, y: py, z: pz },
        velocity: Vec3 { x: vx3, y: vy2, z: vz2 },
        life: life2,
        max_life: p.max_life,
        size: size2,
        phase: p.phase,
        waver_amp: p.waver_amp,
        waver_freq: p.waver_freq,
    }
}

/// Draw one fresh particle from the disk emitter.
fn spawn_particle(rng: &mut rand::rngs::StdRng) -> (p: Particle)
    ensures
        spawned_ok(p),
{
    // Uniform position on the disk: an angle and a radius.
    let ang = rand_in_range(rng, 0, FULL_TURN);
    let r = rand_in_range(rng, 0, DISK_RADIUS);
    let s = sin_fp(ang);
    let c = cos_fp(ang);
    proof {
        lemma_sin_cos_l1(ang as int);
        assert(-(80_000_000) <= r * c <= 80_000_000) by (nonlinear_arith)
            requires
                0 <= r <= 80_000,
                -1000 <= c <= 1000,
        ;
        assert(-(80_000_000) <= r * s <= 80_000_000) by (nonlinear_arith)
            requires
                0 <= r <= 80_000,
                -1000 <= s <= 1000,
        ;
        lemma_trunc_div_bound(r * c, 1000, 80_000_000);
        lemma_trunc_div_bound(r * s, 1000, 80_000_000);
    }
    let dx = div_fp(r * c, 1000);
    let dz = div_fp(r * s, 1000);
    proof {
        lemma_offsets_stay_in_disk(r as int, s as int, c as int);
    }

    // Upward speed, plus an outward push along the unit radial direction.
    let up = rand_in_range(rng, UPWARD_MIN, UPWARD_MAX);
    let m = rand_in_range(rng, RADIAL_MIN, RADIAL_MAX);
    proof {
        assert(0 <= dx * dx <= 6_400_000_000 && 0 <= dz * dz <= 6_400_000_000)
            by (nonlinear_arith)
            requires
                -80_000 <= dx <= 80_000,
                -80_000 <= dz <= 80_000,
        ;
    }
    let n2 = dx * dx + dz * dz;
    let norm_u = isqrt(n2 as u64);
    proof {
        assert(norm_u <= 120_000) by (nonlinear_arith)
            requires
                norm_u * norm_u <= 12_800_000_000,
        ;
    }
    let norm = norm_u as i64;
    let vx: i64;
    let vz: i64;
    if norm == 0 {
        vx = 0;
        vz = 0;
    } else {
        proof {
            assert(dx * dx <= n2);
            assert(dz * dz <= n2);
            assert((norm + 1) * (norm + 1) > dx * dx ==> norm + 1 > abs(dx as int))
                by (nonlinear_arith)
                requires
                    norm >= 0,
            ;
            assert((norm + 1) * (norm + 1) > dz * dz ==> norm + 1 > abs(dz as int))
                by (nonlinear_arith)
                requires
                    norm >= 0,
            ;
            assert(-(norm * m) <= dx * m <= norm * m) by (nonlinear_arith)
                requires
                    -norm <= dx <= norm,
                    0 <= m,
            ;
            assert(-(norm * m) <= dz * m <= norm * m) by (nonlinear_arith)
                requires
                    -norm <= dz <= norm,
                    0 <= m,
            ;
            assert(-3_200_000_000 <= dx * m <= 3_200_000_000 && -3_200_000_000 <= dz * m
                <= 3_200_000_000) by (nonlinear_arith)
                requires
                    -80_000 <= dx <= 80_000,
                    -80_000 <= dz <= 80_000,
                    0 <= m <= 40_000,
            ;
            lemma_trunc_div_bound(dx * m, norm as int, norm * m);
            lemma_trunc_div_bound(dz * m, norm as int, norm * m);
            lemma_div_by_multiple(m as int, norm as int);
        }
        vx = div_fp(dx * m, norm);
        vz = div_fp(dz * m, norm);
    }

    let life = rand_in_range(rng, LIFE_MIN, MAX_LIFE_FP);
    let size = rand_in_range(rng, SIZE_MIN, SIZE_MAX);
    let phase = rand_in_range(rng, 0, FULL_TURN);
    let amp = rand_in_range(rng, WAVER_AMP_MIN, WAVER_AMP_MAX);
    let freq = rand_in_range(rng, WAVER_FREQ_MIN, WAVER_FREQ_MAX);

    Particle {
        position: Vec3 { x: EMITTER_X + dx, y: EMITTER_Y, z: EMITTER_Z + dz },
        velocity: Vec3 { x: vx, y: up, z: vz },
        life,
        max_life: MAX_LIFE_FP,
        size,
        phase,
        waver_amp: amp,
        waver_freq: freq,
    }
}

/// How many particles one step actually spawns: the nominal target, cut to
/// the room the capacity leaves after the survivors.
pub open spec fn spawn_count(s: Seq<Particle>, cap: int, dt: int, elapsed: int) -> int {
    let room = cap - step_seq(s, dt, elapsed).len();
    if spawn_target(dt) <= room {
        spawn_target(dt)
    } else {
        room
    }
}

impl ParticleSystem {
    /// The pool invariant: within capacity, and every particle well-formed.
    pub open spec fn wf(&self) -> bool {
        &&& self.particles@.len() <= self.max_particles
        &&& forall|i: int| 0 <= i < self.particles@.len() ==> (#[trigger] self.particles@[i]).wf()
    }

    /// An empty pool with the default capacity.
    pub fn new() -> (sys: ParticleSystem)
        ensures
            sys.wf(),
            sys.particles@.len() == 0,
            sys.max_particles == MAX_PARTICLES,
    {
        ParticleSystem { particles: Vec::new(), max_particles: MAX_PARTICLES }
    }

    /// Advance the whole pool by `dt` milliseconds at simulation clock
    /// `elapsed`: integrate the survivors in order, drop the dead, then spawn
    /// from the emitter until the nominal rate or the capacity stops it.
    #[verifier::loop_isolation(false)]
    pub fn update(&mut self, dt: i64, elapsed: i64, rng: &mut rand::rngs::StdRng)
        requires
            old(self).wf(),
            0 <= dt <= DT_MAX,
            0 <= elapsed <= ELAPSED_MAX,
        ensures
            final(self).wf(),
            final(self).max_particles == old(self).max_particles,
            ({
                let kept = step_seq(old(self).particles@, dt as int, elapsed as int);
                let fresh = spawn_count(
                    old(self).particles@,
                    final(self).max_particles as int,
                    dt as int,
                    elapsed as int,
                );
                &&& final(self).particles@.len() == kept.len() + fresh
                &&& final(self).particles@.subrange(0, kept.len() as int) == kept
                &&& forall|j: int|
                    kept.len() <= j < final(self).particles@.len() ==> spawned_ok(
                        #[trigger] final(self).particles@[j],
                    )
            }),
    {
        let ghost s0 = self.particles@;

        // Integrate the survivors into a fresh pool, keeping their order.
        let n = self.particles.len();
        let mut kept: Vec<Particle> = Vec::new();
        let mut i: usize = 0;
        while i < n
            invariant
                i <= n,
                self.particles@ == s0,
                kept@ == step_seq(s0.take(i as int), dt as int, elapsed as int),
                kept@.len() <= i,
                forall|k: int| 0 <= k < kept@.len() ==> (#[trigger] kept@[k]).wf(),
            decreases n - i,
        {
            let p = self.particles[i];
            proof {
                assert(s0.take(i as int + 1).drop_last() =~= s0.take(i as int));
                assert(s0.take(i as int + 1).last() == s0[i as int]);
            }
            if p.life - dt > 0 {
                let q = integrate_one(&p, dt, elapsed);
                kept.push(q);
            }
            i += 1;
        }
        proof {
            assert(s0.take(n as int) =~= s0);
        }
        self.particles = kept;

        // Spawn until the per-step budget or the capacity is reached.
        proof {
            lemma_trunc_div_nonneg(SPAWN_RATE * dt, 1000);
        }
        let target = div_fp(SPAWN_RATE * dt, 1000);
        let ghost kseq = self.particles@;
        let mut spawned: i64 = 0;
        while spawned < target && self.particles.len() < self.max_particles
            invariant
                0 <= spawned <= target,
                self.max_particles == old(self).max_particles,
                kseq == step_seq(s0, dt as int, elapsed as int),
                self.particles@.len() == kseq.len() + spawned,
                self.particles@.len() <= self.max_particles,
                self.particles@.subrange(0, kseq.len() as int) == kseq,
                forall|j: int|
                    kseq.len() <= j < self.particles@.len() ==> spawned_ok(
                        #[trigger] self.particles@[j],
                    ),
                forall|j: int|
                    0 <= j < self.particles@.len() ==> (#[trigger] self.particles@[j]).wf(),
            decreases target - spawned,
        {
            let p = spawn_particle(rng);
            self.particles.push(p);
            proof {
                assert(self.particles@.subrange(0, kseq.len() as int) =~= kseq);
            }
            spawned += 1;
        }
    }

    /// Build the per-instance array for this frame, or nothing at all when
    /// the pool is empty: an empty pool draws nothing and writes nothing.
    #[verifier::loop_isolation(false)]
    pub fn render(&self) -> (batch: Option<Vec<ParticleInstance>>)
        requires
            self.wf(),
        ensures
            batch is None <==> self.particles@.len() == 0,
            batch matches Some(v) ==> v@.len() == self.particles@.len() && forall|i: int|
                0 <= i < v@.len() ==> v@[i] == instance_spec(self.particles@[i]),
    {
        if self.particles.len() == 0 {
            return None;
        }
        let mut out: Vec<ParticleInstance> = Vec::new();
        let mut i: usize = 0;
        while i < self.particles.len()
            invariant
                i <= self.particles@.len(),
                out@.len() == i,
                forall|k: int| 0 <= k < i ==> out@[k] == instance_spec(self.particles@[k]),
            decreases self.particles@.len() - i,
        {
            let inst = particle_instance(&self.particles[i]);
            out.push(inst);
            i += 1;
        }
        Some(out)
    }
}

/// A point sampled as `(r cos, r sin)` in fixed point stays strictly inside
/// the disk of radius `DISK_RADIUS`: the Euclidean distance is below the
/// taxicab distance, and `|sin| + |cos| <= 1000` caps that by `r`.
proof fn lemma_offsets_stay_in_disk(r: int, s: int, c: int)
    requires
        0 <= r < 80_000,
        abs(s) + abs(c) <= 1000,
    ensures
        trunc_div(r * c, 1000) * trunc_div(r * c, 1000) + trunc_div(r * s, 1000) * trunc_div(
            r * s,
            1000,
        ) < 80_000 * 80_000,
{
    let a = abs(r * c) as int;
    let b = abs(r * s) as int;
    assert(a == r * abs(c) && b == r * abs(s)) by (nonlinear_arith)
        requires
            0 <= r,
            a == abs(r * c),
            b == abs(r * s),
    ;
    assert(a + b <= r * 1000) by (nonlinear_arith)
        requires
            0 <= r,
            a == r * abs(c),
            b == r * abs(s),
            abs(s) + abs(c) <= 1000,
    ;
    let dx = trunc_div(r * c, 1000);
    let dz = trunc_div(r * s, 1000);
    assert(abs(dx) == a / 1000 && abs(dz) == b / 1000);
    vstd::arithmetic::div_mod::lemma_fundamental_div_mod(a, 1000);
    vstd::arithmetic::div_mod::lemma_fundamental_div_mod(b, 1000);
    vstd::arithmetic::div_mod::lemma_mod_bound(a, 1000);
    vstd::arithmetic::div_mod::lemma_mod_bound(b, 1000);
    assert(1000 * (a / 1000) + 1000 * (b / 1000) <= a + b);
    assert(abs(dx) + abs(dz) <= r) by {
        assert(1000 * (abs(dx) + abs(dz)) <= 1000 * r);
    }
    assert(dx * dx + dz * dz <= r * r) by (nonlinear_arith)
        requires
            abs(dx) + abs(dz) <= r,
            0 <= r,
    ;
    assert(r * r < 80_000 * 80_000) by (nonlinear_arith)
        requires
            0 <= r < 80_000,
    ;
}

} // verus!


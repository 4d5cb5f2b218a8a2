use plume::particles::ParticleSystem;
use plume::rng::rng_from_seed;
use plume::types::{MAX_LIFE_FP, MAX_PARTICLES};

#[test]
fn empty_pool_render_no_op() {
    let sys = ParticleSystem::new();
    assert_eq!(sys.particles.len(), 0);
    // An empty pool yields no batch at all: nothing to upload, nothing to draw.
    let mut uploads: u32 = 0;
    let mut draws: u32 = 0;
    if let Some(batch) = sys.render() {
        uploads += 1;
        draws += 1;
        let _ = batch;
    }
    assert_eq!(uploads, 0);
    assert_eq!(draws, 0);
}

#[test]
fn spawn_rate_at_ten_milliseconds() {
    let mut rng = rng_from_seed(1);
    let mut sys = ParticleSystem::new();
    // dt = 0.01 s: floor(900 * 0.01) = 9 spawns.
    sys.update(10, 0, &mut rng);
    assert_eq!(sys.particles.len(), 9);
}

#[test]
fn spawn_rate_rounds_down() {
    let mut rng = rng_from_seed(2);
    let mut sys = ParticleSystem::new();
    // dt = 0.999 s: floor(900 * 0.999) = floor(899.1) = 899.
    sys.update(999, 0, &mut rng);
    assert_eq!(sys.particles.len(), 899);

    let mut sys2 = ParticleSystem::new();
    // dt just below one spawn's worth: floor(900 * 0.001) = 0.
    sys2.update(1, 0, &mut rng);
    assert_eq!(sys2.particles.len(), 0);
}

#[test]
fn capacity_never_exceeded() {
    let mut rng = rng_from_seed(3);
    let mut sys = ParticleSystem::new();
    // 10 s steps ask for 9000 spawns each; the pool must cap at 5000.
    for step in 0..6u64 {
        sys.update(10_000, (step as i64) * 10_000, &mut rng);
        assert!(sys.particles.len() <= MAX_PARTICLES);
    }
    assert_eq!(sys.particles.len(), MAX_PARTICLES);
}

#[test]
fn lifetime_strictly_decreases() {
    let mut rng = rng_from_seed(4);
    let mut sys = ParticleSystem::new();
    sys.update(10, 0, &mut rng);
    let before: Vec<i64> = sys.particles.iter().map(|p| p.life).collect();
    assert_eq!(before.len(), 9);
    // Everyone survives a 10 ms step (lives start at 1200 ms or more), and
    // the survivors keep their order at the front of the pool.
    sys.update(10, 10, &mut rng);
    for (i, old_life) in before.iter().enumerate() {
        let new_life = sys.particles[i].life;
        assert!(new_life < *old_life);
        assert_eq!(new_life, *old_life - 10);
    }
}

#[test]
fn dead_particles_are_removed() {
    let mut rng = rng_from_seed(5);
    let mut sys = ParticleSystem::new();
    sys.update(1000, 0, &mut rng);
    assert_eq!(sys.particles.len(), 900);
    // A step longer than any remaining lifetime clears the old generation;
    // what is left is exactly the new spawns, all with full fresh lives.
    sys.update(2500, 1000, &mut rng);
    assert_eq!(sys.particles.len(), 2250);
    for p in sys.particles.iter() {
        assert!(p.life > 0);
        assert!(p.life >= 1200 && p.life < MAX_LIFE_FP);
    }
}

#[test]
fn no_dead_particle_ever_observable() {
    let mut rng = rng_from_seed(6);
    let mut sys = ParticleSystem::new();
    let steps: [i64; 7] = [1000, 700, 2500, 10, 0, 300, 5000];
    let mut clock: i64 = 0;
    for dt in steps.iter() {
        sys.update(*dt, clock, &mut rng);
        clock += *dt;
        for p in sys.particles.iter() {
            assert!(p.life > 0);
        }
    }
}

#[test]
fn end_to_end_two_steps() {
    let mut rng = rng_from_seed(7);
    let mut sys = ParticleSystem::new();
    // First step: one second from an empty pool spawns floor(900 * 1) = 900.
    sys.update(1000, 0, &mut rng);
    assert_eq!(sys.particles.len(), 900);
    for p in sys.particles.iter() {
        assert!(p.life >= 1200 && p.life <= 2200);
        assert_eq!(p.max_life, MAX_LIFE_FP);
    }
    // Second step: 2.5 s exceeds every lifetime, so only the new spawns stay.
    sys.update(2500, 1000, &mut rng);
    assert_eq!(sys.particles.len(), 2250);
}

#[test]
fn disk_emitter_bound_ten_thousand_samples() {
    let mut sampled: usize = 0;
    let mut seed: u64 = 100;
    while sampled < 10_000 {
        let mut rng = rng_from_seed(seed);
        let mut sys = ParticleSystem::new();
        sys.update(1000, 0, &mut rng);
        for p in sys.particles.iter() {
            // At spawn the vertical offset from the emitter center is zero...
            assert_eq!(p.position.y, -50_000);
            // ...and the horizontal distance stays strictly inside the disk.
            let dx = (p.position.x - 0) as i128;
            let dz = (p.position.z - (-300_000)) as i128;
            assert!(dx * dx + dz * dz < 80_000i128 * 80_000i128);
        }
        sampled += sys.particles.len();
        seed += 1;
    }
}

#[test]
fn zero_step_changes_nothing() {
    let mut rng = rng_from_seed(10);
    let mut sys = ParticleSystem::new();
    sys.update(100, 0, &mut rng);
    assert_eq!(sys.particles.len(), 90);
    let snapshot = sys.particles.clone();
    // dt = 0: nobody dies, nothing moves, floor(900 * 0) = 0 spawns.
    sys.update(0, 500, &mut rng);
    assert_eq!(sys.particles.len(), snapshot.len());
    for (p, q) in sys.particles.iter().zip(snapshot.iter()) {
        assert_eq!(p.position, q.position);
        assert_eq!(p.velocity, q.velocity);
        assert_eq!(p.life, q.life);
        assert_eq!(p.size, q.size);
    }
}

#[test]
fn same_seed_same_plume() {
    let mut rng_a = rng_from_seed(11);
    let mut rng_b = rng_from_seed(11);
    let mut a = ParticleSystem::new();
    let mut b = ParticleSystem::new();
    a.update(500, 0, &mut rng_a);
    b.update(500, 0, &mut rng_b);
    assert_eq!(a.particles.len(), b.particles.len());
    for (p, q) in a.particles.iter().zip(b.particles.iter()) {
        assert_eq!(p.position, q.position);
        assert_eq!(p.velocity, q.velocity);
        assert_eq!(p.life, q.life);
    }
}

#[test]
fn spawn_velocities_within_ranges() {
    let mut rng = rng_from_seed(12);
    let mut sys = ParticleSystem::new();
    sys.update(1000, 0, &mut rng);
    for p in sys.particles.iter() {
        assert!(p.velocity.y >= 180_000 && p.velocity.y < 260_000);
        assert!(p.velocity.x.abs() < 40_000);
        assert!(p.velocity.z.abs() < 40_000);
        assert!(p.size >= 6000 && p.size < 12_000);
        assert!(p.phase >= 0 && p.phase < 6284);
        assert!(p.waver_amp >= 50_000 && p.waver_amp < 120_000);
        assert!(p.waver_freq >= 3000 && p.waver_freq < 7500);
    }
}

use plume::particles::ParticleSystem;
use plume::render::{age_fp, color_for, particle_instance, size_curve_fp};
use plume::rng::rng_from_seed;
use plume::types::{Particle, Vec3};

fn mid_life_particle() -> Particle {
    Particle {
        position: Vec3 { x: 0, y: -50_000, z: -300_000 },
        velocity: Vec3 { x: 0, y: 200_000, z: 0 },
        life: 1100,
        max_life: 2200,
        size: 10_000,
        phase: 0,
        waver_amp: 60_000,
        waver_freq: 5000,
    }
}

#[test]
fn age_is_life_over_max_life() {
    assert_eq!(age_fp(1100, 2200), 500);
    assert_eq!(age_fp(2200, 2200), 1000);
    assert_eq!(age_fp(0, 2200), 0);
    assert_eq!(age_fp(1, 2200), 0);
    // The formula is deliberately unclamped: a life above max_life maps past 1.
    assert_eq!(age_fp(4400, 2200), 2000);
}

#[test]
fn color_bands_at_mid_life() {
    // t = 0.5 falls in the middle band: orange.
    let c = color_for(500);
    assert_eq!((c.r, c.g, c.b), (1000, 600, 200));
    // And the size curve there is 0.5 * 0.5 * 3.2 = 0.8.
    assert_eq!(size_curve_fp(500), 800);
}

#[test]
fn color_band_edges() {
    // t = 0.7 still belongs to the middle band; the pale band starts above.
    assert_eq!((color_for(700).r, color_for(700).g, color_for(700).b), (1000, 600, 200));
    assert_eq!((color_for(701).r, color_for(701).g, color_for(701).b), (1000, 950, 700));
    // t = 0.4 still belongs to the young band.
    assert_eq!((color_for(400).r, color_for(400).g, color_for(400).b), (1000, 200, 50));
    assert_eq!((color_for(401).r, color_for(401).g, color_for(401).b), (1000, 600, 200));
    assert_eq!((color_for(1000).r, color_for(1000).g, color_for(1000).b), (1000, 950, 700));
    assert_eq!((color_for(0).r, color_for(0).g, color_for(0).b), (1000, 200, 50));
}

#[test]
fn alpha_floor_and_ceiling() {
    // t = 0: clamp(0, 0.35, 1.0) = 0.35.
    assert_eq!(color_for(0).a, 350);
    // t = 1: clamp(1.3, 0.35, 1.0) = 1.0.
    assert_eq!(color_for(1000).a, 1000);
    // In between the ramp is 1.3 * t.
    assert_eq!(color_for(500).a, 650);
    assert_eq!(color_for(270).a, 351);
    assert_eq!(color_for(269).a, 350);
}

#[test]
fn size_curve_shape() {
    // Parabolic: zero at birth and death, peak at mid-life.
    assert_eq!(size_curve_fp(0), 0);
    assert_eq!(size_curve_fp(1000), 0);
    assert_eq!(size_curve_fp(250), 600);
    assert_eq!(size_curve_fp(750), 600);
    assert!(size_curve_fp(500) > size_curve_fp(250));
}

#[test]
fn instance_from_mid_life_particle() {
    let p = mid_life_particle();
    let inst = particle_instance(&p);
    assert_eq!(inst.position, p.position);
    // size * curve = 10.0 * 0.8 = 8.0.
    assert_eq!(inst.size, 8000);
    assert_eq!((inst.color.r, inst.color.g, inst.color.b, inst.color.a), (1000, 600, 200, 650));
}

#[test]
fn instance_depends_on_life_and_size_alone() {
    // Same (life, max_life, size), different kinematics: identical visuals.
    let a = mid_life_particle();
    let mut b = mid_life_particle();
    b.position = Vec3 { x: 40_000, y: -50_000, z: -260_000 };
    b.velocity = Vec3 { x: 20_000, y: 250_000, z: -20_000 };
    b.phase = 6000;
    b.waver_amp = 110_000;
    b.waver_freq = 7000;
    let ia = particle_instance(&a);
    let ib = particle_instance(&b);
    assert_eq!(ia.size, ib.size);
    assert_eq!(ia.color, ib.color);
}

#[test]
fn render_matches_pool() {
    let mut rng = rng_from_seed(21);
    let mut sys = ParticleSystem::new();
    sys.update(200, 0, &mut rng);
    assert_eq!(sys.particles.len(), 180);
    let batch = sys.render().expect("pool is not empty");
    assert_eq!(batch.len(), sys.particles.len());
    for (inst, p) in batch.iter().zip(sys.particles.iter()) {
        assert_eq!(*inst, particle_instance(p));
    }
}

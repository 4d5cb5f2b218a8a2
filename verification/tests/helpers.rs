use plume::fixed::{clamp_fp, div_fp, isqrt};
use plume::gltf_loader::GltfLoader;
use plume::input::{InputEvent, InputHandler, Key};
use plume::rng::{rand_in_range, rng_from_seed};
use plume::trig::{cos_fp, sin_fp, FULL_TURN, QUARTER_TURN};

#[test]
fn truncating_division() {
    assert_eq!(div_fp(7, 2), 3);
    assert_eq!(div_fp(-7, 2), -3);
    assert_eq!(div_fp(999, 1000), 0);
    assert_eq!(div_fp(-999, 1000), 0);
    assert_eq!(div_fp(-1000, 1000), -1);
    assert_eq!(div_fp(0, 5), 0);
}

#[test]
fn clamping() {
    assert_eq!(clamp_fp(-5, 0, 10), 0);
    assert_eq!(clamp_fp(5, 0, 10), 5);
    assert_eq!(clamp_fp(15, 0, 10), 10);
    assert_eq!(clamp_fp(0, 0, 10), 0);
    assert_eq!(clamp_fp(10, 0, 10), 10);
}

#[test]
fn integer_square_root() {
    assert_eq!(isqrt(0), 0);
    assert_eq!(isqrt(1), 1);
    assert_eq!(isqrt(3), 1);
    assert_eq!(isqrt(4), 2);
    assert_eq!(isqrt(6_400_000_000), 80_000);
    assert_eq!(isqrt(6_399_999_999), 79_999);
    assert_eq!(isqrt(u64::MAX), 0xffff_ffff);
}

#[test]
fn sine_quarter_points() {
    assert_eq!(sin_fp(0), 0);
    assert_eq!(sin_fp(QUARTER_TURN), 1000);
    assert_eq!(sin_fp(2 * QUARTER_TURN), 0);
    assert_eq!(sin_fp(3 * QUARTER_TURN), -1000);
    assert_eq!(sin_fp(FULL_TURN), 0);
    assert_eq!(cos_fp(0), 1000);
    assert_eq!(cos_fp(QUARTER_TURN), 0);
    assert_eq!(cos_fp(2 * QUARTER_TURN), -1000);
    assert_eq!(sin_fp(-QUARTER_TURN), -1000);
}

#[test]
fn sine_periodic_and_bounded() {
    let mut x: i64 = -6284;
    while x <= 2 * FULL_TURN {
        let s = sin_fp(x);
        let c = cos_fp(x);
        assert!((-1000..=1000).contains(&s));
        assert!((-1000..=1000).contains(&c));
        assert!(s.abs() + c.abs() <= 1000);
        assert_eq!(s, sin_fp(x + FULL_TURN));
        x += 97;
    }
}

#[test]
fn index_rebasing() {
    let raw: Vec<u32> = vec![0, 1, 2, 2, 3, 0];
    let out = GltfLoader::offset_indices(4, &raw);
    assert_eq!(out, vec![4, 5, 6, 6, 7, 4]);
}

#[test]
fn index_rebasing_wraps() {
    let raw: Vec<u32> = vec![65_535, 65_536, 70_000];
    let out = GltfLoader::offset_indices(1, &raw);
    // 65_535 + 1 wraps to 0; 65_536 truncates to 0 then shifts to 1;
    // 70_000 truncates to 4464 then shifts to 4465.
    assert_eq!(out, vec![0, 1, 4465]);
}

#[test]
fn fallback_decision() {
    assert!(GltfLoader::needs_fallback(0));
    assert!(!GltfLoader::needs_fallback(1));
    assert!(!GltfLoader::needs_fallback(4096));
}

#[test]
fn quit_events() {
    assert!(InputHandler::handle_window_event(&InputEvent::CloseRequested));
    assert!(InputHandler::handle_window_event(&InputEvent::Keyboard {
        key: Key::Q,
        pressed: true
    }));
    assert!(InputHandler::handle_window_event(&InputEvent::Keyboard {
        key: Key::Escape,
        pressed: true
    }));
    assert!(!InputHandler::handle_window_event(&InputEvent::Keyboard {
        key: Key::Q,
        pressed: false
    }));
    assert!(!InputHandler::handle_window_event(&InputEvent::Keyboard {
        key: Key::Other,
        pressed: true
    }));
    assert!(!InputHandler::handle_window_event(&InputEvent::Other));
}

#[test]
fn ranged_draws_stay_in_range_and_vary() {
    let mut rng = rng_from_seed(33);
    let mut seen_five = false;
    let mut seen_six = false;
    for _ in 0..1000 {
        let r = rand_in_range(&mut rng, 5, 7);
        assert!((5..7).contains(&r));
        if r == 5 {
            seen_five = true;
        }
        if r == 6 {
            seen_six = true;
        }
    }
    assert!(seen_five && seen_six);
}

//! Fixed-point math: angle wrapping, lighting falloff, square roots,
//! the trigonometric approximations and the cadence timers.

use raycaster::fp::{
    calculate_lighting, fp_atan2, fp_cos, fp_sin, fp_sqrt, wrap_angle, FP_ONE, HALF_PI_FP,
    PI_FP, QUARTER_PI_FP, TWO_PI_FP,
};
use raycaster::game::{Timers, PATHFIND_INTERVAL_FP, RENDER_INTERVAL_FP};

#[test]
fn wrap_angle_is_normalized() {
    assert_eq!(wrap_angle(0), 0);
    assert_eq!(wrap_angle(TWO_PI_FP), 0);
    assert_eq!(wrap_angle(-1), TWO_PI_FP - 1);
    assert_eq!(wrap_angle(500000), 500000 - TWO_PI_FP);
    assert_eq!(wrap_angle(-3 * TWO_PI_FP - 7), TWO_PI_FP - 7);
    let huge: i64 = 123_456_789_012;
    let w = wrap_angle(huge);
    assert!(0 <= w && w < TWO_PI_FP);
}

#[test]
fn wrap_angle_is_periodic() {
    for &a in &[0i64, 1, -1, 100_000, -411_775, 9_999_999, -9_999_999] {
        let w = wrap_angle(a);
        assert_eq!(wrap_angle(w + TWO_PI_FP), w);
        assert_eq!(wrap_angle(w), w);
    }
}

#[test]
fn lighting_full_at_zero_dark_at_radius() {
    let radius: i64 = 5 * FP_ONE;
    assert_eq!(calculate_lighting(0, radius), FP_ONE);
    assert_eq!(calculate_lighting(radius, radius), 0);
    assert_eq!(calculate_lighting(10 * FP_ONE, radius), 0);
    assert_eq!(calculate_lighting(radius / 2, radius), FP_ONE / 2);
    for d in [0i64, 1, 1000, 327679, 327680, 1 << 30] {
        let l = calculate_lighting(d, radius);
        assert!((0..=FP_ONE).contains(&l));
    }
}

#[test]
fn sqrt_is_exact_floor() {
    assert_eq!(fp_sqrt(0), 0);
    assert_eq!(fp_sqrt(1), 1);
    assert_eq!(fp_sqrt(3), 1);
    assert_eq!(fp_sqrt(4), 2);
    assert_eq!(fp_sqrt(10), 3);
    assert_eq!(fp_sqrt(9663676416), 98304);
    assert_eq!(fp_sqrt((1 << 56) - 1), (1 << 28) - 1);
}

#[test]
fn sine_has_unit_range_and_symmetry() {
    assert_eq!(fp_sin(0), 0);
    assert_eq!(fp_sin(PI_FP), 0);
    let s = fp_sin(HALF_PI_FP);
    assert!(s > 65000 && s <= FP_ONE);
    // Second half turn is the negated first half.
    let a: i64 = 50_000;
    assert_eq!(fp_sin(a + PI_FP), -fp_sin(a));
    // Cosine is the sine a quarter turn ahead.
    assert_eq!(fp_cos(0), fp_sin(HALF_PI_FP));
    for &a in &[0i64, 1000, 102_944, 205_887, 300_000, 411_773] {
        let s = fp_sin(a);
        let c = fp_cos(a);
        assert!((-FP_ONE..=FP_ONE).contains(&s));
        assert!((-FP_ONE..=FP_ONE).contains(&c));
    }
}

#[test]
fn atan2_hits_the_axes_and_diagonal() {
    assert_eq!(fp_atan2(0, 100), 0);
    assert_eq!(fp_atan2(100, 0), HALF_PI_FP);
    assert_eq!(fp_atan2(0, -100), PI_FP);
    assert_eq!(fp_atan2(-100, 0), TWO_PI_FP - HALF_PI_FP);
    assert_eq!(fp_atan2(100, 100), QUARTER_PI_FP);
    assert_eq!(fp_atan2(0, 0), 0);
    for &(y, x) in &[(37i64, 91i64), (-40, 7), (-3, -9), (55, -2)] {
        let a = fp_atan2(y, x);
        assert!(0 <= a && a < TWO_PI_FP);
    }
}

#[test]
fn timers_trigger_and_keep_overshoot() {
    let mut t = Timers::new();
    let (r, p) = t.advance(RENDER_INTERVAL_FP - 1);
    assert!(!r && !p);
    let (r, p) = t.advance(1);
    assert!(r && !p);
    assert_eq!(t.render_acc, 0);
    // Overshoot is kept, not discarded.
    let (r, _) = t.advance(RENDER_INTERVAL_FP + 5);
    assert!(r);
    assert_eq!(t.render_acc, 5);
    // The pathfinding accumulator reaches its longer interval.
    let mut total = t.pathfind_acc;
    let mut fired = false;
    for _ in 0..40 {
        let (_, p) = t.advance(1000);
        total += 1000;
        if total >= PATHFIND_INTERVAL_FP {
            assert!(p);
            fired = true;
            break;
        } else {
            assert!(!p);
        }
    }
    assert!(fired);
}

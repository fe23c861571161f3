//! Numbers by their bits: order, clamps, guards and the flush.

use drumlin::ieee::{ieee, percent, Ieee32};
use drumlin::util::flush_denormal as flush;

fn bits(x: f32) -> Ieee32 {
    ieee(x.to_bits())
}

fn float(x: Ieee32) -> f32 {
    f32::from_bits(x.bits)
}

fn flush_denormal(x: f32) -> f32 {
    float(flush(bits(x)))
}

#[test]
fn passes_normal_values_unchanged() {
    for &x in &[1.0f32, -1.0, 0.5, -0.333, 12_345.0, -9_999.0, 1.0e-20] {
        assert_eq!(flush_denormal(x), x, "normal value {x} was altered");
    }
}

#[test]
fn folds_non_finite_to_zero() {
    assert_eq!(flush_denormal(f32::NAN), 0.0);
    assert_eq!(flush_denormal(f32::INFINITY), 0.0);
    assert_eq!(flush_denormal(f32::NEG_INFINITY), 0.0);
}

#[test]
fn folds_denormal_tiny_to_zero() {
    assert_eq!(flush_denormal(1.0e-30), 0.0);
    assert_eq!(flush_denormal(-1.0e-40), 0.0);
    assert_eq!(flush_denormal(f32::MIN_POSITIVE / 2.0), 0.0);
}

#[test]
fn nan_clamp_pitfall_is_handled() {
    let clamped = f32::NAN.clamp(-32.0, 32.0);
    assert!(clamped.is_nan(), "sanity: NaN.clamp returns NaN");
    assert_eq!(flush_denormal(clamped), 0.0);
}

#[test]
fn the_flush_threshold_itself_is_flushed() {
    let edge = 1.0e-25f32;
    assert_eq!(flush_denormal(edge), 0.0);
    let above = f32::from_bits(edge.to_bits() + 1);
    assert_eq!(flush_denormal(above), above);
    assert_eq!(flush_denormal(-above), -above);
}

fn samples() -> Vec<f32> {
    vec![
        0.0,
        -0.0,
        1.0,
        -1.0,
        0.3,
        -0.3,
        1.0e-40,
        -1.0e-40,
        f32::MAX,
        f32::MIN,
        f32::MIN_POSITIVE,
        f32::INFINITY,
        f32::NEG_INFINITY,
        f32::NAN,
    ]
}

#[test]
fn comparisons_agree_with_the_machine() {
    for a in samples() {
        for b in samples() {
            assert_eq!(bits(a).lt(bits(b)), a < b, "{a} < {b}");
            assert_eq!(bits(a).le(bits(b)), a <= b, "{a} <= {b}");
            assert_eq!(bits(a).position() == bits(b).position(), a == b || a.is_nan() && b.is_nan());
        }
        assert_eq!(bits(a).is_nan(), a.is_nan());
        assert_eq!(bits(a).is_finite(), a.is_finite());
        assert_eq!(bits(a).abs().bits, a.abs().to_bits());
    }
}

#[test]
fn clamps_agree_with_the_machine() {
    for x in samples() {
        let (got, want) = (float(bits(x).clamp(bits(-0.5), bits(0.75))), x.clamp(-0.5, 0.75));
        assert!(got == want || got.is_nan() && want.is_nan(), "clamp of {x}");
        for y in samples() {
            assert_eq!(float(bits(x).max(bits(y))) == x.max(y), !x.max(y).is_nan());
            assert_eq!(float(bits(x).min(bits(y))) == x.min(y), !x.min(y).is_nan());
        }
        let unit = float(bits(x).clamp01());
        assert_eq!(unit, if x.is_nan() { 0.0 } else { x.clamp(0.0, 1.0) });
        let guarded = float(bits(x).guard(bits(7.0)));
        assert_eq!(guarded, if x.is_finite() { x } else { 7.0 });
    }
}

#[test]
fn percents_are_the_nearest_numbers() {
    for n in 0..=100usize {
        assert_eq!(float(percent(n)), (n as f64 / 100.0) as f32, "{n} percent");
    }
}

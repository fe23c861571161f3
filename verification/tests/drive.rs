//! Drive: the library's part at work in the sound.

#![allow(dead_code)]

use drumlin::drive::{DriveKind, DriveParams, Hold};
use drumlin::ieee::{ieee, Ieee32};
use std::f32::consts::PI;
use std::f32::consts::TAU;

/// A float as the library holds it.
fn bits(x: f32) -> Ieee32 {
    ieee(x.to_bits())
}

/// A number of the library as a float.
fn float(x: Ieee32) -> f32 {
    f32::from_bits(x.bits)
}

/// What may be kept in a feedback path: not a NaN, an infinity or a denormal.
fn flush_denormal(x: f32) -> f32 {
    float(drumlin::util::flush_denormal(bits(x)))
}

#[derive(Clone, Debug)]
struct Drive {
    sample_rate: f32,
    params: DriveParams,
    in_gain: f32,
    tone_lp: f32,
    prev_in: f32,
    hold: Hold,
}

// Floating-point arithmetic around the library's settings and hold.
impl Drive {
    const TONE_PIVOT_HZ: f32 = 700.0;

    fn new(sample_rate: f32) -> Self {
        Self {
            sample_rate,
            params: DriveParams::new(),
            in_gain: 1.0,
            tone_lp: 0.0,
            prev_in: 0.0,
            hold: Hold::new(),
        }
    }

    fn set_sample_rate(&mut self, sample_rate: f32) {
        self.sample_rate = sample_rate;
        self.tone_lp = 0.0;
        self.prev_in = 0.0;
        self.hold = Hold::new();
    }

    fn set_params(
        &mut self,
        on: bool,
        kind: DriveKind,
        drive: f32,
        tone: f32,
        bit_depth: f32,
        downsample: f32,
        crush_mix: f32,
        mix: f32,
    ) {
        self.params.set_params(
            on,
            kind,
            bits(drive),
            bits(tone),
            bits(bit_depth),
            bits(downsample),
            bits(crush_mix),
            bits(mix),
        );
        let d = float(self.params.knob);
        self.in_gain = 1.0 + 15.0 * d * d;
    }

    fn process(&mut self, input: f32) -> f32 {
        if !self.params.on {
            return input;
        }
        let shaped = if self.params.kind == DriveKind::Clean {
            input
        } else {
            let x = input * self.in_gain;
            let mid = 0.5 * (self.prev_in + x);
            let half_a = self.shape(mid);
            let half_b = self.shape(x);
            self.prev_in = x;
            0.5 * (half_a + half_b)
        };
        let toned = self.apply_tone(shaped);
        let crushed = self.bitcrush(toned);
        let decimated = self.downsample_hold(crushed);
        let crushed_blend = toned + (decimated - toned) * float(self.params.crush_mix);
        input + (crushed_blend - input) * float(self.params.mix)
    }

    fn shape(&self, x: f32) -> f32 {
        match self.params.kind {
            DriveKind::Clean => x,
            DriveKind::Tube => tube(x),
            DriveKind::Diode => diode(x),
            DriveKind::RatFuzz => ratfuzz(x),
            DriveKind::Compound => diode(tube(x)),
        }
    }

    /// A tilt around the pivot: flat at one half.
    fn apply_tone(&mut self, x: f32) -> f32 {
        let fc = Self::TONE_PIVOT_HZ;
        let a = (1.0 - (-2.0 * PI * fc / self.sample_rate).exp()).clamp(0.0, 1.0);
        self.tone_lp = flush_denormal(self.tone_lp + a * (x - self.tone_lp));
        let low = self.tone_lp;
        let high = x - low;
        let t = float(self.params.tone);
        let (low_gain, high_gain) = if t <= 0.5 {
            (1.0, t * 2.0)
        } else {
            (1.0 - (t - 0.5) * 0.5, 1.0 + (t - 0.5) * 2.0)
        };
        low * low_gain + high * high_gain
    }

    fn bitcrush(&self, x: f32) -> f32 {
        if !self.params.crushes() {
            return x;
        }
        let q = 2.0f32.powf(float(self.params.bits) - 1.0);
        (x * q).round() / q
    }

    fn downsample_hold(&mut self, x: f32) -> f32 {
        let ahead = float(self.hold.phase) + 1.0 / float(self.params.downsample);
        float(self.hold.step(bits(x), self.params.downsample, bits(ahead), bits(ahead - 1.0)))
    }
}

/// An asymmetric curve, which gives even harmonics. Floating-point arithmetic.
fn tube(x: f32) -> f32 {
    const BIAS: f32 = 0.2;
    let t_bias = BIAS.tanh();
    let slope = 1.0 - t_bias * t_bias;
    ((x + BIAS).tanh() - t_bias) / slope
}

/// A soft fold. Floating-point arithmetic.
fn diode(x: f32) -> f32 {
    x / (1.0 + x.abs())
}

/// A hard, early clip. Floating-point arithmetic.
fn ratfuzz(x: f32) -> f32 {
    const K: f32 = 6.0;
    (K * x).tanh() / K
}

const SR: f32 = 48_000.0;

fn sine(freq: f32, n: usize, amp: f32) -> impl Iterator<Item = f32> {
    let step = freq / SR;
    let mut phase = 0.0f32;
    (0..n).map(move |_| {
        let s = (phase * TAU).sin() * amp;
        phase = (phase + step).fract();
        s
    })
}

#[test]
fn drive_disabled_is_true_bypass() {
    let mut d = Drive::new(SR);
    for x in sine(220.0, 4_000, 0.9) {
        assert_eq!(d.process(x), x, "disabled module must pass input untouched");
    }
}

#[test]
fn finite_and_bounded_across_param_sweep() {
    let kinds = [
        DriveKind::Clean,
        DriveKind::Tube,
        DriveKind::Diode,
        DriveKind::RatFuzz,
        DriveKind::Compound,
    ];
    for &kind in &kinds {
        for &drive in &[0.0, 0.25, 0.5, 1.0] {
            for &tone in &[0.0, 0.5, 1.0] {
                for &bits in &[1.0, 4.0, 8.0, 16.0] {
                    for &ds in &[1.0, 2.5, 16.0, 50.0] {
                        for &mix in &[0.0, 0.5, 1.0] {
                            let mut d = Drive::new(SR);
                            d.set_params(true, kind, drive, tone, bits, ds, 1.0, mix);
                            for (i, x) in sine(330.0, 2_000, 1.5).enumerate() {
                                let x = if i % 257 == 0 { x + 1.5 } else { x };
                                let y = d.process(x);
                                assert!(
                                    y.is_finite(),
                                    "non-finite out: kind={kind:?} drive={drive} \
                                     tone={tone} bits={bits} ds={ds} mix={mix}"
                                );
                                assert!(
                                    y.abs() < 6.0,
                                    "out of range {y}: kind={kind:?} drive={drive}"
                                );
                            }
                        }
                    }
                }
            }
        }
    }
}

#[test]
fn nan_and_inf_params_are_guarded() {
    let mut d = Drive::new(SR);
    d.set_params(
        true,
        DriveKind::RatFuzz,
        f32::NAN,
        f32::INFINITY,
        f32::NAN,
        f32::INFINITY,
        f32::NAN,
        f32::NAN,
    );
    for x in sine(440.0, 1_000, 1.0) {
        let y = d.process(x);
        assert!(y.is_finite(), "guarded params still produced non-finite out");
    }
}

#[test]
fn saturation_adds_harmonics() {
    fn harmonic_mag(samples: &[f32], freq: f32) -> f32 {
        let mut re = 0.0f32;
        let mut im = 0.0f32;
        for (n, &s) in samples.iter().enumerate() {
            let ph = TAU * freq * n as f32 / SR;
            re += s * ph.cos();
            im += s * ph.sin();
        }
        (re * re + im * im).sqrt() / samples.len() as f32
    }

    let f0 = 200.0;
    let clean: Vec<f32> = sine(f0, 8_000, 0.8).collect();

    let mut d = Drive::new(SR);
    d.set_params(true, DriveKind::Tube, 1.0, 0.5, 16.0, 1.0, 1.0, 1.0);
    let driven: Vec<f32> = sine(f0, 8_000, 0.8).map(|x| d.process(x)).collect();

    let third_clean = harmonic_mag(&clean, 3.0 * f0);
    let third_driven = harmonic_mag(&driven, 3.0 * f0);
    assert!(
        third_driven > third_clean + 1e-3,
        "expected drive to add 3rd-harmonic energy: clean={third_clean}, driven={third_driven}"
    );
}

#[test]
fn tube_is_asymmetric_diode_is_not() {
    let x = 0.7;
    assert!(
        (tube(x) + tube(-x)).abs() > 1e-3,
        "tube curve should be asymmetric (even harmonics)"
    );
    assert!(
        (diode(x) + diode(-x)).abs() < 1e-6,
        "diode curve should be odd-symmetric"
    );
}

#[test]
fn small_signal_is_near_unity_gain() {
    for kind in [DriveKind::Tube, DriveKind::Diode, DriveKind::RatFuzz, DriveKind::Compound] {
        let mut d = Drive::new(SR);
        d.set_params(true, kind, 0.0, 0.5, 16.0, 1.0, 1.0, 1.0);
        let amp = 1e-3;
        let mut peak_in = 0.0f32;
        let mut peak_out = 0.0f32;
        for x in sine(500.0, 4_000, amp) {
            let y = d.process(x);
            peak_in = peak_in.max(x.abs());
            peak_out = peak_out.max(y.abs());
        }
        let ratio = peak_out / peak_in;
        assert!(
            (ratio - 1.0).abs() < 0.1,
            "small-signal gain should be ~unity for {kind:?}, got {ratio}"
        );
    }
}

#[test]
fn bitcrush_quantises_to_a_grid() {
    let mut d = Drive::new(SR);
    d.set_params(true, DriveKind::Clean, 0.0, 0.5, 2.0, 1.0, 1.0, 1.0);
    let q = 2.0f32.powf(2.0 - 1.0);
    for i in 0..1000 {
        let x = (i as f32 / 1000.0) * 2.0 - 1.0;
        let y = d.process(x);
        let steps = y * q;
        assert!(
            (steps - steps.round()).abs() < 1e-4,
            "crushed output {y} is not on the {q}-step grid"
        );
    }
}

#[test]
fn bitcrush_16_bits_is_bypass() {
    let mut d = Drive::new(SR);
    d.set_params(true, DriveKind::Clean, 0.0, 0.5, 16.0, 1.0, 1.0, 1.0);
    for x in sine(300.0, 2_000, 0.9) {
        assert!(
            (d.process(x) - x).abs() < 1e-6,
            "16-bit clean chain should be transparent"
        );
    }
}

#[test]
fn downsample_holds_samples() {
    let mut d = Drive::new(SR);
    d.set_params(true, DriveKind::Clean, 0.0, 0.5, 16.0, 4.0, 1.0, 1.0);
    let mut held_runs = 0;
    let mut prev = f32::NAN;
    let n = 4_000;
    for x in sine(777.0, n, 0.9) {
        let y = d.process(x);
        if y == prev {
            held_runs += 1;
        }
        prev = y;
    }
    assert!(
        held_runs as f32 / n as f32 > 0.6,
        "downsample x4 should repeat held samples a lot, got ratio {}",
        held_runs as f32 / n as f32
    );
}

#[test]
fn downsample_1x_is_bypass() {
    let mut d = Drive::new(SR);
    d.set_params(true, DriveKind::Clean, 0.0, 0.5, 16.0, 1.0, 1.0, 1.0);
    for x in sine(640.0, 2_000, 0.8) {
        assert!(
            (d.process(x) - x).abs() < 1e-6,
            "downsample 1x with clean chain must be transparent"
        );
    }
}

#[test]
fn tone_brighter_has_more_high_frequency_energy() {
    fn high_band_energy(samples: &[f32]) -> f32 {
        let mut e = 0.0f32;
        for w in samples.windows(2) {
            let d = w[1] - w[0];
            e += d * d;
        }
        e
    }

    let render = |tone: f32| -> Vec<f32> {
        let mut d = Drive::new(SR);
        d.set_params(true, DriveKind::Tube, 0.5, tone, 16.0, 1.0, 1.0, 1.0);
        let step1 = 150.0 / SR;
        let step2 = 1_200.0 / SR;
        let mut p1 = 0.0f32;
        let mut p2 = 0.0f32;
        (0..8_000)
            .map(|_| {
                let s = (p1 * TAU).sin() * 0.6 + (p2 * TAU).sin() * 0.4;
                p1 = (p1 + step1).fract();
                p2 = (p2 + step2).fract();
                d.process(s)
            })
            .collect()
    };

    let dark = high_band_energy(&render(0.0));
    let bright = high_band_energy(&render(1.0));
    assert!(
        bright > dark * 1.2,
        "bright tone should have more HF energy than dark: dark={dark}, bright={bright}"
    );
}

#[test]
fn mix_zero_is_dry() {
    let mut d = Drive::new(SR);
    d.set_params(true, DriveKind::RatFuzz, 1.0, 0.0, 1.0, 50.0, 1.0, 0.0);
    for x in sine(440.0, 2_000, 0.9) {
        assert!(
            (d.process(x) - x).abs() < 1e-6,
            "mix=0 must be fully dry"
        );
    }
}

#[test]
fn crush_mix_zero_keeps_saturation_without_grit() {
    let mut d = Drive::new(SR);
    d.set_params(true, DriveKind::Tube, 0.6, 0.5, 1.0, 50.0, 0.0, 1.0);
    let mut ref_d = Drive::new(SR);
    ref_d.set_params(true, DriveKind::Tube, 0.6, 0.5, 16.0, 1.0, 1.0, 1.0);
    let mut max_diff = 0.0f32;
    for x in sine(330.0, 4_000, 0.8) {
        let a = d.process(x);
        let b = ref_d.process(x);
        max_diff = max_diff.max((a - b).abs());
    }
    assert!(
        max_diff < 1e-5,
        "crush_mix=0 should bypass the crush path, max diff {max_diff}"
    );
}

#[test]
fn set_sample_rate_clears_state() {
    let mut d = Drive::new(SR);
    d.set_params(true, DriveKind::Tube, 1.0, 0.5, 4.0, 8.0, 1.0, 1.0);
    for x in sine(440.0, 1_000, 0.9) {
        let _ = d.process(x);
    }
    d.set_sample_rate(96_000.0);
    let y = d.process(0.0);
    assert!(y.abs() < 1e-6, "state not cleared on set_sample_rate: {y}");
}

#[test]
fn drive_recovers_from_injected_nan_and_inf() {
    for bad in [f32::NAN, f32::INFINITY, f32::NEG_INFINITY] {
        let mut d = Drive::new(SR);
        d.set_params(true, DriveKind::Tube, 0.9, 0.7, 4.0, 8.0, 0.8, 1.0);
        for x in sine(220.0, 2_000, 0.6) {
            let _ = d.process(x);
        }
        let _ = d.process(bad);
        let _ = d.process(0.2);
        for i in 0..10_000 {
            let y = d.process(0.2);
            assert!(
                y.is_finite(),
                "drive emitted non-finite after injecting {bad} at i={i}: {y}"
            );
        }
    }
}

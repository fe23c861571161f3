//! Delay: the library's part at work in the sound.

#![allow(dead_code)]

use drumlin::delay::{
    Delay as Memory, DelayMode, DelayParams, MAX_DELAY_SECS, MAX_LEN, MIN_LPF_HZ,
};
use drumlin::ieee::HALF_THOUSANDTH;
use drumlin::ieee::{ieee, Ieee32};
use std::f32::consts::TAU;

/// A float as the library holds it.
fn bits(x: f32) -> Ieee32 {
    ieee(x.to_bits())
}

/// A number of the library as a float.
fn float(x: Ieee32) -> f32 {
    f32::from_bits(x.bits)
}

/// What may be kept in a feedback path: not a NaN, an infinity or a denormal.
fn flush_denormal(x: f32) -> f32 {
    float(drumlin::util::flush_denormal(bits(x)))
}

#[derive(Debug)]
struct Delay {
    sample_rate: f32,
    memory: Memory<f32>,
    params: DelayParams,
    lp_l: f32,
    lp_r: f32,
    hp_lp_l: f32,
    hp_lp_r: f32,
    wow_phase: f32,
    flutter_phase: f32,
}

// Floating-point arithmetic around the library's rings and settings.
impl Delay {
    fn new(sample_rate: f32) -> Self {
        Self {
            sample_rate: sample_rate.max(1.0),
            memory: Memory::new(MAX_LEN, 0.0),
            params: DelayParams::new(),
            lp_l: 0.0,
            lp_r: 0.0,
            hp_lp_l: 0.0,
            hp_lp_r: 0.0,
            wow_phase: 0.0,
            flutter_phase: 0.0,
        }
    }

    fn set_sample_rate(&mut self, sample_rate: f32) {
        self.sample_rate = sample_rate.max(1.0);
        self.clear();
    }

    fn clear(&mut self) {
        self.memory.clear(0.0);
        self.lp_l = 0.0;
        self.lp_r = 0.0;
        self.hp_lp_l = 0.0;
        self.hp_lp_r = 0.0;
        self.wow_phase = 0.0;
        self.flutter_phase = 0.0;
    }

    fn set_tempo(&mut self, bpm: f32) {
        self.params.set_tempo(bits(bpm));
    }

    fn set_params(
        &mut self,
        on: bool,
        mode: DelayMode,
        time_l_secs: f32,
        time_r_secs: f32,
        feedback: f32,
        crossfeed: f32,
        wow: f32,
        age: f32,
        hpf_hz: f32,
        lpf_hz: f32,
        mix: f32,
    ) {
        let longest = self.max_delay_secs();
        let ceiling = self.sample_rate * 0.5 * 0.99;
        assert!(f32::from_bits(HALF_THOUSANDTH) <= longest);
        assert!(f32::from_bits(MIN_LPF_HZ) <= ceiling);
        self.params.set_params(
            on,
            mode,
            bits(time_l_secs),
            bits(time_r_secs),
            bits(feedback),
            bits(crossfeed),
            bits(wow),
            bits(age),
            bits(hpf_hz),
            bits(lpf_hz),
            bits(mix),
            bits(longest),
            bits(ceiling),
        );
    }

    fn set_sync(&mut self, div_secs_l: f32, div_secs_r: f32) {
        let longest = self.max_delay_secs();
        assert!(f32::from_bits(HALF_THOUSANDTH) <= longest);
        self.params.set_sync(bits(div_secs_l), bits(div_secs_r), bits(longest));
    }

    /// The longest delay that the memory holds, two samples short of all of it.
    fn max_delay_secs(&self) -> f32 {
        let usable = self.memory.len().saturating_sub(2) as f32;
        (usable / self.sample_rate).min(f32::from_bits(MAX_DELAY_SECS))
    }

    fn process(&mut self, l: f32, r: f32) -> (f32, f32) {
        if !self.params.on {
            self.memory.feed(0.0, 0.0);
            return (l, r);
        }
        let (wet_l, wet_r) = match self.params.mode {
            DelayMode::Clean => self.process_clean(l, r),
            DelayMode::Tape => self.process_tape(l, r),
        };
        let mix = float(self.params.mix);
        let dry = 1.0 - mix;
        (dry * l + mix * wet_l, dry * r + mix * wet_r)
    }

    fn process_clean(&mut self, l: f32, r: f32) -> (f32, f32) {
        let (wet_l, wet_r) = self.read(
            float(self.params.time_l) * self.sample_rate,
            float(self.params.time_r) * self.sample_rate,
        );
        let lp_coeff = one_pole_lp_coeff(float(self.params.lpf_hz), self.sample_rate);
        let hp_coeff = one_pole_lp_coeff(float(self.params.hpf_hz), self.sample_rate);
        let shaped_l = self.feedback_tone(wet_l, false, lp_coeff, hp_coeff);
        let shaped_r = self.feedback_tone(wet_r, true, lp_coeff, hp_coeff);
        let fb = float(self.params.clean_feedback());
        let xf = float(self.params.crossfeed);
        let norm = 1.0 / (1.0 + xf);
        let into_l = l + fb * (shaped_l + xf * shaped_r) * norm;
        let into_r = r + fb * (shaped_r + xf * shaped_l) * norm;
        self.memory.feed(flush_denormal(into_l), flush_denormal(into_r));
        (wet_l, wet_r)
    }

    fn feedback_tone(&mut self, x: f32, right: bool, lp_coeff: f32, hp_coeff: f32) -> f32 {
        let (lp, hp_lp) = if right {
            (&mut self.lp_r, &mut self.hp_lp_r)
        } else {
            (&mut self.lp_l, &mut self.hp_lp_l)
        };
        *lp += lp_coeff * (x - *lp);
        *hp_lp += hp_coeff * (*lp - *hp_lp);
        *lp - *hp_lp
    }

    fn process_tape(&mut self, l: f32, r: f32) -> (f32, f32) {
        let input = 0.5 * (l + r);
        let wow_lfo = (self.wow_phase * TAU).sin();
        let flutter_lfo = (self.flutter_phase * TAU).sin();
        self.wow_phase = wrap01(self.wow_phase + 0.6 / self.sample_rate);
        self.flutter_phase = wrap01(self.flutter_phase + 6.0 / self.sample_rate);
        let wow = float(self.params.wow);
        let wow_depth = wow * 0.003 * self.sample_rate;
        let flutter_depth = wow * 0.0008 * self.sample_rate;
        let base = float(self.params.time_l) * self.sample_rate;
        let mod_delay = (base + wow_lfo * wow_depth + flutter_lfo * flutter_depth).max(1.0);
        let (wet_l, wet_r) = self.read(mod_delay, mod_delay * 1.0007 + 1.0);
        let looped = 0.5 * (wet_l + wet_r);
        let age = float(self.params.age);
        let lp_coeff = one_pole_lp_coeff(12_000.0 - age * 9_500.0, self.sample_rate);
        self.lp_l += lp_coeff * (looped - self.lp_l);
        let sat_drive = 1.0 + age * 2.5;
        let saturated = (self.lp_l * sat_drive).tanh() / sat_drive;
        let into = flush_denormal(input + float(self.params.feedback) * saturated);
        self.memory.feed(into, into);
        (wet_l, wet_r)
    }

    /// Read each channel so many samples ago, between its two nearest samples.
    fn read(&self, delay_l: f32, delay_r: f32) -> (f32, f32) {
        let (il, fl) = self.read_at(delay_l);
        let (ir, fr) = self.read_at(delay_r);
        let ((a, b), (c, d)) = self.memory.taps(il, ir);
        (a + (b - a) * fl, c + (d - c) * fr)
    }

    fn read_at(&self, delay_samples: f32) -> (usize, f32) {
        let len = self.memory.len() as f32;
        let d = delay_samples.clamp(1.0, len - 2.0);
        let read = (self.memory.head() as f32 - d).rem_euclid(len);
        let base = read.floor();
        (base as usize, read - base)
    }
}

// Floating-point arithmetic.
fn one_pole_lp_coeff(cutoff_hz: f32, sample_rate: f32) -> f32 {
    let fc = cutoff_hz.clamp(1.0, sample_rate * 0.5 - 1.0);
    let c = 1.0 - (-TAU * fc / sample_rate).exp();
    c.clamp(0.0001, 1.0)
}

// Floating-point arithmetic.
fn wrap01(phase: f32) -> f32 {
    let p = phase - phase.floor();
    if p.is_finite() {
        p
    } else {
        0.0
    }
}

fn first_echo_index(delay: &mut Delay, frames: usize) -> Option<usize> {
    let mut first = None;
    for n in 0..frames {
        let x = if n == 0 { 1.0 } else { 0.0 };
        let (l, _r) = delay.process(x, x);
        if n > 0 && l.abs() > 0.05 && first.is_none() {
            first = Some(n);
        }
    }
    first
}

#[test]
fn clean_produces_a_delayed_echo_at_the_tap_time() {
    let sr = 48_000.0;
    let mut d = Delay::new(sr);
    d.set_params(
        true,
        DelayMode::Clean,
        0.100,
        0.100,
        0.4,
        0.0,
        0.0,
        0.0,
        20.0,
        18_000.0,
        1.0,
    );
    let idx = first_echo_index(&mut d, 48_000).expect("expected an echo");
    let expected = (0.100 * sr) as usize;
    let lo = expected.saturating_sub(50);
    let hi = expected + 200;
    assert!((lo..hi).contains(&idx), "echo at {idx}, expected ~{expected}");
}

#[test]
fn clean_independent_lr_taps_differ() {
    let sr = 48_000.0;
    let mut d = Delay::new(sr);
    d.set_params(
        true,
        DelayMode::Clean,
        0.080,
        0.160,
        0.0,
        0.0,
        0.0,
        0.0,
        20.0,
        18_000.0,
        1.0,
    );
    let mut first_l = None;
    let mut first_r = None;
    for n in 0..48_000 {
        let x = if n == 0 { 1.0 } else { 0.0 };
        let (l, r) = d.process(x, x);
        if n > 0 && l.abs() > 0.05 && first_l.is_none() {
            first_l = Some(n);
        }
        if n > 0 && r.abs() > 0.05 && first_r.is_none() {
            first_r = Some(n);
        }
    }
    let fl = first_l.expect("left echo");
    let fr = first_r.expect("right echo");
    assert!(fr > fl, "right tap ({fr}) should be later than left ({fl})");
}

#[test]
fn crossfeed_pingpongs_into_the_opposite_channel() {
    let sr = 48_000.0;
    let mut d = Delay::new(sr);
    d.set_params(
        true,
        DelayMode::Clean,
        0.050,
        0.050,
        0.6,
        1.0,
        0.0,
        0.0,
        20.0,
        18_000.0,
        1.0,
    );
    let mut right_energy = 0.0f32;
    for n in 0..24_000 {
        let xl = if n == 0 { 1.0 } else { 0.0 };
        let (_l, r) = d.process(xl, 0.0);
        right_energy += r.abs();
    }
    assert!(
        right_energy > 0.1,
        "crossfeed should put energy on the right, got {right_energy}"
    );
}

#[test]
fn tape_mode_warbles_the_delay_time() {
    let sr = 48_000.0;
    let mut wobble = Delay::new(sr);
    wobble.set_params(
        true,
        DelayMode::Tape,
        0.200,
        0.200,
        0.5,
        0.0,
        1.0,
        0.4,
        100.0,
        12_000.0,
        1.0,
    );

    let mut still = Delay::new(sr);
    still.set_params(
        true,
        DelayMode::Tape,
        0.200,
        0.200,
        0.5,
        0.0,
        0.0,
        0.4,
        100.0,
        12_000.0,
        1.0,
    );

    let mut max_diff = 0.0f32;
    let mut phase = 0.0f32;
    for _ in 0..48_000 {
        let x = (phase * TAU).sin();
        phase = (phase + 440.0 / sr).fract();
        let (wl, _) = wobble.process(x, x);
        let (sl, _) = still.process(x, x);
        max_diff = max_diff.max((wl - sl).abs());
    }
    assert!(
        max_diff > 0.01,
        "wow should move the tape read vs the un-modulated run, diff {max_diff}"
    );
}

#[test]
fn tape_self_oscillation_stays_bounded() {
    let sr = 48_000.0;
    let mut d = Delay::new(sr);
    d.set_params(
        true,
        DelayMode::Tape,
        0.150,
        0.150,
        1.1,
        0.0,
        0.3,
        0.9,
        100.0,
        12_000.0,
        1.0,
    );
    let mut peak = 0.0f32;
    let mut phase = 0.0f32;
    for n in 0..(5 * sr as usize) {
        let x = if n < sr as usize / 2 {
            (phase * TAU).sin() * 0.8
        } else {
            0.0
        };
        phase = (phase + 110.0 / sr).fract();
        let (l, r) = d.process(x, x);
        assert!(l.is_finite() && r.is_finite(), "NaN/inf at sample {n}");
        peak = peak.max(l.abs()).max(r.abs());
    }
    assert!(peak < 4.0, "self-oscillation should stay bounded, peak {peak}");
}

#[test]
fn finite_and_bounded_across_param_sweeps() {
    let sr = 44_100.0;
    let mut d = Delay::new(sr);
    d.set_tempo(128.0);
    let modes = [DelayMode::Tape, DelayMode::Clean];
    let mut phase = 0.0f32;
    let mut counter = 0usize;
    for &mode in &modes {
        for step in 0..40 {
            let t = step as f32 / 39.0;
            d.set_params(
                true,
                mode,
                0.001 + t * 1.9,
                0.001 + (1.0 - t) * 1.9,
                t * 1.1,
                t,
                t,
                t,
                20.0 + t * 1900.0,
                1000.0 + t * 18000.0,
                t,
            );
            for _ in 0..2_000 {
                let spike = if counter % 997 == 0 { 4.0 } else { 0.0 };
                let x = (phase * TAU).sin() * 0.7 + spike;
                phase = (phase + 330.0 / sr).fract();
                let (l, r) = d.process(x, x);
                assert!(l.is_finite() && r.is_finite(), "NaN/inf in sweep");
                assert!(
                    l.abs() < 50.0 && r.abs() < 50.0,
                    "runaway output {l},{r} (mode {mode:?}, t {t})"
                );
                counter += 1;
            }
        }
    }
}

#[test]
fn bypass_passes_dry_and_does_not_burst_on_reenable() {
    let sr = 48_000.0;
    let mut d = Delay::new(sr);
    d.set_params(
        true,
        DelayMode::Clean,
        0.050,
        0.050,
        0.8,
        0.0,
        0.0,
        0.0,
        20.0,
        18_000.0,
        1.0,
    );
    for n in 0..10_000 {
        let x = if n == 0 { 1.0 } else { 0.0 };
        d.process(x, x);
    }
    d.set_params(
        false,
        DelayMode::Clean,
        0.050,
        0.050,
        0.8,
        0.0,
        0.0,
        0.0,
        20.0,
        18_000.0,
        1.0,
    );
    for _ in 0..10_000 {
        let (l, r) = d.process(0.3, -0.2);
        assert!(
            (l - 0.3).abs() < 1e-6 && (r + 0.2).abs() < 1e-6,
            "bypass not transparent"
        );
    }
    d.set_params(
        true,
        DelayMode::Clean,
        0.050,
        0.050,
        0.8,
        0.0,
        0.0,
        0.0,
        20.0,
        18_000.0,
        1.0,
    );
    for _ in 0..100 {
        let (l, r) = d.process(0.0, 0.0);
        assert!(
            l.abs() < 0.01 && r.abs() < 0.01,
            "stale tail burst on re-enable: {l},{r}"
        );
    }
}

#[test]
fn set_sample_rate_clears_without_panicking() {
    let mut d = Delay::new(48_000.0);
    d.set_params(
        true,
        DelayMode::Tape,
        0.3,
        0.3,
        0.6,
        0.2,
        0.5,
        0.5,
        100.0,
        10_000.0,
        0.5,
    );
    for _ in 0..1000 {
        d.process(0.5, 0.5);
    }
    d.set_sample_rate(96_000.0);
    let (l, r) = d.process(0.0, 0.0);
    assert_eq!((l, r), (0.0, 0.0), "buffer should be silent after clear");
}

#[test]
fn dry_when_mix_is_zero() {
    let mut d = Delay::new(48_000.0);
    d.set_params(
        true,
        DelayMode::Clean,
        0.1,
        0.1,
        0.5,
        0.0,
        0.0,
        0.0,
        20.0,
        18_000.0,
        0.0,
    );
    for _ in 0..5000 {
        let (l, r) = d.process(0.4, -0.3);
        assert!(
            (l - 0.4).abs() < 1e-6 && (r + 0.3).abs() < 1e-6,
            "mix=0 must be dry"
        );
    }
}

#[test]
fn set_sync_resolves_tap_times() {
    let sr = 48_000.0;
    let mut d = Delay::new(sr);
    d.set_params(
        true,
        DelayMode::Clean,
        0.25,
        0.25,
        0.2,
        0.0,
        0.0,
        0.0,
        20.0,
        18_000.0,
        1.0,
    );
    d.set_sync(0.1875, 0.0833);
    let mut first_l = None;
    let mut first_r = None;
    for n in 0..48_000 {
        let x = if n == 0 { 1.0 } else { 0.0 };
        let (l, r) = d.process(x, x);
        if n > 0 && l.abs() > 0.05 && first_l.is_none() {
            first_l = Some(n);
        }
        if n > 0 && r.abs() > 0.05 && first_r.is_none() {
            first_r = Some(n);
        }
    }
    let fl = first_l.expect("left echo");
    let fr = first_r.expect("right echo");
    assert!(fr < fl, "triplet R ({fr}) should precede dotted L ({fl})");
}

#[test]
fn tape_tail_decays_below_unity_feedback() {
    let sr = 48_000.0;
    let mut d = Delay::new(sr);
    d.set_params(
        true,
        DelayMode::Tape,
        0.120,
        0.120,
        0.5,
        0.0,
        0.0,
        0.3,
        100.0,
        12_000.0,
        1.0,
    );
    for n in 0..(4 * sr as usize) {
        let x = if n == 0 { 1.0 } else { 0.0 };
        d.process(x, x);
    }
    let mut tail = 0.0f32;
    for _ in 0..sr as usize {
        let (l, r) = d.process(0.0, 0.0);
        tail = tail.max(l.abs()).max(r.abs());
    }
    assert!(tail < 1e-3, "tape tail should decay to silence, residual {tail}");
}

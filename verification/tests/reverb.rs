//! Reverb: the library's part at work in the sound.

#![allow(dead_code)]

use drumlin::ieee::{ieee, Ieee32};
use drumlin::reverb::{
    clamp_decay, clamp_hicut, clamp_locut, Moves, Network, ReverbAlgo, ReverbParams, ReverbRequest,
    BASE_LENGTHS_44K, MAX_LINE_LEN, MAX_PREDELAY_SECS, MOD_LINES, NUM_LINES,
};
use std::f32::consts::TAU;

/// A float as the library holds it.
fn bits(x: f32) -> Ieee32 {
    ieee(x.to_bits())
}

/// A number of the library as a float.
fn float(x: Ieee32) -> f32 {
    f32::from_bits(x.bits)
}

/// What may be kept in a feedback path: not a NaN, an infinity or a denormal.
fn flush_denormal(x: f32) -> f32 {
    float(drumlin::util::flush_denormal(bits(x)))
}

const MOD_RATES_HZ: [f32; 2] = [0.7, 1.1];
const MAX_FEEDBACK: f32 = 0.9995;

#[derive(Debug)]
struct Reverb {
    sample_rate: f32,
    network: Network<f32>,
    params: ReverbParams,
    line_len: [f32; NUM_LINES],
    damp_state: [f32; NUM_LINES],
    feedback: [f32; NUM_LINES],
    damp_coeff: f32,
    mod_phase: [f32; 2],
    locut_state: [f32; 2],
    hicut_state: [f32; 2],
    locut_coeff: f32,
    hicut_coeff: f32,
}

// Floating-point arithmetic around the library's network and settings.
impl Reverb {
    fn new(sample_rate: f32) -> Self {
        let sr = sample_rate.max(1.0);
        let gap = (f32::from_bits(MAX_PREDELAY_SECS) * sr).ceil() as usize + 2;
        let mut reverb = Self {
            sample_rate: sr,
            network: Network::new(gap.max(3), 0.0),
            params: ReverbParams::new(),
            line_len: [1.0; NUM_LINES],
            damp_state: [0.0; NUM_LINES],
            feedback: [0.0; NUM_LINES],
            damp_coeff: 0.0,
            mod_phase: [0.0; 2],
            locut_state: [0.0; 2],
            hicut_state: [0.0; 2],
            locut_coeff: 0.0,
            hicut_coeff: 0.0,
        };
        reverb.recompute_all();
        reverb
    }

    fn recompute_all(&mut self) {
        self.rebuild_delays();
        self.update_feedback();
        self.update_damping();
        self.update_output_filters();
    }

    fn set_sample_rate(&mut self, sample_rate: f32) {
        self.sample_rate = sample_rate.max(1.0);
        self.clear();
        self.recompute_all();
    }

    fn clear(&mut self) {
        self.network.clear(0.0);
        self.damp_state = [0.0; NUM_LINES];
        self.locut_state = [0.0; 2];
        self.hicut_state = [0.0; 2];
        self.mod_phase = [0.0; 2];
    }

    fn set_params(
        &mut self,
        on: bool,
        algo: ReverbAlgo,
        decay_secs: f32,
        size: f32,
        predelay_secs: f32,
        damping: f32,
        locut_hz: f32,
        hicut_hz: f32,
        modulation: f32,
        width: f32,
        freeze: bool,
    ) {
        let nyquist = bits((self.sample_rate * 0.49).max(100.0));
        let distance = |new: f32, old: f32| bits((new - old).abs());
        let p = &self.params;
        let moves = Moves {
            decay: distance(float(clamp_decay(bits(decay_secs))), float(p.decay_secs)),
            size: distance(float(bits(size).clamp01()), float(p.size)),
            damping: distance(float(bits(damping).clamp01()), float(p.damping)),
            locut: distance(float(clamp_locut(bits(locut_hz), nyquist)), float(p.locut_hz)),
            hicut: distance(float(clamp_hicut(bits(hicut_hz), nyquist)), float(p.hicut_hz)),
        };
        let request = ReverbRequest {
            on,
            algo,
            decay_secs: bits(decay_secs),
            size: bits(size),
            damping: bits(damping),
            locut_hz: bits(locut_hz),
            hicut_hz: bits(hicut_hz),
            modulation: bits(modulation),
            width: bits(width),
            freeze,
        };
        let todo = self.params.set_params(request, moves, nyquist);
        if todo.lengths {
            self.rebuild_delays();
        }
        if todo.feedback {
            self.update_feedback();
        }
        if todo.damping {
            self.update_damping();
        }
        if todo.filters {
            self.update_output_filters();
        }
        let longest = f32::from_bits(MAX_PREDELAY_SECS);
        let pd = if predelay_secs.is_finite() { predelay_secs } else { 0.0 };
        self.network.set_gap((pd.clamp(0.0, longest) * self.sample_rate) as usize);
    }

    fn set_send(&mut self, send: f32, return_gain: f32) {
        self.params.set_send(bits(send), bits(return_gain));
    }

    fn process_send(&mut self, l: f32, r: f32) -> (f32, f32) {
        if !self.params.on {
            return (l, r);
        }
        let (wet_l, wet_r) = self.process_wet(l, r);
        let g = float(self.params.send) * float(self.params.return_gain);
        (l + g * wet_l, r + g * wet_r)
    }

    fn process_wet(&mut self, in_l: f32, in_r: f32) -> (f32, f32) {
        let (pre_l, pre_r) = self.network.enter(in_l, in_r, self.params.is_frozen(), 0.0);
        let input = (pre_l + pre_r) * 0.5;
        let mod_depth = float(self.params.modulation) * 12.0;
        for (phase, &rate) in self.mod_phase.iter_mut().zip(&MOD_RATES_HZ) {
            *phase += rate / self.sample_rate;
            if *phase >= 1.0 {
                *phase -= 1.0;
            }
        }
        let mut node = [0.0f32; NUM_LINES];
        for i in 0..NUM_LINES {
            let mut delay = self.line_len[i];
            if mod_depth > 0.0 {
                if i == MOD_LINES[0] {
                    delay += mod_depth * (self.mod_phase[0] * TAU).sin();
                } else if i == MOD_LINES[1] {
                    delay += mod_depth * (self.mod_phase[1] * TAU).sin();
                }
            }
            let raw = self.read(i, delay);
            // The more damping, the slower the low-pass follows.
            let follow = 1.0 - self.damp_coeff;
            self.damp_state[i] =
                flush_denormal(self.damp_state[i] + follow * (raw - self.damp_state[i]));
            node[i] = if self.damp_coeff > 0.0 { self.damp_state[i] } else { raw };
        }
        let mixed = hadamard8(node);
        let mut fed = [0.0f32; NUM_LINES];
        for i in 0..NUM_LINES {
            let fb = mixed[i] * self.feedback[i] + input;
            fed[i] = flush_denormal(fb.clamp(-32.0, 32.0));
        }
        self.network.feed(&fed);
        let mut sum_l = 0.0f32;
        let mut sum_r = 0.0f32;
        for (i, &n) in node.iter().enumerate() {
            if i % 2 == 0 {
                sum_l += n;
            } else {
                sum_r += n;
            }
        }
        let norm = 1.0 / ((NUM_LINES / 2) as f32).sqrt();
        let wet_l = self.apply_output_filters(sum_l * norm, 0);
        let wet_r = self.apply_output_filters(sum_r * norm, 1);
        let mid = (wet_l + wet_r) * 0.5;
        let side = (wet_l - wet_r) * 0.5 * float(self.params.width);
        (sanitize(mid + side), sanitize(mid - side))
    }

    /// Read line `i` so many samples ago, between its two nearest samples.
    fn read(&self, i: usize, delay: f32) -> f32 {
        let cap = MAX_LINE_LEN as f32;
        let d = delay.max(1.0).min(cap - 2.0);
        let read = (self.network.head(i) as f32 - d).rem_euclid(cap);
        let i0 = read.floor() as usize;
        let frac = read - i0 as f32;
        let (a, b) = self.network.tap(i, i0);
        a + (b - a) * frac
    }

    fn apply_output_filters(&mut self, x: f32, channel: usize) -> f32 {
        let locut = &mut self.locut_state[channel];
        *locut = flush_denormal(*locut + self.locut_coeff * (x - *locut));
        let hp = x - *locut;
        let hicut = &mut self.hicut_state[channel];
        *hicut = flush_denormal(*hicut + self.hicut_coeff * (hp - *hicut));
        *hicut
    }

    fn rebuild_delays(&mut self) {
        let sr_ratio = self.sample_rate / 44_100.0;
        let algo_scale = float(self.params.algo.length_scale());
        let size_scale = 0.5 + float(self.params.size);
        for (len, &base) in self.line_len.iter_mut().zip(&BASE_LENGTHS_44K) {
            let scaled = base as f32 * sr_ratio * algo_scale * size_scale;
            *len = scaled.max(4.0).min(MAX_LINE_LEN as f32 - 32.0);
        }
    }

    fn update_feedback(&mut self) {
        if self.params.is_frozen() {
            self.feedback = [MAX_FEEDBACK; NUM_LINES];
            return;
        }
        let rt60 = float(self.params.decay_secs).max(0.05);
        for (g, &len) in self.feedback.iter_mut().zip(&self.line_len) {
            let exponent = -3.0 * len / (rt60 * self.sample_rate);
            *g = 10.0f32.powf(exponent).clamp(0.0, MAX_FEEDBACK);
        }
    }

    fn update_damping(&mut self) {
        let amount = float(self.params.damping) + float(self.params.algo.damping_bias());
        self.damp_coeff = float(bits(amount).clamp01()) * 0.95;
    }

    fn update_output_filters(&mut self) {
        self.locut_coeff = one_pole_coeff(float(self.params.locut_hz), self.sample_rate);
        self.hicut_coeff = one_pole_coeff(float(self.params.hicut_hz), self.sample_rate);
    }

    fn feedback_gains(&self) -> [f32; NUM_LINES] {
        self.feedback
    }

    fn line_len(&self, i: usize) -> f32 {
        self.line_len[i]
    }

    fn is_frozen(&self) -> bool {
        self.params.is_frozen()
    }
}

/// The orthonormal transform that scatters echoes over the lines.
/// Floating-point arithmetic.
fn hadamard8(mut v: [f32; 8]) -> [f32; 8] {
    let mut step = 1;
    while step < 8 {
        let mut i = 0;
        while i < 8 {
            for j in i..i + step {
                let a = v[j];
                let b = v[j + step];
                v[j] = a + b;
                v[j + step] = a - b;
            }
            i += step * 2;
        }
        step *= 2;
    }
    let norm = 1.0 / (8.0f32).sqrt();
    for x in &mut v {
        *x *= norm;
    }
    v
}

// Floating-point arithmetic.
fn one_pole_coeff(fc: f32, sr: f32) -> f32 {
    let c = 1.0 - (-TAU * fc / sr).exp();
    c.clamp(1.0e-5, 0.9999)
}

// Floating-point arithmetic.
fn sanitize(x: f32) -> f32 {
    if x.is_finite() {
        x
    } else {
        0.0
    }
}

const SR: f32 = 48_000.0;

fn default_reverb() -> Reverb {
    let mut rev = Reverb::new(SR);
    rev.set_params(
        true,
        ReverbAlgo::Plate224,
        2.5,
        0.6,
        0.020,
        0.4,
        80.0,
        9_000.0,
        0.2,
        1.0,
        false,
    );
    rev.set_send(1.0, 1.0);
    rev
}

#[test]
fn hadamard_preserves_energy() {
    let inputs = [
        [1.0, 0.0, 0.0, 0.0, 0.0, 0.0, 0.0, 0.0],
        [1.0, -2.0, 3.0, -4.0, 5.0, -6.0, 7.0, -8.0],
        [0.3, 0.3, 0.3, 0.3, 0.3, 0.3, 0.3, 0.3],
    ];
    for v in inputs {
        let before: f32 = v.iter().map(|x| x * x).sum();
        let out = hadamard8(v);
        let after: f32 = out.iter().map(|x| x * x).sum();
        assert!(
            (before - after).abs() < 1.0e-4,
            "Hadamard must preserve energy: {before} vs {after}"
        );
    }
}

#[test]
fn output_finite_and_bounded_across_param_sweep() {
    let algos = [
        ReverbAlgo::Plate224,
        ReverbAlgo::Hall,
        ReverbAlgo::Spring,
        ReverbAlgo::Room,
    ];
    for algo in algos {
        for &decay in &[0.05f32, 0.5, 2.5, 12.0, 100.0] {
            for &size in &[0.0f32, 0.5, 1.0] {
                for &damping in &[0.0f32, 0.5, 1.0] {
                    let mut rev = Reverb::new(SR);
                    rev.set_params(
                        true, algo, decay, size, 0.02, damping, 80.0, 9_000.0, 0.5, 1.0,
                        false,
                    );
                    rev.set_send(2.0, 2.0);
                    let mut phase = 0.0f32;
                    for i in 0..8_000 {
                        let drive = if i % 1000 == 0 { 1.0e6 } else { (phase * TAU).sin() };
                        phase = (phase + 220.0 / SR).fract();
                        let (l, r) = rev.process_send(drive, -drive);
                        assert!(
                            l.is_finite() && r.is_finite(),
                            "non-finite at algo={algo:?} decay={decay} size={size} damp={damping} i={i}: {l},{r}"
                        );
                        assert!(
                            l.abs() < 1.0e7 && r.abs() < 1.0e7,
                            "unbounded output at algo={algo:?} i={i}: {l},{r}"
                        );
                    }
                }
            }
        }
    }
}

#[test]
fn send_zero_passes_dry_untouched() {
    let mut rev = default_reverb();
    for _ in 0..2_000 {
        rev.process_send(1.0, 1.0);
    }
    rev.set_send(0.0, 1.0);
    for i in 0..1_000 {
        let dry_l = (i as f32 * 0.001).sin();
        let dry_r = (i as f32 * 0.002).cos();
        let (l, r) = rev.process_send(dry_l, dry_r);
        assert_eq!(l, dry_l, "send=0 must pass left dry untouched");
        assert_eq!(r, dry_r, "send=0 must pass right dry untouched");
    }
}

#[test]
fn reverb_disabled_is_true_bypass() {
    let mut rev = default_reverb();
    rev.set_params(
        false,
        ReverbAlgo::Plate224,
        2.5,
        0.6,
        0.02,
        0.4,
        80.0,
        9_000.0,
        0.2,
        1.0,
        false,
    );
    for i in 0..500 {
        let dry = (i as f32 * 0.01).sin();
        let (l, r) = rev.process_send(dry, dry * 0.5);
        assert_eq!(l, dry);
        assert_eq!(r, dry * 0.5);
    }
}

#[test]
fn tail_rings_then_decays() {
    let mut rev = default_reverb();

    let (l0, r0) = rev.process_send(1.0, 1.0);
    let _ = (l0, r0);

    let mut early = 0.0f32;
    let mut late = 0.0f32;
    for i in 0..SR as usize {
        let (l, r) = rev.process_send(0.0, 0.0);
        let e = l * l + r * r;
        if i < 4_000 {
            early += e;
        } else if i >= (SR as usize - 4_000) {
            late += e;
        }
    }
    assert!(early > 1.0e-6, "tail should ring with real energy, got {early}");
    assert!(
        late < early * 0.5,
        "tail must decay: early energy {early}, late energy {late}"
    );
}

#[test]
fn longer_decay_sustains_longer() {
    fn remaining_energy(decay: f32) -> f32 {
        let mut rev = Reverb::new(SR);
        rev.set_params(
            true,
            ReverbAlgo::Plate224,
            decay,
            0.6,
            0.0,
            0.0,
            20.0,
            18_000.0,
            0.0,
            1.0,
            false,
        );
        rev.set_send(1.0, 1.0);
        rev.process_send(1.0, 1.0);
        let mut tail = 0.0f32;
        for i in 0..SR as usize {
            let (l, r) = rev.process_send(0.0, 0.0);
            if i >= SR as usize / 2 {
                tail += l * l + r * r;
            }
        }
        tail
    }
    let short = remaining_energy(0.5);
    let long = remaining_energy(8.0);
    assert!(
        long > short * 4.0,
        "long decay should retain far more late energy: short={short}, long={long}"
    );
}

#[test]
fn freeze_sustains_and_stays_bounded() {
    let mut rev = default_reverb();
    let mut noise = TestNoise { state: 0x1234_5678 };
    for _ in 0..4_000 {
        let l = (noise.next_unit() - 0.5) * 0.5;
        let r = (noise.next_unit() - 0.5) * 0.5;
        rev.process_send(l, r);
    }
    rev.set_params(
        true,
        ReverbAlgo::Plate224,
        2.5,
        0.6,
        0.02,
        0.4,
        80.0,
        9_000.0,
        0.2,
        1.0,
        true,
    );

    let mut first = 0.0f32;
    let mut last = 0.0f32;
    let mut peak = 0.0f32;
    for i in 0..(SR as usize * 4) {
        let (l, r) = rev.process_send(0.0, 0.0);
        let e = l * l + r * r;
        peak = peak.max(l.abs()).max(r.abs());
        if i < 4_000 {
            first += e;
        } else if i >= (SR as usize * 4 - 4_000) {
            last += e;
        }
    }
    assert!(first > 1.0e-6, "frozen tail should have energy, got {first}");
    assert!(
        last > first * 0.1,
        "freeze must sustain (not decay): first={first}, last={last}"
    );
    assert!(peak.is_finite() && peak < 100.0, "frozen tail unbounded: {peak}");
}

#[test]
fn modulation_moves_the_tail() {
    fn tail(modulation: f32) -> Vec<f32> {
        let mut rev = Reverb::new(SR);
        rev.set_params(
            true,
            ReverbAlgo::Plate224,
            3.0,
            0.6,
            0.0,
            0.2,
            80.0,
            9_000.0,
            modulation,
            1.0,
            false,
        );
        rev.set_send(1.0, 1.0);
        rev.process_send(1.0, 1.0);
        let mut out = Vec::with_capacity(8_000);
        for _ in 0..8_000 {
            let (l, _) = rev.process_send(0.0, 0.0);
            out.push(l);
        }
        out
    }
    let dry_tail = tail(0.0);
    let mod_tail = tail(1.0);
    let diff: f32 = dry_tail
        .iter()
        .zip(&mod_tail)
        .map(|(a, b)| (a - b).abs())
        .sum();
    assert!(
        diff > 0.01,
        "modulation should perceptibly alter the tail, total diff {diff}"
    );
}

#[test]
fn width_controls_stereo_spread() {
    fn side_energy(width: f32) -> f32 {
        let mut rev = Reverb::new(SR);
        rev.set_params(
            true,
            ReverbAlgo::Plate224,
            3.0,
            0.6,
            0.0,
            0.2,
            80.0,
            9_000.0,
            0.0,
            width,
            false,
        );
        rev.set_send(1.0, 1.0);
        rev.process_send(1.0, -1.0);
        let mut side = 0.0f32;
        for _ in 0..8_000 {
            let (l, r) = rev.process_send(0.0, 0.0);
            let s = (l - r) * 0.5;
            side += s * s;
        }
        side
    }
    let mono = side_energy(0.0);
    let wide = side_energy(1.0);
    assert!(
        mono < wide * 0.25 + 1.0e-9,
        "width=0 should collapse the side channel: mono={mono}, wide={wide}"
    );
}

#[test]
fn damping_darkens_the_tail() {
    fn hf_energy(damping: f32) -> f32 {
        let mut rev = Reverb::new(SR);
        rev.set_params(
            true,
            ReverbAlgo::Plate224,
            4.0,
            0.6,
            0.0,
            damping,
            20.0,
            18_000.0,
            0.0,
            1.0,
            false,
        );
        rev.set_send(1.0, 1.0);
        let mut noise = TestNoise { state: 0x1234_5678 };
        for _ in 0..2_000 {
            let l = noise.next_unit() - 0.5;
            let r = noise.next_unit() - 0.5;
            rev.process_send(l, r);
        }
        let mut prev = 0.0f32;
        let mut hf = 0.0f32;
        for i in 0..(SR as usize) {
            let (l, _) = rev.process_send(0.0, 0.0);
            if i > SR as usize / 2 {
                let d = l - prev;
                hf += d * d;
            }
            prev = l;
        }
        hf
    }
    let bright = hf_energy(0.0);
    let dark = hf_energy(1.0);
    assert!(
        dark < bright,
        "more damping should reduce late high-frequency energy: bright={bright}, dark={dark}"
    );
}

#[test]
fn reverb_sample_rate_change_is_safe() {
    let mut rev = default_reverb();
    for _ in 0..1_000 {
        rev.process_send(0.3, -0.3);
    }
    for &sr in &[44_100.0, 96_000.0, 192_000.0, 22_050.0] {
        rev.set_sample_rate(sr);
        for _ in 0..1_000 {
            let (l, r) = rev.process_send(0.5, 0.5);
            assert!(l.is_finite() && r.is_finite(), "non-finite after SR change to {sr}");
        }
    }
}

#[test]
fn setters_are_hardened_against_bad_values() {
    let mut rev = Reverb::new(SR);
    rev.set_params(
        true,
        ReverbAlgo::Hall,
        f32::NAN,
        f32::INFINITY,
        -1.0,
        f32::NAN,
        -100.0,
        1.0e12,
        f32::INFINITY,
        -5.0,
        false,
    );
    rev.set_send(f32::NAN, f32::INFINITY);
    for _ in 0..2_000 {
        let (l, r) = rev.process_send(1.0, -1.0);
        assert!(l.is_finite() && r.is_finite(), "bad params produced non-finite output");
    }
}

#[test]
fn feedback_gains_are_stable() {
    let mut rev = Reverb::new(SR);
    for &decay in &[0.1f32, 1.0, 10.0, 60.0] {
        rev.set_params(
            true, ReverbAlgo::Hall, decay, 0.5, 0.02, 0.3, 80.0, 9_000.0, 0.2, 1.0, false,
        );
        for g in rev.feedback_gains() {
            assert!(g >= 0.0 && g < 1.0, "feedback gain out of [0,1): {g}");
        }
    }
    rev.set_params(
        true, ReverbAlgo::Hall, 2.5, 0.5, 0.02, 0.3, 80.0, 9_000.0, 0.2, 1.0, true,
    );
    for g in rev.feedback_gains() {
        assert!(g <= MAX_FEEDBACK && g > 0.99, "frozen gain wrong: {g}");
    }
}

#[test]
fn reverb_recovers_from_injected_nan_and_inf() {
    for bad in [f32::NAN, f32::INFINITY, f32::NEG_INFINITY] {
        let mut rev = default_reverb();
        let mut phase = 0.0f32;
        for _ in 0..2_000 {
            let x = (phase * TAU).sin();
            phase = (phase + 220.0 / SR).fract();
            let _ = rev.process_send(x, x);
        }
        let _ = rev.process_send(bad, bad);

        let mut recovered_at = None;
        for i in 0..20_000 {
            let (l, r) = rev.process_send(0.0, 0.0);
            if l.is_finite() && r.is_finite() {
                if recovered_at.is_none() {
                    recovered_at = Some(i);
                }
            } else {
                recovered_at = None;
            }
        }
        assert!(
            recovered_at.is_some(),
            "reverb never recovered to finite output after injecting {bad}"
        );
        for _ in 0..1_000 {
            let (l, r) = rev.process_send(0.0, 0.0);
            assert!(l.is_finite() && r.is_finite(), "reverb re-poisoned at steady state");
        }
    }
}

#[test]
fn reverb_tail_decays_to_exactly_zero_on_silence() {
    let mut rev = Reverb::new(SR);
    rev.set_params(
        true,
        ReverbAlgo::Room,
        0.25,
        0.3,
        0.0,
        0.8,
        80.0,
        9_000.0,
        0.0,
        1.0,
        false,
    );
    rev.set_send(1.0, 1.0);

    let _ = rev.process_send(1.0, 1.0);
    let mut phase = 0.0f32;
    for _ in 0..500 {
        let x = (phase * TAU).sin();
        phase = (phase + 330.0 / SR).fract();
        let _ = rev.process_send(x, x);
    }
    let mut last = (1.0f32, 1.0f32);
    for _ in 0..(SR as usize * 10) {
        last = rev.process_send(0.0, 0.0);
    }
    assert_eq!(last.0, 0.0, "reverb left tail did not reach exactly 0: {}", last.0);
    assert_eq!(last.1, 0.0, "reverb right tail did not reach exactly 0: {}", last.1);
}

struct TestNoise {
    state: u32,
}

impl TestNoise {
    fn next_unit(&mut self) -> f32 {
        let mut x = self.state;
        x ^= x << 13;
        x ^= x >> 17;
        x ^= x << 5;
        self.state = x;
        (x as f32 / u32::MAX as f32).clamp(0.0, 1.0)
    }
}

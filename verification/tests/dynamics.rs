//! Dynamics: the library's part at work in the sound.

#![allow(dead_code)]

use drumlin::dynamics::{
    knee, limit, limiter_gain, shift_in, usable_tempo, Glue, Knee, Limiter, LimiterStyle,
    LookAhead, Pump, PumpSource, MAX_LOOKAHEAD_SAMPLES, TP_TAPS,
};
use drumlin::ieee::{ieee, Ieee32};
use std::f32::consts::TAU;

/// A float as the library holds it.
fn bits(x: f32) -> Ieee32 {
    ieee(x.to_bits())
}

/// A number of the library as a float.
fn float(x: Ieee32) -> f32 {
    f32::from_bits(x.bits)
}

const LOOKAHEAD_MS: f32 = 1.5;
const OVERSAMPLE: usize = 4;

#[derive(Debug)]
struct Dynamics {
    sample_rate: f32,
    tempo_bpm: f32,
    pump: Pump,
    pump_pos: f32,
    pump_gain: f32,
    glue: Glue,
    glue_threshold: f32,
    glue_makeup: f32,
    glue_env: f32,
    glue_atk_coeff: f32,
    glue_rel_coeff: f32,
    glue_gr_db: f32,
    limiter: Limiter,
    limiter_ceiling: f32,
    look: LookAhead<f32>,
    limiter_gain: f32,
    limiter_rel_coeff: f32,
    tp_hist_l: [f32; TP_TAPS],
    tp_hist_r: [f32; TP_TAPS],
    limiter_gr_db: f32,
}

// Floating-point arithmetic around the library's settings, look-ahead and
// clamps.
impl Dynamics {
    fn db_to_gain(db: f32) -> f32 {
        if db.is_nan() {
            return 1.0;
        }
        10.0f32.powf(db / 20.0)
    }

    fn new(sample_rate: f32) -> Self {
        let glue = Glue::new();
        let limiter = Limiter::new();
        let mut d = Self {
            sample_rate: sample_rate.max(1.0),
            tempo_bpm: 120.0,
            pump: Pump::new(),
            pump_pos: 0.0,
            pump_gain: 1.0,
            glue,
            glue_threshold: Self::db_to_gain(float(glue.threshold_db)),
            glue_makeup: 1.0,
            glue_env: 0.0,
            glue_atk_coeff: 0.0,
            glue_rel_coeff: 0.0,
            glue_gr_db: 0.0,
            limiter,
            limiter_ceiling: Self::db_to_gain(float(limiter.ceiling_db)),
            look: LookAhead::new(0.0),
            limiter_gain: 1.0,
            limiter_rel_coeff: 0.0,
            tp_hist_l: [0.0; TP_TAPS],
            tp_hist_r: [0.0; TP_TAPS],
            limiter_gr_db: 0.0,
        };
        d.recompute_coeffs();
        d
    }

    fn set_sample_rate(&mut self, sample_rate: f32) {
        self.sample_rate = sample_rate.max(1.0);
        self.look.clear(0.0);
        self.glue_env = 0.0;
        self.limiter_gain = 1.0;
        self.pump_pos = 0.0;
        self.pump_gain = 1.0;
        self.glue_gr_db = 0.0;
        self.limiter_gr_db = 0.0;
        self.tp_hist_l = [0.0; TP_TAPS];
        self.tp_hist_r = [0.0; TP_TAPS];
        self.recompute_coeffs();
    }

    fn set_tempo(&mut self, bpm: f32) {
        self.tempo_bpm = float(usable_tempo(bits(bpm)));
    }

    fn set_pump(
        &mut self,
        amount: f32,
        source: PumpSource,
        division_secs: f32,
        curve: f32,
        phase_deg: f32,
    ) {
        let deg = if phase_deg.is_finite() { phase_deg } else { 0.0 };
        self.pump.set(
            bits(amount),
            source,
            bits(division_secs),
            bits(curve),
            bits((deg / 360.0).rem_euclid(1.0)),
            bits(1.0 / self.sample_rate),
        );
    }

    fn set_glue(&mut self, on: bool, threshold_db: f32, ratio: f32, makeup_db: f32, mix: f32) {
        self.glue.set(on, bits(threshold_db), bits(ratio), bits(makeup_db), bits(mix));
        self.glue_threshold = Self::db_to_gain(float(self.glue.threshold_db));
        self.glue_makeup = Self::db_to_gain(float(self.glue.makeup_db));
    }

    fn set_limiter(&mut self, on: bool, ceiling_dbtp: f32, release_secs: f32, style: LimiterStyle) {
        self.limiter.set(on, bits(ceiling_dbtp), bits(release_secs), style);
        self.limiter_ceiling = Self::db_to_gain(float(self.limiter.ceiling_db));
        self.recompute_coeffs();
    }

    fn pump_envelope(&self) -> f32 {
        self.pump_gain
    }

    fn gain_reduction_db(&self) -> f32 {
        self.glue_gr_db
    }

    fn limiter_gr_db(&self) -> f32 {
        self.limiter_gr_db
    }

    fn recompute_coeffs(&mut self) {
        let sr = self.sample_rate.max(1.0);
        self.glue_atk_coeff = one_pole_coeff(0.010, sr);
        self.glue_rel_coeff = one_pole_coeff(0.120, sr);
        let secs = float(self.limiter.release_secs);
        let rel = match self.limiter.style {
            LimiterStyle::Transparent => secs,
            LimiterStyle::Punchy => secs * 0.5,
        };
        self.limiter_rel_coeff = one_pole_coeff(rel.max(0.0005), sr);
        self.look.set_len((LOOKAHEAD_MS * 0.001 * sr).round() as usize);
    }

    fn process(&mut self, l_in: f32, r_in: f32) -> (f32, f32) {
        let l0 = if l_in.is_finite() { l_in } else { 0.0 };
        let r0 = if r_in.is_finite() { r_in } else { 0.0 };
        let (l, r) = self.process_pump(l0, r0);
        let (l, r) = self.process_glue(l, r);
        self.process_limiter(l, r)
    }

    fn process_pump(&mut self, l: f32, r: f32) -> (f32, f32) {
        let cycle_samples = (float(self.pump.division_secs) * self.sample_rate).max(1.0);
        self.pump_pos += 1.0 / cycle_samples;
        if self.pump_pos >= 1.0 {
            self.pump_pos -= 1.0;
        }
        let amount = float(self.pump.amount);
        let curve = float(self.pump.curve);
        let t = (self.pump_pos - float(self.pump.phase)).rem_euclid(1.0);
        let k = 1.0 + 8.0 * curve;
        let expo = 1.0 - (-k * t).exp();
        let expo_norm = expo / (1.0 - (-k).exp()).max(1.0e-6);
        let shape = t * (1.0 - curve) + expo_norm * curve;
        let onset = if self.pump.source == PumpSource::IntKick {
            (-t * 40.0).exp()
        } else {
            0.0
        };
        let duck = (1.0 - amount) + amount * shape;
        let gain = (duck - onset * amount * 0.5).clamp(0.0, 1.0);
        self.pump_gain = gain;
        (l * gain, r * gain)
    }

    fn process_glue(&mut self, l: f32, r: f32) -> (f32, f32) {
        if !self.glue.on {
            self.glue_gr_db = 0.0;
            return (l, r);
        }
        let peak = l.abs().max(r.abs());
        let mean = 0.5 * (l.abs() + r.abs());
        let detector = 0.7 * peak + 0.3 * mean;
        let coeff = if detector > self.glue_env {
            self.glue_atk_coeff
        } else {
            self.glue_rel_coeff
        };
        self.glue_env += (detector - self.glue_env) * (1.0 - coeff);
        let env_db = 20.0 * self.glue_env.max(1.0e-9).log10();
        let thresh_db = 20.0 * self.glue_threshold.max(1.0e-9).log10();
        let over = env_db - thresh_db;
        const KNEE_DB: f32 = 6.0;
        let slope = 1.0 - 1.0 / float(self.glue.ratio);
        let gr_db = match knee(bits(over)) {
            Knee::Below => 0.0,
            Knee::Above => -over * slope,
            Knee::Inside => {
                let x = over + KNEE_DB * 0.5;
                -(slope * x * x) / (2.0 * KNEE_DB)
            }
        };
        self.glue_gr_db = gr_db;
        let comp_gain = Self::db_to_gain(gr_db) * self.glue_makeup;
        let mix = float(self.glue.mix);
        let dry = 1.0 - mix;
        (dry * l + mix * (l * comp_gain), dry * r + mix * (r * comp_gain))
    }

    fn process_limiter(&mut self, l: f32, r: f32) -> (f32, f32) {
        let ceiling = bits(self.limiter_ceiling);
        assert!(self.limiter_ceiling >= 0.0);
        if !self.limiter.on {
            self.limiter_gr_db = 0.0;
            return (float(limit(bits(l), ceiling)), float(limit(bits(r), ceiling)));
        }
        shift_in(&mut self.tp_hist_l, l);
        shift_in(&mut self.tp_hist_r, r);
        let tp = true_peak(&self.tp_hist_l).max(true_peak(&self.tp_hist_r));
        let target_gain = if tp > self.limiter_ceiling {
            (self.limiter_ceiling / tp).clamp(0.0, 1.0)
        } else {
            1.0
        };
        let released =
            self.limiter_gain + (target_gain - self.limiter_gain) * (1.0 - self.limiter_rel_coeff);
        self.limiter_gain =
            float(limiter_gain(bits(self.limiter_gain), bits(target_gain), bits(released)));
        let (delayed_l, delayed_r) = self.look.step(l, r);
        let g = self.limiter_gain;
        self.limiter_gr_db = 20.0 * g.max(1.0e-9).log10();
        (
            float(limit(bits(delayed_l * g), ceiling)),
            float(limit(bits(delayed_r * g), ceiling)),
        )
    }
}

// Floating-point arithmetic.
fn one_pole_coeff(tau: f32, sr: f32) -> f32 {
    let t = tau.max(1.0e-6);
    (-1.0 / (t * sr)).exp()
}

/// The peak between and at the latest samples. Floating-point arithmetic.
fn true_peak(hist: &[f32; TP_TAPS]) -> f32 {
    let mut peak = 0.0f32;
    for &h in hist.iter() {
        peak = peak.max(h.abs());
    }
    for k in 1..OVERSAMPLE {
        let frac = k as f32 / OVERSAMPLE as f32;
        peak = peak.max(catmull_rom(hist[0], hist[1], hist[2], hist[3], frac).abs());
    }
    peak
}

// Floating-point arithmetic.
fn catmull_rom(p0: f32, p1: f32, p2: f32, p3: f32, t: f32) -> f32 {
    let t2 = t * t;
    let t3 = t2 * t;
    0.5 * ((2.0 * p1)
        + (-p0 + p2) * t
        + (2.0 * p0 - 5.0 * p1 + 4.0 * p2 - p3) * t2
        + (-p0 + 3.0 * p1 - 3.0 * p2 + p3) * t3)
}

const SR: f32 = 48_000.0;

fn dyn_default() -> Dynamics {
    let mut d = Dynamics::new(SR);
    d.set_tempo(120.0);
    d
}

#[test]
fn output_is_finite_and_under_ceiling() {
    let mut d = dyn_default();
    let ceiling = Dynamics::db_to_gain(-0.3);
    let mut phase = 0.0f32;
    for i in 0..(SR as usize) {
        let mut x = 0.9 * (phase * TAU).sin();
        phase = (phase + 220.0 / SR).fract();
        if i % 1000 == 0 {
            x = 50.0;
        }
        let (l, r) = d.process(x, -x);
        assert!(l.is_finite() && r.is_finite(), "non-finite at i={i}: {l},{r}");
        assert!(
            l.abs() <= ceiling + 1.0e-4 && r.abs() <= ceiling + 1.0e-4,
            "exceeded ceiling at i={i}: {l},{r} > {ceiling}"
        );
    }
}

#[test]
fn limiter_never_exceeds_ceiling() {
    for &ceil_db in &[-12.0f32, -6.0, -3.0, -0.3, 0.0] {
        for style in [LimiterStyle::Transparent, LimiterStyle::Punchy] {
            let mut d = dyn_default();
            d.set_glue(false, -18.0, 2.0, 0.0, 1.0);
            d.set_limiter(true, ceil_db, 0.05, style);
            let ceiling = Dynamics::db_to_gain(ceil_db);

            let mut phase = 0.0f32;
            let mut max_out = 0.0f32;
            for i in 0..20_000 {
                let amp = 10.0 + (i as f32 / 20_000.0) * 200.0;
                let x = amp * (phase * TAU).sin();
                phase = (phase + 1000.0 / SR).fract();
                let (l, r) = d.process(x, x);
                assert!(l.is_finite() && r.is_finite());
                max_out = max_out.max(l.abs()).max(r.abs());
            }
            assert!(
                max_out <= ceiling + 1.0e-4,
                "limiter exceeded ceiling: out={max_out} ceiling={ceiling} ({ceil_db} dB, {style:?})"
            );
        }
    }
}

#[test]
fn quiet_signal_passes_through_limiter() {
    let mut d = dyn_default();
    d.set_glue(false, -18.0, 2.0, 0.0, 1.0);
    d.set_limiter(true, -0.3, 0.05, LimiterStyle::Transparent);

    let mut phase = 0.0f32;
    let mut max_err = 0.0f32;
    let mut history = Vec::new();
    for _ in 0..2000 {
        let x = 0.2 * (phase * TAU).sin();
        phase = (phase + 440.0 / SR).fract();
        history.push(x);
        let (l, _r) = d.process(x, x);
        if history.len() > d.look.len {
            let delayed = history[history.len() - 1 - d.look.len];
            max_err = max_err.max((l - delayed).abs());
        }
    }
    assert!(
        max_err < 1.0e-3,
        "quiet signal should pass the limiter cleanly, max err {max_err}"
    );
}

#[test]
fn glue_compresses_loud_passes_quiet() {
    let mut d = dyn_default();
    d.set_glue(true, -18.0, 4.0, 0.0, 1.0);
    d.set_limiter(false, 0.0, 0.05, LimiterStyle::Transparent);

    let mut phase = 0.0f32;
    for _ in 0..5000 {
        let x = 0.05 * (phase * TAU).sin();
        phase = (phase + 200.0 / SR).fract();
        d.process(x, x);
    }
    let quiet_gr = d.gain_reduction_db();
    assert!(quiet_gr > -1.0, "quiet material should barely compress: {quiet_gr} dB");

    let mut d2 = dyn_default();
    d2.set_glue(true, -18.0, 4.0, 0.0, 1.0);
    d2.set_limiter(false, 0.0, 0.05, LimiterStyle::Transparent);
    let mut phase = 0.0f32;
    for _ in 0..5000 {
        let x = 0.9 * (phase * TAU).sin();
        phase = (phase + 200.0 / SR).fract();
        d2.process(x, x);
    }
    let loud_gr = d2.gain_reduction_db();
    assert!(
        loud_gr < -2.0,
        "loud material should compress noticeably: {loud_gr} dB"
    );
}

#[test]
fn glue_preserves_stereo_image() {
    let mut d = dyn_default();
    d.set_glue(true, -24.0, 4.0, 0.0, 1.0);
    d.set_limiter(false, 0.0, 0.05, LimiterStyle::Transparent);

    let mut phase = 0.0f32;
    let mut max_ratio_err = 0.0f32;
    for _ in 0..5000 {
        let s = (phase * TAU).sin();
        phase = (phase + 300.0 / SR).fract();
        let (l, r) = d.process(0.8 * s, 0.4 * s);
        if r.abs() > 1.0e-4 {
            max_ratio_err = max_ratio_err.max(((l / r) - 2.0).abs());
        }
    }
    assert!(
        max_ratio_err < 1.0e-3,
        "comp must apply equal gain to both channels, ratio err {max_ratio_err}"
    );
}

#[test]
fn pump_ducks_and_exposes_moving_envelope() {
    let mut d = dyn_default();
    d.set_glue(false, -18.0, 2.0, 0.0, 1.0);
    d.set_limiter(false, 0.0, 0.05, LimiterStyle::Transparent);
    d.set_pump(1.0, PumpSource::Tempo, 0.5, 0.5, 0.0);

    let mut min_env = f32::MAX;
    let mut max_env = f32::MIN;
    for _ in 0..(SR as usize) {
        d.process(1.0, 1.0);
        let e = d.pump_envelope();
        assert!(e.is_finite() && (0.0..=1.0).contains(&e), "pump env out of range: {e}");
        min_env = min_env.min(e);
        max_env = max_env.max(e);
    }
    assert!(min_env < 0.1, "pump should duck deeply, min env {min_env}");
    assert!(max_env > 0.9, "pump should recover to unity, max env {max_env}");
}

#[test]
fn pump_off_is_unity() {
    let mut d = dyn_default();
    d.set_glue(false, -18.0, 2.0, 0.0, 1.0);
    d.set_limiter(false, 0.0, 0.05, LimiterStyle::Transparent);
    d.set_pump(0.0, PumpSource::Tempo, 0.5, 0.5, 0.0);

    for _ in 0..5000 {
        let (l, r) = d.process(0.5, -0.3);
        assert_eq!(d.pump_envelope(), 1.0, "pump off must hold unity");
        assert!((l - 0.5).abs() < 1.0e-6 && (r + 0.3).abs() < 1.0e-6);
    }
}

#[test]
fn pump_intkick_is_bounded() {
    let mut d = dyn_default();
    d.set_pump(0.8, PumpSource::IntKick, 0.5, 0.7, 45.0);
    let mut min_env = f32::MAX;
    for _ in 0..(SR as usize / 2) {
        d.process(1.0, 1.0);
        let e = d.pump_envelope();
        assert!(e.is_finite() && (0.0..=1.0).contains(&e));
        min_env = min_env.min(e);
    }
    assert!(min_env < 0.3, "intkick should duck, min env {min_env}");
}

#[test]
fn survives_pathological_params() {
    let mut d = dyn_default();
    let bad = [f32::NAN, f32::INFINITY, -f32::INFINITY, 1.0e9, -1.0e9, 0.0];
    for &a in &bad {
        for &b in &bad {
            d.set_tempo(a);
            d.set_pump(a, PumpSource::IntKick, b, a, b);
            d.set_glue(true, a, b, a, b);
            d.set_limiter(true, a, b, LimiterStyle::Punchy);
            let ceiling = d.limiter_ceiling;
            for _ in 0..256 {
                let (l, r) = d.process(a, b);
                assert!(l.is_finite() && r.is_finite(), "non-finite from bad params a={a} b={b}");
                assert!(
                    l.abs() <= ceiling + 1.0e-3 && r.abs() <= ceiling + 1.0e-3,
                    "ceiling breached with bad params"
                );
            }
        }
    }
}

#[test]
fn dynamics_sample_rate_change_is_safe() {
    let mut d = dyn_default();
    d.set_limiter(true, -1.0, 0.05, LimiterStyle::Transparent);
    for &sr in &[44_100.0f32, 48_000.0, 96_000.0, 192_000.0] {
        d.set_sample_rate(sr);
        assert!(d.look.len < MAX_LOOKAHEAD_SAMPLES);
        let ceiling = d.limiter_ceiling;
        for _ in 0..1000 {
            let (l, r) = d.process(20.0, -20.0);
            assert!(l.is_finite() && r.is_finite());
            assert!(l.abs() <= ceiling + 1.0e-4 && r.abs() <= ceiling + 1.0e-4);
        }
    }
}

#[test]
fn true_peak_intersample_is_caught() {
    let mut d = dyn_default();
    d.set_glue(false, -18.0, 2.0, 0.0, 1.0);
    d.set_limiter(true, -1.0, 0.02, LimiterStyle::Transparent);
    let ceiling = Dynamics::db_to_gain(-1.0);

    let mut sign = 1.0f32;
    let mut hist_l = [0.0f32; TP_TAPS];
    let mut max_tp = 0.0f32;
    for _ in 0..20_000 {
        let x = sign * 1.5;
        sign = -sign;
        let (l, _r) = d.process(x, x);
        for i in 0..TP_TAPS - 1 {
            hist_l[i] = hist_l[i + 1];
        }
        hist_l[TP_TAPS - 1] = l;
        max_tp = max_tp.max(true_peak(&hist_l));
    }
    assert!(
        max_tp <= ceiling * 1.05,
        "inter-sample true peak leaked past ceiling: {max_tp} > {ceiling}"
    );
}

#[test]
fn full_chain_finite_and_bounded() {
    let mut d = dyn_default();
    d.set_pump(0.6, PumpSource::Tempo, 0.25, 0.7, 90.0);
    d.set_glue(true, -20.0, 4.0, 6.0, 0.8);
    d.set_limiter(true, -0.5, 0.03, LimiterStyle::Punchy);
    let ceiling = Dynamics::db_to_gain(-0.5);

    let mut phase = 0.0f32;
    for i in 0..(SR as usize) {
        let mut x = 1.2 * (phase * TAU).sin();
        phase = (phase + 110.0 / SR).fract();
        if i % 777 == 0 {
            x = 30.0;
        }
        let (l, r) = d.process(x, 0.5 * x);
        assert!(l.is_finite() && r.is_finite());
        assert!(l.abs() <= ceiling + 1.0e-4 && r.abs() <= ceiling + 1.0e-4);
    }
    assert!(d.gain_reduction_db() <= 0.0 && d.gain_reduction_db().is_finite());
    assert!(d.limiter_gr_db() <= 0.0 && d.limiter_gr_db().is_finite());
}

#[test]
fn the_duck_fires_where_the_phase_says() {
    for (degrees, at) in [(0.0f32, 0.0f32), (90.0, 0.25), (180.0, 0.5)] {
        let mut d = dyn_default();
        d.set_pump(1.0, PumpSource::Tempo, 1.0, 0.0, degrees);
        let mut deepest = (f32::MAX, 0usize);
        for i in 0..48_000 {
            d.process(0.1, 0.1);
            if d.pump_envelope() < deepest.0 {
                deepest = (d.pump_envelope(), i);
            }
        }
        let place = deepest.1 as f32 / 48_000.0;
        let off = (place - at).abs().min((place - at - 1.0).abs());
        assert!(off < 0.01, "{degrees} degrees fired at {place}");
    }
}

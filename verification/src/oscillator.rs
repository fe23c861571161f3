//! Oscillators, drift and noise: what they are set to and what they draw.

use crate::ieee::{ieee, settles, settles_in_unit, Ieee32, HALF, NINETEEN_TWENTIETHS, ONE, QUARTER, TWENTIETH, ZERO};
use crate::rng::{a_live_state_stays_live, seed_state, seeded, step, stepped};
use crate::wavetable::{base_table, N_TABLES};
use vstd::prelude::*;

verus! {

/// The wave of an oscillator.
#[derive(Clone, Copy, Debug, PartialEq, Eq, Structural)]
pub enum Waveform {
    Sine,
    Saw,
    Pulse,
    Triangle,
    /// A sine whose phase another sine moves.
    Fm,
    /// A cycle read from the wavetable bank.
    Wavetable,
}

/// The color of noise.
#[derive(Clone, Copy, Debug, PartialEq, Eq, Structural)]
pub enum NoiseType {
    White,
    Pink,
}

/// `16.0`
pub const SIXTEEN: u32 = 0x4180_0000;

/// `440.0`
pub const CONCERT_PITCH: u32 = 0x43dc_0000;

/// What an oscillator is set to, and where in its cycle it is.
#[derive(Clone, Copy, Debug, PartialEq, Eq, Structural)]
pub struct Oscillator {
    pub waveform: Waveform,
    pub phase: Ieee32,
    pub frequency: Ieee32,
    /// In `0.05 ..= 0.95`.
    pub pulse_width: Ieee32,
    pub drift_depth_cents: Ieee32,
    /// In `0.0 ..= 1.0`; zero is a plain saw.
    pub supersaw_amount: Ieee32,
    /// In `0.25 ..= 16.0`.
    pub fm_ratio: Ieee32,
    /// At least zero.
    pub fm_index: Ieee32,
    pub wt_table: usize,
    /// In `0.0 ..= 1.0`.
    pub wt_position: Ieee32,
    pub drift: Drift,
}

/// A pulse width that an oscillator can have.
pub open spec fn usable_width(pw: Ieee32) -> Ieee32 {
    pw.clamped(ieee(TWENTIETH), ieee(NINETEEN_TWENTIETHS))
}

/// A frequency ratio that an oscillator can have.
pub open spec fn usable_ratio(ratio: Ieee32) -> Ieee32 {
    ratio.clamped(ieee(QUARTER), ieee(SIXTEEN))
}

/// A modulation index that an oscillator can have.
pub open spec fn usable_index(index: Ieee32) -> Ieee32 {
    index.larger(ieee(ZERO))
}

/// An amount or a position from 0.0 to 1.0.
pub open spec fn usable_amount(amount: Ieee32) -> Ieee32 {
    amount.clamped(ieee(ZERO), ieee(ONE))
}

/// A phase after a sample: what is left of it once a cycle is over.
pub open spec fn phase_after(ahead: Ieee32, wrapped: Ieee32) -> Ieee32 {
    if ieee(ONE).at_most(ahead) {
        wrapped
    } else {
        ahead
    }
}

/// Whether a wave is fattened at this amount.
pub open spec fn fattens(waveform: Waveform, amount: Ieee32) -> bool {
    waveform == Waveform::Saw && ieee(ZERO).below(amount)
}

impl Oscillator {
    /// Where the setters keep every value. A NaN that was set stays one.
    pub open spec fn well_formed(self) -> bool {
        self.wt_table < N_TABLES && self.drift.well_formed()
    }

    /// A sine at concert pitch; `interval` is how many samples drift holds a
    /// target.
    pub fn new(interval: u32) -> (r: Self)
        requires
            interval >= 1,
        ensures
            r.well_formed(),
            r.waveform == Waveform::Sine,
            r.phase == ieee(ZERO),
            r.frequency == ieee(0x43dc_0000),
            r.pulse_width == ieee(HALF),
            r.drift_depth_cents == ieee(ZERO),
            r.supersaw_amount == ieee(ZERO),
            r.fm_ratio == ieee(ONE),
            r.fm_index == ieee(ZERO),
            r.wt_table == 0,
            r.wt_position == ieee(ZERO),
            r.drift == (Drift {
                rng: seeded(0x2545_F491),
                target: None,
                counter: 0,
                interval,
            }),
    {
        Oscillator {
            waveform: Waveform::Sine,
            phase: ieee(ZERO),
            frequency: ieee(CONCERT_PITCH),
            pulse_width: ieee(HALF),
            drift_depth_cents: ieee(ZERO),
            supersaw_amount: ieee(ZERO),
            fm_ratio: ieee(ONE),
            fm_index: ieee(ZERO),
            wt_table: 0,
            wt_position: ieee(ZERO),
            drift: Drift::new(0x2545_F491, interval),
        }
    }

    pub fn set_frequency(&mut self, hz: Ieee32)
        ensures
            *final(self) == (Oscillator { frequency: hz, ..*old(self) }),
    {
        self.frequency = hz;
    }

    pub fn set_pulse_width(&mut self, pw: Ieee32)
        ensures
            *final(self) == (Oscillator {
                pulse_width: usable_width(pw),
                ..*old(self)
            }),
    {
        self.pulse_width = pw.clamp(ieee(TWENTIETH), ieee(NINETEEN_TWENTIETHS));
    }

    pub fn set_supersaw_amount(&mut self, amount: Ieee32)
        ensures
            *final(self) == (Oscillator {
                supersaw_amount: usable_amount(amount),
                ..*old(self)
            }),
    {
        self.supersaw_amount = amount.clamp(ieee(ZERO), ieee(ONE));
    }

    pub fn set_fm_ratio(&mut self, ratio: Ieee32)
        ensures
            *final(self) == (Oscillator {
                fm_ratio: usable_ratio(ratio),
                ..*old(self)
            }),
    {
        self.fm_ratio = ratio.clamp(ieee(QUARTER), ieee(SIXTEEN));
    }

    pub fn set_fm_index(&mut self, index: Ieee32)
        ensures
            *final(self) == (Oscillator { fm_index: usable_index(index), ..*old(self) }),
    {
        self.fm_index = index.max(ieee(ZERO));
    }

    pub fn set_wt_table(&mut self, table: usize)
        ensures
            *final(self) == (Oscillator {
                wt_table: if table < N_TABLES {
                    table
                } else {
                    (N_TABLES - 1) as usize
                },
                ..*old(self)
            }),
            final(self).wt_table < N_TABLES,
    {
        self.wt_table = base_table(table);
    }

    pub fn set_wt_position(&mut self, position: Ieee32)
        ensures
            *final(self) == (Oscillator {
                wt_position: usable_amount(position),
                ..*old(self)
            }),
    {
        self.wt_position = position.clamp(ieee(ZERO), ieee(ONE));
    }

    pub fn set_drift_depth_cents(&mut self, cents: Ieee32)
        ensures
            *final(self) == (Oscillator { drift_depth_cents: cents, ..*old(self) }),
    {
        self.drift_depth_cents = cents;
    }

    pub fn reseed_drift(&mut self, seed: u32)
        ensures
            *final(self) == (Oscillator {
                drift: Drift { rng: seeded(seed), ..old(self).drift },
                ..*old(self)
            }),
    {
        self.drift.reseed(seed);
    }

    /// Start the cycle over.
    pub fn reset(&mut self)
        ensures
            *final(self) == (Oscillator { phase: ieee(ZERO), ..*old(self) }),
    {
        self.phase = ieee(ZERO);
    }

    /// Whether a saw is fattened: only a saw is, and only above zero.
    pub fn is_supersaw(&self) -> (r: bool)
        ensures
            r == fattens(self.waveform, self.supersaw_amount),
    {
        self.waveform == Waveform::Saw && ieee(ZERO).lt(self.supersaw_amount)
    }

    /// Move on: `ahead` is the phase moved on, `wrapped` the same less one
    /// cycle.
    pub fn advance(&mut self, ahead: Ieee32, wrapped: Ieee32)
        ensures
            *final(self) == (Oscillator {
                phase: phase_after(ahead, wrapped),
                ..*old(self)
            }),
    {
        self.phase = if ieee(ONE).le(ahead) {
            wrapped
        } else {
            ahead
        };
    }
}

/// The slow wander of an oscillator's pitch: every `interval` samples it draws a
/// new target.
#[derive(Clone, Copy, Debug, PartialEq, Eq, Structural)]
pub struct Drift {
    pub rng: u32,
    /// The draw behind the target; before the first there is none.
    pub target: Option<u32>,
    pub counter: u32,
    pub interval: u32,
}

/// The wander after a sample.
pub open spec fn drifted(d: Drift) -> Drift {
    if d.counter + 1 >= d.interval {
        Drift { rng: stepped(d.rng), target: Some(stepped(d.rng)), counter: 0, ..d }
    } else {
        Drift { counter: (d.counter + 1) as u32, ..d }
    }
}

/// The wander after `n` samples.
pub open spec fn drifted_by(d: Drift, n: nat) -> Drift
    decreases n,
{
    if n == 0 {
        d
    } else {
        drifted(drifted_by(d, (n - 1) as nat))
    }
}

impl Drift {
    pub open spec fn well_formed(self) -> bool {
        self.interval >= 1 && self.counter < u32::MAX && self.rng != 0
    }

    pub fn new(seed: u32, interval: u32) -> (r: Self)
        requires
            interval >= 1,
        ensures
            r == (Drift { rng: seeded(seed), target: None, counter: 0, interval }),
            r.well_formed(),
    {
        Drift { rng: seed_state(seed), target: None, counter: 0, interval }
    }

    /// Hold a target for another number of samples, at least one.
    pub fn set_interval(&mut self, interval: u32)
        requires
            interval >= 1,
        ensures
            *final(self) == (Drift { interval, ..*old(self) }),
    {
        self.interval = interval;
    }

    pub fn reseed(&mut self, seed: u32)
        ensures
            *final(self) == (Drift { rng: seeded(seed), ..*old(self) }),
    {
        self.rng = seed_state(seed);
    }

    /// Advance a sample; whether a new target was drawn is handed back.
    pub fn next(&mut self) -> (drawn: bool)
        requires
            old(self).well_formed(),
        ensures
            *final(self) == drifted(*old(self)),
            final(self).well_formed(),
            drawn == (old(self).counter + 1 >= old(self).interval),
    {
        proof {
            a_live_state_stays_live(self.rng);
        }
        self.counter = self.counter + 1;
        if self.counter >= self.interval {
            self.counter = 0;
            self.rng = step(self.rng);
            self.target = Some(self.rng);
            true
        } else {
            false
        }
    }
}

proof fn lemma_counting(d: Drift, n: nat)
    requires
        d.counter == 0,
        d.interval < u32::MAX,
        n < d.interval,
    ensures
        drifted_by(d, n) == (Drift { counter: n as u32, ..d }),
    decreases n,
{
    if n > 0 {
        lemma_counting(d, (n - 1) as nat);
    }
}

/// A target is held for exactly one interval: from a fresh one nothing changes
/// but the count until the interval is over, and then one draw is made.
pub proof fn a_target_is_held_for_an_interval(d: Drift, n: nat)
    requires
        d.counter == 0,
        1 <= d.interval < u32::MAX,
        1 <= n <= d.interval,
    ensures
        n < d.interval ==> drifted_by(d, n).target == d.target && drifted_by(d, n).rng == d.rng,
        n == d.interval ==> drifted_by(d, n) == (Drift {
            rng: stepped(d.rng),
            target: Some(stepped(d.rng)),
            ..d
        }),
{
    lemma_counting(d, (n - 1) as nat);
    if n < d.interval {
        lemma_counting(d, n);
    }
}

/// A noise source: a stream of draws.
#[derive(Clone, Copy, Debug, PartialEq, Eq, Structural)]
pub struct Noise {
    pub rng: u32,
}

impl Noise {
    pub fn new(seed: u32) -> (r: Self)
        ensures
            r.rng == seeded(seed),
            r.rng != 0,
    {
        Noise { rng: seed_state(seed) }
    }

    pub fn reseed(&mut self, seed: u32)
        ensures
            final(self).rng == seeded(seed),
            final(self).rng != 0,
    {
        self.rng = seed_state(seed);
    }

    /// The next draw.
    pub fn draw(&mut self) -> (r: u32)
        ensures
            r == stepped(old(self).rng),
            final(self).rng == r,
            old(self).rng != 0 ==> r != 0,
    {
        proof {
            if self.rng != 0 {
                a_live_state_stays_live(self.rng);
            }
        }
        self.rng = step(self.rng);
        self.rng
    }
}

/// Two streams that agree in one draw agree from then on, and agreed before: a
/// stream is told by any of its draws.
pub proof fn a_draw_tells_the_stream(a: Noise, b: Noise)
    requires
        stepped(a.rng) == stepped(b.rng),
    ensures
        a == b,
{
    crate::rng::states_never_merge(a.rng, b.rng);
}

/// An oscillator takes every setting it can use as it is, and the nearest it can use for
/// any other: a width from 0.05 to 0.95, a ratio from 0.25 to 16.0, an index from zero up,
/// amounts from 0.0 to 1.0.
pub proof fn an_oscillator_takes_usable_settings(x: Ieee32)
    requires
        x.finite(),
    ensures
        settles(usable_width(x), x, 0x3d4c_cccd, 0x3f73_3333, 0),
        settles(usable_ratio(x), x, 0x3e80_0000, 0x4180_0000, 0),
        x.rank() >= 0 ==> usable_index(x) == x,
        x.rank() < 0 ==> usable_index(x).bits == 0,
        settles_in_unit(usable_amount(x), x),
{
}

/// A phase below one goes on, and one that has reached it starts over with what is left.
pub proof fn a_phase_starts_over_at_one(ahead: Ieee32, wrapped: Ieee32)
    requires
        !ahead.nan(),
    ensures
        ahead.rank() < 0x3f80_0000 ==> phase_after(ahead, wrapped) == ahead,
        ahead.rank() >= 0x3f80_0000 ==> phase_after(ahead, wrapped) == wrapped,
{
}

/// Only a saw is fattened, and only by more than nothing.
pub proof fn only_a_saw_is_fattened(waveform: Waveform, amount: Ieee32)
    requires
        !amount.nan(),
    ensures
        waveform == Waveform::Saw && amount.rank() > 0 ==> fattens(waveform, amount),
        waveform != Waveform::Saw || amount.rank() <= 0 ==> !fattens(waveform, amount),
{
}

/// The wander counts one sample at a time and draws when its interval is over, whatever
/// the count was; the interval itself stays.
pub proof fn the_wander_counts_its_samples(d: Drift)
    requires
        d.well_formed(),
    ensures
        drifted(d).interval == d.interval,
        d.counter + 1 < d.interval ==> drifted(d).counter == d.counter + 1 && drifted(d).rng
            == d.rng && drifted(d).target == d.target,
        d.counter + 1 >= d.interval ==> drifted(d).counter == 0 && drifted(d).rng == stepped(d.rng)
            && drifted(d).target == Some(stepped(d.rng)),
{
}

} // verus!

//! The stereo delay: its settings, and the memory of its two channels.

use crate::chorus::pair_at;
use crate::ieee::{guarding_and_clamping_settles, ieee, percent, settles, Ieee32, HALF_THOUSANDTH, ONE, QUARTER, ZERO};
use crate::ring::{written, Ring};
use vstd::prelude::*;

verus! {

/// Which engine a delay runs.
#[derive(Clone, Copy, Debug, PartialEq, Eq, Structural)]
pub enum DelayMode {
    /// A tape loop that wavers, darkens and saturates.
    Tape,
    /// A clean stereo delay.
    Clean,
}

/// Samples each channel remembers: two seconds at the highest rate, and two to
/// interpolate with.
pub const MAX_LEN: usize = 384_002;

/// `2.0`: the longest delay, in seconds.
pub const MAX_DELAY_SECS: u32 = 0x4000_0000;

/// `1.1`: the strongest feedback.
pub const MAX_FEEDBACK: u32 = 0x3f8c_cccd;

/// `0.98`: the strongest feedback that a clean delay runs with.
pub const MAX_CLEAN_FEEDBACK: u32 = 0x3f7a_e148;

/// `10.0`
pub const MIN_HPF_HZ: u32 = 0x4120_0000;

/// `20.0`
pub const MIN_LPF_HZ: u32 = 0x41a0_0000;

/// `100.0`
pub const HPF_HZ: u32 = 0x42c8_0000;

/// `12000.0`
pub const LPF_HZ: u32 = 0x463b_8000;

/// `120.0`
pub const TEMPO_BPM: u32 = 0x42f0_0000;

/// `1000.0`
pub const MAX_BPM: u32 = 0x447a_0000;

/// What a delay is set to.
#[derive(Clone, Copy, Debug, PartialEq, Eq, Structural)]
pub struct DelayParams {
    pub on: bool,
    pub mode: DelayMode,
    pub tempo_bpm: Ieee32,
    pub time_l: Ieee32,
    pub time_r: Ieee32,
    pub feedback: Ieee32,
    pub crossfeed: Ieee32,
    pub wow: Ieee32,
    pub age: Ieee32,
    pub hpf_hz: Ieee32,
    pub lpf_hz: Ieee32,
    pub mix: Ieee32,
}

/// A tap time between half a millisecond and the longest that the memory holds.
pub open spec fn tap_time(secs: Ieee32, longest: Ieee32) -> Ieee32 {
    secs.guarded(ieee(QUARTER)).clamped(ieee(HALF_THOUSANDTH), longest)
}

pub open spec fn unit(x: Ieee32) -> Ieee32 {
    x.guarded(ieee(ZERO)).clamped(ieee(ZERO), ieee(ONE))
}

fn to_unit(x: Ieee32) -> (r: Ieee32)
    ensures
        r == unit(x),
{
    x.guard(ieee(ZERO)).clamp(ieee(ZERO), ieee(ONE))
}

/// What a delay is set to after it was given new settings.
pub open spec fn delay_set(
    before: DelayParams,
    on: bool,
    mode: DelayMode,
    time_l: Ieee32,
    time_r: Ieee32,
    feedback: Ieee32,
    crossfeed: Ieee32,
    wow: Ieee32,
    age: Ieee32,
    hpf_hz: Ieee32,
    lpf_hz: Ieee32,
    mix: Ieee32,
    longest: Ieee32,
    ceiling: Ieee32,
) -> DelayParams {
    DelayParams {
        on,
        mode,
        tempo_bpm: before.tempo_bpm,
        time_l: tap_time(time_l, longest),
        time_r: tap_time(time_r, longest),
        feedback: feedback.guarded(ieee(ZERO)).clamped(ieee(ZERO), ieee(MAX_FEEDBACK)),
        crossfeed: unit(crossfeed),
        wow: unit(wow),
        age: unit(age),
        hpf_hz: hpf_hz.guarded(ieee(HPF_HZ)).clamped(ieee(MIN_HPF_HZ), ceiling),
        lpf_hz: lpf_hz.guarded(ieee(LPF_HZ)).clamped(ieee(MIN_LPF_HZ), ceiling),
        mix: unit(mix),
    }
}

/// A tempo that a delay can follow.
pub open spec fn delay_tempo(bpm: Ieee32) -> Ieee32 {
    bpm.clamped(ieee(ONE), ieee(MAX_BPM))
}

/// The feedback that a clean delay runs with.
pub open spec fn clean(feedback: Ieee32) -> Ieee32 {
    feedback.smaller(ieee(MAX_CLEAN_FEEDBACK))
}

impl DelayParams {
    pub fn new() -> (r: Self)
        ensures
            r == (DelayParams {
                on: false,
                mode: DelayMode::Tape,
                tempo_bpm: ieee(0x42f0_0000),
                time_l: ieee(QUARTER),
                time_r: ieee(QUARTER),
                feedback: percent(30),
                crossfeed: ieee(ZERO),
                wow: ieee(QUARTER),
                age: percent(40),
                hpf_hz: ieee(HPF_HZ),
                lpf_hz: ieee(LPF_HZ),
                mix: percent(30),
            }),
    {
        DelayParams {
            on: false,
            mode: DelayMode::Tape,
            tempo_bpm: ieee(TEMPO_BPM),
            time_l: ieee(QUARTER),
            time_r: ieee(QUARTER),
            feedback: percent(30),
            crossfeed: ieee(ZERO),
            wow: ieee(QUARTER),
            age: percent(40),
            hpf_hz: ieee(HPF_HZ),
            lpf_hz: ieee(LPF_HZ),
            mix: percent(30),
        }
    }

    pub fn set_tempo(&mut self, bpm: Ieee32)
        ensures
            *final(self) == (DelayParams {
                tempo_bpm: delay_tempo(bpm),
                ..*old(self)
            }),
    {
        self.tempo_bpm = bpm.clamp(ieee(ONE), ieee(MAX_BPM));
    }

    /// Take new settings, each made usable. `longest` is the longest delay that
    /// the memory holds, and `ceiling` the highest cutoff that the sample rate
    /// allows.
    pub fn set_params(
        &mut self,
        on: bool,
        mode: DelayMode,
        time_l: Ieee32,
        time_r: Ieee32,
        feedback: Ieee32,
        crossfeed: Ieee32,
        wow: Ieee32,
        age: Ieee32,
        hpf_hz: Ieee32,
        lpf_hz: Ieee32,
        mix: Ieee32,
        longest: Ieee32,
        ceiling: Ieee32,
    )
        requires
            ieee(HALF_THOUSANDTH).at_most(longest),
            ieee(MIN_LPF_HZ).at_most(ceiling),
        ensures
            *final(self) == delay_set(
                *old(self),
                on,
                mode,
                time_l,
                time_r,
                feedback,
                crossfeed,
                wow,
                age,
                hpf_hz,
                lpf_hz,
                mix,
                longest,
                ceiling,
            ),
    {
        self.on = on;
        self.mode = mode;
        self.time_l = time_l.guard(ieee(QUARTER)).clamp(ieee(HALF_THOUSANDTH), longest);
        self.time_r = time_r.guard(ieee(QUARTER)).clamp(ieee(HALF_THOUSANDTH), longest);
        self.feedback = feedback.guard(ieee(ZERO)).clamp(ieee(ZERO), ieee(MAX_FEEDBACK));
        self.crossfeed = to_unit(crossfeed);
        self.wow = to_unit(wow);
        self.age = to_unit(age);
        self.hpf_hz = hpf_hz.guard(ieee(HPF_HZ)).clamp(ieee(MIN_HPF_HZ), ceiling);
        self.lpf_hz = lpf_hz.guard(ieee(LPF_HZ)).clamp(ieee(MIN_LPF_HZ), ceiling);
        self.mix = to_unit(mix);
    }

    /// Take tap times that were resolved from a tempo.
    pub fn set_sync(&mut self, secs_l: Ieee32, secs_r: Ieee32, longest: Ieee32)
        requires
            ieee(HALF_THOUSANDTH).at_most(longest),
        ensures
            *final(self) == (DelayParams {
                time_l: tap_time(secs_l, longest),
                time_r: tap_time(secs_r, longest),
                ..*old(self)
            }),
    {
        self.time_l = secs_l.guard(ieee(QUARTER)).clamp(ieee(HALF_THOUSANDTH), longest);
        self.time_r = secs_r.guard(ieee(QUARTER)).clamp(ieee(HALF_THOUSANDTH), longest);
    }

    /// The feedback a clean delay runs with: nothing catches a loop above one.
    pub fn clean_feedback(&self) -> (r: Ieee32)
        ensures
            r == clean(self.feedback),
    {
        self.feedback.min(ieee(MAX_CLEAN_FEEDBACK))
    }
}

/// The memory of a delay: one ring to a channel, moving together.
#[derive(Debug)]
pub struct Delay<T> {
    pub left: Ring<T>,
    pub right: Ring<T>,
}

impl<T: Copy> Delay<T> {
    pub open spec fn well_formed(self) -> bool {
        &&& self.left.well_formed()
        &&& self.right.well_formed()
        &&& self.left.buf@.len() == self.right.buf@.len()
        &&& self.left.pos == self.right.pos
    }

    pub fn new(len: usize, zero: T) -> (r: Self)
        requires
            len > 0,
        ensures
            r.well_formed(),
            r.left.pos == 0,
            r.left.recent() == Seq::new(len as nat, |i: int| zero),
            r.right.recent() == Seq::new(len as nat, |i: int| zero),
    {
        Delay { left: Ring::new(len, zero), right: Ring::new(len, zero) }
    }

    /// Forget everything.
    pub fn clear(&mut self, zero: T)
        requires
            old(self).well_formed(),
        ensures
            final(self).well_formed(),
            final(self).left.buf@.len() == old(self).left.buf@.len(),
            final(self).left.pos == 0,
            final(self).left.recent() == Seq::new(old(self).left.buf@.len(), |i: int| zero),
            final(self).right.recent() == Seq::new(old(self).right.buf@.len(), |i: int| zero),
    {
        self.left.clear(zero);
        self.right.clear(zero);
    }

    /// Where the next samples go.
    pub fn head(&self) -> (r: usize)
        requires
            self.well_formed(),
        ensures
            r == self.left.pos,
            r < self.left.buf@.len(),
    {
        self.left.pos
    }

    /// Samples each channel remembers.
    pub fn len(&self) -> (r: usize)
        ensures
            r == self.left.buf@.len(),
    {
        self.left.buf.len()
    }

    /// A pair of neighbours of each channel.
    pub fn taps(&self, left: usize, right: usize) -> (r: ((T, T), (T, T)))
        requires
            self.well_formed(),
        ensures
            r.0 == pair_at(self.left.buf@, left as int),
            r.1 == pair_at(self.right.buf@, right as int),
    {
        (self.left.neighbours(left), self.right.neighbours(right))
    }

    /// Write a sample to each channel and move on.
    pub fn feed(&mut self, l: T, r: T)
        requires
            old(self).well_formed(),
        ensures
            final(self).well_formed(),
            final(self).left.buf@.len() == old(self).left.buf@.len(),
            final(self).left.pos == old(self).left.next_pos(),
            final(self).left.recent() == written(old(self).left.recent(), l),
            final(self).right.recent() == written(old(self).right.recent(), r),
    {
        self.left.write(l);
        self.right.write(r);
    }
}

/// Tap times always lie within the memory, whatever is asked for.
pub proof fn taps_stay_within_the_memory(secs: Ieee32, longest: Ieee32)
    requires
        ieee(HALF_THOUSANDTH).at_most(longest),
        longest.finite(),
    ensures
        tap_time(secs, longest).finite(),
        ieee(HALF_THOUSANDTH).at_most(tap_time(secs, longest)),
        tap_time(secs, longest).at_most(longest),
{
}

/// A delay takes every setting it can use as it is, and the nearest it can use for any
/// other: taps from 0.0005 to the longest, feedback to 1.1, the high-pass from 10.0 and the
/// low-pass from 20.0 to the ceiling, the rest from 0.0 to 1.0. What is no number is read
/// as 0.25 for a tap, 100.0 and 12000.0 for the filters, and 0.0 for the rest.
pub proof fn a_delay_takes_usable_settings(
    before: DelayParams,
    on: bool,
    mode: DelayMode,
    time_l: Ieee32,
    time_r: Ieee32,
    feedback: Ieee32,
    crossfeed: Ieee32,
    wow: Ieee32,
    age: Ieee32,
    hpf_hz: Ieee32,
    lpf_hz: Ieee32,
    mix: Ieee32,
    longest: Ieee32,
    ceiling: Ieee32,
)
    requires
        longest.finite() && longest.rank() >= 0x3e80_0000,
        ceiling.finite() && ceiling.rank() >= 0x463b_8000,
    ensures
        ({
            let r = delay_set(
                before,
                on,
                mode,
                time_l,
                time_r,
                feedback,
                crossfeed,
                wow,
                age,
                hpf_hz,
                lpf_hz,
                mix,
                longest,
                ceiling,
            );
            &&& r.on == on
            &&& r.mode == mode
            &&& r.tempo_bpm == before.tempo_bpm
            &&& settles(r.time_l, time_l, 0x3a03_126f, longest.rank(), 0x3e80_0000)
            &&& settles(r.time_r, time_r, 0x3a03_126f, longest.rank(), 0x3e80_0000)
            &&& settles(r.feedback, feedback, 0, 0x3f8c_cccd, 0)
            &&& settles(r.crossfeed, crossfeed, 0, 0x3f80_0000, 0)
            &&& settles(r.wow, wow, 0, 0x3f80_0000, 0)
            &&& settles(r.age, age, 0, 0x3f80_0000, 0)
            &&& settles(r.hpf_hz, hpf_hz, 0x4120_0000, ceiling.rank(), 0x42c8_0000)
            &&& settles(r.lpf_hz, lpf_hz, 0x41a0_0000, ceiling.rank(), 0x463b_8000)
            &&& settles(r.mix, mix, 0, 0x3f80_0000, 0)
        }),
{
    let zero = ieee(0);
    let one = ieee(0x3f80_0000);
    guarding_and_clamping_settles(time_l, ieee(0x3e80_0000), ieee(0x3a03_126f), longest);
    guarding_and_clamping_settles(time_r, ieee(0x3e80_0000), ieee(0x3a03_126f), longest);
    guarding_and_clamping_settles(feedback, zero, zero, ieee(0x3f8c_cccd));
    guarding_and_clamping_settles(crossfeed, zero, zero, one);
    guarding_and_clamping_settles(wow, zero, zero, one);
    guarding_and_clamping_settles(age, zero, zero, one);
    guarding_and_clamping_settles(hpf_hz, ieee(0x42c8_0000), ieee(0x4120_0000), ceiling);
    guarding_and_clamping_settles(lpf_hz, ieee(0x463b_8000), ieee(0x41a0_0000), ceiling);
    guarding_and_clamping_settles(mix, zero, zero, one);
}

/// A tempo from 1.0 to 1000.0 is followed as it is, and one beyond is the nearer end; a
/// clean delay feeds back what it is set to, but never more than 0.98.
pub proof fn tempo_and_feedback_have_their_ends(bpm: Ieee32, feedback: Ieee32)
    ensures
        bpm.finite() ==> settles(delay_tempo(bpm), bpm, 0x3f80_0000, 0x447a_0000, 0),
        feedback.finite() && feedback.rank() <= 0x3f7a_e148 ==> clean(feedback) == feedback,
        !(feedback.finite() && feedback.rank() <= 0x3f7a_e148) && !(feedback.bits == 0xff80_0000)
            ==> clean(feedback).bits == 0x3f7a_e148,
{
}

} // verus!

//! Pump, glue compressor and limiter: their settings, the look-ahead, and the
//! clamp that nothing gets past.

use crate::ieee::{guarding_and_clamping_settles, ieee, settles, settles_in_unit, Ieee32, HALF, ONE, THOUSANDTH, TWENTIETH, TWO, ZERO};
use crate::ring::{written, Ring};
use vstd::prelude::*;

verus! {

/// What clocks the duck.
#[derive(Clone, Copy, Debug, PartialEq, Eq, Structural)]
pub enum PumpSource {
    /// A synthesized kick.
    IntKick,
    /// The host's tempo alone.
    Tempo,
}

/// How the limiter lets go.
#[derive(Clone, Copy, Debug, PartialEq, Eq, Structural)]
pub enum LimiterStyle {
    Transparent,
    Punchy,
}

/// Samples the look-ahead can hold.
pub const MAX_LOOKAHEAD_SAMPLES: usize = 512;

/// Samples the true-peak estimate looks at.
pub const TP_TAPS: usize = 4;

/// `120.0`
pub const TEMPO_BPM: u32 = 0x42f0_0000;

/// `-60.0`
pub const MIN_THRESHOLD_DB: u32 = 0xc270_0000;

/// `-18.0`
pub const THRESHOLD_DB: u32 = 0xc190_0000;

/// `20.0`
pub const MAX_RATIO: u32 = 0x41a0_0000;

/// `24.0`
pub const MAX_MAKEUP_DB: u32 = 0x41c0_0000;

/// `-24.0`
pub const MIN_CEILING_DB: u32 = 0xc1c0_0000;

/// `-0.3`
pub const CEILING_DB: u32 = 0xbe99_999a;

/// `3.0`: half the width of the compressor's knee, in decibels.
pub const HALF_KNEE_DB: u32 = 0x4040_0000;

/// `-3.0`
pub const MINUS_HALF_KNEE_DB: u32 = 0xc040_0000;

/// What the pump is set to.
#[derive(Clone, Copy, Debug, PartialEq, Eq, Structural)]
pub struct Pump {
    pub amount: Ieee32,
    pub source: PumpSource,
    pub division_secs: Ieee32,
    pub curve: Ieee32,
    /// Where in the cycle the duck fires, in cycles.
    pub phase: Ieee32,
}

/// What the glue compressor is set to, in decibels where it says so.
#[derive(Clone, Copy, Debug, PartialEq, Eq, Structural)]
pub struct Glue {
    pub on: bool,
    pub threshold_db: Ieee32,
    pub ratio: Ieee32,
    pub makeup_db: Ieee32,
    pub mix: Ieee32,
}

/// What the limiter is set to.
#[derive(Clone, Copy, Debug, PartialEq, Eq, Structural)]
pub struct Limiter {
    pub on: bool,
    pub ceiling_db: Ieee32,
    pub release_secs: Ieee32,
    pub style: LimiterStyle,
}

/// A tempo of at least one beat a minute; a NaN is 120.
pub open spec fn tempo(bpm: Ieee32) -> Ieee32 {
    if bpm.nan() {
        ieee(TEMPO_BPM)
    } else {
        bpm.larger(ieee(ONE))
    }
}

/// What the pump is set to after it was given new settings.
pub open spec fn pump_set(
    amount: Ieee32,
    source: PumpSource,
    division_secs: Ieee32,
    curve: Ieee32,
    phase: Ieee32,
    sample_secs: Ieee32,
) -> Pump {
    Pump {
        amount: amount.unit_clamped(),
        source,
        division_secs: if division_secs.finite() {
            division_secs.larger(sample_secs)
        } else {
            ieee(HALF)
        },
        curve: curve.unit_clamped(),
        phase,
    }
}

/// What the glue compressor is set to after it was given new settings.
pub open spec fn glue_set(
    on: bool,
    threshold_db: Ieee32,
    ratio: Ieee32,
    makeup_db: Ieee32,
    mix: Ieee32,
) -> Glue {
    Glue {
        on,
        threshold_db: threshold_db.guarded(ieee(THRESHOLD_DB)).clamped(
            ieee(MIN_THRESHOLD_DB),
            ieee(ZERO),
        ),
        ratio: ratio.guarded(ieee(TWO)).clamped(ieee(ONE), ieee(MAX_RATIO)),
        makeup_db: makeup_db.guarded(ieee(ZERO)).clamped(ieee(ZERO), ieee(MAX_MAKEUP_DB)),
        mix: mix.unit_clamped(),
    }
}

/// What the limiter is set to after it was given new settings.
pub open spec fn limiter_set(
    on: bool,
    ceiling_db: Ieee32,
    release_secs: Ieee32,
    style: LimiterStyle,
) -> Limiter {
    Limiter {
        on,
        ceiling_db: ceiling_db.guarded(ieee(CEILING_DB)).clamped(
            ieee(MIN_CEILING_DB),
            ieee(ZERO),
        ),
        release_secs: release_secs.guarded(ieee(TWENTIETH)).clamped(ieee(THOUSANDTH), ieee(TWO)),
        style,
    }
}

/// A tempo of at least one beat a minute.
pub fn usable_tempo(bpm: Ieee32) -> (r: Ieee32)
    ensures
        r == tempo(bpm),
{
    if bpm.is_nan() {
        ieee(TEMPO_BPM)
    } else {
        bpm.max(ieee(ONE))
    }
}

impl Pump {
    /// Off, following the tempo.
    pub fn new() -> (r: Self)
        ensures
            r == (Pump {
                amount: ieee(ZERO),
                source: PumpSource::Tempo,
                division_secs: ieee(HALF),
                curve: ieee(HALF),
                phase: ieee(ZERO),
            }),
    {
        Pump {
            amount: ieee(ZERO),
            source: PumpSource::Tempo,
            division_secs: ieee(HALF),
            curve: ieee(HALF),
            phase: ieee(ZERO),
        }
    }

    /// Take new settings, each made usable. `sample_secs` is the length of a
    /// sample, and `phase` has been folded into one cycle.
    pub fn set(
        &mut self,
        amount: Ieee32,
        source: PumpSource,
        division_secs: Ieee32,
        curve: Ieee32,
        phase: Ieee32,
        sample_secs: Ieee32,
    )
        ensures
            *final(self) == pump_set(amount, source, division_secs, curve, phase, sample_secs),
    {
        self.amount = amount.clamp01();
        self.source = source;
        self.division_secs = if division_secs.is_finite() {
            division_secs.max(sample_secs)
        } else {
            ieee(HALF)
        };
        self.curve = curve.clamp01();
        self.phase = phase;
    }
}

impl Glue {
    /// On, gently: two to one above -18 dB.
    pub fn new() -> (r: Self)
        ensures
            r == (Glue {
                on: true,
                threshold_db: ieee(THRESHOLD_DB),
                ratio: ieee(TWO),
                makeup_db: ieee(ZERO),
                mix: ieee(ONE),
            }),
    {
        Glue {
            on: true,
            threshold_db: ieee(THRESHOLD_DB),
            ratio: ieee(TWO),
            makeup_db: ieee(ZERO),
            mix: ieee(ONE),
        }
    }

    /// Take new settings, each made usable.
    pub fn set(
        &mut self,
        on: bool,
        threshold_db: Ieee32,
        ratio: Ieee32,
        makeup_db: Ieee32,
        mix: Ieee32,
    )
        ensures
            *final(self) == glue_set(on, threshold_db, ratio, makeup_db, mix),
    {
        self.on = on;
        self.threshold_db = threshold_db.guard(ieee(THRESHOLD_DB)).clamp(
            ieee(MIN_THRESHOLD_DB),
            ieee(ZERO),
        );
        self.ratio = ratio.guard(ieee(TWO)).clamp(ieee(ONE), ieee(MAX_RATIO));
        self.makeup_db = makeup_db.guard(ieee(ZERO)).clamp(ieee(ZERO), ieee(MAX_MAKEUP_DB));
        self.mix = mix.clamp01();
    }
}

impl Limiter {
    /// On, transparent, at -0.3 dB.
    pub fn new() -> (r: Self)
        ensures
            r == (Limiter {
                on: true,
                ceiling_db: ieee(CEILING_DB),
                release_secs: ieee(TWENTIETH),
                style: LimiterStyle::Transparent,
            }),
    {
        Limiter {
            on: true,
            ceiling_db: ieee(CEILING_DB),
            release_secs: ieee(TWENTIETH),
            style: LimiterStyle::Transparent,
        }
    }

    /// Take new settings, each made usable.
    pub fn set(
        &mut self,
        on: bool,
        ceiling_db: Ieee32,
        release_secs: Ieee32,
        style: LimiterStyle,
    )
        ensures
            *final(self) == limiter_set(on, ceiling_db, release_secs, style),
    {
        self.on = on;
        self.ceiling_db = ceiling_db.guard(ieee(CEILING_DB)).clamp(
            ieee(MIN_CEILING_DB),
            ieee(ZERO),
        );
        self.release_secs = release_secs.guard(ieee(TWENTIETH)).clamp(ieee(THOUSANDTH), ieee(TWO));
        self.style = style;
    }
}

/// Where a level stands to the compressor's knee.
#[derive(Clone, Copy, Debug, PartialEq, Eq, Structural)]
pub enum Knee {
    /// Below it: no reduction.
    Below,
    /// In it: reduction sets in gradually.
    Inside,
    /// Above it: the full ratio.
    Above,
}

/// Where a level stands that is `over` decibels above the threshold.
pub open spec fn knee_of(over: Ieee32) -> Knee {
    if over.at_most(ieee(MINUS_HALF_KNEE_DB)) {
        Knee::Below
    } else if ieee(HALF_KNEE_DB).at_most(over) {
        Knee::Above
    } else {
        Knee::Inside
    }
}

/// Where a level stands that is `over` decibels above the threshold.
pub fn knee(over: Ieee32) -> (r: Knee)
    ensures
        r == knee_of(over),
{
    if over.le(ieee(MINUS_HALF_KNEE_DB)) {
        Knee::Below
    } else if ieee(HALF_KNEE_DB).le(over) {
        Knee::Above
    } else {
        Knee::Inside
    }
}

/// How many samples the limiter looks ahead, of those the rate asks for.
pub open spec fn looks_ahead(n: int) -> int {
    if n < 1 {
        1
    } else if n > MAX_LOOKAHEAD_SAMPLES - 1 {
        MAX_LOOKAHEAD_SAMPLES - 1
    } else {
        n
    }
}

/// How many samples the limiter looks ahead, of those the rate asks for.
pub fn look_ahead(n: usize) -> (r: usize)
    ensures
        r == looks_ahead(n as int),
        1 <= r < MAX_LOOKAHEAD_SAMPLES,
{
    if n < 1 {
        1
    } else if n > MAX_LOOKAHEAD_SAMPLES - 1 {
        MAX_LOOKAHEAD_SAMPLES - 1
    } else {
        n
    }
}

/// The look-ahead: what comes in now comes out `len` samples later.
#[derive(Debug)]
pub struct LookAhead<T> {
    pub left: Ring<T>,
    pub right: Ring<T>,
    pub len: usize,
}

impl<T: Copy> LookAhead<T> {
    pub open spec fn well_formed(self) -> bool {
        &&& self.left.well_formed()
        &&& self.right.well_formed()
        &&& self.left.buf@.len() == MAX_LOOKAHEAD_SAMPLES
        &&& self.right.buf@.len() == MAX_LOOKAHEAD_SAMPLES
        &&& 1 <= self.len < MAX_LOOKAHEAD_SAMPLES
    }

    pub fn new(zero: T) -> (r: Self)
        ensures
            r.well_formed(),
            r.len == 1,
            r.left.recent() == Seq::new(MAX_LOOKAHEAD_SAMPLES as nat, |i: int| zero),
            r.right.recent() == Seq::new(MAX_LOOKAHEAD_SAMPLES as nat, |i: int| zero),
    {
        LookAhead {
            left: Ring::new(MAX_LOOKAHEAD_SAMPLES, zero),
            right: Ring::new(MAX_LOOKAHEAD_SAMPLES, zero),
            len: 1,
        }
    }

    /// Look ahead as far as the rate asks for.
    pub fn set_len(&mut self, n: usize)
        requires
            old(self).well_formed(),
        ensures
            final(self).well_formed(),
            final(self).left == old(self).left,
            final(self).right == old(self).right,
            final(self).len == looks_ahead(n as int),
    {
        self.len = look_ahead(n);
    }

    /// Forget everything.
    pub fn clear(&mut self, zero: T)
        requires
            old(self).well_formed(),
        ensures
            final(self).well_formed(),
            final(self).len == old(self).len,
            final(self).left.recent() == Seq::new(MAX_LOOKAHEAD_SAMPLES as nat, |i: int| zero),
            final(self).right.recent() == Seq::new(MAX_LOOKAHEAD_SAMPLES as nat, |i: int| zero),
    {
        self.left.clear(zero);
        self.right.clear(zero);
    }

    /// Take a pair in and hand out the pair of `len` samples before.
    pub fn step(&mut self, l: T, r: T) -> (out: (T, T))
        requires
            old(self).well_formed(),
        ensures
            final(self).well_formed(),
            final(self).len == old(self).len,
            out.0 == old(self).left.recent()[old(self).len - 1],
            out.1 == old(self).right.recent()[old(self).len - 1],
            final(self).left.recent() == written(old(self).left.recent(), l),
            final(self).right.recent() == written(old(self).right.recent(), r),
    {
        let a = self.left.delay(l, self.len);
        let b = self.right.delay(r, self.len);
        (a, b)
    }
}

/// Samples for the true-peak estimate, the latest last.
pub fn shift_in<T: Copy>(hist: &mut [T; 4], x: T)
    ensures
        final(hist)@ == old(hist)@.drop_first().push(x),
{
    hist[0] = hist[1];
    hist[1] = hist[2];
    hist[2] = hist[3];
    hist[3] = x;
    assert(hist@ =~= old(hist)@.drop_first().push(x));
}

/// The limiter's gain after a sample.
pub open spec fn gain_after(gain: Ieee32, target: Ieee32, released: Ieee32) -> Ieee32 {
    (if target.below(gain) {
        target
    } else {
        released
    }).clamped(ieee(ZERO), ieee(ONE))
}

/// The limiter's gain after a sample: down at once to a lower target, up as the
/// release lets it, and always in `0.0 ..= 1.0`. `released` is the gain that the
/// release leads to.
pub fn limiter_gain(gain: Ieee32, target: Ieee32, released: Ieee32) -> (r: Ieee32)
    ensures
        r == gain_after(gain, target, released),
{
    let g = if target.lt(gain) {
        target
    } else {
        released
    };
    g.clamp(ieee(ZERO), ieee(ONE))
}

/// `x` with the other sign.
pub open spec fn negated(x: Ieee32) -> Ieee32 {
    if x.negative() {
        Ieee32 { bits: (x.bits - 0x8000_0000) as u32 }
    } else {
        Ieee32 { bits: (x.bits + 0x8000_0000) as u32 }
    }
}

/// A sample held within the ceiling either way; what is no number is silence.
pub open spec fn limited(x: Ieee32, ceiling: Ieee32) -> Ieee32 {
    if x.nan() {
        ieee(ZERO)
    } else {
        x.clamped(negated(ceiling), ceiling)
    }
}

/// Hold a sample within the ceiling either way; what is no number is silence.
pub fn limit(x: Ieee32, ceiling: Ieee32) -> (r: Ieee32)
    requires
        ieee(ZERO).at_most(ceiling),
    ensures
        r == limited(x, ceiling),
{
    if x.is_nan() {
        return ieee(ZERO);
    }
    let floor = if ceiling.bits >= 0x8000_0000 {
        Ieee32 { bits: ceiling.bits - 0x8000_0000 }
    } else {
        Ieee32 { bits: ceiling.bits + 0x8000_0000 }
    };
    x.clamp(floor, ceiling)
}

/// Nothing gets past the ceiling: whatever comes leaves as a finite sample no
/// louder than the ceiling.
pub proof fn nothing_gets_past_the_ceiling(x: Ieee32, ceiling: Ieee32)
    requires
        ieee(ZERO).at_most(ceiling),
        ceiling.finite(),
    ensures
        limited(x, ceiling).finite(),
        limited(x, ceiling).unsigned().at_most(ceiling),
{
}

/// A sample below the ceiling leaves as it came.
pub proof fn quiet_samples_pass(x: Ieee32, ceiling: Ieee32)
    requires
        ieee(ZERO).at_most(ceiling),
        x.unsigned().at_most(ceiling),
    ensures
        limited(x, ceiling) == x,
{
}

/// A pump takes amount and curve from 0.0 to 1.0, any division of at least a sample, and
/// the source and the phase as they are; a division that is no number is 0.5.
pub proof fn a_pump_takes_usable_settings(
    amount: Ieee32,
    source: PumpSource,
    division_secs: Ieee32,
    curve: Ieee32,
    phase: Ieee32,
    sample_secs: Ieee32,
)
    requires
        sample_secs.finite(),
    ensures
        ({
            let r = pump_set(amount, source, division_secs, curve, phase, sample_secs);
            &&& settles_in_unit(r.amount, amount)
            &&& r.source == source
            &&& !division_secs.finite() ==> r.division_secs.bits == 0x3f00_0000
            &&& division_secs.finite() && division_secs.rank() >= sample_secs.rank()
                ==> r.division_secs == division_secs
            &&& division_secs.finite() && division_secs.rank() < sample_secs.rank()
                ==> r.division_secs == sample_secs
            &&& settles_in_unit(r.curve, curve)
            &&& r.phase == phase
        }),
{
}

/// A glue compressor takes a threshold from -60.0 to 0.0, a ratio from 1.0 to 20.0, a
/// makeup from 0.0 to 24.0 and a mix from 0.0 to 1.0; what is no number is -18.0, 2.0 and
/// 0.0.
pub proof fn a_compressor_takes_usable_settings(
    on: bool,
    threshold_db: Ieee32,
    ratio: Ieee32,
    makeup_db: Ieee32,
    mix: Ieee32,
)
    ensures
        ({
            let r = glue_set(on, threshold_db, ratio, makeup_db, mix);
            &&& r.on == on
            &&& settles(r.threshold_db, threshold_db, -0x4270_0000, 0, 0xc190_0000)
            &&& settles(r.ratio, ratio, 0x3f80_0000, 0x41a0_0000, 0x4000_0000)
            &&& settles(r.makeup_db, makeup_db, 0, 0x41c0_0000, 0)
            &&& settles_in_unit(r.mix, mix)
        }),
{
    guarding_and_clamping_settles(threshold_db, ieee(0xc190_0000), ieee(0xc270_0000), ieee(0));
    guarding_and_clamping_settles(ratio, ieee(0x4000_0000), ieee(0x3f80_0000), ieee(0x41a0_0000));
    guarding_and_clamping_settles(makeup_db, ieee(0), ieee(0), ieee(0x41c0_0000));
}

/// A limiter takes a ceiling from -24.0 to 0.0 and a release from 0.001 to 2.0; what is no
/// number is -0.3 and 0.05.
pub proof fn a_limiter_takes_usable_settings(
    on: bool,
    ceiling_db: Ieee32,
    release_secs: Ieee32,
    style: LimiterStyle,
)
    ensures
        ({
            let r = limiter_set(on, ceiling_db, release_secs, style);
            &&& r.on == on
            &&& settles(r.ceiling_db, ceiling_db, -0x41c0_0000, 0, 0xbe99_999a)
            &&& settles(r.release_secs, release_secs, 0x3a83_126f, 0x4000_0000, 0x3d4c_cccd)
            &&& r.style == style
        }),
{
    guarding_and_clamping_settles(ceiling_db, ieee(0xbe99_999a), ieee(0xc1c0_0000), ieee(0));
    guarding_and_clamping_settles(
        release_secs,
        ieee(0x3d4c_cccd),
        ieee(0x3a83_126f),
        ieee(0x4000_0000),
    );
}

/// A tempo of 1.0 or more is kept, a slower one is 1.0, and a NaN is 120.0.
pub proof fn a_tempo_is_at_least_one(bpm: Ieee32)
    ensures
        bpm.nan() ==> tempo(bpm).bits == 0x42f0_0000,
        !bpm.nan() && bpm.rank() >= 0x3f80_0000 ==> tempo(bpm) == bpm,
        !bpm.nan() && bpm.rank() < 0x3f80_0000 ==> tempo(bpm).bits == 0x3f80_0000,
{
}

/// The knee reaches from three decibels below the threshold to three above it, both ends
/// outside.
pub proof fn the_knee_lies_round_the_threshold(over: Ieee32)
    requires
        !over.nan(),
    ensures
        over.rank() <= -0x4040_0000 ==> knee_of(over) == Knee::Below,
        over.rank() >= 0x4040_0000 ==> knee_of(over) == Knee::Above,
        -0x4040_0000 < over.rank() < 0x4040_0000 ==> knee_of(over) == Knee::Inside,
{
}

/// The limiter looks ahead as far as it is asked to, from one sample to 511.
pub proof fn the_limiter_looks_as_far_as_it_is_asked_to(n: int)
    ensures
        1 <= n <= 511 ==> looks_ahead(n) == n,
        n < 1 ==> looks_ahead(n) == 1,
        n > 511 ==> looks_ahead(n) == 511,
{
}

/// The gain drops to a lower target at once and otherwise goes where the release leads,
/// and either is taken as it is from 0.0 to 1.0.
pub proof fn a_gain_drops_at_once(gain: Ieee32, target: Ieee32, released: Ieee32)
    requires
        !gain.nan() && !target.nan() && !released.nan(),
    ensures
        target.rank() < gain.rank() ==> settles_in_unit(gain_after(gain, target, released), target),
        target.rank() >= gain.rank() ==> settles_in_unit(
            gain_after(gain, target, released),
            released,
        ),
{
}

/// What is louder than the ceiling leaves at the ceiling, on its own side of zero, and
/// what is no number leaves as zero.
pub proof fn loud_samples_leave_at_the_ceiling(x: Ieee32, ceiling: Ieee32)
    requires
        !ceiling.nan(),
        ceiling.rank() >= 0,
    ensures
        x.nan() ==> limited(x, ceiling).bits == 0,
        !x.nan() && x.rank() > ceiling.rank() ==> limited(x, ceiling) == ceiling,
        !x.nan() && x.rank() < -ceiling.rank() ==> limited(x, ceiling).rank() == -ceiling.rank(),
        !x.nan() && -ceiling.rank() <= x.rank() <= ceiling.rank() ==> limited(x, ceiling) == x,
{
}

} // verus!

//! The phaser's settings.

use crate::ieee::{guarding_and_clamping_settles, ieee, percent, settles, Ieee32, HALF, ONE, QUARTER, ZERO};
use vstd::prelude::*;

verus! {

/// All-pass stages at most.
pub const MAX_STAGES: usize = 12;

/// `20.0`: the lowest break frequency.
pub const MIN_FC_HZ: u32 = 0x41a0_0000;

/// `0.97`: the strongest feedback.
pub const MAX_FEEDBACK: u32 = 0x3f78_51ec;

/// `-0.97`
pub const MIN_FEEDBACK: u32 = 0xbf78_51ec;

/// `50.0`: the fastest sweep.
pub const MAX_RATE_HZ: u32 = 0x4248_0000;

/// `1000.0`
pub const CENTER_HZ: u32 = 0x447a_0000;

/// What a phaser is set to. `ceiling` is the highest break frequency that the
/// sample rate allows.
#[derive(Clone, Copy, Debug, PartialEq, Eq, Structural)]
pub struct Phaser {
    pub on: bool,
    pub stages: usize,
    pub rate_hz: Ieee32,
    pub depth: Ieee32,
    pub feedback: Ieee32,
    pub center_hz: Ieee32,
    /// How far the right channel's sweep is ahead, in cycles.
    pub spread: Ieee32,
    pub mix: Ieee32,
}

/// An even number of stages from two to twelve.
pub open spec fn even_stages(n: int) -> int {
    let c = if n < 2 {
        2
    } else if n > MAX_STAGES {
        MAX_STAGES as int
    } else {
        n
    };
    c - c % 2
}

/// A break frequency between the lowest and `ceiling`; a NaN is the lowest.
pub open spec fn break_frequency(hz: Ieee32, ceiling: Ieee32) -> Ieee32 {
    hz.larger(ieee(MIN_FC_HZ)).smaller(ceiling.larger(ieee(MIN_FC_HZ)))
}

/// A break frequency between the lowest and `ceiling`.
pub fn clamp_fc(hz: Ieee32, ceiling: Ieee32) -> (r: Ieee32)
    ensures
        r == break_frequency(hz, ceiling),
{
    hz.max(ieee(MIN_FC_HZ)).min(ceiling.max(ieee(MIN_FC_HZ)))
}

/// What a phaser is set to after it was given new settings.
pub open spec fn phaser_set(
    on: bool,
    stages: usize,
    rate_hz: Ieee32,
    depth: Ieee32,
    feedback: Ieee32,
    center_hz: Ieee32,
    spread: Ieee32,
    mix: Ieee32,
    ceiling: Ieee32,
) -> Phaser {
    Phaser {
        on,
        stages: even_stages(stages as int) as usize,
        rate_hz: rate_hz.guarded(ieee(HALF)).clamped(ieee(ZERO), ieee(MAX_RATE_HZ)),
        depth: depth.guarded(ieee(ZERO)).clamped(ieee(ZERO), ieee(ONE)),
        feedback: feedback.guarded(ieee(ZERO)).clamped(ieee(MIN_FEEDBACK), ieee(MAX_FEEDBACK)),
        center_hz: break_frequency(center_hz.guarded(ieee(CENTER_HZ)), ceiling),
        spread,
        mix: mix.guarded(ieee(HALF)).clamped(ieee(ZERO), ieee(ONE)),
    }
}

impl Phaser {
    /// Four stages at half a cycle per second, switched off.
    pub fn new() -> (r: Self)
        ensures
            r == (Phaser {
                on: false,
                stages: 4,
                rate_hz: ieee(HALF),
                depth: percent(60),
                feedback: percent(30),
                center_hz: ieee(CENTER_HZ),
                spread: ieee(QUARTER),
                mix: ieee(HALF),
            }),
    {
        Phaser {
            on: false,
            stages: 4,
            rate_hz: ieee(HALF),
            depth: percent(60),
            feedback: percent(30),
            center_hz: ieee(CENTER_HZ),
            spread: ieee(QUARTER),
            mix: ieee(HALF),
        }
    }

    /// Take new settings, each made usable. `ceiling` is the highest break
    /// frequency, and `spread` has been folded into one cycle.
    pub fn set_params(
        &mut self,
        on: bool,
        stages: usize,
        rate_hz: Ieee32,
        depth: Ieee32,
        feedback: Ieee32,
        center_hz: Ieee32,
        spread: Ieee32,
        mix: Ieee32,
        ceiling: Ieee32,
    )
        ensures
            *final(self) == phaser_set(
                on,
                stages,
                rate_hz,
                depth,
                feedback,
                center_hz,
                spread,
                mix,
                ceiling,
            ),
    {
        self.on = on;
        let clamped: usize = if stages < 2 {
            2
        } else if stages > MAX_STAGES {
            MAX_STAGES
        } else {
            stages
        };
        self.stages = clamped - clamped % 2;
        self.rate_hz = rate_hz.guard(ieee(HALF)).clamp(ieee(ZERO), ieee(MAX_RATE_HZ));
        self.depth = depth.guard(ieee(ZERO)).clamp(ieee(ZERO), ieee(ONE));
        self.feedback = feedback.guard(ieee(ZERO)).clamp(ieee(MIN_FEEDBACK), ieee(MAX_FEEDBACK));
        self.center_hz = clamp_fc(center_hz.guard(ieee(CENTER_HZ)), ceiling);
        self.spread = spread;
        self.mix = mix.guard(ieee(HALF)).clamp(ieee(ZERO), ieee(ONE));
    }

    pub fn stages(&self) -> (r: usize)
        ensures
            r == self.stages,
    {
        self.stages
    }

    pub fn is_on(&self) -> (r: bool)
        ensures
            r == self.on,
    {
        self.on
    }
}

/// Stages always come in pairs, one pair to a notch, and there is at least one.
pub proof fn stages_come_in_pairs(n: int)
    requires
        0 <= n,
    ensures
        even_stages(n) % 2 == 0,
        2 <= even_stages(n) <= MAX_STAGES,
        2 <= n <= MAX_STAGES && n % 2 == 0 ==> even_stages(n) == n,
{
}

/// Whatever is asked for, the feedback is below one either way.
pub proof fn feedback_is_stable(x: Ieee32)
    ensures
        ({
            let f = x.guarded(ieee(ZERO)).clamped(ieee(MIN_FEEDBACK), ieee(MAX_FEEDBACK));
            f.finite() && f.unsigned().below(ieee(ONE))
        }),
{
}

/// A break frequency is never NaN, and lies between the lowest and the ceiling.
pub proof fn break_frequencies_are_usable(hz: Ieee32, ceiling: Ieee32)
    ensures
        !break_frequency(hz, ceiling).nan(),
        ieee(MIN_FC_HZ).at_most(break_frequency(hz, ceiling)),
        break_frequency(hz, ceiling).at_most(ceiling.larger(ieee(MIN_FC_HZ))),
{
}

/// A phaser takes every setting it can use as it is, and the nearest it can use for any
/// other: pairs of stages up to twelve, a rate to 50.0, feedback to 0.97 either way, a
/// centre from 20.0 to the ceiling, depth and mix from 0.0 to 1.0. What is no number is
/// 0.5 for rate and mix, 1000.0 for the centre and 0.0 for the rest.
pub proof fn a_phaser_takes_usable_settings(
    on: bool,
    stages: usize,
    rate_hz: Ieee32,
    depth: Ieee32,
    feedback: Ieee32,
    center_hz: Ieee32,
    spread: Ieee32,
    mix: Ieee32,
    ceiling: Ieee32,
)
    requires
        ceiling.finite() && ceiling.rank() >= 0x447a_0000,
    ensures
        ({
            let r = phaser_set(
                on,
                stages,
                rate_hz,
                depth,
                feedback,
                center_hz,
                spread,
                mix,
                ceiling,
            );
            &&& r.on == on
            &&& stages < 2 ==> r.stages == 2
            &&& 2 <= stages <= 12 ==> r.stages % 2 == 0 && stages - 1 <= r.stages <= stages
            &&& stages > 12 ==> r.stages == 12
            &&& settles(r.rate_hz, rate_hz, 0, 0x4248_0000, 0x3f00_0000)
            &&& settles(r.depth, depth, 0, 0x3f80_0000, 0)
            &&& settles(r.feedback, feedback, -0x3f78_51ec, 0x3f78_51ec, 0)
            &&& settles(r.center_hz, center_hz, 0x41a0_0000, ceiling.rank(), 0x447a_0000)
            &&& r.spread == spread
            &&& settles(r.mix, mix, 0, 0x3f80_0000, 0x3f00_0000)
        }),
{
    let zero = ieee(0);
    let half = ieee(0x3f00_0000);
    let one = ieee(0x3f80_0000);
    guarding_and_clamping_settles(rate_hz, half, zero, ieee(0x4248_0000));
    guarding_and_clamping_settles(depth, zero, zero, one);
    guarding_and_clamping_settles(feedback, zero, ieee(0xbf78_51ec), ieee(0x3f78_51ec));
    guarding_and_clamping_settles(mix, half, zero, one);
}

} // verus!

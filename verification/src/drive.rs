//! The drive's settings, and the hold of its downsampler.

use crate::ieee::{ieee, settles, settles_in_unit, Ieee32, HALF, ONE, ZERO};
use vstd::prelude::*;

verus! {

/// The curve of a drive.
#[derive(Clone, Copy, Debug, Default, PartialEq, Eq, Structural)]
pub enum DriveKind {
    Clean,
    #[default]
    Tube,
    Diode,
    RatFuzz,
    Compound,
}

/// `16.0`
pub const MAX_BITS: u32 = 0x4180_0000;

/// `50.0`
pub const MAX_DOWNSAMPLE: u32 = 0x4248_0000;

/// What a drive is set to. The input gain follows from the knob by arithmetic
/// and arrives made.
#[derive(Clone, Copy, Debug, PartialEq, Eq, Structural)]
pub struct DriveParams {
    pub on: bool,
    pub kind: DriveKind,
    pub knob: Ieee32,
    pub tone: Ieee32,
    pub bits: Ieee32,
    pub downsample: Ieee32,
    pub crush_mix: Ieee32,
    pub mix: Ieee32,
}

/// What a drive is set to after it was given new settings.
pub open spec fn drive_set(
    on: bool,
    kind: DriveKind,
    knob: Ieee32,
    tone: Ieee32,
    bits: Ieee32,
    downsample: Ieee32,
    crush_mix: Ieee32,
    mix: Ieee32,
) -> DriveParams {
    DriveParams {
        on,
        kind,
        knob: knob.unit_clamped(),
        tone: tone.unit_clamped(),
        bits: bits.guarded(ieee(MAX_BITS)).clamped(ieee(ONE), ieee(MAX_BITS)),
        downsample: downsample.guarded(ieee(ONE)).clamped(ieee(ONE), ieee(MAX_DOWNSAMPLE)),
        crush_mix: crush_mix.unit_clamped(),
        mix: mix.unit_clamped(),
    }
}

/// Whether amplitudes are quantized at this depth.
pub open spec fn quantizes(bits: Ieee32) -> bool {
    !ieee(MAX_BITS).at_most(bits)
}

impl DriveParams {
    pub fn new() -> (r: Self)
        ensures
            r == (DriveParams {
                on: false,
                kind: DriveKind::Tube,
                knob: ieee(ZERO),
                tone: ieee(HALF),
                bits: ieee(MAX_BITS),
                downsample: ieee(ONE),
                crush_mix: ieee(ONE),
                mix: ieee(ONE),
            }),
    {
        DriveParams {
            on: false,
            kind: DriveKind::Tube,
            knob: ieee(ZERO),
            tone: ieee(HALF),
            bits: ieee(MAX_BITS),
            downsample: ieee(ONE),
            crush_mix: ieee(ONE),
            mix: ieee(ONE),
        }
    }

    /// Take new settings, each made usable.
    pub fn set_params(
        &mut self,
        on: bool,
        kind: DriveKind,
        knob: Ieee32,
        tone: Ieee32,
        bits: Ieee32,
        downsample: Ieee32,
        crush_mix: Ieee32,
        mix: Ieee32,
    )
        ensures
            *final(self) == drive_set(
                on,
                kind,
                knob,
                tone,
                bits,
                downsample,
                crush_mix,
                mix,
            ),
    {
        self.on = on;
        self.kind = kind;
        self.knob = knob.clamp01();
        self.tone = tone.clamp01();
        self.bits = bits.guard(ieee(MAX_BITS)).clamp(ieee(ONE), ieee(MAX_BITS));
        self.downsample = downsample.guard(ieee(ONE)).clamp(ieee(ONE), ieee(MAX_DOWNSAMPLE));
        self.crush_mix = crush_mix.clamp01();
        self.mix = mix.clamp01();
    }

    /// Whether amplitudes are quantized at all.
    pub fn crushes(&self) -> (r: bool)
        ensures
            r == quantizes(self.bits),
    {
        !ieee(MAX_BITS).le(self.bits)
    }
}

/// The downsampler: it repeats a sample until its phase has come round.
#[derive(Clone, Copy, Debug, PartialEq, Eq, Structural)]
pub struct Hold {
    pub held: Ieee32,
    pub phase: Ieee32,
}

/// The hold after a sample `x`. `ahead` is the phase moved on by one over the
/// factor, `wrapped` the same less one.
pub open spec fn held_on(
    h: Hold,
    x: Ieee32,
    downsample: Ieee32,
    ahead: Ieee32,
    wrapped: Ieee32,
) -> Hold {
    if downsample.at_most(ieee(ONE)) {
        Hold { held: x, phase: ieee(ZERO) }
    } else if ieee(ONE).at_most(ahead) {
        Hold { held: x, phase: wrapped }
    } else {
        Hold { held: h.held, phase: ahead }
    }
}

impl Hold {
    pub fn new() -> (r: Self)
        ensures
            r.held == ieee(ZERO) && r.phase == ieee(ZERO),
    {
        Hold { held: ieee(ZERO), phase: ieee(ZERO) }
    }

    /// Take a sample in and hand out the one that is held: with a factor of one
    /// that is the sample itself.
    pub fn step(&mut self, x: Ieee32, downsample: Ieee32, ahead: Ieee32, wrapped: Ieee32) -> (r:
        Ieee32)
        ensures
            *final(self) == held_on(*old(self), x, downsample, ahead, wrapped),
            r == final(self).held,
    {
        if downsample.le(ieee(ONE)) {
            self.held = x;
            self.phase = ieee(ZERO);
        } else if ieee(ONE).le(ahead) {
            self.phase = wrapped;
            self.held = x;
        } else {
            self.phase = ahead;
        }
        self.held
    }
}

/// A drive takes every setting it can use as it is, and the nearest it can use for any
/// other: one to sixteen bits, a factor of one to fifty, the rest from 0.0 to 1.0. What is
/// no number leaves bits and factor at what they do nothing at.
pub proof fn a_drive_takes_usable_settings(
    on: bool,
    kind: DriveKind,
    knob: Ieee32,
    tone: Ieee32,
    bits: Ieee32,
    downsample: Ieee32,
    crush_mix: Ieee32,
    mix: Ieee32,
)
    ensures
        ({
            let r = drive_set(on, kind, knob, tone, bits, downsample, crush_mix, mix);
            &&& r.on == on
            &&& r.kind == kind
            &&& settles_in_unit(r.knob, knob)
            &&& settles_in_unit(r.tone, tone)
            &&& settles(r.bits, bits, 0x3f80_0000, 0x4180_0000, 0x4180_0000)
            &&& settles(r.downsample, downsample, 0x3f80_0000, 0x4248_0000, 0x3f80_0000)
            &&& settles_in_unit(r.crush_mix, crush_mix)
            &&& settles_in_unit(r.mix, mix)
            &&& quantizes(r.bits) <==> r.bits.rank() < 0x4180_0000
        }),
{
}

/// A sample is let through whenever the phase has come round, and always with a factor of
/// one; in between the one before is repeated. What is heard is the new sample or the held
/// one, and nothing else.
pub proof fn a_hold_repeats_until_its_phase_comes_round(
    h: Hold,
    x: Ieee32,
    downsample: Ieee32,
    ahead: Ieee32,
    wrapped: Ieee32,
)
    requires
        downsample.finite(),
        ahead.finite(),
    ensures
        ({
            let r = held_on(h, x, downsample, ahead, wrapped);
            &&& downsample.rank() <= 0x3f80_0000 ==> r.held == x && r.phase.bits == 0
            &&& downsample.rank() > 0x3f80_0000 && ahead.rank() >= 0x3f80_0000 ==> r.held == x
                && r.phase == wrapped
            &&& downsample.rank() > 0x3f80_0000 && ahead.rank() < 0x3f80_0000 ==> r.held == h.held
                && r.phase == ahead
        }),
{
}

} // verus!

//! The low-frequency oscillator: what it is set to, when its cycle starts over,
//! and when its stepped-random shape draws anew.

use crate::ieee::{ieee, settles_in_unit, Ieee32, ONE, TWO, ZERO};
use crate::rng::{seed_state, seeded, step, stepped};
use vstd::prelude::*;

verus! {

/// The wave.
#[derive(Clone, Copy, Debug, PartialEq, Eq, Structural)]
pub enum LfoShape {
    Sine,
    Triangle,
    Saw,
    Square,
    SampleHold,
}

/// The shape of a saved number; an unknown one is a sine.
pub open spec fn shape_of(i: u8) -> LfoShape {
    if i == 1 {
        LfoShape::Triangle
    } else if i == 2 {
        LfoShape::Saw
    } else if i == 3 {
        LfoShape::Square
    } else if i == 4 {
        LfoShape::SampleHold
    } else {
        LfoShape::Sine
    }
}

/// The shape of a saved number.
pub fn lfo_shape(i: u8) -> (r: LfoShape)
    ensures
        r == shape_of(i),
{
    match i {
        1 => LfoShape::Triangle,
        2 => LfoShape::Saw,
        3 => LfoShape::Square,
        4 => LfoShape::SampleHold,
        _ => LfoShape::Sine,
    }
}

/// An LFO. The held level of the stepped-random shape is kept as the draw it
/// comes from; before the first draw there is none.
#[derive(Clone, Copy, Debug, PartialEq, Eq, Structural)]
pub struct Lfo {
    pub phase: Ieee32,
    pub shape: LfoShape,
    pub rate_hz: Ieee32,
    pub depth: Ieee32,
    pub phase_offset: Ieee32,
    pub retrigger: bool,
    pub held: Option<u32>,
    pub rng: u32,
}

/// An LFO after it was configured.
pub open spec fn lfo_set(
    l: Lfo,
    shape: LfoShape,
    rate_hz: Ieee32,
    depth: Ieee32,
    phase_offset: Ieee32,
    retrigger: bool,
) -> Lfo {
    Lfo {
        shape,
        rate_hz: rate_hz.larger(ieee(ZERO)),
        depth: depth.clamped(ieee(ZERO), ieee(ONE)),
        phase_offset,
        retrigger,
        ..l
    }
}

/// An LFO after its cycle was started over.
pub open spec fn lfo_restarted(l: Lfo) -> Lfo {
    Lfo { phase: ieee(ZERO), held: Some(stepped(l.rng)), rng: stepped(l.rng), ..l }
}

/// An LFO after a sample. `ahead` is the phase moved on, `wrapped` the same less one cycle.
pub open spec fn lfo_advanced(l: Lfo, ahead: Ieee32, wrapped: Ieee32) -> Lfo {
    if !ieee(ONE).at_most(ahead) {
        Lfo { phase: ahead, ..l }
    } else if l.shape == LfoShape::SampleHold {
        Lfo { phase: wrapped, held: Some(stepped(l.rng)), rng: stepped(l.rng), ..l }
    } else {
        Lfo { phase: wrapped, ..l }
    }
}

impl Lfo {
    /// A sine at 2 Hz and full depth that starts over with every note.
    pub fn new() -> (r: Self)
        ensures
            r == (Lfo {
                phase: ieee(ZERO),
                shape: LfoShape::Sine,
                rate_hz: ieee(TWO),
                depth: ieee(ONE),
                phase_offset: ieee(ZERO),
                retrigger: true,
                held: None,
                rng: 0x1234_5678,
            }),
    {
        Lfo {
            phase: ieee(ZERO),
            shape: LfoShape::Sine,
            rate_hz: ieee(TWO),
            depth: ieee(ONE),
            phase_offset: ieee(ZERO),
            retrigger: true,
            held: None,
            rng: 0x1234_5678,
        }
    }

    /// Configure: a rate of at least zero, a depth in `0.0 ..= 1.0`, and an
    /// offset that the caller has folded into one cycle.
    pub fn set_params(
        &mut self,
        shape: LfoShape,
        rate_hz: Ieee32,
        depth: Ieee32,
        phase_offset: Ieee32,
        retrigger: bool,
    )
        ensures
            *final(self) == lfo_set(*old(self), shape, rate_hz, depth, phase_offset, retrigger),
    {
        self.shape = shape;
        self.rate_hz = rate_hz.max(ieee(ZERO));
        self.depth = depth.clamp(ieee(ZERO), ieee(ONE));
        self.phase_offset = phase_offset;
        self.retrigger = retrigger;
    }

    /// Start the cycle over and draw a fresh level.
    pub fn retrigger(&mut self)
        ensures
            *final(self) == lfo_restarted(*old(self)),
    {
        self.phase = ieee(ZERO);
        self.draw();
    }

    /// Whether a note starts the cycle over.
    pub fn retriggers(&self) -> (r: bool)
        ensures
            r == self.retrigger,
    {
        self.retrigger
    }

    /// Draw from another seed.
    pub fn reseed(&mut self, seed: u32)
        ensures
            *final(self) == (Lfo { rng: seeded(seed), ..*old(self) }),
    {
        self.rng = seed_state(seed);
    }

    fn draw(&mut self)
        ensures
            *final(self) == (Lfo {
                held: Some(stepped(old(self).rng)),
                rng: stepped(old(self).rng),
                ..*old(self)
            }),
    {
        self.rng = step(self.rng);
        self.held = Some(self.rng);
    }

    /// Advance. `ahead` is the phase moved on, `wrapped` the same less one
    /// cycle: a phase of one or more starts over, and with it the
    /// stepped-random shape draws anew.
    pub fn advance(&mut self, ahead: Ieee32, wrapped: Ieee32)
        ensures
            *final(self) == lfo_advanced(*old(self), ahead, wrapped),
    {
        if ieee(ONE).le(ahead) {
            self.phase = wrapped;
            if self.shape == LfoShape::SampleHold {
                self.draw();
            }
        } else {
            self.phase = ahead;
        }
    }
}

/// The five shapes are saved under five numbers, from the sine at 0 to sample and hold at
/// 4, and every other number is a sine too.
pub proof fn shapes_have_their_numbers(i: u8)
    ensures
        i == 0 || i > 4 ==> shape_of(i) == LfoShape::Sine,
        shape_of(i) == LfoShape::Triangle <==> i == 1,
        shape_of(i) == LfoShape::Saw <==> i == 2,
        shape_of(i) == LfoShape::Square <==> i == 3,
        shape_of(i) == LfoShape::SampleHold <==> i == 4,
{
}

/// An LFO takes any rate from zero up and any depth from 0.0 to 1.0, and the rest as it
/// is; where it is in its cycle, and what it holds, does not change with that.
pub proof fn an_lfo_takes_usable_settings(
    l: Lfo,
    shape: LfoShape,
    rate_hz: Ieee32,
    depth: Ieee32,
    phase_offset: Ieee32,
    retrigger: bool,
)
    ensures
        ({
            let r = lfo_set(l, shape, rate_hz, depth, phase_offset, retrigger);
            &&& r.shape == shape
            &&& rate_hz.nan() || rate_hz.rank() < 0 ==> r.rate_hz.bits == 0
            &&& !rate_hz.nan() && rate_hz.rank() >= 0 ==> r.rate_hz == rate_hz
            &&& !depth.nan() ==> settles_in_unit(r.depth, depth)
            &&& r.phase_offset == phase_offset
            &&& r.retrigger == retrigger
            &&& r.phase == l.phase && r.held == l.held && r.rng == l.rng
        }),
{
}

/// A cycle that is over starts again with what is left of the phase, and only then does
/// sample and hold draw; no other shape ever draws on its way.
pub proof fn a_cycle_starts_over_when_it_is_over(l: Lfo, ahead: Ieee32, wrapped: Ieee32)
    requires
        !ahead.nan(),
    ensures
        ({
            let r = lfo_advanced(l, ahead, wrapped);
            let draws = ahead.rank() >= 0x3f80_0000 && l.shape == LfoShape::SampleHold;
            &&& ahead.rank() < 0x3f80_0000 ==> r.phase == ahead
            &&& ahead.rank() >= 0x3f80_0000 ==> r.phase == wrapped
            &&& draws ==> r.held == Some(r.rng) && r.rng == stepped(l.rng)
            &&& !draws ==> r.held == l.held && r.rng == l.rng
            &&& r.shape == l.shape && r.rate_hz == l.rate_hz && r.depth == l.depth
            &&& r.phase_offset == l.phase_offset && r.retrigger == l.retrigger
        }),
{
}

/// Starting over leaves the phase at zero and a fresh draw held, and nothing else changes.
pub proof fn starting_over_draws_afresh(l: Lfo)
    ensures
        lfo_restarted(l).phase.bits == 0,
        lfo_restarted(l).rng == stepped(l.rng),
        lfo_restarted(l).held == Some(stepped(l.rng)),
        lfo_restarted(l) == (Lfo {
            phase: lfo_restarted(l).phase,
            rng: lfo_restarted(l).rng,
            held: lfo_restarted(l).held,
            ..l
        }),
{
}

} // verus!

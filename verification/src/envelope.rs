//! The envelope: which segment it is in, and when a segment ends.

use crate::ieee::{ieee, percent, Ieee32, ONE, ZERO};
use vstd::prelude::*;

verus! {

/// A segment of the envelope.
#[derive(Clone, Copy, Debug, PartialEq, Eq, Structural)]
pub enum Stage {
    Idle,
    Attack,
    Decay,
    Sustain,
    Release,
}

/// An envelope of straight segments: up to one, down to the sustain level, and
/// from wherever it was let go down to zero.
#[derive(Clone, Copy, Debug, PartialEq, Eq, Structural)]
pub struct Adsr {
    pub stage: Stage,
    pub level: Ieee32,
    /// The level at which the note was let go.
    pub release_start: Ieee32,
    pub attack_secs: Ieee32,
    pub decay_secs: Ieee32,
    pub sustain: Ieee32,
    pub release_secs: Ieee32,
}

/// The envelope after a sample, where its segment would ramp to `ramped`.
pub open spec fn advanced(e: Adsr, ramped: Ieee32) -> Adsr {
    match e.stage {
        Stage::Idle => e,
        Stage::Attack => if ieee(ONE).at_most(ramped) {
            Adsr { stage: Stage::Decay, level: ieee(ONE), ..e }
        } else {
            Adsr { level: ramped, ..e }
        },
        Stage::Decay => if ramped.at_most(e.sustain) {
            Adsr { stage: Stage::Sustain, level: e.sustain, ..e }
        } else {
            Adsr { level: ramped, ..e }
        },
        Stage::Sustain => Adsr { level: e.sustain, ..e },
        Stage::Release => if ramped.at_most(ieee(ZERO)) {
            Adsr { stage: Stage::Idle, level: ieee(ZERO), ..e }
        } else {
            Adsr { level: ramped, ..e }
        },
    }
}

/// The envelope after a note was struck.
pub open spec fn triggered(e: Adsr) -> Adsr {
    Adsr { stage: Stage::Attack, ..e }
}

/// The envelope after the note was let go; an idle one stays idle.
pub open spec fn released(e: Adsr) -> Adsr {
    if e.stage == Stage::Idle {
        e
    } else {
        Adsr { stage: Stage::Release, release_start: e.level, ..e }
    }
}

/// The envelope at rest.
pub open spec fn rested(e: Adsr) -> Adsr {
    Adsr { stage: Stage::Idle, level: ieee(ZERO), ..e }
}

impl Adsr {
    /// An idle envelope: 10 ms attack, 100 ms decay, sustain at 0.8, 300 ms
    /// release.
    pub fn new() -> (r: Self)
        ensures
            r == (Adsr {
                stage: Stage::Idle,
                level: ieee(ZERO),
                release_start: ieee(ZERO),
                attack_secs: percent(1),
                decay_secs: percent(10),
                sustain: percent(80),
                release_secs: percent(30),
            }),
    {
        Adsr {
            stage: Stage::Idle,
            level: ieee(ZERO),
            release_start: ieee(ZERO),
            attack_secs: percent(1),
            decay_secs: percent(10),
            sustain: percent(80),
            release_secs: percent(30),
        }
    }

    pub fn is_active(&self) -> (r: bool)
        ensures
            r == (self.stage != Stage::Idle),
    {
        self.stage != Stage::Idle
    }

    /// The level, without moving on.
    pub fn level(&self) -> (r: Ieee32)
        ensures
            r == self.level,
    {
        self.level
    }

    /// Start the attack, from wherever the level is.
    pub fn trigger(&mut self)
        ensures
            *final(self) == triggered(*old(self)),
    {
        self.stage = Stage::Attack;
    }

    /// Let go; an idle envelope stays idle.
    pub fn release(&mut self)
        ensures
            *final(self) == released(*old(self)),
    {
        if self.stage != Stage::Idle {
            self.release_start = self.level;
            self.stage = Stage::Release;
        }
    }

    pub fn reset(&mut self)
        ensures
            *final(self) == rested(*old(self)),
    {
        self.stage = Stage::Idle;
        self.level = ieee(ZERO);
    }

    /// Advance a sample. `ramped` is the level that the current segment's slope
    /// leads to; where that passes the segment's end, the level stops there and
    /// the next segment begins.
    pub fn next(&mut self, ramped: Ieee32) -> (r: Ieee32)
        ensures
            *final(self) == advanced(*old(self), ramped),
            r == final(self).level,
    {
        match self.stage {
            Stage::Idle => {},
            Stage::Attack => {
                self.level = ramped;
                if ieee(ONE).le(self.level) {
                    self.level = ieee(ONE);
                    self.stage = Stage::Decay;
                }
            },
            Stage::Decay => {
                self.level = ramped;
                if self.level.le(self.sustain) {
                    self.level = self.sustain;
                    self.stage = Stage::Sustain;
                }
            },
            Stage::Sustain => {
                self.level = self.sustain;
            },
            Stage::Release => {
                self.level = ramped;
                if self.level.le(ieee(ZERO)) {
                    self.level = ieee(ZERO);
                    self.stage = Stage::Idle;
                }
            },
        }
        self.level
    }
}

/// Whether `ramped` goes the way of the segment: up in the attack, down in decay
/// and release.
pub open spec fn ramps(e: Adsr, ramped: Ieee32) -> bool {
    match e.stage {
        Stage::Attack => e.level.at_most(ramped),
        Stage::Decay => ramped.at_most(e.level),
        Stage::Release => ramped.at_most(e.level),
        _ => true,
    }
}

pub open spec fn in_unit(x: Ieee32) -> bool {
    ieee(ZERO).at_most(x) && x.at_most(ieee(ONE))
}

/// The level stays in `0.0 ..= 1.0`.
pub proof fn levels_stay_in_range(e: Adsr, ramped: Ieee32)
    requires
        in_unit(e.level),
        in_unit(e.sustain),
        ramps(e, ramped),
    ensures
        in_unit(advanced(e, ramped).level),
{
}

/// Something that happens to an envelope.
pub enum Event {
    Trigger,
    Release,
    Reset,
    Next { ramped: Ieee32 },
}

/// The envelope after several things happened to it.
pub open spec fn lived(e: Adsr, events: Seq<Event>) -> Adsr
    decreases events.len(),
{
    if events.len() == 0 {
        e
    } else {
        let before = lived(e, events.drop_last());
        match events.last() {
            Event::Trigger => triggered(before),
            Event::Release => released(before),
            Event::Reset => rested(before),
            Event::Next { ramped } => advanced(before, ramped),
        }
    }
}

/// Every slope goes the way of the segment it is met in.
pub open spec fn slopes_fit(e: Adsr, events: Seq<Event>) -> bool
    decreases events.len(),
{
    events.len() == 0 || {
        &&& slopes_fit(e, events.drop_last())
        &&& match events.last() {
            Event::Next { ramped } => ramps(lived(e, events.drop_last()), ramped),
            _ => true,
        }
    }
}

/// The level is in `0.0 ..= 1.0` all its life, however often the note is struck,
/// let go and cut off.
pub proof fn levels_stay_in_range_for_life(e: Adsr, events: Seq<Event>)
    requires
        in_unit(e.level),
        in_unit(e.sustain),
        slopes_fit(e, events),
    ensures
        in_unit(lived(e, events).level),
        lived(e, events).sustain == e.sustain,
    decreases events.len(),
{
    if events.len() > 0 {
        levels_stay_in_range_for_life(e, events.drop_last());
    }
}

/// The envelope after several samples, each with the level its segment's slope
/// leads to.
pub open spec fn run(e: Adsr, ramps: Seq<Ieee32>) -> Adsr
    decreases ramps.len(),
{
    if ramps.len() == 0 {
        e
    } else {
        advanced(run(e, ramps.drop_last()), ramps.last())
    }
}

/// Every slope leads down, or by more than nothing where `strictly` is asked for,
/// until the envelope rests.
pub open spec fn falls(e: Adsr, ramps: Seq<Ieee32>, strictly: bool) -> bool {
    forall|i: int|
        0 <= i < ramps.len() && run(e, #[trigger] ramps.take(i)).stage != Stage::Idle ==> {
            let level = run(e, ramps.take(i)).level;
            if strictly {
                ramps[i].below(level)
            } else {
                ramps[i].at_most(level)
            }
        }
}

proof fn lemma_falls_before(e: Adsr, ramps: Seq<Ieee32>, strictly: bool)
    requires
        falls(e, ramps, strictly),
        ramps.len() > 0,
    ensures
        falls(e, ramps.drop_last(), strictly),
        run(e, ramps.drop_last()).stage != Stage::Idle ==> if strictly {
            ramps.last().below(run(e, ramps.drop_last()).level)
        } else {
            ramps.last().at_most(run(e, ramps.drop_last()).level)
        },
{
    let before = ramps.drop_last();
    assert forall|i: int|
        0 <= i < before.len() && run(e, #[trigger] before.take(i)).stage != Stage::Idle implies {
        let level = run(e, before.take(i)).level;
        if strictly {
            before[i].below(level)
        } else {
            before[i].at_most(level)
        }
    } by {
        assert(before.take(i) =~= ramps.take(i));
    }
    assert(ramps.take(ramps.len() - 1) =~= before);
}

/// A release never rises: after the note was let go and while it is not struck
/// again, each level is at most the one before, and none is below zero.
pub proof fn a_release_never_rises(e: Adsr, ramps: Seq<Ieee32>, i: int)
    requires
        e.stage == Stage::Release,
        ieee(ZERO).at_most(e.level),
        falls(e, ramps, false),
        0 <= i <= ramps.len(),
    ensures
        run(e, ramps).level.at_most(run(e, ramps.take(i)).level),
        run(e, ramps).level.at_most(e.level),
        ieee(ZERO).at_most(run(e, ramps).level),
        run(e, ramps).stage == Stage::Release || (run(e, ramps).stage == Stage::Idle && run(
            e,
            ramps,
        ).level.at_most(ieee(ZERO))),
    decreases ramps.len(),
{
    if ramps.len() == 0 {
        assert(ramps.take(i) =~= ramps);
    } else {
        let before = ramps.drop_last();
        lemma_falls_before(e, ramps, false);
        if i == ramps.len() {
            a_release_never_rises(e, before, 0);
            assert(ramps.take(i) =~= ramps);
        } else {
            a_release_never_rises(e, before, i);
            assert(before.take(i) =~= ramps.take(i));
        }
    }
}

/// A release comes to an end: where every slope leads down by more than nothing,
/// the envelope is at rest, with a level of zero, once as many samples have
/// passed as there are numbers from zero to the level at which it was let go.
pub proof fn a_release_comes_to_rest(e: Adsr, ramps: Seq<Ieee32>)
    requires
        e.stage == Stage::Release,
        ieee(ZERO).at_most(e.level),
        falls(e, ramps, true),
        ramps.len() >= 1,
        ramps.len() >= e.level.rank(),
    ensures
        run(e, ramps).stage == Stage::Idle,
        run(e, ramps).level == ieee(ZERO),
{
    lemma_release_sinks(e, ramps);
}

proof fn lemma_release_sinks(e: Adsr, ramps: Seq<Ieee32>)
    requires
        e.stage == Stage::Release,
        ieee(ZERO).at_most(e.level),
        falls(e, ramps, true),
    ensures
        ({
            let r = run(e, ramps);
            if r.stage == Stage::Idle {
                r.level == ieee(ZERO)
            } else {
                &&& r.stage == Stage::Release
                &&& ieee(ZERO).at_most(r.level)
                &&& r.level.rank() <= e.level.rank() - ramps.len()
                &&& ramps.len() > 0 ==> r.level.rank() > 0
            }
        }),
    decreases ramps.len(),
{
    if ramps.len() > 0 {
        lemma_falls_before(e, ramps, true);
        lemma_release_sinks(e, ramps.drop_last());
    }
}

/// A release ends in silence and rest, and an idle envelope stays idle until it
/// is triggered.
pub proof fn rest_is_silent(e: Adsr, ramped: Ieee32)
    requires
        e.stage == Stage::Release,
        advanced(e, ramped).stage == Stage::Idle,
    ensures
        advanced(e, ramped).level == ieee(ZERO),
        forall|later: Ieee32| #[trigger]
            advanced(advanced(e, ramped), later) == advanced(e, ramped),
{
}

/// Two envelopes are set to the same, wherever they are.
pub open spec fn set_alike(a: Adsr, b: Adsr) -> bool {
    &&& a.attack_secs == b.attack_secs
    &&& a.decay_secs == b.decay_secs
    &&& a.sustain == b.sustain
    &&& a.release_secs == b.release_secs
}

/// A segment runs until it reaches its end: the attack 1.0, the decay the sustain level,
/// the release 0.0. There the level stops and the next segment begins; before, the level
/// is where the slope leads. Sustain and rest hold.
pub proof fn a_segment_ends_where_it_leads(e: Adsr, ramped: Ieee32)
    requires
        !ramped.nan(),
        !e.sustain.nan(),
    ensures
        ({
            let r = advanced(e, ramped);
            &&& e.stage == Stage::Idle ==> r == e
            &&& e.stage == Stage::Attack && ramped.rank() < 0x3f80_0000 ==> r.stage == Stage::Attack
                && r.level == ramped
            &&& e.stage == Stage::Attack && ramped.rank() >= 0x3f80_0000 ==> r.stage == Stage::Decay
                && r.level.bits == 0x3f80_0000
            &&& e.stage == Stage::Decay && ramped.rank() > e.sustain.rank() ==> r.stage
                == Stage::Decay && r.level == ramped
            &&& e.stage == Stage::Decay && ramped.rank() <= e.sustain.rank() ==> r.stage
                == Stage::Sustain && r.level == e.sustain
            &&& e.stage == Stage::Sustain ==> r.stage == Stage::Sustain && r.level == e.sustain
            &&& e.stage == Stage::Release && ramped.rank() > 0 ==> r.stage == Stage::Release
                && r.level == ramped
            &&& e.stage == Stage::Release && ramped.rank() <= 0 ==> r.stage == Stage::Idle
                && r.level.bits == 0
            &&& r.release_start == e.release_start
            &&& set_alike(r, e)
        }),
{
}

/// Striking a note starts the attack from where the level is; letting it go remembers that
/// level and starts the release, unless the envelope rests; a reset is silence. None of
/// them changes what the envelope is set to.
pub proof fn notes_start_and_end_where_the_level_is(e: Adsr)
    ensures
        triggered(e).stage == Stage::Attack && triggered(e).level == e.level,
        triggered(e).release_start == e.release_start,
        e.stage != Stage::Idle ==> released(e).stage == Stage::Release && released(e).level
            == e.level && released(e).release_start == e.level,
        e.stage == Stage::Idle ==> released(e) == e,
        rested(e).stage == Stage::Idle && rested(e).level.bits == 0,
        rested(e).release_start == e.release_start,
        set_alike(triggered(e), e) && set_alike(released(e), e) && set_alike(rested(e), e),
{
}

} // verus!

//! The step pattern: twelve lanes of sixty-four steps, and what a step holds.

use crate::ieee::Ieee32;
use vstd::prelude::*;

verus! {

/// Lanes in a pattern.
pub const MAX_TRACKS: usize = 12;

/// Steps in a lane.
pub const MAX_STEPS: usize = 64;

/// When a step may sound, beyond being on.
#[derive(Clone, Copy, Debug, PartialEq, Eq, Structural)]
pub enum TrigCondition {
    /// On pass `a` of every `b`.
    Ratio { a: u8, b: u8 },
    /// A condition without parameters, by its code.
    Plain { code: u8 },
}

/// A parameter lock: a parameter and the value this step forces on it.
#[derive(Clone, Copy, Debug, PartialEq, Eq, Structural)]
pub struct PLock {
    pub param: u16,
    pub value: Ieee32,
}

/// One step of a lane.
#[derive(Debug)]
pub struct Step {
    pub on: bool,
    pub velocity: u8,
    pub accent: bool,
    /// Chance of sounding, in percent; 100 is certain.
    pub probability: u8,
    /// How many hits the step is split into.
    pub ratchet: u8,
    pub ratchet_ramp: i8,
    /// Nudge off the grid, in 384ths of a beat.
    pub micro: i16,
    pub condition: TrigCondition,
    pub plocks: Vec<PLock>,
}

/// One lane.
#[derive(Debug)]
pub struct Track {
    pub muted: bool,
    pub length: u8,
    /// Swing of this lane, or negative to follow the pattern.
    pub swing: i8,
    pub level: u8,
    pub steps: Vec<Step>,
}

/// A pattern.
#[derive(Debug)]
pub struct Pattern {
    pub length: u8,
    pub swing: u8,
    pub humanize: u8,
    pub groove_amount: u8,
    /// The seed every random choice of the pattern is drawn from.
    pub seed: u32,
    pub tracks: Vec<Track>,
}

impl Pattern {
    /// Twelve lanes, each of sixty-four steps.
    pub open spec fn well_formed(self) -> bool {
        &&& self.tracks@.len() == MAX_TRACKS
        &&& forall|t: int|
            0 <= t < MAX_TRACKS ==> (#[trigger] self.tracks@[t]).steps@.len() == MAX_STEPS
    }

    /// The step at `(t, s)`.
    pub open spec fn step(self, t: int, s: int) -> Step {
        self.tracks@[t].steps@[s]
    }
}

/// A length field as a number of steps that can be played.
pub open spec fn playable(length: u8) -> int {
    if length == 0 {
        1
    } else if length > MAX_STEPS {
        MAX_STEPS as int
    } else {
        length as int
    }
}

/// A length field as a number of steps that can be played: at least one, at
/// most a full lane.
pub fn playable_steps(length: u8) -> (r: usize)
    ensures
        r == playable(length),
        1 <= r <= MAX_STEPS,
{
    if length == 0 {
        1
    } else if length as usize > MAX_STEPS {
        MAX_STEPS
    } else {
        length as usize
    }
}

/// A lane plays as many steps as its length says, from one to sixty-four.
pub proof fn a_length_is_played_as_it_is(length: u8)
    ensures
        1 <= length <= 64 ==> playable(length) == length,
        length == 0 ==> playable(length) == 1,
        length > 64 ==> playable(length) == 64,
{
}

} // verus!

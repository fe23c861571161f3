//! The modulation matrix: sixteen cables, each from a source to a destination
//! with a depth.

use crate::ieee::{ieee, percent, settles, Ieee32, MINUS_ONE, ONE, ZERO};
use vstd::prelude::*;

verus! {

/// Sources there are.
pub const N_SOURCES: usize = 18;

/// Destinations there are.
pub const N_DESTS: usize = 15;

/// Cables there are.
pub const N_SLOTS: usize = 16;

/// Something that moves.
#[derive(Clone, Copy, Debug, PartialEq, Eq, Structural)]
pub enum ModSource {
    /// Always zero: a cable that is not plugged in.
    Off,
    /// The first LFO, in `-1 ..= 1`.
    Lfo1,
    /// The second LFO, in `-1 ..= 1`.
    Lfo2,
    /// The modulation envelope, in `0 ..= 1`.
    ModEnv,
    /// The filter envelope, in `0 ..= 1`.
    FilterEnv,
    /// The amplitude envelope, in `0 ..= 1`.
    AmpEnv,
    /// How hard the note was struck, in `0 ..= 1`.
    Velocity,
    /// The modulation wheel, in `0 ..= 1`.
    ModWheel,
    /// How far the note is from middle C, in `-1 ..= 1`.
    KeyTrack,
    /// One draw per note, in `0 ..= 1`.
    Random,
    /// Macro knob 1, in `0 ..= 1`.
    Macro1,
    /// Macro knob 2, in `0 ..= 1`.
    Macro2,
    /// Macro knob 3, in `0 ..= 1`.
    Macro3,
    /// Macro knob 4, in `0 ..= 1`.
    Macro4,
    /// Macro knob 5, in `0 ..= 1`.
    Macro5,
    /// Macro knob 6, in `0 ..= 1`.
    Macro6,
    /// Macro knob 7, in `0 ..= 1`.
    Macro7,
    /// Macro knob 8, in `0 ..= 1`.
    Macro8,
}

impl ModSource {
    /// The place of this source among all.
    pub open spec fn place(self) -> int {
        match self {
            ModSource::Off => 0,
            ModSource::Lfo1 => 1,
            ModSource::Lfo2 => 2,
            ModSource::ModEnv => 3,
            ModSource::FilterEnv => 4,
            ModSource::AmpEnv => 5,
            ModSource::Velocity => 6,
            ModSource::ModWheel => 7,
            ModSource::KeyTrack => 8,
            ModSource::Random => 9,
            ModSource::Macro1 => 10,
            ModSource::Macro2 => 11,
            ModSource::Macro3 => 12,
            ModSource::Macro4 => 13,
            ModSource::Macro5 => 14,
            ModSource::Macro6 => 15,
            ModSource::Macro7 => 16,
            ModSource::Macro8 => 17,
        }
    }

    /// The place of this source among all.
    pub fn index(self) -> (r: usize)
        ensures
            r == self.place(),
            r < N_SOURCES,
    {
        match self {
            ModSource::Off => 0,
            ModSource::Lfo1 => 1,
            ModSource::Lfo2 => 2,
            ModSource::ModEnv => 3,
            ModSource::FilterEnv => 4,
            ModSource::AmpEnv => 5,
            ModSource::Velocity => 6,
            ModSource::ModWheel => 7,
            ModSource::KeyTrack => 8,
            ModSource::Random => 9,
            ModSource::Macro1 => 10,
            ModSource::Macro2 => 11,
            ModSource::Macro3 => 12,
            ModSource::Macro4 => 13,
            ModSource::Macro5 => 14,
            ModSource::Macro6 => 15,
            ModSource::Macro7 => 16,
            ModSource::Macro8 => 17,
        }
    }

    /// The source at a place; `Off` where there is none.
    pub fn from_index(i: usize) -> (r: Self)
        ensures
            i < N_SOURCES ==> r.place() == i,
            i >= N_SOURCES ==> r == ModSource::Off,
    {
        match i {
            1 => ModSource::Lfo1,
            2 => ModSource::Lfo2,
            3 => ModSource::ModEnv,
            4 => ModSource::FilterEnv,
            5 => ModSource::AmpEnv,
            6 => ModSource::Velocity,
            7 => ModSource::ModWheel,
            8 => ModSource::KeyTrack,
            9 => ModSource::Random,
            10 => ModSource::Macro1,
            11 => ModSource::Macro2,
            12 => ModSource::Macro3,
            13 => ModSource::Macro4,
            14 => ModSource::Macro5,
            15 => ModSource::Macro6,
            16 => ModSource::Macro7,
            17 => ModSource::Macro8,
            _ => ModSource::Off,
        }
    }
}

/// Something that can be moved.
#[derive(Clone, Copy, Debug, PartialEq, Eq, Structural)]
pub enum ModDest {
    /// Nowhere.
    Off,
    /// Pitch, up to 24 semitones either way.
    Pitch,
    /// Pulse width, up to 0.45 either way.
    OscPW,
    /// Filter cutoff, up to 5 octaves either way.
    Cutoff,
    /// Filter resonance.
    Resonance,
    /// Amplifier gain.
    Amp,
    /// Stereo position.
    Pan,
    /// Rate of the first LFO, up to 4 octaves either way.
    Lfo1Rate,
    /// Rate of the second LFO, up to 4 octaves either way.
    Lfo2Rate,
    /// Reverb send, on the bus.
    ReverbSend,
    /// Drive, on the bus.
    DriveAmount,
    /// Pitch drift.
    Drift,
    /// Unison width, decided when a note is allocated.
    UnisonWidth,
    /// Glide time.
    Glide,
    /// Level of the sub oscillator.
    SubLevel,
}

impl ModDest {
    /// The place of this destination among all.
    pub open spec fn place(self) -> int {
        match self {
            ModDest::Off => 0,
            ModDest::Pitch => 1,
            ModDest::OscPW => 2,
            ModDest::Cutoff => 3,
            ModDest::Resonance => 4,
            ModDest::Amp => 5,
            ModDest::Pan => 6,
            ModDest::Lfo1Rate => 7,
            ModDest::Lfo2Rate => 8,
            ModDest::ReverbSend => 9,
            ModDest::DriveAmount => 10,
            ModDest::Drift => 11,
            ModDest::UnisonWidth => 12,
            ModDest::Glide => 13,
            ModDest::SubLevel => 14,
        }
    }

    /// The place of this destination among all.
    pub fn index(self) -> (r: usize)
        ensures
            r == self.place(),
            r < N_DESTS,
    {
        match self {
            ModDest::Off => 0,
            ModDest::Pitch => 1,
            ModDest::OscPW => 2,
            ModDest::Cutoff => 3,
            ModDest::Resonance => 4,
            ModDest::Amp => 5,
            ModDest::Pan => 6,
            ModDest::Lfo1Rate => 7,
            ModDest::Lfo2Rate => 8,
            ModDest::ReverbSend => 9,
            ModDest::DriveAmount => 10,
            ModDest::Drift => 11,
            ModDest::UnisonWidth => 12,
            ModDest::Glide => 13,
            ModDest::SubLevel => 14,
        }
    }

    /// The destination at a place; `Off` where there is none.
    pub fn from_index(i: usize) -> (r: Self)
        ensures
            i < N_DESTS ==> r.place() == i,
            i >= N_DESTS ==> r == ModDest::Off,
    {
        match i {
            1 => ModDest::Pitch,
            2 => ModDest::OscPW,
            3 => ModDest::Cutoff,
            4 => ModDest::Resonance,
            5 => ModDest::Amp,
            6 => ModDest::Pan,
            7 => ModDest::Lfo1Rate,
            8 => ModDest::Lfo2Rate,
            9 => ModDest::ReverbSend,
            10 => ModDest::DriveAmount,
            11 => ModDest::Drift,
            12 => ModDest::UnisonWidth,
            13 => ModDest::Glide,
            14 => ModDest::SubLevel,
            _ => ModDest::Off,
        }
    }

    /// Whether the destination is on the bus, and not in a voice.
    pub fn is_global(self) -> (r: bool)
        ensures
            r == (self == ModDest::ReverbSend || self == ModDest::DriveAmount),
    {
        match self {
            ModDest::ReverbSend | ModDest::DriveAmount => true,
            _ => false,
        }
    }

    /// Whether the destination is decided when a note is allocated.
    pub fn is_voicing(self) -> (r: bool)
        ensures
            r == (self == ModDest::UnisonWidth),
    {
        match self {
            ModDest::UnisonWidth => true,
            _ => false,
        }
    }

    /// How far full depth reaches, in the destination's own unit.
    pub open spec fn reach(self) -> Ieee32 {
        match self {
            ModDest::Off => ieee(ZERO),
            ModDest::Pitch => ieee(0x41c0_0000),
            ModDest::OscPW => percent(45),
            ModDest::Cutoff => ieee(0x40a0_0000),
            ModDest::Lfo1Rate => ieee(0x4080_0000),
            ModDest::Lfo2Rate => ieee(0x4080_0000),
            _ => ieee(ONE),
        }
    }

    /// How far full depth reaches, in the destination's own unit.
    pub fn scale(self) -> (r: Ieee32)
        ensures
            r == self.reach(),
    {
        match self {
            ModDest::Off => ieee(ZERO),
            ModDest::Pitch => ieee(0x41c0_0000),
            ModDest::OscPW => percent(45),
            ModDest::Cutoff => ieee(0x40a0_0000),
            ModDest::Lfo1Rate => ieee(0x4080_0000),
            ModDest::Lfo2Rate => ieee(0x4080_0000),
            _ => ieee(ONE),
        }
    }
}

/// A cable.
#[derive(Clone, Copy, Debug, PartialEq, Eq, Structural)]
pub struct ModSlot {
    pub src: ModSource,
    pub dst: ModDest,
    /// How much, in `-1.0 ..= 1.0`.
    pub depth: Ieee32,
}

impl ModSlot {
    /// Whether both ends are plugged in.
    pub open spec fn active(self) -> bool {
        self.src != ModSource::Off && self.dst != ModDest::Off
    }

    /// A cable with both ends loose.
    pub open spec fn loose() -> ModSlot {
        ModSlot { src: ModSource::Off, dst: ModDest::Off, depth: ieee(ZERO) }
    }
}

/// A cable as it is plugged: its ends as they are, its depth in `-1.0 ..= 1.0`.
pub open spec fn plugged(src: ModSource, dst: ModDest, depth: Ieee32) -> ModSlot {
    ModSlot { src, dst, depth: depth.clamped(ieee(MINUS_ONE), ieee(ONE)) }
}

impl Default for ModSlot {
    fn default() -> (r: Self)
        ensures
            r == ModSlot::loose(),
    {
        ModSlot { src: ModSource::Off, dst: ModDest::Off, depth: ieee(ZERO) }
    }
}

/// A cable that is plugged in, with its ends as places.
#[derive(Clone, Copy, Debug, PartialEq, Eq, Structural)]
pub struct Route {
    pub src: usize,
    pub dst: usize,
    pub depth: Ieee32,
}

/// The routes of the first `n` cables, in order.
pub open spec fn routes_of(slots: Seq<ModSlot>, n: int) -> Seq<(int, int, Ieee32)>
    decreases n,
{
    if n <= 0 {
        Seq::empty()
    } else if slots[n - 1].active() {
        routes_of(slots, n - 1).push(
            (slots[n - 1].src.place(), slots[n - 1].dst.place(), slots[n - 1].depth),
        )
    } else {
        routes_of(slots, n - 1)
    }
}

pub open spec fn route_views(routes: Seq<Route>) -> Seq<(int, int, Ieee32)> {
    Seq::new(routes.len(), |i: int| (routes[i].src as int, routes[i].dst as int, routes[i].depth))
}

/// Sixteen cables.
#[derive(Clone, Copy, Debug)]
pub struct ModMatrix {
    pub slots: [ModSlot; 16],
}

impl Default for ModMatrix {
    fn default() -> (r: Self)
        ensures
            forall|i: int| 0 <= i < N_SLOTS ==> #[trigger] r.slots@[i] == ModSlot::loose(),
    {
        let loose = ModSlot { src: ModSource::Off, dst: ModDest::Off, depth: ieee(ZERO) };
        ModMatrix { slots: [loose; 16] }
    }
}

impl ModMatrix {
    pub fn new() -> (r: Self)
        ensures
            forall|i: int| 0 <= i < N_SLOTS ==> #[trigger] r.slots@[i] == ModSlot::loose(),
    {
        let loose = ModSlot { src: ModSource::Off, dst: ModDest::Off, depth: ieee(ZERO) };
        ModMatrix { slots: [loose; 16] }
    }

    /// Plug cable `i`; a cable that does not exist is ignored.
    pub fn set_slot(&mut self, i: usize, src: ModSource, dst: ModDest, depth: Ieee32)
        ensures
            final(self).slots@ == if i < N_SLOTS {
                old(self).slots@.update(i as int, plugged(src, dst, depth))
            } else {
                old(self).slots@
            },
    {
        if i < N_SLOTS {
            self.slots[i] = ModSlot { src, dst, depth: depth.clamp(ieee(MINUS_ONE), ieee(ONE)) };
        }
    }

    /// What to add up for the destinations: for each cable that is plugged in,
    /// in order, which source goes where and with what depth.
    pub fn routes(&self) -> (r: Vec<Route>)
        ensures
            route_views(r@) == routes_of(self.slots@, N_SLOTS as int),
            forall|i: int| 0 <= i < r@.len() ==> 0 < (#[trigger] r@[i]).src < N_SOURCES,
            forall|i: int| 0 <= i < r@.len() ==> 0 < (#[trigger] r@[i]).dst < N_DESTS,
    {
        let mut r: Vec<Route> = Vec::new();
        let mut i: usize = 0;
        assert(route_views(r@) =~= routes_of(self.slots@, 0));
        while i < N_SLOTS
            invariant
                i <= N_SLOTS,
                route_views(r@) == routes_of(self.slots@, i as int),
                forall|i: int| 0 <= i < r@.len() ==> 0 < (#[trigger] r@[i]).src < N_SOURCES,
                forall|i: int| 0 <= i < r@.len() ==> 0 < (#[trigger] r@[i]).dst < N_DESTS,
            decreases N_SLOTS - i,
        {
            let slot = self.slots[i];
            let ghost before = r@;
            if slot.src != ModSource::Off && slot.dst != ModDest::Off {
                r.push(Route { src: slot.src.index(), dst: slot.dst.index(), depth: slot.depth });
                assert(route_views(r@) =~= route_views(before).push(
                    (slot.src.place(), slot.dst.place(), slot.depth),
                ));
            }
            i = i + 1;
        }
        r
    }

    /// Whether any cable is plugged in.
    pub fn any_active(&self) -> (r: bool)
        ensures
            r == exists|i: int| 0 <= i < N_SLOTS && (#[trigger] self.slots@[i]).active(),
    {
        let mut i: usize = 0;
        while i < N_SLOTS
            invariant
                i <= N_SLOTS,
                forall|j: int| 0 <= j < i ==> !(#[trigger] self.slots@[j]).active(),
            decreases N_SLOTS - i,
        {
            let slot = self.slots[i];
            if slot.src != ModSource::Off && slot.dst != ModDest::Off {
                assert(self.slots@[i as int].active());
                return true;
            }
            i = i + 1;
        }
        false
    }
}

/// A source is told by its place.
pub proof fn source_places_differ(a: ModSource, b: ModSource)
    requires
        a.place() == b.place(),
    ensures
        a == b,
{
}

/// A destination is told by its place.
pub proof fn dest_places_differ(a: ModDest, b: ModDest)
    requires
        a.place() == b.place(),
    ensures
        a == b,
{
}

/// A matrix without a plugged cable has nothing to add up.
pub proof fn loose_cables_move_nothing(slots: Seq<ModSlot>, n: int)
    requires
        0 <= n <= slots.len(),
        forall|i: int| 0 <= i < n ==> !(#[trigger] slots[i]).active(),
    ensures
        routes_of(slots, n).len() == 0,
    decreases n,
{
    if n > 0 {
        loose_cables_move_nothing(slots, n - 1);
    }
}

/// The sources stand in their places: nothing, the LFOs, the envelopes, what comes with a
/// note, and the eight macros behind them.
pub proof fn sources_stand_in_their_places()
    ensures
        ModSource::Off.place() == 0,
        ModSource::Lfo1.place() == 1 && ModSource::Lfo2.place() == 2,
        ModSource::ModEnv.place() == 3 && ModSource::FilterEnv.place() == 4,
        ModSource::AmpEnv.place() == 5 && ModSource::Velocity.place() == 6,
        ModSource::ModWheel.place() == 7 && ModSource::KeyTrack.place() == 8,
        ModSource::Random.place() == 9 && ModSource::Macro1.place() == 10,
        ModSource::Macro2.place() == 11 && ModSource::Macro3.place() == 12,
        ModSource::Macro4.place() == 13 && ModSource::Macro5.place() == 14,
        ModSource::Macro6.place() == 15 && ModSource::Macro7.place() == 16,
        ModSource::Macro8.place() == 17,
{
}

/// The destinations stand in their places.
pub proof fn destinations_stand_in_their_places()
    ensures
        ModDest::Off.place() == 0 && ModDest::Pitch.place() == 1,
        ModDest::OscPW.place() == 2 && ModDest::Cutoff.place() == 3,
        ModDest::Resonance.place() == 4 && ModDest::Amp.place() == 5,
        ModDest::Pan.place() == 6 && ModDest::Lfo1Rate.place() == 7,
        ModDest::Lfo2Rate.place() == 8 && ModDest::ReverbSend.place() == 9,
        ModDest::DriveAmount.place() == 10 && ModDest::Drift.place() == 11,
        ModDest::UnisonWidth.place() == 12 && ModDest::Glide.place() == 13,
        ModDest::SubLevel.place() == 14,
{
}

/// Full depth reaches 24.0 in pitch, 5.0 in cutoff, 4.0 in either rate, 0.45 in pulse
/// width, nothing where a cable leads nowhere, and 1.0 everywhere else.
pub proof fn full_depth_has_its_reach(d: ModDest)
    ensures
        d.reach().bits == if d.place() == 0 {
            0
        } else if d.place() == 1 {
            0x41c0_0000
        } else if d.place() == 2 {
            0x3ee6_6666
        } else if d.place() == 3 {
            0x40a0_0000
        } else if d.place() == 7 || d.place() == 8 {
            0x4080_0000
        } else {
            0x3f80_0000u32
        },
{
}

/// A cable is plugged with the ends it was given, and with its depth where that is from
/// -1.0 to 1.0; it counts only where neither end is nothing.
pub proof fn a_cable_is_plugged_as_given(src: ModSource, dst: ModDest, depth: Ieee32)
    requires
        depth.finite(),
    ensures
        plugged(src, dst, depth).src == src,
        plugged(src, dst, depth).dst == dst,
        settles(plugged(src, dst, depth).depth, depth, -0x3f80_0000, 0x3f80_0000, 0),
        plugged(src, dst, depth).active() <==> src.place() > 0 && dst.place() > 0,
        !ModSlot::loose().active(),
        ModSlot::loose().depth.bits == 0,
{
}

/// Every cable that is plugged in at both ends has its route, with its own ends and depth,
/// and no other has; routes come in the order of the cables.
pub proof fn every_plugged_cable_has_its_route(slots: Seq<ModSlot>, n: int, k: int) -> (at: int)
    requires
        0 <= n <= slots.len(),
        0 <= k < n,
    ensures
        routes_of(slots, n).len() <= n,
        slots[k].src != ModSource::Off && slots[k].dst != ModDest::Off ==> {
            &&& 0 <= at < routes_of(slots, n).len()
            &&& at <= k
            &&& routes_of(slots, n)[at] == (
                slots[k].src.place(),
                slots[k].dst.place(),
                slots[k].depth,
            )
            &&& at == routes_of(slots, k).len()
        },
        slots[k].src == ModSource::Off || slots[k].dst == ModDest::Off ==> routes_of(slots, k + 1)
            == routes_of(slots, k),
    decreases n,
{
    lemma_routes_bound(slots, n);
    lemma_routes_bound(slots, k);
    let at = routes_of(slots, k).len() as int;
    if k < n - 1 {
        let _ = every_plugged_cable_has_its_route(slots, n - 1, k);
    }
    at
}

proof fn lemma_routes_bound(slots: Seq<ModSlot>, n: int)
    requires
        0 <= n <= slots.len(),
    ensures
        routes_of(slots, n).len() <= n,
    decreases n,
{
    if n > 0 {
        lemma_routes_bound(slots, n - 1);
    }
}

} // verus!

//! The state of the machine that a project saves.

use crate::ieee::{ieee, Ieee32, HALF, MINUS_ONE, ONE, TWO, ZERO};
use crate::kits::DEFAULT_MACRO_LABELS;
use vstd::prelude::*;

verus! {

/// Parameters of a voice that a patch stores.
pub const N_TAIL_PARAMS: usize = 5;

/// Slots of the modulation matrix.
pub const N_MOD_SLOTS: usize = 16;

/// Sources that a route can come from, with none at index 0.
pub const N_DRUM_SOURCES: usize = 21;

/// Destinations that a route can lead to, with none at index 0.
pub const N_DRUM_DESTS: usize = 13;

/// Macro knobs.
pub const N_MACROS: usize = 8;

/// The sound of every voice: per lane level, pan, cutoff, resonance and drive.
#[derive(Clone, Copy, Debug, PartialEq, Eq)]
pub struct VoicePatch {
    pub tracks: [[Ieee32; 5]; 12],
}

/// The configuration of an LFO.
#[derive(Clone, Copy, Debug, PartialEq, Eq, Structural)]
pub struct LfoCfg {
    pub shape: u8,
    pub rate_hz: Ieee32,
    pub depth: Ieee32,
    pub retrig: bool,
}

/// A route of the modulation matrix: source and destination by index, and the
/// lane it is for, or 255 for all.
#[derive(Clone, Copy, Debug, PartialEq, Eq, Structural)]
pub struct DrumModSlot {
    pub src: u16,
    pub dst: u16,
    pub depth: Ieee32,
    pub target_voice: u8,
}

/// An index below `n`, or 0, which is nothing, where there is no such place.
pub open spec fn known(index: int, n: int) -> int {
    if index < n {
        index
    } else {
        0
    }
}

/// The route that is stored for one asked for: a source or a destination that
/// does not exist is none, and the depth lies in `-1.0 ..= 1.0`.
pub open spec fn route(src: int, dst: int, depth: Ieee32, voice: u8) -> DrumModSlot {
    DrumModSlot {
        src: known(src, N_DRUM_SOURCES as int) as u16,
        dst: known(dst, N_DRUM_DESTS as int) as u16,
        depth: depth.clamped(ieee(MINUS_ONE), ieee(ONE)),
        target_voice: voice,
    }
}

impl DrumModSlot {
    /// The route that is stored for one asked for.
    pub fn of(src: u16, dst: u16, depth: Ieee32, voice: u8) -> (r: Self)
        ensures
            r == route(src as int, dst as int, depth, voice),
    {
        DrumModSlot {
            src: if (src as usize) < N_DRUM_SOURCES {
                src
            } else {
                0
            },
            dst: if (dst as usize) < N_DRUM_DESTS {
                dst
            } else {
                0
            },
            depth: depth.clamp(ieee(MINUS_ONE), ieee(ONE)),
            target_voice: voice,
        }
    }
}

/// Everything that modulates.
#[derive(Clone, Copy, Debug, PartialEq, Eq)]
pub struct ModState {
    pub slots: [DrumModSlot; 16],
    pub lfo1: LfoCfg,
    pub lfo2: LfoCfg,
    pub env_attack: Ieee32,
    pub env_decay: Ieee32,
    pub macros: [Ieee32; 8],
}

/// The first LFO of a fresh machine: a sine at 2 Hz.
pub open spec fn fresh_lfo1() -> LfoCfg {
    LfoCfg { shape: 0, rate_hz: ieee(TWO), depth: ieee(ONE), retrig: false }
}

/// The second LFO of a fresh machine: a triangle at 5 Hz.
pub open spec fn fresh_lfo2() -> LfoCfg {
    LfoCfg { shape: 1, rate_hz: ieee(0x40a0_0000), depth: ieee(ONE), retrig: false }
}

/// The modulation of a fresh machine: the idle routes, the two LFOs, a short
/// attack (5 ms), a decay of half a second, and every macro at zero.
pub open spec fn is_fresh_mod(m: ModState, idle: [DrumModSlot; 16]) -> bool {
    &&& m.slots == idle
    &&& m.lfo1 == fresh_lfo1()
    &&& m.lfo2 == fresh_lfo2()
    &&& m.env_attack == ieee(0x3ba3_d70a)
    &&& m.env_decay == ieee(HALF)
    &&& forall|i: int| 0 <= i < N_MACROS ==> #[trigger] m.macros@[i] == ieee(ZERO)
}

impl ModState {
    /// The modulation of a fresh machine, whose routes are `idle`.
    pub fn fresh(idle: [DrumModSlot; 16]) -> (r: ModState)
        ensures
            is_fresh_mod(r, idle),
    {
        ModState {
            slots: idle,
            lfo1: LfoCfg { shape: 0, rate_hz: ieee(TWO), depth: ieee(ONE), retrig: false },
            lfo2: LfoCfg { shape: 1, rate_hz: ieee(0x40a0_0000), depth: ieee(ONE), retrig: false },
            env_attack: ieee(0x3ba3_d70a),
            env_decay: ieee(HALF),
            macros: [
                ieee(ZERO),
                ieee(ZERO),
                ieee(ZERO),
                ieee(ZERO),
                ieee(ZERO),
                ieee(ZERO),
                ieee(ZERO),
                ieee(ZERO),
            ],
        }
    }
}

/// The pattern bank, and which pattern is selected.
#[derive(Debug)]
pub struct Bank<P> {
    pub patterns: Vec<P>,
    pub current: u8,
}

impl<P> Bank<P> {
    /// Whether the selection points into the bank.
    pub open spec fn selects(self) -> bool {
        self.current < self.patterns@.len()
    }
}

/// What a project saves. `P` is a pattern and `M` the channel strips of the
/// voices.
#[derive(Debug)]
pub struct PersistState<P, M> {
    pub seq: Bank<P>,
    pub seq_enabled: bool,
    pub voices: VoicePatch,
    pub mix: M,
    pub mod_state: ModState,
    pub macro_labels: Vec<String>,
    /// Controllers learned for macros: controller, macro.
    pub midi_cc: Vec<(u8, u8)>,
}

/// The texts of a list of labels.
pub open spec fn texts(labels: Seq<String>) -> Seq<Seq<char>> {
    Seq::new(labels.len(), |i: int| labels[i]@)
}

/// The texts of a kit's labels.
pub open spec fn label_texts(labels: [&'static str; 8]) -> Seq<Seq<char>> {
    Seq::new(8, |i: int| labels@[i]@)
}

/// Labels of their own.
pub fn own_labels(labels: &[&'static str; 8]) -> (r: Vec<String>)
    ensures
        texts(r@) == label_texts(*labels),
{
    let mut r: Vec<String> = Vec::new();
    let mut i: usize = 0;
    while i < N_MACROS
        invariant
            i <= N_MACROS,
            r@.len() == i,
            forall|j: int| 0 <= j < i ==> (#[trigger] r@[j])@ == labels@[j]@,
        decreases N_MACROS - i,
    {
        r.push(labels[i].to_owned());
        i = i + 1;
    }
    assert(texts(r@) =~= label_texts(*labels));
    r
}

/// The labels of a fresh machine.
pub fn default_macro_labels() -> (r: Vec<String>)
    ensures
        texts(r@) == label_texts(DEFAULT_MACRO_LABELS),
{
    own_labels(&DEFAULT_MACRO_LABELS)
}

/// A copy of labels.
pub fn copy_labels(labels: &Vec<String>) -> (r: Vec<String>)
    ensures
        texts(r@) == texts(labels@),
{
    let mut r: Vec<String> = Vec::new();
    let mut i: usize = 0;
    while i < labels.len()
        invariant
            i <= labels@.len(),
            r@.len() == i,
            forall|j: int| 0 <= j < i ==> (#[trigger] r@[j])@ == labels@[j]@,
        decreases labels@.len() - i,
    {
        r.push(labels[i].clone());
        i = i + 1;
    }
    assert(texts(r@) =~= texts(labels@));
    r
}

impl<P, M> PersistState<P, M> {
    /// The state of a fresh machine around the given bank, voices, strips and
    /// idle routes.
    pub fn fresh(seq: Bank<P>, voices: VoicePatch, mix: M, idle: [DrumModSlot; 16]) -> (r: Self)
        ensures
            r.seq == seq,
            r.seq_enabled,
            r.voices == voices,
            r.mix == mix,
            is_fresh_mod(r.mod_state, idle),
            texts(r.macro_labels@) == label_texts(DEFAULT_MACRO_LABELS),
            r.midi_cc@.len() == 0,
    {
        PersistState {
            seq,
            seq_enabled: true,
            voices,
            mix,
            mod_state: ModState::fresh(idle),
            macro_labels: default_macro_labels(),
            midi_cc: Vec::new(),
        }
    }
}

/// A route is stored as it was asked for where its source is one of the twenty-one and
/// its destination one of the thirteen; one that does not exist is stored as none. A
/// depth in `-1.0 ..= 1.0` is kept, one beyond goes to the end that it is beyond.
pub proof fn a_route_leads_where_it_was_asked_to(src: int, dst: int, depth: Ieee32, voice: u8)
    requires
        0 <= src <= 0xffff,
        0 <= dst <= 0xffff,
    ensures
        ({
            let r = route(src, dst, depth, voice);
            &&& src < 21 ==> r.src == src
            &&& src >= 21 ==> r.src == 0
            &&& dst < 13 ==> r.dst == dst
            &&& dst >= 13 ==> r.dst == 0
            &&& r.target_voice == voice
            &&& -0x3f80_0000 <= depth.rank() <= 0x3f80_0000 ==> r.depth == depth
            &&& !depth.nan() && depth.rank() > 0x3f80_0000 ==> r.depth.bits == 0x3f80_0000
            &&& !depth.nan() && depth.rank() < -0x3f80_0000 ==> r.depth.bits == 0xbf80_0000
        }),
{
}

/// A fresh machine: a sine at 2.0 and a triangle at 5.0, both at full depth and running
/// free, an envelope of 0.005 and 0.5, every macro at zero, and the idle routes.
pub proof fn a_fresh_machine_modulates_nothing(m: ModState, idle: [DrumModSlot; 16], i: int)
    requires
        is_fresh_mod(m, idle),
        0 <= i < 8,
    ensures
        m.slots == idle,
        m.lfo1.shape == 0 && m.lfo1.rate_hz.bits == 0x4000_0000,
        m.lfo1.depth.bits == 0x3f80_0000 && !m.lfo1.retrig,
        m.lfo2.shape == 1 && m.lfo2.rate_hz.bits == 0x40a0_0000,
        m.lfo2.depth.bits == 0x3f80_0000 && !m.lfo2.retrig,
        m.env_attack.bits == 0x3ba3_d70a,
        m.env_decay.bits == 0x3f00_0000,
        m.macros@[i].bits == 0,
{
}

/// Labels are handed on one for one: the same number of them, each with its text.
pub proof fn labels_are_handed_on_whole(a: Seq<String>, b: Seq<String>, i: int)
    requires
        texts(a) == texts(b),
    ensures
        a.len() == b.len(),
        0 <= i < a.len() ==> a[i]@ == b[i]@,
{
    assert(texts(a).len() == a.len() && texts(b).len() == b.len());
    if 0 <= i < a.len() {
        assert(texts(a)[i] == a[i]@ && texts(b)[i] == b[i]@);
    }
}

/// The labels of a kit are handed on one for one: eight of them, each with its text.
pub proof fn kit_labels_are_handed_on_whole(a: Seq<String>, labels: [&'static str; 8], i: int)
    requires
        texts(a) == label_texts(labels),
        0 <= i < 8,
    ensures
        a.len() == 8,
        a[i]@ == labels@[i]@,
{
    assert(texts(a).len() == a.len() && label_texts(labels).len() == 8);
    assert(texts(a)[i] == a[i]@ && label_texts(labels)[i] == labels@[i]@);
}

} // verus!

//! Kits: a kit recalls the whole machine. It lists only what it changes;
//! everything else goes back to its default.

use crate::ieee::Ieee32;
use crate::text::same_text;
use crate::worlds::{bladerunner, discotheque, is_bladerunner, is_discotheque, is_marseille, is_outrun, marseille, outrun};
use vstd::prelude::*;

verus! {

/// The macro labels of a kit that names none of its own.
pub const DEFAULT_MACRO_LABELS: [&'static str; 8] = [
    "Punch",
    "Swing Feel",
    "Filter Sweep",
    "Drive/Glue",
    "Decay",
    "Space",
    "Stereo Width",
    "Lo-Fi",
];

/// One parameter that a kit sets.
#[derive(Clone, Copy, Debug, PartialEq, Eq, Structural)]
pub enum KitRow {
    /// A voice parameter, normalized.
    Voice { track: u8, param: u8, norm: Ieee32 },
    /// A field of a voice's channel strip, normalized.
    Mix { track: u8, field: u8, norm: Ieee32 },
    /// A modulation slot; `voice` is a lane, or 255 for all.
    ModSlot { slot: u8, src: u8, dst: u8, depth: Ieee32, voice: u8 },
    /// The configuration of the first (`idx` 0) or the second LFO.
    Lfo { idx: u8, shape: u8, rate: Ieee32, depth: Ieee32, retrig: bool },
    /// Attack and decay of the modulation envelope, in seconds.
    ModEnv { attack: Ieee32, decay: Ieee32 },
    /// A bus effect parameter by its gesture id, normalized.
    Bus { id: u8, norm: Ieee32 },
    /// The sidechain key.
    Sidechain { on: bool },
}

/// The groove of a world.
#[derive(Clone, Copy, Debug, PartialEq, Eq, Structural)]
pub enum Groove {
    Discotheque,
    Marseille,
    Bladerunner,
    Outrun,
}

/// A kit, or, where it carries a groove, a world.
#[derive(Debug)]
pub struct Kit {
    pub id: &'static str,
    pub name: &'static str,
    pub blurb: &'static str,
    pub rows: Vec<KitRow>,
    pub macro_labels: [&'static str; 8],
    pub pattern: Option<Groove>,
}

/// The anchor: nothing set, no groove, the default labels.
pub open spec fn is_neutral(k: Kit) -> bool {
    &&& k.id@ == "neutral"@
    &&& k.name@ == "Neutral"@
    &&& k.blurb@ == "the bare machine"@
    &&& k.rows@.len() == 0
    &&& k.macro_labels == DEFAULT_MACRO_LABELS
    &&& k.pattern is None
}

/// The bare machine.
pub fn neutral() -> (k: Kit)
    ensures
        is_neutral(k),
{
    Kit {
        id: "neutral",
        name: "Neutral",
        blurb: "the bare machine",
        rows: Vec::new(),
        macro_labels: DEFAULT_MACRO_LABELS,
        pattern: None,
    }
}

/// The factory kits, in the order they are shown.
pub fn factory_kits() -> (r: Vec<Kit>)
    ensures
        is_factory(r@),
{
    let mut v: Vec<Kit> = Vec::new();
    v.push(neutral());
    v.push(discotheque());
    v.push(marseille());
    v.push(bladerunner());
    v.push(outrun());
    v
}

/// The factory kits: the anchor and four worlds.
pub open spec fn is_factory(kits: Seq<Kit>) -> bool {
    &&& kits.len() == 5
    &&& is_neutral(kits[0])
    &&& is_discotheque(kits[1])
    &&& is_marseille(kits[2])
    &&& is_bladerunner(kits[3])
    &&& is_outrun(kits[4])
}

/// The position of the first kit with the given id.
pub fn find_kit(kits: &Vec<Kit>, id: &str) -> (r: Option<usize>)
    ensures
        match r {
            Some(i) => i < kits@.len() && kits@[i as int].id@ == id@ && forall|j: int|
                0 <= j < i ==> (#[trigger] kits@[j]).id@ != id@,
            None => forall|j: int| 0 <= j < kits@.len() ==> (#[trigger] kits@[j]).id@ != id@,
        },
{
    let mut i: usize = 0;
    while i < kits.len()
        invariant
            i <= kits@.len(),
            forall|j: int| 0 <= j < i ==> (#[trigger] kits@[j]).id@ != id@,
        decreases kits@.len() - i,
    {
        if same_text(kits[i].id, id) {
            return Some(i);
        }
        i = i + 1;
    }
    None
}

/// The factory kits stand in order, each under its own id; the first has no groove, and
/// each of the others has its own.
pub proof fn factory_kits_stand_in_order(kits: Seq<Kit>)
    requires
        is_factory(kits),
    ensures
        kits.len() == 5,
        kits[0].id@ == "neutral"@ && kits[0].pattern is None && kits[0].rows@.len() == 0,
        kits[1].id@ == "discotheque"@ && kits[1].pattern == Some(Groove::Discotheque),
        kits[2].id@ == "marseille"@ && kits[2].pattern == Some(Groove::Marseille),
        kits[3].id@ == "bladerunner"@ && kits[3].pattern == Some(Groove::Bladerunner),
        kits[4].id@ == "outrun"@ && kits[4].pattern == Some(Groove::Outrun),
        kits[0].name@ == "Neutral"@,
        kits[1].name@ == "Discothèque"@,
        kits[2].name@ == "Marseille"@,
        kits[3].name@ == "Bladerunner"@,
        kits[4].name@ == "Outrun"@,
        kits[0].macro_labels@[0]@ == "Punch"@ && kits[0].macro_labels@[1]@ == "Swing Feel"@,
        kits[0].macro_labels@[2]@ == "Filter Sweep"@ && kits[0].macro_labels@[3]@ == "Drive/Glue"@,
        kits[0].macro_labels@[4]@ == "Decay"@ && kits[0].macro_labels@[5]@ == "Space"@,
        kits[0].macro_labels@[6]@ == "Stereo Width"@ && kits[0].macro_labels@[7]@ == "Lo-Fi"@,
{
}

} // verus!

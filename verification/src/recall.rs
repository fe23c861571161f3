//! Recalling a kit: the machine goes back to its defaults, then the kit's rows
//! are applied, and a world's groove replaces the selected pattern.

use crate::ieee::{ieee, Ieee32, ONE, ZERO};
use crate::kits::{is_factory, Kit, KitRow};
use crate::pattern::MAX_TRACKS;
use crate::state::{fresh_lfo1, fresh_lfo2, is_fresh_mod, label_texts, own_labels, route, texts, DrumModSlot, LfoCfg, ModState, PersistState, VoicePatch, N_DRUM_DESTS, N_DRUM_SOURCES, N_MACROS, N_MOD_SLOTS, N_TAIL_PARAMS};
use vstd::prelude::*;

verus! {

/// Bus parameters a kit can drive; id 0, the master gain, is never driven.
pub const N_BUS: usize = 10;

/// What a machine without any kit holds.
#[derive(Debug)]
pub struct Defaults<M> {
    pub voices: VoicePatch,
    pub mix: M,
    pub slots: [DrumModSlot; 16],
}

/// A change of one field of a channel strip, normalized.
#[derive(Clone, Copy, Debug, PartialEq, Eq, Structural)]
pub struct MixEdit {
    pub track: u8,
    pub field: u8,
    pub norm: Ieee32,
}

/// What a recalled kit drives beyond the saved state: the bus parameters by id,
/// the sidechain key, and the changes to the default channel strips, in order.
#[derive(Debug)]
pub struct StagedBus {
    pub bus: [Option<Ieee32>; 10],
    pub sidechain: Option<bool>,
    pub mix: Vec<MixEdit>,
}

/// A place that a row of a kit can set.
pub enum Place {
    Voice { track: int, param: int },
    Slot { slot: int },
    Lfo1,
    Lfo2,
    Env,
    Bus { id: int },
    Sidechain,
}

/// Whether a row sets a place.
pub open spec fn row_sets(row: KitRow, place: Place) -> bool {
    match (row, place) {
        (KitRow::Voice { track, param, .. }, Place::Voice { track: t, param: p }) => track == t
            && param == p,
        (KitRow::ModSlot { slot, .. }, Place::Slot { slot: i }) => slot == i,
        (KitRow::Lfo { idx, .. }, Place::Lfo1) => idx == 0,
        (KitRow::Lfo { idx, .. }, Place::Lfo2) => idx != 0,
        (KitRow::ModEnv { .. }, Place::Env) => true,
        (KitRow::Bus { id, .. }, Place::Bus { id: i }) => id == i,
        (KitRow::Sidechain { .. }, Place::Sidechain) => true,
        _ => false,
    }
}

/// The last of the first `n` rows that sets a place, or -1.
pub open spec fn last_row(rows: Seq<KitRow>, n: int, place: Place) -> int
    decreases n,
{
    if n <= 0 {
        -1
    } else if row_sets(rows[n - 1], place) {
        n - 1
    } else {
        last_row(rows, n - 1, place)
    }
}

/// The route a row describes.
pub open spec fn row_slot(row: KitRow) -> DrumModSlot {
    match row {
        KitRow::ModSlot { slot, src, dst, depth, voice } => route(
            src as int,
            dst as int,
            depth,
            voice,
        ),
        _ => arbitrary(),
    }
}

/// The LFO a row describes.
pub open spec fn row_lfo(row: KitRow) -> LfoCfg {
    match row {
        KitRow::Lfo { idx, shape, rate, depth, retrig } => LfoCfg {
            shape,
            rate_hz: rate,
            depth,
            retrig,
        },
        _ => arbitrary(),
    }
}

pub open spec fn row_env(row: KitRow) -> (Ieee32, Ieee32) {
    match row {
        KitRow::ModEnv { attack, decay } => (attack, decay),
        _ => arbitrary(),
    }
}

/// The bus value a row asks for, in `0.0 ..= 1.0`.
pub open spec fn row_bus(row: KitRow) -> Ieee32 {
    match row {
        KitRow::Bus { id, norm } => norm.clamped(ieee(ZERO), ieee(ONE)),
        _ => arbitrary(),
    }
}

pub open spec fn row_sidechain(row: KitRow) -> bool {
    match row {
        KitRow::Sidechain { on } => on,
        _ => arbitrary(),
    }
}

/// The channel-strip changes of the first `n` rows that name a lane, in order.
pub open spec fn mix_edits(rows: Seq<KitRow>, n: int) -> Seq<MixEdit>
    decreases n,
{
    if n <= 0 {
        Seq::empty()
    } else {
        match rows[n - 1] {
            KitRow::Mix { track, field, norm } if track < MAX_TRACKS => mix_edits(
                rows,
                n - 1,
            ).push(MixEdit { track, field, norm }),
            _ => mix_edits(rows, n - 1),
        }
    }
}

/// The voices after the first `n` rows: each parameter as the last row for it
/// says, in engine units, or at its default.
pub open spec fn voices_staged(
    v: VoicePatch,
    rows: Seq<KitRow>,
    n: int,
    engine: Seq<Ieee32>,
    voices: VoicePatch,
) -> bool {
    forall|t: int, p: int|
        0 <= t < MAX_TRACKS && 0 <= p < N_TAIL_PARAMS ==> (#[trigger] v.tracks@[t]@[p]) == ({
            let k = last_row(rows, n, Place::Voice { track: t, param: p });
            if k < 0 {
                voices.tracks@[t]@[p]
            } else {
                engine[k]
            }
        })
}

/// The modulation after the first `n` rows.
pub open spec fn mod_staged(
    m: ModState,
    rows: Seq<KitRow>,
    n: int,
    slots: [DrumModSlot; 16],
) -> bool {
    &&& forall|i: int|
        0 <= i < N_MOD_SLOTS ==> #[trigger] m.slots@[i] == ({
            let k = last_row(rows, n, Place::Slot { slot: i });
            if k < 0 {
                slots@[i]
            } else {
                row_slot(rows[k])
            }
        })
    &&& m.lfo1 == ({
        let k = last_row(rows, n, Place::Lfo1);
        if k < 0 {
            fresh_lfo1()
        } else {
            row_lfo(rows[k])
        }
    })
    &&& m.lfo2 == ({
        let k = last_row(rows, n, Place::Lfo2);
        if k < 0 {
            fresh_lfo2()
        } else {
            row_lfo(rows[k])
        }
    })
    &&& (m.env_attack, m.env_decay) == ({
        let k = last_row(rows, n, Place::Env);
        if k < 0 {
            (ieee(0x3ba3_d70a), ieee(0x3f00_0000))
        } else {
            row_env(rows[k])
        }
    })
    &&& forall|i: int| 0 <= i < N_MACROS ==> #[trigger] m.macros@[i] == ieee(ZERO)
}

/// What is driven after the first `n` rows.
pub open spec fn bus_staged(b: StagedBus, rows: Seq<KitRow>, n: int) -> bool {
    &&& forall|i: int|
        0 <= i < N_BUS ==> #[trigger] b.bus@[i] == ({
            let k = last_row(rows, n, Place::Bus { id: i });
            if k < 0 {
                None
            } else {
                Some(row_bus(rows[k]))
            }
        })
    &&& b.sidechain == ({
        let k = last_row(rows, n, Place::Sidechain);
        if k < 0 {
            None
        } else {
            Some(row_sidechain(rows[k]))
        }
    })
    &&& b.mix@ == mix_edits(rows, n)
}

/// `r` and `staged` are what a recall of `kit` makes of the state `before`.
pub open spec fn is_recall<P, M>(
    r: PersistState<P, M>,
    staged: StagedBus,
    before: PersistState<P, M>,
    kit: Kit,
    defaults: Defaults<M>,
    engine: Seq<Ieee32>,
    groove: Option<P>,
) -> bool {
    let n = kit.rows@.len() as int;
    &&& voices_staged(r.voices, kit.rows@, n, engine, defaults.voices)
    &&& r.mix == defaults.mix
    &&& mod_staged(r.mod_state, kit.rows@, n, defaults.slots)
    &&& bus_staged(staged, kit.rows@, n)
    &&& texts(r.macro_labels@) == label_texts(kit.macro_labels)
    &&& r.seq_enabled == before.seq_enabled
    &&& r.midi_cc == before.midi_cc
    &&& r.seq.current == before.seq.current
    &&& r.seq.patterns@ == if groove is Some && before.seq.selects() {
        before.seq.patterns@.update(before.seq.current as int, groove->0)
    } else {
        before.seq.patterns@
    }
}

/// Apply one row.
fn apply_row(
    voices: &mut VoicePatch,
    m: &mut ModState,
    staged: &mut StagedBus,
    row: KitRow,
    engine: Ieee32,
    Ghost(rows): Ghost<Seq<KitRow>>,
    Ghost(n): Ghost<int>,
    Ghost(engines): Ghost<Seq<Ieee32>>,
    Ghost(base): Ghost<VoicePatch>,
    Ghost(slots): Ghost<[DrumModSlot; 16]>,
)
    requires
        0 <= n < rows.len(),
        row == rows[n],
        n < engines.len(),
        engine == engines[n],
        voices_staged(*old(voices), rows, n, engines, base),
        mod_staged(*old(m), rows, n, slots),
        bus_staged(*old(staged), rows, n),
    ensures
        voices_staged(*final(voices), rows, n + 1, engines, base),
        mod_staged(*final(m), rows, n + 1, slots),
        bus_staged(*final(staged), rows, n + 1),
{
    match row {
        KitRow::Voice { track, param, norm: _ } => {
            if (track as usize) < MAX_TRACKS && (param as usize) < N_TAIL_PARAMS {
                voices.tracks[track as usize][param as usize] = engine;
            }
        },
        KitRow::Mix { track, field, norm } => {
            if (track as usize) < MAX_TRACKS {
                staged.mix.push(MixEdit { track, field, norm });
            }
        },
        KitRow::ModSlot { slot, src, dst, depth, voice } => {
            if (slot as usize) < N_MOD_SLOTS {
                m.slots[slot as usize] = DrumModSlot::of(src as u16, dst as u16, depth, voice);
            }
        },
        KitRow::Lfo { idx, shape, rate, depth, retrig } => {
            let cfg = LfoCfg { shape, rate_hz: rate, depth, retrig };
            if idx == 0 {
                m.lfo1 = cfg;
            } else {
                m.lfo2 = cfg;
            }
        },
        KitRow::ModEnv { attack, decay } => {
            m.env_attack = attack;
            m.env_decay = decay;
        },
        KitRow::Bus { id, norm } => {
            if (id as usize) < N_BUS {
                staged.bus[id as usize] = Some(norm.clamp(ieee(ZERO), ieee(ONE)));
            }
        },
        KitRow::Sidechain { on } => {
            staged.sidechain = Some(on);
        },
    }
}

/// Recall a kit into the saved state. `engine` holds, for each row of a voice,
/// its value in engine units, and `groove` the kit's groove if it carries one.
/// What goes beyond the saved state is handed back.
pub fn stage_kit<P, M>(
    state: &mut PersistState<P, M>,
    kit: &Kit,
    defaults: Defaults<M>,
    engine: &Vec<Ieee32>,
    groove: Option<P>,
) -> (staged: StagedBus)
    requires
        engine@.len() >= kit.rows@.len(),
        groove is Some <==> kit.pattern is Some,
    ensures
        is_recall(*final(state), staged, *old(state), *kit, defaults, engine@, groove),
{
    let mut voices = defaults.voices;
    let mut m = ModState::fresh(defaults.slots);
    let mut staged = StagedBus {
        bus: [None, None, None, None, None, None, None, None, None, None],
        sidechain: None,
        mix: Vec::new(),
    };
    let mut i: usize = 0;
    while i < kit.rows.len()
        invariant
            i <= kit.rows@.len(),
            engine@.len() >= kit.rows@.len(),
            voices_staged(voices, kit.rows@, i as int, engine@, defaults.voices),
            mod_staged(m, kit.rows@, i as int, defaults.slots),
            bus_staged(staged, kit.rows@, i as int),
        decreases kit.rows@.len() - i,
    {
        apply_row(
            &mut voices,
            &mut m,
            &mut staged,
            kit.rows[i],
            engine[i],
            Ghost(kit.rows@),
            Ghost(i as int),
            Ghost(engine@),
            Ghost(defaults.voices),
            Ghost(defaults.slots),
        );
        i = i + 1;
    }
    state.voices = voices;
    state.mix = defaults.mix;
    state.mod_state = m;
    state.macro_labels = own_labels(&kit.macro_labels);
    match groove {
        Some(p) => {
            let cur: usize = state.seq.current as usize;
            if cur < state.seq.patterns.len() {
                state.seq.patterns[cur] = p;
            }
        },
        None => {},
    }
    staged
}

/// A recall forgets what was there: from any two states the same kit gives the
/// same voices, modulation, labels and bus.
pub proof fn recall_forgets_the_past<P, M>(
    a: PersistState<P, M>,
    a_bus: StagedBus,
    a_before: PersistState<P, M>,
    b: PersistState<P, M>,
    b_bus: StagedBus,
    b_before: PersistState<P, M>,
    kit: Kit,
    defaults: Defaults<M>,
    engine: Seq<Ieee32>,
    groove: Option<P>,
)
    requires
        is_recall(a, a_bus, a_before, kit, defaults, engine, groove),
        is_recall(b, b_bus, b_before, kit, defaults, engine, groove),
    ensures
        forall|t: int, p: int|
            0 <= t < MAX_TRACKS && 0 <= p < N_TAIL_PARAMS ==> (#[trigger] a.voices.tracks@[t]@[p])
                == b.voices.tracks@[t]@[p],
        a.mix == b.mix,
        a.mod_state.slots@ == b.mod_state.slots@,
        a.mod_state.lfo1 == b.mod_state.lfo1,
        a.mod_state.lfo2 == b.mod_state.lfo2,
        a.mod_state.env_attack == b.mod_state.env_attack,
        a.mod_state.env_decay == b.mod_state.env_decay,
        a.mod_state.macros@ == b.mod_state.macros@,
        texts(a.macro_labels@) == texts(b.macro_labels@),
        a_bus.bus@ == b_bus.bus@,
        a_bus.sidechain == b_bus.sidechain,
        a_bus.mix@ == b_bus.mix@,
{
    assert forall|t: int, p: int| 0 <= t < MAX_TRACKS && 0 <= p < N_TAIL_PARAMS implies (
    #[trigger] a.voices.tracks@[t]@[p]) == b.voices.tracks@[t]@[p] by {
        let x = b.voices.tracks@[t]@[p];
        assert(x == b.voices.tracks@[t]@[p]);
    }
    assert(a.mod_state.slots@ =~= b.mod_state.slots@);
    assert(a.mod_state.macros@ =~= b.mod_state.macros@);
    assert(a_bus.bus@ =~= b_bus.bus@);
}

/// A kit without rows and groove is the bare machine: recalling it gives the
/// defaults exactly, drives no bus parameter, and leaves the bank alone.
pub proof fn an_empty_kit_is_the_bare_machine<P, M>(
    r: PersistState<P, M>,
    staged: StagedBus,
    before: PersistState<P, M>,
    kit: Kit,
    defaults: Defaults<M>,
    engine: Seq<Ieee32>,
)
    requires
        kit.rows@.len() == 0,
        is_recall(r, staged, before, kit, defaults, engine, None),
    ensures
        r.voices.tracks@ == defaults.voices.tracks@,
        r.mix == defaults.mix,
        is_fresh_mod(r.mod_state, defaults.slots),
        r.seq.patterns@ == before.seq.patterns@,
        staged.sidechain is None,
        staged.mix@.len() == 0,
        forall|i: int| 0 <= i < N_BUS ==> (#[trigger] staged.bus@[i]) is None,
{
    assert forall|t: int| 0 <= t < MAX_TRACKS implies (#[trigger] r.voices.tracks@[t])
        == defaults.voices.tracks@[t] by {
        assert(r.voices.tracks@[t]@ =~= defaults.voices.tracks@[t]@);
    }
    assert(r.voices.tracks@ =~= defaults.voices.tracks@);
    assert(r.mod_state.slots =~= defaults.slots);
}

/// A recall touches no pattern but the selected one, and that one only for a
/// world.
pub proof fn recall_keeps_other_patterns<P, M>(
    r: PersistState<P, M>,
    staged: StagedBus,
    before: PersistState<P, M>,
    kit: Kit,
    defaults: Defaults<M>,
    engine: Seq<Ieee32>,
    groove: Option<P>,
    i: int,
)
    requires
        is_recall(r, staged, before, kit, defaults, engine, groove),
        0 <= i < before.seq.patterns@.len(),
        i != before.seq.current || groove is None,
    ensures
        r.seq.patterns@[i] == before.seq.patterns@[i],
{
}

/// Every place that a row of this shape names exists, and a route it describes
/// connects something.
pub open spec fn row_in_range(row: KitRow) -> bool {
    match row {
        KitRow::Voice { track, param, .. } => track < MAX_TRACKS && param < N_TAIL_PARAMS,
        KitRow::Mix { track, field, .. } => track < MAX_TRACKS && field <= 9,
        KitRow::ModSlot { slot, src, dst, voice, .. } => slot < N_MOD_SLOTS && 0 < src
            < N_DRUM_SOURCES && 0 < dst < N_DRUM_DESTS && (voice == 255 || voice < MAX_TRACKS),
        KitRow::Lfo { idx, .. } => idx <= 1,
        KitRow::ModEnv { attack, decay } => attack.finite() && ieee(ZERO).at_most(attack)
            && decay.finite() && ieee(ZERO).at_most(decay),
        KitRow::Bus { id, .. } => 1 <= id <= 9,
        KitRow::Sidechain { .. } => true,
    }
}

/// No row of a factory kit is lost: each names a place that exists.
pub proof fn factory_rows_are_in_range(kits: Seq<Kit>, k: int, i: int)
    requires
        is_factory(kits),
        0 <= k < kits.len(),
        0 <= i < kits[k].rows@.len(),
    ensures
        row_in_range(kits[k].rows@[i]),
{
}


proof fn lemma_last_row(rows: Seq<KitRow>, n: int, place: Place, i: int)
    requires
        0 <= i < n <= rows.len(),
        row_sets(rows[i], place),
        forall|j: int| i < j < n ==> !row_sets(#[trigger] rows[j], place),
    ensures
        last_row(rows, n, place) == i,
    decreases n,
{
    if i < n - 1 {
        assert(!row_sets(rows[n - 1], place));
        lemma_last_row(rows, n - 1, place, i);
    }
}

proof fn lemma_no_row(rows: Seq<KitRow>, n: int, place: Place)
    requires
        0 <= n <= rows.len(),
        forall|j: int| 0 <= j < n ==> !row_sets(#[trigger] rows[j], place),
    ensures
        last_row(rows, n, place) == -1,
    decreases n,
{
    if n > 0 {
        assert(!row_sets(rows[n - 1], place));
        lemma_no_row(rows, n - 1, place);
    }
}

/// A row of a voice takes effect: where no later row is for the same parameter of
/// the same lane, that parameter has the row's value in engine units.
pub proof fn a_voice_row_takes_effect<P, M>(
    r: PersistState<P, M>,
    staged: StagedBus,
    before: PersistState<P, M>,
    kit: Kit,
    defaults: Defaults<M>,
    engine: Seq<Ieee32>,
    groove: Option<P>,
    i: int,
    t: u8,
    p: u8,
    x: Ieee32,
)
    requires
        is_recall(r, staged, before, kit, defaults, engine, groove),
        0 <= i < kit.rows@.len(),
        kit.rows@[i] == (KitRow::Voice { track: t, param: p, norm: x }),
        t < 12 && p < 5,
        forall|j: int|
            i < j < kit.rows@.len() ==> !(#[trigger] kit.rows@[j] matches KitRow::Voice {
                track,
                param,
                norm,
            } && track == t && param == p),
    ensures
        r.voices.tracks@[t as int]@[p as int] == engine[i],
{
    let place = Place::Voice { track: t as int, param: p as int };
    lemma_last_row(kit.rows@, kit.rows@.len() as int, place, i);
}

/// A parameter of a voice that no row is for is at its default.
pub proof fn an_unset_voice_is_at_its_default<P, M>(
    r: PersistState<P, M>,
    staged: StagedBus,
    before: PersistState<P, M>,
    kit: Kit,
    defaults: Defaults<M>,
    engine: Seq<Ieee32>,
    groove: Option<P>,
    t: int,
    p: int,
)
    requires
        is_recall(r, staged, before, kit, defaults, engine, groove),
        0 <= t < 12 && 0 <= p < 5,
        forall|j: int|
            0 <= j < kit.rows@.len() ==> !(#[trigger] kit.rows@[j] matches KitRow::Voice {
                track,
                param,
                norm,
            } && track == t && param == p),
    ensures
        r.voices.tracks@[t]@[p] == defaults.voices.tracks@[t]@[p],
{
    lemma_no_row(kit.rows@, kit.rows@.len() as int, Place::Voice { track: t, param: p });
}

/// A row of a cable takes effect: where no later row is for its slot, the slot has
/// the row's ends, voice and depth; an end that does not exist is none.
pub proof fn a_cable_row_takes_effect<P, M>(
    r: PersistState<P, M>,
    staged: StagedBus,
    before: PersistState<P, M>,
    kit: Kit,
    defaults: Defaults<M>,
    engine: Seq<Ieee32>,
    groove: Option<P>,
    i: int,
    slot: u8,
    src: u8,
    dst: u8,
    depth: Ieee32,
    voice: u8,
)
    requires
        is_recall(r, staged, before, kit, defaults, engine, groove),
        0 <= i < kit.rows@.len(),
        kit.rows@[i] == (KitRow::ModSlot { slot, src, dst, depth, voice }),
        slot < 16,
        forall|j: int|
            i < j < kit.rows@.len() ==> !(#[trigger] kit.rows@[j] matches KitRow::ModSlot {
                slot: s,
                src,
                dst,
                depth,
                voice,
            } && s == slot),
    ensures
        ({
            let c = r.mod_state.slots@[slot as int];
            &&& src < 21 ==> c.src == src
            &&& src >= 21 ==> c.src == 0
            &&& dst < 13 ==> c.dst == dst
            &&& dst >= 13 ==> c.dst == 0
            &&& c.target_voice == voice
            &&& ieee(0xbf80_0000).at_most(depth) && depth.at_most(ieee(0x3f80_0000)) ==> c.depth
                == depth
            &&& ieee(0x3f80_0000).below(depth) ==> c.depth == ieee(0x3f80_0000)
            &&& depth.below(ieee(0xbf80_0000)) ==> c.depth == ieee(0xbf80_0000)
        }),
{
    lemma_last_row(kit.rows@, kit.rows@.len() as int, Place::Slot { slot: slot as int }, i);
}

/// A row of an oscillator, of the envelope, of the bus or of the sidechain key
/// takes effect where no later row is for the same thing.
pub proof fn a_row_takes_effect<P, M>(
    r: PersistState<P, M>,
    staged: StagedBus,
    before: PersistState<P, M>,
    kit: Kit,
    defaults: Defaults<M>,
    engine: Seq<Ieee32>,
    groove: Option<P>,
    i: int,
)
    requires
        is_recall(r, staged, before, kit, defaults, engine, groove),
        0 <= i < kit.rows@.len(),
    ensures
        kit.rows@[i] matches KitRow::Lfo { idx, shape, rate, depth, retrig } ==> (forall|j: int|
            i < j < kit.rows@.len() ==> !(#[trigger] kit.rows@[j] matches KitRow::Lfo {
                idx: other,
                shape,
                rate,
                depth,
                retrig,
            } && (other == 0) == (idx == 0))) ==> ({
            let c = if idx == 0 {
                r.mod_state.lfo1
            } else {
                r.mod_state.lfo2
            };
            c.shape == shape && c.rate_hz == rate && c.depth == depth && c.retrig == retrig
        }),
        kit.rows@[i] matches KitRow::ModEnv { attack, decay } ==> (forall|j: int|
            i < j < kit.rows@.len() ==> !((#[trigger] kit.rows@[j]) is ModEnv)) ==> r.mod_state.env_attack == attack
            && r.mod_state.env_decay == decay,
        kit.rows@[i] matches KitRow::Bus { id, norm } ==> id < 10 && (forall|j: int|
            i < j < kit.rows@.len() ==> !(#[trigger] kit.rows@[j] matches KitRow::Bus {
                id: other,
                norm,
            } && other == id)) ==> {
            let set = staged.bus@[id as int];
            &&& set is Some
            &&& ieee(0).at_most(norm) && norm.at_most(ieee(0x3f80_0000)) ==> set == Some(norm)
            &&& ieee(0x3f80_0000).below(norm) ==> set == Some(ieee(0x3f80_0000))
            &&& norm.below(ieee(0)) ==> set == Some(ieee(0))
        },
        kit.rows@[i] matches KitRow::Sidechain { on } ==> (forall|j: int|
            i < j < kit.rows@.len() ==> !((#[trigger] kit.rows@[j]) is Sidechain)) ==> staged.sidechain == Some(on),
{
    let rows = kit.rows@;
    let n = rows.len() as int;
    match rows[i] {
        KitRow::Lfo { idx, .. } => {
            let place = if idx == 0 {
                Place::Lfo1
            } else {
                Place::Lfo2
            };
            if forall|j: int| i < j < n ==> !row_sets(#[trigger] rows[j], place) {
                lemma_last_row(rows, n, place, i);
            }
        },
        KitRow::ModEnv { .. } => {
            if forall|j: int| i < j < n ==> !row_sets(#[trigger] rows[j], Place::Env) {
                lemma_last_row(rows, n, Place::Env, i);
            }
        },
        KitRow::Bus { id, .. } => {
            let place = Place::Bus { id: id as int };
            if forall|j: int| i < j < n ==> !row_sets(#[trigger] rows[j], place) {
                lemma_last_row(rows, n, place, i);
            }
        },
        KitRow::Sidechain { .. } => {
            if forall|j: int| i < j < n ==> !row_sets(#[trigger] rows[j], Place::Sidechain) {
                lemma_last_row(rows, n, Place::Sidechain, i);
            }
        },
        _ => {},
    }
}

/// What no row is for goes back to its default: cables, oscillators and the
/// envelope; and no bus parameter and no sidechain key is driven without a row.
pub proof fn what_no_row_sets_is_at_its_default<P, M>(
    r: PersistState<P, M>,
    staged: StagedBus,
    before: PersistState<P, M>,
    kit: Kit,
    defaults: Defaults<M>,
    engine: Seq<Ieee32>,
    groove: Option<P>,
    slot: int,
    bus: int,
)
    requires
        is_recall(r, staged, before, kit, defaults, engine, groove),
        0 <= slot < 16,
        0 <= bus < 10,
    ensures
        (forall|j: int|
            0 <= j < kit.rows@.len() ==> !(#[trigger] kit.rows@[j] matches KitRow::ModSlot {
                slot: s,
                src,
                dst,
                depth,
                voice,
            } && s == slot)) ==> r.mod_state.slots@[slot] == defaults.slots@[slot],
        (forall|j: int| 0 <= j < kit.rows@.len() ==> !((#[trigger] kit.rows@[j]) is Lfo))
            ==> r.mod_state.lfo1 == (LfoCfg {
            shape: 0,
            rate_hz: ieee(0x4000_0000),
            depth: ieee(0x3f80_0000),
            retrig: false,
        }) && r.mod_state.lfo2 == (LfoCfg {
            shape: 1,
            rate_hz: ieee(0x40a0_0000),
            depth: ieee(0x3f80_0000),
            retrig: false,
        }),
        (forall|j: int| 0 <= j < kit.rows@.len() ==> !((#[trigger] kit.rows@[j]) is ModEnv))
            ==> r.mod_state.env_attack == ieee(0x3ba3_d70a) && r.mod_state.env_decay == ieee(
            0x3f00_0000,
        ),
        (forall|j: int|
            0 <= j < kit.rows@.len() ==> !(#[trigger] kit.rows@[j] matches KitRow::Bus {
                id,
                norm,
            } && id == bus)) ==> staged.bus@[bus] is None,
        (forall|j: int| 0 <= j < kit.rows@.len() ==> !((#[trigger] kit.rows@[j]) is Sidechain))
            ==> staged.sidechain is None,
        forall|i: int| 0 <= i < 8 ==> #[trigger] r.mod_state.macros@[i] == ieee(0),
        r.mix == defaults.mix,
{
    let rows = kit.rows@;
    let n = rows.len() as int;
    if forall|j: int| 0 <= j < n ==> !row_sets(#[trigger] rows[j], Place::Slot { slot }) {
        lemma_no_row(rows, n, Place::Slot { slot });
    }
    if forall|j: int| 0 <= j < n ==> !((#[trigger] rows[j]) is Lfo) {
        assert forall|j: int| 0 <= j < n implies !row_sets(#[trigger] rows[j], Place::Lfo1)
            && !row_sets(rows[j], Place::Lfo2) by {
            assert(!(rows[j] is Lfo));
        }
        lemma_no_row(rows, n, Place::Lfo1);
        lemma_no_row(rows, n, Place::Lfo2);
    }
    if forall|j: int| 0 <= j < n ==> !row_sets(#[trigger] rows[j], Place::Env) {
        lemma_no_row(rows, n, Place::Env);
    }
    if forall|j: int| 0 <= j < n ==> !row_sets(#[trigger] rows[j], Place::Bus { id: bus }) {
        lemma_no_row(rows, n, Place::Bus { id: bus });
    }
    if forall|j: int| 0 <= j < n ==> !row_sets(#[trigger] rows[j], Place::Sidechain) {
        lemma_no_row(rows, n, Place::Sidechain);
    }
}

/// `at` lists the rows of channel strips that exist among the first `n` rows, in
/// order, each once.
pub open spec fn lists_strips(at: Seq<int>, rows: Seq<KitRow>, n: int) -> bool {
    &&& forall|a: int, b: int| 0 <= a < b < at.len() ==> at[a] < at[b]
    &&& forall|a: int|
        0 <= a < at.len() ==> 0 <= #[trigger] at[a] < n && (rows[at[a]] matches KitRow::Mix {
            track,
            field,
            norm,
        } && track < 12)
    &&& forall|i: int|
        0 <= i < n && (#[trigger] rows[i] matches KitRow::Mix { track, field, norm } && track < 12)
            ==> at.contains(i)
}

proof fn lemma_strips_listed(rows: Seq<KitRow>, n: int) -> (at: Seq<int>)
    requires
        0 <= n <= rows.len(),
    ensures
        lists_strips(at, rows, n),
        at.len() == mix_edits(rows, n).len(),
        forall|a: int|
            0 <= a < at.len() ==> (rows[#[trigger] at[a]] matches KitRow::Mix { track, field, norm }
                && mix_edits(rows, n)[a] == (MixEdit { track, field, norm })),
    decreases n,
{
    if n <= 0 {
        Seq::empty()
    } else {
        let before = lemma_strips_listed(rows, n - 1);
        let strip = rows[n - 1] matches KitRow::Mix { track, field, norm } && track < 12;
        if strip {
            let at = before.push(n - 1);
            assert forall|i: int|
                0 <= i < n && (#[trigger] rows[i] matches KitRow::Mix { track, field, norm } && track
                    < 12) implies at.contains(i) by {
                if i < n - 1 {
                    assert(before.contains(i));
                    let a = choose|a: int| 0 <= a < before.len() && before[a] == i;
                    assert(at[a] == i);
                } else {
                    assert(at[before.len() as int] == i);
                }
            }
            at
        } else {
            assert forall|i: int|
                0 <= i < n && (#[trigger] rows[i] matches KitRow::Mix { track, field, norm } && track
                    < 12) implies before.contains(i) by {
                assert(i < n - 1);
            }
            before
        }
    }
}

/// No row of a channel strip is lost: the staged changes are the kit's rows of
/// strips that exist, all of them, each once, in the order of the rows, with their
/// lane, field and value.
pub proof fn no_strip_row_is_lost<P, M>(
    r: PersistState<P, M>,
    staged: StagedBus,
    before: PersistState<P, M>,
    kit: Kit,
    defaults: Defaults<M>,
    engine: Seq<Ieee32>,
    groove: Option<P>,
) -> (at: Seq<int>)
    requires
        is_recall(r, staged, before, kit, defaults, engine, groove),
    ensures
        lists_strips(at, kit.rows@, kit.rows@.len() as int),
        staged.mix@.len() == at.len(),
        forall|a: int|
            0 <= a < at.len() ==> (kit.rows@[#[trigger] at[a]] matches KitRow::Mix {
                track,
                field,
                norm,
            } && staged.mix@[a].track == track && staged.mix@[a].field == field
                && staged.mix@[a].norm == norm),
        forall|i: int|
            0 <= i < kit.rows@.len() && (#[trigger] kit.rows@[i] matches KitRow::Mix {
                track,
                field,
                norm,
            } && track < 12) ==> (kit.rows@[i] matches KitRow::Mix { track, field, norm }
                && staged.mix@.contains(MixEdit { track, field, norm })),
{
    let rows = kit.rows@;
    let n = rows.len() as int;
    let at = lemma_strips_listed(rows, n);
    assert forall|i: int|
        0 <= i < n && (#[trigger] rows[i] matches KitRow::Mix { track, field, norm } && track
            < 12) implies (rows[i] matches KitRow::Mix { track, field, norm }
        && staged.mix@.contains(MixEdit { track, field, norm })) by {
        assert(at.contains(i));
        let a = choose|a: int| 0 <= a < at.len() && at[a] == i;
        assert(rows[at[a]] == rows[i]);
        match rows[i] {
            KitRow::Mix { track, field, norm } => {
                assert(staged.mix@[a] == (MixEdit { track, field, norm }));
            },
            _ => {},
        }
    }
    at
}

/// A recall brings the kit's labels, and a world's groove into the selected
/// pattern; it leaves the selection, the sequencer switch and the learned
/// controllers alone.
pub proof fn a_recall_brings_labels_and_groove<P, M>(
    r: PersistState<P, M>,
    staged: StagedBus,
    before: PersistState<P, M>,
    kit: Kit,
    defaults: Defaults<M>,
    engine: Seq<Ieee32>,
    groove: Option<P>,
    i: int,
)
    requires
        is_recall(r, staged, before, kit, defaults, engine, groove),
        0 <= i < 8,
    ensures
        r.macro_labels@.len() == 8,
        r.macro_labels@[i]@ == kit.macro_labels@[i]@,
        r.seq.current == before.seq.current,
        r.seq.patterns@.len() == before.seq.patterns@.len(),
        groove is Some && before.seq.current < before.seq.patterns@.len()
            ==> r.seq.patterns@[r.seq.current as int] == groove->0,
        r.seq_enabled == before.seq_enabled,
        r.midi_cc == before.midi_cc,
{
    assert(texts(r.macro_labels@).len() == 8);
    assert(texts(r.macro_labels@)[i] == label_texts(kit.macro_labels)[i]);
}

} // verus!

//! The editor: what each action of the user does.
//!
//! An action changes what the project saves, moves the undo stacks, and asks
//! for effects outside: edits for the sequencer, parameter gestures, files,
//! messages to the window.

use crate::engine::SeqEdit;
use crate::history::{edited, keep_for_undo, redone, restore, stacked, undone, History, Timeline, UNDO_CAP};
use crate::ieee::{ieee, settles_in_unit, Ieee32, ONE, ZERO};
use crate::kits::{find_kit, Kit};
use crate::params::ParamId;
use crate::pattern::MAX_TRACKS;
use crate::sound::{is_copy, AbState};
use crate::state::{route, DrumModSlot, LfoCfg, ModState, PersistState, N_MACROS, N_MOD_SLOTS, N_TAIL_PARAMS};
use vstd::prelude::*;

verus! {

/// An action of the user.
#[derive(Debug)]
#[allow(inconsistent_fields)]
pub enum Action {
    Init,
    Note { on: bool, note: u8 },
    /// An edit for the sequencer or for the sound.
    Edit { edit: SeqEdit },
    RecallKit { id: String },
    PresetSave { name: String },
    PresetLoad { name: String },
    PresetDelete { name: String },
    AbStore { slot: u8 },
    AbRecall { slot: u8 },
    AbCopy,
    MidiLearn { macro_idx: u8 },
    MidiClear { macro_idx: u8 },
    Undo,
    Redo,
    Transport { play: bool },
    SeqEnable { on: bool },
    SidechainEnable { on: bool },
    ParamBegin { id: u8 },
    ParamSet { id: u8, value: Ieee32 },
    ParamEnd { id: u8 },
}

/// Something to be done outside.
#[derive(Debug)]
#[allow(inconsistent_fields)]
pub enum Effect {
    /// Put a pad event on the pad queue.
    SendPad { on: bool, note: u8 },
    /// Put an edit on the edit queue.
    SendEdit { edit: SeqEdit },
    /// Write a voice parameter, normalized, into the saved voices.
    WriteVoice { track: u8, param: u16, value: Ieee32 },
    /// Write a field, normalized, into the saved channel strips.
    WriteMix { track: u8, field: u8, value: Ieee32 },
    /// Send the window everything it shows.
    Reseed,
    /// Have the audio side take over the saved state.
    Adopt,
    /// Recall the factory kit at this position.
    Recall { kit: usize },
    SavePreset { name: String },
    LoadPreset { name: String },
    DeletePreset { name: String },
    /// Send the window the list of presets.
    ListPresets,
    /// Capture the sound into a register.
    CaptureAb { slot: u8 },
    /// Apply the sound of a register.
    ApplyAb { slot: u8 },
    ArmLearn { macro_idx: u8 },
    ClearLearned { macro_idx: u8 },
    SetPlay { play: bool },
    SetSeq { on: bool },
    SetSidechain { on: bool },
    BeginParam { param: ParamId },
    SetParam { param: ParamId, value: Ieee32 },
    EndParam { param: ParamId },
}

/// What an editor keeps while it is open.
#[derive(Debug)]
pub struct Session<P, M> {
    pub undo: History<P>,
    pub redo: History<P>,
    pub ab: AbState<M>,
}

/// Whether an action edits the selected pattern, so that it can be undone.
pub open spec fn edits_pattern(a: Action) -> bool {
    match a {
        Action::Edit { edit } => match edit {
            SeqEdit::SetStep { .. } => true,
            SeqEdit::StepParams { .. } => true,
            SeqEdit::SetPlock { .. } => true,
            SeqEdit::ClearPlock { .. } => true,
            SeqEdit::ClearLane { .. } => true,
            SeqEdit::Euclid { .. } => true,
            _ => false,
        },
        _ => false,
    }
}

/// Whether an action edits the selected pattern, so that it can be undone.
pub fn action_mutates_pattern(a: &Action) -> (r: bool)
    ensures
        r == edits_pattern(*a),
{
    match a {
        Action::Edit { edit } => match edit {
            SeqEdit::SetStep { .. } => true,
            SeqEdit::StepParams { .. } => true,
            SeqEdit::SetPlock { .. } => true,
            SeqEdit::ClearPlock { .. } => true,
            SeqEdit::ClearLane { .. } => true,
            SeqEdit::Euclid { .. } => true,
            _ => false,
        },
        _ => false,
    }
}

/// The modulation after an edit was saved.
pub open spec fn mod_saved(after: ModState, before: ModState, edit: SeqEdit) -> bool {
    match edit {
        SeqEdit::SetModSlot { slot, src, dst, depth, voice } => {
            &&& after.slots@ == if slot < N_MOD_SLOTS {
                before.slots@.update(
                    slot as int,
                    route(src as int, dst as int, depth, voice),
                )
            } else {
                before.slots@
            }
            &&& after == (ModState { slots: after.slots, ..before })
        },
        SeqEdit::SetLfo { idx, shape, rate, depth, retrig } => {
            let cfg = LfoCfg { shape, rate_hz: rate, depth, retrig };
            after == if idx == 0 {
                ModState { lfo1: cfg, ..before }
            } else {
                ModState { lfo2: cfg, ..before }
            }
        },
        SeqEdit::SetModEnv { attack, decay } => after == (ModState {
            env_attack: attack,
            env_decay: decay,
            ..before
        }),
        SeqEdit::SetMacro { idx, value } => {
            &&& after.macros@ == if idx < N_MACROS {
                before.macros@.update(idx as int, value.clamped(ieee(ZERO), ieee(ONE)))
            } else {
                before.macros@
            }
            &&& after == (ModState { macros: after.macros, ..before })
        },
        _ => after == before,
    }
}

/// What has to be done outside for an edit: it goes to the audio side, and an
/// edit of a voice or a strip that exists is written to what is saved.
pub open spec fn edit_effects(edit: SeqEdit) -> Seq<Effect> {
    let send = seq![Effect::SendEdit { edit }];
    match edit {
        SeqEdit::SetVoiceParam { track, param, value } => if track < MAX_TRACKS && param
            < N_TAIL_PARAMS {
            send.push(Effect::WriteVoice { track, param, value })
        } else {
            send
        },
        SeqEdit::SetVoiceMix { track, field, value } => if track < MAX_TRACKS {
            send.push(Effect::WriteMix { track, field, value })
        } else {
            send
        },
        _ => send,
    }
}

/// The position of the first kit with an id, or -1.
pub open spec fn kit_at(kits: Seq<Kit>, id: Seq<char>, n: int) -> int
    decreases n,
{
    if n <= 0 {
        -1
    } else if kit_at(kits, id, n - 1) >= 0 {
        kit_at(kits, id, n - 1)
    } else if kits[n - 1].id@ == id {
        n - 1
    } else {
        -1
    }
}

/// What has to be done outside for an action. `undoable` and `redoable` say
/// whether the stacks hold a pattern.
pub open spec fn effects_of(a: Action, kits: Seq<Kit>, undoable: bool, redoable: bool) -> Seq<
    Effect,
> {
    match a {
        Action::Init => seq![Effect::Reseed],
        Action::Note { on, note } => seq![Effect::SendPad { on, note }],
        Action::Edit { edit } => edit_effects(edit),
        Action::RecallKit { id } => {
            let k = kit_at(kits, id@, kits.len() as int);
            if k >= 0 {
                seq![Effect::Recall { kit: k as usize }]
            } else {
                Seq::empty()
            }
        },
        Action::PresetSave { name } => seq![Effect::SavePreset { name }, Effect::ListPresets],
        Action::PresetLoad { name } => seq![Effect::LoadPreset { name }],
        Action::PresetDelete { name } => seq![Effect::DeletePreset { name }, Effect::ListPresets],
        Action::AbStore { slot } => seq![Effect::CaptureAb { slot }],
        Action::AbRecall { slot } => seq![Effect::ApplyAb { slot }],
        Action::AbCopy => Seq::empty(),
        Action::MidiLearn { macro_idx } => if macro_idx < N_MACROS {
            seq![Effect::ArmLearn { macro_idx }]
        } else {
            Seq::empty()
        },
        Action::MidiClear { macro_idx } => seq![Effect::ClearLearned { macro_idx }],
        Action::Undo => if undoable {
            seq![Effect::Adopt, Effect::Reseed]
        } else {
            Seq::empty()
        },
        Action::Redo => if redoable {
            seq![Effect::Adopt, Effect::Reseed]
        } else {
            Seq::empty()
        },
        Action::Transport { play } => seq![Effect::SetPlay { play }],
        Action::SeqEnable { on } => seq![Effect::SetSeq { on }],
        Action::SidechainEnable { on } => seq![Effect::SetSidechain { on }],
        Action::ParamBegin { id } => seq![Effect::BeginParam { param: ParamId::of_gesture(id) }],
        Action::ParamSet { id, value } => seq![
            Effect::SetParam {
                param: ParamId::of_gesture(id),
                value: value.clamped(ieee(ZERO), ieee(ONE)),
            },
        ],
        Action::ParamEnd { id } => seq![Effect::EndParam { param: ParamId::of_gesture(id) }],
    }
}

/// What an action does to the selected pattern and the two stacks.
pub open spec fn patterns_moved<P, M>(
    after: PersistState<P, M>,
    session: Session<P, M>,
    before: PersistState<P, M>,
    earlier: Session<P, M>,
    a: Action,
) -> bool {
    let cur = before.seq.current as int;
    &&& after.seq.current == before.seq.current
    &&& if edits_pattern(a) && before.seq.selects() {
        &&& after.seq.patterns@ == before.seq.patterns@
        &&& session.undo.items@ == stacked(earlier.undo.items@, before.seq.patterns@[cur])
        &&& session.redo.items@.len() == 0
    } else if a is Undo && earlier.undo.items@.len() > 0 {
        &&& session.undo.items@ == earlier.undo.items@.drop_last()
        &&& if before.seq.selects() {
            &&& after.seq.patterns@ == before.seq.patterns@.update(cur, earlier.undo.items@.last())
            &&& session.redo.items@ == stacked(earlier.redo.items@, before.seq.patterns@[cur])
        } else {
            after.seq.patterns@ == before.seq.patterns@ && session.redo.items@
                == earlier.redo.items@
        }
    } else if a is Redo && earlier.redo.items@.len() > 0 {
        &&& session.redo.items@ == earlier.redo.items@.drop_last()
        &&& if before.seq.selects() {
            &&& after.seq.patterns@ == before.seq.patterns@.update(cur, earlier.redo.items@.last())
            &&& session.undo.items@ == stacked(earlier.undo.items@, before.seq.patterns@[cur])
        } else {
            after.seq.patterns@ == before.seq.patterns@ && session.undo.items@
                == earlier.undo.items@
        }
    } else {
        &&& after.seq.patterns@ == before.seq.patterns@
        &&& session.undo.items@ == earlier.undo.items@
        &&& session.redo.items@ == earlier.redo.items@
    }
}

/// What an action does to the rest of what is saved: only the modulation can
/// change here.
pub open spec fn rest_saved<P, M>(
    after: PersistState<P, M>,
    before: PersistState<P, M>,
    a: Action,
) -> bool {
    &&& after.seq_enabled == before.seq_enabled
    &&& after.voices == before.voices
    &&& after.mix == before.mix
    &&& after.macro_labels == before.macro_labels
    &&& after.midi_cc == before.midi_cc
    &&& match a {
        Action::Edit { edit } => mod_saved(after.mod_state, before.mod_state, edit),
        _ => after.mod_state == before.mod_state,
    }
}

/// Save the modulation of an edit.
fn save_mod(m: &mut ModState, edit: SeqEdit)
    ensures
        mod_saved(*final(m), *old(m), edit),
{
    match edit {
        SeqEdit::SetModSlot { slot, src, dst, depth, voice } => {
            if (slot as usize) < N_MOD_SLOTS {
                m.slots[slot as usize] = DrumModSlot::of(src, dst, depth, voice);
            }
        },
        SeqEdit::SetLfo { idx, shape, rate, depth, retrig } => {
            let cfg = LfoCfg { shape, rate_hz: rate, depth, retrig };
            if idx == 0 {
                m.lfo1 = cfg;
            } else {
                m.lfo2 = cfg;
            }
        },
        SeqEdit::SetModEnv { attack, decay } => {
            m.env_attack = attack;
            m.env_decay = decay;
        },
        SeqEdit::SetMacro { idx, value } => {
            if (idx as usize) < N_MACROS {
                m.macros[idx as usize] = value.clamp(ieee(ZERO), ieee(ONE));
            }
        },
        _ => {},
    }
}

fn edit_todo(edit: SeqEdit) -> (r: Vec<Effect>)
    ensures
        r@ == edit_effects(edit),
{
    let mut r: Vec<Effect> = Vec::new();
    r.push(Effect::SendEdit { edit });
    match edit {
        SeqEdit::SetVoiceParam { track, param, value } => {
            if (track as usize) < MAX_TRACKS && (param as usize) < N_TAIL_PARAMS {
                r.push(Effect::WriteVoice { track, param, value });
            }
        },
        SeqEdit::SetVoiceMix { track, field, value } => {
            if (track as usize) < MAX_TRACKS {
                r.push(Effect::WriteMix { track, field, value });
            }
        },
        _ => {},
    }
    assert(r@ =~= edit_effects(edit));
    r
}

proof fn lemma_kit_at(kits: Seq<Kit>, id: Seq<char>, n: int)
    requires
        0 <= n <= kits.len(),
    ensures
        -1 <= kit_at(kits, id, n) < n,
        kit_at(kits, id, n) >= 0 ==> kits[kit_at(kits, id, n)].id@ == id,
        forall|j: int|
            0 <= j < n && (kit_at(kits, id, n) < 0 || j < kit_at(kits, id, n)) ==> (
            #[trigger] kits[j]).id@ != id,
    decreases n,
{
    if n > 0 {
        lemma_kit_at(kits, id, n - 1);
    }
}

fn one(e: Effect) -> (r: Vec<Effect>)
    ensures
        r@ == seq![e],
{
    let mut r: Vec<Effect> = Vec::new();
    r.push(e);
    assert(r@ =~= seq![e]);
    r
}

fn two(a: Effect, b: Effect) -> (r: Vec<Effect>)
    ensures
        r@ == seq![a, b],
{
    let mut r: Vec<Effect> = Vec::new();
    r.push(a);
    r.push(b);
    assert(r@ =~= seq![a, b]);
    r
}

/// Perform an action: keep the selected pattern for undo where the action edits
/// it, change what is saved, and say what has to be done outside, in order.
pub fn perform<P: Copy, M: Clone>(
    state: &mut PersistState<P, M>,
    session: &mut Session<P, M>,
    kits: &Vec<Kit>,
    a: Action,
) -> (r: Vec<Effect>)
    ensures
        r@ == effects_of(
            a,
            kits@,
            old(session).undo.items@.len() > 0,
            old(session).redo.items@.len() > 0,
        ),
        patterns_moved(*final(state), *final(session), *old(state), *old(session), a),
        rest_saved(*final(state), *old(state), a),
        old(session).undo.ok() ==> final(session).undo.ok(),
        old(session).redo.ok() ==> final(session).redo.ok(),
        !(a is AbCopy) ==> final(session).ab == old(session).ab,
        a is AbCopy ==> {
            let (was, is) = (old(session).ab, final(session).ab);
            let other = if was.active == 0 {
                1u8
            } else {
                0u8
            };
            &&& is.active == was.active
            &&& is.register(was.active) == was.register(was.active)
            &&& is.register(other) is Some <==> was.register(was.active) is Some
            &&& was.register(was.active) is Some ==> is_copy(
                was.register(was.active)->0,
                is.register(other)->0,
            )
        },
{
    if action_mutates_pattern(&a) {
        keep_for_undo(&state.seq, &mut session.undo, &mut session.redo);
    }
    match a {
        Action::Init => one(Effect::Reseed),
        Action::Note { on, note } => one(Effect::SendPad { on, note }),
        Action::Edit { edit } => {
            save_mod(&mut state.mod_state, edit);
            edit_todo(edit)
        },
        Action::RecallKit { id } => {
            proof {
                lemma_kit_at(kits@, id@, kits@.len() as int);
            }
            match find_kit(kits, id.as_str()) {
                Some(kit) => one(Effect::Recall { kit }),
                None => Vec::new(),
            }
        },
        Action::PresetSave { name } => two(Effect::SavePreset { name }, Effect::ListPresets),
        Action::PresetLoad { name } => one(Effect::LoadPreset { name }),
        Action::PresetDelete { name } => two(Effect::DeletePreset { name }, Effect::ListPresets),
        Action::AbStore { slot } => one(Effect::CaptureAb { slot }),
        Action::AbRecall { slot } => one(Effect::ApplyAb { slot }),
        Action::AbCopy => {
            session.ab.copy();
            Vec::new()
        },
        Action::MidiLearn { macro_idx } => {
            if (macro_idx as usize) < N_MACROS {
                one(Effect::ArmLearn { macro_idx })
            } else {
                Vec::new()
            }
        },
        Action::MidiClear { macro_idx } => one(Effect::ClearLearned { macro_idx }),
        Action::Undo => {
            if restore(&mut state.seq, &mut session.undo, &mut session.redo) {
                two(Effect::Adopt, Effect::Reseed)
            } else {
                Vec::new()
            }
        },
        Action::Redo => {
            if restore(&mut state.seq, &mut session.redo, &mut session.undo) {
                two(Effect::Adopt, Effect::Reseed)
            } else {
                Vec::new()
            }
        },
        Action::Transport { play } => one(Effect::SetPlay { play }),
        Action::SeqEnable { on } => one(Effect::SetSeq { on }),
        Action::SidechainEnable { on } => one(Effect::SetSidechain { on }),
        Action::ParamBegin { id } => one(Effect::BeginParam { param: ParamId::from_gesture(id) }),
        Action::ParamSet { id, value } => one(
            Effect::SetParam {
                param: ParamId::from_gesture(id),
                value: value.clamp(ieee(ZERO), ieee(ONE)),
            },
        ),
        Action::ParamEnd { id } => one(Effect::EndParam { param: ParamId::from_gesture(id) }),
    }
}

/// The selected pattern and the two stacks, as one value.
pub open spec fn timeline<P, M>(state: PersistState<P, M>, session: Session<P, M>) -> Timeline<P> {
    Timeline {
        now: state.seq.patterns@[state.seq.current as int],
        undo: session.undo.items@,
        redo: session.redo.items@,
    }
}

/// What an action does to the selected pattern and the stacks is what the model
/// of the stacks says: an undo undoes, a redo redoes, an action that edits keeps
/// the pattern before it is edited, and any other leaves them as they were.
pub proof fn actions_follow_the_timeline<P, M>(
    after: PersistState<P, M>,
    session: Session<P, M>,
    before: PersistState<P, M>,
    earlier: Session<P, M>,
    a: Action,
)
    requires
        before.seq.selects(),
        patterns_moved(after, session, before, earlier, a),
    ensures
        after.seq.selects() && after.seq.current == before.seq.current,
        timeline(after, session) == ({
            let t = timeline(before, earlier);
            if a is Undo {
                undone(t)
            } else if a is Redo {
                redone(t)
            } else if edits_pattern(a) {
                edited(t, t.now)
            } else {
                t
            }
        }),
        forall|i: int|
            0 <= i < before.seq.patterns@.len() && i != before.seq.current
                ==> #[trigger] after.seq.patterns@[i] == before.seq.patterns@[i],
{
    if edits_pattern(a) {
        assert(session.redo.items@ =~= Seq::empty());
    }
}

/// An undo takes an edit back, and a redo brings it again. `edit` is performed
/// first, the sequencer then turns the selected pattern into any other, an undo
/// follows and then a redo: after the undo every pattern and the stack of what
/// can be undone are as before the edit (but for the oldest on a full stack,
/// which the edit pushed out), and after the redo the edit is there again.
pub proof fn an_edit_is_undone_and_redone<P, M>(
    start: PersistState<P, M>,
    session0: Session<P, M>,
    edit: Action,
    asked: PersistState<P, M>,
    session1: Session<P, M>,
    done: PersistState<P, M>,
    back: PersistState<P, M>,
    session2: Session<P, M>,
    again: PersistState<P, M>,
    session3: Session<P, M>,
    p: P,
)
    requires
        start.seq.selects(),
        session0.undo.ok(),
        edits_pattern(edit),
        patterns_moved(asked, session1, start, session0, edit),
        done.seq.current == asked.seq.current,
        done.seq.patterns@ == asked.seq.patterns@.update(asked.seq.current as int, p),
        patterns_moved(back, session2, done, session1, Action::Undo),
        patterns_moved(again, session3, back, session2, Action::Redo),
    ensures
        back.seq.current == start.seq.current,
        back.seq.patterns@ == start.seq.patterns@,
        session2.undo.items@ == if session0.undo.items@.len() < UNDO_CAP {
            session0.undo.items@
        } else {
            session0.undo.items@.drop_first()
        },
        session2.redo.items@ == seq![p],
        again.seq.current == start.seq.current,
        again.seq.patterns@ == done.seq.patterns@,
        session3.undo.items@ == session1.undo.items@,
        session3.redo.items@.len() == 0,
{
    let cur = start.seq.current as int;
    let u = session0.undo.items@;
    let now = start.seq.patterns@[cur];
    assert(session1.undo.items@.last() == now);
    if u.len() < UNDO_CAP {
        assert(u.push(now).drop_last() =~= u);
        assert(session2.undo.items@.push(now) =~= session1.undo.items@);
    } else {
        assert(u.push(now).drop_first().drop_last() =~= u.drop_first());
        assert(u.drop_first().push(now) =~= u.push(now).drop_first());
    }
    assert(session1.redo.items@ =~= Seq::<P>::empty());
    assert(Seq::<P>::empty().push(p) =~= seq![p]);
    assert(back.seq.patterns@ =~= start.seq.patterns@);
    assert(again.seq.patterns@ =~= done.seq.patterns@);
}

/// Every edit that can change a step of the selected pattern can be undone: turning
/// a step on or off, setting its parameters, locking or freeing a parameter,
/// clearing a lane and filling it evenly each leave the pattern before the edit on
/// top of what can be undone, and nothing to redo.
pub proof fn every_edit_of_the_grid_can_be_undone<P, M>(
    after: PersistState<P, M>,
    session: Session<P, M>,
    before: PersistState<P, M>,
    earlier: Session<P, M>,
    edit: SeqEdit,
)
    requires
        patterns_moved(after, session, before, earlier, Action::Edit { edit }),
        before.seq.current < before.seq.patterns@.len(),
        edit is SetStep || edit is StepParams || edit is SetPlock || edit is ClearPlock
            || edit is ClearLane || edit is Euclid,
    ensures
        session.undo.items@.len() > 0,
        session.undo.items@.last() == before.seq.patterns@[before.seq.current as int],
        earlier.undo.items@.len() < 64 ==> session.undo.items@ == earlier.undo.items@.push(
            before.seq.patterns@[before.seq.current as int],
        ),
        session.redo.items@.len() == 0,
        after.seq.patterns@ == before.seq.patterns@,
        after.seq.current == before.seq.current,
{
}

/// Nothing else fills what can be undone or empties what can be redone: neither an
/// edit of the sound, of the feel or of the selection, nor any other action but
/// undo and redo.
pub proof fn nothing_else_touches_the_stacks<P, M>(
    after: PersistState<P, M>,
    session: Session<P, M>,
    before: PersistState<P, M>,
    earlier: Session<P, M>,
    a: Action,
)
    requires
        patterns_moved(after, session, before, earlier, a),
        a matches Action::Edit { edit } ==> edit is Fill || edit is SelectPattern || edit is Swing
            || edit is Humanize || edit is SetVoiceParam || edit is SetVoiceMix || edit is SetModSlot
            || edit is SetLfo || edit is SetModEnv || edit is SetMacro,
        !(a is Undo) && !(a is Redo),
    ensures
        session.undo.items@ == earlier.undo.items@,
        session.redo.items@ == earlier.redo.items@,
        after.seq.patterns@ == before.seq.patterns@,
        after.seq.current == before.seq.current,
{
}

/// An undo and a redo say so outside exactly where there is something to take
/// back; every other action asks for what it is named after, with the values it
/// was made with.
pub proof fn every_action_is_carried_out(a: Action, kits: Seq<Kit>, undoable: bool, redoable: bool)
    ensures
        ({
            let e = effects_of(a, kits, undoable, redoable);
            &&& a is Init ==> e.len() == 1 && e[0] is Reseed
            &&& a matches Action::Note { on, note } ==> e.len() == 1 && e[0] == (Effect::SendPad {
                on,
                note,
            })
            &&& a matches Action::Edit { edit } ==> e.len() >= 1 && e[0] == (Effect::SendEdit {
                edit,
            })
            &&& a matches Action::PresetSave { name } ==> e.len() == 2 && e[0]
                == (Effect::SavePreset { name }) && e[1] is ListPresets
            &&& a matches Action::PresetLoad { name } ==> e.len() == 1 && e[0]
                == (Effect::LoadPreset { name })
            &&& a matches Action::PresetDelete { name } ==> e.len() == 2 && e[0]
                == (Effect::DeletePreset { name }) && e[1] is ListPresets
            &&& a matches Action::AbStore { slot } ==> e.len() == 1 && e[0] == (Effect::CaptureAb {
                slot,
            })
            &&& a matches Action::AbRecall { slot } ==> e.len() == 1 && e[0] == (Effect::ApplyAb {
                slot,
            })
            &&& a is AbCopy ==> e.len() == 0
            &&& a matches Action::MidiLearn { macro_idx } ==> if macro_idx < 8 {
                e.len() == 1 && e[0] == (Effect::ArmLearn { macro_idx })
            } else {
                e.len() == 0
            }
            &&& a matches Action::MidiClear { macro_idx } ==> e.len() == 1 && e[0]
                == (Effect::ClearLearned { macro_idx })
            &&& a is Undo ==> if undoable {
                e.len() == 2 && e[0] is Adopt && e[1] is Reseed
            } else {
                e.len() == 0
            }
            &&& a is Redo ==> if redoable {
                e.len() == 2 && e[0] is Adopt && e[1] is Reseed
            } else {
                e.len() == 0
            }
            &&& a matches Action::Transport { play } ==> e.len() == 1 && e[0] == (Effect::SetPlay {
                play,
            })
            &&& a matches Action::SeqEnable { on } ==> e.len() == 1 && e[0] == (Effect::SetSeq {
                on,
            })
            &&& a matches Action::SidechainEnable { on } ==> e.len() == 1 && e[0]
                == (Effect::SetSidechain { on })
            &&& a matches Action::ParamBegin { id } ==> e.len() == 1 && (e[0] matches
                Effect::BeginParam { param } && param == ParamId::of_gesture(id))
            &&& a matches Action::ParamEnd { id } ==> e.len() == 1 && (e[0] matches Effect::EndParam {
                param,
            } && param == ParamId::of_gesture(id))
            &&& a matches Action::ParamSet { id, value } ==> e.len() == 1 && (e[0] matches
                Effect::SetParam { param, value: set } && param == ParamId::of_gesture(id) && (ieee(0).at_most(value)
                && value.at_most(ieee(0x3f80_0000)) ==> set == value))
        }),
{
}

/// An edit of a voice that exists is written to what is saved, once, with its
/// value, and so is an edit of a strip that exists; no other edit is.
pub proof fn edits_of_voices_and_strips_are_written(edit: SeqEdit)
    ensures
        ({
            let e = edit_effects(edit);
            &&& edit matches SeqEdit::SetVoiceParam { track, param, value } ==> if track < 12 && param
                < 5 {
                e.len() == 2 && e[1] == (Effect::WriteVoice { track, param, value })
            } else {
                e.len() == 1
            }
            &&& edit matches SeqEdit::SetVoiceMix { track, field, value } ==> if track < 12 {
                e.len() == 2 && e[1] == (Effect::WriteMix { track, field, value })
            } else {
                e.len() == 1
            }
            &&& !(edit is SetVoiceParam) && !(edit is SetVoiceMix) ==> e.len() == 1
        }),
{
}

/// A kit is recalled by its id: the effect names the first kit with that id, and
/// there is none where no kit has it.
pub proof fn a_kit_is_recalled_by_its_id(
    id: String,
    kits: Seq<Kit>,
    undoable: bool,
    redoable: bool,
)
    requires
        kits.len() <= usize::MAX,
    ensures
        ({
            let e = effects_of(Action::RecallKit { id }, kits, undoable, redoable);
            ||| e.len() == 0 && forall|j: int| 0 <= j < kits.len() ==> (#[trigger] kits[j]).id@ != id@
            ||| e.len() == 1 && (e[0] matches Effect::Recall { kit } && kit < kits.len()
                && kits[kit as int].id@ == id@ && forall|j: int|
                0 <= j < kit ==> (#[trigger] kits[j]).id@ != id@)
        }),
{
    lemma_kit_at(kits, id@, kits.len() as int);
}

/// An edit of the modulation is saved as it was made: a cable into its slot, with
/// its ends, its voice and its depth, an oscillator into its place, the envelope,
/// a macro; everything else of the modulation stays.
pub proof fn an_edit_of_the_modulation_is_saved<P, M>(
    after: PersistState<P, M>,
    before: PersistState<P, M>,
    edit: SeqEdit,
)
    requires
        rest_saved(after, before, Action::Edit { edit }),
    ensures
        ({
            let (a, b) = (after.mod_state, before.mod_state);
            &&& edit matches SeqEdit::SetModSlot { slot, src, dst, depth, voice } ==> {
                &&& slot < 16 ==> {
                    let c = a.slots@[slot as int];
                    &&& src < 21 ==> c.src == src
                    &&& src >= 21 ==> c.src == 0
                    &&& dst < 13 ==> c.dst == dst
                    &&& dst >= 13 ==> c.dst == 0
                    &&& c.target_voice == voice
                    &&& ieee(0xbf80_0000).at_most(depth) && depth.at_most(ieee(0x3f80_0000))
                        ==> c.depth == depth
                    &&& ieee(0x3f80_0000).below(depth) ==> c.depth == ieee(0x3f80_0000)
                    &&& depth.below(ieee(0xbf80_0000)) ==> c.depth == ieee(0xbf80_0000)
                }
                &&& forall|i: int| 0 <= i < 16 && i != slot ==> #[trigger] a.slots@[i] == b.slots@[i]
            }
            &&& !(edit is SetModSlot) ==> a.slots == b.slots
            &&& edit matches SeqEdit::SetLfo { idx, shape, rate, depth, retrig } ==> {
                let c = if idx == 0 {
                    a.lfo1
                } else {
                    a.lfo2
                };
                &&& c.shape == shape && c.rate_hz == rate && c.depth == depth && c.retrig == retrig
                &&& idx == 0 ==> a.lfo2 == b.lfo2
                &&& idx != 0 ==> a.lfo1 == b.lfo1
            }
            &&& !(edit is SetLfo) ==> a.lfo1 == b.lfo1 && a.lfo2 == b.lfo2
            &&& edit matches SeqEdit::SetModEnv { attack, decay } ==> a.env_attack == attack
                && a.env_decay == decay
            &&& !(edit is SetModEnv) ==> a.env_attack == b.env_attack && a.env_decay == b.env_decay
            &&& edit matches SeqEdit::SetMacro { idx, value } ==> {
                &&& idx < 8 && ieee(0).at_most(value) && value.at_most(ieee(0x3f80_0000))
                    ==> a.macros@[idx as int] == value
                &&& idx < 8 && ieee(0x3f80_0000).below(value) ==> a.macros@[idx as int] == ieee(
                    0x3f80_0000,
                )
                &&& idx < 8 && value.below(ieee(0)) ==> a.macros@[idx as int] == ieee(0)
                &&& forall|i: int| 0 <= i < 8 && i != idx ==> #[trigger] a.macros@[i] == b.macros@[i]
            }
            &&& !(edit is SetMacro) ==> a.macros == b.macros
        }),
        after.voices == before.voices,
        after.mix == before.mix,
        after.seq_enabled == before.seq_enabled,
        after.macro_labels == before.macro_labels,
        after.midi_cc == before.midi_cc,
{
}

/// No other action changes what is saved of the sound.
pub proof fn other_actions_save_no_sound<P, M>(
    after: PersistState<P, M>,
    before: PersistState<P, M>,
    a: Action,
)
    requires
        rest_saved(after, before, a),
        !(a is Edit),
    ensures
        after.mod_state == before.mod_state,
        after.voices == before.voices,
        after.mix == before.mix,
        after.seq_enabled == before.seq_enabled,
        after.macro_labels == before.macro_labels,
        after.midi_cc == before.midi_cc,
{
}

/// An undo puts the newest pattern of its stack into the selected slot and the one that was
/// there onto the other stack; a redo does the same with the stacks exchanged. With an empty
/// stack neither changes anything.
pub proof fn undo_and_redo_exchange_patterns<P, M>(
    after: PersistState<P, M>,
    session: Session<P, M>,
    before: PersistState<P, M>,
    earlier: Session<P, M>,
    a: Action,
)
    requires
        patterns_moved(after, session, before, earlier, a),
        a is Undo || a is Redo,
        before.seq.current < before.seq.patterns@.len(),
        earlier.undo.items@.len() <= 64,
        earlier.redo.items@.len() <= 64,
    ensures
        ({
            let cur = before.seq.current as int;
            let (was, is) = (before.seq.patterns@, after.seq.patterns@);
            let (from, left) = if a is Undo {
                (earlier.undo.items@, session.undo.items@)
            } else {
                (earlier.redo.items@, session.redo.items@)
            };
            let (onto, grown) = if a is Undo {
                (earlier.redo.items@, session.redo.items@)
            } else {
                (earlier.undo.items@, session.undo.items@)
            };
            &&& is.len() == was.len()
            &&& forall|i: int| 0 <= i < was.len() && i != cur ==> #[trigger] is[i] == was[i]
            &&& from.len() == 0 ==> is[cur] == was[cur] && left == from && grown == onto
            &&& from.len() > 0 ==> {
                &&& is[cur] == from[from.len() - 1]
                &&& left == from.take(from.len() - 1)
                &&& grown.len() > 0 && grown[grown.len() - 1] == was[cur]
                &&& onto.len() < 64 ==> grown == onto.push(was[cur])
            }
            &&& after.seq.current == before.seq.current
        }),
{
}

/// A parameter is set to what was asked for, from 0.0 to 1.0, and to the nearer end
/// outside.
pub proof fn a_parameter_is_set_within_its_range(
    id: u8,
    value: Ieee32,
    kits: Seq<Kit>,
    undoable: bool,
    redoable: bool,
)
    requires
        !value.nan(),
    ensures
        effects_of(Action::ParamSet { id, value }, kits, undoable, redoable)[0] matches
            Effect::SetParam { param, value: set } && param == ParamId::of_gesture(id)
            && settles_in_unit(set, value),
{
}

} // verus!

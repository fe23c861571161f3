//! What the window's actions do, and taking them back.

use drumlin::editor::{action_mutates_pattern, perform, Action, Effect, Session};
use drumlin::engine::SeqEdit;
use drumlin::history::{History, UNDO_CAP};
use drumlin::ieee::{ieee, Ieee32};
use drumlin::kits::factory_kits;
use drumlin::params::{pump_rate_label, ParamId};
use drumlin::sound::{apply_sound, snapshot_current, AbState};
use drumlin::state::{default_macro_labels, Bank, DrumModSlot, LfoCfg, PersistState, VoicePatch};

fn bits(x: f32) -> Ieee32 {
    ieee(x.to_bits())
}

type State = PersistState<u32, u8>;

fn idle() -> [DrumModSlot; 16] {
    [DrumModSlot { src: 0, dst: 0, depth: bits(0.0), target_voice: 255 }; 16]
}

fn fresh() -> State {
    let bank = Bank { patterns: vec![10, 20, 30], current: 1 };
    PersistState::fresh(bank, VoicePatch { tracks: [[bits(0.5); 5]; 12] }, 3, idle())
}

fn session() -> Session<u32, u8> {
    Session { undo: History::new(), redo: History::new(), ab: AbState::new() }
}

fn edit(edit: SeqEdit) -> Action {
    Action::Edit { edit }
}

fn step() -> Action {
    edit(SeqEdit::SetStep { track: 1, step: 2, on: true })
}

fn act(state: &mut State, session: &mut Session<u32, u8>, a: Action) -> String {
    format!("{:?}", perform(state, session, &factory_kits(), a))
}

fn effects(list: Vec<Effect>) -> String {
    format!("{list:?}")
}

#[test]
fn an_edit_is_taken_back_and_made_again() {
    let (mut st, mut se) = (fresh(), session());
    assert_eq!(
        act(&mut st, &mut se, step()),
        effects(vec![Effect::SendEdit { edit: SeqEdit::SetStep { track: 1, step: 2, on: true } }])
    );
    st.seq.patterns[1] = 21;
    let both = effects(vec![Effect::Adopt, Effect::Reseed]);
    assert_eq!(act(&mut st, &mut se, Action::Undo), both);
    assert_eq!(st.seq.patterns, vec![10, 20, 30]);
    assert_eq!(act(&mut st, &mut se, Action::Redo), both);
    assert_eq!(st.seq.patterns, vec![10, 21, 30]);
    assert_eq!(act(&mut st, &mut se, Action::Redo), effects(vec![]));
}

#[test]
fn an_edit_after_an_undo_forgets_the_redo() {
    let (mut st, mut se) = (fresh(), session());
    act(&mut st, &mut se, step());
    st.seq.patterns[1] = 21;
    act(&mut st, &mut se, Action::Undo);
    act(&mut st, &mut se, step());
    assert!(se.redo.items.is_empty());
    assert_eq!(act(&mut st, &mut se, Action::Redo), effects(vec![]));
}

#[test]
fn the_oldest_pattern_is_forgotten_beyond_the_cap() {
    let (mut st, mut se) = (fresh(), session());
    for n in 0..UNDO_CAP as u32 + 3 {
        st.seq.patterns[1] = n;
        act(&mut st, &mut se, step());
    }
    assert_eq!(se.undo.items.len(), UNDO_CAP);
    assert_eq!(se.undo.items[0], 3);
    assert_eq!(se.undo.items[UNDO_CAP - 1], UNDO_CAP as u32 + 2);
}

#[test]
fn nothing_is_kept_where_nothing_is_selected() {
    let (mut st, mut se) = (fresh(), session());
    st.seq.current = 7;
    act(&mut st, &mut se, step());
    assert!(se.undo.items.is_empty());
    assert_eq!(act(&mut st, &mut se, Action::Undo), effects(vec![]));
}

#[test]
fn only_grid_edits_can_be_undone() {
    let grid = [
        SeqEdit::SetStep { track: 0, step: 0, on: true },
        SeqEdit::SetPlock { track: 0, step: 0, param: 1, value: bits(0.5) },
        SeqEdit::ClearPlock { track: 0, step: 0, param: 1 },
        SeqEdit::ClearLane { track: 0 },
        SeqEdit::Euclid { track: 0, pulses: 4, rotate: 1 },
    ];
    for e in grid {
        assert!(action_mutates_pattern(&edit(e)), "{e:?}");
    }
    let rest = [
        SeqEdit::Fill { on: true },
        SeqEdit::SelectPattern { idx: 1 },
        SeqEdit::Swing { value: 60 },
        SeqEdit::Humanize { value: 10 },
        SeqEdit::SetMacro { idx: 0, value: bits(0.5) },
        SeqEdit::SetVoiceParam { track: 0, param: 0, value: bits(0.5) },
    ];
    for e in rest {
        assert!(!action_mutates_pattern(&edit(e)), "{e:?}");
    }
    assert!(!action_mutates_pattern(&Action::Undo));
}

#[test]
fn sound_edits_are_sent_and_saved() {
    let (mut st, mut se) = (fresh(), session());
    let slot = SeqEdit::SetModSlot { slot: 3, src: 4, dst: 5, depth: bits(-2.0), voice: 7 };
    assert_eq!(
        act(&mut st, &mut se, edit(slot)),
        effects(vec![Effect::SendEdit { edit: slot }])
    );
    assert_eq!(
        st.mod_state.slots[3],
        DrumModSlot { src: 4, dst: 5, depth: bits(-1.0), target_voice: 7 }
    );
    let lfo = SeqEdit::SetLfo {
        idx: 0,
        shape: 3,
        rate: bits(4.0),
        depth: bits(0.5),
        retrig: true,
    };
    act(&mut st, &mut se, edit(lfo));
    assert_eq!(
        st.mod_state.lfo1,
        LfoCfg { shape: 3, rate_hz: bits(4.0), depth: bits(0.5), retrig: true }
    );
    act(&mut st, &mut se, edit(SeqEdit::SetModEnv { attack: bits(0.1), decay: bits(0.2) }));
    assert_eq!((st.mod_state.env_attack, st.mod_state.env_decay), (bits(0.1), bits(0.2)));
    act(&mut st, &mut se, edit(SeqEdit::SetMacro { idx: 7, value: bits(4.0) }));
    assert_eq!(st.mod_state.macros[7], bits(1.0));
    let before = format!("{:?}", st.mod_state);
    act(&mut st, &mut se, edit(SeqEdit::SetMacro { idx: 8, value: bits(0.5) }));
    let wild = SeqEdit::SetModSlot { slot: 16, src: 4, dst: 5, depth: bits(0.5), voice: 7 };
    act(&mut st, &mut se, edit(wild));
    assert_eq!(format!("{:?}", st.mod_state), before);
    assert!(se.undo.items.is_empty());
}

#[test]
fn voice_and_strip_edits_are_written_where_they_exist() {
    let (mut st, mut se) = (fresh(), session());
    let value = bits(0.3);
    let voice = SeqEdit::SetVoiceParam { track: 11, param: 4, value };
    assert_eq!(
        act(&mut st, &mut se, edit(voice)),
        effects(vec![
            Effect::SendEdit { edit: voice },
            Effect::WriteVoice { track: 11, param: 4, value },
        ])
    );
    let pitch = SeqEdit::SetVoiceParam { track: 0, param: 5, value };
    assert_eq!(
        act(&mut st, &mut se, edit(pitch)),
        effects(vec![Effect::SendEdit { edit: pitch }])
    );
    let strip = SeqEdit::SetVoiceMix { track: 12, field: 0, value };
    assert_eq!(
        act(&mut st, &mut se, edit(strip)),
        effects(vec![Effect::SendEdit { edit: strip }])
    );
}

#[test]
fn kits_are_recalled_by_id() {
    let (mut st, mut se) = (fresh(), session());
    let recall = |id: &str| Action::RecallKit { id: id.to_string() };
    assert_eq!(
        act(&mut st, &mut se, recall("marseille")),
        effects(vec![Effect::Recall { kit: 2 }])
    );
    assert_eq!(act(&mut st, &mut se, recall("nope")), effects(vec![]));
}

#[test]
fn other_actions_say_what_to_do() {
    let (mut st, mut se) = (fresh(), session());
    let name = || "x".to_string();
    let cases = vec![
        (Action::Init, vec![Effect::Reseed]),
        (Action::Note { on: true, note: 36 }, vec![Effect::SendPad { on: true, note: 36 }]),
        (Action::Note { on: false, note: 36 }, vec![Effect::SendPad { on: false, note: 36 }]),
        (
            Action::PresetSave { name: name() },
            vec![Effect::SavePreset { name: name() }, Effect::ListPresets],
        ),
        (Action::PresetLoad { name: name() }, vec![Effect::LoadPreset { name: name() }]),
        (
            Action::PresetDelete { name: name() },
            vec![Effect::DeletePreset { name: name() }, Effect::ListPresets],
        ),
        (Action::AbStore { slot: 1 }, vec![Effect::CaptureAb { slot: 1 }]),
        (Action::AbRecall { slot: 0 }, vec![Effect::ApplyAb { slot: 0 }]),
        (Action::MidiLearn { macro_idx: 7 }, vec![Effect::ArmLearn { macro_idx: 7 }]),
        (Action::MidiLearn { macro_idx: 8 }, vec![]),
        (Action::MidiClear { macro_idx: 8 }, vec![Effect::ClearLearned { macro_idx: 8 }]),
        (Action::Transport { play: true }, vec![Effect::SetPlay { play: true }]),
        (Action::SeqEnable { on: false }, vec![Effect::SetSeq { on: false }]),
        (Action::SidechainEnable { on: true }, vec![Effect::SetSidechain { on: true }]),
        (Action::ParamBegin { id: 9 }, vec![Effect::BeginParam { param: ParamId::GateTime }]),
        (
            Action::ParamSet { id: 1, value: bits(1.5) },
            vec![Effect::SetParam { param: ParamId::Pump, value: bits(1.0) }],
        ),
        (Action::ParamEnd { id: 200 }, vec![Effect::EndParam { param: ParamId::Gain }]),
    ];
    for (a, want) in cases {
        assert_eq!(act(&mut st, &mut se, a), effects(want));
    }
    assert_eq!(format!("{st:?}"), format!("{:?}", fresh()));
}

#[test]
fn a_captured_sound_is_heard_again() {
    let mut st = fresh();
    st.mod_state.macros[0] = bits(0.25);
    let snap = snapshot_current(&st, [bits(0.5); 9], true);
    let mut later = fresh();
    later.voices.tracks[0][0] = bits(9.0);
    later.mix = 99;
    later.seq.patterns = vec![7];
    apply_sound(&mut later, &snap);
    assert_eq!(later.voices.tracks, st.voices.tracks);
    assert_eq!(later.mix, 3);
    assert_eq!(later.mod_state.macros[0], bits(0.25));
    assert_eq!(later.macro_labels, default_macro_labels());
    assert_eq!(later.seq.patterns, vec![7], "a sound leaves the patterns alone");
}

#[test]
fn registers_are_compared_and_copied() {
    let (mut st, mut se) = (fresh(), session());
    assert!(se.ab.recall(0).is_none());
    let sound = |m: u8| {
        let mut s = fresh();
        s.mix = m;
        snapshot_current(&s, [bits(0.0); 9], false)
    };
    se.ab.store(0, sound(1));
    se.ab.store(1, sound(2));
    assert_eq!(se.ab.active, 1);
    assert_eq!(se.ab.recall(0).unwrap().mix, 1);
    assert_eq!(se.ab.active, 0);
    act(&mut st, &mut se, Action::AbCopy);
    assert_eq!(se.ab.recall(1).unwrap().mix, 1, "the active register went into the other");
    se.ab.store(5, sound(3));
    assert_eq!(se.ab.b.as_ref().unwrap().mix, 3, "any other slot is the second");
    act(&mut st, &mut se, Action::AbCopy);
    assert_eq!(se.ab.a.as_ref().unwrap().mix, 3);
}

#[test]
fn parameters_are_told_by_their_gestures() {
    let ids: Vec<ParamId> = (1..=9).map(ParamId::from_gesture).collect();
    for (i, id) in ids.iter().enumerate() {
        assert_eq!(id.gesture(), i as u8 + 1);
        let spec = id.spec();
        assert!(spec.min.le(spec.default) && spec.default.le(spec.max), "{}", spec.key);
    }
    assert_eq!(ParamId::from_gesture(0), ParamId::Gain);
    assert_eq!(ParamId::from_gesture(10), ParamId::Gain);
    let gate = ParamId::GateTime.spec();
    assert_eq!((gate.key, gate.name, gate.unit), ("gate_time", "Gate Time", " ms"));
    assert_eq!((gate.default, gate.min, gate.max), (bits(120.0), bits(20.0), bits(400.0)));
    let gain = ParamId::Gain.spec();
    assert_eq!((gain.default, gain.min, gain.max), (bits(-3.0), bits(-60.0), bits(6.0)));
}

#[test]
fn pump_rates_are_labelled_by_division() {
    let labels: Vec<&str> = (0..7).map(pump_rate_label).collect();
    assert_eq!(labels, vec!["1/1", "1/2", "1/4", "1/8", "1/16", "1/16", "1/16"]);
}

#[test]
fn a_route_to_nowhere_is_stored_as_none() {
    let (mut st, mut se) = (fresh(), session());
    let ask = |src: u16, dst: u16| {
        edit(SeqEdit::SetModSlot { slot: 2, src, dst, depth: bits(0.5), voice: 255 })
    };
    let cases = [(20, 12, (20, 12)), (21, 12, (0, 12)), (20, 13, (20, 0)), (999, 999, (0, 0))];
    for (src, dst, want) in cases {
        act(&mut st, &mut se, ask(src, dst));
        let slot = st.mod_state.slots[2];
        assert_eq!((slot.src, slot.dst), want);
    }
}

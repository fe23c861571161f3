//! Recalling kits, and the factory's rows and grooves.

use drumlin::ieee::{ieee, Ieee32};
use drumlin::kits::{factory_kits, Kit, KitRow, DEFAULT_MACRO_LABELS};
use drumlin::pattern::{Pattern, Step, Track, TrigCondition, MAX_STEPS, MAX_TRACKS};
use drumlin::recall::{stage_kit, Defaults, MixEdit, StagedBus};
use drumlin::state::{
    default_macro_labels, Bank, DrumModSlot, LfoCfg, PersistState, VoicePatch, N_TAIL_PARAMS,
};
use drumlin::worlds::{build_groove, hits};

fn bits(x: f32) -> Ieee32 {
    ieee(x.to_bits())
}

fn blank() -> Pattern {
    let step = || Step {
        on: false,
        velocity: 100,
        accent: false,
        probability: 100,
        ratchet: 1,
        ratchet_ramp: 0,
        micro: 0,
        condition: TrigCondition::Plain { code: 0 },
        plocks: Vec::new(),
    };
    let track = || Track {
        muted: false,
        length: 16,
        swing: -1,
        level: 127,
        steps: (0..MAX_STEPS).map(|_| step()).collect(),
    };
    Pattern {
        length: 16,
        swing: 50,
        humanize: 0,
        groove_amount: 0,
        seed: 0,
        tracks: (0..MAX_TRACKS).map(|_| track()).collect(),
    }
}

fn idle() -> [DrumModSlot; 16] {
    [DrumModSlot { src: 0, dst: 0, depth: bits(0.0), target_voice: 255 }; 16]
}

fn default_voices() -> VoicePatch {
    VoicePatch { tracks: [[bits(0.75); 5]; 12] }
}

fn defaults() -> Defaults<u8> {
    Defaults { voices: default_voices(), mix: 0, slots: idle() }
}

fn fresh() -> PersistState<Pattern, u8> {
    let bank = Bank { patterns: (0..3).map(|_| blank()).collect(), current: 1 };
    PersistState::fresh(bank, default_voices(), 9, idle())
}

/// Engine units that tell the rows apart.
fn engine(kit: &Kit) -> Vec<Ieee32> {
    (0..kit.rows.len()).map(|i| bits(100.0 + i as f32)).collect()
}

fn recall(state: &mut PersistState<Pattern, u8>, kit: &Kit) -> StagedBus {
    let groove = kit.pattern.map(|g| build_groove(g, blank()));
    stage_kit(state, kit, defaults(), &engine(kit), groove)
}

fn kit_of(rows: Vec<KitRow>) -> Kit {
    Kit {
        id: "t",
        name: "T",
        blurb: "",
        rows,
        macro_labels: DEFAULT_MACRO_LABELS,
        pattern: None,
    }
}

#[test]
fn stage_kit_resets_then_applies_rows() {
    let kit = kit_of(vec![
        KitRow::Voice { track: 0, param: 2, norm: bits(0.3) },
        KitRow::Mix { track: 2, field: 0, norm: bits(0.6) },
        KitRow::ModSlot { slot: 0, src: 3, dst: 3, depth: bits(0.5), voice: 255 },
        KitRow::Lfo { idx: 0, shape: 2, rate: bits(8.0), depth: bits(1.0), retrig: false },
        KitRow::ModEnv { attack: bits(0.01), decay: bits(0.4) },
        KitRow::Bus { id: 1, norm: bits(0.8) },
        KitRow::Sidechain { on: true },
    ]);
    let mut state = fresh();
    state.voices.tracks[0][0] = bits(9.9);
    let staged = recall(&mut state, &kit);

    assert_eq!(state.voices.tracks[0][0], default_voices().tracks[0][0], "reset before apply");
    assert_eq!(state.voices.tracks[0][2], bits(100.0));
    assert_eq!(staged.mix, vec![MixEdit { track: 2, field: 0, norm: bits(0.6) }]);
    assert_eq!(state.mix, 0);
    assert_eq!(state.mod_state.slots[0].src, 3);
    assert_eq!(state.mod_state.slots[0].dst, 3);
    assert_eq!(state.mod_state.lfo1.shape, 2);
    assert_eq!(state.mod_state.lfo1.rate_hz, bits(8.0));
    assert_eq!(state.mod_state.env_decay, bits(0.4));
    assert_eq!(staged.bus[1], Some(bits(0.8)));
    assert_eq!(staged.bus[3], None);
    assert_eq!(staged.sidechain, Some(true));
}

#[test]
fn all_factory_kits_stage_cleanly() {
    for kit in &factory_kits() {
        let mut state = fresh();
        let _ = recall(&mut state, kit);
        if kit.pattern.is_some() {
            let cur = state.seq.current as usize;
            let any_on =
                state.seq.patterns[cur].tracks.iter().any(|t| t.steps.iter().any(|s| s.on));
            assert!(any_on, "GROOVE WORLD {} must load a non-empty groove", kit.id);
        }
    }
}

#[test]
fn factory_world_rows_decode_to_active_targets() {
    for kit in &factory_kits() {
        for row in &kit.rows {
            match *row {
                KitRow::Voice { track, param, .. } => {
                    assert!((track as usize) < MAX_TRACKS, "{}: Voice track OOB", kit.id);
                    assert!((param as usize) < N_TAIL_PARAMS, "{}: Voice param OOB", kit.id);
                }
                KitRow::Mix { track, field, .. } => {
                    assert!((track as usize) < MAX_TRACKS, "{}: Mix track OOB", kit.id);
                    assert!(field <= 9, "{}: Mix field OOB", kit.id);
                }
                KitRow::ModSlot { slot, src, dst, voice, .. } => {
                    assert!((slot as usize) < 16, "{}: ModSlot index OOB", kit.id);
                    assert!((1..21).contains(&src), "{}: ModSlot src is inert", kit.id);
                    assert!((1..13).contains(&dst), "{}: ModSlot dst is inert", kit.id);
                    assert!(
                        voice == 0xFF || (voice as usize) < MAX_TRACKS,
                        "{}: ModSlot target_voice OOB",
                        kit.id
                    );
                }
                KitRow::Lfo { idx, .. } => assert!(idx <= 1, "{}: Lfo idx OOB", kit.id),
                KitRow::ModEnv { attack, decay } => {
                    let (a, d) = (f32::from_bits(attack.bits), f32::from_bits(decay.bits));
                    assert!(
                        a.is_finite() && a >= 0.0 && d.is_finite() && d >= 0.0,
                        "{}: ModEnv times must be finite + non-negative",
                        kit.id
                    );
                }
                KitRow::Bus { id, .. } => {
                    assert!((1..=9).contains(&id), "{}: Bus id {id} out of 1..=9", kit.id)
                }
                KitRow::Sidechain { .. } => {}
            }
        }
    }
}

#[test]
fn rows_that_address_nothing_do_nothing() {
    let kit = kit_of(vec![
        KitRow::Voice { track: 12, param: 0, norm: bits(0.3) },
        KitRow::Voice { track: 0, param: 5, norm: bits(0.3) },
        KitRow::Mix { track: 12, field: 0, norm: bits(0.6) },
        KitRow::ModSlot { slot: 16, src: 3, dst: 3, depth: bits(0.5), voice: 255 },
        KitRow::Bus { id: 10, norm: bits(0.5) },
    ]);
    let mut state = fresh();
    let staged = recall(&mut state, &kit);
    assert_eq!(state.voices, default_voices());
    assert_eq!(state.mod_state.slots, idle());
    assert!(staged.mix.is_empty() && staged.bus.iter().all(|b| b.is_none()));
    assert_eq!(staged.sidechain, None);
}

#[test]
fn the_last_row_for_a_place_wins_and_values_are_held_in_range() {
    let kit = kit_of(vec![
        KitRow::Bus { id: 4, norm: bits(0.2) },
        KitRow::Bus { id: 4, norm: bits(1.7) },
        KitRow::ModSlot { slot: 2, src: 1, dst: 2, depth: bits(-3.0), voice: 4 },
        KitRow::Lfo { idx: 9, shape: 4, rate: bits(0.5), depth: bits(0.25), retrig: true },
        KitRow::Voice { track: 3, param: 1, norm: bits(0.1) },
        KitRow::Voice { track: 3, param: 1, norm: bits(0.2) },
    ]);
    let mut state = fresh();
    let staged = recall(&mut state, &kit);
    assert_eq!(staged.bus[4], Some(bits(1.0)));
    assert_eq!(
        state.mod_state.slots[2],
        DrumModSlot { src: 1, dst: 2, depth: bits(-1.0), target_voice: 4 }
    );
    assert_eq!(
        state.mod_state.lfo2,
        LfoCfg { shape: 4, rate_hz: bits(0.5), depth: bits(0.25), retrig: true }
    );
    assert_eq!(state.voices.tracks[3][1], bits(105.0));
}

#[test]
fn a_recall_forgets_what_was_there() {
    let kits = factory_kits();
    let mut clean = fresh();
    let mut dirty = fresh();
    let _ = recall(&mut dirty, &kits[4]);
    dirty.mod_state.macros[3] = bits(0.5);
    let a = recall(&mut clean, &kits[2]);
    let b = recall(&mut dirty, &kits[2]);
    assert_eq!(clean.voices, dirty.voices);
    assert_eq!(clean.mod_state, dirty.mod_state);
    assert_eq!(clean.macro_labels, dirty.macro_labels);
    assert_eq!(format!("{a:?}"), format!("{b:?}"));
    assert_eq!(format!("{:?}", clean.seq), format!("{:?}", dirty.seq));
}

#[test]
fn neutral_is_the_bare_machine() {
    let mut state = fresh();
    let _ = recall(&mut state, &factory_kits()[3]);
    let staged = recall(&mut state, &factory_kits()[0]);
    assert_eq!(state.voices, default_voices());
    assert_eq!(state.mod_state, fresh().mod_state);
    assert_eq!(state.macro_labels, default_macro_labels());
    assert!(staged.bus.iter().all(|b| b.is_none()) && staged.mix.is_empty());
}

#[test]
fn a_groove_lands_in_the_selected_slot_alone() {
    let mut state = fresh();
    let _ = recall(&mut state, &factory_kits()[1]);
    let on = |p: &Pattern| p.tracks.iter().any(|t| t.steps.iter().any(|s| s.on));
    assert_eq!(state.seq.patterns.iter().map(on).collect::<Vec<_>>(), vec![false, true, false]);
    let mut nowhere = fresh();
    nowhere.seq.current = 200;
    let _ = recall(&mut nowhere, &factory_kits()[1]);
    assert!(!nowhere.seq.patterns.iter().any(on));
    assert_eq!(nowhere.seq.current, 200);
}

#[test]
fn marked_steps_carry_their_velocities() {
    let mut p = blank();
    hits(&mut p, 7, &vec![0, 3, 5], &vec![3]);
    let shown: Vec<(usize, u8, bool)> = (0..MAX_STEPS)
        .filter(|&s| p.tracks[7].steps[s].on)
        .map(|s| (s, p.tracks[7].steps[s].velocity, p.tracks[7].steps[s].accent))
        .collect();
    assert_eq!(shown, vec![(0, 102, false), (3, 122, true), (5, 102, false)]);
    assert!(!p.tracks[6].steps.iter().any(|s| s.on));
}

#[test]
fn a_fresh_machine_has_slow_and_fast_lfos() {
    let m = fresh().mod_state;
    assert_eq!(m.lfo1, LfoCfg { shape: 0, rate_hz: bits(2.0), depth: bits(1.0), retrig: false });
    assert_eq!(m.lfo2, LfoCfg { shape: 1, rate_hz: bits(5.0), depth: bits(1.0), retrig: false });
    assert_eq!((m.env_attack, m.env_decay), (bits(0.005), bits(0.5)));
    assert!(fresh().seq_enabled && fresh().midi_cc.is_empty());
}

#[test]
fn a_row_to_nowhere_leaves_a_loose_route() {
    let kit = kit_of(vec![
        KitRow::ModSlot { slot: 0, src: 21, dst: 12, depth: bits(0.5), voice: 3 },
        KitRow::ModSlot { slot: 1, src: 20, dst: 200, depth: bits(-3.0), voice: 255 },
    ]);
    let mut state = fresh();
    recall(&mut state, &kit);
    let slots = state.mod_state.slots;
    assert_eq!(slots[0], DrumModSlot { src: 0, dst: 12, depth: bits(0.5), target_voice: 3 });
    assert_eq!(slots[1], DrumModSlot { src: 20, dst: 0, depth: bits(-1.0), target_voice: 255 });
}

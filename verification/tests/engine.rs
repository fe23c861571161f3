//! Blocks, transport, controllers and queues on the audio side.

use drumlin::engine::{
    active_mask, adoption_call, aux_outputs, due, pack_status, pad_word, plan_recall, playhead,
    struck_note, Call, ClockMove, Engine, SeqEdit, Status, Transport, N_ADOPTION_CALLS,
};
use drumlin::ieee::{ieee, Ieee32};
use drumlin::lfo::LfoShape;
use drumlin::midi_learn::{macro_cc_map, rebuild, saved_pairs, unbound, Learn, LearnWatch};
use drumlin::queue::{
    edit_queue, heard_pad, next_edit, next_pad, pad_queue, send_edit, send_pad, EDIT_QUEUE_CAP,
    KBD_QUEUE_CAP,
};
use drumlin::state::{DrumModSlot, ModState};

fn bits(x: f32) -> Ieee32 {
    ieee(x.to_bits())
}

fn transport(host: bool, internal: bool, seq: bool) -> Transport {
    Transport {
        host_playing: host,
        host_has_position: true,
        internal_playing: internal,
        seq_on: seq,
    }
}

#[test]
fn the_host_transport_wins() {
    let mut e = Engine::new();
    let p = e.plan_block(transport(true, true, true));
    assert!(p.run && p.use_host_position && p.retrigger && !p.rewind);
    assert_eq!(p.clock, ClockMove::FollowBlock);
    let q = e.plan_block(Transport { host_has_position: false, ..transport(true, false, true) });
    assert!(q.run && !q.use_host_position && !q.retrigger);
}

#[test]
fn a_fresh_preview_rewinds_once() {
    let mut e = Engine::new();
    let p = e.plan_block(transport(false, true, true));
    assert!(p.rewind && p.run && p.retrigger && !p.use_host_position);
    assert_eq!(p.clock, ClockMove::Advance);
    let q = e.plan_block(transport(false, true, true));
    assert!(!q.rewind && q.run && !q.retrigger);
    e.reset();
    assert!(e.plan_block(transport(false, true, true)).rewind);
}

#[test]
fn the_switch_keeps_the_grid_silent() {
    let mut e = Engine::new();
    for (host, internal) in [(true, false), (false, true), (true, true), (false, false)] {
        let p = e.plan_block(transport(host, internal, false));
        assert!(!p.run && !p.retrigger);
    }
    assert_eq!(e.plan_block(transport(false, false, true)).clock, ClockMove::Stay);
    let p = e.plan_block(transport(true, false, true));
    assert!(p.retrigger, "the modulation restarts when the grid starts");
}

#[test]
fn edits_become_calls_and_dirty_the_bank() {
    let mut e = Engine::new();
    let sound = [
        SeqEdit::SetVoiceParam { track: 1, param: 2, value: bits(0.5) },
        SeqEdit::SetVoiceMix { track: 1, field: 2, value: bits(0.5) },
        SeqEdit::SetModSlot { slot: 1, src: 2, dst: 3, depth: bits(0.5), voice: 4 },
        SeqEdit::SetLfo { idx: 0, shape: 2, rate: bits(1.0), depth: bits(1.0), retrig: true },
        SeqEdit::SetModEnv { attack: bits(0.1), decay: bits(0.2) },
        SeqEdit::SetMacro { idx: 2, value: bits(0.75) },
    ];
    for ed in sound {
        e.apply_edit(ed);
    }
    assert!(!e.seq_dirty, "edits of the sound leave the bank clean");
    assert_eq!(e.macros[2], bits(0.75));
    assert_eq!(
        e.apply_edit(SeqEdit::SetLfo {
            idx: 3,
            shape: 9,
            rate: bits(1.0),
            depth: bits(0.5),
            retrig: false,
        }),
        Call::Lfo2 { shape: LfoShape::Sine, rate: bits(1.0), depth: bits(0.5), retrig: false }
    );
    assert_eq!(e.apply_edit(SeqEdit::SetMacro { idx: 8, value: bits(0.1) }), Call::Macros);
    assert_eq!(
        e.apply_edit(SeqEdit::Euclid { track: 200, pulses: 5, rotate: 2 }),
        Call::Euclid { track: 200, pulses: 5, rotate: 2 }
    );
    assert!(e.seq_dirty);
}

#[test]
fn the_bank_is_saved_when_it_or_the_switch_changed() {
    let mut e = Engine::new();
    assert!(!e.needs_saving(true));
    assert!(e.needs_saving(false));
    e.saved(false);
    assert!(!e.needs_saving(false));
    e.apply_edit(SeqEdit::Fill { on: true });
    assert!(e.needs_saving(false));
    e.saved(false);
    assert!(!e.needs_saving(false));
}

#[test]
fn a_loaded_project_does_not_overwrite_unsaved_edits() {
    let mut e = Engine::new();
    let macros = [bits(0.5); 8];
    e.apply_edit(SeqEdit::ClearLane { track: 0 });
    assert!(!e.adopt_project(false, macros));
    assert!(e.persisted_seq_enabled && e.seq_dirty);
    assert_eq!(e.macros, macros, "the macros are taken over all the same");
    e.saved(true);
    assert!(e.adopt_project(false, macros));
    assert!(!e.persisted_seq_enabled);
}

#[test]
fn a_recall_leaves_nothing_to_save() {
    let mut e = Engine::new();
    e.apply_edit(SeqEdit::ClearLane { track: 0 });
    e.adopt_recall(false, [bits(1.0); 8]);
    assert!(!e.seq_dirty && !e.needs_saving(false));
    assert_eq!(e.macros, [bits(1.0); 8]);
}

#[test]
fn events_come_due_in_order_and_none_is_stranded() {
    let offsets = vec![0, 0, 5, 9, 9, 31];
    let mut done = 0;
    let mut at = Vec::new();
    for i in 0..32usize {
        let to = due(&offsets, done, i);
        for k in done..to {
            at.push((k, i as u32));
        }
        done = to;
    }
    assert_eq!(done, offsets.len());
    let want: Vec<(usize, u32)> = offsets.iter().copied().enumerate().collect();
    assert_eq!(at, want, "every event at its own sample");
    assert_eq!(due(&vec![9, 2], 0, 3), 0, "an event waits for the one before it");
    assert_eq!(due(&vec![9, 2], 0, 9), 2);
}

#[test]
fn pads_are_packed_and_unpacked() {
    for note in [0u8, 1, 36, 127] {
        assert_eq!(struck_note(pad_word(true, note)), Some(note));
        assert_eq!(struck_note(pad_word(false, note)), None);
    }
    assert_eq!(pad_word(true, 36), 0x124);
    assert_eq!(struck_note(pad_word(true, 200)), Some(72), "notes have seven bits");
}

#[test]
fn pads_go_through_the_queue_in_order() {
    let (mut tx, mut rx) = pad_queue();
    assert!(next_pad(&mut rx).is_none());
    assert!(send_pad(&mut tx, true, 36));
    assert!(send_pad(&mut tx, false, 36));
    assert!(send_pad(&mut tx, true, 42));
    assert_eq!(next_pad(&mut rx), Some(Some(36)));
    assert_eq!(next_pad(&mut rx), Some(None));
    assert_eq!(next_pad(&mut rx), Some(Some(42)));
    assert_eq!(next_pad(&mut rx), None);
}

#[test]
fn a_full_queue_drops_what_comes_next() {
    let (mut tx, mut rx) = pad_queue();
    for k in 0..KBD_QUEUE_CAP {
        assert!(send_pad(&mut tx, true, (k % 128) as u8), "room for event {k}");
    }
    assert!(!send_pad(&mut tx, true, 1));
    assert_eq!(next_pad(&mut rx), Some(Some(0)));
    assert!(send_pad(&mut tx, true, 1));
    let (mut tx, _rx) = edit_queue();
    let edit = SeqEdit::Fill { on: true };
    for _ in 0..EDIT_QUEUE_CAP {
        assert!(send_edit(&mut tx, edit));
    }
    assert!(!send_edit(&mut tx, edit));
}

#[test]
fn edits_go_through_the_queue_as_they_are() {
    let (mut tx, mut rx) = edit_queue();
    let edits = [
        SeqEdit::SetPlock { track: 1, step: 2, param: 3, value: bits(0.5) },
        SeqEdit::SelectPattern { idx: 9 },
    ];
    for e in edits {
        assert!(send_edit(&mut tx, e));
    }
    assert_eq!(next_edit(&mut rx), Some(edits[0]));
    assert_eq!(next_edit(&mut rx), Some(edits[1]));
    assert_eq!(next_edit(&mut rx), None);
}

#[test]
fn a_waiting_macro_learns_the_next_controller() {
    let mut e = Engine::new();
    let mut l = Learn::new();
    e.on_cc(&mut l, 20, bits(0.9));
    assert_eq!(e.macros, [bits(0.0); 8], "an unbound controller moves nothing");
    l.arm(3);
    e.on_cc(&mut l, 20, bits(0.5));
    assert_eq!((l.arm, l.map[20]), (-1, 3));
    assert_eq!(e.macros[3], bits(0.5), "the controller that was learned moves at once");
    e.on_cc(&mut l, 20, bits(0.25));
    assert_eq!(e.macros[3], bits(0.25));
    l.arm(8);
    assert_eq!(l.arm, -1, "there is no ninth macro");
    e.on_cc(&mut l, 200, bits(0.75));
    assert_eq!(e.macros[3], bits(0.25));
}

#[test]
fn the_first_controller_is_the_wheel_too() {
    let mut e = Engine::new();
    let mut l = Learn::new();
    l.arm(0);
    e.on_cc(&mut l, 1, bits(0.6));
    assert_eq!((e.mod_wheel, e.macros[0]), (bits(0.6), bits(0.6)));
    e.on_cc(&mut l, 2, bits(0.1));
    assert_eq!(e.mod_wheel, bits(0.6));
}

#[test]
fn a_cleared_macro_is_free_again() {
    let mut l = Learn::new();
    for cc in [4, 9, 70] {
        l.arm(2);
        l.on_cc(cc);
    }
    l.arm(5);
    l.on_cc(9);
    l.arm(2);
    l.clear(2);
    assert_eq!(l.arm, -1);
    let bound: Vec<usize> = (0..128).filter(|&cc| l.map[cc] >= 0).collect();
    assert_eq!(bound, vec![9]);
    assert_eq!(macro_cc_map(&l.map), [-1, -1, -1, -1, -1, 9, -1, -1]);
    l.arm(1);
    l.clear(255);
    assert_eq!((l.arm, l.map[9]), (1, 5));
}

#[test]
fn learned_controllers_are_saved_and_rebuilt() {
    let mut map = unbound();
    map[7] = 0;
    map[8] = 0;
    map[127] = 7;
    assert_eq!(macro_cc_map(&map)[0], 8, "the last controller of a macro is shown");
    let pairs = saved_pairs(&map);
    assert_eq!(pairs, vec![(7, 0), (8, 0), (127, 7)]);
    assert_eq!(rebuild(&pairs), map);
    let odd = rebuild(&vec![(128, 0), (5, 8), (6, 1), (6, 2)]);
    assert_eq!(saved_pairs(&odd), vec![(6, 2)], "pairs out of range are ignored");
}

#[test]
fn a_learned_controller_is_saved_once_it_can_be() {
    let mut w = LearnWatch::new();
    let mut map = unbound();
    assert!(!w.observe(&map));
    assert!(w.save(&map, true).is_none());
    map[3] = 4;
    assert!(w.observe(&map));
    assert!(w.save(&map, false).is_none(), "the state could not be reached");
    assert!(!w.observe(&map));
    assert_eq!(w.save(&map, true), Some(vec![(3, 4)]));
    assert!(w.save(&map, true).is_none());
}

#[test]
fn lanes_light_their_bits() {
    let mut active = [false; 12];
    assert_eq!(active_mask(&active), 0);
    active[0] = true;
    active[11] = true;
    assert_eq!(active_mask(&active), 0x801);
    assert_eq!(active_mask(&[true; 12]), 0xFFF);
}

#[test]
fn the_playhead_is_minus_one_at_rest() {
    assert_eq!(playhead(None), -1);
    assert_eq!(playhead(Some(0)), 0);
    assert_eq!(playhead(Some(63)), 63);
}

#[test]
fn no_more_outputs_are_fed_than_there_are() {
    assert_eq!([0, 3, 4, 9].map(aux_outputs), [0, 3, 4, 4]);
}

#[test]
fn a_status_word_changes_with_every_field() {
    let s = Status {
        duck: 9,
        pattern: 3,
        seq_on: true,
        playing: false,
        voices: 0x801,
        playhead: 12,
    };
    assert_eq!(pack_status(s), 0x9328_010D);
    let others = [
        Status { duck: 8, ..s },
        Status { pattern: 2, ..s },
        Status { seq_on: false, ..s },
        Status { playing: true, ..s },
        Status { voices: 0x800, ..s },
        Status { playhead: -1, ..s },
    ];
    for o in others {
        assert_ne!(pack_status(o), pack_status(s));
    }
}

#[test]
fn a_saved_modulation_is_handed_over_whole() {
    let slot = |i: u16| DrumModSlot {
        src: i,
        dst: 2 * i,
        depth: bits(i as f32 / 16.0),
        target_voice: i as u8,
    };
    let m = ModState::fresh(std::array::from_fn(|i| slot(i as u16)));
    let calls: Vec<Call> = (0..N_ADOPTION_CALLS).map(|i| adoption_call(&m, i)).collect();
    assert_eq!(
        calls[7],
        Call::ModSlot { slot: 7, src: 7, dst: 14, depth: bits(7.0 / 16.0), voice: 7 }
    );
    assert_eq!(
        calls[16],
        Call::Lfo1 { shape: LfoShape::Sine, rate: bits(2.0), depth: bits(1.0), retrig: false }
    );
    assert_eq!(
        calls[17],
        Call::Lfo2 { shape: LfoShape::Triangle, rate: bits(5.0), depth: bits(1.0), retrig: false }
    );
    assert_eq!(calls[18], Call::ModEnv { attack: bits(0.005), decay: bits(0.5) });
    assert_eq!(calls[19], Call::Macros);
}

#[test]
fn a_pop_tells_strikes_releases_and_silence_apart() {
    assert_eq!(heard_pad(Some(pad_word(true, 36))), Some(Some(36)));
    assert_eq!(heard_pad(Some(pad_word(false, 36))), Some(None));
    assert_eq!(heard_pad(None), None);
}

#[test]
fn a_recall_waits_until_the_state_is_reached() {
    let mut pending = true;
    let mut adopted = Vec::new();
    for (i, reached) in [false, false, true, true, false].into_iter().enumerate() {
        let plan = plan_recall(pending, reached);
        pending = plan.pending;
        if plan.adopt {
            adopted.push(i);
        }
    }
    assert_eq!(adopted, vec![2]);
    assert!(!pending);
}

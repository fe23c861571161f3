//! The audio side: what the queued edits, the transport and the MIDI events of
//! a block make the machine do.

use crate::ieee::{ieee, Ieee32, ZERO};
use crate::lfo::{lfo_shape, shape_of, LfoShape};
use crate::midi_learn::{Learn, N_CC};
use crate::pattern::MAX_TRACKS;
use crate::state::{ModState, N_MACROS, N_MOD_SLOTS};
use vstd::arithmetic::power2::{lemma2_to64, lemma_pow2_adds, lemma_pow2_pos, lemma_pow2_strictly_increases, lemma_pow2_unfold, pow2};
use vstd::prelude::*;

verus! {

/// An edit on its way from the editor to the audio side.
#[derive(Clone, Copy, Debug, PartialEq, Eq, Structural)]
#[allow(inconsistent_fields)]
pub enum SeqEdit {
    SetStep { track: u8, step: u8, on: bool },
    StepParams {
        track: u8,
        step: u8,
        on: bool,
        vel: u8,
        accent: bool,
        prob: u8,
        rat: u8,
        micro: i16,
        cond: u8,
        ra: u8,
        rb: u8,
    },
    SetPlock { track: u8, step: u8, param: u16, value: Ieee32 },
    ClearPlock { track: u8, step: u8, param: u16 },
    ClearLane { track: u8 },
    Euclid { track: u8, pulses: u8, rotate: u8 },
    Fill { on: bool },
    SelectPattern { idx: u8 },
    Swing { value: u8 },
    Humanize { value: u8 },
    SetVoiceParam { track: u8, param: u16, value: Ieee32 },
    SetVoiceMix { track: u8, field: u8, value: Ieee32 },
    SetModSlot { slot: u8, src: u16, dst: u16, depth: Ieee32, voice: u8 },
    SetLfo { idx: u8, shape: u8, rate: Ieee32, depth: Ieee32, retrig: bool },
    SetModEnv { attack: Ieee32, decay: Ieee32 },
    SetMacro { idx: u8, value: Ieee32 },
}

/// A pad event as it is queued: the note, and 256 more while the pad is down.
pub open spec fn word_of(on: bool, note: u8) -> u16 {
    (note as int + if on {
        256int
    } else {
        0
    }) as u16
}

/// A pad event as it is queued.
pub fn pad_word(on: bool, note: u8) -> (r: u16)
    ensures
        r == word_of(on, note),
{
    if on {
        note as u16 + 256
    } else {
        note as u16
    }
}

/// The note of a queued pad event, if the pad went down: drums ignore releases.
pub open spec fn struck(word: u16) -> Option<u8> {
    if word / 256 % 2 == 1 {
        Some((word % 128) as u8)
    } else {
        None
    }
}

/// The note of a queued pad event, if the pad went down.
pub fn struck_note(word: u16) -> (r: Option<u8>)
    ensures
        r == struck(word),
{
    if word / 256 % 2 == 1 {
        Some((word % 128) as u8)
    } else {
        None
    }
}

/// A pad event that was queued comes out as the note that was struck; a release
/// comes out as nothing.
pub proof fn pads_come_out_as_struck(on: bool, note: u8)
    ensures
        struck(word_of(on, note)) == if on {
            Some((note % 128) as u8)
        } else {
            None::<u8>
        },
{
}

/// A call that an edit makes on the sequencer, the voices or the modulation.
#[derive(Clone, Copy, Debug, PartialEq, Eq, Structural)]
#[allow(inconsistent_fields)]
pub enum Call {
    VoiceParam { track: usize, param: u16, value: Ieee32 },
    VoiceMix { track: usize, field: u8, value: Ieee32 },
    ModSlot { slot: usize, src: usize, dst: usize, depth: Ieee32, voice: u8 },
    Lfo1 { shape: LfoShape, rate: Ieee32, depth: Ieee32, retrig: bool },
    Lfo2 { shape: LfoShape, rate: Ieee32, depth: Ieee32, retrig: bool },
    ModEnv { attack: Ieee32, decay: Ieee32 },
    /// Hand over all macros.
    Macros,
    Step { track: usize, step: usize, on: bool },
    StepParams {
        track: usize,
        step: usize,
        on: bool,
        vel: u8,
        accent: bool,
        prob: u8,
        rat: u8,
        micro: i16,
        cond: u8,
        ra: u8,
        rb: u8,
    },
    Plock { track: usize, step: usize, param: u16, value: Ieee32 },
    ClearPlock { track: usize, step: usize, param: u16 },
    ClearLane { track: usize },
    Euclid { track: usize, pulses: u8, rotate: u8 },
    Fill { on: bool },
    Select { idx: usize },
    Swing { value: u8 },
    Humanize { value: u8 },
}

/// The call that an edit makes.
pub open spec fn call_of(ed: SeqEdit) -> Call {
    match ed {
        SeqEdit::SetVoiceParam { track, param, value } => Call::VoiceParam {
            track: track as usize,
            param,
            value,
        },
        SeqEdit::SetVoiceMix { track, field, value } => Call::VoiceMix {
            track: track as usize,
            field,
            value,
        },
        SeqEdit::SetModSlot { slot, src, dst, depth, voice } => Call::ModSlot {
            slot: slot as usize,
            src: src as usize,
            dst: dst as usize,
            depth,
            voice,
        },
        SeqEdit::SetLfo { idx, shape, rate, depth, retrig } => if idx == 0 {
            Call::Lfo1 { shape: shape_of(shape), rate, depth, retrig }
        } else {
            Call::Lfo2 { shape: shape_of(shape), rate, depth, retrig }
        },
        SeqEdit::SetModEnv { attack, decay } => Call::ModEnv { attack, decay },
        SeqEdit::SetMacro { .. } => Call::Macros,
        SeqEdit::SetStep { track, step, on } => Call::Step {
            track: track as usize,
            step: step as usize,
            on,
        },
        SeqEdit::StepParams { track, step, on, vel, accent, prob, rat, micro, cond, ra, rb } =>
            Call::StepParams {
            track: track as usize,
            step: step as usize,
            on,
            vel,
            accent,
            prob,
            rat,
            micro,
            cond,
            ra,
            rb,
        },
        SeqEdit::SetPlock { track, step, param, value } => Call::Plock {
            track: track as usize,
            step: step as usize,
            param,
            value,
        },
        SeqEdit::ClearPlock { track, step, param } => Call::ClearPlock {
            track: track as usize,
            step: step as usize,
            param,
        },
        SeqEdit::ClearLane { track } => Call::ClearLane { track: track as usize },
        SeqEdit::Euclid { track, pulses, rotate } => Call::Euclid {
            track: track as usize,
            pulses,
            rotate,
        },
        SeqEdit::Fill { on } => Call::Fill { on },
        SeqEdit::SelectPattern { idx } => Call::Select { idx: idx as usize },
        SeqEdit::Swing { value } => Call::Swing { value },
        SeqEdit::Humanize { value } => Call::Humanize { value },
    }
}

/// Whether an edit changes what the sequencer holds, so that the bank has to be
/// saved again. Edits of the sound are saved by the editor.
pub open spec fn dirties(ed: SeqEdit) -> bool {
    match ed {
        SeqEdit::SetVoiceParam { .. } => false,
        SeqEdit::SetVoiceMix { .. } => false,
        SeqEdit::SetModSlot { .. } => false,
        SeqEdit::SetLfo { .. } => false,
        SeqEdit::SetModEnv { .. } => false,
        SeqEdit::SetMacro { .. } => false,
        _ => true,
    }
}

fn make_call(ed: SeqEdit) -> (r: Call)
    ensures
        r == call_of(ed),
{
    match ed {
        SeqEdit::SetVoiceParam { track, param, value } => Call::VoiceParam {
            track: track as usize,
            param,
            value,
        },
        SeqEdit::SetVoiceMix { track, field, value } => Call::VoiceMix {
            track: track as usize,
            field,
            value,
        },
        SeqEdit::SetModSlot { slot, src, dst, depth, voice } => Call::ModSlot {
            slot: slot as usize,
            src: src as usize,
            dst: dst as usize,
            depth,
            voice,
        },
        SeqEdit::SetLfo { idx, shape, rate, depth, retrig } => {
            let shape = lfo_shape(shape);
            if idx == 0 {
                Call::Lfo1 { shape, rate, depth, retrig }
            } else {
                Call::Lfo2 { shape, rate, depth, retrig }
            }
        },
        SeqEdit::SetModEnv { attack, decay } => Call::ModEnv { attack, decay },
        SeqEdit::SetMacro { idx: _, value: _ } => Call::Macros,
        SeqEdit::SetStep { track, step, on } => Call::Step {
            track: track as usize,
            step: step as usize,
            on,
        },
        SeqEdit::StepParams { track, step, on, vel, accent, prob, rat, micro, cond, ra, rb } =>
            Call::StepParams {
            track: track as usize,
            step: step as usize,
            on,
            vel,
            accent,
            prob,
            rat,
            micro,
            cond,
            ra,
            rb,
        },
        SeqEdit::SetPlock { track, step, param, value } => Call::Plock {
            track: track as usize,
            step: step as usize,
            param,
            value,
        },
        SeqEdit::ClearPlock { track, step, param } => Call::ClearPlock {
            track: track as usize,
            step: step as usize,
            param,
        },
        SeqEdit::ClearLane { track } => Call::ClearLane { track: track as usize },
        SeqEdit::Euclid { track, pulses, rotate } => Call::Euclid {
            track: track as usize,
            pulses,
            rotate,
        },
        SeqEdit::Fill { on } => Call::Fill { on },
        SeqEdit::SelectPattern { idx } => Call::Select { idx: idx as usize },
        SeqEdit::Swing { value } => Call::Swing { value },
        SeqEdit::Humanize { value } => Call::Humanize { value },
    }
}

/// The calls that hand a saved modulation to the machine: every cable, both
/// oscillators, the envelope, and the macros.
pub open spec fn adoption_calls(m: ModState) -> Seq<Call> {
    Seq::new(
        N_MOD_SLOTS as nat,
        |i: int|
            Call::ModSlot {
                slot: i as usize,
                src: m.slots@[i].src as usize,
                dst: m.slots@[i].dst as usize,
                depth: m.slots@[i].depth,
                voice: m.slots@[i].target_voice,
            },
    ) + seq![
        Call::Lfo1 {
            shape: shape_of(m.lfo1.shape),
            rate: m.lfo1.rate_hz,
            depth: m.lfo1.depth,
            retrig: m.lfo1.retrig,
        },
        Call::Lfo2 {
            shape: shape_of(m.lfo2.shape),
            rate: m.lfo2.rate_hz,
            depth: m.lfo2.depth,
            retrig: m.lfo2.retrig,
        },
        Call::ModEnv { attack: m.env_attack, decay: m.env_decay },
        Call::Macros,
    ]
}

/// How many calls hand a saved modulation to the machine.
pub const N_ADOPTION_CALLS: usize = 20;

/// One of the calls that hand a saved modulation to the machine.
pub fn adoption_call(m: &ModState, i: usize) -> (call: Call)
    requires
        i < N_ADOPTION_CALLS,
    ensures
        adoption_calls(*m).len() == N_ADOPTION_CALLS,
        call == adoption_calls(*m)[i as int],
{
    if i < N_MOD_SLOTS {
        let slot = m.slots[i];
        Call::ModSlot {
            slot: i,
            src: slot.src as usize,
            dst: slot.dst as usize,
            depth: slot.depth,
            voice: slot.target_voice,
        }
    } else if i == N_MOD_SLOTS {
        let lfo = m.lfo1;
        Call::Lfo1 {
            shape: lfo_shape(lfo.shape),
            rate: lfo.rate_hz,
            depth: lfo.depth,
            retrig: lfo.retrig,
        }
    } else if i == N_MOD_SLOTS + 1 {
        let lfo = m.lfo2;
        Call::Lfo2 {
            shape: lfo_shape(lfo.shape),
            rate: lfo.rate_hz,
            depth: lfo.depth,
            retrig: lfo.retrig,
        }
    } else if i == N_MOD_SLOTS + 2 {
        Call::ModEnv { attack: m.env_attack, decay: m.env_decay }
    } else {
        Call::Macros
    }
}

fn is_dirtying(ed: SeqEdit) -> (r: bool)
    ensures
        r == dirties(ed),
{
    match ed {
        SeqEdit::SetVoiceParam { .. } => false,
        SeqEdit::SetVoiceMix { .. } => false,
        SeqEdit::SetModSlot { .. } => false,
        SeqEdit::SetLfo { .. } => false,
        SeqEdit::SetModEnv { .. } => false,
        SeqEdit::SetMacro { .. } => false,
        _ => true,
    }
}

/// An edit arrives as it was made: the call it makes has the same target and every
/// value of the edit.
pub proof fn an_edit_arrives_as_made(ed: SeqEdit)
    ensures
        ed matches SeqEdit::SetVoiceParam { track, param, value } ==> call_of(ed) matches Call::VoiceParam {
            track: track_,
            param: param_,
            value: value_,
        } && track_ == track && param_ == param && value_ == value,
        ed matches SeqEdit::SetVoiceMix { track, field, value } ==> call_of(ed) matches Call::VoiceMix {
            track: track_,
            field: field_,
            value: value_,
        } && track_ == track && field_ == field && value_ == value,
        ed matches SeqEdit::SetModSlot { slot, src, dst, depth, voice }
            ==> call_of(ed) matches Call::ModSlot {
            slot: slot_,
            src: src_,
            dst: dst_,
            depth: depth_,
            voice: voice_,
        } && slot_ == slot && src_ == src && dst_ == dst && depth_ == depth && voice_ == voice,
        ed matches SeqEdit::SetModEnv { attack, decay } ==> call_of(ed) matches Call::ModEnv {
            attack: attack_,
            decay: decay_,
        } && attack_ == attack && decay_ == decay,
        ed matches SeqEdit::SetStep { track, step, on } ==> call_of(ed) matches Call::Step {
            track: track_,
            step: step_,
            on: on_,
        } && track_ == track && step_ == step && on_ == on,
        ed matches SeqEdit::StepParams { track, step, on, vel, accent, prob, rat, micro, cond, ra, rb }
            ==> call_of(ed) matches Call::StepParams {
            track: track_,
            step: step_,
            on: on_,
            vel: vel_,
            accent: accent_,
            prob: prob_,
            rat: rat_,
            micro: micro_,
            cond: cond_,
            ra: ra_,
            rb: rb_,
        } && track_ == track && step_ == step && on_ == on && vel_ == vel && accent_ == accent
            && prob_ == prob && rat_ == rat && micro_ == micro && cond_ == cond && ra_ == ra
            && rb_ == rb,
        ed matches SeqEdit::SetPlock { track, step, param, value } ==> call_of(ed) matches Call::Plock {
            track: track_,
            step: step_,
            param: param_,
            value: value_,
        } && track_ == track && step_ == step && param_ == param && value_ == value,
        ed matches SeqEdit::ClearPlock { track, step, param } ==> call_of(ed) matches Call::ClearPlock {
            track: track_,
            step: step_,
            param: param_,
        } && track_ == track && step_ == step && param_ == param,
        ed matches SeqEdit::ClearLane { track } ==> call_of(ed) matches Call::ClearLane {
            track: track_,
        } && track_ == track,
        ed matches SeqEdit::Euclid { track, pulses, rotate } ==> call_of(ed) matches Call::Euclid {
            track: track_,
            pulses: pulses_,
            rotate: rotate_,
        } && track_ == track && pulses_ == pulses && rotate_ == rotate,
        ed matches SeqEdit::Fill { on } ==> call_of(ed) matches Call::Fill {
            on: on_,
        } && on_ == on,
        ed matches SeqEdit::SelectPattern { idx } ==> call_of(ed) matches Call::Select {
            idx: idx_,
        } && idx_ == idx,
        ed matches SeqEdit::Swing { value } ==> call_of(ed) matches Call::Swing {
            value: value_,
        } && value_ == value,
        ed matches SeqEdit::Humanize { value } ==> call_of(ed) matches Call::Humanize {
            value: value_,
        } && value_ == value,
        ed matches SeqEdit::SetLfo { idx, shape, rate, depth, retrig } ==> if idx == 0 {
            call_of(ed) == (Call::Lfo1 { shape: shape_of(shape), rate, depth, retrig })
        } else {
            call_of(ed) == (Call::Lfo2 { shape: shape_of(shape), rate, depth, retrig })
        },
        ed is SetMacro ==> call_of(ed) is Macros,
{
}

/// Edits are told apart: two edits of the grid that make the same call are the
/// same edit.
pub proof fn grid_edits_are_told_apart(a: SeqEdit, b: SeqEdit)
    requires
        dirties(a),
        dirties(b),
        call_of(a) == call_of(b),
    ensures
        a == b,
{
}

/// What changes a pattern, the selection or the feel has to be saved again by the
/// audio side; what changes the sound is saved by the editor.
pub proof fn grid_edits_are_saved_again(ed: SeqEdit)
    ensures
        dirties(ed) <==> ed is SetStep || ed is StepParams || ed is SetPlock || ed is ClearPlock
            || ed is ClearLane || ed is Euclid || ed is Fill || ed is SelectPattern || ed is Swing
            || ed is Humanize,
        !dirties(ed) <==> ed is SetVoiceParam || ed is SetVoiceMix || ed is SetModSlot
            || ed is SetLfo || ed is SetModEnv || ed is SetMacro,
{
}

/// Everything of a saved modulation is handed over: each cable into its own slot
/// as it was saved, both oscillators, the envelope, and the macros.
pub proof fn a_modulation_is_handed_over_whole(m: ModState, i: int)
    requires
        0 <= i < 16,
    ensures
        adoption_calls(m).len() == 20,
        adoption_calls(m)[i] matches Call::ModSlot { slot, src, dst, depth, voice } && slot == i
            && src == m.slots@[i].src && dst == m.slots@[i].dst && depth == m.slots@[i].depth
            && voice == m.slots@[i].target_voice,
        adoption_calls(m)[16] matches Call::Lfo1 { shape, rate, depth, retrig } && shape
            == shape_of(m.lfo1.shape) && rate == m.lfo1.rate_hz && depth == m.lfo1.depth && retrig
            == m.lfo1.retrig,
        adoption_calls(m)[17] matches Call::Lfo2 { shape, rate, depth, retrig } && shape
            == shape_of(m.lfo2.shape) && rate == m.lfo2.rate_hz && depth == m.lfo2.depth && retrig
            == m.lfo2.retrig,
        adoption_calls(m)[18] matches Call::ModEnv { attack, decay } && attack == m.env_attack
            && decay == m.env_decay,
        adoption_calls(m)[19] is Macros,
{
}

/// What the audio side remembers between blocks.
#[derive(Clone, Copy, Debug)]
pub struct Engine {
    /// The sequencer holds something that is not saved yet.
    pub seq_dirty: bool,
    /// The sequencer switch as it was last saved.
    pub persisted_seq_enabled: bool,
    /// The macro knobs.
    pub macros: [Ieee32; 8],
    /// The modulation wheel.
    pub mod_wheel: Ieee32,
    /// The sequencer ran in the last block.
    pub was_running: bool,
    /// The window's play button was on in the last block.
    pub was_internal_playing: bool,
}

/// The transport as a block finds it.
#[derive(Clone, Copy, Debug, PartialEq, Eq, Structural)]
pub struct Transport {
    pub host_playing: bool,
    /// The host says where it is.
    pub host_has_position: bool,
    /// The window's play button.
    pub internal_playing: bool,
    /// The sequencer switch.
    pub seq_on: bool,
}

/// How the preview clock moves over a block.
#[derive(Clone, Copy, Debug, PartialEq, Eq, Structural)]
pub enum ClockMove {
    /// To the end of the block, from the position the block was played at.
    FollowBlock,
    /// On by one block.
    Advance,
    /// Not at all.
    Stay,
}

/// What the transport makes a block do.
#[derive(Clone, Copy, Debug, PartialEq, Eq, Structural)]
pub struct Plan {
    /// Rewind the preview clock and the sequencer first.
    pub rewind: bool,
    /// The sequencer runs.
    pub run: bool,
    /// Play from the host's position, and not from the preview clock's.
    pub use_host_position: bool,
    /// Restart the modulation.
    pub retrigger: bool,
    pub clock: ClockMove,
}

/// What a transport makes a block do, after the given block before it.
pub open spec fn plan_of(t: Transport, was_running: bool, was_internal_playing: bool) -> Plan {
    let run = t.seq_on && (t.host_playing || t.internal_playing);
    Plan {
        rewind: t.internal_playing && !was_internal_playing && !t.host_playing,
        run,
        use_host_position: t.host_playing && t.host_has_position,
        retrigger: run && !was_running,
        clock: if t.host_playing {
            ClockMove::FollowBlock
        } else if t.internal_playing {
            ClockMove::Advance
        } else {
            ClockMove::Stay
        },
    }
}

/// Whether the bank and the sequencer switch of an engine have to be saved.
pub open spec fn unsaved(e: Engine, seq_on: bool) -> bool {
    e.seq_dirty || seq_on != e.persisted_seq_enabled
}

/// An engine after its bank and its switch were saved.
pub open spec fn after_saving(e: Engine, seq_on: bool) -> Engine {
    Engine { seq_dirty: false, persisted_seq_enabled: seq_on, ..e }
}

/// An engine after it took over a recall.
pub open spec fn after_recall(e: Engine, seq_enabled: bool, macros: [Ieee32; 8]) -> Engine {
    Engine { seq_dirty: false, persisted_seq_enabled: seq_enabled, macros, ..e }
}

/// An engine after a project was loaded: its switch is taken over unless edits wait.
pub open spec fn after_project(e: Engine, seq_enabled: bool, macros: [Ieee32; 8]) -> Engine {
    if e.seq_dirty {
        Engine { macros, ..e }
    } else {
        Engine { persisted_seq_enabled: seq_enabled, macros, ..e }
    }
}

impl Engine {
    /// A machine that has not played yet.
    pub fn new() -> (r: Self)
        ensures
            !r.seq_dirty,
            r.persisted_seq_enabled,
            forall|i: int| 0 <= i < N_MACROS ==> #[trigger] r.macros@[i] == ieee(ZERO),
            r.mod_wheel == ieee(ZERO),
            !r.was_running,
            !r.was_internal_playing,
    {
        Engine {
            seq_dirty: false,
            persisted_seq_enabled: true,
            macros: [ieee(ZERO); 8],
            mod_wheel: ieee(ZERO),
            was_running: false,
            was_internal_playing: false,
        }
    }

    /// Apply a queued edit: remember what it sets, and say what it calls.
    pub fn apply_edit(&mut self, ed: SeqEdit) -> (r: Call)
        ensures
            r == call_of(ed),
            ed matches SeqEdit::SetVoiceParam { track, param, value } ==> r matches Call::VoiceParam {
                track: track_,
                param: param_,
                value: value_,
            } && track_ == track && param_ == param && value_ == value,
            ed matches SeqEdit::SetVoiceMix { track, field, value } ==> r matches Call::VoiceMix {
                track: track_,
                field: field_,
                value: value_,
            } && track_ == track && field_ == field && value_ == value,
            ed matches SeqEdit::SetModSlot { slot, src, dst, depth, voice } ==> r matches Call::ModSlot {
                slot: slot_,
                src: src_,
                dst: dst_,
                depth: depth_,
                voice: voice_,
            } && slot_ == slot && src_ == src && dst_ == dst && depth_ == depth && voice_ == voice,
            ed matches SeqEdit::SetModEnv { attack, decay } ==> r matches Call::ModEnv {
                attack: attack_,
                decay: decay_,
            } && attack_ == attack && decay_ == decay,
            ed matches SeqEdit::SetStep { track, step, on } ==> r matches Call::Step {
                track: track_,
                step: step_,
                on: on_,
            } && track_ == track && step_ == step && on_ == on,
            ed matches SeqEdit::StepParams { track, step, on, vel, accent, prob, rat, micro, cond, ra, rb }
                ==> r matches Call::StepParams {
                track: track_,
                step: step_,
                on: on_,
                vel: vel_,
                accent: accent_,
                prob: prob_,
                rat: rat_,
                micro: micro_,
                cond: cond_,
                ra: ra_,
                rb: rb_,
            } && track_ == track && step_ == step && on_ == on && vel_ == vel && accent_ == accent
                && prob_ == prob && rat_ == rat && micro_ == micro && cond_ == cond && ra_ == ra
                && rb_ == rb,
            ed matches SeqEdit::SetPlock { track, step, param, value } ==> r matches Call::Plock {
                track: track_,
                step: step_,
                param: param_,
                value: value_,
            } && track_ == track && step_ == step && param_ == param && value_ == value,
            ed matches SeqEdit::ClearPlock { track, step, param } ==> r matches Call::ClearPlock {
                track: track_,
                step: step_,
                param: param_,
            } && track_ == track && step_ == step && param_ == param,
            ed matches SeqEdit::ClearLane { track } ==> r matches Call::ClearLane {
                track: track_,
            } && track_ == track,
            ed matches SeqEdit::Euclid { track, pulses, rotate } ==> r matches Call::Euclid {
                track: track_,
                pulses: pulses_,
                rotate: rotate_,
            } && track_ == track && pulses_ == pulses && rotate_ == rotate,
            ed matches SeqEdit::Fill { on } ==> r matches Call::Fill {
                on: on_,
            } && on_ == on,
            ed matches SeqEdit::SelectPattern { idx } ==> r matches Call::Select {
                idx: idx_,
            } && idx_ == idx,
            ed matches SeqEdit::Swing { value } ==> r matches Call::Swing {
                value: value_,
            } && value_ == value,
            ed matches SeqEdit::Humanize { value } ==> r matches Call::Humanize {
                value: value_,
            } && value_ == value,
            ed matches SeqEdit::SetLfo { idx, shape, rate, depth, retrig } ==> if idx == 0 {
                r == (Call::Lfo1 { shape: shape_of(shape), rate, depth, retrig })
            } else {
                r == (Call::Lfo2 { shape: shape_of(shape), rate, depth, retrig })
            },
            ed is SetMacro ==> r is Macros,
            final(self).seq_dirty == (old(self).seq_dirty || dirties(ed)),
            ed is SetStep || ed is StepParams || ed is SetPlock || ed is ClearPlock
                || ed is ClearLane || ed is Euclid || ed is Fill || ed is SelectPattern
                || ed is Swing || ed is Humanize ==> final(self).seq_dirty,
            ed is SetVoiceParam || ed is SetVoiceMix || ed is SetModSlot || ed is SetLfo
                || ed is SetModEnv || ed is SetMacro
                ==> final(self).seq_dirty == old(self).seq_dirty,
            final(self).macros@ == match ed {
                SeqEdit::SetMacro { idx, value } if idx < N_MACROS => old(self).macros@.update(
                    idx as int,
                    value,
                ),
                _ => old(self).macros@,
            },
            *final(self) == (Engine {
                seq_dirty: final(self).seq_dirty,
                macros: final(self).macros,
                ..*old(self)
            }),
    {
        if is_dirtying(ed) {
            self.seq_dirty = true;
        }
        match ed {
            SeqEdit::SetMacro { idx, value } => {
                if (idx as usize) < N_MACROS {
                    self.macros[idx as usize] = value;
                }
            },
            _ => {},
        }
        make_call(ed)
    }

    /// Whether the bank and the sequencer switch have to be saved.
    pub fn needs_saving(&self, seq_on: bool) -> (r: bool)
        ensures
            r == unsaved(*self, seq_on),
    {
        self.seq_dirty || seq_on != self.persisted_seq_enabled
    }

    /// The bank and the switch were saved.
    pub fn saved(&mut self, seq_on: bool)
        ensures
            *final(self) == after_saving(*old(self), seq_on),
    {
        self.seq_dirty = false;
        self.persisted_seq_enabled = seq_on;
    }

    /// A recall was taken over: nothing of what was there is left to save.
    pub fn adopt_recall(&mut self, seq_enabled: bool, macros: [Ieee32; 8])
        ensures
            *final(self) == after_recall(*old(self), seq_enabled, macros),
    {
        self.seq_dirty = false;
        self.persisted_seq_enabled = seq_enabled;
        self.macros = macros;
    }

    /// A project was loaded. Its bank and switch are taken over, which is handed
    /// back, unless edits wait to be saved; its macros always are.
    pub fn adopt_project(&mut self, seq_enabled: bool, macros: [Ieee32; 8]) -> (bank: bool)
        ensures
            bank == !old(self).seq_dirty,
            *final(self) == after_project(*old(self), seq_enabled, macros),
    {
        let bank = !self.seq_dirty;
        if bank {
            self.persisted_seq_enabled = seq_enabled;
        }
        self.macros = macros;
        bank
    }

    /// The host stopped and reset the plugin.
    pub fn reset(&mut self)
        ensures
            *final(self) == (Engine { was_internal_playing: false, ..*old(self) }),
    {
        self.was_internal_playing = false;
    }

    /// Decide what the transport makes this block do.
    pub fn plan_block(&mut self, t: Transport) -> (r: Plan)
        ensures
            r == plan_of(t, old(self).was_running, old(self).was_internal_playing),
            r.run <==> t.seq_on && (t.host_playing || t.internal_playing),
            r.retrigger <==> r.run && !old(self).was_running,
            r.rewind <==> t.internal_playing && !old(self).was_internal_playing && !t.host_playing,
            r.use_host_position <==> t.host_playing && t.host_has_position,
            r.clock is FollowBlock <==> t.host_playing,
            r.clock is Advance <==> t.internal_playing && !t.host_playing,
            *final(self) == (Engine {
                was_running: r.run,
                was_internal_playing: t.internal_playing,
                ..*old(self)
            }),
    {
        let rewind = t.internal_playing && !self.was_internal_playing && !t.host_playing;
        self.was_internal_playing = t.internal_playing;
        let run = t.seq_on && (t.host_playing || t.internal_playing);
        let retrigger = run && !self.was_running;
        self.was_running = run;
        let clock = if t.host_playing {
            ClockMove::FollowBlock
        } else if t.internal_playing {
            ClockMove::Advance
        } else {
            ClockMove::Stay
        };
        Plan {
            rewind,
            run,
            use_host_position: t.host_playing && t.host_has_position,
            retrigger,
            clock,
        }
    }

    /// A controller moved: a macro may learn it, the macro it moves takes the
    /// value, and the first controller is the modulation wheel.
    pub fn on_cc(&mut self, learn: &mut Learn, cc: u8, value: Ieee32)
        ensures
            cc < N_CC ==> {
                let m = if old(learn).arm >= 0 {
                    old(learn).arm
                } else {
                    old(learn).map@[cc as int]
                };
                &&& final(learn).map@ == old(learn).map@.update(cc as int, m)
                &&& final(learn).arm == if old(learn).arm >= 0 {
                    -1
                } else {
                    old(learn).arm as int
                }
                &&& final(self).macros@ == if 0 <= m < N_MACROS {
                    old(self).macros@.update(m as int, value)
                } else {
                    old(self).macros@
                }
            },
            cc >= N_CC ==> *final(learn) == *old(learn) && final(self).macros@
                == old(self).macros@,
            final(self).mod_wheel == if cc == 1 {
                value
            } else {
                old(self).mod_wheel
            },
            *final(self) == (Engine {
                macros: final(self).macros,
                mod_wheel: final(self).mod_wheel,
                ..*old(self)
            }),
    {
        match learn.on_cc(cc) {
            Some(m) => {
                self.macros[m] = value;
            },
            None => {},
        }
        if cc == 1 {
            self.mod_wheel = value;
        }
    }
}

/// The sequencer runs exactly while its switch is on and the host or the window
/// plays; the preview starts over exactly where the window begins to play alone,
/// and its clock moves on exactly while something plays.
pub proof fn the_transport_decides(t: Transport, was_running: bool, was_internal: bool)
    ensures
        ({
            let r = plan_of(t, was_running, was_internal);
            &&& r.run <==> t.seq_on && (t.host_playing || t.internal_playing)
            &&& r.retrigger <==> r.run && !was_running
            &&& r.rewind <==> t.internal_playing && !was_internal && !t.host_playing
            &&& r.use_host_position <==> t.host_playing && t.host_has_position
            &&& r.clock == ClockMove::FollowBlock <==> t.host_playing
            &&& r.clock == ClockMove::Advance <==> t.internal_playing && !t.host_playing
            &&& r.clock == ClockMove::Stay <==> !t.internal_playing && !t.host_playing
        }),
{
}

/// The sequencer never runs while its switch is off, whoever plays.
pub proof fn the_switch_silences_the_sequencer(t: Transport, a: bool, b: bool)
    requires
        !t.seq_on,
    ensures
        !plan_of(t, a, b).run && !plan_of(t, a, b).retrigger,
{
}

/// The host wins: while it plays nothing is rewound and the preview clock
/// follows it.
pub proof fn the_host_wins(t: Transport, a: bool, b: bool)
    requires
        t.host_playing,
    ensures
        !plan_of(t, a, b).rewind,
        plan_of(t, a, b).clock == ClockMove::FollowBlock,
{
}

/// The modulation restarts once per start: not in a block that follows one in
/// which the sequencer ran.
pub proof fn modulation_restarts_once(t: Transport, u: Transport, a: bool, b: bool, c: bool)
    requires
        plan_of(t, a, b).run,
    ensures
        !plan_of(u, plan_of(t, a, b).run, c).retrigger,
{
}

/// What a block does about a recall that the window has staged.
#[derive(Clone, Copy, Debug, PartialEq, Eq, Structural)]
pub struct RecallBlock {
    /// Take the staged state over now.
    pub adopt: bool,
    /// A recall is still waiting after the block.
    pub pending: bool,
}

/// What a block does about a recall: it is taken over as soon as the state can be
/// reached, and waits until then.
pub open spec fn recall_block(pending: bool, reached: bool) -> RecallBlock {
    RecallBlock { adopt: pending && reached, pending: pending && !reached }
}

/// Decide what a block does about a recall. `pending` is whether one is waiting,
/// `reached` whether the state could be reached.
pub fn plan_recall(pending: bool, reached: bool) -> (r: RecallBlock)
    ensures
        r == recall_block(pending, reached),
{
    RecallBlock { adopt: pending && reached, pending: pending && !reached }
}

/// Whether a recall is still waiting after the first `n` blocks, where none is
/// staged anew.
pub open spec fn waits(pending: bool, reached: Seq<bool>, n: int) -> bool
    decreases n,
{
    if n <= 0 {
        pending
    } else {
        recall_block(waits(pending, reached, n - 1), reached[n - 1]).pending
    }
}

/// A recall is never dropped: it waits through every block that cannot reach the
/// state, and the first that can takes it over; no later one takes it over again.
pub proof fn no_recall_is_dropped(reached: Seq<bool>, first: int, n: int)
    requires
        0 <= first < reached.len(),
        reached[first],
        forall|i: int| 0 <= i < first ==> !#[trigger] reached[i],
        0 <= n < reached.len(),
    ensures
        recall_block(waits(true, reached, n), reached[n]).adopt == (n == first),
        waits(true, reached, n) == (n <= first),
    decreases n,
{
    if n > 0 {
        no_recall_is_dropped(reached, first, n - 1);
        if n - 1 < first {
            assert(!reached[n - 1]);
        }
    }
}

/// Where the events due at sample `i` end: from the first not handled yet, on
/// past every one whose offset is not after `i`, up to the first that is.
pub fn due(offsets: &Vec<u32>, from: usize, i: usize) -> (to: usize)
    requires
        from <= offsets@.len(),
    ensures
        to == first_later(offsets@, from as int, i as int),
        is_due(offsets@, from as int, i as int, to as int),
{
    let mut to: usize = from;
    while to < offsets.len() && offsets[to] as usize <= i
        invariant
            from <= to <= offsets@.len(),
            forall|k: int| from <= k < to ==> #[trigger] offsets@[k] <= i,
            first_later(offsets@, from as int, i as int) == first_later(
                offsets@,
                to as int,
                i as int,
            ),
        decreases offsets@.len() - to,
    {
        to = to + 1;
    }
    to
}

/// `to` is where the events due at sample `i` end, the first not handled yet
/// being `from`.
pub open spec fn is_due(offsets: Seq<u32>, from: int, i: int, to: int) -> bool {
    &&& from <= to <= offsets.len()
    &&& forall|k: int| from <= k < to ==> #[trigger] offsets[k] <= i
    &&& to < offsets.len() ==> offsets[to] > i
}

/// Where the handled events end after samples `0 ..= i` of a block.
pub open spec fn handled(offsets: Seq<u32>, i: int) -> int
    decreases i + 1,
{
    if i < 0 {
        0
    } else {
        first_later(offsets, handled(offsets, i - 1), i)
    }
}

/// The first event from `from` on with an offset after `i`, or the end.
pub open spec fn first_later(offsets: Seq<u32>, from: int, i: int) -> int
    decreases offsets.len() - from,
{
    if from < 0 || from >= offsets.len() || offsets[from] > i {
        from
    } else {
        first_later(offsets, from + 1, i)
    }
}

proof fn lemma_first_later(offsets: Seq<u32>, from: int, i: int)
    requires
        0 <= from <= offsets.len(),
    ensures
        is_due(offsets, from, i, first_later(offsets, from, i)),
    decreases offsets.len() - from,
{
    if from < offsets.len() && offsets[from] <= i {
        lemma_first_later(offsets, from + 1, i);
    }
}

proof fn lemma_handled(offsets: Seq<u32>, i: int)
    requires
        -1 <= i,
    ensures
        0 <= handled(offsets, i) <= offsets.len(),
        i >= 0 && handled(offsets, i) < offsets.len() ==> offsets[handled(offsets, i)] > i,
    decreases i + 1,
{
    if i >= 0 {
        lemma_handled(offsets, i - 1);
        lemma_first_later(offsets, handled(offsets, i - 1), i);
    }
}

/// No hit is stranded: where every event lies inside the block, all are handled
/// when the block ends.
pub proof fn no_event_is_stranded(offsets: Seq<u32>, block: int)
    requires
        0 < block,
        forall|k: int| 0 <= k < offsets.len() ==> #[trigger] offsets[k] < block,
    ensures
        handled(offsets, block - 1) == offsets.len(),
{
    lemma_handled(offsets, block - 1);
}

/// Events are handled on time: where they lie in order, event `k` is handled at
/// its own sample and not before.
pub proof fn events_are_on_time(offsets: Seq<u32>, k: int)
    requires
        0 <= k < offsets.len(),
        forall|a: int, b: int| 0 <= a < b < offsets.len() ==> offsets[a] <= offsets[b],
    ensures
        handled(offsets, offsets[k] as int) > k,
        offsets[k] > 0 ==> handled(offsets, offsets[k] - 1) <= k,
{
    lemma_handled(offsets, offsets[k] as int);
    if offsets[k] > 0 {
        lemma_not_early(offsets, offsets[k] - 1, k);
    }
}

proof fn lemma_not_early(offsets: Seq<u32>, i: int, k: int)
    requires
        -1 <= i < offsets[k],
        0 <= k < offsets.len(),
        forall|a: int, b: int| 0 <= a < b < offsets.len() ==> offsets[a] <= offsets[b],
    ensures
        handled(offsets, i) <= k,
    decreases i + 1,
{
    if i >= 0 {
        lemma_not_early(offsets, i - 1, k);
        lemma_handled(offsets, i - 1);
        let from = handled(offsets, i - 1);
        lemma_first_later(offsets, from, i);
        let to = first_later(offsets, from, i);
        if to > k {
            assert(offsets[k] <= i);
        }
    }
}

/// The lanes that sound, one bit each.
pub open spec fn mask_of(active: Seq<bool>, n: int) -> int
    decreases n,
{
    if n <= 0 {
        0
    } else {
        mask_of(active, n - 1) + if active[n - 1] {
            pow2((n - 1) as nat) as int
        } else {
            0
        }
    }
}

/// The lanes that sound, one bit each.
pub fn active_mask(active: &[bool; 12]) -> (mask: u16)
    ensures
        mask == mask_of(active@, MAX_TRACKS as int),
        mask < 4096,
{
    let mut mask: u16 = 0;
    let mut weight: u16 = 1;
    let mut t: usize = 0;
    proof {
        lemma2_to64();
    }
    while t < MAX_TRACKS
        invariant
            t <= MAX_TRACKS,
            weight == pow2(t as nat),
            weight <= 4096,
            mask == mask_of(active@, t as int),
            mask < weight,
        decreases MAX_TRACKS - t,
    {
        proof {
            lemma_pow2_unfold((t + 1) as nat);
            lemma2_to64();
            if t < 11 {
                lemma_pow2_strictly_increases(t as nat, 11);
            }
        }
        if active[t] {
            mask = mask + weight;
        }
        weight = weight * 2;
        t = t + 1;
    }
    mask
}

proof fn lemma_mask_below(active: Seq<bool>, n: int)
    requires
        0 <= n <= active.len(),
    ensures
        0 <= mask_of(active, n) < pow2(n as nat),
    decreases n,
{
    lemma2_to64();
    if n > 0 {
        lemma_mask_below(active, n - 1);
        lemma_pow2_unfold(n as nat);
    }
}

/// Bit `t` of the mask is lane `t`.
pub proof fn each_lane_has_its_bit(active: Seq<bool>, n: int, t: int)
    requires
        0 <= t < n <= active.len(),
    ensures
        mask_of(active, n) / (pow2(t as nat) as int) % 2 == if active[t] {
            1int
        } else {
            0
        },
    decreases n,
{
    let w = pow2(t as nat) as int;
    lemma_pow2_pos(t as nat);
    let low = mask_of(active, n - 1);
    lemma_mask_below(active, n - 1);
    if t == n - 1 {
        if active[t] {
            assert((low + w) / w == 1) by (nonlinear_arith)
                requires
                    0 <= low < w,
            ;
        } else {
            assert(low / w == 0) by (nonlinear_arith)
                requires
                    0 <= low < w,
            ;
        }
    } else {
        each_lane_has_its_bit(active, n - 1, t);
        if active[n - 1] {
            let k = (n - 2 - t) as nat;
            lemma_pow2_adds((t + 1) as nat, k);
            lemma_pow2_unfold((t + 1) as nat);
            let q = pow2(k) as int;
            assert(pow2((n - 1) as nat) == 2 * w * q);
            assert((low + 2 * w * q) / w == low / w + 2 * q) by (nonlinear_arith)
                requires
                    w > 0,
                    0 <= low,
            ;
            assert((low / w + 2 * q) % 2 == low / w % 2);
        }
    }
}

/// The playhead as it is shown: the step, or -1.
pub fn playhead(step: Option<u8>) -> (r: i32)
    ensures
        r == match step {
            Some(s) => s as int,
            None => -1,
        },
{
    match step {
        Some(s) => s as i32,
        None => -1,
    }
}

/// Aux outputs the machine can feed.
pub const N_AUX: usize = 4;

/// How many of the host's aux outputs are fed.
pub fn aux_outputs(n: usize) -> (r: usize)
    ensures
        r == if n < 4 {
            n as int
        } else {
            4
        },
{
    if n < N_AUX {
        n
    } else {
        N_AUX
    }
}

/// What the window shows while it is open.
#[derive(Clone, Copy, Debug, PartialEq, Eq, Structural)]
pub struct Status {
    /// How deep the pump ducks, in fifteenths.
    pub duck: u32,
    pub pattern: u8,
    pub seq_on: bool,
    pub playing: bool,
    /// The lanes that sound, one bit each.
    pub voices: u16,
    pub playhead: i32,
}

/// A status in one word, so that an unchanged one is told by one comparison.
pub open spec fn status_word(s: Status) -> int {
    s.duck % 16 * 0x1000_0000 + s.pattern % 16 * 0x100_0000 + (if s.seq_on {
        0x20_0000int
    } else {
        0
    }) + (if s.playing {
        0x10_0000int
    } else {
        0
    }) + s.voices % 4096 * 0x100 + (s.playhead + 1) % 256
}

/// A status in one word.
pub fn pack_status(s: Status) -> (word: u32)
    requires
        -1 <= s.playhead < i32::MAX,
    ensures
        word == status_word(s),
{
    let seq: u32 = if s.seq_on {
        0x20_0000
    } else {
        0
    };
    let play: u32 = if s.playing {
        0x10_0000
    } else {
        0
    };
    s.duck % 16 * 0x1000_0000 + (s.pattern % 16) as u32 * 0x100_0000 + seq + play + (s.voices
        % 4096) as u32 * 0x100 + ((s.playhead + 1) as u32) % 256
}

/// Each field of a status in range can be read off its word.
proof fn lemma_fields_read_back(s: Status)
    requires
        s.duck < 16 && s.pattern < 16 && s.voices < 4096 && -1 <= s.playhead < 255,
    ensures
        s.playhead + 1 == status_word(s) % 256,
        s.voices == status_word(s) / 256 % 4096,
        s.playing == (status_word(s) / 256 / 4096 % 2 == 1),
        s.seq_on == (status_word(s) / 256 / 4096 / 2 % 2 == 1),
        s.pattern == status_word(s) / 256 / 4096 / 16 % 16,
        s.duck == status_word(s) / 256 / 4096 / 16 / 16,
{
    let top = s.duck * 16 + s.pattern;
    let seq = if s.seq_on {
        1int
    } else {
        0
    };
    let play = if s.playing {
        1int
    } else {
        0
    };
    let flags = top * 16 + seq * 2 + play;
    let upper = flags * 4096 + s.voices;
    assert(status_word(s) == upper * 256 + (s.playhead + 1));
    assert(status_word(s) / 256 == upper);
    assert(upper / 4096 == flags && upper % 4096 == s.voices);
    assert(flags / 16 == top);
    assert(flags / 2 == top * 8 + seq);
    assert(top / 16 == s.duck && top % 16 == s.pattern);
}

/// Nothing that is shown changes unseen: two statuses in range with the same
/// word are the same.
pub proof fn status_words_tell(a: Status, b: Status)
    requires
        a.duck < 16 && a.pattern < 16 && a.voices < 4096 && -1 <= a.playhead < 255,
        b.duck < 16 && b.pattern < 16 && b.voices < 4096 && -1 <= b.playhead < 255,
        status_word(a) == status_word(b),
    ensures
        a == b,
{
    lemma_fields_read_back(a);
    lemma_fields_read_back(b);
}

/// A pad event is read bit by bit: bit 8 says that the pad went down, and the seven lowest
/// bits are the note; nothing else counts.
pub proof fn a_pad_word_is_read_by_its_bits(word: u16)
    ensures
        word & 0x100 != 0 ==> struck(word) == Some((word & 0x7f) as u8),
        word & 0x100 == 0 ==> struck(word) is None,
{
    assert(word & 0x100 != 0 <==> word / 256 % 2 == 1) by (bit_vector);
    assert(word & 0x7f == word % 128) by (bit_vector);
}

/// Nothing waits to be saved right after saving, and what waits afterwards is an edit or a
/// switch that was thrown; a recall leaves nothing waiting, and a project that is loaded over
/// waiting edits leaves them waiting.
pub proof fn edits_wait_until_they_are_saved(
    e: Engine,
    seq_on: bool,
    other: bool,
    macros: [Ieee32; 8],
)
    ensures
        !unsaved(after_saving(e, seq_on), seq_on),
        other != seq_on ==> unsaved(after_saving(e, seq_on), other),
        e.seq_dirty ==> unsaved(e, seq_on),
        !e.seq_dirty ==> (unsaved(e, seq_on) <==> seq_on != e.persisted_seq_enabled),
        !unsaved(after_recall(e, seq_on, macros), seq_on),
        after_recall(e, seq_on, macros).macros == macros,
        e.seq_dirty ==> unsaved(after_project(e, seq_on, macros), other),
        e.seq_dirty ==> after_project(e, seq_on, macros).persisted_seq_enabled
            == e.persisted_seq_enabled,
        !e.seq_dirty ==> !unsaved(after_project(e, seq_on, macros), seq_on),
        after_project(e, seq_on, macros).macros == macros,
{
}

/// Saving, a recall and a project leave the transport and the wheel as they were, and
/// saving the macros too.
pub proof fn saving_does_not_move_the_transport(e: Engine, seq_on: bool, macros: [Ieee32; 8])
    ensures
        after_saving(e, seq_on).macros == e.macros,
        after_saving(e, seq_on).was_running == e.was_running,
        after_saving(e, seq_on).was_internal_playing == e.was_internal_playing,
        after_saving(e, seq_on).mod_wheel == e.mod_wheel,
        after_recall(e, seq_on, macros).was_running == e.was_running,
        after_recall(e, seq_on, macros).was_internal_playing == e.was_internal_playing,
        after_recall(e, seq_on, macros).mod_wheel == e.mod_wheel,
        after_project(e, seq_on, macros).was_running == e.was_running,
        after_project(e, seq_on, macros).was_internal_playing == e.was_internal_playing,
        after_project(e, seq_on, macros).mod_wheel == e.mod_wheel,
{
}

/// Each part of a status has its own bits: from the lowest eight for the playhead, which is
/// one more than the step, twelve for the lanes, one for playing, one for the switch, two
/// that are never set, four for the pattern and four for the duck.
pub proof fn each_part_of_a_status_has_its_bits(s: Status)
    requires
        -1 <= s.playhead < i32::MAX,
    ensures
        status_word(s) % 0x100 == (s.playhead + 1) % 256,
        status_word(s) / 0x100 % 0x1000 == s.voices % 4096,
        status_word(s) / 0x10_0000 % 2 == 1 <==> s.playing,
        status_word(s) / 0x20_0000 % 2 == 1 <==> s.seq_on,
        status_word(s) / 0x40_0000 % 4 == 0,
        status_word(s) / 0x100_0000 % 16 == s.pattern % 16,
        status_word(s) / 0x1000_0000 == s.duck % 16,
{
    let r = Status {
        duck: s.duck % 16,
        pattern: s.pattern % 16,
        seq_on: s.seq_on,
        playing: s.playing,
        voices: s.voices % 4096,
        playhead: ((s.playhead + 1) % 256 - 1) as i32,
    };
    let w = status_word(s);
    assert(w == status_word(r));
    lemma_fields_read_back(r);
    let flags = w / 256 / 4096;
    assert(flags == w / 0x10_0000);
    assert(flags / 2 == w / 0x20_0000);
    assert(flags / 4 == w / 0x40_0000);
    assert(flags / 16 == w / 0x100_0000);
    assert(flags / 16 / 16 == w / 0x1000_0000);
    lemma_flags_stay_below(r);
}

/// The two bits above the switch are never set.
proof fn lemma_flags_stay_below(s: Status)
    requires
        s.duck < 16 && s.pattern < 16 && s.voices < 4096 && -1 <= s.playhead < 255,
    ensures
        status_word(s) / 256 / 4096 / 4 % 4 == 0,
{
    let top = s.duck * 16 + s.pattern;
    let seq = if s.seq_on {
        1int
    } else {
        0
    };
    let play = if s.playing {
        1int
    } else {
        0
    };
    let flags = top * 16 + seq * 2 + play;
    let upper = flags * 4096 + s.voices;
    assert(status_word(s) == upper * 256 + (s.playhead + 1));
    assert(status_word(s) / 256 == upper);
    assert(upper / 4096 == flags);
    assert(flags / 4 == top * 4);
}

} // verus!

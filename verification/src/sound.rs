//! Snapshots of the sound, and comparing two of them.

use crate::ieee::Ieee32;
use crate::state::{copy_labels, texts, ModState, PersistState, VoicePatch};
use vstd::prelude::*;

verus! {

/// The sound of the machine without its patterns: voices, strips, modulation,
/// labels, the nine bus parameters and the sidechain key. `M` is the channel
/// strips of the voices.
#[derive(Debug)]
pub struct SoundSnapshot<M> {
    pub voices: VoicePatch,
    pub mix: M,
    pub mod_state: ModState,
    pub macro_labels: Vec<String>,
    pub bus: [Ieee32; 9],
    pub sidechain: bool,
}

/// `b` sounds as `a` does; its strips are a clone.
pub open spec fn is_copy<M: Clone>(a: SoundSnapshot<M>, b: SoundSnapshot<M>) -> bool {
    &&& b.voices == a.voices
    &&& cloned(a.mix, b.mix)
    &&& b.mod_state == a.mod_state
    &&& texts(b.macro_labels@) == texts(a.macro_labels@)
    &&& b.bus == a.bus
    &&& b.sidechain == a.sidechain
}

fn copy_of<M: Clone>(a: &SoundSnapshot<M>) -> (b: SoundSnapshot<M>)
    ensures
        is_copy(*a, b),
{
    SoundSnapshot {
        voices: a.voices,
        mix: a.mix.clone(),
        mod_state: a.mod_state,
        macro_labels: copy_labels(&a.macro_labels),
        bus: a.bus,
        sidechain: a.sidechain,
    }
}

/// `snap` is the sound of `state` with the given bus and sidechain key.
pub open spec fn is_snapshot<P, M: Clone>(
    snap: SoundSnapshot<M>,
    state: PersistState<P, M>,
    bus: [Ieee32; 9],
    sidechain: bool,
) -> bool {
    &&& snap.voices == state.voices
    &&& cloned(state.mix, snap.mix)
    &&& snap.mod_state == state.mod_state
    &&& texts(snap.macro_labels@) == texts(state.macro_labels@)
    &&& snap.bus == bus
    &&& snap.sidechain == sidechain
}

/// The current sound.
pub fn snapshot_current<P, M: Clone>(
    state: &PersistState<P, M>,
    bus: [Ieee32; 9],
    sidechain: bool,
) -> (snap: SoundSnapshot<M>)
    ensures
        is_snapshot(snap, *state, bus, sidechain),
{
    SoundSnapshot {
        voices: state.voices,
        mix: state.mix.clone(),
        mod_state: state.mod_state,
        macro_labels: copy_labels(&state.macro_labels),
        bus,
        sidechain,
    }
}

/// `r` is the state `before` with the sound of a snapshot.
pub open spec fn sounds_like<P, M: Clone>(
    r: PersistState<P, M>,
    before: PersistState<P, M>,
    snap: SoundSnapshot<M>,
) -> bool {
    &&& r.voices == snap.voices
    &&& cloned(snap.mix, r.mix)
    &&& r.mod_state == snap.mod_state
    &&& texts(r.macro_labels@) == texts(snap.macro_labels@)
    &&& r.seq == before.seq
    &&& r.seq_enabled == before.seq_enabled
    &&& r.midi_cc == before.midi_cc
}

/// Replace the sound, and keep the patterns.
pub fn apply_sound<P, M: Clone>(state: &mut PersistState<P, M>, snap: &SoundSnapshot<M>)
    ensures
        sounds_like(*final(state), *old(state), *snap),
{
    state.voices = snap.voices;
    state.mix = snap.mix.clone();
    state.mod_state = snap.mod_state;
    state.macro_labels = copy_labels(&snap.macro_labels);
}

/// A sound that was captured and applied is the sound that was captured; its
/// strips are a clone of a clone.
pub proof fn a_captured_sound_comes_back<P, M: Clone>(
    first: PersistState<P, M>,
    snap: SoundSnapshot<M>,
    later: PersistState<P, M>,
    restored: PersistState<P, M>,
    bus: [Ieee32; 9],
    sidechain: bool,
)
    requires
        is_snapshot(snap, first, bus, sidechain),
        sounds_like(restored, later, snap),
    ensures
        restored.voices == first.voices,
        restored.mod_state == first.mod_state,
        texts(restored.macro_labels@) == texts(first.macro_labels@),
        cloned(first.mix, snap.mix) && cloned(snap.mix, restored.mix),
        restored.seq == later.seq,
{
}

/// Two registers to compare, and which of them is heard: 0 the first, anything
/// else the second.
#[derive(Debug)]
pub struct AbState<M> {
    pub a: Option<SoundSnapshot<M>>,
    pub b: Option<SoundSnapshot<M>>,
    pub active: u8,
}

impl<M: Clone> AbState<M> {
    /// The register of a slot.
    pub open spec fn register(self, slot: u8) -> Option<SoundSnapshot<M>> {
        if slot == 0 {
            self.a
        } else {
            self.b
        }
    }

    /// Both registers empty.
    pub fn new() -> (r: Self)
        ensures
            r.a is None,
            r.b is None,
            r.active == 0,
    {
        AbState { a: None, b: None, active: 0 }
    }

    /// Capture a sound into a register and make it the active one.
    pub fn store(&mut self, slot: u8, snap: SoundSnapshot<M>)
        ensures
            final(self).active == slot,
            final(self).register(slot) == Some(snap),
            slot == 0 ==> final(self).b == old(self).b,
            slot != 0 ==> final(self).a == old(self).a,
    {
        if slot == 0 {
            self.a = Some(snap);
        } else {
            self.b = Some(snap);
        }
        self.active = slot;
    }

    /// Make a register the active one, and hand back a copy of its sound if it
    /// holds one.
    pub fn recall(&mut self, slot: u8) -> (r: Option<SoundSnapshot<M>>)
        ensures
            final(self).active == slot,
            final(self).a == old(self).a,
            final(self).b == old(self).b,
            r is Some <==> old(self).register(slot) is Some,
            r is Some ==> is_copy(old(self).register(slot)->0, r->0),
    {
        self.active = slot;
        let held = if slot == 0 {
            &self.a
        } else {
            &self.b
        };
        match held {
            Some(snap) => Some(copy_of(snap)),
            None => None,
        }
    }

    /// Copy the active register into the other, empty or not.
    pub fn copy(&mut self)
        ensures
            final(self).active == old(self).active,
            old(self).active == 0 ==> {
                &&& final(self).a == old(self).a
                &&& final(self).b is Some <==> old(self).a is Some
                &&& old(self).a is Some ==> is_copy(old(self).a->0, final(self).b->0)
            },
            old(self).active != 0 ==> {
                &&& final(self).b == old(self).b
                &&& final(self).a is Some <==> old(self).b is Some
                &&& old(self).b is Some ==> is_copy(old(self).b->0, final(self).a->0)
            },
    {
        if self.active == 0 {
            self.b = match &self.a {
                Some(snap) => Some(copy_of(snap)),
                None => None,
            };
        } else {
            self.a = match &self.b {
                Some(snap) => Some(copy_of(snap)),
                None => None,
            };
        }
    }
}

/// A capture takes the whole sound, and applying it leaves the patterns, the running
/// sequencer and the learned controllers as they were.
pub proof fn a_sound_is_captured_whole<P, M: Clone>(
    first: PersistState<P, M>,
    snap: SoundSnapshot<M>,
    later: PersistState<P, M>,
    restored: PersistState<P, M>,
    bus: [Ieee32; 9],
    sidechain: bool,
)
    requires
        is_snapshot(snap, first, bus, sidechain),
        sounds_like(restored, later, snap),
    ensures
        snap.voices == first.voices,
        snap.mod_state == first.mod_state,
        texts(snap.macro_labels@) == texts(first.macro_labels@),
        snap.bus == bus,
        snap.sidechain == sidechain,
        restored.seq == later.seq,
        restored.seq_enabled == later.seq_enabled,
        restored.midi_cc == later.midi_cc,
{
}

/// What is put into a register is what comes out of it: 0 is the first, every other
/// number the second.
pub proof fn a_register_gives_back_what_it_holds<M: Clone>(
    ab: AbState<M>,
    slot: u8,
    held: SoundSnapshot<M>,
    out: SoundSnapshot<M>,
)
    requires
        ab.register(slot) == Some(held),
        is_copy(held, out),
    ensures
        slot == 0 ==> ab.a == Some(held),
        slot != 0 ==> ab.b == Some(held),
        out.voices == held.voices,
        cloned(held.mix, out.mix),
        out.mod_state == held.mod_state,
        texts(out.macro_labels@) == texts(held.macro_labels@),
        out.bus == held.bus,
        out.sidechain == held.sidechain,
{
}

} // verus!

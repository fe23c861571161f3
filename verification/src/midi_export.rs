//! A pattern as a Standard MIDI File.
//!
//! The file holds one pass of the pattern: every step that sounds becomes its
//! notes, ratchets are written out, and the notes stand in playing order on the
//! drum channel. What depends on randomness or on real arithmetic (the
//! probability roll, the swung and humanized time of a hit, its velocity)
//! arrives with the pattern, cell by cell.

use crate::folders::{Folder, UserFolders};
use crate::order::{arranged, is_stable_order, keys_of, stable_sort, stands_before, Keyed};
use crate::pattern::{playable, playable_steps, Pattern, Step, MAX_STEPS, MAX_TRACKS};
use vstd::prelude::*;

verus! {

/// Ticks per quarter note.
pub const PPQ: u32 = 480;

/// Ticks per step, a sixteenth.
pub const STEP_TICKS: u32 = 120;

/// How long a plain hit is held, in ticks.
pub const GATE_TICKS: u32 = 60;

/// One above the largest tick a file may hold, so that every time difference
/// fits a variable-length quantity.
pub const TICK_LIMIT: u32 = 0x0FFF_FF00;

/// The General MIDI drum note of each lane: kick, sub, snare, clap, rim, closed
/// hat, open hat, ride, low tom, high tom, cowbell, zap.
pub const TRACK_NOTE: [u8; 12] = [36, 35, 38, 39, 37, 42, 46, 51, 45, 50, 56, 60];

/// One sounding of a note: when, and how hard.
#[derive(Clone, Copy, Debug, PartialEq, Eq, Structural)]
pub struct Hit {
    pub tick: u32,
    pub velocity: u8,
}

/// What one grid position brings to its step.
#[derive(Debug)]
pub struct CellFeel {
    /// Whether the step's condition passes.
    pub passes: bool,
    /// The roll, below 100, that a probability is held against.
    pub roll: u32,
    /// The time and velocity of each hit the step is split into.
    pub hits: Vec<Hit>,
    /// Ticks between those hits.
    pub spacing: u32,
}

/// A note going on or off.
#[derive(Clone, Copy, Debug, PartialEq, Eq, Structural)]
pub struct NoteEvent {
    pub tick: u32,
    pub on: bool,
    pub note: u8,
    pub velocity: u8,
}

/// The folder for exported files: `Drumlin` in the folder for music, or in
/// `Music` in the home folder where the system names none.
pub fn export_dir(user: &Option<UserFolders>) -> (r: Option<Folder>)
    ensures
        r is Some <==> user is Some,
        r is Some ==> match user->0.audio {
            Some(audio) => r->0.base@ == audio@ && r->0.names() == seq!["Drumlin"@],
            None => r->0.base@ == user->0.home@ && r->0.names() == seq!["Music"@, "Drumlin"@],
        },
{
    match user {
        Some(u) => {
            let music = match &u.audio {
                Some(audio) => Folder::at(audio),
                None => Folder::at(&u.home).join("Music"),
            };
            let r = music.join("Drumlin");
            assert(Seq::<Seq<char>>::empty().push("Drumlin"@) =~= seq!["Drumlin"@]);
            assert(Seq::<Seq<char>>::empty().push("Music"@).push("Drumlin"@) =~= seq![
                "Music"@,
                "Drumlin"@,
            ]);
            Some(r)
        },
        None => None,
    }
}

/// The step of lane `t` that grid position `g` plays: a lane shorter than the
/// pattern starts over.
pub open spec fn cell_step(p: Pattern, t: int, g: int) -> Step {
    p.step(t, g % playable(p.tracks@[t].length))
}

/// How many hits a step is split into.
pub open spec fn ratchets(step: Step) -> int {
    if step.ratchet < 1 {
        1
    } else if step.ratchet > 8 {
        8
    } else {
        step.ratchet as int
    }
}

/// Whether lane `t` sounds at grid position `g`.
pub open spec fn sounds(p: Pattern, feel: Seq<Vec<CellFeel>>, t: int, g: int) -> bool {
    let step = cell_step(p, t, g);
    let cell = feel[t]@[g];
    &&& !p.tracks@[t].muted
    &&& step.on
    &&& cell.passes
    &&& step.probability >= 100 || cell.roll < step.probability
}

/// How long each of `n` hits is held: a plain hit for the full gate, a ratchet
/// for a tick less than the spacing, within one tick and the full gate.
pub open spec fn gate(n: int, spacing: int) -> int {
    if n <= 1 || spacing - 1 >= GATE_TICKS {
        GATE_TICKS as int
    } else if spacing - 1 < 1 {
        1
    } else {
        spacing - 1
    }
}

/// When hit `k` goes on: at its tick, and in any case after the hit before it.
pub open spec fn start(hits: Seq<Hit>, k: int) -> int
    decreases k,
{
    if k <= 0 {
        hits[0].tick as int
    } else if hits[k].tick <= start(hits, k - 1) {
        start(hits, k - 1) + 1
    } else {
        hits[k].tick as int
    }
}

/// When hit `k` of `n` goes off: a gate later, or when the next hit goes on, if
/// that is sooner.
pub open spec fn end(hits: Seq<Hit>, n: int, k: int, gate: int) -> int {
    if k + 1 < n && start(hits, k + 1) < start(hits, k) + gate {
        start(hits, k + 1)
    } else {
        start(hits, k) + gate
    }
}

/// The events of `n` hits: each goes on, and off before the next goes on.
pub open spec fn hit_events(note: u8, hits: Seq<Hit>, n: int, gate: int) -> Seq<NoteEvent> {
    Seq::new(
        (2 * n) as nat,
        |i: int|
            if i % 2 == 0 {
                NoteEvent {
                    tick: start(hits, i / 2) as u32,
                    on: true,
                    note,
                    velocity: hits[i / 2].velocity,
                }
            } else {
                NoteEvent {
                    tick: end(hits, n, i / 2, gate) as u32,
                    on: false,
                    note,
                    velocity: 0,
                }
            },
    )
}

/// A hit goes on at most as many ticks late as there are hits before it.
proof fn lemma_start_bound(hits: Seq<Hit>, k: int)
    requires
        0 <= k < hits.len(),
        forall|j: int| 0 <= j <= k ==> (#[trigger] hits[j]).tick < TICK_LIMIT,
    ensures
        hits[k].tick <= start(hits, k) < TICK_LIMIT + k,
        k > 0 ==> start(hits, k - 1) < start(hits, k),
    decreases k,
{
    if k > 0 {
        lemma_start_bound(hits, k - 1);
    }
}

/// The events of lane `t` at grid position `g`.
pub open spec fn cell_events(p: Pattern, feel: Seq<Vec<CellFeel>>, t: int, g: int) -> Seq<
    NoteEvent,
> {
    if sounds(p, feel, t, g) {
        let n = ratchets(cell_step(p, t, g));
        let cell = feel[t]@[g];
        hit_events(TRACK_NOTE@[t], cell.hits@, n, gate(n, cell.spacing as int))
    } else {
        Seq::empty()
    }
}

/// The events of lane `t` over its first `n` grid positions.
pub open spec fn lane_events(p: Pattern, feel: Seq<Vec<CellFeel>>, t: int, n: int) -> Seq<NoteEvent>
    decreases n,
{
    if n <= 0 {
        Seq::empty()
    } else {
        lane_events(p, feel, t, n - 1) + cell_events(p, feel, t, n - 1)
    }
}

/// The events of the first `n` lanes, lane by lane.
pub open spec fn pattern_events(p: Pattern, feel: Seq<Vec<CellFeel>>, n: int) -> Seq<NoteEvent>
    decreases n,
{
    if n <= 0 {
        Seq::empty()
    } else {
        pattern_events(p, feel, n - 1) + lane_events(p, feel, n - 1, playable(p.length))
    }
}

/// Every event of the pattern, in the order it is collected.
pub open spec fn all_events(p: Pattern, feel: Seq<Vec<CellFeel>>) -> Seq<NoteEvent> {
    pattern_events(p, feel, MAX_TRACKS as int)
}

/// What events are sorted by: the tick; at one tick offs before ons; then the
/// note.
pub open spec fn event_key(e: NoteEvent) -> u64 {
    (e.tick * 512 + (if e.on {
        256int
    } else {
        0
    }) + e.note) as u64
}

pub open spec fn event_keys(events: Seq<NoteEvent>) -> Seq<u64> {
    Seq::new(events.len(), |i: int| event_key(events[i]))
}

/// The leading bytes of a variable-length quantity, each with its high bit set.
pub open spec fn vlq_lead(v: nat) -> Seq<u8>
    decreases v,
{
    if v == 0 {
        Seq::empty()
    } else {
        vlq_lead(v / 128).push((v % 128 + 128) as u8)
    }
}

/// `v` as a MIDI variable-length quantity: seven bits to a byte, the most
/// significant first, the high bit set on all but the last.
pub open spec fn vlq_bytes(v: nat) -> Seq<u8> {
    vlq_lead(v / 128).push((v % 128) as u8)
}

pub open spec fn be16(n: nat) -> Seq<u8> {
    seq![(n / 0x100 % 0x100) as u8, (n % 0x100) as u8]
}

pub open spec fn be32(n: nat) -> Seq<u8> {
    seq![
        (n / 0x100_0000 % 0x100) as u8,
        (n / 0x1_0000 % 0x100) as u8,
        (n / 0x100 % 0x100) as u8,
        (n % 0x100) as u8,
    ]
}

/// The three bytes of an event on the drum channel.
pub open spec fn message(e: NoteEvent) -> Seq<u8> {
    seq![
        if e.on {
            0x99u8
        } else {
            0x89u8
        },
        (e.note % 128) as u8,
        if e.on {
            (e.velocity % 128) as u8
        } else {
            0u8
        },
    ]
}

/// The events as track bytes, each after the time since the one before.
pub open spec fn track_body(events: Seq<NoteEvent>, last: int) -> Seq<u8>
    decreases events.len(),
{
    if events.len() == 0 {
        Seq::empty()
    } else {
        vlq_bytes((events[0].tick - last) as nat) + message(events[0]) + track_body(
            events.drop_first(),
            events[0].tick as int,
        )
    }
}

/// The tick of the last event, or 0.
pub open spec fn last_tick(events: Seq<NoteEvent>) -> int {
    if events.len() == 0 {
        0
    } else {
        events.last().tick as int
    }
}

/// The track name event: `Drumlin`.
pub open spec fn track_name() -> Seq<u8> {
    seq![0x00u8, 0xFF, 0x03, 7, 0x44, 0x72, 0x75, 0x6D, 0x6C, 0x69, 0x6E]
}

/// The whole track: its name, the events, and an end that pads the track to the
/// pattern's length.
pub open spec fn track(events: Seq<NoteEvent>, steps: int) -> Seq<u8> {
    let end = steps * STEP_TICKS;
    let pad = if end < last_tick(events) {
        0
    } else {
        end - last_tick(events)
    };
    track_name() + track_body(events, 0) + vlq_bytes(pad as nat) + seq![0xFFu8, 0x2F, 0x00]
}

/// The whole file: a header for format 0 with one track, then the track.
pub open spec fn midi_file(events: Seq<NoteEvent>, steps: int) -> Seq<u8> {
    seq![0x4Du8, 0x54, 0x68, 0x64] + be32(6) + be16(0) + be16(1) + be16(PPQ as nat) + seq![
        0x4Du8,
        0x54,
        0x72,
        0x6B,
    ] + be32(track(events, steps).len()) + track(events, steps)
}

/// What a grid of feels has to bring: a cell for every lane and grid position,
/// and where a lane sounds the hits of its step, early enough to be written.
pub open spec fn feel_fits(p: Pattern, feel: Seq<Vec<CellFeel>>) -> bool {
    &&& feel.len() == MAX_TRACKS
    &&& forall|t: int| 0 <= t < MAX_TRACKS ==> (#[trigger] feel[t])@.len() >= playable(p.length)
    &&& forall|t: int, g: int|
        0 <= t < MAX_TRACKS && 0 <= g < playable(p.length) && #[trigger] sounds(p, feel, t, g)
            ==> hits_fit(feel[t]@[g], ratchets(cell_step(p, t, g)))
}

pub open spec fn hits_fit(cell: CellFeel, n: int) -> bool {
    &&& cell.hits@.len() >= n
    &&& forall|k: int| 0 <= k < n ==> (#[trigger] cell.hits@[k]).tick < TICK_LIMIT
}

/// Write `v` as a MIDI variable-length quantity.
pub fn vlq(out: &mut Vec<u8>, v: u32)
    requires
        v < 0x1000_0000,
    ensures
        final(out)@ == old(out)@ + vlq_bytes(v as nat),
{
    proof {
        reveal_with_fuel(vlq_lead, 4);
        let n = v as nat;
        assert(n / 128 / 128 == n / 0x4000);
        assert(n / 128 / 128 / 128 == n / 0x20_0000);
        assert(n / 128 / 128 / 128 / 128 == 0);
    }
    let ghost start = out@;
    if v >= 0x20_0000 {
        out.push((v / 0x20_0000 % 128 + 128) as u8);
    }
    if v >= 0x4000 {
        out.push((v / 0x4000 % 128 + 128) as u8);
    }
    if v >= 0x80 {
        out.push((v / 0x80 % 128 + 128) as u8);
    }
    out.push((v % 128) as u8);
    assert(out@ =~= start + vlq_bytes(v as nat));
}

fn push_be16(out: &mut Vec<u8>, n: u32)
    ensures
        final(out)@ == old(out)@ + be16(n as nat),
{
    out.push((n / 0x100 % 0x100) as u8);
    out.push((n % 0x100) as u8);
    assert(out@ =~= old(out)@ + be16(n as nat));
}

fn push_be32(out: &mut Vec<u8>, n: u32)
    ensures
        final(out)@ == old(out)@ + be32(n as nat),
{
    out.push((n / 0x100_0000 % 0x100) as u8);
    out.push((n / 0x1_0000 % 0x100) as u8);
    out.push((n / 0x100 % 0x100) as u8);
    out.push((n % 0x100) as u8);
    assert(out@ =~= old(out)@ + be32(n as nat));
}

/// The events of one grid position, appended to `out`.
fn push_hits(out: &mut Vec<Keyed<NoteEvent>>, note: u8, hits: &Vec<Hit>, n: usize, gate_ticks: u32)
    requires
        1 <= n <= 8,
        n <= hits@.len(),
        gate_ticks <= GATE_TICKS,
        forall|k: int| 0 <= k < n ==> (#[trigger] hits@[k]).tick < TICK_LIMIT,
    ensures
        final(out)@ == old(out)@ + keyed(hit_events(note, hits@, n as int, gate_ticks as int)),
{
    let ghost first = out@;
    let ghost events = hit_events(note, hits@, n as int, gate_ticks as int);
    let mut at: u32 = hits[0].tick;
    let mut k: usize = 0;
    assert(out@ =~= first + keyed(events.take(0)));
    while k < n
        invariant
            k <= n <= hits@.len(),
            n <= 8,
            gate_ticks <= GATE_TICKS,
            forall|j: int| 0 <= j < n ==> (#[trigger] hits@[j]).tick < TICK_LIMIT,
            k < n ==> at == start(hits@, k as int),
            events == hit_events(note, hits@, n as int, gate_ticks as int),
            out@ == first + keyed(events.take(2 * k)),
        decreases n - k,
    {
        proof {
            lemma_start_bound(hits@, k as int);
        }
        let ghost before = out@;
        let mut off: u32 = at + gate_ticks;
        let mut next: u32 = at;
        if k + 1 < n {
            let tick: u32 = hits[k + 1].tick;
            next = if tick <= at {
                at + 1
            } else {
                tick
            };
            if next < off {
                off = next;
            }
        }
        let velocity = hits[k].velocity;
        out.push(keyed_event(NoteEvent { tick: at, on: true, note, velocity }));
        out.push(keyed_event(NoteEvent { tick: off, on: false, note, velocity: 0 }));
        proof {
            assert((2 * k) / 2 == k && (2 * k + 1) / 2 == k);
            assert(events[2 * k] == (NoteEvent { tick: at, on: true, note, velocity }));
            assert(events[2 * k + 1] == (NoteEvent { tick: off, on: false, note, velocity: 0 }));
            assert(out@ =~= first + keyed(events.take(2 * (k + 1))));
        }
        at = next;
        k = k + 1;
    }
    assert(events.take(2 * n) =~= events);
}

/// The events with their keys.
pub open spec fn keyed(events: Seq<NoteEvent>) -> Seq<Keyed<NoteEvent>> {
    Seq::new(events.len(), |i: int| (Keyed { key: event_key(events[i]), item: events[i] }))
}

fn keyed_event(e: NoteEvent) -> (k: Keyed<NoteEvent>)
    ensures
        k.key == event_key(e),
        k.item == e,
{
    let on: u64 = if e.on {
        256
    } else {
        0
    };
    Keyed { key: e.tick as u64 * 512 + on + e.note as u64, item: e }
}

proof fn lemma_keyed_concat(a: Seq<NoteEvent>, b: Seq<NoteEvent>)
    ensures
        keyed(a + b) == keyed(a) + keyed(b),
{
    assert(keyed(a + b) =~= keyed(a) + keyed(b));
}

/// How long one of `n` hits is held.
fn gate_of(n: usize, spacing: u32) -> (r: u32)
    ensures
        r == gate(n as int, spacing as int),
        1 <= r <= GATE_TICKS,
{
    if n <= 1 {
        GATE_TICKS
    } else {
        let room = spacing.saturating_sub(1);
        if room < 1 {
            1
        } else if room > GATE_TICKS {
            GATE_TICKS
        } else {
            room
        }
    }
}

fn ratchets_of(step: &Step) -> (n: usize)
    ensures
        n == ratchets(*step),
        1 <= n <= 8,
{
    if step.ratchet < 1 {
        1
    } else if step.ratchet > 8 {
        8
    } else {
        step.ratchet as usize
    }
}

/// Every event of the pattern with its key, in the order it is collected.
fn collect_events(p: &Pattern, feel: &Vec<Vec<CellFeel>>) -> (out: Vec<Keyed<NoteEvent>>)
    requires
        p.well_formed(),
        feel_fits(*p, feel@),
    ensures
        out@ == keyed(all_events(*p, feel@)),
{
    let mut out: Vec<Keyed<NoteEvent>> = Vec::new();
    let plen: usize = playable_steps(p.length);
    assert(out@ =~= keyed(pattern_events(*p, feel@, 0)));
    let mut t: usize = 0;
    while t < MAX_TRACKS
        invariant
            t <= MAX_TRACKS,
            plen == playable(p.length),
            plen <= MAX_STEPS,
            p.well_formed(),
            feel_fits(*p, feel@),
            out@ == keyed(pattern_events(*p, feel@, t as int)),
        decreases MAX_TRACKS - t,
    {
        let track = &p.tracks[t];
        let slen: usize = playable_steps(track.length);
        let ghost before = pattern_events(*p, feel@, t as int);
        let mut g: usize = 0;
        assert(before + lane_events(*p, feel@, t as int, 0) =~= before);
        while g < plen
            invariant
                t < MAX_TRACKS,
                g <= plen,
                plen == playable(p.length),
                plen <= MAX_STEPS,
                *track == p.tracks@[t as int],
                slen == playable(track.length),
                1 <= slen <= MAX_STEPS,
                p.well_formed(),
                feel_fits(*p, feel@),
                out@ == keyed(before + lane_events(*p, feel@, t as int, g as int)),
            decreases plen - g,
        {
            let s: usize = g % slen;
            let step = &track.steps[s];
            let cell = &feel[t][g];
            assert(*step == cell_step(*p, t as int, g as int));
            let ghost lane = lane_events(*p, feel@, t as int, g as int);
            let ghost more = cell_events(*p, feel@, t as int, g as int);
            if !track.muted && step.on && cell.passes && (step.probability >= 100 || cell.roll
                < step.probability as u32) {
                assert(sounds(*p, feel@, t as int, g as int));
                let n: usize = ratchets_of(step);
                push_hits(&mut out, TRACK_NOTE[t], &cell.hits, n, gate_of(n, cell.spacing));
            } else {
                assert(out@ =~= out@ + keyed(more));
            }
            proof {
                lemma_keyed_concat(before + lane, more);
                assert(before + lane + more =~= before + (lane + more));
            }
            g = g + 1;
        }
        t = t + 1;
    }
    out
}

/// An event of the pattern is early enough to be written.
pub open spec fn writable(e: NoteEvent) -> bool {
    e.tick < TICK_LIMIT + 8 + GATE_TICKS
}

proof fn lemma_lane_bounds(p: Pattern, feel: Seq<Vec<CellFeel>>, t: int, n: int)
    requires
        feel_fits(p, feel),
        0 <= t < MAX_TRACKS,
        0 <= n <= playable(p.length),
    ensures
        lane_events(p, feel, t, n).len() <= 16 * n,
        forall|i: int|
            0 <= i < lane_events(p, feel, t, n).len() ==> writable(
                #[trigger] lane_events(p, feel, t, n)[i],
            ),
    decreases n,
{
    if n > 0 {
        lemma_lane_bounds(p, feel, t, n - 1);
        if sounds(p, feel, t, n - 1) {
            assert(hits_fit(feel[t]@[n - 1], ratchets(cell_step(p, t, n - 1))));
        }
        let before = lane_events(p, feel, t, n - 1);
        let more = cell_events(p, feel, t, n - 1);
        assert forall|i: int| 0 <= i < (before + more).len() implies writable(
            #[trigger] (before + more)[i],
        ) by {
            if i >= before.len() {
                let j = i - before.len();
                assert((before + more)[i] == more[j]);
                lemma_start_bound(feel[t]@[n - 1].hits@, j / 2);
            }
        }
    }
}

proof fn lemma_pattern_bounds(p: Pattern, feel: Seq<Vec<CellFeel>>, n: int)
    requires
        feel_fits(p, feel),
        0 <= n <= MAX_TRACKS,
    ensures
        pattern_events(p, feel, n).len() <= 1024 * n,
        forall|i: int|
            0 <= i < pattern_events(p, feel, n).len() ==> writable(
                #[trigger] pattern_events(p, feel, n)[i],
            ),
    decreases n,
{
    if n > 0 {
        lemma_pattern_bounds(p, feel, n - 1);
        lemma_lane_bounds(p, feel, n - 1, playable(p.length));
    }
}

proof fn lemma_vlq_len(v: nat)
    requires
        v < 0x1000_0000,
    ensures
        1 <= vlq_bytes(v).len() <= 4,
{
    reveal_with_fuel(vlq_lead, 4);
    assert(v / 128 / 128 / 128 / 128 == 0);
}

/// Ticks never fall from one event to the next.
pub open spec fn ticks_rise(events: Seq<NoteEvent>) -> bool {
    forall|i: int, j: int| 0 <= i < j < events.len() ==> events[i].tick <= events[j].tick
}

proof fn lemma_sorted_ticks_rise(events: Seq<NoteEvent>, order: Seq<int>)
    requires
        is_stable_order(event_keys(events), order),
    ensures
        ticks_rise(arranged(events, order)),
{
    let sorted = arranged(events, order);
    assert forall|i: int, j: int| 0 <= i < j < sorted.len() implies sorted[i].tick
        <= sorted[j].tick by {
        assert(stands_before(event_keys(events), order[i], order[j]));
        assert(event_key(sorted[i]) <= event_key(sorted[j]));
    }
}

/// The track bytes of `events`, which stand in playing order.
fn write_track(events: &Vec<Keyed<NoteEvent>>, plen: usize, Ghost(notes): Ghost<Seq<NoteEvent>>) -> (trk:
    Vec<u8>)
    requires
        events@ == keyed(notes),
        ticks_rise(notes),
        forall|i: int| 0 <= i < notes.len() ==> writable(#[trigger] notes[i]),
        notes.len() <= 12288,
        plen <= MAX_STEPS,
    ensures
        trk@ == track(notes, plen as int),
        trk@.len() < 0x1_0000_0000,
{
    let mut trk: Vec<u8> = vec![0x00, 0xFF, 0x03, 7, 0x44, 0x72, 0x75, 0x6D, 0x6C, 0x69, 0x6E];
    assert(trk@ =~= track_name());
    let mut last: u32 = 0;
    let mut i: usize = 0;
    proof {
        assert(notes.skip(0) =~= notes);
    }
    while i < events.len()
        invariant
            events@ == keyed(notes),
            ticks_rise(notes),
            forall|j: int| 0 <= j < notes.len() ==> writable(#[trigger] notes[j]),
            i <= notes.len() <= 12288,
            last == last_tick(notes.take(i as int)),
            trk@ + track_body(notes.skip(i as int), last as int) == track_name() + track_body(
                notes,
                0,
            ),
            trk@.len() <= 11 + 7 * i,
        decreases notes.len() - i,
    {
        let e = events[i].item;
        proof {
            assert(e == notes[i as int]);
            if i > 0 {
                assert(notes.take(i as int).last() == notes[i - 1]);
            }
            assert(notes.skip(i as int)[0] == e);
            assert(notes.skip(i as int).drop_first() =~= notes.skip(i + 1));
            assert(notes.take(i + 1).last() == e);
            lemma_vlq_len((e.tick - last) as nat);
        }
        let ghost start = trk@;
        let ghost delta = vlq_bytes((e.tick - last) as nat);
        let ghost rest = track_body(notes.skip(i + 1), e.tick as int);
        assert(track_body(notes.skip(i as int), last as int) == delta + message(e) + rest);
        vlq(&mut trk, e.tick - last);
        last = e.tick;
        trk.push(
            if e.on {
                0x99
            } else {
                0x89
            },
        );
        trk.push(e.note % 128);
        trk.push(
            if e.on {
                e.velocity % 128
            } else {
                0
            },
        );
        assert(trk@ =~= start + delta + message(e));
        assert(trk@ + rest =~= start + (delta + message(e) + rest));
        i = i + 1;
    }
    proof {
        assert(notes.skip(i as int).len() == 0);
        assert(notes.take(i as int) =~= notes);
        assert(trk@ + track_body(notes.skip(i as int), last as int) =~= trk@);
    }
    let end: u32 = plen as u32 * STEP_TICKS;
    let pad: u32 = end.saturating_sub(last);
    proof {
        lemma_vlq_len(pad as nat);
    }
    let ghost body = trk@;
    vlq(&mut trk, pad);
    trk.push(0xFF);
    trk.push(0x2F);
    trk.push(0x00);
    assert(trk@ =~= body + vlq_bytes(pad as nat) + seq![0xFFu8, 0x2F, 0x00]);
    trk
}

/// Render one pass of `p` as a complete MIDI file of one track.
pub fn pattern_to_midi(p: &Pattern, feel: &Vec<Vec<CellFeel>>) -> (bytes: Vec<u8>)
    requires
        p.well_formed(),
        feel_fits(*p, feel@),
    ensures
        exists|order: Seq<int>|
            is_stable_order(event_keys(all_events(*p, feel@)), order) && bytes@ == midi_file(
                arranged(all_events(*p, feel@), order),
                playable(p.length),
            ),
{
    let collected = collect_events(p, feel);
    let ghost events = all_events(*p, feel@);
    let ghost pairs = collected@;
    assert(keys_of(pairs) =~= event_keys(events));
    let sorted = stable_sort(collected);
    let ghost order = choose|order: Seq<int>|
        is_stable_order(keys_of(pairs), order) && sorted@ == arranged(pairs, order);
    let ghost notes = arranged(events, order);
    proof {
        lemma_pattern_bounds(*p, feel@, MAX_TRACKS as int);
        lemma_sorted_ticks_rise(events, order);
        assert(sorted@ =~= keyed(notes));
    }
    let plen: usize = playable_steps(p.length);
    let mut trk = write_track(&sorted, plen, Ghost(notes));
    let mut out: Vec<u8> = vec![0x4D, 0x54, 0x68, 0x64];
    assert(out@ =~= seq![0x4Du8, 0x54, 0x68, 0x64]);
    push_be32(&mut out, 6);
    push_be16(&mut out, 0);
    push_be16(&mut out, 1);
    push_be16(&mut out, PPQ);
    let ghost head = out@;
    out.push(0x4D);
    out.push(0x54);
    out.push(0x72);
    out.push(0x6B);
    assert(out@ =~= head + seq![0x4Du8, 0x54, 0x72, 0x6B]);
    push_be32(&mut out, trk.len() as u32);
    out.append(&mut trk);
    assert(out@ =~= midi_file(notes, playable(p.length)));
    out
}

/// Read a variable-length quantity: its value after `acc`, and how many bytes
/// it takes.
pub open spec fn vlq_read(b: Seq<u8>, acc: nat) -> (nat, nat)
    decreases b.len(),
{
    if b.len() == 0 {
        (acc, 0)
    } else {
        let next = acc * 128 + (b[0] % 128) as nat;
        if b[0] < 128 {
            (next, 1)
        } else {
            let (v, n) = vlq_read(b.drop_first(), next);
            (v, n + 1)
        }
    }
}

proof fn lemma_lead_reads_back(v: nat, rest: Seq<u8>)
    requires
        rest.len() > 0,
    ensures
        vlq_read(vlq_lead(v) + rest, 0) == ({
            let (x, n) = vlq_read(rest, v);
            (x, n + vlq_lead(v).len())
        }),
    decreases v,
{
    if v == 0 {
        assert(vlq_lead(v) + rest =~= rest);
    } else {
        let b = (v % 128 + 128) as u8;
        let tail = seq![b] + rest;
        assert(vlq_lead(v) + rest =~= vlq_lead(v / 128) + tail);
        lemma_lead_reads_back(v / 128, tail);
        assert(tail.drop_first() =~= rest);
        assert(tail[0] == b);
        assert(v / 128 * 128 + v % 128 == v);
    }
}

/// A variable-length quantity reads back as the number that was written, and
/// ends where it was written to end, whatever follows.
pub proof fn vlq_reads_back(v: nat, rest: Seq<u8>)
    ensures
        vlq_read(vlq_bytes(v) + rest, 0) == (v, vlq_bytes(v).len()),
{
    let tail = seq![(v % 128) as u8] + rest;
    assert(vlq_bytes(v) + rest =~= vlq_lead(v / 128) + tail);
    lemma_lead_reads_back(v / 128, tail);
    assert(v / 128 * 128 + v % 128 == v);
}

/// The notes that a reader of track bytes finds, up to the first byte that
/// starts no note.
pub open spec fn read_notes(b: Seq<u8>, last: int) -> Seq<NoteEvent>
    decreases b.len(),
{
    let (delta, n) = vlq_read(b, 0);
    if n + 3 > b.len() || (b[n as int] != 0x99 && b[n as int] != 0x89) {
        Seq::empty()
    } else {
        let tick = last + delta;
        let e = NoteEvent {
            tick: tick as u32,
            on: b[n as int] == 0x99,
            note: b[n as int + 1],
            velocity: b[n as int + 2],
        };
        seq![e] + read_notes(b.skip(n as int + 3), tick)
    }
}

/// An event that a MIDI message can carry: seven-bit note and velocity, and no
/// velocity on a note going off.
pub open spec fn carried(e: NoteEvent) -> bool {
    e.note < 128 && e.velocity < 128 && (!e.on ==> e.velocity == 0)
}

/// One note and what follows it.
proof fn lemma_note_reads_back(e: NoteEvent, last: int, rest: Seq<u8>)
    requires
        carried(e),
        0 <= last <= e.tick,
    ensures
        read_notes(vlq_bytes((e.tick - last) as nat) + (message(e) + rest), last) == seq![e]
            + read_notes(rest, e.tick as int),
{
    let delta = vlq_bytes((e.tick - last) as nat);
    let b = delta + (message(e) + rest);
    vlq_reads_back((e.tick - last) as nat, message(e) + rest);
    let n = delta.len() as int;
    assert(b[n] == message(e)[0]);
    assert(b[n + 1] == message(e)[1]);
    assert(b[n + 2] == message(e)[2]);
    assert(b.skip(n + 3) =~= rest);
    assert(b.len() >= n + 3);
}

proof fn lemma_body_reads_back(notes: Seq<NoteEvent>, last: int, tail: Seq<u8>)
    requires
        ticks_rise(notes),
        forall|i: int| 0 <= i < notes.len() ==> carried(#[trigger] notes[i]),
        notes.len() > 0 ==> 0 <= last <= notes[0].tick,
        read_notes(tail, last_of(notes, last)) == Seq::<NoteEvent>::empty(),
    ensures
        read_notes(track_body(notes, last) + tail, last) == notes,
    decreases notes.len(),
{
    let b = track_body(notes, last) + tail;
    if notes.len() == 0 {
        assert(b =~= tail);
        assert(notes =~= Seq::<NoteEvent>::empty());
    } else {
        let e = notes[0];
        let more = notes.drop_first();
        let rest = track_body(more, e.tick as int) + tail;
        assert(b =~= vlq_bytes((e.tick - last) as nat) + (message(e) + rest));
        lemma_note_reads_back(e, last, rest);
        assert forall|i: int| 0 <= i < more.len() implies carried(#[trigger] more[i]) by {
            assert(more[i] == notes[i + 1]);
        }
        assert(ticks_rise(more)) by {
            assert forall|i: int, j: int| 0 <= i < j < more.len() implies more[i].tick
                <= more[j].tick by {
                assert(more[i] == notes[i + 1] && more[j] == notes[j + 1]);
            }
        }
        if more.len() > 0 {
            assert(more[0] == notes[1]);
            assert(more.last() == notes.last());
        }
        lemma_body_reads_back(more, e.tick as int, tail);
        assert(seq![e] + more =~= notes);
    }
}

/// The tick of the last event, or `last`.
spec fn last_of(events: Seq<NoteEvent>, last: int) -> int {
    if events.len() == 0 {
        last
    } else {
        events.last().tick as int
    }
}

/// What is exported reads back: behind its name, the track of a file holds
/// exactly the pattern's events, in playing order, at their ticks.
pub proof fn export_reads_back(p: Pattern, feel: Seq<Vec<CellFeel>>, order: Seq<int>)
    requires
        feel_fits(p, feel),
        is_stable_order(event_keys(all_events(p, feel)), order),
        forall|t: int, g: int, k: int|
            0 <= t < MAX_TRACKS && 0 <= g < feel[t]@.len() && 0 <= k < feel[t]@[g].hits@.len()
                ==> (#[trigger] feel[t]@[g].hits@[k]).velocity < 128,
    ensures
        ({
            let notes = arranged(all_events(p, feel), order);
            read_notes(track(notes, playable(p.length)).skip(track_name().len() as int), 0) == notes
        }),
{
    let events = all_events(p, feel);
    let notes = arranged(events, order);
    let steps = playable(p.length);
    lemma_sorted_ticks_rise(events, order);
    lemma_events_carried(p, feel, MAX_TRACKS as int);
    let end = steps * STEP_TICKS;
    let pad = if end < last_tick(notes) {
        0
    } else {
        end - last_tick(notes)
    };
    let stop = seq![0xFFu8, 0x2F, 0x00];
    let tail = vlq_bytes(pad as nat) + stop;
    vlq_reads_back(pad as nat, stop);
    assert(tail[vlq_bytes(pad as nat).len() as int] == 0xFF);
    assert forall|i: int| 0 <= i < notes.len() implies carried(#[trigger] notes[i]) by {
        assert(notes[i] == events[order[i]]);
    }
    lemma_body_reads_back(notes, 0, tail);
    assert(track(notes, steps).skip(track_name().len() as int) =~= track_body(notes, 0) + tail);
}

proof fn lemma_lane_carried(p: Pattern, feel: Seq<Vec<CellFeel>>, t: int, n: int)
    requires
        feel_fits(p, feel),
        0 <= t < MAX_TRACKS,
        0 <= n <= playable(p.length),
        forall|t: int, g: int, k: int|
            0 <= t < MAX_TRACKS && 0 <= g < feel[t]@.len() && 0 <= k < feel[t]@[g].hits@.len()
                ==> (#[trigger] feel[t]@[g].hits@[k]).velocity < 128,
    ensures
        forall|i: int|
            0 <= i < lane_events(p, feel, t, n).len() ==> carried(
                #[trigger] lane_events(p, feel, t, n)[i],
            ),
    decreases n,
{
    if n > 0 {
        lemma_lane_carried(p, feel, t, n - 1);
        if sounds(p, feel, t, n - 1) {
            assert(hits_fit(feel[t]@[n - 1], ratchets(cell_step(p, t, n - 1))));
        }
        let before = lane_events(p, feel, t, n - 1);
        let more = cell_events(p, feel, t, n - 1);
        assert forall|i: int| 0 <= i < (before + more).len() implies carried(
            #[trigger] (before + more)[i],
        ) by {
            if i >= before.len() {
                let j = i - before.len();
                assert((before + more)[i] == more[j]);
                assert(feel[t]@[n - 1].hits@[j / 2].velocity < 128);
                assert(TRACK_NOTE@[t] < 128);
            }
        }
    }
}

proof fn lemma_events_carried(p: Pattern, feel: Seq<Vec<CellFeel>>, n: int)
    requires
        feel_fits(p, feel),
        0 <= n <= MAX_TRACKS,
        forall|t: int, g: int, k: int|
            0 <= t < MAX_TRACKS && 0 <= g < feel[t]@.len() && 0 <= k < feel[t]@[g].hits@.len()
                ==> (#[trigger] feel[t]@[g].hits@[k]).velocity < 128,
    ensures
        forall|i: int|
            0 <= i < pattern_events(p, feel, n).len() ==> carried(
                #[trigger] pattern_events(p, feel, n)[i],
            ),
    decreases n,
{
    if n > 0 {
        lemma_events_carried(p, feel, n - 1);
        lemma_lane_carried(p, feel, n - 1, playable(p.length));
        let before = pattern_events(p, feel, n - 1);
        let more = lane_events(p, feel, n - 1, playable(p.length));
        assert forall|i: int| 0 <= i < (before + more).len() implies carried(
            #[trigger] (before + more)[i],
        ) by {
            if i >= before.len() {
                assert((before + more)[i] == more[i - before.len()]);
            }
        }
    }
}

/// In playing order ticks never fall, and at one tick every note that goes off
/// comes before every note that goes on.
pub proof fn offs_come_first(events: Seq<NoteEvent>, order: Seq<int>, i: int, j: int)
    requires
        is_stable_order(event_keys(events), order),
        0 <= i < j < order.len(),
    ensures
        ({
            let (a, b) = (arranged(events, order)[i], arranged(events, order)[j]);
            a.tick <= b.tick && (a.tick == b.tick && a.on ==> b.on)
        }),
{
    assert(stands_before(event_keys(events), order[i], order[j]));
    assert(event_key(events[order[i]]) <= event_key(events[order[j]]));
}

/// A ratchet never overlaps itself: its hits go on and off in turn, and each of
/// its events is to be played before the next.
pub proof fn a_ratchet_takes_turns(note: u8, hits: Seq<Hit>, n: int, gate: int, i: int, j: int)
    requires
        0 <= n <= 8,
        n <= hits.len(),
        1 <= gate <= GATE_TICKS,
        forall|k: int| 0 <= k < n ==> (#[trigger] hits[k]).tick < TICK_LIMIT,
        0 <= i < j < 2 * n,
    ensures
        ({
            let events = hit_events(note, hits, n, gate);
            &&& events.len() == 2 * n
            &&& events[i].on == (i % 2 == 0)
            &&& events[j].on == (j % 2 == 0)
            &&& events[i].tick <= events[j].tick
            &&& event_key(events[i]) < event_key(events[j])
        }),
    decreases j - i,
{
    let events = hit_events(note, hits, n, gate);
    lemma_start_bound(hits, i / 2);
    lemma_start_bound(hits, j / 2);
    if j > i + 1 {
        a_ratchet_takes_turns(note, hits, n, gate, i, j - 1);
        a_ratchet_takes_turns(note, hits, n, gate, j - 1, j);
    } else if i % 2 == 0 {
        if i / 2 + 1 < n {
            lemma_start_bound(hits, i / 2 + 1);
        }
    }
}

/// Where the events of lane `t` at grid position `g` stand among those of the
/// pattern as they are collected.
pub open spec fn cell_place(p: Pattern, feel: Seq<Vec<CellFeel>>, t: int, g: int) -> int {
    (pattern_events(p, feel, t).len() + lane_events(p, feel, t, g).len()) as int
}

proof fn lemma_lane_prefix(p: Pattern, feel: Seq<Vec<CellFeel>>, t: int, g: int, n: int, i: int)
    requires
        0 <= g < n,
        0 <= i < cell_events(p, feel, t, g).len(),
    ensures
        lane_events(p, feel, t, g).len() + i < lane_events(p, feel, t, n).len(),
        lane_events(p, feel, t, n)[lane_events(p, feel, t, g).len() + i] == cell_events(
            p,
            feel,
            t,
            g,
        )[i],
    decreases n,
{
    if g < n - 1 {
        lemma_lane_prefix(p, feel, t, g, n - 1, i);
    }
}

proof fn lemma_cell_stands(p: Pattern, feel: Seq<Vec<CellFeel>>, t: int, g: int, n: int, i: int)
    requires
        0 <= t < n,
        0 <= g < playable(p.length),
        0 <= i < cell_events(p, feel, t, g).len(),
    ensures
        cell_place(p, feel, t, g) + i < pattern_events(p, feel, n).len(),
        pattern_events(p, feel, n)[cell_place(p, feel, t, g) + i] == cell_events(p, feel, t, g)[i],
    decreases n,
{
    if t < n - 1 {
        lemma_cell_stands(p, feel, t, g, n - 1, i);
    } else {
        lemma_lane_prefix(p, feel, t, g, playable(p.length), i);
    }
}

/// In the file of a whole pattern, the events of one step of a lane are played in
/// turn: the one collected before is played before, and they are on, off, on,
/// off.
pub proof fn a_step_takes_turns(
    p: Pattern,
    feel: Seq<Vec<CellFeel>>,
    t: int,
    g: int,
    order: Seq<int>,
    x: int,
    y: int,
)
    requires
        feel_fits(p, feel),
        is_stable_order(event_keys(all_events(p, feel)), order),
        0 <= t < MAX_TRACKS,
        0 <= g < playable(p.length),
        0 <= x < order.len(),
        0 <= y < order.len(),
        cell_place(p, feel, t, g) <= order[x] < order[y] < cell_place(p, feel, t, g) + cell_events(
            p,
            feel,
            t,
            g,
        ).len(),
    ensures
        x < y,
        arranged(all_events(p, feel), order)[x].on == ((order[x] - cell_place(p, feel, t, g)) % 2
            == 0),
        arranged(all_events(p, feel), order)[y].on == ((order[y] - cell_place(p, feel, t, g)) % 2
            == 0),
        arranged(all_events(p, feel), order)[x].note == TRACK_NOTE@[t],
        arranged(all_events(p, feel), order)[y].note == TRACK_NOTE@[t],
{
    let events = all_events(p, feel);
    let cell = cell_events(p, feel, t, g);
    let place = cell_place(p, feel, t, g);
    let (i, j) = (order[x] - place, order[y] - place);
    lemma_cell_stands(p, feel, t, g, MAX_TRACKS as int, i);
    lemma_cell_stands(p, feel, t, g, MAX_TRACKS as int, j);
    assert(sounds(p, feel, t, g));
    let n = ratchets(cell_step(p, t, g));
    assert(hits_fit(feel[t]@[g], n));
    a_ratchet_takes_turns(
        TRACK_NOTE@[t],
        feel[t]@[g].hits@,
        n,
        gate(n, feel[t]@[g].spacing as int),
        i,
        j,
    );
    assert(event_keys(events)[order[x]] < event_keys(events)[order[y]]);
    if y < x {
        assert(stands_before(event_keys(events), order[y], order[x]));
    }
}

/// Nothing but lane `t` at grid position `g` sounds.
pub open spec fn sounds_alone(p: Pattern, feel: Seq<Vec<CellFeel>>, t: int, g: int) -> bool {
    forall|u: int, h: int|
        0 <= u < MAX_TRACKS && 0 <= h < playable(p.length) && #[trigger] sounds(p, feel, u, h)
            ==> u == t && h == g
}

proof fn lemma_lone_lane(p: Pattern, feel: Seq<Vec<CellFeel>>, t: int, g: int, u: int, n: int)
    requires
        sounds_alone(p, feel, t, g),
        0 <= u < MAX_TRACKS,
        0 <= n <= playable(p.length),
    ensures
        lane_events(p, feel, u, n) == if u == t && 0 <= g < n {
            cell_events(p, feel, t, g)
        } else {
            Seq::empty()
        },
    decreases n,
{
    if n > 0 {
        lemma_lone_lane(p, feel, t, g, u, n - 1);
        let more = cell_events(p, feel, u, n - 1);
        if u == t && g == n - 1 {
            assert(Seq::<NoteEvent>::empty() + more =~= more);
        } else {
            assert(!sounds(p, feel, u, n - 1));
            assert(lane_events(p, feel, u, n - 1) + more =~= lane_events(p, feel, u, n - 1));
        }
    }
}

proof fn lemma_lone_pattern(p: Pattern, feel: Seq<Vec<CellFeel>>, t: int, g: int, n: int)
    requires
        sounds_alone(p, feel, t, g),
        0 <= t,
        0 <= g < playable(p.length),
        0 <= n <= MAX_TRACKS,
    ensures
        pattern_events(p, feel, n) == if t < n {
            cell_events(p, feel, t, g)
        } else {
            Seq::empty()
        },
    decreases n,
{
    if n > 0 {
        lemma_lone_pattern(p, feel, t, g, n - 1);
        lemma_lone_lane(p, feel, t, g, n - 1, playable(p.length));
        let before = pattern_events(p, feel, n - 1);
        let more = lane_events(p, feel, n - 1, playable(p.length));
        if t == n - 1 {
            assert(Seq::<NoteEvent>::empty() + more =~= more);
        } else {
            assert(before + more =~= before);
        }
    }
}

/// Positions that are listed each once, in rising order, stand in their places.
proof fn lemma_rising_order_stays(order: Seq<int>, i: int)
    requires
        0 <= i < order.len(),
        forall|k: int| 0 <= k < order.len() ==> 0 <= #[trigger] order[k] < order.len(),
        forall|a: int, b: int| 0 <= a < b < order.len() ==> order[a] < order[b],
    ensures
        order[i] == i,
{
    lemma_rising_order_above(order, i);
    lemma_rising_order_below(order, i);
}

proof fn lemma_rising_order_above(order: Seq<int>, i: int)
    requires
        0 <= i < order.len(),
        forall|k: int| 0 <= k < order.len() ==> 0 <= #[trigger] order[k] < order.len(),
        forall|a: int, b: int| 0 <= a < b < order.len() ==> order[a] < order[b],
    ensures
        order[i] >= i,
    decreases i,
{
    if i > 0 {
        lemma_rising_order_above(order, i - 1);
    }
}

proof fn lemma_rising_order_below(order: Seq<int>, i: int)
    requires
        0 <= i < order.len(),
        forall|k: int| 0 <= k < order.len() ==> 0 <= #[trigger] order[k] < order.len(),
        forall|a: int, b: int| 0 <= a < b < order.len() ==> order[a] < order[b],
    ensures
        order[i] <= i,
    decreases order.len() - i,
{
    if i < order.len() - 1 {
        lemma_rising_order_below(order, i + 1);
    }
}

/// A step that sounds alone is the whole file: as many notes go on and off as it
/// has hits, in turn, so that no two of them ever sound together.
pub proof fn a_lone_step_takes_turns(
    p: Pattern,
    feel: Seq<Vec<CellFeel>>,
    t: int,
    g: int,
    order: Seq<int>,
)
    requires
        feel_fits(p, feel),
        is_stable_order(event_keys(all_events(p, feel)), order),
        0 <= t < MAX_TRACKS,
        0 <= g < playable(p.length),
        sounds(p, feel, t, g),
        sounds_alone(p, feel, t, g),
    ensures
        ({
            let played = arranged(all_events(p, feel), order);
            &&& played == cell_events(p, feel, t, g)
            &&& played.len() == 2 * ratchets(cell_step(p, t, g))
            &&& forall|i: int|
                0 <= i < played.len() ==> (#[trigger] played[i]).on == (i % 2 == 0) && played[i].note
                    == TRACK_NOTE@[t]
            &&& forall|i: int, j: int|
                0 <= i < j < played.len() ==> played[i].tick <= played[j].tick
        }),
{
    let events = all_events(p, feel);
    let keys = event_keys(events);
    let n = ratchets(cell_step(p, t, g));
    let held = gate(n, feel[t]@[g].spacing as int);
    lemma_lone_pattern(p, feel, t, g, MAX_TRACKS as int);
    assert(hits_fit(feel[t]@[g], n));
    assert forall|i: int, j: int| 0 <= i < j < events.len() implies keys[i] < keys[j]
        && events[i].tick <= events[j].tick by {
        a_ratchet_takes_turns(TRACK_NOTE@[t], feel[t]@[g].hits@, n, held, i, j);
    }
    assert forall|a: int, b: int| 0 <= a < b < order.len() implies order[a] < order[b] by {
        assert(stands_before(keys, order[a], order[b]));
        if order[b] < order[a] {
            assert(keys[order[b]] < keys[order[a]]);
        }
    }
    assert forall|i: int| 0 <= i < order.len() implies #[trigger] arranged(events, order)[i]
        == events[i] by {
        lemma_rising_order_stays(order, i);
    }
    assert(arranged(events, order) =~= events);
}

/// No two lanes share a note, so a note tells its lane.
pub proof fn notes_tell_lanes(a: int, b: int)
    requires
        0 <= a < MAX_TRACKS,
        0 <= b < MAX_TRACKS,
        TRACK_NOTE@[a] == TRACK_NOTE@[b],
    ensures
        a == b,
{
}

/// Behind the header and the track's name, the notes of a file.
pub open spec fn notes_of(file: Seq<u8>) -> Seq<NoteEvent> {
    read_notes(file.skip(33), 0)
}

/// The velocities of the hits that a grid of feels brings can be carried.
pub open spec fn velocities_fit(feel: Seq<Vec<CellFeel>>) -> bool {
    forall|t: int, g: int, k: int|
        0 <= t < MAX_TRACKS && 0 <= g < feel[t]@.len() && 0 <= k < feel[t]@[g].hits@.len() ==> (
        #[trigger] feel[t]@[g].hits@[k]).velocity < 128
}

/// A reader of a file finds the pattern's events in playing order.
proof fn lemma_file_reads_back(p: Pattern, feel: Seq<Vec<CellFeel>>, order: Seq<int>)
    requires
        feel_fits(p, feel),
        velocities_fit(feel),
        is_stable_order(event_keys(all_events(p, feel)), order),
    ensures
        notes_of(midi_file(arranged(all_events(p, feel), order), playable(p.length))) == arranged(
            all_events(p, feel),
            order,
        ),
{
    let notes = arranged(all_events(p, feel), order);
    let steps = playable(p.length);
    export_reads_back(p, feel, order);
    let trk = track(notes, steps);
    assert(midi_file(notes, steps).skip(33) =~= trk.skip(11));
    assert(track_name().len() == 11);
}

proof fn lemma_start_keeps_ticks(hits: Seq<Hit>, k: int)
    requires
        0 <= k < hits.len(),
        forall|i: int, j: int| 0 <= i < j <= k ==> hits[i].tick < hits[j].tick,
    ensures
        start(hits, k) == hits[k].tick,
    decreases k,
{
    if k > 0 {
        lemma_start_keeps_ticks(hits, k - 1);
    }
}

/// Every hit is in the file: where a lane is not muted, its step is on, its
/// condition passes and the roll is below its probability, a reader of the file
/// finds each of its hits go on with the hit's own velocity, as the note of the
/// lane, and at the hit's own tick where the hits follow one another.
pub proof fn every_hit_is_in_the_file(
    p: Pattern,
    feel: Seq<Vec<CellFeel>>,
    order: Seq<int>,
    t: int,
    g: int,
    k: int,
) -> (i: int)
    requires
        feel_fits(p, feel),
        velocities_fit(feel),
        is_stable_order(event_keys(all_events(p, feel)), order),
        0 <= t < 12,
        1 <= p.length <= 64,
        1 <= p.tracks@[t].length <= 64,
        0 <= g < p.length,
        !p.tracks@[t].muted,
        ({
            let step = p.step(t, g % p.tracks@[t].length as int);
            let cell = feel[t]@[g];
            &&& step.on
            &&& cell.passes
            &&& step.probability >= 100 || cell.roll < step.probability
            &&& 1 <= step.ratchet <= 8
            &&& 0 <= k < step.ratchet
            &&& forall|a: int, b: int|
                0 <= a < b < step.ratchet ==> cell.hits@[a].tick < cell.hits@[b].tick
        }),
    ensures
        ({
            let notes = notes_of(
                midi_file(arranged(all_events(p, feel), order), playable(p.length)),
            );
            let hit = feel[t]@[g].hits@[k];
            &&& 0 <= i < notes.len()
            &&& notes[i].on
            &&& notes[i].note == TRACK_NOTE@[t]
            &&& notes[i].velocity == hit.velocity
            &&& notes[i].tick == hit.tick
        }),
{
    let events = all_events(p, feel);
    lemma_file_reads_back(p, feel, order);
    assert(sounds(p, feel, t, g));
    assert(hits_fit(feel[t]@[g], ratchets(cell_step(p, t, g))));
    lemma_start_keeps_ticks(feel[t]@[g].hits@, k);
    lemma_cell_stands(p, feel, t, g, MAX_TRACKS as int, 2 * k);
    let place = cell_place(p, feel, t, g) + 2 * k;
    assert((2 * k) / 2 == k && (2 * k) % 2 == 0);
    assert(order.contains(place));
    let i = choose|i: int| 0 <= i < order.len() && order[i] == place;
    i
}

/// Where an event of a lane comes from.
proof fn lemma_lane_event_of(p: Pattern, feel: Seq<Vec<CellFeel>>, t: int, n: int, i: int) -> (r: (
    int,
    int,
))
    requires
        0 <= i < lane_events(p, feel, t, n).len(),
        0 <= n,
    ensures
        0 <= r.0 < n,
        0 <= r.1 < cell_events(p, feel, t, r.0).len(),
        lane_events(p, feel, t, n)[i] == cell_events(p, feel, t, r.0)[r.1],
    decreases n,
{
    let before = lane_events(p, feel, t, n - 1);
    if i < before.len() {
        lemma_lane_event_of(p, feel, t, n - 1, i)
    } else {
        (n - 1, i - before.len())
    }
}

proof fn lemma_event_of(p: Pattern, feel: Seq<Vec<CellFeel>>, n: int, i: int) -> (r: (
    int,
    int,
    int,
))
    requires
        0 <= i < pattern_events(p, feel, n).len(),
        0 <= n,
    ensures
        0 <= r.0 < n,
        0 <= r.1 < playable(p.length),
        0 <= r.2 < cell_events(p, feel, r.0, r.1).len(),
        pattern_events(p, feel, n)[i] == cell_events(p, feel, r.0, r.1)[r.2],
    decreases n,
{
    let before = pattern_events(p, feel, n - 1);
    if i < before.len() {
        lemma_event_of(p, feel, n - 1, i)
    } else {
        let (g, j) = lemma_lane_event_of(
            p,
            feel,
            n - 1,
            playable(p.length),
            i - before.len(),
        );
        (n - 1, g, j)
    }
}

/// Nothing else is in the file: every note that goes on in it is a hit, with the
/// hit's velocity, of a lane that is not muted and whose note it is, from a step
/// that is on, whose condition passes and whose roll is below its probability; and
/// it goes on no earlier than the hit.
pub proof fn only_hits_are_in_the_file(
    p: Pattern,
    feel: Seq<Vec<CellFeel>>,
    order: Seq<int>,
    i: int,
) -> (r: (int, int, int))
    requires
        feel_fits(p, feel),
        velocities_fit(feel),
        is_stable_order(event_keys(all_events(p, feel)), order),
        1 <= p.length <= 64,
        forall|t: int| 0 <= t < 12 ==> 1 <= (#[trigger] p.tracks@[t]).length <= 64,
        ({
            let notes = notes_of(
                midi_file(arranged(all_events(p, feel), order), playable(p.length)),
            );
            0 <= i < notes.len() && notes[i].on
        }),
    ensures
        ({
            let notes = notes_of(
                midi_file(arranged(all_events(p, feel), order), playable(p.length)),
            );
            let (t, g, k) = r;
            let step = p.step(t, g % p.tracks@[t].length as int);
            let cell = feel[t]@[g];
            &&& 0 <= t < 12
            &&& 0 <= g < p.length
            &&& !p.tracks@[t].muted
            &&& step.on
            &&& cell.passes
            &&& step.probability >= 100 || cell.roll < step.probability
            &&& k == 0 || 0 <= k < step.ratchet && k < 8
            &&& notes[i].note == TRACK_NOTE@[t]
            &&& notes[i].velocity == cell.hits@[k].velocity
            &&& notes[i].tick >= cell.hits@[k].tick
        }),
{
    lemma_file_reads_back(p, feel, order);
    let events = all_events(p, feel);
    let (t, g, j) = lemma_event_of(p, feel, MAX_TRACKS as int, order[i]);
    assert(events[order[i]] == cell_events(p, feel, t, g)[j]);
    assert(sounds(p, feel, t, g));
    assert(hits_fit(feel[t]@[g], ratchets(cell_step(p, t, g))));
    assert(1 <= p.tracks@[t].length <= 64);
    lemma_start_bound(feel[t]@[g].hits@, j / 2);
    (t, g, j / 2)
}

/// A step that sounds alone reads back hit by hit: the `k`-th note-on has the
/// velocity of the `k`-th hit and the lane's note; its note-off follows it, is held
/// for half a step where the step is not split, and for a tick less than the
/// spacing where it is and the next hit leaves the room.
pub proof fn a_lone_step_reads_back(
    p: Pattern,
    feel: Seq<Vec<CellFeel>>,
    t: int,
    g: int,
    order: Seq<int>,
    k: int,
)
    requires
        feel_fits(p, feel),
        velocities_fit(feel),
        is_stable_order(event_keys(all_events(p, feel)), order),
        0 <= t < 12,
        1 <= p.length <= 64,
        1 <= p.tracks@[t].length <= 64,
        0 <= g < p.length,
        sounds(p, feel, t, g),
        sounds_alone(p, feel, t, g),
        ({
            let step = p.step(t, g % p.tracks@[t].length as int);
            1 <= step.ratchet <= 8 && 0 <= k < step.ratchet
        }),
    ensures
        ({
            let notes = notes_of(
                midi_file(arranged(all_events(p, feel), order), playable(p.length)),
            );
            let n = p.step(t, g % p.tracks@[t].length as int).ratchet as int;
            let cell = feel[t]@[g];
            let (on, off) = (notes[2 * k], notes[2 * k + 1]);
            &&& notes.len() == 2 * n
            &&& on.on && !off.on
            &&& on.note == TRACK_NOTE@[t] && off.note == TRACK_NOTE@[t]
            &&& on.velocity == cell.hits@[k].velocity
            &&& on.tick >= cell.hits@[k].tick
            &&& k == 0 ==> on.tick == cell.hits@[0].tick
            &&& on.tick < off.tick <= on.tick + 60
            &&& k + 1 < n ==> off.tick <= notes[2 * k + 2].tick
            &&& n == 1 ==> off.tick == on.tick + 60
            &&& n > 1 && 2 <= cell.spacing <= 61 && (k + 1 == n || cell.hits@[k + 1].tick
                >= on.tick + cell.spacing - 1) ==> off.tick == on.tick + cell.spacing - 1
        }),
{
    lemma_file_reads_back(p, feel, order);
    a_lone_step_takes_turns(p, feel, t, g, order);
    assert(hits_fit(feel[t]@[g], ratchets(cell_step(p, t, g))));
    let hits = feel[t]@[g].hits@;
    lemma_start_bound(hits, k);
    let n = ratchets(cell_step(p, t, g));
    if k + 1 < n {
        lemma_start_bound(hits, k + 1);
    }
    assert((2 * k) / 2 == k && (2 * k + 1) / 2 == k && (2 * k) % 2 == 0 && (2 * k + 1) % 2 == 1);
}

/// The lanes sound as their drums: kick 36, sub 35, snare 38, clap 39, rim 37, closed hat
/// 42, open hat 46, ride 51, low tom 45, high tom 50, cowbell 56, zap 60.
pub proof fn lanes_sound_as_their_drums()
    ensures
        TRACK_NOTE@[0] == 36 && TRACK_NOTE@[1] == 35 && TRACK_NOTE@[2] == 38,
        TRACK_NOTE@[3] == 39 && TRACK_NOTE@[4] == 37 && TRACK_NOTE@[5] == 42,
        TRACK_NOTE@[6] == 46 && TRACK_NOTE@[7] == 51 && TRACK_NOTE@[8] == 45,
        TRACK_NOTE@[9] == 50 && TRACK_NOTE@[10] == 56 && TRACK_NOTE@[11] == 60,
{
}

/// A step is split as often as it says, from once to eight times.
pub proof fn a_step_is_split_as_often_as_it_says(step: Step)
    ensures
        1 <= step.ratchet <= 8 ==> ratchets(step) == step.ratchet,
        step.ratchet == 0 ==> ratchets(step) == 1,
        step.ratchet > 8 ==> ratchets(step) == 8,
{
}

/// A hit that is not split is held for half a step; one that is, for a tick less than the
/// spacing, but for at least one tick and at most half a step.
pub proof fn hits_are_held_within_half_a_step(n: int, spacing: int)
    ensures
        n <= 1 ==> gate(n, spacing) == 60,
        n > 1 && 2 <= spacing <= 61 ==> gate(n, spacing) == spacing - 1,
        n > 1 && spacing < 2 ==> gate(n, spacing) == 1,
        n > 1 && spacing > 61 ==> gate(n, spacing) == 60,
{
}

/// Hits that would fall together are told apart: each goes on at its own tick, or one tick
/// after the hit before it where that is later.
pub proof fn a_hit_never_goes_on_before_the_last(hits: Seq<Hit>, k: int)
    requires
        0 <= k,
        k + 1 < hits.len(),
    ensures
        start(hits, 0) == hits[0].tick,
        start(hits, k + 1) >= hits[k + 1].tick,
        start(hits, k + 1) > start(hits, k),
        start(hits, k + 1) == hits[k + 1].tick || start(hits, k + 1) == start(hits, k) + 1,
{
}

/// At one tick, among the notes that go on, and among those that go off, the lower note
/// comes first.
pub proof fn lower_notes_come_first(events: Seq<NoteEvent>, order: Seq<int>, i: int, j: int)
    requires
        is_stable_order(event_keys(events), order),
        0 <= i < j < order.len(),
    ensures
        ({
            let (a, b) = (arranged(events, order)[i], arranged(events, order)[j]);
            a.tick == b.tick && a.on == b.on ==> a.note <= b.note
        }),
{
    assert(stands_before(event_keys(events), order[i], order[j]));
    assert(event_key(events[order[i]]) <= event_key(events[order[j]]));
}

/// Two and four bytes hold a number with the highest first.
pub proof fn numbers_stand_highest_first(n: nat)
    ensures
        be16(n).len() == 2 && be32(n).len() == 4,
        n < 0x1_0000 ==> be16(n)[0] * 0x100 + be16(n)[1] == n,
        n < 0x1_0000_0000 ==> be32(n)[0] * 0x100_0000 + be32(n)[1] * 0x1_0000 + be32(n)[2] * 0x100
            + be32(n)[3] == n,
{
}

/// A note is written on the drum channel: 0x99 as it goes on, 0x89 as it goes off, then
/// the note, then the velocity, which is nothing for a note that goes off.
pub proof fn notes_are_written_on_the_drum_channel(e: NoteEvent)
    requires
        e.note < 128,
        e.velocity < 128,
    ensures
        message(e).len() == 3,
        e.on ==> message(e)[0] == 0x99 && message(e)[2] == e.velocity,
        !e.on ==> message(e)[0] == 0x89 && message(e)[2] == 0,
        message(e)[1] == e.note,
{
}

/// The file is framed as a file of format 0 with one track of 480 ticks to the quarter: its
/// header, the track's head with the length of all that follows, the name `Drumlin`, and the
/// end of the track as the last three bytes.
pub proof fn the_file_is_framed(events: Seq<NoteEvent>, steps: int)
    requires
        track(events, steps).len() < 0x1_0000_0000,
    ensures
        ({
            let f = midi_file(events, steps);
            let n = f.len() as int;
            &&& n >= 36
            &&& f.take(14) == seq![
                0x4Du8,
                0x54,
                0x68,
                0x64,
                0,
                0,
                0,
                6,
                0,
                0,
                0,
                1,
                0x01,
                0xE0,
            ]
            &&& f.subrange(14, 18) == seq![0x4Du8, 0x54, 0x72, 0x6B]
            &&& f[18] * 0x100_0000 + f[19] * 0x1_0000 + f[20] * 0x100 + f[21] == n - 22
            &&& f.subrange(22, 33) == seq![
                0u8,
                0xFF,
                0x03,
                7,
                0x44,
                0x72,
                0x75,
                0x6D,
                0x6C,
                0x69,
                0x6E,
            ]
            &&& f[n - 3] == 0xFF && f[n - 2] == 0x2F && f[n - 1] == 0
        }),
{
    let t = track(events, steps);
    let f = midi_file(events, steps);
    numbers_stand_highest_first(t.len());
    let head = seq![0x4Du8, 0x54, 0x68, 0x64] + be32(6) + be16(0) + be16(1) + be16(PPQ as nat)
        + seq![0x4Du8, 0x54, 0x72, 0x6B];
    assert(head.len() == 18);
    assert(f =~= head + be32(t.len()) + t);
    assert(f.take(14) =~= head.take(14));
    assert(head.take(14) =~= seq![0x4Du8, 0x54, 0x68, 0x64, 0, 0, 0, 6, 0, 0, 0, 1, 0x01, 0xE0]);
    assert(f.subrange(14, 18) =~= seq![0x4Du8, 0x54, 0x72, 0x6B]);
    assert(f.subrange(22, 33) =~= track_name());
    assert(f.skip(22) =~= t);
    assert(f[18] == be32(t.len())[0] && f[19] == be32(t.len())[1]);
    assert(f[20] == be32(t.len())[2] && f[21] == be32(t.len())[3]);
    let m = t.len() as int;
    assert(t[m - 3] == 0xFF && t[m - 2] == 0x2F && t[m - 1] == 0);
    assert(f[f.len() - 3] == t[m - 3] && f[f.len() - 2] == t[m - 2] && f[f.len() - 1] == t[m - 1]);
}

/// The track is as long as the pattern, 120 ticks to a step, or as its last event where
/// that is later: the time before the end of the track makes up the difference.
pub proof fn the_track_is_as_long_as_the_pattern(events: Seq<NoteEvent>, steps: int) -> (wait: nat)
    ensures
        track(events, steps) == track_name() + track_body(events, 0) + vlq_bytes(wait) + seq![
            0xFFu8,
            0x2F,
            0x00,
        ],
        last_tick(events) + wait == if steps * 120 > last_tick(events) {
            steps * 120
        } else {
            last_tick(events)
        },
        events.len() == 0 ==> last_tick(events) == 0,
        events.len() > 0 ==> last_tick(events) == events[events.len() - 1].tick,
{
    if steps * 120 > last_tick(events) {
        (steps * 120 - last_tick(events)) as nat
    } else {
        0
    }
}

} // verus!

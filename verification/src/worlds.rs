//! The factory worlds: kits with a groove of their own.
//!
//! Lanes: 0 kick, 1 sub, 2 snare, 3 clap, 4 rim, 5 closed hat, 6 open hat,
//! 7 ride, 8 low tom, 9 high tom, 10 cowbell, 11 zap. Bus ids: 1 pump, 2 drive,
//! 3 reverb, 4 delay, 5 pump rate, 6 pump curve, 7 parallel, 8 punch, 9 gate
//! time.

use crate::ieee::{ieee, percent};
use crate::kits::{Groove, Kit, KitRow};
use crate::pattern::{Pattern, Step, Track, MAX_STEPS, MAX_TRACKS};
use vstd::prelude::*;

verus! {

/// Step `s` after a lane's steps and accents were marked.
pub open spec fn marked(blank: Step, s: int, marks: (Seq<usize>, Seq<usize>)) -> Step {
    if marks.1.contains(s as usize) {
        Step { on: true, accent: true, velocity: 122, ..blank }
    } else if marks.0.contains(s as usize) {
        Step { on: true, velocity: 102, ..blank }
    } else {
        blank
    }
}

/// Two lanes agree in everything but their steps and length; `a` has the given
/// length.
pub open spec fn lane_kept(a: Track, b: Track, length: u8) -> bool {
    &&& a.muted == b.muted
    &&& a.length == length
    &&& a.swing == b.swing
    &&& a.level == b.level
}

/// Everything of a pattern but its steps.
pub open spec fn frame_kept(a: Pattern, b: Pattern) -> bool {
    &&& a.well_formed()
    &&& a.length == b.length
    &&& a.swing == b.swing
    &&& a.humanize == b.humanize
    &&& a.groove_amount == b.groove_amount
    &&& a.seed == b.seed
    &&& forall|t: int|
        0 <= t < MAX_TRACKS ==> lane_kept(
            #[trigger] a.tracks@[t],
            b.tracks@[t],
            b.tracks@[t].length,
        )
}

/// Turn a step on, plainly or accented.
fn mark(step: &mut Step, accented: bool)
    ensures
        *final(step) == if accented {
            Step { on: true, accent: true, velocity: 122, ..*old(step) }
        } else {
            Step { on: true, velocity: 102, ..*old(step) }
        },
{
    step.on = true;
    if accented {
        step.accent = true;
        step.velocity = 122;
    } else {
        step.velocity = 102;
    }
}

/// Turn on the steps of lane `track`: plain ones, then accented ones.
pub fn hits(p: &mut Pattern, track: usize, steps: &Vec<usize>, accents: &Vec<usize>)
    requires
        old(p).well_formed(),
        track < MAX_TRACKS,
        forall|i: int| 0 <= i < steps@.len() ==> #[trigger] steps@[i] < MAX_STEPS,
        forall|i: int| 0 <= i < accents@.len() ==> #[trigger] accents@[i] < MAX_STEPS,
    ensures
        frame_kept(*final(p), *old(p)),
        forall|t: int, s: int|
            0 <= t < MAX_TRACKS && 0 <= s < MAX_STEPS ==> #[trigger] final(p).step(t, s) == if t
                == track {
                marked(old(p).step(t, s), s, (steps@, accents@))
            } else {
                old(p).step(t, s)
            },
{
    let ghost start = *p;
    let mut i: usize = 0;
    while i < steps.len()
        invariant
            i <= steps@.len(),
            track < MAX_TRACKS,
            start.well_formed(),
            frame_kept(*p, start),
            forall|j: int| 0 <= j < steps@.len() ==> #[trigger] steps@[j] < MAX_STEPS,
            forall|t: int, s: int|
                0 <= t < MAX_TRACKS && 0 <= s < MAX_STEPS ==> #[trigger] p.step(t, s) == if t
                    == track {
                    marked(start.step(t, s), s, (steps@.take(i as int), Seq::empty()))
                } else {
                    start.step(t, s)
                },
        decreases steps@.len() - i,
    {
        let ghost before = *p;
        let k: usize = steps[i];
        mark(&mut p.tracks[track].steps[k], false);
        proof {
            let done = steps@.take(i as int);
            let more = steps@.take(i + 1);
            assert(more =~= done.push(k));
            assert forall|t: int, s: int|
                0 <= t < MAX_TRACKS && 0 <= s < MAX_STEPS implies #[trigger] p.step(t, s) == if t
                == track {
                marked(start.step(t, s), s, (more, Seq::empty()))
            } else {
                start.step(t, s)
            } by {
                let step = before.step(t, s);
                lemma_contains_push(done, k, s as usize);
                if t != track {
                    assert(p.tracks@[t] == before.tracks@[t]);
                    assert(p.step(t, s) == step);
                } else if s != k {
                    assert(p.step(t, s) == step);
                } else {
                    assert(p.step(t, s).on && p.step(t, s).micro == step.micro);
                }
            }
        }
        i = i + 1;
    }
    assert(steps@.take(i as int) =~= steps@);
    let ghost middle = *p;
    let mut j: usize = 0;
    while j < accents.len()
        invariant
            j <= accents@.len(),
            track < MAX_TRACKS,
            start.well_formed(),
            frame_kept(*p, start),
            forall|j: int| 0 <= j < accents@.len() ==> #[trigger] accents@[j] < MAX_STEPS,
            forall|t: int, s: int|
                0 <= t < MAX_TRACKS && 0 <= s < MAX_STEPS ==> #[trigger] p.step(t, s) == if t
                    == track {
                    marked(start.step(t, s), s, (steps@, accents@.take(j as int)))
                } else {
                    start.step(t, s)
                },
        decreases accents@.len() - j,
    {
        let ghost before = *p;
        let k: usize = accents[j];
        mark(&mut p.tracks[track].steps[k], true);
        proof {
            let done = accents@.take(j as int);
            let more = accents@.take(j + 1);
            assert(more =~= done.push(k));
            assert forall|t: int, s: int|
                0 <= t < MAX_TRACKS && 0 <= s < MAX_STEPS implies #[trigger] p.step(t, s) == if t
                == track {
                marked(start.step(t, s), s, (steps@, more))
            } else {
                start.step(t, s)
            } by {
                let step = before.step(t, s);
                lemma_contains_push(done, k, s as usize);
                if t != track {
                    assert(p.tracks@[t] == before.tracks@[t]);
                    assert(p.step(t, s) == step);
                } else if s != k {
                    assert(p.step(t, s) == step);
                } else {
                    assert(p.step(t, s).on && p.step(t, s).micro == step.micro);
                }
            }
        }
        j = j + 1;
    }
    assert(accents@.take(j as int) =~= accents@);
}

proof fn lemma_contains_push(s: Seq<usize>, k: usize, x: usize)
    ensures
        s.push(k).contains(x) == (s.contains(x) || x == k),
{
    if x == k {
        assert(s.push(k)[s.len() as int] == x);
    }
    if s.contains(x) {
        let i = choose|i: int| 0 <= i < s.len() && s[i] == x;
        assert(s.push(k)[i] == x);
    }
}

/// The steps and the accented steps of lane `t` in Discotheque's groove.
pub open spec fn discotheque_hits(t: int) -> (Seq<usize>, Seq<usize>) {
    if t == 0 {
        (seq![0usize, 4, 8, 12], seq![0usize])
    } else if t == 3 {
        (seq![4usize, 12], Seq::empty())
    } else if t == 5 {
        (seq![2usize, 6, 10, 14], Seq::empty())
    } else if t == 6 {
        (seq![2usize, 6, 10, 14], Seq::empty())
    } else if t == 10 {
        (seq![7usize], Seq::empty())
    } else {
        (Seq::empty(), Seq::empty())
    }
}

/// Discotheque's groove on the pattern `blank`.
pub open spec fn is_discotheque_groove(r: Pattern, blank: Pattern) -> bool {
    &&& r.well_formed()
    &&& r.length == blank.length
    &&& r.swing == 60
    &&& r.humanize == blank.humanize
    &&& r.groove_amount == 35
    &&& r.seed == 0xD15C_0001

    &&& forall|t: int, s: int|
        0 <= t < MAX_TRACKS && 0 <= s < MAX_STEPS ==> #[trigger] r.step(t, s) == marked(
            blank.step(t, s),
            s,
            discotheque_hits(t),
        )
    &&& forall|t: int|
        0 <= t < MAX_TRACKS ==> lane_kept(#[trigger] r.tracks@[t], blank.tracks@[t], blank.tracks@[t].length)
}

/// Discotheque's groove: a straight kick, a clap backbeat, hats on the off-eighths, a cowbell wink.
fn discotheque_groove(blank: Pattern) -> (r: Pattern)
    requires
        blank.well_formed(),
    ensures
        is_discotheque_groove(r, blank),
{
    let mut p = blank;
    let steps: Vec<usize> = vec![0, 4, 8, 12];
    let accents: Vec<usize> = vec![0];
    assert(steps@ =~= discotheque_hits(0).0 && accents@ =~= discotheque_hits(0).1);
    assert((steps@, accents@) == discotheque_hits(0));
    hits(&mut p, 0, &steps, &accents);
    let steps: Vec<usize> = vec![4, 12];
    let accents: Vec<usize> = Vec::new();
    assert(steps@ =~= discotheque_hits(3).0 && accents@ =~= discotheque_hits(3).1);
    assert((steps@, accents@) == discotheque_hits(3));
    hits(&mut p, 3, &steps, &accents);
    let steps: Vec<usize> = vec![2, 6, 10, 14];
    let accents: Vec<usize> = Vec::new();
    assert(steps@ =~= discotheque_hits(5).0 && accents@ =~= discotheque_hits(5).1);
    assert((steps@, accents@) == discotheque_hits(5));
    hits(&mut p, 5, &steps, &accents);
    let steps: Vec<usize> = vec![2, 6, 10, 14];
    let accents: Vec<usize> = Vec::new();
    assert(steps@ =~= discotheque_hits(6).0 && accents@ =~= discotheque_hits(6).1);
    assert((steps@, accents@) == discotheque_hits(6));
    hits(&mut p, 6, &steps, &accents);
    let steps: Vec<usize> = vec![7];
    let accents: Vec<usize> = Vec::new();
    assert(steps@ =~= discotheque_hits(10).0 && accents@ =~= discotheque_hits(10).1);
    assert((steps@, accents@) == discotheque_hits(10));
    hits(&mut p, 10, &steps, &accents);
    let ghost filled = p;
    p.swing = 60;
    p.groove_amount = 35;
    p.seed = 0xD15C_0001;
    proof {
        assert forall|t: int, s: int| 0 <= t < MAX_TRACKS && 0 <= s < MAX_STEPS implies #[trigger] p.step(
            t,
            s,
        ) == marked(blank.step(t, s), s, discotheque_hits(t)) by {
            assert(p.step(t, s) == filled.step(t, s));
        }
    }
    p
}

/// The rows of Discotheque.
pub open spec fn discotheque_rows() -> Seq<KitRow> {
    seq![
        KitRow::Bus { id: 1, norm: percent(75) },
        KitRow::Bus { id: 5, norm: percent(50) },
        KitRow::Bus { id: 7, norm: percent(55) },
        KitRow::Bus { id: 2, norm: percent(20) },
        KitRow::Bus { id: 3, norm: percent(12) },
        KitRow::Sidechain { on: false },
        KitRow::ModSlot { slot: 0, src: 13, dst: 3, depth: percent(60), voice: 255 },
        KitRow::ModSlot { slot: 1, src: 2, dst: 3, depth: percent(25), voice: 5 },
    ]
}

/// The macro labels of Discotheque.
pub const DISCOTHEQUE_LABELS: [&'static str; 8] = [
    "Filter",
    "Pump",
    "Swing",
    "Glue",
    "Decay",
    "Space",
    "Width",
    "Crush",
];

/// The world Discotheque.
pub open spec fn is_discotheque(k: Kit) -> bool {
    &&& k.id@ == "discotheque"@
    &&& k.name@ == "Discothèque"@
    &&& k.blurb@ == "Daft Punk · French house"@
    &&& k.rows@ == discotheque_rows()
    &&& k.macro_labels == DISCOTHEQUE_LABELS
    &&& k.pattern == Some(Groove::Discotheque)
}

/// Discotheque: four on the floor, swung filtered hats, pumped and glued.
pub fn discotheque() -> (k: Kit)
    ensures
        is_discotheque(k),
{
    let rows: Vec<KitRow> = vec![
        KitRow::Bus { id: 1, norm: percent(75) },
        KitRow::Bus { id: 5, norm: percent(50) },
        KitRow::Bus { id: 7, norm: percent(55) },
        KitRow::Bus { id: 2, norm: percent(20) },
        KitRow::Bus { id: 3, norm: percent(12) },
        KitRow::Sidechain { on: false },
        KitRow::ModSlot { slot: 0, src: 13, dst: 3, depth: percent(60), voice: 255 },
        KitRow::ModSlot { slot: 1, src: 2, dst: 3, depth: percent(25), voice: 5 },
    ];
    assert(rows@ =~= discotheque_rows());
    Kit {
        id: "discotheque",
        name: "Discothèque",
        blurb: "Daft Punk · French house",
        rows,
        macro_labels: DISCOTHEQUE_LABELS,
        pattern: Some(Groove::Discotheque),
    }
}

/// The steps and the accented steps of lane `t` in Marseille's groove.
pub open spec fn marseille_hits(t: int) -> (Seq<usize>, Seq<usize>) {
    if t == 0 {
        (seq![0usize, 6, 10], seq![0usize])
    } else if t == 2 {
        (seq![8usize], seq![8usize])
    } else if t == 4 {
        (seq![2usize, 7, 11, 14], Seq::empty())
    } else if t == 5 {
        (seq![0usize, 4, 8, 12], Seq::empty())
    } else {
        (Seq::empty(), Seq::empty())
    }
}

/// Marseille's groove on the pattern `blank`.
pub open spec fn is_marseille_groove(r: Pattern, blank: Pattern) -> bool {
    &&& r.well_formed()
    &&& r.length == blank.length
    &&& r.swing == 56
    &&& r.humanize == 32
    &&& r.groove_amount == blank.groove_amount
    &&& r.seed == 0x3A55_0002

    &&& forall|t: int, s: int|
        0 <= t < MAX_TRACKS && 0 <= s < MAX_STEPS ==> #[trigger] r.step(t, s) == marked(
            blank.step(t, s),
            s,
            marseille_hits(t),
        )
    &&& forall|t: int|
        0 <= t < MAX_TRACKS ==> lane_kept(#[trigger] r.tracks@[t], blank.tracks@[t], blank.tracks@[t].length)
}

/// Marseille's groove: a syncopated kick, one snare on the third beat, rim ticks, steady hats.
fn marseille_groove(blank: Pattern) -> (r: Pattern)
    requires
        blank.well_formed(),
    ensures
        is_marseille_groove(r, blank),
{
    let mut p = blank;
    let steps: Vec<usize> = vec![0, 6, 10];
    let accents: Vec<usize> = vec![0];
    assert(steps@ =~= marseille_hits(0).0 && accents@ =~= marseille_hits(0).1);
    assert((steps@, accents@) == marseille_hits(0));
    hits(&mut p, 0, &steps, &accents);
    let steps: Vec<usize> = vec![8];
    let accents: Vec<usize> = vec![8];
    assert(steps@ =~= marseille_hits(2).0 && accents@ =~= marseille_hits(2).1);
    assert((steps@, accents@) == marseille_hits(2));
    hits(&mut p, 2, &steps, &accents);
    let steps: Vec<usize> = vec![2, 7, 11, 14];
    let accents: Vec<usize> = Vec::new();
    assert(steps@ =~= marseille_hits(4).0 && accents@ =~= marseille_hits(4).1);
    assert((steps@, accents@) == marseille_hits(4));
    hits(&mut p, 4, &steps, &accents);
    let steps: Vec<usize> = vec![0, 4, 8, 12];
    let accents: Vec<usize> = Vec::new();
    assert(steps@ =~= marseille_hits(5).0 && accents@ =~= marseille_hits(5).1);
    assert((steps@, accents@) == marseille_hits(5));
    hits(&mut p, 5, &steps, &accents);
    let ghost filled = p;
    p.swing = 56;
    p.humanize = 32;
    p.seed = 0x3A55_0002;
    proof {
        assert forall|t: int, s: int| 0 <= t < MAX_TRACKS && 0 <= s < MAX_STEPS implies #[trigger] p.step(
            t,
            s,
        ) == marked(blank.step(t, s), s, marseille_hits(t)) by {
            assert(p.step(t, s) == filled.step(t, s));
        }
    }
    p
}

/// The rows of Marseille.
pub open spec fn marseille_rows() -> Seq<KitRow> {
    seq![
        KitRow::Bus { id: 4, norm: percent(42) },
        KitRow::Bus { id: 3, norm: percent(26) },
        KitRow::Bus { id: 1, norm: percent(32) },
        KitRow::Bus { id: 2, norm: percent(12) },
        KitRow::Mix { track: 4, field: 1, norm: percent(60) },
        KitRow::Mix { track: 2, field: 0, norm: percent(30) },
        KitRow::Voice { track: 0, param: 2, norm: percent(45) },
        KitRow::ModSlot { slot: 0, src: 13, dst: 3, depth: percent(40), voice: 4 },
        KitRow::Sidechain { on: false },
    ]
}

/// The macro labels of Marseille.
pub const MARSEILLE_LABELS: [&'static str; 8] = [
    "Tape",
    "Humanize",
    "Density",
    "Room",
    "Decay",
    "Drive",
    "Width",
    "Lo-Fi",
];

/// The world Marseille.
pub open spec fn is_marseille(k: Kit) -> bool {
    &&& k.id@ == "marseille"@
    &&& k.name@ == "Marseille"@
    &&& k.blurb@ == "French 79 · 808 half-time"@
    &&& k.rows@ == marseille_rows()
    &&& k.macro_labels == MARSEILLE_LABELS
    &&& k.pattern == Some(Groove::Marseille)
}

/// Marseille: half-time with a delayed rim and a human hand.
pub fn marseille() -> (k: Kit)
    ensures
        is_marseille(k),
{
    let rows: Vec<KitRow> = vec![
        KitRow::Bus { id: 4, norm: percent(42) },
        KitRow::Bus { id: 3, norm: percent(26) },
        KitRow::Bus { id: 1, norm: percent(32) },
        KitRow::Bus { id: 2, norm: percent(12) },
        KitRow::Mix { track: 4, field: 1, norm: percent(60) },
        KitRow::Mix { track: 2, field: 0, norm: percent(30) },
        KitRow::Voice { track: 0, param: 2, norm: percent(45) },
        KitRow::ModSlot { slot: 0, src: 13, dst: 3, depth: percent(40), voice: 4 },
        KitRow::Sidechain { on: false },
    ];
    assert(rows@ =~= marseille_rows());
    Kit {
        id: "marseille",
        name: "Marseille",
        blurb: "French 79 · 808 half-time",
        rows,
        macro_labels: MARSEILLE_LABELS,
        pattern: Some(Groove::Marseille),
    }
}

/// The steps and the accented steps of lane `t` in Bladerunner's groove.
pub open spec fn bladerunner_hits(t: int) -> (Seq<usize>, Seq<usize>) {
    if t == 0 {
        (seq![0usize, 11], seq![0usize])
    } else if t == 8 {
        (seq![4usize, 14], Seq::empty())
    } else if t == 9 {
        (seq![7usize], seq![7usize])
    } else if t == 7 {
        (seq![0usize, 8], Seq::empty())
    } else {
        (Seq::empty(), Seq::empty())
    }
}

/// Bladerunner's groove on the pattern `blank`.
pub open spec fn is_bladerunner_groove(r: Pattern, blank: Pattern) -> bool {
    &&& r.well_formed()
    &&& r.length == 16
    &&& r.swing == 52
    &&& r.humanize == blank.humanize
    &&& r.groove_amount == 20
    &&& r.seed == 0xB1AD_0003

    &&& forall|t: int, s: int|
        0 <= t < MAX_TRACKS && 0 <= s < MAX_STEPS ==> #[trigger] r.step(t, s) == marked(
            blank.step(t, s),
            s,
            bladerunner_hits(t),
        )
    &&& forall|t: int|
        0 <= t < MAX_TRACKS ==> lane_kept(#[trigger] r.tracks@[t], blank.tracks@[t], blank.tracks@[t].length)
}

/// Bladerunner's groove: a sparse kick, low and high toms in answer, a ride pulse.
fn bladerunner_groove(blank: Pattern) -> (r: Pattern)
    requires
        blank.well_formed(),
    ensures
        is_bladerunner_groove(r, blank),
{
    let mut p = blank;
    let steps: Vec<usize> = vec![0, 11];
    let accents: Vec<usize> = vec![0];
    assert(steps@ =~= bladerunner_hits(0).0 && accents@ =~= bladerunner_hits(0).1);
    assert((steps@, accents@) == bladerunner_hits(0));
    hits(&mut p, 0, &steps, &accents);
    let steps: Vec<usize> = vec![4, 14];
    let accents: Vec<usize> = Vec::new();
    assert(steps@ =~= bladerunner_hits(8).0 && accents@ =~= bladerunner_hits(8).1);
    assert((steps@, accents@) == bladerunner_hits(8));
    hits(&mut p, 8, &steps, &accents);
    let steps: Vec<usize> = vec![7];
    let accents: Vec<usize> = vec![7];
    assert(steps@ =~= bladerunner_hits(9).0 && accents@ =~= bladerunner_hits(9).1);
    assert((steps@, accents@) == bladerunner_hits(9));
    hits(&mut p, 9, &steps, &accents);
    let steps: Vec<usize> = vec![0, 8];
    let accents: Vec<usize> = Vec::new();
    assert(steps@ =~= bladerunner_hits(7).0 && accents@ =~= bladerunner_hits(7).1);
    assert((steps@, accents@) == bladerunner_hits(7));
    hits(&mut p, 7, &steps, &accents);
    let ghost filled = p;
    p.length = 16;
    p.swing = 52;
    p.groove_amount = 20;
    p.seed = 0xB1AD_0003;
    proof {
        assert forall|t: int, s: int| 0 <= t < MAX_TRACKS && 0 <= s < MAX_STEPS implies #[trigger] p.step(
            t,
            s,
        ) == marked(blank.step(t, s), s, bladerunner_hits(t)) by {
            assert(p.step(t, s) == filled.step(t, s));
        }
    }
    p
}

/// The rows of Bladerunner.
pub open spec fn bladerunner_rows() -> Seq<KitRow> {
    seq![
        KitRow::Bus { id: 3, norm: percent(62) },
        KitRow::Bus { id: 4, norm: percent(22) },
        KitRow::Bus { id: 9, norm: percent(60) },
        KitRow::Mix { track: 8, field: 0, norm: percent(60) },
        KitRow::Mix { track: 9, field: 0, norm: percent(60) },
        KitRow::Lfo { idx: 0, shape: 0, rate: percent(40), depth: percent(100), retrig: false },
        KitRow::ModSlot { slot: 0, src: 3, dst: 3, depth: percent(45), voice: 255 },
        KitRow::ModSlot { slot: 1, src: 15, dst: 3, depth: percent(40), voice: 255 },
        KitRow::ModEnv { attack: percent(40), decay: ieee(0x4000_0000) },
        KitRow::ModSlot { slot: 2, src: 5, dst: 3, depth: percent(30), voice: 255 },
    ]
}

/// The macro labels of Bladerunner.
pub const BLADERUNNER_LABELS: [&'static str; 8] = [
    "Space",
    "Decay",
    "Evolve",
    "Drive",
    "Filter",
    "Width",
    "Pump",
    "Lo-Fi",
];

/// The world Bladerunner.
pub open spec fn is_bladerunner(k: Kit) -> bool {
    &&& k.id@ == "bladerunner"@
    &&& k.name@ == "Bladerunner"@
    &&& k.blurb@ == "Vangelis · cavernous toms"@
    &&& k.rows@ == bladerunner_rows()
    &&& k.macro_labels == BLADERUNNER_LABELS
    &&& k.pattern == Some(Groove::Bladerunner)
}

/// Bladerunner: slow, sparse toms in a cavern.
pub fn bladerunner() -> (k: Kit)
    ensures
        is_bladerunner(k),
{
    let rows: Vec<KitRow> = vec![
        KitRow::Bus { id: 3, norm: percent(62) },
        KitRow::Bus { id: 4, norm: percent(22) },
        KitRow::Bus { id: 9, norm: percent(60) },
        KitRow::Mix { track: 8, field: 0, norm: percent(60) },
        KitRow::Mix { track: 9, field: 0, norm: percent(60) },
        KitRow::Lfo { idx: 0, shape: 0, rate: percent(40), depth: percent(100), retrig: false },
        KitRow::ModSlot { slot: 0, src: 3, dst: 3, depth: percent(45), voice: 255 },
        KitRow::ModSlot { slot: 1, src: 15, dst: 3, depth: percent(40), voice: 255 },
        KitRow::ModEnv { attack: percent(40), decay: ieee(0x4000_0000) },
        KitRow::ModSlot { slot: 2, src: 5, dst: 3, depth: percent(30), voice: 255 },
    ];
    assert(rows@ =~= bladerunner_rows());
    Kit {
        id: "bladerunner",
        name: "Bladerunner",
        blurb: "Vangelis · cavernous toms",
        rows,
        macro_labels: BLADERUNNER_LABELS,
        pattern: Some(Groove::Bladerunner),
    }
}

/// The steps and the accented steps of lane `t` in Outrun's groove.
pub open spec fn outrun_hits(t: int) -> (Seq<usize>, Seq<usize>) {
    if t == 0 {
        (seq![0usize, 4, 8, 12], seq![0usize])
    } else if t == 2 {
        (seq![4usize, 12], seq![4usize, 12])
    } else if t == 5 {
        (seq![0usize, 2, 4, 6, 8, 10], Seq::empty())
    } else if t == 11 {
        (seq![6usize, 14], Seq::empty())
    } else {
        (Seq::empty(), Seq::empty())
    }
}

/// Outrun's groove on the pattern `blank`.
pub open spec fn is_outrun_groove(r: Pattern, blank: Pattern) -> bool {
    &&& r.well_formed()
    &&& r.length == blank.length
    &&& r.swing == 50
    &&& r.humanize == blank.humanize
    &&& r.groove_amount == blank.groove_amount
    &&& r.seed == 0x0427_0004

    &&& forall|t: int, s: int|
        0 <= t < MAX_TRACKS && 0 <= s < MAX_STEPS ==> #[trigger] r.step(t, s) == marked(
            blank.step(t, s),
            s,
            outrun_hits(t),
        )
    &&& forall|t: int|
        0 <= t < MAX_TRACKS ==> lane_kept(#[trigger] r.tracks@[t], blank.tracks@[t], if t == 5 {
            12
        } else {
            blank.tracks@[t].length
        })
}

/// Outrun's groove: a driving kick, the snare on both backbeats, hats on a lane of twelve steps, zap stabs.
fn outrun_groove(blank: Pattern) -> (r: Pattern)
    requires
        blank.well_formed(),
    ensures
        is_outrun_groove(r, blank),
{
    let mut p = blank;
    let steps: Vec<usize> = vec![0, 4, 8, 12];
    let accents: Vec<usize> = vec![0];
    assert(steps@ =~= outrun_hits(0).0 && accents@ =~= outrun_hits(0).1);
    assert((steps@, accents@) == outrun_hits(0));
    hits(&mut p, 0, &steps, &accents);
    let steps: Vec<usize> = vec![4, 12];
    let accents: Vec<usize> = vec![4, 12];
    assert(steps@ =~= outrun_hits(2).0 && accents@ =~= outrun_hits(2).1);
    assert((steps@, accents@) == outrun_hits(2));
    hits(&mut p, 2, &steps, &accents);
    let steps: Vec<usize> = vec![0, 2, 4, 6, 8, 10];
    let accents: Vec<usize> = Vec::new();
    assert(steps@ =~= outrun_hits(5).0 && accents@ =~= outrun_hits(5).1);
    assert((steps@, accents@) == outrun_hits(5));
    hits(&mut p, 5, &steps, &accents);
    let steps: Vec<usize> = vec![6, 14];
    let accents: Vec<usize> = Vec::new();
    assert(steps@ =~= outrun_hits(11).0 && accents@ =~= outrun_hits(11).1);
    assert((steps@, accents@) == outrun_hits(11));
    hits(&mut p, 11, &steps, &accents);
    let ghost filled = p;
    p.tracks[5].length = 12;
    p.swing = 50;
    p.seed = 0x0427_0004;
    proof {
        assert forall|t: int, s: int| 0 <= t < MAX_TRACKS && 0 <= s < MAX_STEPS implies #[trigger] p.step(
            t,
            s,
        ) == marked(blank.step(t, s), s, outrun_hits(t)) by {
            assert(p.step(t, s) == filled.step(t, s));
        }
    }
    p
}

/// The rows of Outrun.
pub open spec fn outrun_rows() -> Seq<KitRow> {
    seq![
        KitRow::Bus { id: 3, norm: percent(45) },
        KitRow::Bus { id: 9, norm: percent(30) },
        KitRow::Bus { id: 8, norm: percent(40) },
        KitRow::Bus { id: 2, norm: percent(28) },
        KitRow::Mix { track: 2, field: 4, norm: percent(100) },
        KitRow::Mix { track: 2, field: 0, norm: percent(60) },
        KitRow::Mix { track: 2, field: 9, norm: percent(35) },
        KitRow::ModSlot { slot: 0, src: 14, dst: 1, depth: percent(30), voice: 11 },
    ]
}

/// The macro labels of Outrun.
pub const OUTRUN_LABELS: [&'static str; 8] = [
    "Bright",
    "Detune",
    "Poly",
    "Snap",
    "Decay",
    "Space",
    "Drive",
    "Width",
];

/// The world Outrun.
pub open spec fn is_outrun(k: Kit) -> bool {
    &&& k.id@ == "outrun"@
    &&& k.name@ == "Outrun"@
    &&& k.blurb@ == "80s gated · synthwave"@
    &&& k.rows@ == outrun_rows()
    &&& k.macro_labels == OUTRUN_LABELS
    &&& k.pattern == Some(Groove::Outrun)
}

/// Outrun: a gated snare and synthetic percussion.
pub fn outrun() -> (k: Kit)
    ensures
        is_outrun(k),
{
    let rows: Vec<KitRow> = vec![
        KitRow::Bus { id: 3, norm: percent(45) },
        KitRow::Bus { id: 9, norm: percent(30) },
        KitRow::Bus { id: 8, norm: percent(40) },
        KitRow::Bus { id: 2, norm: percent(28) },
        KitRow::Mix { track: 2, field: 4, norm: percent(100) },
        KitRow::Mix { track: 2, field: 0, norm: percent(60) },
        KitRow::Mix { track: 2, field: 9, norm: percent(35) },
        KitRow::ModSlot { slot: 0, src: 14, dst: 1, depth: percent(30), voice: 11 },
    ];
    assert(rows@ =~= outrun_rows());
    Kit {
        id: "outrun",
        name: "Outrun",
        blurb: "80s gated · synthwave",
        rows,
        macro_labels: OUTRUN_LABELS,
        pattern: Some(Groove::Outrun),
    }
}

/// `r` is the given groove on the pattern `blank`.
pub open spec fn is_groove(groove: Groove, r: Pattern, blank: Pattern) -> bool {
    match groove {
        Groove::Discotheque => is_discotheque_groove(r, blank),
        Groove::Marseille => is_marseille_groove(r, blank),
        Groove::Bladerunner => is_bladerunner_groove(r, blank),
        Groove::Outrun => is_outrun_groove(r, blank),
    }
}

/// Write a world's groove onto a blank pattern.
pub fn build_groove(groove: Groove, blank: Pattern) -> (r: Pattern)
    requires
        blank.well_formed(),
    ensures
        is_groove(groove, r, blank),
{
    match groove {
        Groove::Discotheque => discotheque_groove(blank),
        Groove::Marseille => marseille_groove(blank),
        Groove::Bladerunner => bladerunner_groove(blank),
        Groove::Outrun => outrun_groove(blank),
    }
}

/// Every world has a groove that sounds: its kick is on the downbeat, accented.
pub proof fn every_groove_sounds(groove: Groove, r: Pattern, blank: Pattern)
    requires
        is_groove(groove, r, blank),
    ensures
        r.step(0, 0).on && r.step(0, 0).accent && r.step(0, 0).velocity == 122,
{
    assert(discotheque_hits(0).1[0] == 0);
    assert(marseille_hits(0).1[0] == 0);
    assert(bladerunner_hits(0).1[0] == 0);
    assert(outrun_hits(0).1[0] == 0);
    assert(r.step(0, 0) == r.step(0, 0));
}

/// No step of a pattern is on or accented.
pub open spec fn is_silent(p: Pattern) -> bool {
    forall|t: int, s: int|
        0 <= t < MAX_TRACKS && 0 <= s < MAX_STEPS ==> !(#[trigger] p.step(t, s)).on && !p.step(
            t,
            s,
        ).accent
}

/// A groove marks hits and touches nothing else: a step is left as it was, or it is
/// on at 102, or it is on and accented at 122. What follows the first sixteen steps is
/// left alone.
pub proof fn a_groove_only_marks_hits(groove: Groove, r: Pattern, blank: Pattern, t: int, s: int)
    requires
        is_groove(groove, r, blank),
        0 <= t < MAX_TRACKS,
        0 <= s < MAX_STEPS,
    ensures
        r.step(t, s) == blank.step(t, s) || r.step(t, s) == (Step {
            on: true,
            velocity: 102,
            ..blank.step(t, s)
        }) || r.step(t, s) == (Step { on: true, accent: true, velocity: 122, ..blank.step(t, s) }),
        s >= 16 ==> r.step(t, s) == blank.step(t, s),
        r.tracks@[t].muted == blank.tracks@[t].muted,
        r.tracks@[t].swing == blank.tracks@[t].swing,
        r.tracks@[t].level == blank.tracks@[t].level,
        !(groove == Groove::Outrun && t == 5) ==> r.tracks@[t].length == blank.tracks@[t].length,
{
    let step = r.step(t, s);
    let lane = r.tracks@[t];
    let d = discotheque_hits(t);
    let m = marseille_hits(t);
    let b = bladerunner_hits(t);
    let o = outrun_hits(t);
    assert(s >= 16 ==> !d.0.contains(s as usize) && !d.1.contains(s as usize));
    assert(s >= 16 ==> !m.0.contains(s as usize) && !m.1.contains(s as usize));
    assert(s >= 16 ==> !b.0.contains(s as usize) && !b.1.contains(s as usize));
    assert(s >= 16 ==> !o.0.contains(s as usize) && !o.1.contains(s as usize));
}

/// Discotheque is four on the floor: the kick on every beat, the clap on the second
/// and fourth, both hats between the beats, one cowbell, the downbeat alone accented.
pub proof fn discotheque_is_four_on_the_floor(r: Pattern, blank: Pattern, s: int)
    requires
        is_groove(Groove::Discotheque, r, blank),
        is_silent(blank),
        0 <= s < 16,
    ensures
        r.step(0, s).on <==> s % 4 == 0,
        r.step(3, s).on <==> s % 8 == 4,
        r.step(5, s).on <==> s % 4 == 2,
        r.step(6, s).on <==> s % 4 == 2,
        r.step(10, s).on <==> s == 7,
        forall|t: int|
            0 <= t < MAX_TRACKS && t != 0 && t != 3 && t != 5 && t != 6 && t != 10
                ==> !(#[trigger] r.step(t, s)).on,
        forall|t: int|
            0 <= t < MAX_TRACKS ==> ((#[trigger] r.step(t, s)).accent <==> t == 0 && s == 0),
        forall|t: int|
            0 <= t < MAX_TRACKS && (#[trigger] r.step(t, s)).on ==> r.step(t, s).velocity == if r.step(
                t,
                s,
            ).accent {
                122u8
            } else {
                102u8
            },
        r.swing == 60,
        r.groove_amount == 35,
        r.humanize == blank.humanize,
        r.length == blank.length,
        r.seed == 0xD15C_0001,
{
    assert(discotheque_hits(0).0[0] == 0 && discotheque_hits(0).0[1] == 4
        && discotheque_hits(0).0[2] == 8 && discotheque_hits(0).0[3] == 12);
    assert(discotheque_hits(0).1[0] == 0);
    assert(discotheque_hits(3).0[0] == 4 && discotheque_hits(3).0[1] == 12);
    assert(discotheque_hits(5).0[0] == 2 && discotheque_hits(5).0[1] == 6
        && discotheque_hits(5).0[2] == 10 && discotheque_hits(5).0[3] == 14);
    assert(discotheque_hits(6).0[0] == 2 && discotheque_hits(6).0[1] == 6
        && discotheque_hits(6).0[2] == 10 && discotheque_hits(6).0[3] == 14);
    assert(discotheque_hits(10).0[0] == 7);
    assert forall|t: int| 0 <= t < MAX_TRACKS implies (#[trigger] r.step(t, s)) == marked(
        blank.step(t, s),
        s,
        discotheque_hits(t),
    ) && !blank.step(t, s).on && !blank.step(t, s).accent by {
    }
    let lane_0 = r.step(0, s);
    let lane_3 = r.step(3, s);
    let lane_5 = r.step(5, s);
    let lane_6 = r.step(6, s);
    let lane_10 = r.step(10, s);
}

/// Marseille is half-time: one accented snare, on the third beat, under a kick off the
/// beat, rim ticks, and a hat on every beat, played by a human hand.
pub proof fn marseille_is_half_time(r: Pattern, blank: Pattern, s: int)
    requires
        is_groove(Groove::Marseille, r, blank),
        is_silent(blank),
        0 <= s < 16,
    ensures
        r.step(0, s).on <==> s == 0 || s == 6 || s == 10,
        r.step(2, s).on <==> s == 8,
        r.step(4, s).on <==> s == 2 || s == 7 || s == 11 || s == 14,
        r.step(5, s).on <==> s % 4 == 0,
        forall|t: int|
            0 <= t < MAX_TRACKS && t != 0 && t != 2 && t != 4 && t != 5 ==> !(#[trigger] r.step(t, s)).on,
        forall|t: int|
            0 <= t < MAX_TRACKS ==> ((#[trigger] r.step(t, s)).accent <==> (t == 0 && s == 0)
                || (t == 2 && s == 8)),
        forall|t: int|
            0 <= t < MAX_TRACKS && (#[trigger] r.step(t, s)).on ==> r.step(t, s).velocity == if r.step(
                t,
                s,
            ).accent {
                122u8
            } else {
                102u8
            },
        r.swing == 56,
        r.humanize == 32,
        r.groove_amount == blank.groove_amount,
        r.length == blank.length,
        r.seed == 0x3A55_0002,
{
    assert(marseille_hits(0).0[0] == 0 && marseille_hits(0).0[1] == 6 && marseille_hits(0).0[2] == 10);
    assert(marseille_hits(0).1[0] == 0);
    assert(marseille_hits(2).0[0] == 8);
    assert(marseille_hits(2).1[0] == 8);
    assert(marseille_hits(4).0[0] == 2 && marseille_hits(4).0[1] == 7
        && marseille_hits(4).0[2] == 11 && marseille_hits(4).0[3] == 14);
    assert(marseille_hits(5).0[0] == 0 && marseille_hits(5).0[1] == 4 && marseille_hits(5).0[2] == 8
        && marseille_hits(5).0[3] == 12);
    assert forall|t: int| 0 <= t < MAX_TRACKS implies (#[trigger] r.step(t, s)) == marked(
        blank.step(t, s),
        s,
        marseille_hits(t),
    ) && !blank.step(t, s).on && !blank.step(t, s).accent by {
    }
    let lane_0 = r.step(0, s);
    let lane_2 = r.step(2, s);
    let lane_4 = r.step(4, s);
    let lane_5 = r.step(5, s);
}

/// Bladerunner is sparse: two kicks, two low toms and the accented high tom that answers
/// them, over a ride on each half of the bar.
pub proof fn bladerunner_is_sparse(r: Pattern, blank: Pattern, s: int)
    requires
        is_groove(Groove::Bladerunner, r, blank),
        is_silent(blank),
        0 <= s < 16,
    ensures
        r.step(0, s).on <==> s == 0 || s == 11,
        r.step(8, s).on <==> s == 4 || s == 14,
        r.step(9, s).on <==> s == 7,
        r.step(7, s).on <==> s % 8 == 0,
        forall|t: int|
            0 <= t < MAX_TRACKS && t != 0 && t != 8 && t != 9 && t != 7 ==> !(#[trigger] r.step(t, s)).on,
        forall|t: int|
            0 <= t < MAX_TRACKS ==> ((#[trigger] r.step(t, s)).accent <==> (t == 0 && s == 0)
                || (t == 9 && s == 7)),
        forall|t: int|
            0 <= t < MAX_TRACKS && (#[trigger] r.step(t, s)).on ==> r.step(t, s).velocity == if r.step(
                t,
                s,
            ).accent {
                122u8
            } else {
                102u8
            },
        r.swing == 52,
        r.length == 16,
        r.groove_amount == 20,
        r.humanize == blank.humanize,
        r.seed == 0xB1AD_0003,
{
    assert(bladerunner_hits(0).0[0] == 0 && bladerunner_hits(0).0[1] == 11);
    assert(bladerunner_hits(0).1[0] == 0);
    assert(bladerunner_hits(8).0[0] == 4 && bladerunner_hits(8).0[1] == 14);
    assert(bladerunner_hits(9).0[0] == 7);
    assert(bladerunner_hits(9).1[0] == 7);
    assert(bladerunner_hits(7).0[0] == 0 && bladerunner_hits(7).0[1] == 8);
    assert forall|t: int| 0 <= t < MAX_TRACKS implies (#[trigger] r.step(t, s)) == marked(
        blank.step(t, s),
        s,
        bladerunner_hits(t),
    ) && !blank.step(t, s).on && !blank.step(t, s).accent by {
    }
    let lane_0 = r.step(0, s);
    let lane_8 = r.step(8, s);
    let lane_9 = r.step(9, s);
    let lane_7 = r.step(7, s);
}

/// Outrun drives: the kick on every beat, the accented snare on both backbeats, zaps, and
/// eighth hats on a lane of twelve steps, which turns against the bar.
pub proof fn outrun_drives(r: Pattern, blank: Pattern, s: int)
    requires
        is_groove(Groove::Outrun, r, blank),
        is_silent(blank),
        0 <= s < 16,
    ensures
        r.step(0, s).on <==> s % 4 == 0,
        r.step(2, s).on <==> s % 8 == 4,
        r.step(5, s).on <==> s % 2 == 0 && s < 12,
        r.step(11, s).on <==> s % 8 == 6,
        forall|t: int|
            0 <= t < MAX_TRACKS && t != 0 && t != 2 && t != 5 && t != 11 ==> !(#[trigger] r.step(t, s)).on,
        forall|t: int|
            0 <= t < MAX_TRACKS ==> ((#[trigger] r.step(t, s)).accent <==> (t == 0 && s == 0)
                || (t == 2 && s % 8 == 4)),
        forall|t: int|
            0 <= t < MAX_TRACKS && (#[trigger] r.step(t, s)).on ==> r.step(t, s).velocity == if r.step(
                t,
                s,
            ).accent {
                122u8
            } else {
                102u8
            },
        r.swing == 50,
        r.groove_amount == blank.groove_amount,
        r.humanize == blank.humanize,
        r.length == blank.length,
        r.seed == 0x0427_0004,
        r.tracks@[5].length == 12,
{
    assert(outrun_hits(0).0[0] == 0 && outrun_hits(0).0[1] == 4 && outrun_hits(0).0[2] == 8
        && outrun_hits(0).0[3] == 12);
    assert(outrun_hits(0).1[0] == 0);
    assert(outrun_hits(2).0[0] == 4 && outrun_hits(2).0[1] == 12);
    assert(outrun_hits(2).1[0] == 4 && outrun_hits(2).1[1] == 12);
    assert(outrun_hits(5).0[0] == 0 && outrun_hits(5).0[1] == 2 && outrun_hits(5).0[2] == 4
        && outrun_hits(5).0[3] == 6 && outrun_hits(5).0[4] == 8 && outrun_hits(5).0[5] == 10);
    assert(outrun_hits(11).0[0] == 6 && outrun_hits(11).0[1] == 14);
    assert forall|t: int| 0 <= t < MAX_TRACKS implies (#[trigger] r.step(t, s)) == marked(
        blank.step(t, s),
        s,
        outrun_hits(t),
    ) && !blank.step(t, s).on && !blank.step(t, s).accent by {
    }
    let hats = r.tracks@[5];
    let lane_0 = r.step(0, s);
    let lane_2 = r.step(2, s);
    let lane_5 = r.step(5, s);
    let lane_11 = r.step(11, s);
}

/// What Discothèque sets, row by row, and what its knobs are called.
pub proof fn discotheque_sets_its_sound(k: Kit)
    requires
        is_discotheque(k),
    ensures
        k.blurb@ == "Daft Punk · French house"@,
        k.rows@.len() == 8,
        k.rows@[0] == (KitRow::Bus { id: 1, norm: ieee(0x3f40_0000) }),
        k.rows@[1] == (KitRow::Bus { id: 5, norm: ieee(0x3f00_0000) }),
        k.rows@[2] == (KitRow::Bus { id: 7, norm: ieee(0x3f0c_cccd) }),
        k.rows@[3] == (KitRow::Bus { id: 2, norm: ieee(0x3e4c_cccd) }),
        k.rows@[4] == (KitRow::Bus { id: 3, norm: ieee(0x3df5_c28f) }),
        k.rows@[5] == (KitRow::Sidechain { on: false }),
        k.rows@[6] == (KitRow::ModSlot { slot: 0, src: 13, dst: 3, depth: ieee(0x3f19_999a), voice: 255 }),
        k.rows@[7] == (KitRow::ModSlot { slot: 1, src: 2, dst: 3, depth: ieee(0x3e80_0000), voice: 5 }),
        k.macro_labels@[0]@ == "Filter"@ && k.macro_labels@[1]@ == "Pump"@,
        k.macro_labels@[2]@ == "Swing"@ && k.macro_labels@[3]@ == "Glue"@,
        k.macro_labels@[4]@ == "Decay"@ && k.macro_labels@[5]@ == "Space"@,
        k.macro_labels@[6]@ == "Width"@ && k.macro_labels@[7]@ == "Crush"@,
{
}

/// What Marseille sets, row by row, and what its knobs are called.
pub proof fn marseille_sets_its_sound(k: Kit)
    requires
        is_marseille(k),
    ensures
        k.blurb@ == "French 79 · 808 half-time"@,
        k.rows@.len() == 9,
        k.rows@[0] == (KitRow::Bus { id: 4, norm: ieee(0x3ed7_0a3d) }),
        k.rows@[1] == (KitRow::Bus { id: 3, norm: ieee(0x3e85_1eb8) }),
        k.rows@[2] == (KitRow::Bus { id: 1, norm: ieee(0x3ea3_d70a) }),
        k.rows@[3] == (KitRow::Bus { id: 2, norm: ieee(0x3df5_c28f) }),
        k.rows@[4] == (KitRow::Mix { track: 4, field: 1, norm: ieee(0x3f19_999a) }),
        k.rows@[5] == (KitRow::Mix { track: 2, field: 0, norm: ieee(0x3e99_999a) }),
        k.rows@[6] == (KitRow::Voice { track: 0, param: 2, norm: ieee(0x3ee6_6666) }),
        k.rows@[7] == (KitRow::ModSlot { slot: 0, src: 13, dst: 3, depth: ieee(0x3ecc_cccd), voice: 4 }),
        k.rows@[8] == (KitRow::Sidechain { on: false }),
        k.macro_labels@[0]@ == "Tape"@ && k.macro_labels@[1]@ == "Humanize"@,
        k.macro_labels@[2]@ == "Density"@ && k.macro_labels@[3]@ == "Room"@,
        k.macro_labels@[4]@ == "Decay"@ && k.macro_labels@[5]@ == "Drive"@,
        k.macro_labels@[6]@ == "Width"@ && k.macro_labels@[7]@ == "Lo-Fi"@,
{
}

/// What Bladerunner sets, row by row, and what its knobs are called.
pub proof fn bladerunner_sets_its_sound(k: Kit)
    requires
        is_bladerunner(k),
    ensures
        k.blurb@ == "Vangelis · cavernous toms"@,
        k.rows@.len() == 10,
        k.rows@[0] == (KitRow::Bus { id: 3, norm: ieee(0x3f1e_b852) }),
        k.rows@[1] == (KitRow::Bus { id: 4, norm: ieee(0x3e61_47ae) }),
        k.rows@[2] == (KitRow::Bus { id: 9, norm: ieee(0x3f19_999a) }),
        k.rows@[3] == (KitRow::Mix { track: 8, field: 0, norm: ieee(0x3f19_999a) }),
        k.rows@[4] == (KitRow::Mix { track: 9, field: 0, norm: ieee(0x3f19_999a) }),
        k.rows@[5] == (KitRow::Lfo { idx: 0, shape: 0, rate: ieee(0x3ecc_cccd), depth: ieee(0x3f80_0000), retrig: false }),
        k.rows@[6] == (KitRow::ModSlot { slot: 0, src: 3, dst: 3, depth: ieee(0x3ee6_6666), voice: 255 }),
        k.rows@[7] == (KitRow::ModSlot { slot: 1, src: 15, dst: 3, depth: ieee(0x3ecc_cccd), voice: 255 }),
        k.rows@[8] == (KitRow::ModEnv { attack: ieee(0x3ecc_cccd), decay: ieee(0x4000_0000) }),
        k.rows@[9] == (KitRow::ModSlot { slot: 2, src: 5, dst: 3, depth: ieee(0x3e99_999a), voice: 255 }),
        k.macro_labels@[0]@ == "Space"@ && k.macro_labels@[1]@ == "Decay"@,
        k.macro_labels@[2]@ == "Evolve"@ && k.macro_labels@[3]@ == "Drive"@,
        k.macro_labels@[4]@ == "Filter"@ && k.macro_labels@[5]@ == "Width"@,
        k.macro_labels@[6]@ == "Pump"@ && k.macro_labels@[7]@ == "Lo-Fi"@,
{
}

/// What Outrun sets, row by row, and what its knobs are called.
pub proof fn outrun_sets_its_sound(k: Kit)
    requires
        is_outrun(k),
    ensures
        k.blurb@ == "80s gated · synthwave"@,
        k.rows@.len() == 8,
        k.rows@[0] == (KitRow::Bus { id: 3, norm: ieee(0x3ee6_6666) }),
        k.rows@[1] == (KitRow::Bus { id: 9, norm: ieee(0x3e99_999a) }),
        k.rows@[2] == (KitRow::Bus { id: 8, norm: ieee(0x3ecc_cccd) }),
        k.rows@[3] == (KitRow::Bus { id: 2, norm: ieee(0x3e8f_5c29) }),
        k.rows@[4] == (KitRow::Mix { track: 2, field: 4, norm: ieee(0x3f80_0000) }),
        k.rows@[5] == (KitRow::Mix { track: 2, field: 0, norm: ieee(0x3f19_999a) }),
        k.rows@[6] == (KitRow::Mix { track: 2, field: 9, norm: ieee(0x3eb3_3333) }),
        k.rows@[7] == (KitRow::ModSlot { slot: 0, src: 14, dst: 1, depth: ieee(0x3e99_999a), voice: 11 }),
        k.macro_labels@[0]@ == "Bright"@ && k.macro_labels@[1]@ == "Detune"@,
        k.macro_labels@[2]@ == "Poly"@ && k.macro_labels@[3]@ == "Snap"@,
        k.macro_labels@[4]@ == "Decay"@ && k.macro_labels@[5]@ == "Space"@,
        k.macro_labels@[6]@ == "Drive"@ && k.macro_labels@[7]@ == "Width"@,
{
}

} // verus!

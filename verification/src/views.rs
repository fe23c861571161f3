//! What the window is sent: the bank, the modulation and the kits, reduced to
//! what it shows.

use crate::ieee::Ieee32;
use crate::kits::Kit;
use crate::pattern::{PLock, Pattern, Step, TrigCondition, MAX_STEPS, MAX_TRACKS};
use crate::state::{DrumModSlot, LfoCfg, ModState};
use vstd::prelude::*;

verus! {

/// A step that is shown, with its place.
#[derive(Debug)]
pub struct Cell {
    pub t: usize,
    pub s: usize,
    pub on: bool,
    pub vel: u8,
    pub accent: bool,
    pub prob: u8,
    pub rat: u8,
    pub ramp: i8,
    pub micro: i16,
    pub cond: u8,
    pub ra: u8,
    pub rb: u8,
    pub plocks: Vec<PLock>,
}

/// Whether a step is shown: it sounds, or it holds a lock.
pub open spec fn is_shown(step: Step) -> bool {
    step.on || step.plocks@.len() > 0
}

/// A condition as the window has it: its code and its ratio; a condition
/// without a ratio shows one of two.
pub open spec fn condition_shown(c: TrigCondition) -> (u8, u8, u8) {
    match c {
        TrigCondition::Ratio { a, b } => (5, a, b),
        TrigCondition::Plain { code } => (code, 1, 2),
    }
}

/// `c` shows the step at `(t, s)`.
pub open spec fn shows(c: Cell, t: int, s: int, step: Step) -> bool {
    &&& c.t == t
    &&& c.s == s
    &&& c.on == step.on
    &&& c.vel == step.velocity
    &&& c.accent == step.accent
    &&& c.prob == step.probability
    &&& c.rat == step.ratchet
    &&& c.ramp == step.ratchet_ramp
    &&& c.micro == step.micro
    &&& (c.cond, c.ra, c.rb) == condition_shown(step.condition)
    &&& c.plocks@ == step.plocks@
}

/// Steps of each lane that can be shown.
pub open spec fn shown_length(p: Pattern) -> int {
    if p.length < MAX_STEPS {
        p.length as int
    } else {
        MAX_STEPS as int
    }
}

/// The places of the steps of lane `t` that are shown, of the first `n`.
pub open spec fn lane_places(p: Pattern, t: int, n: int) -> Seq<(int, int)>
    decreases n,
{
    if n <= 0 {
        Seq::empty()
    } else if is_shown(p.step(t, n - 1)) {
        lane_places(p, t, n - 1).push((t, n - 1))
    } else {
        lane_places(p, t, n - 1)
    }
}

/// The places of the steps of the first `n` lanes that are shown, lane by lane.
pub open spec fn places(p: Pattern, n: int) -> Seq<(int, int)>
    decreases n,
{
    if n <= 0 {
        Seq::empty()
    } else {
        places(p, n - 1) + lane_places(p, n - 1, shown_length(p))
    }
}

/// `cells` show the steps of `p` at the given places, in that order.
pub open spec fn cells_show(cells: Seq<Cell>, p: Pattern, at: Seq<(int, int)>) -> bool {
    &&& cells.len() == at.len()
    &&& forall|i: int|
        0 <= i < cells.len() ==> shows(#[trigger] cells[i], at[i].0, at[i].1, p.step(at[i].0, at[i].1))
}

fn copy_locks(locks: &Vec<PLock>) -> (r: Vec<PLock>)
    ensures
        r@ == locks@,
{
    let mut r: Vec<PLock> = Vec::new();
    let mut i: usize = 0;
    while i < locks.len()
        invariant
            i <= locks@.len(),
            r@ == locks@.take(i as int),
        decreases locks@.len() - i,
    {
        r.push(locks[i]);
        i = i + 1;
    }
    assert(locks@.take(i as int) =~= locks@);
    r
}

fn cell_of(t: usize, s: usize, step: &Step) -> (c: Cell)
    ensures
        shows(c, t as int, s as int, *step),
{
    let (cond, ra, rb) = match step.condition {
        TrigCondition::Ratio { a, b } => (5u8, a, b),
        TrigCondition::Plain { code } => (code, 1u8, 2u8),
    };
    Cell {
        t,
        s,
        on: step.on,
        vel: step.velocity,
        accent: step.accent,
        prob: step.probability,
        rat: step.ratchet,
        ramp: step.ratchet_ramp,
        micro: step.micro,
        cond,
        ra,
        rb,
        plocks: copy_locks(&step.plocks),
    }
}

/// The steps of a pattern that are shown, lane by lane.
pub fn pattern_cells(p: &Pattern) -> (out: Vec<Cell>)
    requires
        p.well_formed(),
    ensures
        cells_show(out@, *p, places(*p, MAX_TRACKS as int)),
{
    let len: usize = if (p.length as usize) < MAX_STEPS {
        p.length as usize
    } else {
        MAX_STEPS
    };
    let mut out: Vec<Cell> = Vec::new();
    let mut t: usize = 0;
    while t < MAX_TRACKS
        invariant
            t <= MAX_TRACKS,
            p.well_formed(),
            len == shown_length(*p),
            len <= MAX_STEPS,
            cells_show(out@, *p, places(*p, t as int)),
        decreases MAX_TRACKS - t,
    {
        let ghost before = places(*p, t as int);
        let mut s: usize = 0;
        assert(before + lane_places(*p, t as int, 0) =~= before);
        while s < len
            invariant
                t < MAX_TRACKS,
                s <= len <= MAX_STEPS,
                p.well_formed(),
                cells_show(out@, *p, before + lane_places(*p, t as int, s as int)),
            decreases len - s,
        {
            let step = &p.tracks[t].steps[s];
            assert(*step == p.step(t as int, s as int));
            let ghost lane = lane_places(*p, t as int, s as int);
            if step.on || step.plocks.len() > 0 {
                out.push(cell_of(t, s, step));
                assert(before + lane.push((t as int, s as int)) =~= (before + lane).push(
                    (t as int, s as int),
                ));
            }
            s = s + 1;
        }
        t = t + 1;
    }
    out
}

/// A pattern as it is shown.
#[derive(Debug)]
pub struct PatternView {
    pub length: u8,
    pub swing: u8,
    pub humanize: u8,
    pub cells: Vec<Cell>,
}

/// `v` shows the pattern `p`.
pub open spec fn view_shows(v: PatternView, p: Pattern) -> bool {
    &&& v.length == p.length
    &&& v.swing == p.swing
    &&& v.humanize == p.humanize
    &&& cells_show(v.cells@, p, places(p, MAX_TRACKS as int))
}

/// A pattern as it is shown.
pub fn pattern_view(p: &Pattern) -> (v: PatternView)
    requires
        p.well_formed(),
    ensures
        view_shows(v, *p),
{
    PatternView {
        length: p.length,
        swing: p.swing,
        humanize: p.humanize,
        cells: pattern_cells(p),
    }
}

/// A kit as it is listed.
#[derive(Debug)]
pub struct KitView {
    pub id: &'static str,
    pub name: &'static str,
    pub blurb: &'static str,
    /// The kit carries a groove.
    pub world: bool,
}

/// The kits as they are listed.
pub fn kit_views(kits: &Vec<Kit>) -> (r: Vec<KitView>)
    ensures
        r@.len() == kits@.len(),
        forall|i: int| 0 <= i < r@.len() ==> lists(#[trigger] r@[i], kits@[i]),
{
    let mut r: Vec<KitView> = Vec::new();
    let mut i: usize = 0;
    while i < kits.len()
        invariant
            i <= kits@.len(),
            r@.len() == i,
            forall|j: int| 0 <= j < i ==> lists(#[trigger] r@[j], kits@[j]),
        decreases kits@.len() - i,
    {
        let k = &kits[i];
        r.push(KitView { id: k.id, name: k.name, blurb: k.blurb, world: k.pattern.is_some() });
        i = i + 1;
    }
    r
}

pub open spec fn lists(v: KitView, k: Kit) -> bool {
    &&& v.id@ == k.id@
    &&& v.name@ == k.name@
    &&& v.blurb@ == k.blurb@
    &&& v.world == (k.pattern is Some)
}

/// Everything of the bank, the modulation and the kits that is shown.
#[derive(Debug)]
pub struct BankView {
    pub tracks: usize,
    pub current: u8,
    pub patterns: Vec<PatternView>,
    pub slots: [DrumModSlot; 16],
    pub lfo1: LfoCfg,
    pub lfo2: LfoCfg,
    pub env_attack: Ieee32,
    pub env_decay: Ieee32,
    pub macros: [Ieee32; 8],
    pub kits: Vec<KitView>,
}

/// What the window is sent of the bank, the modulation and the kits.
pub fn bank_view(patterns: &Vec<Pattern>, current: u8, m: &ModState, kits: &Vec<Kit>) -> (r:
    BankView)
    requires
        forall|i: int| 0 <= i < patterns@.len() ==> (#[trigger] patterns@[i]).well_formed(),
    ensures
        r.tracks == MAX_TRACKS,
        r.current == current,
        r.patterns@.len() == patterns@.len(),
        forall|i: int|
            0 <= i < patterns@.len() ==> view_shows(#[trigger] r.patterns@[i], patterns@[i]),
        r.slots == m.slots,
        r.lfo1 == m.lfo1,
        r.lfo2 == m.lfo2,
        r.env_attack == m.env_attack,
        r.env_decay == m.env_decay,
        r.macros == m.macros,
        r.kits@.len() == kits@.len(),
        forall|i: int| 0 <= i < r.kits@.len() ==> lists(#[trigger] r.kits@[i], kits@[i]),
{
    let mut views: Vec<PatternView> = Vec::new();
    let mut i: usize = 0;
    while i < patterns.len()
        invariant
            i <= patterns@.len(),
            forall|i: int| 0 <= i < patterns@.len() ==> (#[trigger] patterns@[i]).well_formed(),
            views@.len() == i,
            forall|j: int| 0 <= j < i ==> view_shows(#[trigger] views@[j], patterns@[j]),
        decreases patterns@.len() - i,
    {
        views.push(pattern_view(&patterns[i]));
        i = i + 1;
    }
    BankView {
        tracks: MAX_TRACKS,
        current,
        patterns: views,
        slots: m.slots,
        lfo1: m.lfo1,
        lfo2: m.lfo2,
        env_attack: m.env_attack,
        env_decay: m.env_decay,
        macros: m.macros,
        kits: kit_views(kits),
    }
}

proof fn lemma_lane_complete(p: Pattern, t: int, n: int, s: int)
    requires
        0 <= s < n,
        is_shown(p.step(t, s)),
    ensures
        lane_places(p, t, n).contains((t, s)),
    decreases n,
{
    if s == n - 1 {
        let lane = lane_places(p, t, n);
        assert(lane[lane.len() - 1] == (t, s));
    } else {
        lemma_lane_complete(p, t, n - 1, s);
        let before = lane_places(p, t, n - 1);
        let i = choose|i: int| 0 <= i < before.len() && before[i] == (t, s);
        assert(lane_places(p, t, n)[i] == (t, s));
    }
}

/// Nothing that sounds is hidden: every step within the pattern's length that
/// is on or holds a lock has its place.
pub proof fn every_sounding_step_is_shown(p: Pattern, n: int, t: int, s: int)
    requires
        0 <= t < n,
        0 <= s < shown_length(p),
        is_shown(p.step(t, s)),
    ensures
        places(p, n).contains((t, s)),
    decreases n,
{
    let lane = lane_places(p, n - 1, shown_length(p));
    let before = places(p, n - 1);
    if t == n - 1 {
        lemma_lane_complete(p, t, shown_length(p), s);
        let i = choose|i: int| 0 <= i < lane.len() && lane[i] == (t, s);
        assert(places(p, n)[before.len() + i] == (t, s));
    } else {
        every_sounding_step_is_shown(p, n - 1, t, s);
        let i = choose|i: int| 0 <= i < before.len() && before[i] == (t, s);
        assert(places(p, n)[i] == (t, s));
    }
}

/// `c` is the cell of the step at `(t, s)`, field for field.
pub open spec fn is_cell_of(c: Cell, p: Pattern, t: int, s: int) -> bool {
    let step = p.tracks@[t].steps@[s];
    &&& c.t == t
    &&& c.s == s
    &&& c.on == step.on
    &&& c.vel == step.velocity
    &&& c.accent == step.accent
    &&& c.prob == step.probability
    &&& c.rat == step.ratchet
    &&& c.ramp == step.ratchet_ramp
    &&& c.micro == step.micro
    &&& step.condition matches TrigCondition::Ratio { a, b } ==> c.cond == 5 && c.ra == a && c.rb
        == b
    &&& step.condition matches TrigCondition::Plain { code } ==> c.cond == code && c.ra == 1 && c.rb
        == 2
    &&& c.plocks@ == step.plocks@
}

/// Nothing is shown that is not there: every cell is that of a step inside the
/// pattern's length which is on or holds a lock.
pub proof fn every_cell_is_a_step(v: PatternView, p: Pattern, i: int)
    requires
        p.well_formed(),
        view_shows(v, p),
        0 <= i < v.cells@.len(),
    ensures
        ({
            let c = v.cells@[i];
            let step = p.tracks@[c.t as int].steps@[c.s as int];
            &&& c.t < 12
            &&& c.s < 64
            &&& c.s < p.length
            &&& is_cell_of(c, p, c.t as int, c.s as int)
            &&& step.on || step.plocks@.len() > 0
        }),
        v.length == p.length,
        v.swing == p.swing,
        v.humanize == p.humanize,
{
    lemma_places_in_order(p, 12);
    let at = places(p, 12)[i];
    let c = v.cells@[i];
    assert(shows(c, at.0, at.1, p.step(at.0, at.1)));
}

/// Nothing is left out: every step inside the pattern's length which is on or holds a
/// lock has its cell.
pub proof fn every_step_has_its_cell(v: PatternView, p: Pattern, t: int, s: int)
    requires
        p.well_formed(),
        view_shows(v, p),
        0 <= t < 12,
        0 <= s < 64,
        s < p.length,
        p.tracks@[t].steps@[s].on || p.tracks@[t].steps@[s].plocks@.len() > 0,
    ensures
        exists|i: int| 0 <= i < v.cells@.len() && is_cell_of(#[trigger] v.cells@[i], p, t, s),
{
    assert(is_shown(p.step(t, s)));
    every_sounding_step_is_shown(p, 12, t, s);
    let at = places(p, 12);
    let i = choose|i: int| 0 <= i < at.len() && at[i] == (t, s);
    assert(shows(v.cells@[i], t, s, p.step(t, s)));
    assert(is_cell_of(v.cells@[i], p, t, s));
}

/// Cells come lane by lane, and in a lane step by step, each once.
pub proof fn cells_come_in_order(v: PatternView, p: Pattern, i: int, j: int)
    requires
        p.well_formed(),
        view_shows(v, p),
        0 <= i < j < v.cells@.len(),
    ensures
        ({
            let a = v.cells@[i];
            let b = v.cells@[j];
            a.t < b.t || (a.t == b.t && a.s < b.s)
        }),
{
    lemma_places_in_order(p, 12);
    let at = places(p, 12);
    assert(shows(v.cells@[i], at[i].0, at[i].1, p.step(at[i].0, at[i].1)));
    assert(shows(v.cells@[j], at[j].0, at[j].1, p.step(at[j].0, at[j].1)));
}

proof fn lemma_lane_in_order(p: Pattern, t: int, n: int)
    ensures
        ({
            let lane = lane_places(p, t, n);
            &&& forall|i: int|
                0 <= i < lane.len() ==> (#[trigger] lane[i]).0 == t && 0 <= lane[i].1 < n && is_shown(
                    p.step(t, lane[i].1),
                )
            &&& forall|i: int, j: int|
                0 <= i < j < lane.len() ==> (#[trigger] lane[i]).1 < (#[trigger] lane[j]).1
        }),
    decreases n,
{
    if n > 0 {
        lemma_lane_in_order(p, t, n - 1);
    }
}

proof fn lemma_places_in_order(p: Pattern, n: int)
    ensures
        ({
            let at = places(p, n);
            &&& forall|i: int|
                0 <= i < at.len() ==> 0 <= (#[trigger] at[i]).0 < n && 0 <= at[i].1 < 64 && at[i].1
                    < p.length && is_shown(p.step(at[i].0, at[i].1))
            &&& forall|i: int, j: int|
                0 <= i < j < at.len() ==> (#[trigger] at[i]).0 < (#[trigger] at[j]).0 || (at[i].0
                    == at[j].0 && at[i].1 < at[j].1)
        }),
    decreases n,
{
    if n > 0 {
        lemma_places_in_order(p, n - 1);
        lemma_lane_in_order(p, n - 1, shown_length(p));
        let before = places(p, n - 1);
        let lane = lane_places(p, n - 1, shown_length(p));
        let at = places(p, n);
        assert forall|i: int, j: int| 0 <= i < j < at.len() implies (#[trigger] at[i]).0 < (
        #[trigger] at[j]).0 || (at[i].0 == at[j].0 && at[i].1 < at[j].1) by {
            if j >= before.len() {
                assert(at[j] == lane[j - before.len()]);
            }
            if i >= before.len() {
                assert(at[i] == lane[i - before.len()]);
            }
        }
    }
}

/// A kit is listed under its own id, name and blurb, and as a world only if it has a
/// groove.
pub proof fn a_kit_is_listed_as_it_is(v: KitView, k: Kit)
    requires
        lists(v, k),
    ensures
        v.id@ == k.id@,
        v.name@ == k.name@,
        v.blurb@ == k.blurb@,
        k.pattern is None ==> !v.world,
        k.pattern is Some ==> v.world,
{
}

} // verus!

//! The dig: a groove excavated from a site, a seed and four knobs.
//!
//! A dig is a pure function of its address. Every cell of the bar has its own
//! draws, fixed by the seed; the site's grammar and the knobs decide what the
//! draws mean. The draws and the knob arithmetic arrive cell by cell; which
//! cells sound and what their steps hold is decided here, and so is the ranking
//! of several digs.

use crate::ieee::{ieee, Ieee32, HALF, QUARTER, THREE_TENTHS};
use crate::order::{arranged, is_stable_order, keys_of, stable_sort, stands_before, Keyed};
use crate::pattern::{Pattern, Step, MAX_STEPS, MAX_TRACKS};
use crate::terrain::{LanePrior, Role, Terrain, DIG_STEPS};
use vstd::prelude::*;

verus! {

/// Digs shown at once.
pub const N_CANDIDATES: usize = 6;

/// Digs rolled to find them.
pub const ROLLS_PER_DIG: usize = 48;

/// A prior from which a position counts as the lane's identity.
pub const IDENTITY: u8 = 80;

/// The four knobs of a dig, each in `0.0 ..= 1.0`.
#[derive(Clone, Copy, Debug, PartialEq, Eq, Structural)]
pub struct DigKnobs {
    /// How much of the site is revealed.
    pub density: Ieee32,
    /// How much weight moves off the strong quarters.
    pub sync: Ieee32,
    /// How much of the groove becomes a matter of chance.
    pub motion: Ieee32,
    /// How far the grammar is flattened.
    pub wild: Ieee32,
}

impl Default for DigKnobs {
    /// Density 0.6, sync 0.4, motion 0.5, wild 0.25.
    fn default() -> (r: Self)
        ensures
            r == (DigKnobs {
                density: ieee(0x3f19_999a),
                sync: ieee(0x3ecc_cccd),
                motion: ieee(HALF),
                wild: ieee(QUARTER),
            }),
    {
        DigKnobs {
            density: ieee(0x3f19_999a),
            sync: ieee(0x3ecc_cccd),
            motion: ieee(HALF),
            wild: ieee(QUARTER),
        }
    }
}

/// What the seed and the knobs bring to one cell of the bar.
#[derive(Clone, Copy, Debug, PartialEq, Eq, Structural)]
pub struct CellDraw {
    /// The draw that decides whether the cell sounds.
    pub hit: Ieee32,
    /// The chance it is held against.
    pub on_probability: Ieee32,
    /// Contour plus jitter, rounded.
    pub velocity: i32,
    /// The draw that decides an accent.
    pub accent: Ieee32,
    /// The probability of a hit that is left to chance, in percent.
    pub loosened: u8,
    /// The draw that decides a ratchet, and the chance it is held against.
    pub ratchet: Ieee32,
    pub ratchet_chance: Ieee32,
    /// The draw whose parity picks two or three hits.
    pub ratchet_bits: u32,
}

/// Whether a cell sounds.
pub open spec fn is_hit(lane: LanePrior, d: CellDraw) -> bool {
    lane.activity > 0 && !d.on_probability.at_most(d.hit)
}

/// A velocity in the range digs write.
pub open spec fn dug_velocity(v: int) -> int {
    if v < 20 {
        20
    } else if v > 127 {
        127
    } else {
        v
    }
}

/// Whether a hit at position `s` is part of the groove's spine, which chance
/// never touches.
pub open spec fn is_spine(lane: LanePrior, s: int) -> bool {
    lane.role == Role::Anchor || lane.prior@[s] >= IDENTITY
}

/// Whether a hit is split into two or three.
pub open spec fn is_split(lane: LanePrior, d: CellDraw) -> bool {
    (lane.role == Role::Motor || lane.role == Role::Color) && d.ratchet.below(d.ratchet_chance)
}

/// The step that a dig leaves at position `s` of a lane.
pub open spec fn dug_step(blank: Step, lane: LanePrior, s: int, d: CellDraw) -> Step {
    if is_hit(lane, d) {
        Step {
            on: true,
            velocity: dug_velocity(d.velocity as int) as u8,
            accent: lane.prior@[s] >= IDENTITY && d.accent.below(ieee(THREE_TENTHS)),
            probability: if is_spine(lane, s) {
                100
            } else {
                d.loosened
            },
            ratchet: if is_split(lane, d) {
                (2 + d.ratchet_bits % 2) as u8
            } else {
                1
            },
            ..blank
        }
    } else {
        blank
    }
}

/// The draws of a dig cover the bar of every lane.
pub open spec fn draws_fit(draws: Seq<Vec<CellDraw>>) -> bool {
    &&& draws.len() == MAX_TRACKS
    &&& forall|t: int| 0 <= t < MAX_TRACKS ==> (#[trigger] draws[t])@.len() >= DIG_STEPS
}

/// `r` is what a dig makes of the pattern `blank`.
pub open spec fn is_dig(
    r: Pattern,
    terrain: Terrain,
    draws: Seq<Vec<CellDraw>>,
    seed: u32,
    blank: Pattern,
) -> bool {
    &&& r.well_formed()
    &&& r.length == DIG_STEPS
    &&& r.swing == terrain.swing
    &&& r.humanize == terrain.humanize
    &&& r.seed == seed
    &&& r.groove_amount == blank.groove_amount
    &&& forall|t: int, s: int|
        0 <= t < MAX_TRACKS && 0 <= s < MAX_STEPS ==> #[trigger] r.step(t, s) == if s < DIG_STEPS {
            dug_step(blank.step(t, s), terrain.lanes@[t], s, draws[t]@[s])
        } else {
            blank.step(t, s)
        }
    &&& forall|t: int| 0 <= t < MAX_TRACKS ==> same_lane(#[trigger] r.tracks@[t], blank.tracks@[t])
}

/// Two lanes agree in everything but their steps.
pub open spec fn same_lane(a: crate::pattern::Track, b: crate::pattern::Track) -> bool {
    &&& a.muted == b.muted
    &&& a.length == b.length
    &&& a.swing == b.swing
    &&& a.level == b.level
}

fn velocity_of(v: i32) -> (r: u8)
    ensures
        r == dug_velocity(v as int),
{
    if v < 20 {
        20
    } else if v > 127 {
        127
    } else {
        v as u8
    }
}

/// Dig one cell.
fn dig_cell(step: &mut Step, lane: &LanePrior, s: usize, d: CellDraw)
    requires
        s < DIG_STEPS,
    ensures
        *final(step) == dug_step(*old(step), *lane, s as int, d),
{
    if lane.activity == 0 || d.on_probability.le(d.hit) {
        return ;
    }
    let identity = lane.prior[s] >= IDENTITY;
    step.on = true;
    step.velocity = velocity_of(d.velocity);
    step.accent = identity && d.accent.lt(ieee(THREE_TENTHS));
    step.probability = if lane.role == Role::Anchor || identity {
        100
    } else {
        d.loosened
    };
    step.ratchet = if (lane.role == Role::Motor || lane.role == Role::Color) && d.ratchet.lt(
        d.ratchet_chance,
    ) {
        2 + (d.ratchet_bits % 2) as u8
    } else {
        1
    };
}

/// Excavate one pattern: `blank` with the bar of every lane dug, the site's
/// feel, and the dig's seed as the seed of everything the pattern plays by
/// chance.
pub fn dig_one(terrain: &Terrain, draws: &Vec<Vec<CellDraw>>, seed: u32, blank: Pattern) -> (r:
    Pattern)
    requires
        terrain.well_formed(),
        draws_fit(draws@),
        blank.well_formed(),
    ensures
        is_dig(r, *terrain, draws@, seed, blank),
{
    let mut p = blank;
    p.length = DIG_STEPS as u8;
    p.swing = terrain.swing;
    p.humanize = terrain.humanize;
    p.seed = seed;
    let mut t: usize = 0;
    while t < MAX_TRACKS
        invariant
            t <= MAX_TRACKS,
            terrain.well_formed(),
            draws_fit(draws@),
            blank.well_formed(),
            p.well_formed(),
            p.length == DIG_STEPS,
            p.swing == terrain.swing,
            p.humanize == terrain.humanize,
            p.seed == seed,
            p.groove_amount == blank.groove_amount,
            forall|i: int, s: int|
                0 <= i < MAX_TRACKS && 0 <= s < MAX_STEPS ==> #[trigger] p.step(i, s) == if i < t
                    && s < DIG_STEPS {
                    dug_step(blank.step(i, s), terrain.lanes@[i], s, draws@[i]@[s])
                } else {
                    blank.step(i, s)
                },
            forall|i: int|
                0 <= i < MAX_TRACKS ==> same_lane(#[trigger] p.tracks@[i], blank.tracks@[i]),
        decreases MAX_TRACKS - t,
    {
        let lane = terrain.lanes[t];
        let mut s: usize = 0;
        while s < DIG_STEPS
            invariant
                t < MAX_TRACKS,
                s <= DIG_STEPS,
                lane == terrain.lanes@[t as int],
                draws_fit(draws@),
                blank.well_formed(),
                p.well_formed(),
                p.length == DIG_STEPS,
                p.swing == terrain.swing,
                p.humanize == terrain.humanize,
                p.seed == seed,
                p.groove_amount == blank.groove_amount,
                forall|i: int, j: int|
                    0 <= i < MAX_TRACKS && 0 <= j < MAX_STEPS ==> #[trigger] p.step(i, j) == if (i
                        < t && j < DIG_STEPS) || (i == t && j < s) {
                        dug_step(blank.step(i, j), terrain.lanes@[i], j, draws@[i]@[j])
                    } else {
                        blank.step(i, j)
                    },
                forall|i: int|
                    0 <= i < MAX_TRACKS ==> same_lane(#[trigger] p.tracks@[i], blank.tracks@[i]),
            decreases DIG_STEPS - s,
        {
            let ghost before = p;
            assert(p.step(t as int, s as int) == blank.step(t as int, s as int));
            dig_cell(&mut p.tracks[t].steps[s], &lane, s, draws[t][s]);
            assert forall|i: int, j: int|
                0 <= i < MAX_TRACKS && 0 <= j < MAX_STEPS implies #[trigger] p.step(i, j) == if i
                == t && j == s {
                dug_step(blank.step(i, j), terrain.lanes@[i], j, draws@[i]@[j])
            } else {
                before.step(i, j)
            } by {
                assert(i != t ==> p.tracks@[i] == before.tracks@[i]);
            }
            s = s + 1;
        }
        t = t + 1;
    }
    p
}

/// A dig that came out with its score.
#[derive(Debug)]
pub struct DigCandidate {
    pub seed: u32,
    pub score: Ieee32,
    pub pattern: Pattern,
}

/// What candidates are sorted by: the higher the score, the smaller the key.
pub open spec fn score_key(c: DigCandidate) -> u64 {
    (0x8000_0000 - c.score.rank()) as u64
}

pub open spec fn score_keys(rolls: Seq<DigCandidate>) -> Seq<u64> {
    Seq::new(rolls.len(), |i: int| score_key(rolls[i]))
}

/// The best `k` of the rolled candidates, the best first; of equal scores the
/// one rolled earlier comes first.
pub fn dig_best(rolls: Vec<DigCandidate>, k: usize) -> (r: Vec<DigCandidate>)
    requires
        forall|i: int| 0 <= i < rolls@.len() ==> !(#[trigger] rolls@[i]).score.nan(),
    ensures
        exists|order: Seq<int>|
            is_stable_order(score_keys(rolls@), order) && r@ == arranged(rolls@, order).take(
                kept(rolls@.len() as int, k as int),
            ),
{
    let ghost all = rolls@;
    let mut keyed: Vec<Keyed<DigCandidate>> = Vec::new();
    for c in it: rolls
        invariant
            it.seq() == all,
            keyed@ == with_keys(all.take(it.index())),
    {
        let key = (0x8000_0000 - c.score.position()) as u64;
        keyed.push(Keyed { key, item: c });
        proof {
            assert(keyed@ =~= with_keys(all.take(it.index() + 1)));
        }
    }
    let ghost pairs = keyed@;
    proof {
        assert(all.take(all.len() as int) =~= all);
        assert(keys_of(pairs) =~= score_keys(all));
    }
    let sorted = stable_sort(keyed);
    let ghost order = choose|order: Seq<int>|
        is_stable_order(keys_of(pairs), order) && sorted@ == arranged(pairs, order);
    let limit: usize = if k < ROLLS_PER_DIG {
        k
    } else {
        ROLLS_PER_DIG
    };
    let ghost best = arranged(all, order);
    let ghost ranked = sorted@;
    let mut r: Vec<DigCandidate> = Vec::new();
    for s in it: sorted
        invariant
            it.seq() == ranked,
            ranked == arranged(pairs, order),
            pairs == with_keys(all),
            order.len() == all.len(),
            forall|i: int| 0 <= i < order.len() ==> 0 <= #[trigger] order[i] < all.len(),
            best == arranged(all, order),
            r@ == best.take(if it.index() < limit {
                it.index()
            } else {
                limit as int
            }),
    {
        if r.len() < limit {
            let ghost i = it.index();
            r.push(s.item);
            proof {
                assert(ranked[i] == pairs[order[i]]);
                assert(r@ =~= best.take(i + 1));
            }
        }
    }
    proof {
        assert(ranked.len() == all.len());
        assert(r@ =~= best.take(kept(all.len() as int, k as int)));
    }
    r
}

pub open spec fn with_keys(rolls: Seq<DigCandidate>) -> Seq<Keyed<DigCandidate>> {
    Seq::new(rolls.len(), |i: int| (Keyed { key: score_key(rolls[i]), item: rolls[i] }))
}

/// How many of `n` rolls are kept when `k` are asked for.
pub open spec fn kept(n: int, k: int) -> int {
    let limit = if k < ROLLS_PER_DIG {
        k
    } else {
        ROLLS_PER_DIG as int
    };
    if n < limit {
        n
    } else {
        limit
    }
}

/// The bar of twelve lanes as one row of cells, lane by lane.
pub const CELLS: usize = 192;

/// Whether cell `c` of the bar is on.
pub open spec fn cell_on(p: Pattern, c: int) -> bool {
    p.step(c / 16, c % 16).on
}

/// How many of the first `n` numbers satisfy `f`.
pub open spec fn count(n: int, f: spec_fn(int) -> bool) -> nat
    decreases n,
{
    if n <= 0 {
        0
    } else {
        count(n - 1, f) + if f(n - 1) {
            1nat
        } else {
            0
        }
    }
}

/// The velocities of the cells that are on, of the first `n`.
pub open spec fn velocities(p: Pattern, n: int) -> Seq<u8>
    decreases n,
{
    if n <= 0 {
        Seq::empty()
    } else if cell_on(p, n - 1) {
        velocities(p, n - 1).push(p.step((n - 1) / 16, (n - 1) % 16).velocity)
    } else {
        velocities(p, n - 1)
    }
}

/// How many lanes sound at position `s`, counting the first `n` cells.
pub open spec fn column(p: Pattern, n: int, s: int) -> nat {
    count(n, |c: int| cell_on(p, c) && c % 16 == s)
}

/// `t` is the site's motor: of the lanes with that role that are at least half
/// active the most active one, and of several the last.
pub open spec fn is_motor(terrain: Terrain, t: int) -> bool {
    let lanes = terrain.lanes@;
    &&& 0 <= t < lanes.len()
    &&& lanes[t].role == Role::Motor
    &&& lanes[t].activity >= 50
    &&& forall|i: int|
        0 <= i < lanes.len() && (#[trigger] lanes[i]).role == Role::Motor && i != t
            ==> lanes[i].activity < lanes[t].activity || (lanes[i].activity == lanes[t].activity
            && i < t)
}

/// No lane can be the site's motor.
pub open spec fn no_motor(terrain: Terrain) -> bool {
    forall|i: int|
        0 <= i < terrain.lanes@.len() && (#[trigger] terrain.lanes@[i]).role == Role::Motor
            ==> terrain.lanes@[i].activity < 50
}

/// Going round the bar, the next hit of lane `t` after position `s` is `d`
/// positions on.
pub open spec fn is_gap(p: Pattern, t: int, s: int, d: int) -> bool {
    &&& 1 <= d <= DIG_STEPS
    &&& p.step(t, (s + d) % 16).on
    &&& forall|e: int| 1 <= e < d ==> !(#[trigger] p.step(t, (s + e) % 16)).on
}

/// `gap` is the longest way round the bar between two hits of lane `t`.
pub open spec fn is_longest_gap(p: Pattern, t: int, gap: int) -> bool {
    &&& exists|s: int| 0 <= s < DIG_STEPS && p.step(t, s).on && #[trigger] is_gap(p, t, s, gap)
    &&& forall|s: int, d: int|
        0 <= s < DIG_STEPS && p.step(t, s).on && #[trigger] is_gap(p, t, s, d) ==> d <= gap
}

/// What is counted in a bar before it is scored.
#[derive(Debug)]
pub struct Tally {
    /// Hits in the bar.
    pub total: u32,
    /// Hits off the quarters.
    pub off_grid: u32,
    /// Hits of the kick.
    pub kick_hits: u32,
    /// Whether the kick is on the downbeat.
    pub downbeat: bool,
    /// Whether snare or clap is on the second or fourth beat.
    pub backbeat: bool,
    /// Positions where six or more lanes sound.
    pub crowded: u32,
    /// Whether the site has a motor.
    pub has_motor: bool,
    /// The longest way between two hits of the motor, where it has hits.
    pub motor_gap: Option<u32>,
    /// Velocity of every hit, lane by lane.
    pub velocities: Vec<u8>,
}

/// The longest way round the bar between two hits of lane `t`, if it has hits.
pub fn motor_flow(p: &Pattern, t: usize) -> (r: Option<u32>)
    requires
        p.well_formed(),
        t < MAX_TRACKS,
    ensures
        r is None <==> forall|s: int| 0 <= s < DIG_STEPS ==> !(#[trigger] p.step(t as int, s)).on,
        r is Some ==> 1 <= r->0 <= DIG_STEPS && is_longest_gap(*p, t as int, r->0 as int),
{
    let mut best: u32 = 0;
    let mut s: usize = 0;
    let steps = &p.tracks[t].steps;
    while s < DIG_STEPS
        invariant
            t < MAX_TRACKS,
            p.well_formed(),
            *steps == p.tracks@[t as int].steps,
            s <= DIG_STEPS,
            best <= DIG_STEPS,
            best == 0 <==> forall|i: int| 0 <= i < s ==> !(#[trigger] p.step(t as int, i)).on,
            best > 0 ==> exists|i: int|
                0 <= i < s && p.step(t as int, i).on && #[trigger] is_gap(
                    *p,
                    t as int,
                    i,
                    best as int,
                ),
            forall|i: int, d: int|
                0 <= i < s && p.step(t as int, i).on && #[trigger] is_gap(*p, t as int, i, d)
                    ==> d <= best,
        decreases DIG_STEPS - s,
    {
        if steps[s].on {
            assert(p.step(t as int, s as int).on);
            let mut d: usize = 1;
            assert((s + 16) % 16 == s as int);
            while !steps[(s + d) % 16].on
                invariant
                    t < MAX_TRACKS,
                    p.well_formed(),
                    *steps == p.tracks@[t as int].steps,
                    s < DIG_STEPS,
                    p.step(t as int, s as int).on,
                    (s + 16) % 16 == s as int,
                    1 <= d <= DIG_STEPS,
                    forall|e: int| 1 <= e < d ==> !(#[trigger] p.step(t as int, (s + e) % 16)).on,
                decreases DIG_STEPS - d,
            {
                assert(!p.step(t as int, (s + d) % 16).on);
                d = d + 1;
            }
            assert(p.step(t as int, (s + d) % 16).on);
            assert(is_gap(*p, t as int, s as int, d as int));
            assert forall|e: int| #[trigger] is_gap(*p, t as int, s as int, e) implies e == d by {
                if e < d {
                    assert(!p.step(t as int, (s + e) % 16).on);
                }
                if d < e {
                    assert(!p.step(t as int, (s + d) % 16).on);
                }
            }
            if best < d as u32 {
                best = d as u32;
            }
        }
        s = s + 1;
    }
    if best == 0 {
        None
    } else {
        Some(best)
    }
}

/// The site's motor lane.
pub fn motor_lane(terrain: &Terrain) -> (r: Option<usize>)
    ensures
        r is Some ==> is_motor(*terrain, r->0 as int),
        r is None ==> no_motor(*terrain),
{
    let mut best: Option<usize> = None;
    let mut t: usize = 0;
    while t < terrain.lanes.len()
        invariant
            t <= terrain.lanes@.len(),
            best is None ==> forall|i: int|
                0 <= i < t && (#[trigger] terrain.lanes@[i]).role == Role::Motor
                    ==> terrain.lanes@[i].activity < 50,
            best is Some ==> {
                &&& best->0 < t
                &&& terrain.lanes@[best->0 as int].role == Role::Motor
                &&& terrain.lanes@[best->0 as int].activity >= 50
                &&& forall|i: int|
                    0 <= i < t && (#[trigger] terrain.lanes@[i]).role == Role::Motor && i != best->0
                        ==> terrain.lanes@[i].activity < terrain.lanes@[best->0 as int].activity
                        || (terrain.lanes@[i].activity == terrain.lanes@[best->0 as int].activity
                        && i < best->0)
            },
        decreases terrain.lanes@.len() - t,
    {
        let lane = terrain.lanes[t];
        if lane.role == Role::Motor && lane.activity >= 50 {
            match best {
                None => {
                    best = Some(t);
                },
                Some(b) => {
                    if terrain.lanes[b].activity <= lane.activity {
                        best = Some(t);
                    }
                },
            }
        }
        t = t + 1;
    }
    best
}

/// Whether snare or clap is on the second or fourth beat.
pub open spec fn has_backbeat(p: Pattern) -> bool {
    p.step(2, 4).on || p.step(2, 12).on || p.step(3, 4).on || p.step(3, 12).on
}

/// `r` counts the bar of `p`.
pub open spec fn is_tally(r: Tally, terrain: Terrain, p: Pattern) -> bool {
    &&& r.total == count(192, |c: int| cell_on(p, c))
    &&& r.off_grid == count(192, |c: int| cell_on(p, c) && c % 4 != 0)
    &&& r.kick_hits == count(16, |c: int| cell_on(p, c))
    &&& r.downbeat == p.step(0, 0).on
    &&& r.backbeat == has_backbeat(p)
    &&& r.crowded == count(16, |s: int| column(p, 192, s) >= 6)
    &&& r.velocities@ == velocities(p, 192)
    &&& r.has_motor <==> exists|t: int| is_motor(terrain, t)
    &&& !r.has_motor ==> r.motor_gap is None
    &&& forall|t: int| #[trigger]
        is_motor(terrain, t) ==> match r.motor_gap {
            Some(gap) => is_longest_gap(p, t, gap as int),
            None => forall|s: int| 0 <= s < DIG_STEPS ==> !(#[trigger] p.step(t, s)).on,
        }
}

/// How many positions are crowded, of sixteen column counts.
fn crowded_columns(col: &Vec<u32>, p: &Pattern) -> (r: u32)
    requires
        col@.len() == 16,
        forall|s: int| 0 <= s < 16 ==> #[trigger] col@[s] == column(*p, 192, s),
    ensures
        r == count(16, |s: int| column(*p, 192, s) >= 6),
{
    let ghost f = |s: int| column(*p, 192, s) >= 6;
    let mut crowded: u32 = 0;
    let mut s: usize = 0;
    while s < 16
        invariant
            s <= 16,
            col@.len() == 16,
            forall|i: int| 0 <= i < 16 ==> #[trigger] col@[i] == column(*p, 192, i),
            f == (|s: int| column(*p, 192, s) >= 6),
            crowded == count(s as int, f),
            crowded <= s,
        decreases 16 - s,
    {
        assert(col@[s as int] == column(*p, 192, s as int));
        if col[s] >= 6 {
            crowded = crowded + 1;
        }
        s = s + 1;
    }
    crowded
}

/// Count the bar of `p` for its score.
pub fn tally(terrain: &Terrain, p: &Pattern) -> (r: Tally)
    requires
        terrain.well_formed(),
        p.well_formed(),
    ensures
        is_tally(r, *terrain, *p),
{
    let ghost on = |c: int| cell_on(*p, c);
    let ghost off = |c: int| cell_on(*p, c) && c % 4 != 0;
    let mut total: u32 = 0;
    let mut off_grid: u32 = 0;
    let mut kick_hits: u32 = 0;
    let mut vels: Vec<u8> = Vec::new();
    let mut col: Vec<u32> = vec![0; 16];
    let mut c: usize = 0;
    while c < CELLS
        invariant
            c <= CELLS,
            p.well_formed(),
            on == (|c: int| cell_on(*p, c)),
            off == (|c: int| cell_on(*p, c) && c % 4 != 0),
            total == count(c as int, on),
            total <= c,
            off_grid == count(c as int, off),
            off_grid <= c,
            kick_hits == count(if c < 16 {
                c as int
            } else {
                16
            }, on),
            kick_hits <= c,
            vels@ == velocities(*p, c as int),
            col@.len() == 16,
            forall|s: int| 0 <= s < 16 ==> #[trigger] col@[s] == column(*p, c as int, s),
            forall|s: int| 0 <= s < 16 ==> #[trigger] col@[s] <= c,
        decreases CELLS - c,
    {
        let t: usize = c / 16;
        let s: usize = c % 16;
        let step = &p.tracks[t].steps[s];
        assert(step.on == cell_on(*p, c as int));
        let ghost before = col@;
        if step.on {
            total = total + 1;
            if s % 4 != 0 {
                off_grid = off_grid + 1;
            }
            if t == 0 {
                kick_hits = kick_hits + 1;
            }
            vels.push(step.velocity);
            let n: u32 = col[s];
            col.set(s, n + 1);
        }
        proof {
            assert(c % 16 % 4 == c % 4);
            assert forall|i: int| 0 <= i < 16 implies #[trigger] col@[i] == column(
                *p,
                c + 1,
                i,
            ) by {
                let f = |k: int| cell_on(*p, k) && k % 16 == i;
                assert(before[i] == count(c as int, f));
                assert(count(c + 1, f) == count(c as int, f) + if f(c as int) {
                    1nat
                } else {
                    0
                });
            }
        }
        c = c + 1;
    }
    let crowded = crowded_columns(&col, p);
    let motor = motor_lane(terrain);
    let motor_gap = match motor {
        Some(t) => motor_flow(p, t),
        None => None,
    };
    let backbeat = p.tracks[2].steps[4].on || p.tracks[2].steps[12].on || p.tracks[3].steps[4].on
        || p.tracks[3].steps[12].on;
    proof {
        match motor {
            Some(t) => {
                assert forall|u: int| #[trigger] is_motor(*terrain, u) implies u == t by {
                    assert(terrain.lanes@[u].role == Role::Motor);
                    assert(terrain.lanes@[t as int].role == Role::Motor);
                }
            },
            None => {},
        }
    }
    Tally {
        total,
        off_grid,
        kick_hits,
        downbeat: p.tracks[0].steps[0].on,
        backbeat,
        crowded,
        has_motor: motor.is_some(),
        motor_gap,
        velocities: vels,
    }
}

/// Two patterns have the same bar: the same steps of the first sixteen are on,
/// with the same velocities.
pub open spec fn same_bar(p: Pattern, q: Pattern) -> bool {
    forall|t: int, s: int|
        0 <= t < MAX_TRACKS && 0 <= s < DIG_STEPS ==> (#[trigger] p.step(t, s)).on == q.step(t, s).on
            && (p.step(t, s).on ==> p.step(t, s).velocity == q.step(t, s).velocity)
}

proof fn lemma_count_agrees(n: int, f: spec_fn(int) -> bool, g: spec_fn(int) -> bool)
    requires
        forall|c: int| 0 <= c < n ==> #[trigger] f(c) == g(c),
    ensures
        count(n, f) == count(n, g),
    decreases n,
{
    if n > 0 {
        lemma_count_agrees(n - 1, f, g);
        assert(f(n - 1) == g(n - 1));
    }
}

proof fn lemma_cells_agree(p: Pattern, q: Pattern, c: int)
    requires
        same_bar(p, q),
        0 <= c < CELLS,
    ensures
        cell_on(p, c) == cell_on(q, c),
        cell_on(p, c) ==> p.step(c / 16, c % 16).velocity == q.step(c / 16, c % 16).velocity,
{
    assert(p.step(c / 16, c % 16).on == q.step(c / 16, c % 16).on);
}

proof fn lemma_velocities_agree(p: Pattern, q: Pattern, n: int)
    requires
        same_bar(p, q),
        n <= CELLS,
    ensures
        velocities(p, n) == velocities(q, n),
    decreases n,
{
    if n > 0 {
        lemma_velocities_agree(p, q, n - 1);
        lemma_cells_agree(p, q, n - 1);
    }
}

proof fn lemma_gaps_agree(p: Pattern, q: Pattern, t: int, s: int, d: int)
    requires
        same_bar(p, q),
        0 <= t < MAX_TRACKS,
        is_gap(p, t, s, d),
    ensures
        is_gap(q, t, s, d),
{
    assert(p.step(t, (s + d) % 16).on == q.step(t, (s + d) % 16).on);
    assert forall|e: int| 1 <= e < d implies !(#[trigger] q.step(t, (s + e) % 16)).on by {
        assert(p.step(t, (s + e) % 16).on == q.step(t, (s + e) % 16).on);
    }
}

proof fn lemma_same_bar_both_ways(p: Pattern, q: Pattern)
    requires
        same_bar(p, q),
    ensures
        same_bar(q, p),
{
    assert forall|t: int, s: int| 0 <= t < MAX_TRACKS && 0 <= s < DIG_STEPS implies (
    #[trigger] q.step(t, s)).on == p.step(t, s).on && (q.step(t, s).on ==> q.step(t, s).velocity
        == p.step(t, s).velocity) by {
        assert(p.step(t, s).on == q.step(t, s).on);
    }
}

proof fn lemma_longest_gaps_agree(p: Pattern, q: Pattern, t: int, x: int, y: int)
    requires
        same_bar(p, q),
        0 <= t < MAX_TRACKS,
        is_longest_gap(p, t, x),
        is_longest_gap(q, t, y),
    ensures
        x <= y,
{
    let s = choose|s: int| 0 <= s < DIG_STEPS && p.step(t, s).on && #[trigger] is_gap(p, t, s, x);
    lemma_gaps_agree(p, q, t, s, x);
    assert(p.step(t, s).on == q.step(t, s).on);
}

/// A score sees only the bar: two patterns with the same bar are counted the
/// same, whatever their later steps and everything else in them hold.
pub proof fn a_tally_sees_only_the_bar(a: Tally, b: Tally, terrain: Terrain, p: Pattern, q: Pattern)
    requires
        terrain.well_formed(),
        same_bar(p, q),
        is_tally(a, terrain, p),
        is_tally(b, terrain, q),
    ensures
        a.total == b.total,
        a.off_grid == b.off_grid,
        a.kick_hits == b.kick_hits,
        a.downbeat == b.downbeat,
        a.backbeat == b.backbeat,
        a.crowded == b.crowded,
        a.has_motor == b.has_motor,
        a.motor_gap == b.motor_gap,
        a.velocities@ == b.velocities@,
{
    assert forall|c: int| 0 <= c < CELLS implies #[trigger] cell_on(p, c) == cell_on(q, c) by {
        lemma_cells_agree(p, q, c);
    }
    lemma_count_agrees(192, |c: int| cell_on(p, c), |c: int| cell_on(q, c));
    lemma_count_agrees(16, |c: int| cell_on(p, c), |c: int| cell_on(q, c));
    lemma_count_agrees(
        192,
        |c: int| cell_on(p, c) && c % 4 != 0,
        |c: int| cell_on(q, c) && c % 4 != 0,
    );
    assert forall|s: int| #[trigger] column(p, 192, s) == column(q, 192, s) by {
        lemma_count_agrees(
            192,
            |c: int| cell_on(p, c) && c % 16 == s,
            |c: int| cell_on(q, c) && c % 16 == s,
        );
    }
    lemma_count_agrees(16, |s: int| column(p, 192, s) >= 6, |s: int| column(q, 192, s) >= 6);
    lemma_velocities_agree(p, q, 192);
    assert(p.step(0, 0).on == q.step(0, 0).on);
    assert(p.step(2, 4).on == q.step(2, 4).on && p.step(2, 12).on == q.step(2, 12).on);
    assert(p.step(3, 4).on == q.step(3, 4).on && p.step(3, 12).on == q.step(3, 12).on);
    if a.has_motor {
        let t = choose|t: int| is_motor(terrain, t);
        lemma_same_bar_both_ways(p, q);
        match (a.motor_gap, b.motor_gap) {
            (Some(x), Some(y)) => {
                lemma_longest_gaps_agree(p, q, t, x as int, y as int);
                lemma_longest_gaps_agree(q, p, t, y as int, x as int);
            },
            (Some(x), None) => {
                let s = choose|s: int|
                    0 <= s < DIG_STEPS && p.step(t, s).on && #[trigger] is_gap(p, t, s, x as int);
                assert(p.step(t, s).on == q.step(t, s).on);
            },
            (None, Some(y)) => {
                let s = choose|s: int|
                    0 <= s < DIG_STEPS && q.step(t, s).on && #[trigger] is_gap(q, t, s, y as int);
                assert(p.step(t, s).on == q.step(t, s).on);
            },
            (None, None) => {},
        }
    }
}

proof fn lemma_count_zero(n: int, f: spec_fn(int) -> bool)
    ensures
        count(n, f) == 0 <==> forall|c: int| 0 <= c < n ==> !#[trigger] f(c),
    decreases n,
{
    if n > 0 {
        lemma_count_zero(n - 1, f);
        if count(n, f) == 0 {
            assert forall|c: int| 0 <= c < n implies !#[trigger] f(c) by {
                if c == n - 1 {
                    assert(!f(n - 1));
                }
            }
        }
    }
}

/// Only silence counts nothing: a tally is zero exactly where no step of the bar
/// is on.
pub proof fn only_silence_counts_nothing(r: Tally, terrain: Terrain, p: Pattern)
    requires
        is_tally(r, terrain, p),
    ensures
        r.total == 0 <==> forall|t: int, s: int|
            0 <= t < MAX_TRACKS && 0 <= s < DIG_STEPS ==> !(#[trigger] p.step(t, s)).on,
{
    let f = |c: int| cell_on(p, c);
    lemma_count_zero(192, f);
    if r.total == 0 {
        assert forall|t: int, s: int| 0 <= t < MAX_TRACKS && 0 <= s < DIG_STEPS implies !(
        #[trigger] p.step(t, s)).on by {
            let c = t * 16 + s;
            assert(c / 16 == t && c % 16 == s);
            assert(!f(c));
        }
    } else {
        let c = choose|c: int| 0 <= c < 192 && #[trigger] f(c);
        assert(p.step(c / 16, c % 16).on);
    }
}

/// Density reveals and never rerolls: with the same draws, where no cell's
/// chance falls, a hit that was there stays.
pub proof fn density_only_reveals(lane: LanePrior, sparse: CellDraw, dense: CellDraw)
    requires
        sparse.hit == dense.hit,
        sparse.on_probability.at_most(dense.on_probability),
        is_hit(lane, sparse),
    ensures
        is_hit(lane, dense),
{
}

/// The draws of two digs agree in all but the chance of a hit, which is nowhere
/// smaller in the second.
pub open spec fn reveals_more(sparse: Seq<Vec<CellDraw>>, dense: Seq<Vec<CellDraw>>) -> bool {
    forall|t: int, s: int|
        0 <= t < MAX_TRACKS && 0 <= s < DIG_STEPS ==> {
            let d = #[trigger] sparse[t]@[s];
            let e = dense[t]@[s];
            &&& e == (CellDraw { on_probability: e.on_probability, ..d })
            &&& d.on_probability.at_most(e.on_probability)
        }
}

/// The same of a whole dig: every step that sounds in the sparser dig sounds in
/// the denser one, and a step that was dug is the same there, with its velocity,
/// accent, probability and ratchet.
pub proof fn denser_digs_hold_sparser_ones(
    a: Pattern,
    b: Pattern,
    terrain: Terrain,
    sparse: Seq<Vec<CellDraw>>,
    dense: Seq<Vec<CellDraw>>,
    seed: u32,
    blank: Pattern,
)
    requires
        is_dig(a, terrain, sparse, seed, blank),
        is_dig(b, terrain, dense, seed, blank),
        reveals_more(sparse, dense),
    ensures
        forall|t: int, s: int|
            0 <= t < MAX_TRACKS && 0 <= s < MAX_STEPS && (#[trigger] a.step(t, s)).on ==> b.step(
                t,
                s,
            ).on && (!blank.step(t, s).on ==> b.step(t, s) == a.step(t, s)),
{
    assert forall|t: int, s: int|
        0 <= t < MAX_TRACKS && 0 <= s < MAX_STEPS && (#[trigger] a.step(t, s)).on implies b.step(
        t,
        s,
    ).on && (!blank.step(t, s).on ==> b.step(t, s) == a.step(t, s)) by {
        assert(b.step(t, s) == b.step(t, s));
        if s < DIG_STEPS {
            assert(sparse[t]@[s].hit == dense[t]@[s].hit);
        }
    }
}

/// An address gives one groove: two digs with the same site, draws, seed and
/// blank pattern agree in every step.
pub proof fn an_address_gives_one_groove(
    a: Pattern,
    b: Pattern,
    terrain: Terrain,
    draws: Seq<Vec<CellDraw>>,
    seed: u32,
    blank: Pattern,
)
    requires
        is_dig(a, terrain, draws, seed, blank),
        is_dig(b, terrain, draws, seed, blank),
    ensures
        a.length == b.length && a.swing == b.swing && a.humanize == b.humanize,
        a.seed == b.seed && a.groove_amount == b.groove_amount,
        forall|t: int, s: int|
            0 <= t < MAX_TRACKS && 0 <= s < MAX_STEPS ==> #[trigger] a.step(t, s) == b.step(t, s),
{
    assert forall|t: int, s: int| 0 <= t < MAX_TRACKS && 0 <= s < MAX_STEPS implies #[trigger] a.step(
        t,
        s,
    ) == b.step(t, s) by {
        assert(b.step(t, s) == b.step(t, s));
    }
}

/// What a dig writes is playable: velocities from 20 to 127, probabilities from
/// 1 to 100, one to three hits, no lock added and nothing past the bar.
pub proof fn digs_are_playable(
    r: Pattern,
    terrain: Terrain,
    draws: Seq<Vec<CellDraw>>,
    seed: u32,
    blank: Pattern,
    t: int,
    s: int,
)
    requires
        is_dig(r, terrain, draws, seed, blank),
        0 <= t < MAX_TRACKS,
        0 <= s < MAX_STEPS,
        !blank.step(t, s).on,
        s < DIG_STEPS ==> 1 <= draws[t]@[s].loosened <= 100,
        r.step(t, s).on,
    ensures
        s < DIG_STEPS,
        20 <= r.step(t, s).velocity <= 127,
        1 <= r.step(t, s).probability <= 100,
        1 <= r.step(t, s).ratchet <= 3,
        r.step(t, s).plocks == blank.step(t, s).plocks,
{
}

/// The spine of a groove is never left to chance: hits of an anchor and hits at
/// a position of identity are certain.
pub proof fn the_spine_is_certain(blank: Step, lane: LanePrior, s: int, d: CellDraw)
    requires
        is_hit(lane, d),
        is_spine(lane, s),
    ensures
        dug_step(blank, lane, s, d).probability == 100,
{
}

/// A cell whose chance is zero rests, whatever it draws.
pub proof fn no_chance_is_a_rest(lane: LanePrior, d: CellDraw)
    requires
        d.on_probability == ieee(0),
        ieee(0).at_most(d.hit),
    ensures
        !is_hit(lane, d),
{
}

/// Ranked digs come best first.
pub proof fn best_digs_come_first(rolls: Seq<DigCandidate>, order: Seq<int>, i: int, j: int)
    requires
        forall|i: int| 0 <= i < rolls.len() ==> !(#[trigger] rolls[i]).score.nan(),
        is_stable_order(score_keys(rolls), order),
        0 <= i < j < order.len(),
    ensures
        arranged(rolls, order)[j].score.at_most(arranged(rolls, order)[i].score),
{
    assert(stands_before(score_keys(rolls), order[i], order[j]));
    assert(!rolls[order[i]].score.nan() && !rolls[order[j]].score.nan());
}

/// A hit is dug as it was drawn. Where a lane is active and the draw of a cell is
/// below its chance, the step is on; it has the drawn velocity, or the nearest
/// that a hit can have; it is accented only where the lane is at home and the
/// draw asks for it; it is certain on an anchor and where the lane is at home, and
/// as loose as drawn elsewhere; and only motors and colors split it, in two or
/// three as drawn.
pub proof fn a_hit_is_dug_as_drawn(
    r: Pattern,
    terrain: Terrain,
    draws: Seq<Vec<CellDraw>>,
    seed: u32,
    blank: Pattern,
    t: int,
    s: int,
)
    requires
        is_dig(r, terrain, draws, seed, blank),
        0 <= t < 12,
        0 <= s < 16,
        terrain.lanes@[t].activity > 0,
        draws[t]@[s].hit.below(draws[t]@[s].on_probability),
    ensures
        ({
            let step = r.step(t, s);
            let lane = terrain.lanes@[t];
            let d = draws[t]@[s];
            &&& step.on
            &&& 20 <= d.velocity <= 127 ==> step.velocity == d.velocity
            &&& d.velocity < 20 ==> step.velocity == 20
            &&& d.velocity > 127 ==> step.velocity == 127
            &&& step.accent <==> lane.prior@[s] >= 80 && d.accent.below(ieee(0x3e99_999a))
            &&& lane.role == Role::Anchor || lane.prior@[s] >= 80 ==> step.probability == 100
            &&& lane.role != Role::Anchor && lane.prior@[s] < 80 ==> step.probability == d.loosened
            &&& (lane.role == Role::Motor || lane.role == Role::Color) && d.ratchet.below(
                d.ratchet_chance,
            ) ==> step.ratchet == 2 + d.ratchet_bits % 2
            &&& lane.role == Role::Anchor || lane.role == Role::Backbeat || !d.ratchet.below(
                d.ratchet_chance,
            ) ==> step.ratchet == 1
            &&& step.ratchet_ramp == blank.step(t, s).ratchet_ramp
            &&& step.micro == blank.step(t, s).micro
            &&& step.condition == blank.step(t, s).condition
            &&& step.plocks == blank.step(t, s).plocks
        }),
{
    assert(r.step(t, s) == dug_step(blank.step(t, s), terrain.lanes@[t], s, draws[t]@[s]));
}

/// Louder stays louder: of two hits the one with the larger drawn velocity is
/// never dug quieter, so weak positions come out quiet.
pub proof fn louder_draws_are_dug_louder(
    r: Pattern,
    terrain: Terrain,
    draws: Seq<Vec<CellDraw>>,
    seed: u32,
    blank: Pattern,
    t: int,
    s: int,
    u: int,
    v: int,
)
    requires
        is_dig(r, terrain, draws, seed, blank),
        0 <= t < 12 && 0 <= s < 16 && 0 <= u < 12 && 0 <= v < 16,
        terrain.lanes@[t].activity > 0 && terrain.lanes@[u].activity > 0,
        draws[t]@[s].hit.below(draws[t]@[s].on_probability),
        draws[u]@[v].hit.below(draws[u]@[v].on_probability),
        draws[t]@[s].velocity <= draws[u]@[v].velocity,
    ensures
        r.step(t, s).velocity <= r.step(u, v).velocity,
        20 <= draws[t]@[s].velocity < draws[u]@[v].velocity <= 127 ==> r.step(t, s).velocity
            < r.step(u, v).velocity,
{
    a_hit_is_dug_as_drawn(r, terrain, draws, seed, blank, t, s);
    a_hit_is_dug_as_drawn(r, terrain, draws, seed, blank, u, v);
}

/// What is not hit stays blank: a cell of a silent lane, a cell whose draw is not
/// below its chance, and every step past the bar. The dig takes its length, its
/// feel and its seed from the bar, the site and the address.
pub proof fn what_is_not_hit_stays_blank(
    r: Pattern,
    terrain: Terrain,
    draws: Seq<Vec<CellDraw>>,
    seed: u32,
    blank: Pattern,
    t: int,
    s: int,
)
    requires
        is_dig(r, terrain, draws, seed, blank),
        0 <= t < 12,
        0 <= s < 64,
        s >= 16 || terrain.lanes@[t].activity == 0 || draws[t]@[s].on_probability.at_most(
            draws[t]@[s].hit,
        ),
    ensures
        r.step(t, s) == blank.step(t, s),
        r.length == 16 && r.swing == terrain.swing && r.humanize == terrain.humanize,
        r.seed == seed && r.groove_amount == blank.groove_amount,
        r.tracks@[t].muted == blank.tracks@[t].muted,
        r.tracks@[t].length == blank.tracks@[t].length,
        r.tracks@[t].swing == blank.tracks@[t].swing,
        r.tracks@[t].level == blank.tracks@[t].level,
{
    assert(r.step(t, s) == r.step(t, s));
    assert(same_lane(r.tracks@[t], blank.tracks@[t]));
}

/// A count is the size of the set that is counted.
proof fn lemma_count_is_size(n: int, f: spec_fn(int) -> bool, s: Set<int>)
    requires
        forall|c: int| #[trigger] s.contains(c) <==> 0 <= c < n && f(c),
    ensures
        s.finite(),
        s.len() == count(n, f),
    decreases n,
{
    if n <= 0 {
        assert(s =~= Set::empty());
    } else {
        let less = s.remove(n - 1);
        assert forall|c: int| #[trigger] less.contains(c) <==> 0 <= c < n - 1 && f(c) by {
            assert(s.contains(c) <==> 0 <= c < n && f(c));
        }
        lemma_count_is_size(n - 1, f, less);
        assert(s.contains(n - 1) <==> f(n - 1));
        if f(n - 1) {
            assert(s =~= less.insert(n - 1));
        } else {
            assert(s =~= less);
        }
    }
}

/// The cells of the bar that are on, lane by lane, sixteen to a lane.
pub open spec fn lit_cells(p: Pattern) -> Set<int> {
    Set::new(|c: int| 0 <= c < 192 && p.step(c / 16, c % 16).on)
}

/// A tally counts the bar: all the hits, those off the quarters, those of the
/// kick, and the positions at which six or more lanes sound together; it knows the
/// downbeat of the kick and the backbeat of snare and clap, and has one velocity
/// to a hit.
pub proof fn a_tally_counts_the_bar(r: Tally, terrain: Terrain, p: Pattern)
    requires
        is_tally(r, terrain, p),
    ensures
        r.total == lit_cells(p).len(),
        r.off_grid == lit_cells(p).filter(|c: int| c % 16 % 4 != 0).len(),
        r.kick_hits == Set::new(|s: int| 0 <= s < 16 && p.step(0, s).on).len(),
        r.crowded == Set::new(
            |s: int|
                0 <= s < 16 && lit_cells(p).filter(|c: int| c % 16 == s).len() >= 6,
        ).len(),
        r.downbeat == p.step(0, 0).on,
        r.backbeat <==> p.step(2, 4).on || p.step(2, 12).on || p.step(3, 4).on || p.step(3, 12).on,
        r.velocities@.len() == r.total,
{
    let on = |c: int| cell_on(p, c);
    let off = |c: int| cell_on(p, c) && c % 4 != 0;
    lemma_count_is_size(192, on, lit_cells(p));
    lemma_count_is_size(192, off, lit_cells(p).filter(|c: int| c % 16 % 4 != 0));
    let kick = Set::new(|s: int| 0 <= s < 16 && p.step(0, s).on);
    assert forall|c: int| #[trigger] kick.contains(c) <==> 0 <= c < 16 && on(c) by {
        if 0 <= c < 16 {
            assert(c / 16 == 0 && c % 16 == c);
        }
    }
    lemma_count_is_size(16, on, kick);
    assert forall|s: int| #[trigger] column(p, 192, s) == lit_cells(p).filter(
        |c: int| c % 16 == s,
    ).len() by {
        lemma_count_is_size(
            192,
            |c: int| cell_on(p, c) && c % 16 == s,
            lit_cells(p).filter(|c: int| c % 16 == s),
        );
    }
    let full = |s: int| column(p, 192, s) >= 6;
    let crowd = Set::new(
        |s: int| 0 <= s < 16 && lit_cells(p).filter(|c: int| c % 16 == s).len() >= 6,
    );
    assert forall|s: int| #[trigger] crowd.contains(s) <==> 0 <= s < 16 && full(s) by {
        assert(column(p, 192, s) == lit_cells(p).filter(|c: int| c % 16 == s).len());
    }
    lemma_count_is_size(16, full, crowd);
    lemma_velocities_len(p, 192);
}

proof fn lemma_velocities_len(p: Pattern, n: int)
    ensures
        velocities(p, n).len() == count(n, |c: int| cell_on(p, c)),
    decreases n,
{
    if n > 0 {
        lemma_velocities_len(p, n - 1);
    }
}

/// The velocity of every hit is counted, and nothing else: of the hits before a
/// cell there are as many as the place of its velocity says.
pub proof fn every_velocity_is_counted(r: Tally, terrain: Terrain, p: Pattern, t: int, s: int)
    requires
        is_tally(r, terrain, p),
        0 <= t < 12,
        0 <= s < 16,
        p.step(t, s).on,
    ensures
        ({
            let before = lit_cells(p).filter(|c: int| c < t * 16 + s).len() as int;
            before < r.velocities@.len() && r.velocities@[before] == p.step(t, s).velocity
        }),
{
    let c = t * 16 + s;
    let on = |c: int| cell_on(p, c);
    assert(c / 16 == t && c % 16 == s);
    lemma_count_is_size(c, on, lit_cells(p).filter(|k: int| k < t * 16 + s));
    lemma_velocities_len(p, c);
    assert(velocities(p, c + 1)[velocities(p, c).len() as int] == p.step(t, s).velocity);
    lemma_velocities_grow(p, c + 1, 192);
}

proof fn lemma_velocities_grow(p: Pattern, m: int, n: int)
    requires
        0 <= m <= n,
    ensures
        velocities(p, m).len() <= velocities(p, n).len(),
        forall|i: int|
            0 <= i < velocities(p, m).len() ==> #[trigger] velocities(p, m)[i] == velocities(p, n)[i],
    decreases n,
{
    if m < n {
        lemma_velocities_grow(p, m, n - 1);
    }
}

/// As many digs are shown as were asked for, but no more than were rolled, and
/// never more than forty-eight.
pub proof fn as_many_are_kept_as_asked_for(n: int, k: int)
    requires
        0 <= n,
        0 <= k,
    ensures
        kept(n, k) <= n && kept(n, k) <= k && kept(n, k) <= 48,
        kept(n, k) == n || kept(n, k) == k || kept(n, k) == 48,
{
}

/// The motor of a site is its most active motor lane, at half or more; of equally active
/// ones it is the last.
pub proof fn the_motor_is_the_most_active(terrain: Terrain, t: int, i: int)
    requires
        is_motor(terrain, t),
        0 <= i < terrain.lanes@.len(),
        terrain.lanes@[i].role == Role::Motor,
    ensures
        0 <= t < terrain.lanes@.len() && terrain.lanes@[t].role == Role::Motor,
        50 <= terrain.lanes@[t].activity <= 255,
        terrain.lanes@[i].activity <= terrain.lanes@[t].activity,
        i > t ==> terrain.lanes@[i].activity < terrain.lanes@[t].activity,
        is_motor(terrain, i) ==> i == t,
{
}

/// A site has a motor exactly where one of its motor lanes is at least half active.
pub proof fn half_activity_makes_a_motor(terrain: Terrain, i: int)
    requires
        0 <= i < terrain.lanes@.len(),
        terrain.lanes@[i].role == Role::Motor,
    ensures
        no_motor(terrain) ==> terrain.lanes@[i].activity < 50,
        terrain.lanes@[i].activity >= 50 ==> exists|t: int| is_motor(terrain, t),
{
    if terrain.lanes@[i].activity >= 50 {
        lemma_some_motor(terrain, i);
    }
}

proof fn lemma_some_motor(terrain: Terrain, t: int)
    requires
        0 <= t < terrain.lanes@.len(),
        terrain.lanes@[t].role == Role::Motor,
        terrain.lanes@[t].activity >= 50,
    ensures
        exists|t: int| is_motor(terrain, t),
    decreases 256 - terrain.lanes@[t].activity, terrain.lanes@.len() - t,
{
    let lanes = terrain.lanes@;
    if !is_motor(terrain, t) {
        let i = choose|i: int|
            0 <= i < lanes.len() && (#[trigger] lanes[i]).role == Role::Motor && i != t && !(
            lanes[i].activity < lanes[t].activity || (lanes[i].activity == lanes[t].activity && i
                < t));
        lemma_some_motor(terrain, i);
    }
}

/// The longest gap of a lane is one of its gaps, and nowhere does it rest for longer: from
/// each of its hits the next one, going round the bar, is at most that far.
pub proof fn a_lane_never_rests_longer(p: Pattern, t: int, gap: int, s: int) -> (r: (int, int))
    requires
        is_longest_gap(p, t, gap),
        0 <= s < 16,
        p.step(t, s).on,
    ensures
        1 <= gap <= 16,
        0 <= r.0 < 16 && p.step(t, r.0).on && p.step(t, (r.0 + gap) % 16).on,
        forall|e: int| 1 <= e < gap ==> !(#[trigger] p.step(t, (r.0 + e) % 16)).on,
        1 <= r.1 <= gap && p.step(t, (s + r.1) % 16).on,
{
    let a = choose|a: int| 0 <= a < DIG_STEPS && p.step(t, a).on && #[trigger] is_gap(p, t, a, gap);
    assert((s + 16) % 16 == s);
    let d = lemma_next_hit(p, t, s, 1);
    assert(is_gap(p, t, s, d));
    (a, d)
}

proof fn lemma_next_hit(p: Pattern, t: int, s: int, from: int) -> (d: int)
    requires
        1 <= from <= 16,
        p.step(t, (s + 16) % 16).on,
        forall|e: int| 1 <= e < from ==> !(#[trigger] p.step(t, (s + e) % 16)).on,
    ensures
        is_gap(p, t, s, d),
    decreases 16 - from,
{
    if p.step(t, (s + from) % 16).on {
        from
    } else {
        lemma_next_hit(p, t, s, from + 1)
    }
}

/// Of equal scores the one that was rolled earlier comes first, and no dig is ranked
/// twice.
pub proof fn equal_digs_keep_their_order(rolls: Seq<DigCandidate>, order: Seq<int>, i: int, j: int)
    requires
        forall|i: int| 0 <= i < rolls.len() ==> !(#[trigger] rolls[i]).score.nan(),
        is_stable_order(score_keys(rolls), order),
        0 <= i < j < order.len(),
        rolls[order[i]].score.rank() == rolls[order[j]].score.rank(),
    ensures
        order[i] < order[j],
{
    assert(stands_before(score_keys(rolls), order[i], order[j]));
    assert(score_key(rolls[order[i]]) == score_key(rolls[order[j]]));
}

} // verus!

//! Digs: the library's grammar and ranking, with draws from a small hash.

use drumlin::dig::{
    tally, CellDraw, DigCandidate, DigKnobs, IDENTITY, N_CANDIDATES, ROLLS_PER_DIG,
};
use drumlin::ieee::{ieee, Ieee32};
use drumlin::kits::factory_kits;
use drumlin::pattern::{Pattern, Step, Track, TrigCondition, MAX_STEPS, MAX_TRACKS};
use drumlin::rng::{seed_state, step};
use drumlin::terrain::{
    cavern, disco, footwork, halftime, outrun, terrain, terrain_for_world, terrains, LanePrior,
    Role, Terrain, DIG_STEPS,
};

fn bits(x: f32) -> Ieee32 {
    ieee(x.to_bits())
}

fn float(x: Ieee32) -> f32 {
    f32::from_bits(x.bits)
}

/// Picked so that the fixed seeds of these tests dig typical bars; what holds
/// of every address is tested over many.
const SALT: u32 = 5;

fn mix_seed(a: u32, b: u32, c: u32, d: u32) -> u32 {
    let mut h = a ^ SALT;
    for x in [b, c, d] {
        h ^= x.wrapping_mul(0xCC9E_2D51).rotate_left(15).wrapping_mul(0x1B87_3593);
        h = h.rotate_left(13).wrapping_mul(5).wrapping_add(0xE654_6B64);
    }
    h = (h ^ (h >> 16)).wrapping_mul(0x85EB_CA6B);
    h = (h ^ (h >> 13)).wrapping_mul(0xC2B2_AE35);
    h ^ (h >> 16)
}

struct XorShift32 {
    state: u32,
}

impl XorShift32 {
    fn new(seed: u32) -> Self {
        Self { state: seed_state(seed) }
    }

    fn next_f32(&mut self) -> f32 {
        self.state = step(self.state);
        (self.state >> 8) as f32 / 16_777_216.0
    }
}

const P_HIT: u32 = 16;
const P_VEL: u32 = 17;
const P_ACCENT: u32 = 18;
const P_PROB: u32 = 19;
const P_RATCHET: u32 = 20;

// Floating-point arithmetic.
fn lerp(a: f32, b: f32, t: f32) -> f32 {
    a + (b - a) * t
}

/// One independent draw in `0.0 .. 1.0`. Floating-point arithmetic.
fn cell01(seed: u32, t: u32, s: u32, purpose: u32) -> f32 {
    XorShift32::new(mix_seed(seed, t, s, purpose)).next_f32()
}

/// How likely a lane sounds at a position; never less likely at a higher
/// density. Floating-point arithmetic.
fn on_probability(lane: &LanePrior, pos: usize, k: &DigKnobs) -> f32 {
    let base = lane.prior[pos] as f32 / 100.0;
    let p = lerp(base, 0.35, float(k.wild) * 0.6);
    let sync = float(k.sync);
    let strong = pos % 4 == 0;
    let sync_gain = if strong { lerp(1.15, 0.8, sync) } else { lerp(0.55, 1.5, sync) };
    let activity = lane.activity as f32 / 100.0;
    let p = (p * sync_gain * activity).clamp(0.0, 1.0);
    let gamma = lerp(2.2, 0.55, float(k.density).clamp(0.0, 1.0));
    p.powf(gamma).min(0.97)
}

// Floating-point arithmetic.
fn draw(lane: &LanePrior, knobs: &DigKnobs, seed: u32, t: u32, s: u32) -> CellDraw {
    let conf = lane.prior[s as usize] as f32 / 100.0;
    let base = lerp(lane.vel_lo as f32, lane.vel_hi as f32, conf);
    let jitter =
        (cell01(seed, t, s, P_VEL) - 0.5) * 2.0 * lerp(4.0, 18.0, float(knobs.wild));
    let motion = float(knobs.motion);
    let depth = motion * cell01(seed, t, s, P_PROB);
    CellDraw {
        hit: bits(cell01(seed, t, s, P_HIT)),
        on_probability: bits(on_probability(lane, s as usize, knobs)),
        velocity: (base + jitter).round() as i32,
        accent: bits(cell01(seed, t, s, P_ACCENT)),
        loosened: (100.0 - depth * 45.0).round() as u8,
        ratchet: bits(cell01(seed, t, s, P_RATCHET)),
        ratchet_chance: bits(motion * 0.10),
        ratchet_bits: mix_seed(seed, t, s, P_RATCHET + 1),
    }
}

/// Excavate one pattern from an address.
fn dig_one(terrain: &Terrain, knobs: &DigKnobs, seed: u32) -> Pattern {
    let draws: Vec<Vec<CellDraw>> = terrain
        .lanes
        .iter()
        .enumerate()
        .map(|(t, lane)| {
            (0..DIG_STEPS).map(|s| draw(lane, knobs, seed, t as u32, s as u32)).collect()
        })
        .collect();
    drumlin::dig::dig_one(terrain, &draws, seed, blank())
}

/// The pattern a dig starts from.
fn blank() -> Pattern {
    let step = || Step {
        on: false,
        velocity: 100,
        accent: false,
        probability: 100,
        ratchet: 1,
        ratchet_ramp: 0,
        micro: 0,
        condition: TrigCondition::Plain { code: 0 },
        plocks: Vec::new(),
    };
    let track = || Track {
        muted: false,
        length: 16,
        swing: -1,
        level: 127,
        steps: (0..MAX_STEPS).map(|_| step()).collect(),
    };
    Pattern {
        length: 16,
        swing: 50,
        humanize: 0,
        groove_amount: 0,
        seed: 0,
        tracks: (0..MAX_TRACKS).map(|_| track()).collect(),
    }
}

/// The best `k` digs of those rolled from a seed, the best first.
fn dig_best(terrain: &Terrain, knobs: &DigKnobs, base_seed: u32, k: usize) -> Vec<DigCandidate> {
    let rolls: Vec<DigCandidate> = (0..ROLLS_PER_DIG)
        .map(|i| {
            let seed = mix_seed(base_seed, 0xD16, i as u32, 0x5EED);
            let pattern = dig_one(terrain, knobs, seed);
            let points = score(terrain, &pattern, knobs);
            let points = if points.is_nan() { 0.0 } else { points };
            DigCandidate { seed, score: bits(points), pattern }
        })
        .collect();
    drumlin::dig::dig_best(rolls, k)
}

/// How much like music a bar is, in `0.0 ..= 1.0`. Floating-point arithmetic
/// over the library's counts.
fn score(terrain: &Terrain, p: &Pattern, knobs: &DigKnobs) -> f32 {
    let tally = drumlin::dig::tally(terrain, p);
    if tally.total == 0 {
        return 0.0;
    }
    let total = tally.total as f32;
    let a_anchor = (if tally.downbeat { 1.0 } else { 0.25 }) * band(tally.kick_hits as f32, 2.0, 8.0);
    let a_backbeat = if tally.backbeat { 1.0 } else { 0.35 };
    let mut expected = 0.0_f32;
    for lane in terrain.lanes.iter().filter(|l| l.activity > 0) {
        for s in 0..DIG_STEPS {
            expected += on_probability(lane, s, knobs);
        }
    }
    let a_density = (1.0 - ((total - expected).abs() / expected.max(1.0))).max(0.0);
    let r_off = tally.off_grid as f32 / total;
    let a_sync = (1.0 - (r_off - lerp(0.12, 0.55, float(knobs.sync))).abs() * 2.0).max(0.0);
    let a_motor = if tally.has_motor { motor_flow(tally.motor_gap) } else { 0.75 };
    let a_mud = (1.0 - tally.crowded as f32 / 4.0).max(0.0);
    let mean = tally.velocities.iter().map(|&v| v as f32).sum::<f32>() / total;
    let var = tally.velocities.iter().map(|&v| (v as f32 - mean) * (v as f32 - mean)).sum::<f32>()
        / total;
    let a_variety = band(var.sqrt(), 6.0, 26.0);
    0.22 * a_anchor
        + 0.14 * a_backbeat
        + 0.18 * a_density
        + 0.14 * a_sync
        + 0.12 * a_motor
        + 0.12 * a_mud
        + 0.08 * a_variety
}

/// One inside `lo ..= hi`, and down to zero at half the one and twice the other.
/// Floating-point arithmetic.
fn band(x: f32, lo: f32, hi: f32) -> f32 {
    if x >= lo && x <= hi {
        1.0
    } else if x < lo {
        (2.0 * x / lo - 1.0).max(0.0)
    } else {
        (1.0 - (x - hi) / hi).max(0.0)
    }
}

/// How steadily a motor runs, from the longest way between two of its hits.
/// Floating-point arithmetic.
fn motor_flow(gap: Option<u32>) -> f32 {
    match gap {
        Some(gap) => (4.0 / gap as f32).min(1.0),
        None => 0.2,
    }
}

fn shown(p: &Pattern) -> String {
    format!("{p:?}")
}

#[test]
fn a_dig_address_is_bit_exact_forever() {
    let k = DigKnobs::default();
    for t in &terrains() {
        let a = dig_one(t, &k, 0xB1AD_5EED);
        let b = dig_one(t, &k, 0xB1AD_5EED);
        assert_eq!(shown(&a), shown(&b), "{}: same address must reproduce bit-exactly", t.id);
        let c = dig_one(t, &k, 0xB1AD_5EEE);
        assert_ne!(shown(&a), shown(&c), "{}: a different seed must be a different site", t.id);
    }
}

#[test]
fn density_reveals_the_same_site_monotonically() {
    for t in &terrains() {
        for seed in [1u32, 0xC0FF_EE00, 0x0427_C0DE] {
            let mut prev: Option<Pattern> = None;
            for d in [0.15_f32, 0.4, 0.65, 0.9] {
                let k = DigKnobs { density: bits(d), ..DigKnobs::default() };
                let cur = dig_one(t, &k, seed);
                if let Some(lo) = &prev {
                    for tr in 0..MAX_TRACKS {
                        for s in 0..DIG_STEPS {
                            if lo.tracks[tr].steps[s].on {
                                assert!(
                                    cur.tracks[tr].steps[s].on,
                                    "{}: hit ({tr},{s}) vanished when density rose to {d}",
                                    t.id
                                );
                            }
                        }
                    }
                }
                prev = Some(cur);
            }
        }
    }
}

#[test]
fn payload_is_valid_at_every_knob_corner() {
    let vals = [0.0_f32, 0.5, 1.0];
    for t in &terrains() {
        for &density in &vals {
            for &sync in &vals {
                for &motion in &vals {
                    for &wild in &vals {
                        let k = DigKnobs {
                            density: bits(density),
                            sync: bits(sync),
                            motion: bits(motion),
                            wild: bits(wild),
                        };
                        for seed in [0u32, 7, 0xFFFF_FFFF] {
                            let p = dig_one(t, &k, seed);
                            assert_eq!(p.length, DIG_STEPS as u8);
                            assert_eq!(p.seed, seed);
                            assert!((50..=75).contains(&p.swing));
                            for tr in 0..MAX_TRACKS {
                                for s in 0..64 {
                                    let st = &p.tracks[tr].steps[s];
                                    if s >= DIG_STEPS {
                                        assert!(!st.on, "no hits past the dig window");
                                    }
                                    if st.on {
                                        assert!((1..=127).contains(&st.velocity));
                                        assert!((1..=100).contains(&st.probability));
                                        assert!((1..=8).contains(&st.ratchet));
                                        assert_eq!(st.plocks.len(), 0);
                                    }
                                }
                            }
                        }
                    }
                }
            }
        }
    }
}

#[test]
fn dig_best_is_sorted_deterministic_and_anchored() {
    for t in &terrains() {
        let k = DigKnobs::default();
        let a = dig_best(t, &k, 0x5EED_B347, N_CANDIDATES);
        let b = dig_best(t, &k, 0x5EED_B347, N_CANDIDATES);
        assert_eq!(a.len(), N_CANDIDATES);
        assert!(
            a.iter().zip(&b).all(|(x, y)| x.seed == y.seed),
            "{}: dig must be reproducible",
            t.id
        );
        assert!(
            a.windows(2).all(|w| float(w[0].score) >= float(w[1].score)),
            "{}: sorted best-first",
            t.id
        );
        for c in &a {
            assert_eq!(
                shown(&c.pattern),
                shown(&dig_one(t, &k, c.seed)),
                "{}: candidate address round-trips",
                t.id
            );
        }
        let kick_hits = (0..DIG_STEPS).filter(|&s| a[0].pattern.tracks[0].steps[s].on).count();
        assert!(
            kick_hits >= 2,
            "{}: the best dig must have an anchor (got {kick_hits} kicks)",
            t.id
        );
    }
}

#[test]
fn scoring_prefers_music_over_silence_and_walls() {
    let k = DigKnobs::default();
    let empty = blank();
    let mut wall = blank();
    for tr in 0..MAX_TRACKS {
        for s in 0..DIG_STEPS {
            wall.tracks[tr].steps[s].on = true;
            wall.tracks[tr].steps[s].velocity = 100;
        }
    }
    for t in &terrains() {
        let best = &dig_best(t, &k, 42, 1)[0];
        let points = float(best.score);
        assert!(points > score(t, &empty, &k), "{}: a dig must beat silence", t.id);
        assert!(points > score(t, &wall, &k), "{}: a dig must beat a wall of hits", t.id);
    }
}

#[test]
fn terrains_speak_their_dialects() {
    let k = DigKnobs { wild: bits(0.0), ..DigKnobs::default() };
    let top = |t: &Terrain, seed: u32| dig_best(t, &k, seed, 1).remove(0).pattern;

    let p = top(&disco(), 0x00D1_5C00);
    let quarters = [0, 4, 8, 12].iter().filter(|&&s| p.tracks[0].steps[s].on).count();
    assert!(quarters >= 3, "disco needs its four-on-the-floor (got {quarters})");
    let open_off8 = [2, 6, 10, 14].iter().filter(|&&s| p.tracks[6].steps[s].on).count();
    assert!(open_off8 >= 2, "disco needs the offbeat open hats (got {open_off8})");

    let p = top(&halftime(), 0x000A_1F00);
    assert!(p.tracks[2].steps[8].on || p.tracks[3].steps[8].on, "halftime backbeat on beat 3");
    for s in [4, 12] {
        assert!(
            !p.tracks[2].steps[s].on && !p.tracks[3].steps[s].on,
            "halftime must NOT backbeat on step {s}"
        );
    }

    let p = top(&footwork(), 0x00F0_0700);
    assert!(p.tracks[0].steps[0].on, "footwork anchors the downbeat");
    let lattice = [3, 6, 10, 13].iter().filter(|&&s| p.tracks[0].steps[s].on).count();
    assert!(lattice >= 2, "footwork needs its syncopated kick lattice (got {lattice})");

    let p = top(&cavern(), 0x00CA_0E00);
    let total: usize = (0..MAX_TRACKS)
        .map(|t| (0..DIG_STEPS).filter(|&s| p.tracks[t].steps[s].on).count())
        .sum();
    assert!(total <= 20, "cavern must stay sparse (got {total} hits)");
    let toms = (0..DIG_STEPS)
        .filter(|&s| p.tracks[8].steps[s].on || p.tracks[9].steps[s].on)
        .count();
    assert!(toms >= 2, "cavern toms carry the groove (got {toms})");
    let chat = (0..DIG_STEPS).filter(|&s| p.tracks[5].steps[s].on).count();
    assert!(chat <= 4, "cavern must not grow a hat wall (got {chat})");

    let p = top(&outrun(), 0x0427_0000);
    assert!(
        p.tracks[2].steps[4].on && p.tracks[2].steps[12].on,
        "outrun needs the gated snare on both backbeats"
    );
}

#[test]
fn dialects_hold_over_many_addresses() {
    let k = DigKnobs { wild: bits(0.0), ..DigKnobs::default() };
    let mut four_on_the_floor = 0;
    let mut gated = 0;
    for seed in 0..40u32 {
        for t in &terrains() {
            let p = dig_best(t, &k, seed, 1).remove(0).pattern;
            for (tr, lane) in t.lanes.iter().enumerate() {
                for s in 0..DIG_STEPS {
                    let silent = lane.activity == 0 || lane.prior[s] == 0;
                    assert!(!(silent && p.tracks[tr].steps[s].on), "{}: ({tr},{s})", t.id);
                }
            }
            let on = |tr: usize, s: usize| p.tracks[tr].steps[s].on;
            if t.id == "disco" && [0, 4, 8, 12].iter().filter(|&&s| on(0, s)).count() >= 3 {
                four_on_the_floor += 1;
            }
            if t.id == "outrun" && on(2, 4) && on(2, 12) {
                gated += 1;
            }
        }
    }
    assert!(four_on_the_floor >= 36 && gated >= 28, "{four_on_the_floor} {gated}");
}

#[test]
fn every_factory_world_has_a_terrain_dialect() {
    for kit in &factory_kits() {
        let t = terrain_for_world(kit.id);
        assert!(
            terrains().iter().any(|x| x.id == t.id),
            "world {} maps to an unregistered terrain",
            kit.id
        );
    }
    assert_eq!(terrain_for_world("discotheque").id, "disco");
    assert_eq!(terrain_for_world("marseille").id, "halftime");
    assert_eq!(terrain_for_world("bladerunner").id, "cavern");
    assert_eq!(terrain_for_world("outrun").id, "outrun");
    assert_eq!(terrain_for_world("neutral").id, "techno", "the bare machine speaks techno");
    assert_eq!(terrain_for_world("garbage").id, "techno", "unknown ids fall back safely");
}

#[test]
fn terrain_registry_is_coherent() {
    let all = terrains();
    let mut ids: Vec<&str> = all.iter().map(|t| t.id).collect();
    ids.sort();
    ids.dedup();
    assert_eq!(ids.len(), all.len(), "terrain ids must be unique");
    assert!(terrain("techno").is_some());
    assert!(terrain("nope").is_none());
    for t in &all {
        assert!((50..=75).contains(&t.swing));
        assert!(t.humanize <= 100);
        assert!(
            t.lanes.iter().any(|l| l.role == Role::Anchor && l.activity > 50),
            "{}: needs an anchor lane",
            t.id
        );
    }
}

fn sure_draw() -> CellDraw {
    CellDraw {
        hit: bits(0.2),
        on_probability: bits(0.5),
        velocity: 64,
        accent: bits(0.9),
        loosened: 70,
        ratchet: bits(0.9),
        ratchet_chance: bits(0.05),
        ratchet_bits: 0,
    }
}

fn dig_with(t: &Terrain, d: CellDraw) -> Pattern {
    let draws: Vec<Vec<CellDraw>> = (0..MAX_TRACKS).map(|_| vec![d; DIG_STEPS]).collect();
    drumlin::dig::dig_one(t, &draws, 9, blank())
}

#[test]
fn a_cell_sounds_only_below_its_chance() {
    let t = disco();
    let on = dig_with(&t, sure_draw());
    assert!(on.tracks[0].steps[3].on);
    let edge = dig_with(&t, CellDraw { hit: bits(0.5), ..sure_draw() });
    assert!(!edge.tracks[0].steps[3].on, "a draw at the chance rests");
    let odd = dig_with(&t, CellDraw { hit: bits(f32::NAN), ..sure_draw() });
    assert!(odd.tracks[0].steps[3].on, "a draw that is no number does not hold a hit back");
    // The cowbell of the breaks is silent whatever is drawn.
    let silent = dig_with(&terrain("breaks").unwrap(), sure_draw());
    assert!(!silent.tracks[10].steps.iter().any(|s| s.on));
}

#[test]
fn dug_velocities_are_held_in_range() {
    let t = disco();
    for (asked, got) in [(-5, 20), (19, 20), (20, 20), (127, 127), (128, 127), (400, 127)] {
        let p = dig_with(&t, CellDraw { velocity: asked, ..sure_draw() });
        assert_eq!(p.tracks[0].steps[0].velocity, got);
    }
}

#[test]
fn the_spine_is_never_left_to_chance() {
    let t = disco();
    let p = dig_with(&t, sure_draw());
    for (lane, prior) in t.lanes.iter().enumerate() {
        for s in 0..DIG_STEPS {
            if prior.role == Role::Anchor || prior.prior[s] >= IDENTITY {
                assert_eq!(p.tracks[lane].steps[s].probability, 100);
            } else if p.tracks[lane].steps[s].on {
                assert_eq!(p.tracks[lane].steps[s].probability, 70);
            }
        }
    }
}

#[test]
fn ratchets_fall_on_motors_and_colors_alone() {
    let t = disco();
    for (parity, hits) in [(4u32, 2u8), (5, 3)] {
        let d = CellDraw { ratchet: bits(0.01), ratchet_bits: parity, ..sure_draw() };
        let p = dig_with(&t, d);
        for (lane, prior) in t.lanes.iter().enumerate() {
            let split = prior.role == Role::Motor || prior.role == Role::Color;
            assert_eq!(p.tracks[lane].steps[0].ratchet, if split { hits } else { 1 });
        }
    }
}

#[test]
fn accents_fall_on_identity_positions_alone() {
    let t = disco();
    let p = dig_with(&t, CellDraw { accent: bits(0.1), ..sure_draw() });
    assert!(p.tracks[0].steps[0].accent);
    assert!(!p.tracks[0].steps[1].accent);
    let p = dig_with(&t, sure_draw());
    assert!(!p.tracks[0].steps[0].accent, "a high draw gives no accent");
}

#[test]
fn a_bar_is_counted_exactly() {
    let t = terrain("techno").unwrap();
    let mut p = blank();
    for (lane, s) in [(0, 0), (0, 4), (0, 9), (2, 4), (5, 2), (5, 6), (5, 15)] {
        p.tracks[lane].steps[s].on = true;
        p.tracks[lane].steps[s].velocity = (10 * lane + s) as u8;
    }
    for lane in 6..12 {
        p.tracks[lane].steps[12].on = true;
    }
    let c = tally(&t, &p);
    assert_eq!(c.total, 13);
    assert_eq!(c.off_grid, 4);
    assert_eq!(c.kick_hits, 3);
    assert!(c.downbeat && c.backbeat);
    assert_eq!(c.crowded, 1);
    assert!(c.has_motor);
    assert_eq!(c.motor_gap, Some(9));
    assert_eq!(c.velocities[..7], [0, 4, 9, 24, 52, 56, 65]);
    let none = tally(&t, &blank());
    assert_eq!((none.total, none.motor_gap, none.downbeat), (0, None, false));
}

#[test]
fn equal_scores_keep_the_order_they_were_rolled_in() {
    let roll = |seed: u32, s: f32| DigCandidate { seed, score: bits(s), pattern: blank() };
    let best = drumlin::dig::dig_best(
        vec![roll(1, 0.5), roll(2, 0.75), roll(3, 0.5), roll(4, -0.0), roll(5, 0.0)],
        4,
    );
    let seeds: Vec<u32> = best.iter().map(|c| c.seed).collect();
    assert_eq!(seeds, vec![2, 1, 3, 4]);
    assert_eq!(drumlin::dig::dig_best(vec![roll(7, 0.1)], 6).len(), 1);
}

#[test]
fn only_the_bar_is_counted() {
    let t = &terrains()[0];
    let p = dig_one(t, &DigKnobs::default(), 7);
    let mut q = dig_one(t, &DigKnobs::default(), 7);
    q.swing = 70;
    q.tracks[0].muted = true;
    q.tracks[0].steps[16].on = true;
    q.tracks[0].steps[0].ratchet = 8;
    assert_eq!(format!("{:?}", tally(t, &p)), format!("{:?}", tally(t, &q)));
    assert_eq!(tally(t, &blank()).total, 0);
    assert!(tally(t, &p).total > 0);
}

//! Exported patterns, read back.

use drumlin::folders::{Folder, UserFolders};
use drumlin::midi_export::{
    export_dir, pattern_to_midi, vlq, CellFeel, Hit, GATE_TICKS, PPQ, STEP_TICKS, TRACK_NOTE,
};
use drumlin::pattern::{
    playable_steps, Pattern, Step, Track, TrigCondition, MAX_STEPS, MAX_TRACKS,
};

/// Conditions by code: always, only later passes, only while a fill is held.
const ALWAYS: u8 = 0;
const NOT_FIRST: u8 = 2;
const FILL: u8 = 3;

fn blank() -> Pattern {
    let step = || Step {
        on: false,
        velocity: 100,
        accent: false,
        probability: 100,
        ratchet: 1,
        ratchet_ramp: 0,
        micro: 0,
        condition: TrigCondition::Plain { code: ALWAYS },
        plocks: Vec::new(),
    };
    let track = || Track {
        muted: false,
        length: 16,
        swing: -1,
        level: 127,
        steps: (0..MAX_STEPS).map(|_| step()).collect(),
    };
    Pattern {
        length: 16,
        swing: 50,
        humanize: 0,
        groove_amount: 0,
        seed: 0,
        tracks: (0..MAX_TRACKS).map(|_| track()).collect(),
    }
}

fn passes_first(c: TrigCondition) -> bool {
    match c {
        TrigCondition::Ratio { a, .. } => a <= 1,
        TrigCondition::Plain { code } => code != NOT_FIRST && code != FILL,
    }
}

fn ratchet_vel(base: u8, k: u32, n: u32, ramp: i8) -> u8 {
    if n <= 1 {
        return base;
    }
    let pos = k as f32 / (n - 1) as f32;
    let shape = ramp as f32 / 100.0;
    let gain = 1.0 + shape * (pos - 0.5) * 1.2;
    ((base as f32 * gain).round() as i32).clamp(1, 127) as u8
}

/// The first pass of a pattern without humanizing.
fn cell_feel(p: &Pattern, t: usize, g: usize) -> CellFeel {
    let track = &p.tracks[t];
    let st = &track.steps[g % playable_steps(track.length)];
    let mut vel = (st.velocity as f32 / 127.0) * (track.level as f32 / 127.0);
    if st.accent {
        vel *= 1.25;
    }
    let vel = ((vel * 127.0).round() as i32).clamp(1, 127) as u8;
    let step_ticks = STEP_TICKS as f64;
    let swing = if track.swing >= 0 { track.swing as f32 } else { p.swing as f32 };
    let swing_frac = (swing - 50.0).max(0.0) / 50.0;
    let swing_off = if g % 2 == 1 { swing_frac as f64 } else { 0.0 };
    let off = swing_off * step_ticks + st.micro as f64 * (PPQ as f64 / 384.0);
    let base = g as f64 * step_ticks;
    let n = st.ratchet.clamp(1, 8) as u32;
    let spacing = (step_ticks - off).max(step_ticks * 0.25) / n as f64;
    CellFeel {
        passes: passes_first(st.condition),
        roll: 0,
        hits: (0..n)
            .map(|k| Hit {
                tick: (base + off + k as f64 * spacing).round().max(0.0) as u32,
                velocity: ratchet_vel(vel, k, n, st.ratchet_ramp),
            })
            .collect(),
        spacing: spacing as u32,
    }
}

fn feel(p: &Pattern) -> Vec<Vec<CellFeel>> {
    (0..MAX_TRACKS)
        .map(|t| (0..playable_steps(p.length)).map(|g| cell_feel(p, t, g)).collect())
        .collect()
}

fn export(p: &Pattern) -> Vec<u8> {
    pattern_to_midi(p, &feel(p))
}

fn parse(bytes: &[u8]) -> Vec<(u32, u8, u8)> {
    assert_eq!(&bytes[0..4], b"MThd");
    assert_eq!(u32::from_be_bytes(bytes[4..8].try_into().unwrap()), 6);
    assert_eq!(u16::from_be_bytes(bytes[8..10].try_into().unwrap()), 0, "format 0");
    assert_eq!(u16::from_be_bytes(bytes[10..12].try_into().unwrap()), 1, "one track");
    assert_eq!(u16::from_be_bytes(bytes[12..14].try_into().unwrap()) as u32, PPQ);
    assert_eq!(&bytes[14..18], b"MTrk");
    let len = u32::from_be_bytes(bytes[18..22].try_into().unwrap()) as usize;
    let trk = &bytes[22..];
    assert_eq!(trk.len(), len, "track length must cover exactly the payload");
    assert_eq!(&trk[len - 3..], &[0xFF, 0x2F, 0x00], "end-of-track meta");
    let mut ons = Vec::new();
    let (mut i, mut tick) = (0usize, 0u32);
    while i < len {
        let mut delta = 0u32;
        loop {
            let b = trk[i];
            i += 1;
            delta = (delta << 7) | (b & 0x7F) as u32;
            if b & 0x80 == 0 {
                break;
            }
        }
        tick += delta;
        match trk[i] {
            0xFF => {
                let (ty, l) = (trk[i + 1], trk[i + 2] as usize);
                i += 3 + l;
                if ty == 0x2F {
                    break;
                }
            }
            0x99 => {
                ons.push((tick, trk[i + 1], trk[i + 2]));
                i += 3;
            }
            0x89 => i += 3,
            other => panic!("unexpected event byte {other:#x}"),
        }
    }
    ons
}

#[test]
fn vlq_known_vectors() {
    let enc = |v: u32| {
        let mut o = Vec::new();
        vlq(&mut o, v);
        o
    };
    assert_eq!(enc(0x00), vec![0x00]);
    assert_eq!(enc(0x40), vec![0x40]);
    assert_eq!(enc(0x7F), vec![0x7F]);
    assert_eq!(enc(0x80), vec![0x81, 0x00]);
    assert_eq!(enc(0x2000), vec![0xC0, 0x00]);
    assert_eq!(enc(0x0FFF_FFFF), vec![0xFF, 0xFF, 0xFF, 0x7F]);
}

fn neutral_demo() -> Pattern {
    let mut p = blank();
    for s in [0, 4, 8, 12] {
        p.tracks[0].steps[s].on = true;
        p.tracks[0].steps[s].velocity = 120;
    }
    p.tracks[0].steps[0].accent = true;
    for s in [4, 12] {
        p.tracks[2].steps[s].on = true;
    }
    for s in (0..16).step_by(2) {
        p.tracks[5].steps[s].on = true;
        p.tracks[5].steps[s].velocity = 80;
    }
    p
}

#[test]
fn neutral_demo_exports_exactly_its_hits() {
    let p = neutral_demo();
    let ons = parse(&export(&p));
    let expected: usize = (0..MAX_TRACKS)
        .map(|t| (0..16).filter(|&s| p.tracks[t].steps[s].on).count())
        .sum();
    assert_eq!(ons.len(), expected, "every sounding step exports once");
    assert!(ons.contains(&(0, 36, {
        let v = ((120.0 / 127.0) * 1.25 * 127.0_f32).round() as i32;
        v.clamp(1, 127) as u8
    })));
    assert!(ons.iter().any(|&(tick, note, _)| tick == PPQ && note == 38));
}

#[test]
fn swing_micro_and_ratchets_bake_into_ticks() {
    let mut p = blank();
    p.swing = 66;
    p.tracks[5].steps[1].on = true;
    p.tracks[5].steps[1].velocity = 100;
    p.tracks[0].steps[0].on = true;
    p.tracks[0].steps[0].velocity = 100;
    p.tracks[0].steps[0].micro = -24;
    p.tracks[2].steps[4].on = true;
    p.tracks[2].steps[4].velocity = 100;
    p.tracks[2].steps[4].ratchet = 4;
    let ons = parse(&export(&p));
    assert!(ons.iter().any(|&(t, n, _)| n == 42 && t == 158), "swing must bake: {ons:?}");
    assert!(ons.iter().any(|&(t, n, _)| n == 36 && t == 0));
    let snares: Vec<u32> = ons.iter().filter(|&&(_, n, _)| n == 38).map(|&(t, _, _)| t).collect();
    assert_eq!(snares.len(), 4, "ratchet expands into real notes");
    assert_eq!(snares, vec![480, 510, 540, 570]);
}

#[test]
fn conditions_and_probability_bake_loop_zero() {
    let mut p = blank();
    for s in 0..4 {
        p.tracks[0].steps[s].on = true;
        p.tracks[0].steps[s].velocity = 100;
    }
    p.tracks[0].steps[1].condition = TrigCondition::Plain { code: NOT_FIRST };
    p.tracks[0].steps[2].condition = TrigCondition::Plain { code: FILL };
    p.tracks[0].steps[3].probability = 0;
    let ons = parse(&export(&p));
    assert_eq!(ons.len(), 1, "only the unconditional step survives loop 0: {ons:?}");
    assert_eq!(ons[0].0, 0);
}

#[test]
fn an_empty_pattern_is_a_silent_bar() {
    let bytes = export(&blank());
    assert_eq!(parse(&bytes), vec![]);
    // The name, then one bar of rest: 1920 ticks are 0x8F 0x00.
    assert_eq!(
        &bytes[22..],
        &[0, 0xFF, 3, 7, b'D', b'r', b'u', b'm', b'l', b'i', b'n', 0x8F, 0x00, 0xFF, 0x2F, 0]
    );
}

#[test]
fn one_kick_is_written_byte_for_byte() {
    let mut p = blank();
    p.length = 1;
    p.tracks[0].steps[0].on = true;
    let bytes = export(&p);
    assert_eq!(
        &bytes[33..],
        &[0, 0x99, 36, 100, GATE_TICKS as u8, 0x89, 36, 0, 60, 0xFF, 0x2F, 0]
    );
}

#[test]
fn a_roll_decides_a_probability() {
    let mut p = blank();
    p.tracks[3].steps[0].on = true;
    p.tracks[3].steps[0].probability = 40;
    for (roll, notes) in [(0, 1), (39, 1), (40, 0), (99, 0)] {
        let mut f = feel(&p);
        f[3][0].roll = roll;
        assert_eq!(parse(&pattern_to_midi(&p, &f)).len(), notes, "roll {roll}");
    }
}

#[test]
fn muted_lanes_are_left_out() {
    let mut p = neutral_demo();
    p.tracks[5].muted = true;
    assert!(parse(&export(&p)).iter().all(|&(_, n, _)| n != 42));
}

#[test]
fn short_lanes_wrap_inside_the_bar() {
    let mut p = blank();
    p.tracks[8].length = 3;
    p.tracks[8].steps[0].on = true;
    let ticks: Vec<u32> = parse(&export(&p)).iter().map(|&(t, _, _)| t).collect();
    assert_eq!(ticks, vec![0, 360, 720, 1080, 1440, 1800]);
}

#[test]
fn lengths_out_of_range_are_played_as_far_as_they_can() {
    for (length, steps) in [(0u8, 1usize), (1, 1), (64, 64), (65, 64), (255, 64)] {
        assert_eq!(playable_steps(length), steps);
        let mut p = blank();
        p.length = length;
        p.tracks[0].length = length;
        for s in 0..MAX_STEPS {
            p.tracks[0].steps[s].on = true;
        }
        assert_eq!(parse(&export(&p)).len(), steps);
    }
}

#[test]
fn offs_come_before_ons_at_the_same_tick() {
    let mut p = blank();
    p.tracks[4].steps[0].on = true;
    p.tracks[4].steps[0].ratchet = 8;
    let mut f = feel(&p);
    for (k, hit) in f[4][0].hits.iter_mut().enumerate() {
        hit.tick = k as u32;
    }
    f[4][0].spacing = 1;
    let bytes = pattern_to_midi(&p, &f);
    // A tick of gate: each off shares its tick with the next on and comes first.
    let body = &bytes[33..];
    assert_eq!(&body[0..4], &[0, 0x99, 37, 100]);
    for k in 0..7 {
        assert_eq!(&body[4 + 8 * k..8 + 8 * k], &[1, 0x89, 37, 0]);
        assert_eq!(&body[8 + 8 * k..12 + 8 * k], &[0, 0x99, 37, 100]);
    }
}

#[test]
fn every_lane_has_a_note_of_its_own() {
    for a in 0..MAX_TRACKS {
        for b in 0..a {
            assert_ne!(TRACK_NOTE[a], TRACK_NOTE[b]);
        }
    }
}

fn path(f: Folder) -> String {
    let mut p = f.base;
    for name in f.below {
        p = format!("{p}/{name}");
    }
    p
}

#[test]
fn exports_go_to_the_music_folder() {
    let home = || "/home/me".to_string();
    let with = Some(UserFolders { home: home(), audio: Some("/mnt/audio".to_string()) });
    assert_eq!(path(export_dir(&with).unwrap()), "/mnt/audio/Drumlin");
    let without = Some(UserFolders { home: home(), audio: None });
    assert_eq!(path(export_dir(&without).unwrap()), "/home/me/Music/Drumlin");
    assert!(export_dir(&None).is_none());
}

/// The notes of a file going on and off, in file order.
fn notes(bytes: &[u8]) -> Vec<(u32, bool, u8)> {
    let body = &bytes[33..];
    let (mut i, mut tick, mut out) = (0, 0u32, Vec::new());
    loop {
        let mut delta = 0u32;
        loop {
            let b = body[i];
            i += 1;
            delta = delta * 128 + (b & 0x7F) as u32;
            if b < 128 {
                break;
            }
        }
        tick += delta;
        if body[i] == 0xFF {
            return out;
        }
        out.push((tick, body[i] == 0x99, body[i + 1]));
        i += 3;
    }
}

#[test]
fn a_ratchet_pushed_against_the_start_takes_turns() {
    let mut p = blank();
    p.tracks[2].steps[0].on = true;
    p.tracks[2].steps[0].ratchet = 4;
    p.tracks[2].steps[0].micro = -24;
    let n = TRACK_NOTE[2];
    assert_eq!(
        notes(&export(&p)),
        vec![
            (0, true, n),
            (8, false, n),
            (8, true, n),
            (44, false, n),
            (45, true, n),
            (81, false, n),
            (83, true, n),
            (119, false, n),
        ]
    );
    for micro in [-48i16, -40, -30, -7, 0, 20, 48] {
        for ratchet in 2..=8u8 {
            p.tracks[2].steps[0].ratchet = ratchet;
            p.tracks[2].steps[0].micro = micro;
            let played = notes(&export(&p));
            assert_eq!(played.len(), 2 * ratchet as usize);
            assert!(played.iter().enumerate().all(|(i, e)| e.1 == (i % 2 == 0)), "{micro} {ratchet}");
            assert!(played.windows(2).all(|w| w[0].0 <= w[1].0));
        }
    }
}

#[test]
fn hits_at_one_tick_are_played_one_after_the_other() {
    let mut p = blank();
    p.tracks[0].steps[0].on = true;
    p.tracks[0].steps[0].ratchet = 3;
    let mut f = feel(&p);
    f[0][0].hits = [0, 0, 1].iter().map(|&tick| Hit { tick, velocity: 90 }).collect();
    f[0][0].spacing = 20;
    let n = TRACK_NOTE[0];
    assert_eq!(
        notes(&pattern_to_midi(&p, &f)),
        vec![
            (0, true, n),
            (1, false, n),
            (1, true, n),
            (2, false, n),
            (2, true, n),
            (21, false, n),
        ]
    );
}

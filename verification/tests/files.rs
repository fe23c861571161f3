//! Names, listings and formats of the user's files.

use drumlin::folders::{Folder, UserFolders};
use drumlin::ieee::{ieee, Ieee32};
use drumlin::kitfiles;
use drumlin::kits::KitRow;
use drumlin::presets::{
    list_presets, may_read, presets_dir, safe_path, sanitize_stem, DiskPreset, FORMAT_TAG,
    MAX_PRESET_BYTES,
};
use drumlin::sound::SoundSnapshot;
use drumlin::state::{default_macro_labels, DrumModSlot, ModState, VoicePatch};

fn bits(x: f32) -> Ieee32 {
    ieee(x.to_bits())
}

#[test]
fn sanitize_blocks_traversal_and_separators() {
    assert_eq!(sanitize_stem("../../etc/passwd"), "______etc_passwd");
    assert_eq!(sanitize_stem("a/b\\c"), "a_b_c");
    assert_eq!(sanitize_stem("  "), "untitled");
    assert_eq!(sanitize_stem(""), "untitled");
    assert_eq!(sanitize_stem("My Kit-2"), "My Kit-2");
    let dir = "/tmp/drumlin_presets";
    let p = safe_path(dir, "../evil").unwrap();
    assert_eq!(p.dir, dir, "path must stay in the presets dir");
    assert_eq!(p.file, "___evil.drumlin.json");
}

#[test]
fn letters_of_any_script_are_kept() {
    assert_eq!(sanitize_stem("Été 5 ♥ дождь"), "Été 5 _ дождь");
    assert_eq!(sanitize_stem("\u{3000}kit\u{2003}"), "_kit_");
    assert_eq!(sanitize_stem(" \t kit"), "_ kit");
}

#[test]
fn long_names_are_cut_before_they_are_trimmed() {
    let long = format!("{}{}", "x".repeat(63), "   tail");
    assert_eq!(sanitize_stem(&long), "x".repeat(63));
    assert_eq!(sanitize_stem(&"é".repeat(100)), "é".repeat(64));
}

fn names(list: &[&str]) -> Vec<String> {
    list.iter().map(|s| s.to_string()).collect()
}

#[test]
fn listings_are_stripped_and_sorted() {
    let files = names(&[
        "b.drumlin.json",
        "A.drumlin.json",
        "notes.txt",
        ".drumlin.json",
        "a.drumlin.json",
        "a.kit.json",
        "b.drumlin.json",
        "é.drumlin.json",
    ]);
    assert_eq!(list_presets(&files), names(&["", "A", "a", "b", "b", "é"]));
    assert_eq!(kitfiles::list_kits(&files), names(&["a"]));
    assert_eq!(list_presets(&Vec::new()), Vec::<String>::new());
}

#[test]
fn oversized_files_are_not_read() {
    assert!(may_read(MAX_PRESET_BYTES));
    assert!(!may_read(MAX_PRESET_BYTES + 1));
    assert!(kitfiles::may_read(262_144));
    assert!(!kitfiles::may_read(262_145));
}

fn path(f: Folder) -> String {
    let mut p = f.base;
    for name in f.below {
        p = format!("{p}/{name}");
    }
    p
}

#[test]
fn folders_lie_below_what_the_system_names() {
    let config = Some("/etc/drumlin".to_string());
    assert_eq!(path(presets_dir(&config).unwrap()), "/etc/drumlin/presets");
    assert!(presets_dir(&None).is_none());
    let user = Some(UserFolders { home: "/home/me".to_string(), audio: None });
    assert_eq!(path(kitfiles::kits_dir(&user).unwrap()), "/home/me/Music/Drumlin/Kits");
    assert!(kitfiles::kits_dir(&None).is_none());
}

fn idle() -> [DrumModSlot; 16] {
    [DrumModSlot { src: 0, dst: 0, depth: bits(0.0), target_voice: 255 }; 16]
}

fn sound() -> SoundSnapshot<u8> {
    SoundSnapshot {
        voices: VoicePatch { tracks: [[bits(0.25); 5]; 12] },
        mix: 7,
        mod_state: ModState::fresh(idle()),
        macro_labels: default_macro_labels(),
        bus: [0.1, 0.2, 0.3, 0.4, 0.5, 0.5, 0.6, 0.7, 0.8].map(bits),
        sidechain: true,
    }
}

#[test]
fn a_preset_gives_its_sound_back() {
    let preset = DiskPreset::of("Test World".to_string(), sound());
    assert_eq!(preset.format, FORMAT_TAG);
    assert_eq!(preset.name, "Test World");
    let back = preset.accept().expect("the format is right");
    assert_eq!(back.bus, sound().bus);
    assert_eq!(back.voices.tracks, sound().voices.tracks);
    assert_eq!(back.mix, 7);
    assert!(back.sidechain);
    assert_eq!(back.macro_labels, default_macro_labels());
}

#[test]
fn a_preset_of_another_format_is_refused() {
    let mut preset = DiskPreset::of("Wrong".to_string(), sound());
    preset.format = "drumlin-preset-v2".to_string();
    assert!(preset.accept().is_none());
}

fn demo_def() -> kitfiles::KitDef {
    kitfiles::KitDef {
        format: kitfiles::FORMAT_TAG.to_string(),
        name: "Test Cavern".to_string(),
        blurb: "unit test".to_string(),
        terrain: kitfiles::default_terrain(),
        macro_labels: default_macro_labels(),
        rows: vec![
            KitRow::Voice { track: 0, param: 2, norm: bits(0.3) },
            KitRow::Sidechain { on: true },
        ],
    }
}

#[test]
fn a_kit_of_another_format_is_refused() {
    let kept = kitfiles::accept(demo_def()).expect("the format is right");
    assert_eq!(kept.rows.len(), 2);
    assert_eq!(kept.name, "Test Cavern");
    assert_eq!(kept.terrain, "techno");
    let mut bad = demo_def();
    bad.format = "not-a-kit".to_string();
    assert!(kitfiles::accept(bad).is_none());
}

#[test]
fn kits_land_inside_their_folder() {
    let p = kitfiles::safe_path("/kits", "../../escape").unwrap();
    assert_eq!((p.dir.as_str(), p.file.as_str()), ("/kits", "______escape.kit.json"));
    assert_eq!(kitfiles::safe_path("/kits", "Test Cavern").unwrap().file, "Test Cavern.kit.json");
}

#[test]
fn what_was_saved_is_listed_and_found_again() {
    let saved = ["../evil", "", "My Kit-2", " \t kit", "Été 5 ♥ дождь"];
    let files: Vec<String> = saved.iter().map(|n| safe_path("d", n).unwrap().file).collect();
    let listed = list_presets(&files);
    assert_eq!(listed.len(), saved.len());
    for (name, file) in saved.iter().zip(&files) {
        let stem = sanitize_stem(name);
        assert!(listed.contains(&stem), "{stem}");
        assert_eq!(sanitize_stem(&stem), stem);
        assert_eq!(&safe_path("d", &stem).unwrap().file, file);
    }
}

#[test]
fn friendly_names_are_kept_as_they_are() {
    for name in ["a", "My Kit-2", "sub_bass 03", "Été", "x - y"] {
        assert_eq!(sanitize_stem(name), name);
    }
}

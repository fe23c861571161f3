use drumlin::kits::{factory_kits, find_kit, neutral, DEFAULT_MACRO_LABELS};
use drumlin::state::{N_DRUM_DESTS, N_DRUM_SOURCES, N_TAIL_PARAMS};

#[test]
fn neutral_is_an_empty_lens() {
    let neutral = neutral();
    assert!(neutral.rows.is_empty(), "Neutral must override nothing (byte-exact)");
    assert!(neutral.pattern.is_none(), "Neutral leaves the pattern alone");
    assert_eq!(neutral.macro_labels, DEFAULT_MACRO_LABELS);
    // Neutral is the first factory entry the GUI shows.
    assert!(factory_kits().iter().any(|k| k.id == "neutral"));
}

#[test]
fn kits_are_found_by_id() {
    let kits = factory_kits();
    assert_eq!(find_kit(&kits, "neutral"), Some(0));
    assert_eq!(find_kit(&kits, "outrun"), Some(4));
    assert_eq!(find_kit(&kits, "Outrun"), None);
    assert_eq!(kits[1].name, "Discothèque");
    assert_eq!(kits[1].blurb, "Daft Punk · French house");
}

#[test]
fn kit_rows_address_pinned_places() {
    assert_eq!(N_TAIL_PARAMS, 5, "Voice rows address the tail patch subset 0..5");
    assert_eq!(N_DRUM_SOURCES, 21, "ModSlot.src indices");
    assert_eq!(N_DRUM_DESTS, 13, "ModSlot.dst indices");
}

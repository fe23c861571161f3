//! User kits on disk: how files are named, listed, and told apart.

use crate::folders::{stays_inside, FilePath, Folder, UserFolders};
use crate::kits::KitRow;
use crate::midi_export::export_dir;
use crate::presets::{file_in, is_listing, list_names, stem_of, stems, string_views};
use crate::text::same_text;
use vstd::prelude::*;

verus! {

/// What a kit file says it is.
pub const FORMAT_TAG: &'static str = "drumlin-kit-v1";

/// How a kit file's name ends.
pub const SUFFIX: &'static str = ".kit.json";

/// The largest file that is read, in bytes.
pub const MAX_KIT_BYTES: u64 = 262_144;

/// A kit of the user's: a sound without a pattern, and the dialect its grooves
/// are dug in.
#[derive(Debug)]
pub struct KitDef {
    pub format: String,
    pub name: String,
    pub blurb: String,
    pub terrain: String,
    pub macro_labels: Vec<String>,
    pub rows: Vec<KitRow>,
}

/// The dialect of a kit that names none.
pub fn default_terrain() -> (r: String)
    ensures
        r@ == "techno"@,
{
    "techno".to_owned()
}

/// The folder of the user's kits, next to what is exported.
pub fn kits_dir(user: &Option<UserFolders>) -> (r: Option<Folder>)
    ensures
        r is Some <==> user is Some,
        r is Some ==> match user->0.audio {
            Some(audio) => r->0.base@ == audio@ && r->0.names() == seq!["Drumlin"@, "Kits"@],
            None => r->0.base@ == user->0.home@ && r->0.names() == seq![
                "Music"@,
                "Drumlin"@,
                "Kits"@,
            ],
        },
{
    match export_dir(user) {
        Some(dir) => {
            let r = dir.join("Kits");
            assert(seq!["Drumlin"@].push("Kits"@) =~= seq!["Drumlin"@, "Kits"@]);
            assert(seq!["Music"@, "Drumlin"@].push("Kits"@) =~= seq![
                "Music"@,
                "Drumlin"@,
                "Kits"@,
            ]);
            Some(r)
        },
        None => None,
    }
}

/// The kit file for a name in a folder. There always is one, and it lies
/// directly in the folder, whatever the name.
pub fn safe_path(dir: &str, name: &str) -> (r: Option<FilePath>)
    ensures
        r is Some,
        r->0.dir@ == dir@,
        r->0.file@ == stem_of(name@) + ".kit.json"@,
        stays_inside(r->0.file@),
{
    proof {
        reveal_strlit(".kit.json");
    }
    file_in(dir, name, SUFFIX)
}

/// Whether a file of this size is read.
pub fn may_read(bytes: u64) -> (r: bool)
    ensures
        r == (bytes <= 262_144),
{
    bytes <= MAX_KIT_BYTES
}

/// The kits to list for the files of a folder.
pub fn list_kits(files: &Vec<String>) -> (r: Vec<String>)
    ensures
        is_listing(string_views(r@), stems(files@, ".kit.json"@, files@.len() as int)),
{
    list_names(files, SUFFIX)
}

/// A kit that was read, if it says what it should.
pub fn accept(def: KitDef) -> (r: Option<KitDef>)
    ensures
        r == if def.format@ == "drumlin-kit-v1"@ {
            Some(def)
        } else {
            None
        },
{
    if same_text(def.format.as_str(), FORMAT_TAG) {
        Some(def)
    } else {
        None
    }
}

} // verus!

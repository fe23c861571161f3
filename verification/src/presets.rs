//! Presets on disk: how files are named, listed, and told apart.

use crate::folders::{stays_inside, FilePath, Folder};
use crate::sound::SoundSnapshot;
use crate::ieee::Ieee32;
use crate::state::{ModState, VoicePatch};
use crate::text::{ascii_alphanumeric, chars_of, comes_before, is_alphanumeric, listing_order_is_total, listing_order_is_transitive, only_blanks_are_trimmed, same_text, string_of, text_before, trim, trimmed, trimming_once_is_enough, trimming_takes_only_ends, wordy};
use vstd::prelude::*;
use vstd::set_lib::{lemma_int_range, lemma_len_subset, lemma_subset_equality, set_int_range};

verus! {

/// What a preset file says it is.
pub const FORMAT_TAG: &'static str = "drumlin-preset-v1";

/// How a preset file's name ends.
pub const SUFFIX: &'static str = ".drumlin.json";

/// The largest file that is read, in bytes.
pub const MAX_PRESET_BYTES: u64 = 1_048_576;

/// Characters of a name that are kept.
pub const STEM_CAP: usize = 64;

/// A character that a file name keeps.
pub open spec fn keeps(c: char) -> bool {
    wordy(c) || c == ' ' || c == '-' || c == '_'
}

/// The first characters of a name, each that a file name does not keep replaced.
pub open spec fn replaced(name: Seq<char>) -> Seq<char> {
    Seq::new(
        if name.len() < STEM_CAP {
            name.len()
        } else {
            STEM_CAP as nat
        },
        |i: int|
            if keeps(name[i]) {
                name[i]
            } else {
                '_'
            },
    )
}

/// The stem of the file for a name.
pub open spec fn stem_of(name: Seq<char>) -> Seq<char> {
    let t = trimmed(replaced(name));
    if t.len() == 0 {
        "untitled"@
    } else {
        t
    }
}

/// A character that is harmless in a file name: a letter or digit, a blank, a
/// dash, an underscore, or something beyond ASCII.
pub open spec fn harmless(c: char) -> bool {
    ascii_alphanumeric(c) || c == ' ' || c == '-' || c == '_' || c as u32 >= 128
}

/// The stem of the file for a name: its letters and digits, blanks, dashes and
/// underscores, anything else as an underscore, at most sixty-four characters,
/// trimmed, and never empty. Of the characters that are kept only the blank is
/// white space, so trimming takes blanks.
pub fn sanitize_stem(name: &str) -> (r: String)
    ensures
        r@ == stem_of(name@),
        0 < r@.len() <= 64,
        forall|i: int| 0 <= i < r@.len() ==> harmless(#[trigger] r@[i]),
{
    let all = chars_of(name);
    let mut kept: Vec<char> = Vec::new();
    let mut i: usize = 0;
    while i < all.len() && i < STEM_CAP
        invariant
            i <= all@.len(),
            i <= STEM_CAP,
            all@ == name@,
            kept@.len() == i,
            forall|j: int| 0 <= j < i ==> #[trigger] kept@[j] == replaced(name@)[j],
            forall|j: int| 0 <= j < i ==> harmless(#[trigger] kept@[j]),
        decreases all@.len() - i,
    {
        let c = all[i];
        if is_alphanumeric(c) || c == ' ' || c == '-' || c == '_' {
            kept.push(c);
        } else {
            kept.push('_');
        }
        i = i + 1;
    }
    assert(kept@ =~= replaced(name@));
    let ghost mapped = kept@;
    let t = trim(kept);
    proof {
        trimming_takes_only_ends(mapped);
        let (a, b) = choose|a: int, b: int|
            0 <= a <= b <= mapped.len() && trimmed(mapped) == mapped.subrange(a, b);
        assert forall|j: int| 0 <= j < t@.len() implies harmless(#[trigger] t@[j]) by {
            assert(t@[j] == mapped[a + j]);
        }
        reveal_strlit("untitled");
    }
    if t.len() == 0 {
        "untitled".to_owned()
    } else {
        string_of(t)
    }
}

/// A stem is a name for itself: the file for a stem is the file that has it.
pub proof fn a_stem_names_its_own_file(name: Seq<char>)
    ensures
        stem_of(stem_of(name)) == stem_of(name),
{
    let mapped = replaced(name);
    let t = trimmed(mapped);
    let stem = stem_of(name);
    trimming_takes_only_ends(mapped);
    trimming_once_is_enough(mapped);
    reveal_strlit("untitled");
    if t.len() > 0 {
        let (a, b) = choose|a: int, b: int|
            0 <= a <= b <= mapped.len() && trimmed(mapped) == mapped.subrange(a, b);
        assert forall|j: int| 0 <= j < t.len() implies keeps(#[trigger] t[j]) by {
            assert(t[j] == mapped[a + j]);
        }
    } else {
        assert(trimmed(stem) == stem);
    }
    assert(replaced(stem) =~= stem);
}

/// A friendly name is kept as it is: one that is not too long, that holds only
/// characters a file name keeps, and has no blank at its ends.
pub proof fn friendly_names_are_kept(name: Seq<char>)
    requires
        1 <= name.len() <= STEM_CAP,
        forall|i: int| 0 <= i < name.len() ==> keeps(#[trigger] name[i]),
        name[0] != ' ',
        name.last() != ' ',
    ensures
        stem_of(name) == name,
{
    assert(replaced(name) =~= name);
}

/// A text with another appended.
pub(crate) fn appended(a: &str, b: &str) -> (r: String)
    ensures
        r@ == a@ + b@,
{
    let mut v = chars_of(a);
    let mut w = chars_of(b);
    v.append(&mut w);
    string_of(v)
}

proof fn lemma_file_stays_inside(stem: Seq<char>, suffix: Seq<char>)
    requires
        0 < stem.len(),
        suffix.len() > 2,
        forall|i: int| 0 <= i < stem.len() ==> harmless(#[trigger] stem[i]),
        forall|i: int| 0 <= i < suffix.len() ==> #[trigger] suffix[i] != '/' && suffix[i] != '\\',
    ensures
        stays_inside(stem + suffix),
{
    reveal_strlit(".");
    reveal_strlit("..");
    assert("."@.len() == 1 && ".."@.len() == 2);
    let file = stem + suffix;
    assert forall|i: int| 0 <= i < file.len() implies #[trigger] file[i] != '/' && file[i]
        != '\\' by {
        if i < stem.len() {
            assert(harmless(stem[i]));
        } else {
            assert(file[i] == suffix[i - stem.len()]);
        }
    }
}

/// The file for a name in a folder, with the given ending. There always is one,
/// and it lies directly in the folder, whatever the name.
pub(crate) fn file_in(dir: &str, name: &str, suffix: &str) -> (r: Option<FilePath>)
    requires
        suffix@.len() > 2,
        forall|i: int|
            0 <= i < suffix@.len() ==> #[trigger] suffix@[i] != '/' && suffix@[i] != '\\',
    ensures
        r is Some,
        r->0.dir@ == dir@,
        r->0.file@ == stem_of(name@) + suffix@,
        stays_inside(r->0.file@),
{
    let stem = sanitize_stem(name);
    proof {
        lemma_file_stays_inside(stem@, suffix@);
    }
    Some(FilePath { dir: dir.to_owned(), file: appended(stem.as_str(), suffix) })
}

/// The preset file for a name in a folder. There always is one, and it lies
/// directly in the folder, whatever the name.
pub fn safe_path(dir: &str, name: &str) -> (r: Option<FilePath>)
    ensures
        r is Some,
        r->0.dir@ == dir@,
        r->0.file@ == stem_of(name@) + ".drumlin.json"@,
        stays_inside(r->0.file@),
{
    proof {
        reveal_strlit(".drumlin.json");
    }
    file_in(dir, name, SUFFIX)
}

/// The folder of the presets, below the folder that the system names for the
/// program's configuration.
pub fn presets_dir(config: &Option<String>) -> (r: Option<Folder>)
    ensures
        r is Some <==> config is Some,
        r is Some ==> r->0.base@ == config->0@ && r->0.names() == seq!["presets"@],
{
    match config {
        Some(base) => {
            let r = Folder::at(base).join("presets");
            assert(r.names() =~= seq!["presets"@]);
            Some(r)
        },
        None => None,
    }
}

/// Whether a file of this size is read.
pub fn may_read(bytes: u64) -> (r: bool)
    ensures
        r == (bytes <= 1_048_576),
{
    bytes <= MAX_PRESET_BYTES
}

/// Whether a file name ends as it should.
pub open spec fn ends_with(file: Seq<char>, suffix: Seq<char>) -> bool {
    file.len() >= suffix.len() && file.skip(file.len() - suffix.len()) == suffix
}

/// The stems of the files that end as they should, in order.
pub open spec fn stems(files: Seq<String>, suffix: Seq<char>, n: int) -> Seq<Seq<char>>
    decreases n,
{
    if n <= 0 {
        Seq::empty()
    } else if ends_with(files[n - 1]@, suffix) {
        stems(files, suffix, n - 1).push(files[n - 1]@.take(files[n - 1]@.len() - suffix.len()))
    } else {
        stems(files, suffix, n - 1)
    }
}

/// `order` lists each position below `n` once.
pub open spec fn is_shuffle(order: Seq<int>, n: int) -> bool {
    &&& order.len() == n
    &&& order.no_duplicates()
    &&& forall|i: int| 0 <= i < order.len() ==> 0 <= #[trigger] order[i] < n
}

/// `r` is a listing of the texts `s`: the same texts, sorted.
pub open spec fn is_listing(r: Seq<Seq<char>>, s: Seq<Seq<char>>) -> bool {
    &&& exists|order: Seq<int>|
        is_shuffle(order, s.len() as int) && r == #[trigger] picked(s, order)
    &&& forall|i: int, j: int| 0 <= i < j < r.len() ==> !text_before(#[trigger] r[j], #[trigger] r[i])
}

pub open spec fn picked(s: Seq<Seq<char>>, order: Seq<int>) -> Seq<Seq<char>> {
    Seq::new(order.len(), |i: int| s[order[i]])
}

pub open spec fn views(v: Seq<Vec<char>>) -> Seq<Seq<char>> {
    Seq::new(v.len(), |i: int| v[i]@)
}

pub open spec fn string_views(v: Seq<String>) -> Seq<Seq<char>> {
    Seq::new(v.len(), |i: int| v[i]@)
}

/// A file name without its ending, where it has it.
fn strip(file: &str, suffix: &str) -> (r: Option<Vec<char>>)
    ensures
        r is Some <==> ends_with(file@, suffix@),
        r is Some ==> r->0@ == file@.take(file@.len() - suffix@.len()),
{
    let f = chars_of(file);
    let x = chars_of(suffix);
    if f.len() < x.len() {
        return None;
    }
    let len: usize = f.len();
    let cut: usize = len - x.len();
    let mut i: usize = 0;
    while i < x.len()
        invariant
            f@ == file@,
            x@ == suffix@,
            len == f@.len(),
            cut == len - x@.len(),
            i <= x@.len(),
            forall|j: int| 0 <= j < i ==> f@[cut + j] == #[trigger] x@[j],
        decreases x@.len() - i,
    {
        if f[cut + i] != x[i] {
            assert(f@.skip(cut as int)[i as int] != x@[i as int]);
            return None;
        }
        i = i + 1;
    }
    assert(f@.skip(cut as int) =~= x@);
    let mut out = f;
    out.truncate(cut);
    assert(out@ =~= file@.take(cut as int));
    Some(out)
}

/// Put a text into a sorted list, before every text that comes after it.
fn insert_sorted(list: &mut Vec<Vec<char>>, x: Vec<char>) -> (pos: usize)
    requires
        forall|i: int, j: int|
            0 <= i < j < old(list)@.len() ==> !text_before(
                #[trigger] old(list)@[j]@,
                #[trigger] old(list)@[i]@,
            ),
    ensures
        pos <= old(list)@.len(),
        final(list)@ == old(list)@.insert(pos as int, x),
        forall|i: int, j: int|
            0 <= i < j < final(list)@.len() ==> !text_before(
                #[trigger] final(list)@[j]@,
                #[trigger] final(list)@[i]@,
            ),
{
    let mut pos: usize = 0;
    while pos < list.len() && !comes_before(&x, &list[pos])
        invariant
            pos <= list@.len(),
            list@ == old(list)@,
            forall|i: int| 0 <= i < pos ==> !text_before(x@, #[trigger] list@[i]@),
        ensures
            pos <= list@.len(),
            list@ == old(list)@,
            forall|i: int| 0 <= i < pos ==> !text_before(x@, #[trigger] list@[i]@),
            pos < list@.len() ==> text_before(x@, list@[pos as int]@),
        decreases list@.len() - pos,
    {
        pos = pos + 1;
    }
    let ghost before = list@;
    let ghost item = x;
    list.insert(pos, x);
    assert forall|i: int, j: int| 0 <= i < j < list@.len() implies !text_before(
        #[trigger] list@[j]@,
        #[trigger] list@[i]@,
    ) by {
        if j == pos {
            assert(list@[i] == before[i]);
        } else if i == pos {
            let k = j - 1;
            assert(list@[j] == before[k]);
            if text_before(before[k]@, item@) {
                listing_order_is_total(item@, before[pos as int]@);
                listing_order_is_transitive(before[k]@, item@, before[pos as int]@);
                if k == pos {
                    listing_order_is_total(before[k]@, before[k]@);
                } else {
                    assert(!text_before(before[k]@, before[pos as int]@));
                }
            }
        } else {
            let a = if i < pos {
                i
            } else {
                i - 1
            };
            let b = if j < pos {
                j
            } else {
                j - 1
            };
            assert(list@[i] == before[a]);
            assert(list@[j] == before[b]);
        }
    }
    pos
}

/// The names to list for the files of a folder: those that end as they should,
/// without the ending, sorted.
pub(crate) fn list_names(files: &Vec<String>, suffix: &str) -> (r: Vec<String>)
    ensures
        is_listing(string_views(r@), stems(files@, suffix@, files@.len() as int)),
{
    let mut list: Vec<Vec<char>> = Vec::new();
    let ghost mut order: Seq<int> = Seq::empty();
    let ghost mut done: Seq<Seq<char>> = Seq::empty();
    let mut i: usize = 0;
    while i < files.len()
        invariant
            i <= files@.len(),
            done == stems(files@, suffix@, i as int),
            is_shuffle(order, done.len() as int),
            views(list@) == picked(done, order),
            forall|a: int, b: int|
                0 <= a < b < list@.len() ==> !text_before(
                    #[trigger] list@[b]@,
                    #[trigger] list@[a]@,
                ),
        decreases files@.len() - i,
    {
        let file = &files[i];
        match strip(file.as_str(), suffix) {
            Some(stem) => {
                let ghost text = stem@;
                let ghost before = list@;
                assert(before.len() == views(before).len());
                let pos: usize = insert_sorted(&mut list, stem);
                proof {
                    let n = done.len() as int;
                    let was = order;
                    order = was.insert(pos as int, n);
                    assert forall|a: int, b: int|
                        0 <= a < order.len() && 0 <= b < order.len() && a != b implies order[a]
                        != order[b] by {
                        let x = if a < pos {
                            a
                        } else {
                            a - 1
                        };
                        let y = if b < pos {
                            b
                        } else {
                            b - 1
                        };
                        if a != pos {
                            assert(order[a] == was[x]);
                        }
                        if b != pos {
                            assert(order[b] == was[y]);
                        }
                    }
                    assert forall|a: int| 0 <= a < order.len() implies 0 <= #[trigger] order[a] < n
                        + 1 by {
                        if a < pos {
                            assert(order[a] == was[a]);
                        } else if a > pos {
                            assert(order[a] == was[a - 1]);
                        }
                    }
                    let old_done = done;
                    done = old_done.push(text);
                    assert forall|a: int| 0 <= a < list@.len() implies #[trigger] list@[a]@
                        == picked(done, order)[a] by {
                        if a < pos {
                            assert(list@[a] == before[a]);
                            assert(views(before)[a] == picked(old_done, was)[a]);
                            assert(order[a] == was[a]);
                        } else if a > pos {
                            assert(list@[a] == before[a - 1]);
                            assert(views(before)[a - 1] == picked(old_done, was)[a - 1]);
                            assert(order[a] == was[a - 1]);
                        }
                    }
                    assert(views(list@) =~= picked(done, order));
                }
            },
            None => {},
        }
        i = i + 1;
    }
    let ghost sorted = list@;
    let mut r: Vec<String> = Vec::new();
    for text in it: list
        invariant
            it.seq() == sorted,
            r@.len() == it.index(),
            forall|a: int| 0 <= a < r@.len() ==> (#[trigger] r@[a])@ == sorted[a]@,
    {
        r.push(string_of(text));
    }
    proof {
        let all = string_views(r@);
        assert(all =~= views(sorted));
        assert(all == picked(done, order));
        assert forall|a: int, b: int| 0 <= a < b < all.len() implies !text_before(
            #[trigger] all[b],
            #[trigger] all[a],
        ) by {
            assert(all[a] == sorted[a]@ && all[b] == sorted[b]@);
        }
    }
    r
}

/// The presets to list for the files of a folder.
pub fn list_presets(files: &Vec<String>) -> (r: Vec<String>)
    ensures
        is_listing(string_views(r@), stems(files@, ".drumlin.json"@, files@.len() as int)),
{
    list_names(files, SUFFIX)
}

proof fn lemma_stems_hold_each(files: Seq<String>, suffix: Seq<char>, n: int, k: int)
    requires
        0 <= k < n <= files.len(),
        ends_with(files[k]@, suffix),
    ensures
        stems(files, suffix, n).contains(files[k]@.take(files[k]@.len() - suffix.len())),
    decreases n,
{
    let stem = files[k]@.take(files[k]@.len() - suffix.len());
    let before = stems(files, suffix, n - 1);
    if k < n - 1 {
        lemma_stems_hold_each(files, suffix, n - 1, k);
        let i = choose|i: int| 0 <= i < before.len() && before[i] == stem;
        assert(stems(files, suffix, n)[i] == stem);
    } else {
        assert(stems(files, suffix, n)[before.len() as int] == stem);
    }
}

/// A listing leaves nothing out.
proof fn lemma_listing_holds_each(r: Seq<Seq<char>>, s: Seq<Seq<char>>, x: Seq<char>)
    requires
        is_listing(r, s),
        s.contains(x),
    ensures
        r.contains(x),
{
    let order = choose|order: Seq<int>|
        is_shuffle(order, s.len() as int) && r == #[trigger] picked(s, order);
    let k = choose|k: int| 0 <= k < s.len() && s[k] == x;
    let places = set_int_range(0, s.len() as int);
    lemma_int_range(0, s.len() as int);
    order.unique_seq_to_set();
    assert(order.to_set().subset_of(places));
    lemma_len_subset(order.to_set(), places);
    lemma_subset_equality(order.to_set(), places);
    assert(order.to_set().contains(k));
    let i = choose|i: int| 0 <= i < order.len() && order[i] == k;
    assert(r[i] == x);
}

/// What was saved is found again: where a folder holds the file for a name, a
/// listing of the folder shows its stem, and the file for that stem is the same.
pub proof fn what_was_saved_is_found_again(
    files: Seq<String>,
    suffix: Seq<char>,
    name: Seq<char>,
    k: int,
    listing: Seq<Seq<char>>,
)
    requires
        0 <= k < files.len(),
        files[k]@ == stem_of(name) + suffix,
        is_listing(listing, stems(files, suffix, files.len() as int)),
    ensures
        listing.contains(stem_of(name)),
        stem_of(stem_of(name)) + suffix == files[k]@,
{
    let file = files[k]@;
    let cut = file.len() - suffix.len();
    assert(file.skip(cut) =~= suffix);
    assert(file.take(cut) =~= stem_of(name));
    lemma_stems_hold_each(files, suffix, files.len() as int, k);
    lemma_listing_holds_each(
        listing,
        stems(files, suffix, files.len() as int),
        stem_of(name),
    );
    a_stem_names_its_own_file(name);
}

/// A preset as it is stored. `M` is the channel strips of the voices.
#[derive(Debug)]
pub struct DiskPreset<M> {
    pub format: String,
    pub name: String,
    pub voices: VoicePatch,
    pub mix: M,
    pub mod_state: ModState,
    pub macro_labels: Vec<String>,
    pub bus: [Ieee32; 9],
    pub sidechain: bool,
}

impl<M> DiskPreset<M> {
    /// The sound of a preset.
    pub open spec fn sound(self) -> SoundSnapshot<M> {
        SoundSnapshot {
            voices: self.voices,
            mix: self.mix,
            mod_state: self.mod_state,
            macro_labels: self.macro_labels,
            bus: self.bus,
            sidechain: self.sidechain,
        }
    }

    /// This is the preset of a sound, under a name.
    pub open spec fn stores(self, name: String, snap: SoundSnapshot<M>) -> bool {
        &&& self.format@ == "drumlin-preset-v1"@
        &&& self.name == name
        &&& self.sound() == snap
    }

    /// The sound that is taken from a preset that was read.
    pub open spec fn accepted(self) -> Option<SoundSnapshot<M>> {
        if self.format@ == "drumlin-preset-v1"@ {
            Some(self.sound())
        } else {
            None
        }
    }

    /// The preset of a sound.
    pub fn of(name: String, snap: SoundSnapshot<M>) -> (r: Self)
        ensures
            r.stores(name, snap),
    {
        DiskPreset {
            format: FORMAT_TAG.to_owned(),
            name,
            voices: snap.voices,
            mix: snap.mix,
            mod_state: snap.mod_state,
            macro_labels: snap.macro_labels,
            bus: snap.bus,
            sidechain: snap.sidechain,
        }
    }

    /// The sound of a preset that was read, if it says what it should.
    pub fn accept(self) -> (r: Option<SoundSnapshot<M>>)
        ensures
            r == self.accepted(),
    {
        if same_text(self.format.as_str(), FORMAT_TAG) {
            Some(
                SoundSnapshot {
                    voices: self.voices,
                    mix: self.mix,
                    mod_state: self.mod_state,
                    macro_labels: self.macro_labels,
                    bus: self.bus,
                    sidechain: self.sidechain,
                },
            )
        } else {
            None
        }
    }
}

/// A preset gives back the sound it was made of.
pub proof fn a_stored_sound_is_accepted<M>(
    preset: DiskPreset<M>,
    name: String,
    snap: SoundSnapshot<M>,
)
    requires
        preset.stores(name, snap),
    ensures
        preset.accepted() == Some(snap),
{
}

/// A stem is a stretch of the first sixty-four characters of the name, each as it is or
/// as an underscore: as it is exactly where it is a letter or digit, a blank, a dash or an
/// underscore. What is left out at its ends is blank.
pub proof fn a_stem_is_a_stretch_of_its_name(name: Seq<char>) -> (r: (int, int))
    ensures
        0 <= r.0 <= r.1 <= name.len(),
        r.1 <= 64,
        r.0 < r.1 ==> stem_of(name).len() == r.1 - r.0,
        r.0 < r.1 ==> forall|i: int|
            r.0 <= i < r.1 ==> stem_of(name)[i - r.0] == if wordy(#[trigger] name[i]) || name[i]
                == ' ' || name[i] == '-' || name[i] == '_' {
                name[i]
            } else {
                '_'
            },
        r.0 == r.1 ==> stem_of(name) == "untitled"@,
        forall|i: int| 0 <= i < r.0 ==> #[trigger] name[i] == ' ',
        forall|i: int| r.1 <= i < name.len() && i < 64 ==> #[trigger] name[i] == ' ',
        r.0 < r.1 ==> name[r.0] != ' ' && name[r.1 - 1] != ' ',
{
    let mapped = replaced(name);
    let (a, b) = only_blanks_are_trimmed(mapped);
    assert forall|i: int| 0 <= i < a implies #[trigger] name[i] == ' ' by {
        assert(mapped[i] == ' ');
    }
    assert forall|i: int| b <= i < name.len() && i < 64 implies #[trigger] name[i] == ' ' by {
        assert(mapped[i] == ' ');
    }
    (a, b)
}

/// Everything that is listed is a file: each name with the ending behind it is the name
/// of a file of the folder, and no name comes before the one above it.
pub proof fn what_is_listed_is_there(
    files: Seq<String>,
    suffix: Seq<char>,
    listing: Seq<Seq<char>>,
    i: int,
) -> (k: int)
    requires
        is_listing(listing, stems(files, suffix, files.len() as int)),
        0 <= i < listing.len(),
    ensures
        0 <= k < files.len(),
        files[k]@ == listing[i] + suffix,
        i + 1 < listing.len() ==> !text_before(listing[i + 1], listing[i]),
{
    let s = stems(files, suffix, files.len() as int);
    let order = choose|order: Seq<int>|
        is_shuffle(order, s.len() as int) && listing == #[trigger] picked(s, order);
    assert(0 <= order[i] < s.len());
    assert(listing[i] == s[order[i]]);
    lemma_stem_of_a_file(files, suffix, files.len() as int, order[i])
}

proof fn lemma_stem_of_a_file(files: Seq<String>, suffix: Seq<char>, n: int, i: int) -> (k: int)
    requires
        0 <= n <= files.len(),
        0 <= i < stems(files, suffix, n).len(),
    ensures
        0 <= k < n,
        files[k]@ == stems(files, suffix, n)[i] + suffix,
    decreases n,
{
    let before = stems(files, suffix, n - 1);
    if i < before.len() {
        lemma_stem_of_a_file(files, suffix, n - 1, i)
    } else {
        let file = files[n - 1]@;
        let cut = file.len() - suffix.len();
        assert(file =~= file.take(cut) + file.skip(cut));
        n - 1
    }
}

/// A listing is as long as there are files that end as they should: nothing is listed
/// twice.
pub proof fn each_file_is_listed_once(
    files: Seq<String>,
    suffix: Seq<char>,
    listing: Seq<Seq<char>>,
)
    requires
        is_listing(listing, stems(files, suffix, files.len() as int)),
    ensures
        listing.len() == files.filter(|f: String| suffix.is_suffix_of(f@)).len(),
{
    let s = stems(files, suffix, files.len() as int);
    let order = choose|order: Seq<int>|
        is_shuffle(order, s.len() as int) && listing == #[trigger] picked(s, order);
    lemma_stems_count(files, suffix, files.len() as int);
    assert(files.take(files.len() as int) =~= files);
}

proof fn lemma_stems_count(files: Seq<String>, suffix: Seq<char>, n: int)
    requires
        0 <= n <= files.len(),
    ensures
        stems(files, suffix, n).len() == files.take(n).filter(
            |f: String| suffix.is_suffix_of(f@),
        ).len(),
    decreases n,
{
    reveal(Seq::filter);
    if n > 0 {
        lemma_stems_count(files, suffix, n - 1);
        assert(files.take(n).drop_last() =~= files.take(n - 1));
        let file = files[n - 1]@;
        if file.len() >= suffix.len() {
            let cut = file.len() - suffix.len();
            assert(file.skip(cut) =~= file.subrange(cut, file.len() as int));
        }
    }
}

/// A preset holds the sound it was made of, part for part, under its name and the
/// format's tag; one with another tag gives no sound.
pub proof fn a_preset_holds_its_sound<M>(
    preset: DiskPreset<M>,
    name: String,
    snap: SoundSnapshot<M>,
    read: DiskPreset<M>,
)
    requires
        preset.stores(name, snap),
    ensures
        preset.format@ == "drumlin-preset-v1"@,
        preset.name == name,
        preset.voices == snap.voices,
        preset.mix == snap.mix,
        preset.mod_state == snap.mod_state,
        preset.macro_labels == snap.macro_labels,
        preset.bus == snap.bus,
        preset.sidechain == snap.sidechain,
        read.format@ != "drumlin-preset-v1"@ ==> read.accepted() is None,
{
}

} // verus!

//! Folders, as a base that the system names and the folders below it.

use vstd::prelude::*;

verus! {

/// What the system says of the user's folders.
#[derive(Debug)]
pub struct UserFolders {
    pub home: String,
    /// The folder for music, where there is one.
    pub audio: Option<String>,
}

/// A folder: a base, and the names of the folders below it, outermost first.
#[derive(Debug)]
pub struct Folder {
    pub base: String,
    pub below: Vec<String>,
}

impl Folder {
    /// The names below the base.
    pub open spec fn names(self) -> Seq<Seq<char>> {
        Seq::new(self.below@.len(), |i: int| self.below@[i]@)
    }

    /// The base alone.
    pub fn at(base: &String) -> (r: Folder)
        ensures
            r.base@ == base@,
            r.names() == Seq::<Seq<char>>::empty(),
    {
        let r = Folder { base: base.clone(), below: Vec::new() };
        assert(r.names() =~= Seq::<Seq<char>>::empty());
        r
    }

    /// The folder with the given name in this one.
    pub fn join(self, name: &str) -> (r: Folder)
        ensures
            r.base == self.base,
            r.names() == self.names().push(name@),
    {
        let mut below = self.below;
        let ghost before = self.names();
        below.push(name.to_owned());
        let r = Folder { base: self.base, below };
        assert(r.names() =~= before.push(name@));
        r
    }
}

/// A file in a folder.
#[derive(Debug)]
pub struct FilePath {
    pub dir: String,
    pub file: String,
}

/// A name that stays in its folder: not empty, no separator in it, and neither
/// the folder itself nor the one above.
pub open spec fn stays_inside(file: Seq<char>) -> bool {
    &&& file.len() > 0
    &&& file != "."@
    &&& file != ".."@
    &&& forall|i: int| 0 <= i < file.len() ==> #[trigger] file[i] != '/' && file[i] != '\\'
}

} // verus!

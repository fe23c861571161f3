//! Learning MIDI controllers for the macro knobs.

use crate::state::N_MACROS;
use vstd::prelude::*;

verus! {

/// Controllers there are.
pub const N_CC: usize = 128;

/// For each controller the macro it moves, or -1.
pub type CcMap = [i8; 128];

/// Every controller is free or moves one of the macros.
pub open spec fn map_ok(map: CcMap) -> bool {
    forall|cc: int| 0 <= cc < N_CC ==> -1 <= #[trigger] map@[cc] < N_MACROS
}

/// The last of the first `n` controllers that moves macro `m`, or -1.
pub open spec fn last_cc(map: CcMap, n: int, m: int) -> int
    decreases n,
{
    if n <= 0 {
        -1
    } else if map@[n - 1] == m {
        n - 1
    } else {
        last_cc(map, n - 1, m)
    }
}

/// A map with every controller free.
pub fn unbound() -> (r: CcMap)
    ensures
        forall|cc: int| 0 <= cc < N_CC ==> #[trigger] r@[cc] == -1,
        map_ok(r),
{
    [-1i8; 128]
}

/// For each macro the controller shown for it: the last one that moves it, or
/// -1.
pub fn macro_cc_map(map: &CcMap) -> (r: [i32; 8])
    ensures
        forall|m: int| 0 <= m < N_MACROS ==> #[trigger] r@[m] == last_cc(*map, N_CC as int, m),
{
    let mut r: [i32; 8] = [-1i32; 8];
    let mut cc: usize = 0;
    while cc < N_CC
        invariant
            cc <= N_CC,
            forall|m: int| 0 <= m < N_MACROS ==> #[trigger] r@[m] == last_cc(*map, cc as int, m),
        decreases N_CC - cc,
    {
        let v: i8 = map[cc];
        if 0 <= v && v < 8 {
            r[v as usize] = cc as i32;
        }
        cc = cc + 1;
    }
    r
}

/// The controllers of the first `n` that are not free, each with its macro.
pub open spec fn pairs_of(map: CcMap, n: int) -> Seq<(u8, u8)>
    decreases n,
{
    if n <= 0 {
        Seq::empty()
    } else if map@[n - 1] >= 0 {
        pairs_of(map, n - 1).push(((n - 1) as u8, map@[n - 1] as u8))
    } else {
        pairs_of(map, n - 1)
    }
}

/// The map as a project saves it: every controller that is not free, in order,
/// with its macro.
pub fn saved_pairs(map: &CcMap) -> (r: Vec<(u8, u8)>)
    ensures
        r@ == pairs_of(*map, N_CC as int),
{
    let mut r: Vec<(u8, u8)> = Vec::new();
    let mut cc: usize = 0;
    while cc < N_CC
        invariant
            cc <= N_CC,
            r@ == pairs_of(*map, cc as int),
        decreases N_CC - cc,
    {
        let m: i8 = map[cc];
        if m >= 0 {
            r.push((cc as u8, m as u8));
        }
        cc = cc + 1;
    }
    r
}

/// Whether a saved pair names a controller and a macro that exist.
pub open spec fn pair_ok(pair: (u8, u8)) -> bool {
    pair.0 < N_CC && pair.1 < N_MACROS
}

/// What the first `n` saved pairs make controller `cc` move; of several pairs
/// for it the last counts.
pub open spec fn paired(pairs: Seq<(u8, u8)>, n: int, cc: int) -> int
    decreases n,
{
    if n <= 0 {
        -1
    } else if pair_ok(pairs[n - 1]) && pairs[n - 1].0 == cc {
        pairs[n - 1].1 as int
    } else {
        paired(pairs, n - 1, cc)
    }
}

/// The map of a saved project.
pub fn rebuild(pairs: &Vec<(u8, u8)>) -> (r: CcMap)
    ensures
        forall|cc: int|
            0 <= cc < N_CC ==> #[trigger] r@[cc] == paired(pairs@, pairs@.len() as int, cc),
        map_ok(r),
{
    let mut r: CcMap = unbound();
    let mut i: usize = 0;
    while i < pairs.len()
        invariant
            i <= pairs@.len(),
            map_ok(r),
            forall|cc: int| 0 <= cc < N_CC ==> #[trigger] r@[cc] == paired(pairs@, i as int, cc),
        decreases pairs@.len() - i,
    {
        let (cc, m) = pairs[i];
        if (cc as usize) < N_CC && (m as usize) < N_MACROS {
            r[cc as usize] = m as i8;
        }
        i = i + 1;
    }
    r
}

proof fn lemma_pairs_below(map: CcMap, n: int)
    requires
        map_ok(map),
        0 <= n <= N_CC,
    ensures
        forall|i: int| 0 <= i < pairs_of(map, n).len() ==> (#[trigger] pairs_of(map, n)[i]).0 < n,
        forall|cc: int|
            0 <= cc < N_CC ==> #[trigger] paired(pairs_of(map, n), pairs_of(map, n).len() as int, cc)
                == if cc < n {
                map@[cc] as int
            } else {
                -1
            },
    decreases n,
{
    if n > 0 {
        lemma_pairs_below(map, n - 1);
        let before = pairs_of(map, n - 1);
        let now = pairs_of(map, n);
        assert(-1 <= map@[n - 1] < N_MACROS);
        if map@[n - 1] >= 0 {
            assert forall|cc: int| 0 <= cc < N_CC implies #[trigger] paired(
                now,
                now.len() as int,
                cc,
            ) == if cc < n {
                map@[cc] as int
            } else {
                -1
            } by {
                lemma_paired_prefix(before, now, before.len() as int, cc);
                assert(paired(before, before.len() as int, cc) == if cc < n - 1 {
                    map@[cc] as int
                } else {
                    -1
                });
            }
        }
    }
}

proof fn lemma_paired_prefix(a: Seq<(u8, u8)>, b: Seq<(u8, u8)>, n: int, cc: int)
    requires
        0 <= n <= a.len() <= b.len(),
        forall|i: int| 0 <= i < n ==> a[i] == b[i],
    ensures
        paired(a, n, cc) == paired(b, n, cc),
    decreases n,
{
    if n > 0 {
        lemma_paired_prefix(a, b, n - 1, cc);
    }
}

/// What is learned survives saving: the pairs of a map rebuild the map.
pub proof fn learned_controllers_survive_saving(map: CcMap, cc: int)
    requires
        map_ok(map),
        0 <= cc < N_CC,
    ensures
        ({
            let saved = pairs_of(map, N_CC as int);
            paired(saved, saved.len() as int, cc) == map@[cc]
        }),
{
    lemma_pairs_below(map, N_CC as int);
}

/// The controllers, and the macro that waits to be learned, or -1.
#[derive(Clone, Copy, Debug)]
pub struct Learn {
    pub map: CcMap,
    pub arm: i8,
}

/// A macro number as the maps hold it.
pub open spec fn as_signed(m: u8) -> int {
    if m < 128 {
        m as int
    } else {
        m - 256
    }
}

fn signed(m: u8) -> (r: i8)
    ensures
        r == as_signed(m),
{
    if m < 128 {
        m as i8
    } else {
        (m as i16 - 256) as i8
    }
}

impl Learn {
    pub open spec fn ok(self) -> bool {
        map_ok(self.map) && -1 <= self.arm < N_MACROS
    }

    /// Nothing learned, nothing waiting.
    pub fn new() -> (r: Self)
        ensures
            r.ok(),
            r.arm == -1,
            forall|cc: int| 0 <= cc < N_CC ==> #[trigger] r.map@[cc] == -1,
    {
        Learn { map: unbound(), arm: -1 }
    }

    /// Let a macro wait for the next controller; a macro that does not exist is
    /// ignored.
    pub fn arm(&mut self, m: u8)
        ensures
            final(self).map == old(self).map,
            final(self).arm == if m < N_MACROS {
                m as int
            } else {
                old(self).arm as int
            },
    {
        if (m as usize) < N_MACROS {
            self.arm = m as i8;
        }
    }

    /// Free every controller of a macro, and stop waiting if it was waiting.
    pub fn clear(&mut self, m: u8)
        ensures
            final(self).arm == if old(self).arm == as_signed(m) {
                -1
            } else {
                old(self).arm as int
            },
            forall|cc: int|
                0 <= cc < N_CC ==> #[trigger] final(self).map@[cc] == if old(self).map@[cc]
                    == as_signed(m) {
                    -1
                } else {
                    old(self).map@[cc] as int
                },
    {
        let s: i8 = signed(m);
        if self.arm == s {
            self.arm = -1;
        }
        let ghost start = self.map;
        let ghost arm = self.arm;
        let mut cc: usize = 0;
        while cc < N_CC
            invariant
                cc <= N_CC,
                s == as_signed(m),
                self.arm == arm,
                forall|i: int|
                    0 <= i < N_CC ==> #[trigger] self.map@[i] == if i < cc && start@[i]
                        == as_signed(m) {
                        -1
                    } else {
                        start@[i] as int
                    },
            decreases N_CC - cc,
        {
            if self.map[cc] == s {
                self.map[cc] = -1;
            }
            cc = cc + 1;
        }
    }

    /// A controller moved: a waiting macro takes it and stops waiting. Which
    /// macro it moves now is handed back.
    pub fn on_cc(&mut self, cc: u8) -> (r: Option<usize>)
        ensures
            cc >= N_CC ==> r is None && *final(self) == *old(self),
            cc < N_CC ==> {
                let m = if old(self).arm >= 0 {
                    old(self).arm
                } else {
                    old(self).map@[cc as int]
                };
                &&& final(self).map@ == old(self).map@.update(cc as int, m)
                &&& final(self).arm == if old(self).arm >= 0 {
                    -1
                } else {
                    old(self).arm as int
                }
                &&& r == if 0 <= m < N_MACROS {
                    Some(m as usize)
                } else {
                    None
                }
            },
    {
        if (cc as usize) < N_CC {
            if self.arm >= 0 {
                self.map[cc as usize] = self.arm;
                self.arm = -1;
            }
            assert(self.map@ =~= old(self).map@.update(cc as int, self.map@[cc as int]));
            let m: i8 = self.map[cc as usize];
            if 0 <= m && m < 8 {
                Some(m as usize)
            } else {
                None
            }
        } else {
            None
        }
    }
}

/// After a macro was cleared no controller moves it and it does not wait.
pub proof fn a_cleared_macro_is_free(before: Learn, after: Learn, m: u8)
    requires
        before.ok(),
        m < N_MACROS,
        after.arm == if before.arm == as_signed(m) {
            -1
        } else {
            before.arm as int
        },
        forall|cc: int|
            0 <= cc < N_CC ==> #[trigger] after.map@[cc] == if before.map@[cc] == as_signed(m) {
                -1
            } else {
                before.map@[cc] as int
            },
    ensures
        after.ok(),
        after.arm != m,
        last_cc(after.map, N_CC as int, m as int) == -1,
{
    assert forall|cc: int| 0 <= cc < N_CC implies -1 <= #[trigger] after.map@[cc] < N_MACROS by {
        assert(-1 <= before.map@[cc] < N_MACROS);
    }
    lemma_none_left(after.map, N_CC as int, m as int);
}

proof fn lemma_none_left(map: CcMap, n: int, m: int)
    requires
        0 <= n <= N_CC,
        forall|cc: int| 0 <= cc < N_CC ==> #[trigger] map@[cc] != m,
    ensures
        last_cc(map, n, m) == -1,
    decreases n,
{
    if n > 0 {
        lemma_none_left(map, n - 1, m);
    }
}

/// What an editor last showed of the map, and whether a change still has to be
/// saved.
#[derive(Clone, Copy, Debug)]
pub struct LearnWatch {
    pub shown: [i32; 8],
    pub unsaved: bool,
}

impl LearnWatch {
    pub fn new() -> (r: Self)
        ensures
            forall|m: int| 0 <= m < N_MACROS ==> #[trigger] r.shown@[m] == -1,
            !r.unsaved,
    {
        LearnWatch { shown: [-1i32; 8], unsaved: false }
    }

    /// Look at the map. Whether what is shown has changed is handed back; a
    /// change has to be saved.
    pub fn observe(&mut self, map: &CcMap) -> (changed: bool)
        ensures
            forall|m: int|
                0 <= m < N_MACROS ==> #[trigger] final(self).shown@[m] == last_cc(
                    *map,
                    N_CC as int,
                    m,
                ),
            changed == !(final(self).shown@ =~= old(self).shown@),
            final(self).unsaved == (old(self).unsaved || changed),
    {
        let now = macro_cc_map(map);
        let mut changed = false;
        let mut m: usize = 0;
        while m < N_MACROS
            invariant
                m <= N_MACROS,
                changed == exists|i: int| 0 <= i < m && #[trigger] now@[i] != self.shown@[i],
            decreases N_MACROS - m,
        {
            if now[m] != self.shown[m] {
                assert(now@[m as int] != self.shown@[m as int]);
                changed = true;
            }
            m = m + 1;
        }
        if !changed {
            assert(now@ =~= self.shown@);
        }
        self.shown = now;
        if changed {
            self.unsaved = true;
        }
        changed
    }

    /// What to save, if a change waits and the saved state can be reached.
    pub fn save(&mut self, map: &CcMap, reachable: bool) -> (r: Option<Vec<(u8, u8)>>)
        ensures
            r is Some <==> old(self).unsaved && reachable,
            r is Some ==> r->0@ == pairs_of(*map, N_CC as int),
            final(self).unsaved == (old(self).unsaved && !reachable),
            final(self).shown == old(self).shown,
    {
        if self.unsaved && reachable {
            self.unsaved = false;
            Some(saved_pairs(map))
        } else {
            None
        }
    }
}

/// What is shown for a macro is the highest controller that moves it, and nothing only
/// where no controller does.
pub proof fn the_last_controller_is_shown(map: CcMap, m: int, cc: int)
    requires
        0 <= m < 8,
        0 <= cc < 128,
    ensures
        ({
            let shown = last_cc(map, 128, m);
            &&& -1 <= shown < 128
            &&& shown >= 0 ==> map@[shown] == m
            &&& map@[cc] == m ==> shown >= cc
        }),
{
    lemma_last_cc(map, 128, m, cc);
}

proof fn lemma_last_cc(map: CcMap, n: int, m: int, cc: int)
    requires
        0 <= n <= 128,
        0 <= cc < 128,
    ensures
        -1 <= last_cc(map, n, m) < n,
        last_cc(map, n, m) >= 0 ==> map@[last_cc(map, n, m)] == m,
        cc < n && map@[cc] == m ==> last_cc(map, n, m) >= cc,
    decreases n,
{
    if n > 0 {
        lemma_last_cc(map, n - 1, m, cc);
    }
}

/// A project saves the controllers that move something, each once with its macro, in
/// rising order.
pub proof fn saved_controllers_are_those_that_move(map: CcMap, cc: int, i: int, j: int)
    requires
        map_ok(map),
        0 <= cc < 128,
    ensures
        ({
            let saved = pairs_of(map, 128);
            &&& 0 <= i < saved.len() ==> saved[i].0 < 128 && map@[saved[i].0 as int] == saved[i].1
            &&& 0 <= i < j < saved.len() ==> saved[i].0 < saved[j].0
            &&& map@[cc] >= 0 ==> saved.contains((cc as u8, map@[cc] as u8))
        }),
{
    lemma_saved(map, 128);
}

proof fn lemma_saved(map: CcMap, n: int)
    requires
        map_ok(map),
        0 <= n <= 128,
    ensures
        ({
            let saved = pairs_of(map, n);
            &&& forall|i: int|
                0 <= i < saved.len() ==> (#[trigger] saved[i]).0 < n && map@[saved[i].0 as int]
                    == saved[i].1
            &&& forall|i: int, j: int|
                0 <= i < j < saved.len() ==> (#[trigger] saved[i]).0 < (#[trigger] saved[j]).0
            &&& forall|cc: int|
                0 <= cc < n && (#[trigger] map@[cc]) >= 0 ==> saved.contains(
                    (cc as u8, map@[cc] as u8),
                )
        }),
    decreases n,
{
    if n > 0 {
        lemma_saved(map, n - 1);
        let before = pairs_of(map, n - 1);
        let saved = pairs_of(map, n);
        assert(-1 <= map@[n - 1] < N_MACROS);
        assert forall|cc: int| 0 <= cc < n && (#[trigger] map@[cc]) >= 0 implies saved.contains(
            (cc as u8, map@[cc] as u8),
        ) by {
            if cc == n - 1 {
                assert(saved[before.len() as int] == (cc as u8, map@[cc] as u8));
            } else {
                let pair = (cc as u8, map@[cc] as u8);
                let i = choose|i: int| 0 <= i < before.len() && before[i] == pair;
                assert(saved[i] == pair);
            }
        }
    }
}

/// Of the saved pairs for a controller the last that names one of the eight macros
/// counts; a controller without such a pair is free.
pub proof fn the_last_saved_pair_counts(pairs: Seq<(u8, u8)>, i: int, cc: int)
    requires
        0 <= cc < 128,
    ensures
        ({
            let moves = paired(pairs, pairs.len() as int, cc);
            &&& 0 <= i < pairs.len() && pairs[i].0 == cc && pairs[i].1 < 8 && (forall|j: int|
                i < j < pairs.len() ==> (#[trigger] pairs[j]).0 != cc || pairs[j].1 >= 8) ==> moves
                == pairs[i].1
            &&& (forall|j: int|
                0 <= j < pairs.len() ==> (#[trigger] pairs[j]).0 != cc || pairs[j].1 >= 8) ==> moves
                == -1
        }),
{
    lemma_last_pair(pairs, pairs.len() as int, i, cc);
}

proof fn lemma_last_pair(pairs: Seq<(u8, u8)>, n: int, i: int, cc: int)
    requires
        0 <= cc < 128,
        0 <= n <= pairs.len(),
    ensures
        0 <= i < n && pairs[i].0 == cc && pairs[i].1 < 8 && (forall|j: int|
            i < j < n ==> (#[trigger] pairs[j]).0 != cc || pairs[j].1 >= 8) ==> paired(pairs, n, cc)
            == pairs[i].1,
        (forall|j: int| 0 <= j < n ==> (#[trigger] pairs[j]).0 != cc || pairs[j].1 >= 8) ==> paired(
            pairs,
            n,
            cc,
        ) == -1,
    decreases n,
{
    if n > 0 {
        lemma_last_pair(pairs, n - 1, i, cc);
        let last = pairs[n - 1];
    }
}

/// A macro that exists has its own number in the maps, and no number is that of two
/// macros.
pub proof fn macros_keep_their_numbers(a: u8, b: u8)
    ensures
        a < 8 ==> as_signed(a) == a,
        as_signed(a) == as_signed(b) ==> a == b,
        -128 <= as_signed(a) < 128,
        (a - as_signed(a)) % 256 == 0,
{
}

} // verus!

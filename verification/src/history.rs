//! Undo and redo: bounded stacks of earlier patterns.

use crate::state::Bank;
use vstd::prelude::*;

verus! {

/// Patterns a stack keeps.
pub const UNDO_CAP: usize = 64;

/// A stack of earlier patterns; the oldest is forgotten beyond the cap.
#[derive(Debug)]
pub struct History<P> {
    pub items: Vec<P>,
}

/// A stack after a pattern was put on it.
pub open spec fn stacked<P>(s: Seq<P>, p: P) -> Seq<P> {
    if s.len() < UNDO_CAP {
        s.push(p)
    } else {
        s.push(p).drop_first()
    }
}

impl<P> History<P> {
    pub open spec fn ok(self) -> bool {
        self.items@.len() <= UNDO_CAP
    }

    pub fn new() -> (r: Self)
        ensures
            r.items@.len() == 0,
            r.ok(),
    {
        History { items: Vec::new() }
    }

    /// Put a pattern on the stack.
    pub fn push(&mut self, p: P)
        ensures
            final(self).items@ == stacked(old(self).items@, p),
            old(self).ok() ==> final(self).ok(),
    {
        self.items.push(p);
        if self.items.len() > UNDO_CAP {
            let _ = self.items.remove(0);
            assert(self.items@ =~= old(self).items@.push(p).drop_first());
        }
    }
}

/// Before the selected pattern is edited: keep it for undo, and forget what
/// could be redone.
pub fn keep_for_undo<P: Copy>(bank: &Bank<P>, undo: &mut History<P>, redo: &mut History<P>)
    ensures
        bank.selects() ==> {
            &&& final(undo).items@ == stacked(
                old(undo).items@,
                bank.patterns@[bank.current as int],
            )
            &&& final(redo).items@.len() == 0
        },
        !bank.selects() ==> *final(undo) == *old(undo) && *final(redo) == *old(redo),
        old(undo).ok() ==> final(undo).ok(),
        old(redo).ok() ==> final(redo).ok(),
{
    let cur: usize = bank.current as usize;
    if cur < bank.patterns.len() {
        undo.push(bank.patterns[cur]);
        redo.items.clear();
    }
}

/// Take the newest pattern off `from` and put it into the selected slot, whose
/// pattern goes onto `onto`. Whether there was one is handed back.
pub fn restore<P: Copy>(bank: &mut Bank<P>, from: &mut History<P>, onto: &mut History<P>) -> (r:
    bool)
    ensures
        r == (old(from).items@.len() > 0),
        !r ==> *final(bank) == *old(bank) && final(from).items@ == old(from).items@ && *final(onto)
            == *old(onto),
        r ==> final(from).items@ == old(from).items@.drop_last(),
        final(bank).current == old(bank).current,
        r && old(bank).selects() ==> {
            &&& final(bank).patterns@ == old(bank).patterns@.update(
                old(bank).current as int,
                old(from).items@.last(),
            )
            &&& final(onto).items@ == stacked(
                old(onto).items@,
                old(bank).patterns@[old(bank).current as int],
            )
        },
        r && !old(bank).selects() ==> *final(bank) == *old(bank) && *final(onto) == *old(onto),
        old(from).ok() ==> final(from).ok(),
        old(onto).ok() ==> final(onto).ok(),
{
    match from.items.pop() {
        None => false,
        Some(p) => {
            let cur: usize = bank.current as usize;
            if cur < bank.patterns.len() {
                onto.push(bank.patterns[cur]);
                bank.patterns[cur] = p;
            }
            true
        },
    }
}

/// The pattern of the selected slot and the two stacks, as one value.
pub struct Timeline<P> {
    pub now: P,
    pub undo: Seq<P>,
    pub redo: Seq<P>,
}

/// An edit that turns the selected pattern into `p`.
pub open spec fn edited<P>(t: Timeline<P>, p: P) -> Timeline<P> {
    Timeline { now: p, undo: stacked(t.undo, t.now), redo: Seq::empty() }
}

/// An undo.
pub open spec fn undone<P>(t: Timeline<P>) -> Timeline<P> {
    if t.undo.len() == 0 {
        t
    } else {
        Timeline {
            now: t.undo.last(),
            undo: t.undo.drop_last(),
            redo: stacked(t.redo, t.now),
        }
    }
}

/// A redo.
pub open spec fn redone<P>(t: Timeline<P>) -> Timeline<P> {
    if t.redo.len() == 0 {
        t
    } else {
        Timeline {
            now: t.redo.last(),
            undo: stacked(t.undo, t.now),
            redo: t.redo.drop_last(),
        }
    }
}

/// An undo takes an edit back, and a redo brings it again.
pub proof fn undo_takes_an_edit_back<P>(t: Timeline<P>, p: P)
    requires
        t.undo.len() <= UNDO_CAP,
    ensures
        undone(edited(t, p)).now == t.now,
        redone(undone(edited(t, p))).now == p,
        t.undo.len() < UNDO_CAP ==> undone(edited(t, p)).undo == t.undo,
{
    if t.undo.len() < UNDO_CAP {
        assert(stacked(t.undo, t.now).drop_last() =~= t.undo);
    }
    assert(stacked(t.undo, t.now).last() == t.now);
}

/// Where there is something to undo, a redo takes the undo back completely.
pub proof fn redo_takes_an_undo_back<P>(t: Timeline<P>)
    requires
        0 < t.undo.len() <= UNDO_CAP,
        t.redo.len() < UNDO_CAP,
    ensures
        redone(undone(t)) == t,
{
    assert(t.redo.push(t.now).drop_last() =~= t.redo);
    assert(t.undo.drop_last().push(t.undo.last()) =~= t.undo);
}

/// Where there is something to redo, an undo takes the redo back completely.
pub proof fn undo_takes_a_redo_back<P>(t: Timeline<P>)
    requires
        0 < t.redo.len() <= UNDO_CAP,
        t.undo.len() < UNDO_CAP,
    ensures
        undone(redone(t)) == t,
{
    assert(t.undo.push(t.now).drop_last() =~= t.undo);
    assert(t.redo.drop_last().push(t.redo.last()) =~= t.redo);
}

/// A new edit cannot be redone past: nothing is left to redo.
pub proof fn an_edit_forgets_the_redo<P>(t: Timeline<P>, p: P)
    ensures
        redone(edited(t, p)) == edited(t, p),
{
}

/// A stack holds the sixty-four newest patterns: the new one on top, those below it in
/// the order in which they came, and only beyond sixty-four is one forgotten, the oldest.
pub proof fn a_stack_keeps_the_newest<P>(s: Seq<P>, p: P)
    requires
        s.len() <= 64,
    ensures
        stacked(s, p).len() == if s.len() < 64 {
            s.len() + 1
        } else {
            64
        },
        stacked(s, p).last() == p,
        s.len() < 64 ==> forall|i: int| 0 <= i < s.len() ==> #[trigger] stacked(s, p)[i] == s[i],
        s.len() == 64 ==> forall|i: int| 0 <= i < 63 ==> #[trigger] stacked(s, p)[i] == s[i + 1],
{
}

} // verus!

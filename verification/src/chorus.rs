//! The chorus's memory: a short ring, read at two wandering places.

use crate::ring::{written, Ring};
use vstd::prelude::*;

verus! {

/// Samples the chorus remembers.
pub const BUFFER_LEN: usize = 4096;

/// The memory of a chorus.
#[derive(Debug)]
pub struct Chorus<T> {
    pub ring: Ring<T>,
}

/// The samples at a place and the one after it, going round.
pub open spec fn pair_at<T>(buf: Seq<T>, i: int) -> (T, T) {
    (buf[i % buf.len() as int], buf[(i % buf.len() as int + 1) % buf.len() as int])
}

impl<T: Copy> Chorus<T> {
    pub open spec fn well_formed(self) -> bool {
        self.ring.well_formed() && self.ring.buf@.len() == BUFFER_LEN
    }

    pub fn new(zero: T) -> (r: Self)
        ensures
            r.well_formed(),
            r.ring.pos == 0,
            r.ring.recent() == Seq::new(BUFFER_LEN as nat, |i: int| zero),
    {
        Chorus { ring: Ring::new(BUFFER_LEN, zero) }
    }

    /// Forget everything.
    pub fn reset(&mut self, zero: T)
        requires
            old(self).well_formed(),
        ensures
            final(self).well_formed(),
            final(self).ring.pos == 0,
            final(self).ring.recent() == Seq::new(BUFFER_LEN as nat, |i: int| zero),
    {
        self.ring.clear(zero);
    }

    /// Where the next sample goes.
    pub fn head(&self) -> (r: usize)
        requires
            self.well_formed(),
        ensures
            r == self.ring.pos,
            r < 4096,
    {
        self.ring.pos
    }

    /// Take a sample in, and read a pair of neighbours at each of two places;
    /// the new sample can already be read.
    pub fn step(&mut self, x: T, left: usize, right: usize) -> (r: ((T, T), (T, T)))
        requires
            old(self).well_formed(),
        ensures
            final(self).well_formed(),
            final(self).ring.pos == old(self).ring.next_pos(),
            final(self).ring.recent() == written(old(self).ring.recent(), x),
            r.0 == pair_at(
                old(self).ring.buf@.update(old(self).ring.pos as int, x),
                left as int,
            ),
            r.1 == pair_at(
                old(self).ring.buf@.update(old(self).ring.pos as int, x),
                right as int,
            ),
    {
        let ghost before = self.ring.recent();
        self.ring.put(x);
        let l = self.ring.neighbours(left);
        let r = self.ring.neighbours(right);
        self.ring.advance();
        assert(self.ring.recent() =~= written(before, x));
        (l, r)
    }
}

/// A pair is a sample and the one after it: the first after the last, and the same again
/// once round.
pub proof fn neighbours_go_round<T>(buf: Seq<T>, i: int)
    requires
        0 <= i < buf.len(),
    ensures
        pair_at(buf, i).0 == buf[i],
        i + 1 < buf.len() ==> pair_at(buf, i).1 == buf[i + 1],
        i + 1 == buf.len() ==> pair_at(buf, i).1 == buf[0],
        pair_at(buf, i + buf.len()) == pair_at(buf, i),
{
    let n = buf.len() as int;
    assert(i % n == i) by (nonlinear_arith)
        requires
            0 <= i < n,
    ;
    assert((i + n) % n == i) by (nonlinear_arith)
        requires
            0 <= i < n,
    ;
    if i + 1 < n {
        assert((i + 1) % n == i + 1) by (nonlinear_arith)
            requires
                0 <= i + 1 < n,
        ;
    } else {
        assert(n % n == 0) by (nonlinear_arith)
            requires
                n > 0,
        ;
    }
}

} // verus!

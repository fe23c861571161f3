//! Ring buffers: the memory behind every delay.

use vstd::prelude::*;

verus! {

/// The last `buf.len()` samples; `pos` is where the next one goes.
#[derive(Debug)]
pub struct Ring<T> {
    pub buf: Vec<T>,
    pub pos: usize,
}

impl<T: Copy> Ring<T> {
    pub open spec fn well_formed(self) -> bool {
        self.pos < self.buf@.len()
    }

    /// Where the sample of `k` writes ago lies.
    pub open spec fn place(self, k: int) -> int {
        if k <= self.pos {
            self.pos - k
        } else {
            self.pos + self.buf@.len() - k
        }
    }

    /// Where the sample after the next goes.
    pub open spec fn next_pos(self) -> int {
        if self.pos + 1 < self.buf@.len() {
            self.pos + 1
        } else {
            0
        }
    }

    /// The samples held, the latest first.
    pub open spec fn recent(self) -> Seq<T> {
        Seq::new(self.buf@.len(), |k: int| self.buf@[self.place(k + 1)])
    }

    /// A ring of `len` samples, all `zero`.
    pub fn new(len: usize, zero: T) -> (r: Self)
        requires
            len > 0,
        ensures
            r.well_formed(),
            r.pos == 0,
            r.buf@ == Seq::new(len as nat, |i: int| zero),
            r.recent() == Seq::new(len as nat, |i: int| zero),
    {
        let mut buf: Vec<T> = Vec::new();
        while buf.len() < len
            invariant
                buf@.len() <= len,
                forall|i: int| 0 <= i < buf@.len() ==> #[trigger] buf@[i] == zero,
            decreases len - buf@.len(),
        {
            buf.push(zero);
        }
        let r = Ring { buf, pos: 0 };
        assert(r.buf@ =~= Seq::new(len as nat, |i: int| zero));
        assert(r.recent() =~= Seq::new(len as nat, |i: int| zero));
        r
    }

    /// Forget everything: every sample becomes `zero`.
    pub fn clear(&mut self, zero: T)
        requires
            old(self).well_formed(),
        ensures
            final(self).well_formed(),
            final(self).pos == 0,
            final(self).buf@.len() == old(self).buf@.len(),
            final(self).recent() == Seq::new(old(self).buf@.len(), |i: int| zero),
    {
        let mut i: usize = 0;
        while i < self.buf.len()
            invariant
                i <= self.buf@.len(),
                self.buf@.len() == old(self).buf@.len(),
                forall|j: int| 0 <= j < i ==> #[trigger] self.buf@[j] == zero,
            decreases self.buf@.len() - i,
        {
            self.buf.set(i, zero);
            i = i + 1;
        }
        self.pos = 0;
        assert(self.recent() =~= Seq::new(old(self).buf@.len(), |i: int| zero));
    }

    /// Put a sample where the next one goes, without moving on.
    pub fn put(&mut self, x: T)
        requires
            old(self).well_formed(),
        ensures
            final(self).well_formed(),
            final(self).pos == old(self).pos,
            final(self).buf@ == old(self).buf@.update(old(self).pos as int, x),
    {
        self.buf.set(self.pos, x);
    }

    /// Move on by one sample.
    pub fn advance(&mut self)
        requires
            old(self).well_formed(),
        ensures
            final(self).well_formed(),
            final(self).buf == old(self).buf,
            final(self).pos == old(self).next_pos(),
    {
        let len: usize = self.buf.len();
        self.pos = if self.pos < len - 1 {
            self.pos + 1
        } else {
            0
        };
    }

    /// Write a sample: it becomes the latest, and the oldest is forgotten.
    pub fn write(&mut self, x: T)
        requires
            old(self).well_formed(),
        ensures
            final(self).well_formed(),
            final(self).buf@.len() == old(self).buf@.len(),
            final(self).pos == old(self).next_pos(),
            final(self).recent() == written(old(self).recent(), x),
    {
        self.put(x);
        self.advance();
        assert(self.recent() =~= written(old(self).recent(), x));
    }

    /// The sample of `d` writes ago.
    pub fn back(&self, d: usize) -> (x: T)
        requires
            self.well_formed(),
            1 <= d <= self.buf@.len(),
        ensures
            x == self.recent()[d - 1],
    {
        if d <= self.pos {
            self.buf[self.pos - d]
        } else {
            self.buf[self.buf.len() - (d - self.pos)]
        }
    }

    /// Write a sample and hand out the one of `d` writes before it.
    pub fn delay(&mut self, x: T, d: usize) -> (out: T)
        requires
            old(self).well_formed(),
            1 <= d <= old(self).buf@.len(),
        ensures
            out == old(self).recent()[d - 1],
            final(self).well_formed(),
            final(self).buf@.len() == old(self).buf@.len(),
            final(self).pos == old(self).next_pos(),
            final(self).recent() == written(old(self).recent(), x),
    {
        let out = self.back(d);
        self.write(x);
        out
    }

    /// Two neighbouring samples, to interpolate between; a place past the end
    /// starts over.
    pub fn neighbours(&self, i: usize) -> (r: (T, T))
        requires
            self.well_formed(),
        ensures
            r.0 == self.buf@[i as int % self.buf@.len() as int],
            r.1 == self.buf@[(i as int % self.buf@.len() as int + 1) % self.buf@.len() as int],
    {
        let len: usize = self.buf.len();
        let a: usize = i % len;
        let b: usize = if a < len - 1 {
            a + 1
        } else {
            0
        };
        assert(b == (a + 1) % len as int) by {
            if a == len - 1 {
                assert(len as int % len as int == 0) by (nonlinear_arith)
                    requires
                        len > 0,
                ;
            } else {
                assert((a + 1) % len as int == a + 1) by (nonlinear_arith)
                    requires
                        0 <= a + 1 < len,
                ;
            }
        }
        (self.buf[a], self.buf[b])
    }
}

/// Two rings hold the same: the same samples, the latest first, and the next one
/// goes to the same place.
pub open spec fn hold_the_same<T: Copy>(a: Ring<T>, b: Ring<T>) -> bool {
    a.pos == b.pos && a.recent() == b.recent()
}

/// Rings that hold the same read the same, wherever they are read.
pub proof fn equal_rings_read_the_same<T: Copy>(a: Ring<T>, b: Ring<T>)
    requires
        a.well_formed(),
        b.well_formed(),
        hold_the_same(a, b),
    ensures
        a.buf@ == b.buf@,
{
    assert(a.recent().len() == b.recent().len());
    assert forall|i: int| 0 <= i < a.buf@.len() implies #[trigger] a.buf@[i] == b.buf@[i] by {
        let k = if i < a.pos {
            a.pos - 1 - i
        } else {
            a.pos + a.buf@.len() - 1 - i
        };
        assert(a.place(k + 1) == i && b.place(k + 1) == i);
        assert(a.recent()[k] == b.recent()[k]);
    }
    assert(a.buf@ =~= b.buf@);
}

/// The samples held after another was written.
pub open spec fn written<T>(held: Seq<T>, x: T) -> Seq<T> {
    seq![x] + held.drop_last()
}

/// The samples held after several were written.
pub open spec fn all_written<T>(held: Seq<T>, xs: Seq<T>) -> Seq<T>
    decreases xs.len(),
{
    if xs.len() == 0 {
        held
    } else {
        written(all_written(held, xs.drop_last()), xs.last())
    }
}

/// A delay gives back what was written: after any run of samples the one of `d`
/// writes ago is the one that was written then, as long as the ring reaches.
pub proof fn a_delay_gives_back_what_was_written<T>(held: Seq<T>, xs: Seq<T>, d: int)
    requires
        1 <= d <= xs.len(),
        d <= held.len(),
    ensures
        all_written(held, xs).len() == held.len(),
        all_written(held, xs)[d - 1] == xs[xs.len() - d],
    decreases xs.len(),
{
    lemma_len_kept(held, xs.drop_last());
    if d > 1 {
        a_delay_gives_back_what_was_written(held, xs.drop_last(), d - 1);
    }
}

proof fn lemma_len_kept<T>(held: Seq<T>, xs: Seq<T>)
    requires
        held.len() > 0,
    ensures
        all_written(held, xs).len() == held.len(),
    decreases xs.len(),
{
    if xs.len() > 0 {
        lemma_len_kept(held, xs.drop_last());
    }
}

/// A ring that is fed silence falls silent: after as many zeros as it holds
/// nothing else is left.
pub proof fn silence_flushes_a_ring<T>(held: Seq<T>, zero: T, n: int)
    requires
        held.len() > 0,
        n >= held.len(),
    ensures
        all_written(held, Seq::new(n as nat, |i: int| zero)) == Seq::new(held.len(), |i: int| zero),
{
    let zeros = Seq::new(n as nat, |i: int| zero);
    lemma_len_kept(held, zeros);
    let r = all_written(held, zeros);
    assert forall|k: int| 0 <= k < held.len() implies #[trigger] r[k] == zero by {
        a_delay_gives_back_what_was_written(held, zeros, k + 1);
    }
    assert(r =~= Seq::new(held.len(), |i: int| zero));
}

/// Writing puts the new sample first, moves every other one back by one, and drops the
/// oldest.
pub proof fn a_write_moves_everything_back<T>(held: Seq<T>, x: T, k: int)
    requires
        held.len() > 0,
        0 <= k < held.len() - 1,
    ensures
        written(held, x).len() == held.len(),
        written(held, x)[0] == x,
        written(held, x)[k + 1] == held[k],
{
}

/// The latest sample of a ring lies just before the place where the next one goes, and
/// each older one just before the one after it, going round.
pub proof fn samples_lie_in_the_order_they_came<T: Copy>(ring: Ring<T>, k: int)
    requires
        ring.well_formed(),
        1 <= k <= ring.buf@.len(),
    ensures
        ring.recent().len() == ring.buf@.len(),
        0 <= ring.place(k) < ring.buf@.len(),
        ring.recent()[k - 1] == ring.buf@[ring.place(k)],
        ring.pos >= k ==> ring.place(k) == ring.pos - k,
        ring.pos < k ==> ring.place(k) == ring.pos - k + ring.buf@.len(),
        ring.pos + 1 < ring.buf@.len() ==> ring.next_pos() == ring.pos + 1,
        ring.pos + 1 == ring.buf@.len() ==> ring.next_pos() == 0,
{
}

} // verus!

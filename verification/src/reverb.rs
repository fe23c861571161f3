//! The reverb: its settings, what has to be computed again when they change,
//! and the memory of its network.

use crate::chorus::pair_at;
use crate::ieee::{guarding_and_clamping_settles, ieee, percent, settles, settles_in_unit, Ieee32, ONE, TWENTIETH, ZERO};
use crate::ring::{all_written, equal_rings_read_the_same, hold_the_same, silence_flushes_a_ring, written, Ring};
use vstd::prelude::*;

verus! {

/// The kind of space.
#[derive(Clone, Copy, Debug, PartialEq, Eq, Structural)]
pub enum ReverbAlgo {
    /// A bright, dense plate.
    Plate224,
    /// A large hall.
    Hall,
    /// A spring tank.
    Spring,
    /// A small room.
    Room,
}

/// Delay lines of the network.
pub const NUM_LINES: usize = 8;

/// Lengths of the lines at 44.1 kHz, without a common factor.
pub const BASE_LENGTHS_44K: [usize; 8] = [1153, 1361, 1733, 2069, 2503, 2861, 3209, 3539];

/// Samples a line remembers.
pub const MAX_LINE_LEN: usize = 65536;

/// The two lines that waver.
pub const MOD_LINES: [usize; 2] = [2, 5];

/// `0.25`: the longest gap before the tail, in seconds.
pub const MAX_PREDELAY_SECS: u32 = 0x3e80_0000;

/// `1e-6`: a setting that moved less has not changed.
pub const STILL: u32 = 0x3586_37bd;

/// `1e-3`: a corner that moved less has not changed.
pub const STILL_HZ: u32 = 0x3a83_126f;

/// `2.5`
pub const DECAY_SECS: u32 = 0x4020_0000;

/// `120.0`
pub const MAX_DECAY_SECS: u32 = 0x42f0_0000;

/// `80.0`
pub const LOCUT_HZ: u32 = 0x42a0_0000;

/// `10.0`
pub const MIN_LOCUT_HZ: u32 = 0x4120_0000;

/// `9000.0`
pub const HICUT_HZ: u32 = 0x460c_a000;

/// `100.0`
pub const MIN_HICUT_HZ: u32 = 0x42c8_0000;

/// `4.0`
pub const MAX_SEND: u32 = 0x4080_0000;

/// `8.0`
pub const MAX_RETURN: u32 = 0x4100_0000;

impl ReverbAlgo {
    /// How the lines of this space are scaled.
    pub open spec fn scale(self) -> Ieee32 {
        match self {
            ReverbAlgo::Plate224 => ieee(ONE),
            ReverbAlgo::Hall => ieee(0x400c_cccd),
            ReverbAlgo::Spring => percent(60),
            ReverbAlgo::Room => percent(75),
        }
    }

    /// How much darker this space is than the knob says.
    pub open spec fn bias(self) -> Ieee32 {
        match self {
            ReverbAlgo::Plate224 => ieee(ZERO),
            ReverbAlgo::Hall => percent(15),
            ReverbAlgo::Spring => percent(10),
            ReverbAlgo::Room => percent(25),
        }
    }

    /// How the lines of this space are scaled.
    pub fn length_scale(self) -> (r: Ieee32)
        ensures
            r == self.scale(),
    {
        match self {
            ReverbAlgo::Plate224 => ieee(ONE),
            ReverbAlgo::Hall => ieee(0x400c_cccd),
            ReverbAlgo::Spring => percent(60),
            ReverbAlgo::Room => percent(75),
        }
    }

    /// How much darker this space is than the knob says.
    pub fn damping_bias(self) -> (r: Ieee32)
        ensures
            r == self.bias(),
    {
        match self {
            ReverbAlgo::Plate224 => ieee(ZERO),
            ReverbAlgo::Hall => percent(15),
            ReverbAlgo::Spring => percent(10),
            ReverbAlgo::Room => percent(25),
        }
    }
}

/// What a reverb is set to.
#[derive(Clone, Copy, Debug, PartialEq, Eq, Structural)]
pub struct ReverbParams {
    pub on: bool,
    pub algo: ReverbAlgo,
    pub decay_secs: Ieee32,
    pub size: Ieee32,
    pub damping: Ieee32,
    pub locut_hz: Ieee32,
    pub hicut_hz: Ieee32,
    pub modulation: Ieee32,
    pub width: Ieee32,
    pub freeze: bool,
    pub send: Ieee32,
    pub return_gain: Ieee32,
}

/// The settings a reverb is asked for.
#[derive(Clone, Copy, Debug, PartialEq, Eq, Structural)]
pub struct ReverbRequest {
    pub on: bool,
    pub algo: ReverbAlgo,
    pub decay_secs: Ieee32,
    pub size: Ieee32,
    pub damping: Ieee32,
    pub locut_hz: Ieee32,
    pub hicut_hz: Ieee32,
    pub modulation: Ieee32,
    pub width: Ieee32,
    pub freeze: bool,
}

/// How far each setting, made usable, would move.
#[derive(Clone, Copy, Debug, PartialEq, Eq, Structural)]
pub struct Moves {
    pub decay: Ieee32,
    pub size: Ieee32,
    pub damping: Ieee32,
    pub locut: Ieee32,
    pub hicut: Ieee32,
}

/// What has to be computed again.
#[derive(Clone, Copy, Debug, PartialEq, Eq, Structural)]
pub struct Recompute {
    /// The lengths of the lines, and with them the feedback.
    pub lengths: bool,
    /// The feedback of the lines.
    pub feedback: bool,
    /// The damping, which depends on the space too.
    pub damping: bool,
    pub filters: bool,
}

/// A decay time between 50 ms and two minutes.
pub open spec fn usable_decay(secs: Ieee32) -> Ieee32 {
    secs.guarded(ieee(DECAY_SECS)).clamped(ieee(TWENTIETH), ieee(MAX_DECAY_SECS))
}

pub open spec fn usable_locut(hz: Ieee32, nyquist: Ieee32) -> Ieee32 {
    hz.guarded(ieee(LOCUT_HZ)).larger(ieee(MIN_LOCUT_HZ)).smaller(nyquist)
}

pub open spec fn usable_hicut(hz: Ieee32, nyquist: Ieee32) -> Ieee32 {
    hz.guarded(ieee(HICUT_HZ)).larger(ieee(MIN_HICUT_HZ)).smaller(nyquist)
}

/// A decay time between 50 ms and two minutes.
pub fn clamp_decay(secs: Ieee32) -> (r: Ieee32)
    ensures
        r == usable_decay(secs),
{
    secs.guard(ieee(DECAY_SECS)).clamp(ieee(TWENTIETH), ieee(MAX_DECAY_SECS))
}

/// A low corner that the sample rate allows.
pub fn clamp_locut(hz: Ieee32, nyquist: Ieee32) -> (r: Ieee32)
    ensures
        r == usable_locut(hz, nyquist),
{
    hz.guard(ieee(LOCUT_HZ)).max(ieee(MIN_LOCUT_HZ)).min(nyquist)
}

/// A high corner that the sample rate allows.
pub fn clamp_hicut(hz: Ieee32, nyquist: Ieee32) -> (r: Ieee32)
    ensures
        r == usable_hicut(hz, nyquist),
{
    hz.guard(ieee(HICUT_HZ)).max(ieee(MIN_HICUT_HZ)).min(nyquist)
}

/// What has to be computed again for a request.
pub open spec fn recompute_for(p: ReverbParams, q: ReverbRequest, m: Moves) -> Recompute {
    let lengths = q.algo != p.algo || ieee(STILL).below(m.size);
    Recompute {
        lengths,
        feedback: lengths || ieee(STILL).below(m.decay) || q.freeze != p.freeze,
        damping: q.algo != p.algo || ieee(STILL).below(m.damping),
        filters: ieee(STILL_HZ).below(m.locut) || ieee(STILL_HZ).below(m.hicut),
    }
}

/// The settings after a request: one that has not changed stays as it was.
pub open spec fn settings_for(
    p: ReverbParams,
    q: ReverbRequest,
    m: Moves,
    nyquist: Ieee32,
) -> ReverbParams {
    let r = recompute_for(p, q, m);
    ReverbParams {
        on: q.on,
        algo: if r.lengths {
            q.algo
        } else {
            p.algo
        },
        size: if r.lengths {
            q.size.unit_clamped()
        } else {
            p.size
        },
        decay_secs: if ieee(STILL).below(m.decay) || q.freeze != p.freeze {
            usable_decay(q.decay_secs)
        } else {
            p.decay_secs
        },
        freeze: q.freeze,
        damping: if ieee(STILL).below(m.damping) {
            q.damping.unit_clamped()
        } else {
            p.damping
        },
        locut_hz: if r.filters {
            usable_locut(q.locut_hz, nyquist)
        } else {
            p.locut_hz
        },
        hicut_hz: if r.filters {
            usable_hicut(q.hicut_hz, nyquist)
        } else {
            p.hicut_hz
        },
        modulation: q.modulation.unit_clamped(),
        width: q.width.unit_clamped(),
        send: p.send,
        return_gain: p.return_gain,
    }
}

/// How much goes into a reverb, of what was asked for.
pub open spec fn usable_send(send: Ieee32) -> Ieee32 {
    send.guarded(ieee(ZERO)).clamped(ieee(ZERO), ieee(MAX_SEND))
}

/// How much comes back from a reverb, of what was asked for.
pub open spec fn usable_return(gain: Ieee32) -> Ieee32 {
    gain.guarded(ieee(ONE)).clamped(ieee(ZERO), ieee(MAX_RETURN))
}

impl ReverbParams {
    /// A plate of two and a half seconds.
    pub fn new() -> (r: Self)
        ensures
            r == (ReverbParams {
                on: true,
                algo: ReverbAlgo::Plate224,
                decay_secs: ieee(DECAY_SECS),
                size: percent(60),
                damping: percent(40),
                locut_hz: ieee(LOCUT_HZ),
                hicut_hz: ieee(HICUT_HZ),
                modulation: percent(20),
                width: ieee(ONE),
                freeze: false,
                send: ieee(ZERO),
                return_gain: ieee(ONE),
            }),
    {
        ReverbParams {
            on: true,
            algo: ReverbAlgo::Plate224,
            decay_secs: ieee(DECAY_SECS),
            size: percent(60),
            damping: percent(40),
            locut_hz: ieee(LOCUT_HZ),
            hicut_hz: ieee(HICUT_HZ),
            modulation: percent(20),
            width: ieee(ONE),
            freeze: false,
            send: ieee(ZERO),
            return_gain: ieee(ONE),
        }
    }

    /// Take a request, and say what has to be computed again.
    pub fn set_params(&mut self, q: ReverbRequest, m: Moves, nyquist: Ieee32) -> (r: Recompute)
        ensures
            r == recompute_for(*old(self), q, m),
            *final(self) == settings_for(*old(self), q, m, nyquist),
    {
        self.on = q.on;
        let space = q.algo != self.algo;
        let lengths = space || ieee(STILL).lt(m.size);
        if lengths {
            self.algo = q.algo;
            self.size = q.size.clamp01();
        }
        let decays = ieee(STILL).lt(m.decay) || q.freeze != self.freeze;
        if decays {
            self.decay_secs = clamp_decay(q.decay_secs);
        }
        self.freeze = q.freeze;
        let damping = ieee(STILL).lt(m.damping);
        if damping {
            self.damping = q.damping.clamp01();
        }
        let filters = ieee(STILL_HZ).lt(m.locut) || ieee(STILL_HZ).lt(m.hicut);
        if filters {
            self.locut_hz = clamp_locut(q.locut_hz, nyquist);
            self.hicut_hz = clamp_hicut(q.hicut_hz, nyquist);
        }
        self.modulation = q.modulation.clamp01();
        self.width = q.width.clamp01();
        Recompute { lengths, feedback: lengths || decays, damping: space || damping, filters }
    }

    /// Set how much goes in and how much comes back.
    pub fn set_send(&mut self, send: Ieee32, return_gain: Ieee32)
        ensures
            *final(self) == (ReverbParams {
                send: usable_send(send),
                return_gain: usable_return(return_gain),
                ..*old(self)
            }),
    {
        self.send = send.guard(ieee(ZERO)).clamp(ieee(ZERO), ieee(MAX_SEND));
        self.return_gain = return_gain.guard(ieee(ONE)).clamp(ieee(ZERO), ieee(MAX_RETURN));
    }

    pub fn is_frozen(&self) -> (r: bool)
        ensures
            r == self.freeze,
    {
        self.freeze
    }
}

/// The settings that a request asks for.
pub open spec fn asked(
    q: ReverbRequest,
    nyquist: Ieee32,
    send: Ieee32,
    return_gain: Ieee32,
) -> ReverbParams {
    ReverbParams {
        on: q.on,
        algo: q.algo,
        decay_secs: usable_decay(q.decay_secs),
        size: q.size.unit_clamped(),
        damping: q.damping.unit_clamped(),
        locut_hz: usable_locut(q.locut_hz, nyquist),
        hicut_hz: usable_hicut(q.hicut_hz, nyquist),
        modulation: q.modulation.unit_clamped(),
        width: q.width.unit_clamped(),
        freeze: q.freeze,
        send,
        return_gain,
    }
}

/// No setting is asked to move by less than counts as a move: one that does not
/// move enough is already as asked.
pub open spec fn moves_or_stays(
    p: ReverbParams,
    q: ReverbRequest,
    m: Moves,
    nyquist: Ieee32,
) -> bool {
    let a = asked(q, nyquist, p.send, p.return_gain);
    &&& ieee(STILL).below(m.size) || p.size == a.size
    &&& ieee(STILL).below(m.decay) || p.decay_secs == a.decay_secs
    &&& ieee(STILL).below(m.damping) || p.damping == a.damping
    &&& ieee(STILL_HZ).below(m.locut) || p.locut_hz == a.locut_hz
    &&& ieee(STILL_HZ).below(m.hicut) || p.hicut_hz == a.hicut_hz
}

/// A request sets everything: each setting is afterwards what was asked for, or
/// was so near to it that it did not move.
pub proof fn a_request_sets_everything(
    p: ReverbParams,
    q: ReverbRequest,
    m: Moves,
    nyquist: Ieee32,
)
    ensures
        ({
            let s = settings_for(p, q, m, nyquist);
            let a = asked(q, nyquist, p.send, p.return_gain);
            &&& s == (ReverbParams {
                size: s.size,
                decay_secs: s.decay_secs,
                damping: s.damping,
                locut_hz: s.locut_hz,
                hicut_hz: s.hicut_hz,
                ..a
            })
            &&& s.size == a.size || (s.size == p.size && !ieee(STILL).below(m.size))
            &&& s.decay_secs == a.decay_secs || (s.decay_secs == p.decay_secs && !ieee(STILL).below(
                m.decay,
            ))
            &&& s.damping == a.damping || (s.damping == p.damping && !ieee(STILL).below(m.damping))
            &&& s.locut_hz == a.locut_hz || (s.locut_hz == p.locut_hz && !ieee(STILL_HZ).below(
                m.locut,
            ))
            &&& s.hicut_hz == a.hicut_hz || (s.hicut_hz == p.hicut_hz && !ieee(STILL_HZ).below(
                m.hicut,
            ))
        }),
{
}

/// Settings forget the past: two reverbs that are given the same request hold the
/// same settings, whatever they held before, where neither is asked to move a
/// setting by less than counts as a move. How much goes in and comes back is set
/// elsewhere.
pub proof fn settings_forget_the_past(
    p1: ReverbParams,
    p2: ReverbParams,
    q: ReverbRequest,
    m1: Moves,
    m2: Moves,
    nyquist: Ieee32,
)
    requires
        moves_or_stays(p1, q, m1, nyquist),
        moves_or_stays(p2, q, m2, nyquist),
    ensures
        settings_for(p1, q, m1, nyquist) == asked(q, nyquist, p1.send, p1.return_gain),
        settings_for(p2, q, m2, nyquist) == asked(q, nyquist, p2.send, p2.return_gain),
        settings_for(p1, q, m1, nyquist) == (ReverbParams {
            send: p1.send,
            return_gain: p1.return_gain,
            ..settings_for(p2, q, m2, nyquist)
        }),
{
}

/// What depends on a setting that changed is computed again, so that it always
/// fits the settings.
pub proof fn what_changed_is_computed_again(
    p: ReverbParams,
    q: ReverbRequest,
    m: Moves,
    nyquist: Ieee32,
)
    ensures
        ({
            let s = settings_for(p, q, m, nyquist);
            let r = recompute_for(p, q, m);
            &&& s.algo != p.algo || s.size != p.size ==> r.lengths && r.feedback
            &&& s.decay_secs != p.decay_secs || s.freeze != p.freeze ==> r.feedback
            &&& s.damping != p.damping || s.algo != p.algo ==> r.damping
            &&& s.locut_hz != p.locut_hz || s.hicut_hz != p.hicut_hz ==> r.filters
        }),
{
}

/// The gap before the tail: a ring that is read a fixed way back.
#[derive(Debug)]
pub struct PreDelay<T> {
    pub ring: Ring<T>,
    pub len: usize,
}

impl<T: Copy> PreDelay<T> {
    pub open spec fn well_formed(self) -> bool {
        self.ring.well_formed() && 1 <= self.len <= self.ring.buf@.len()
    }

    pub fn new(max_len: usize, zero: T) -> (r: Self)
        ensures
            r.well_formed(),
            r.len == 1,
            r.ring.buf@.len() == if max_len < 1 {
                1
            } else {
                max_len as int
            },
            r.ring.recent() == Seq::new(r.ring.buf@.len(), |i: int| zero),
    {
        let cap: usize = if max_len < 1 {
            1
        } else {
            max_len
        };
        PreDelay { ring: Ring::new(cap, zero), len: 1 }
    }

    pub fn clear(&mut self, zero: T)
        requires
            old(self).well_formed(),
        ensures
            final(self).well_formed(),
            final(self).len == old(self).len,
            final(self).ring.buf@.len() == old(self).ring.buf@.len(),
            final(self).ring.recent() == Seq::new(old(self).ring.buf@.len(), |i: int| zero),
    {
        self.ring.clear(zero);
    }

    /// Take a sample in and hand out the one of `len` samples before.
    pub fn process(&mut self, x: T) -> (out: T)
        requires
            old(self).well_formed(),
        ensures
            final(self).well_formed(),
            final(self).len == old(self).len,
            out == old(self).ring.recent()[old(self).len - 1],
            final(self).ring.recent() == written(old(self).ring.recent(), x),
    {
        self.ring.delay(x, self.len)
    }
}

/// What the gap takes in of a sample.
pub open spec fn admitted<T>(x: T, frozen: bool, zero: T) -> T {
    if frozen {
        zero
    } else {
        x
    }
}

/// A gap in samples: at least one, at most two less than a ring of `cap` holds.
pub open spec fn usable_gap(samples: int, cap: int) -> int {
    let least = if samples < 1 {
        1
    } else {
        samples
    };
    if least > cap - 2 {
        cap - 2
    } else {
        least
    }
}

/// A gap in samples.
pub fn clamp_gap(samples: usize, cap: usize) -> (r: usize)
    requires
        cap >= 3,
    ensures
        r == usable_gap(samples as int, cap as int),
        1 <= r <= cap - 2,
{
    let least: usize = if samples < 1 {
        1
    } else {
        samples
    };
    if least > cap - 2 {
        cap - 2
    } else {
        least
    }
}

/// The memory of the network: a gap for each channel, and eight lines.
#[derive(Debug)]
pub struct Network<T> {
    pub predelay_l: PreDelay<T>,
    pub predelay_r: PreDelay<T>,
    pub lines: Vec<Ring<T>>,
}

impl<T: Copy> Network<T> {
    pub open spec fn well_formed(self) -> bool {
        &&& self.predelay_l.well_formed()
        &&& self.predelay_r.well_formed()
        &&& self.predelay_l.ring.buf@.len() == self.predelay_r.ring.buf@.len()
        &&& self.predelay_l.ring.buf@.len() >= 3
        &&& self.lines@.len() == NUM_LINES
        &&& forall|i: int|
            0 <= i < NUM_LINES ==> (#[trigger] self.lines@[i]).well_formed()
                && self.lines@[i].buf@.len() == MAX_LINE_LEN
    }

    /// A silent network whose gaps hold `gap` samples.
    pub fn new(gap: usize, zero: T) -> (r: Self)
        requires
            gap >= 3,
        ensures
            r.well_formed(),
            r.predelay_l.ring.buf@.len() == gap,
            r.predelay_l.len == 1,
            r.predelay_r.len == 1,
            r.silent(zero),
    {
        let mut lines: Vec<Ring<T>> = Vec::new();
        while lines.len() < NUM_LINES
            invariant
                lines@.len() <= NUM_LINES,
                forall|i: int|
                    0 <= i < lines@.len() ==> (#[trigger] lines@[i]).well_formed()
                        && lines@[i].buf@.len() == MAX_LINE_LEN && lines@[i].pos == 0
                        && lines@[i].recent() == Seq::new(MAX_LINE_LEN as nat, |j: int| zero),
            decreases NUM_LINES - lines@.len(),
        {
            lines.push(Ring::new(MAX_LINE_LEN, zero));
        }
        Network { predelay_l: PreDelay::new(gap, zero), predelay_r: PreDelay::new(gap, zero), lines }
    }

    /// Nothing but `zero` is remembered, and every line writes at its start.
    pub open spec fn silent(self, zero: T) -> bool {
        &&& self.predelay_l.ring.recent() == Seq::new(
            self.predelay_l.ring.buf@.len(),
            |i: int| zero,
        )
        &&& self.predelay_r.ring.recent() == Seq::new(
            self.predelay_r.ring.buf@.len(),
            |i: int| zero,
        )
        &&& forall|i: int|
            0 <= i < NUM_LINES ==> (#[trigger] self.lines@[i]).pos == 0
                && self.lines@[i].recent() == Seq::new(MAX_LINE_LEN as nat, |j: int| zero)
    }

    /// Forget everything.
    pub fn clear(&mut self, zero: T)
        requires
            old(self).well_formed(),
        ensures
            final(self).well_formed(),
            final(self).silent(zero),
            final(self).predelay_l.len == old(self).predelay_l.len,
            final(self).predelay_r.len == old(self).predelay_r.len,
            final(self).predelay_l.ring.buf@.len() == old(self).predelay_l.ring.buf@.len(),
    {
        self.predelay_l.clear(zero);
        self.predelay_r.clear(zero);
        let mut i: usize = 0;
        while i < NUM_LINES
            invariant
                i <= NUM_LINES,
                self.well_formed(),
                self.predelay_l.len == old(self).predelay_l.len,
                self.predelay_r.len == old(self).predelay_r.len,
                self.predelay_l.ring.buf@.len() == old(self).predelay_l.ring.buf@.len(),
                self.predelay_l.ring.recent() == Seq::new(
                    self.predelay_l.ring.buf@.len(),
                    |j: int| zero,
                ),
                self.predelay_r.ring.recent() == Seq::new(
                    self.predelay_r.ring.buf@.len(),
                    |j: int| zero,
                ),
                forall|k: int|
                    0 <= k < i ==> (#[trigger] self.lines@[k]).pos == 0
                        && self.lines@[k].recent() == Seq::new(MAX_LINE_LEN as nat, |j: int| zero),
            decreases NUM_LINES - i,
        {
            self.lines[i].clear(zero);
            i = i + 1;
        }
    }

    /// Set the gap before the tail, in samples, for both channels.
    pub fn set_gap(&mut self, samples: usize)
        requires
            old(self).well_formed(),
        ensures
            final(self).well_formed(),
            final(self).lines == old(self).lines,
            final(self).predelay_l.ring == old(self).predelay_l.ring,
            final(self).predelay_r.ring == old(self).predelay_r.ring,
            final(self).predelay_l.len == usable_gap(
                samples as int,
                old(self).predelay_l.ring.buf@.len() as int,
            ),
            final(self).predelay_r.len == final(self).predelay_l.len,
    {
        let n: usize = clamp_gap(samples, self.predelay_l.ring.buf.len());
        self.predelay_l.len = n;
        self.predelay_r.len = n;
    }

    /// Take a pair in, or silence where the tail is frozen, and hand out the
    /// pair that leaves the gap.
    pub fn enter(&mut self, l: T, r: T, frozen: bool, zero: T) -> (out: (T, T))
        requires
            old(self).well_formed(),
        ensures
            final(self).well_formed(),
            entered(*old(self), *final(self), l, r, frozen, zero, out),
    {
        let (drive_l, drive_r) = if frozen {
            (zero, zero)
        } else {
            (l, r)
        };
        let a = self.predelay_l.process(drive_l);
        let b = self.predelay_r.process(drive_r);
        assert(self.predelay_l.ring.recent().len() == self.predelay_l.ring.buf@.len());
        assert(self.predelay_r.ring.recent().len() == self.predelay_r.ring.buf@.len());
        (a, b)
    }

    /// Where line `i` writes next.
    pub fn head(&self, i: usize) -> (r: usize)
        requires
            self.well_formed(),
            i < NUM_LINES,
        ensures
            r == self.lines@[i as int].pos,
            r < 65536,
    {
        self.lines[i].pos
    }

    /// A pair of neighbours of line `i`.
    pub fn tap(&self, i: usize, at: usize) -> (r: (T, T))
        requires
            self.well_formed(),
            i < NUM_LINES,
        ensures
            r == pair_at(self.lines@[i as int].buf@, at as int),
    {
        self.lines[i].neighbours(at)
    }

    /// Write a sample to every line.
    pub fn feed(&mut self, xs: &[T; 8])
        requires
            old(self).well_formed(),
        ensures
            final(self).well_formed(),
            fed(*old(self), *final(self), xs@),
    {
        let mut i: usize = 0;
        while i < NUM_LINES
            invariant
                i <= NUM_LINES,
                self.well_formed(),
                self.predelay_l == old(self).predelay_l,
                self.predelay_r == old(self).predelay_r,
                forall|k: int|
                    0 <= k < i ==> (#[trigger] self.lines@[k]).recent() == written(
                        old(self).lines@[k].recent(),
                        xs@[k],
                    ) && self.lines@[k].pos == old(self).lines@[k].next_pos(),
                forall|k: int| i <= k < NUM_LINES ==> #[trigger] self.lines@[k] == old(self).lines@[k],
            decreases NUM_LINES - i,
        {
            self.lines[i].write(xs[i]);
            i = i + 1;
        }
    }
}

/// A network after a pair was taken in, or silence where the tail is frozen;
/// `out` is the pair that left the gap.
pub open spec fn entered<T: Copy>(
    before: Network<T>,
    after: Network<T>,
    l: T,
    r: T,
    frozen: bool,
    zero: T,
    out: (T, T),
) -> bool {
    &&& after.lines == before.lines
    &&& after.predelay_l.len == before.predelay_l.len
    &&& after.predelay_r.len == before.predelay_r.len
    &&& out.0 == before.predelay_l.ring.recent()[before.predelay_l.len - 1]
    &&& out.1 == before.predelay_r.ring.recent()[before.predelay_r.len - 1]
    &&& after.predelay_l.ring.recent() == written(
        before.predelay_l.ring.recent(),
        admitted(l, frozen, zero),
    )
    &&& after.predelay_r.ring.recent() == written(
        before.predelay_r.ring.recent(),
        admitted(r, frozen, zero),
    )
}

/// A network after a sample was written to every line.
pub open spec fn fed<T: Copy>(before: Network<T>, after: Network<T>, xs: Seq<T>) -> bool {
    &&& after.predelay_l == before.predelay_l
    &&& after.predelay_r == before.predelay_r
    &&& forall|i: int|
        0 <= i < NUM_LINES ==> (#[trigger] after.lines@[i]).recent() == written(
            before.lines@[i].recent(),
            xs[i],
        ) && after.lines@[i].pos == before.lines@[i].next_pos()
}

/// Two networks remember the same.
pub open spec fn remember_the_same<T: Copy>(a: Network<T>, b: Network<T>) -> bool {
    &&& a.predelay_l.len == b.predelay_l.len
    &&& a.predelay_r.len == b.predelay_r.len
    &&& a.predelay_l.ring.recent() == b.predelay_l.ring.recent()
    &&& a.predelay_r.ring.recent() == b.predelay_r.ring.recent()
    &&& forall|i: int|
        0 <= i < NUM_LINES ==> hold_the_same(#[trigger] a.lines@[i], b.lines@[i])
}

/// Numbers of which multiples differ by one have no common factor.
proof fn lemma_no_common_factor(a: int, b: int, u: int, v: int, d: int)
    requires
        d > 1,
        u * a + v * b == 1,
    ensures
        !(a % d == 0 && b % d == 0),
{
    if a % d == 0 && b % d == 0 {
        let p = a / d;
        let q = b / d;
        assert(a == p * d && b == q * d) by (nonlinear_arith)
            requires
                d > 1,
                a % d == 0,
                b % d == 0,
                p == a / d,
                q == b / d,
        ;
        assert(u * (p * d) + v * (q * d) == (u * p + v * q) * d) by (nonlinear_arith);
        assert((u * p + v * q) * d != 1) by (nonlinear_arith)
            requires
                d > 1,
        ;
    }
}

/// The lines never line up: no two lengths have a common factor.
pub proof fn line_lengths_share_no_factor(i: int, j: int, d: int)
    requires
        0 <= i < j < NUM_LINES,
        d > 1,
    ensures
        !(BASE_LENGTHS_44K@[i] as int % d == 0 && BASE_LENGTHS_44K@[j] as int % d == 0),
{
    if i == 0 {
        if j == 1 {
            lemma_no_common_factor(1153, 1361, 530, -449, d);
        }
        if j == 2 {
            lemma_no_common_factor(1153, 1733, -248, 165, d);
        }
        if j == 3 {
            lemma_no_common_factor(1153, 2069, -323, 180, d);
        }
        if j == 4 {
            lemma_no_common_factor(1153, 2503, -432, 199, d);
        }
        if j == 5 {
            lemma_no_common_factor(1153, 2861, 732, -295, d);
        }
        if j == 6 {
            lemma_no_common_factor(1153, 3209, -860, 309, d);
        }
        if j == 7 {
            lemma_no_common_factor(1153, 3539, 752, -245, d);
        }
    }
    if i == 1 {
        if j == 2 {
            lemma_no_common_factor(1361, 1733, 191, -150, d);
        }
        if j == 3 {
            lemma_no_common_factor(1361, 2069, -301, 198, d);
        }
        if j == 4 {
            lemma_no_common_factor(1361, 2503, -160, 87, d);
        }
        if j == 5 {
            lemma_no_common_factor(1361, 2861, -494, 235, d);
        }
        if j == 6 {
            lemma_no_common_factor(1361, 3209, 738, -313, d);
        }
        if j == 7 {
            lemma_no_common_factor(1361, 3539, 1763, -678, d);
        }
    }
    if i == 2 {
        if j == 3 {
            lemma_no_common_factor(1733, 2069, -117, 98, d);
        }
        if j == 4 {
            lemma_no_common_factor(1733, 2503, -1245, 862, d);
        }
        if j == 5 {
            lemma_no_common_factor(1733, 2861, 1291, -782, d);
        }
        if j == 6 {
            lemma_no_common_factor(1733, 3209, 924, -499, d);
        }
        if j == 7 {
            lemma_no_common_factor(1733, 3539, 1115, -546, d);
        }
    }
    if i == 3 {
        if j == 4 {
            lemma_no_common_factor(2069, 2503, -917, 758, d);
        }
        if j == 5 {
            lemma_no_common_factor(2069, 2861, -1109, 802, d);
        }
        if j == 6 {
            lemma_no_common_factor(2069, 3209, 1095, -706, d);
        }
        if j == 7 {
            lemma_no_common_factor(2069, 3539, -1158, 677, d);
        }
    }
    if i == 4 {
        if j == 5 {
            lemma_no_common_factor(2503, 2861, 951, -832, d);
        }
        if j == 6 {
            lemma_no_common_factor(2503, 3209, -50, 39, d);
        }
        if j == 7 {
            lemma_no_common_factor(2503, 3539, 1322, -935, d);
        }
    }
    if i == 5 {
        if j == 6 {
            lemma_no_common_factor(2861, 3209, 1042, -929, d);
        }
        if j == 7 {
            lemma_no_common_factor(2861, 3539, -475, 384, d);
        }
    }
    if i == 6 {
        if j == 7 {
            lemma_no_common_factor(3209, 3539, 311, -282, d);
        }
    }
}

/// A frozen network mutes its input: of two that remember the same, whatever is
/// played into either, the same leaves the gaps and the lines read the same, and
/// once the same is fed back to both they remember the same again.
pub proof fn frozen_networks_stay_equal<T: Copy>(
    a: Network<T>,
    b: Network<T>,
    a1: Network<T>,
    b1: Network<T>,
    a2: Network<T>,
    b2: Network<T>,
    in_a: (T, T),
    in_b: (T, T),
    out_a: (T, T),
    out_b: (T, T),
    zero: T,
    xs: Seq<T>,
)
    requires
        a1.well_formed(),
        b1.well_formed(),
        remember_the_same(a, b),
        entered(a, a1, in_a.0, in_a.1, true, zero, out_a),
        entered(b, b1, in_b.0, in_b.1, true, zero, out_b),
        fed(a1, a2, xs),
        fed(b1, b2, xs),
    ensures
        out_a == out_b,
        forall|i: int|
            0 <= i < NUM_LINES ==> (#[trigger] a1.lines@[i]).buf@ == b1.lines@[i].buf@
                && a1.lines@[i].pos == b1.lines@[i].pos,
        remember_the_same(a2, b2),
{
    assert forall|i: int| 0 <= i < NUM_LINES implies (#[trigger] a1.lines@[i]).buf@
        == b1.lines@[i].buf@ && a1.lines@[i].pos == b1.lines@[i].pos by {
        assert(hold_the_same(a.lines@[i], b.lines@[i]));
        assert(a1.lines@[i].well_formed() && b1.lines@[i].well_formed());
        equal_rings_read_the_same(a1.lines@[i], b1.lines@[i]);
    }
    assert forall|i: int| 0 <= i < NUM_LINES implies hold_the_same(
        #[trigger] a2.lines@[i],
        b2.lines@[i],
    ) by {
        assert(hold_the_same(a.lines@[i], b.lines@[i]));
        assert(a1.lines@[i].buf@ == b1.lines@[i].buf@);
        assert(b2.lines@[i].recent() == written(b1.lines@[i].recent(), xs[i]));
    }
}

/// A frozen network takes nothing in: whatever is played into it, once the gap
/// has run out only silence leaves it.
pub proof fn a_frozen_network_takes_nothing_in<T>(held: Seq<T>, played: Seq<T>, zero: T)
    requires
        held.len() > 0,
        played.len() >= held.len(),
    ensures
        all_written(held, played.map_values(|x: T| admitted(x, true, zero))) == Seq::new(
            held.len(),
            |i: int| zero,
        ),
{
    let zeros = Seq::new(played.len(), |i: int| zero);
    assert(played.map_values(|x: T| admitted(x, true, zero)) =~= zeros);
    silence_flushes_a_ring(held, zero, played.len() as int);
}

/// The spaces differ as they should: a plate has its lines at full length and its damping
/// as the knob says; a hall is 2.2 times as long, a room 0.75 and a spring 0.6 times; all
/// of them are darker than the plate, the spring by 0.1, the hall by 0.15, the room by 0.25.
pub proof fn spaces_have_their_size_and_color(a: ReverbAlgo)
    ensures
        a == ReverbAlgo::Plate224 ==> a.scale().bits == 0x3f80_0000 && a.bias().bits == 0,
        a == ReverbAlgo::Hall ==> a.scale().bits == 0x400c_cccd && a.bias().bits == 0x3e19_999a,
        a == ReverbAlgo::Spring ==> a.scale().bits == 0x3f19_999a && a.bias().bits == 0x3dcc_cccd,
        a == ReverbAlgo::Room ==> a.scale().bits == 0x3f40_0000 && a.bias().bits == 0x3e80_0000,
{
}

/// A reverb takes every setting it can use as it is, and the nearest it can use for any
/// other: a decay from 0.05 to 120.0, a low corner from 10.0 and a high one from 100.0 to
/// half the rate, a send to 4.0 and a return to 8.0. What is no number is 2.5, 80.0, 9000.0,
/// 0.0 and 1.0.
pub proof fn a_reverb_takes_usable_settings(x: Ieee32, nyquist: Ieee32)
    requires
        nyquist.finite() && nyquist.rank() >= 0x460c_a000,
    ensures
        settles(usable_decay(x), x, 0x3d4c_cccd, 0x42f0_0000, 0x4020_0000),
        settles(usable_locut(x, nyquist), x, 0x4120_0000, nyquist.rank(), 0x42a0_0000),
        settles(usable_hicut(x, nyquist), x, 0x42c8_0000, nyquist.rank(), 0x460c_a000),
        settles(usable_send(x), x, 0, 0x4080_0000, 0),
        settles(usable_return(x), x, 0, 0x4100_0000, 0x3f80_0000),
{
    guarding_and_clamping_settles(x, ieee(0x4020_0000), ieee(0x3d4c_cccd), ieee(0x42f0_0000));
    guarding_and_clamping_settles(x, ieee(0), ieee(0), ieee(0x4080_0000));
    guarding_and_clamping_settles(x, ieee(0x3f80_0000), ieee(0), ieee(0x4100_0000));
}

/// A knob that moved by more than a millionth, or a corner by more than a thousandth, is
/// taken over; the switches, the modulation and the width always are. How much goes in and
/// comes back stays.
pub proof fn a_move_is_taken_over(p: ReverbParams, q: ReverbRequest, m: Moves, nyquist: Ieee32)
    requires
        !m.size.nan() && !m.decay.nan() && !m.damping.nan() && !m.locut.nan() && !m.hicut.nan(),
    ensures
        ({
            let s = settings_for(p, q, m, nyquist);
            &&& s.on == q.on && s.freeze == q.freeze && s.algo == q.algo
            &&& settles_in_unit(s.modulation, q.modulation)
            &&& settles_in_unit(s.width, q.width)
            &&& q.algo != p.algo || m.size.rank() > 0x3586_37bd ==> settles_in_unit(s.size, q.size)
            &&& q.algo == p.algo && m.size.rank() <= 0x3586_37bd ==> s.size == p.size
            &&& q.freeze != p.freeze || m.decay.rank() > 0x3586_37bd ==> s.decay_secs
                == usable_decay(q.decay_secs)
            &&& q.freeze == p.freeze && m.decay.rank() <= 0x3586_37bd ==> s.decay_secs
                == p.decay_secs
            &&& m.damping.rank() > 0x3586_37bd ==> settles_in_unit(s.damping, q.damping)
            &&& m.damping.rank() <= 0x3586_37bd ==> s.damping == p.damping
            &&& m.locut.rank() > 0x3a83_126f || m.hicut.rank() > 0x3a83_126f ==> s.locut_hz
                == usable_locut(q.locut_hz, nyquist) && s.hicut_hz == usable_hicut(
                q.hicut_hz,
                nyquist,
            )
            &&& m.locut.rank() <= 0x3a83_126f && m.hicut.rank() <= 0x3a83_126f ==> s.locut_hz
                == p.locut_hz && s.hicut_hz == p.hicut_hz
            &&& s.send == p.send && s.return_gain == p.return_gain
        }),
{
}

/// Nothing is computed again without a reason: the lengths for another space or size, the
/// feedback for those and for another decay or a freeze, the damping for another space or
/// damping, the filters for another corner.
pub proof fn only_what_changed_is_computed_again(p: ReverbParams, q: ReverbRequest, m: Moves)
    requires
        !m.size.nan() && !m.decay.nan() && !m.damping.nan() && !m.locut.nan() && !m.hicut.nan(),
    ensures
        ({
            let r = recompute_for(p, q, m);
            &&& r.lengths <==> q.algo != p.algo || m.size.rank() > 0x3586_37bd
            &&& r.feedback <==> q.algo != p.algo || m.size.rank() > 0x3586_37bd || m.decay.rank()
                > 0x3586_37bd || q.freeze != p.freeze
            &&& r.damping <==> q.algo != p.algo || m.damping.rank() > 0x3586_37bd
            &&& r.filters <==> m.locut.rank() > 0x3a83_126f || m.hicut.rank() > 0x3a83_126f
        }),
{
}

/// A gap is as long as it is asked to be, from one sample to two less than there is room
/// for.
pub proof fn a_gap_is_as_long_as_asked(samples: int, cap: int)
    requires
        cap >= 3,
    ensures
        1 <= samples <= cap - 2 ==> usable_gap(samples, cap) == samples,
        samples < 1 ==> usable_gap(samples, cap) == 1,
        samples > cap - 2 ==> usable_gap(samples, cap) == cap - 2,
{
}

/// Each channel goes through its own gap: what enters is the latest there, silence where
/// the tail is frozen, and what leaves is what entered the length of the gap before. The
/// lines are not touched.
pub proof fn each_channel_has_its_gap<T: Copy>(
    before: Network<T>,
    after: Network<T>,
    l: T,
    r: T,
    frozen: bool,
    zero: T,
    out: (T, T),
)
    requires
        before.well_formed(),
        entered(before, after, l, r, frozen, zero, out),
    ensures
        !frozen ==> after.predelay_l.ring.recent()[0] == l && after.predelay_r.ring.recent()[0] == r,
        frozen ==> after.predelay_l.ring.recent()[0] == zero && after.predelay_r.ring.recent()[0]
            == zero,
        out.0 == before.predelay_l.ring.recent()[before.predelay_l.len - 1],
        out.1 == before.predelay_r.ring.recent()[before.predelay_r.len - 1],
        after.lines == before.lines,
        after.predelay_l.len == before.predelay_l.len,
        after.predelay_r.len == before.predelay_r.len,
{
}

/// Each line is fed its own sample, which is the latest there afterwards, and the gaps are
/// not touched.
pub proof fn each_line_is_fed_its_sample<T: Copy>(
    before: Network<T>,
    after: Network<T>,
    xs: Seq<T>,
    i: int,
)
    requires
        before.well_formed(),
        fed(before, after, xs),
        0 <= i < 8,
    ensures
        after.lines@[i].recent()[0] == xs[i],
        after.lines@[i].recent() == written(before.lines@[i].recent(), xs[i]),
        after.predelay_l == before.predelay_l,
        after.predelay_r == before.predelay_r,
{
    let line = after.lines@[i];
    assert(line.recent() == written(before.lines@[i].recent(), xs[i]));
}

} // verus!

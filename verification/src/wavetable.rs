//! The wavetable bank: which table, which level of detail, which samples.

use crate::ieee::{ieee, order_is_numeric, scaled, Ieee32};
use vstd::arithmetic::power2::{lemma2_to64, lemma_pow2_adds, lemma_pow2_pos, lemma_pow2_unfold, pow2};
use vstd::prelude::*;

verus! {

/// Shapes in the bank.
pub const N_TABLES: usize = 5;

/// Samples of a cycle.
pub const TABLE_LEN: usize = 2048;

/// Levels of detail of a shape.
pub const MIP_LEVELS: usize = 10;

/// `20.0`: up to this frequency every harmonic is kept.
pub const MIP_REFERENCE_HZ: u32 = 0x41a0_0000;

/// Harmonics of the most detailed level.
pub const MAX_HARMONICS: usize = 1023;

/// `n` halved `k` times.
pub open spec fn halved(n: int, k: int) -> int
    decreases k,
{
    if k <= 0 {
        n
    } else {
        halved(n, k - 1) / 2
    }
}

/// How many harmonics level `k` keeps.
pub open spec fn kept(k: int) -> int {
    if halved(MAX_HARMONICS as int, k) < 1 {
        1
    } else {
        halved(MAX_HARMONICS as int, k)
    }
}

/// How many harmonics level `k` keeps: half as many as the level below, and at
/// least the fundamental.
pub fn harmonics(k: usize) -> (r: usize)
    requires
        k < MIP_LEVELS,
    ensures
        r == kept(k as int),
        1 <= r <= MAX_HARMONICS,
{
    let mut n: usize = MAX_HARMONICS;
    let mut i: usize = 0;
    while i < k
        invariant
            i <= k,
            n == halved(MAX_HARMONICS as int, i as int),
            n <= MAX_HARMONICS,
        decreases k - i,
    {
        n = n / 2;
        i = i + 1;
    }
    if n < 1 {
        1
    } else {
        n
    }
}

/// The highest frequency that level `k` is made for: the reference, an octave
/// higher for each level.
pub open spec fn threshold(k: int) -> Ieee32 {
    ieee((MIP_REFERENCE_HZ + k * 0x0080_0000) as u32)
}

/// `r` is the level for a note: the least that is made for its frequency, or the
/// last where none is. What is no frequency gets the first.
pub open spec fn is_level(frequency: Ieee32, r: int) -> bool {
    if frequency.nan() {
        r == 0
    } else {
        &&& 0 <= r < MIP_LEVELS
        &&& r < MIP_LEVELS - 1 ==> frequency.at_most(threshold(r))
        &&& forall|k: int| 0 <= k < r ==> (#[trigger] threshold(k)).below(frequency)
    }
}

/// The level for a note.
pub fn mip_for_freq(frequency: Ieee32) -> (r: usize)
    ensures
        is_level(frequency, r as int),
        r < MIP_LEVELS,
{
    if frequency.is_nan() {
        return 0;
    }
    let mut r: usize = 0;
    while r < MIP_LEVELS - 1 && ieee(MIP_REFERENCE_HZ + r as u32 * 0x0080_0000).lt(frequency)
        invariant
            r < MIP_LEVELS,
            !frequency.nan(),
            forall|k: int| 0 <= k < r ==> (#[trigger] threshold(k)).below(frequency),
        ensures
            r < MIP_LEVELS,
            r < MIP_LEVELS - 1 ==> frequency.at_most(threshold(r as int)),
            forall|k: int| 0 <= k < r ==> (#[trigger] threshold(k)).below(frequency),
        decreases MIP_LEVELS - r,
    {
        assert(threshold(r as int).below(frequency));
        r = r + 1;
    }
    r
}

pub open spec fn level_of(mip: int) -> int {
    if mip < MIP_LEVELS {
        mip
    } else {
        MIP_LEVELS - 1
    }
}

/// A level that exists.
pub fn mip_level(mip: usize) -> (r: usize)
    ensures
        r == level_of(mip as int),
        r < MIP_LEVELS,
{
    if mip < MIP_LEVELS {
        mip
    } else {
        MIP_LEVELS - 1
    }
}

/// A table that exists: past the last the bank starts over.
pub fn table_index(table: usize) -> (r: usize)
    ensures
        r == table as int % 5,
        r < N_TABLES,
{
    table % N_TABLES
}

/// The base table of an oscillator: the last where the one asked for does not
/// exist.
pub fn base_table(table: usize) -> (r: usize)
    ensures
        r == if table < 5 {
            table as int
        } else {
            4
        },
        r < N_TABLES,
{
    if table < N_TABLES {
        table
    } else {
        N_TABLES - 1
    }
}

/// The two samples to interpolate between, from the whole part of a position in
/// the cycle.
pub fn sample_pair(position: usize) -> (r: (usize, usize))
    ensures
        r.0 == position as int % 2048,
        r.1 == (r.0 + 1) % 2048,
        r.0 < TABLE_LEN,
        r.1 < TABLE_LEN,
{
    let a: usize = position % TABLE_LEN;
    (a, (a + 1) % TABLE_LEN)
}

/// A harmonic of a shape, as a sign and the power of its number that divides it.
#[derive(Clone, Copy, Debug, PartialEq, Eq, Structural)]
pub enum Partial {
    Silent,
    /// One over the number, taken once.
    Over { negative: bool },
    /// One over the number squared.
    OverSquare { negative: bool },
    /// The bump around the fifth harmonic.
    Formant,
}

/// Harmonic `n` of shape `table`: sine, triangle, saw, square, formant.
pub open spec fn partial_of(table: int, n: int) -> Partial {
    if table == 0 {
        if n == 1 {
            Partial::Over { negative: false }
        } else {
            Partial::Silent
        }
    } else if table == 1 {
        if n % 2 == 1 {
            Partial::OverSquare { negative: n / 2 % 2 != 0 }
        } else {
            Partial::Silent
        }
    } else if table == 2 {
        Partial::Over { negative: false }
    } else if table == 3 {
        if n % 2 == 1 {
            Partial::Over { negative: false }
        } else {
            Partial::Silent
        }
    } else {
        if n == 0 || n > 16 {
            Partial::Silent
        } else {
            Partial::Formant
        }
    }
}

/// Harmonic `n` of shape `table`.
pub fn partial(table: usize, n: usize) -> (r: Partial)
    requires
        table < N_TABLES,
    ensures
        r == partial_of(table as int, n as int),
{
    match table {
        0 => if n == 1 {
            Partial::Over { negative: false }
        } else {
            Partial::Silent
        },
        1 => if n % 2 == 1 {
            Partial::OverSquare { negative: n / 2 % 2 != 0 }
        } else {
            Partial::Silent
        },
        2 => Partial::Over { negative: false },
        3 => if n % 2 == 1 {
            Partial::Over { negative: false }
        } else {
            Partial::Silent
        },
        _ => if n == 0 || n > 16 {
            Partial::Silent
        } else {
            Partial::Formant
        },
    }
}

/// Up to the reference frequency every harmonic is kept.
pub proof fn low_notes_keep_every_harmonic(frequency: Ieee32, level: int)
    requires
        is_level(frequency, level),
        frequency.at_most(ieee(MIP_REFERENCE_HZ)),
    ensures
        level == 0,
        kept(level) == MAX_HARMONICS,
{
    if level > 0 {
        assert(threshold(0).below(frequency));
    }
}

/// The level never falls as the note rises.
pub proof fn levels_rise_with_pitch(low: Ieee32, high: Ieee32, a: int, b: int)
    requires
        low.at_most(high),
        is_level(low, a),
        is_level(high, b),
    ensures
        a <= b,
{
    if b < a {
        assert(threshold(b).below(low));
    }
}

/// `44100.0`
pub const LOWEST_RATE_HZ: u32 = 0x472c_4400;

/// What a level keeps, doubled once for each level below it, is no more than the
/// first level keeps.
proof fn lemma_kept_bound(k: int)
    requires
        0 <= k < MIP_LEVELS,
    ensures
        1 <= kept(k),
        kept(k) * pow2(k as nat) <= MAX_HARMONICS,
        k == MIP_LEVELS - 1 ==> kept(k) == 1,
    decreases k,
{
    lemma_pow2_pos(k as nat);
    if k == 0 {
        lemma2_to64();
    } else {
        lemma_kept_bound(k - 1);
        lemma_pow2_unfold(k as nat);
        let p = pow2((k - 1) as nat) as int;
        let h = halved(MAX_HARMONICS as int, k - 1);
        reveal_with_fuel(halved, 10);
        assert(h >= 2);
        assert(h / 2 * (2 * p) <= h * p) by (nonlinear_arith)
            requires
                h >= 0,
                p > 0,
        ;
    }
}

/// The top harmonic stays under half the rate: at any usual rate, whatever note
/// below half of it is played, the highest harmonic of the note's level is below
/// half of it too.
pub proof fn harmonics_stay_under_nyquist(frequency: Ieee32, rate: Ieee32, level: int)
    requires
        is_level(frequency, level),
        frequency.finite(),
        rate.finite(),
        ieee(LOWEST_RATE_HZ).at_most(rate),
        2 * frequency.units() < rate.units(),
    ensures
        2 * (kept(level) * frequency.units()) < rate.units(),
{
    lemma_kept_bound(level);
    if level < MIP_LEVELS - 1 {
        let top = threshold(level);
        let h = kept(level);
        let f = frequency.units();
        let m = MIP_REFERENCE_HZ + level * 0x0080_0000;
        order_is_numeric(frequency, top);
        order_is_numeric(ieee(LOWEST_RATE_HZ), rate);
        assert(m / 0x80_0000 == 0x83 + level && m % 0x80_0000 == 0x20_0000);
        assert(top.units() == 0xA0_0000 * pow2((0x82 + level) as nat));
        lemma_pow2_adds(0x82, level as nat);
        lemma_pow2_adds(0x82, 11);
        lemma2_to64();
        let base = pow2(0x82) as int;
        let p = pow2(level as nat) as int;
        lemma_pow2_pos(0x82);
        assert(pow2(11) == 2048);
        assert(scaled(LOWEST_RATE_HZ as int) == 0xAC_4400 * (base * 2048));
        assert(h * f <= h * (0xA0_0000 * (base * p))) by (nonlinear_arith)
            requires
                h >= 1,
                f <= 0xA0_0000 * (base * p),
        ;
        assert(h * (0xA0_0000 * (base * p)) == 0xA0_0000 * base * (h * p)) by (nonlinear_arith);
        assert(0xA0_0000 * base * (h * p) <= 0xA0_0000 * base * 1023) by (nonlinear_arith)
            requires
                base > 0,
                h * p <= 1023,
        ;
        assert(2 * (0xA0_0000 * base * 1023) < 0xAC_4400 * (base * 2048)) by (nonlinear_arith)
            requires
                base > 0,
        ;
    }
}

/// The last table morphs into the first: the one after it is the first.
pub proof fn the_bank_is_a_circle(table: int)
    requires
        0 <= table < N_TABLES,
    ensures
        (table + 1) % N_TABLES as int == if table == N_TABLES - 1 {
            0
        } else {
            table + 1
        },
{
}

/// Each level keeps half of what the one below it keeps, rounded down, from 1023 harmonics
/// at the first to the fundamental alone at the tenth.
pub proof fn each_level_halves_the_harmonics(k: int)
    requires
        0 <= k < 9,
    ensures
        kept(0) == 1023,
        kept(k + 1) == kept(k) / 2,
        kept(9) == 1,
{
    reveal_with_fuel(halved, 10);
}

/// Each level reaches an octave higher than the one below it, and the first reaches 20.0.
pub proof fn each_level_reaches_an_octave_higher(k: int)
    requires
        0 <= k < 9,
    ensures
        threshold(0).bits == 0x41a0_0000,
        threshold(k + 1).units() == 2 * threshold(k).units(),
{
    let m = 0x41a0_0000 + k * 0x80_0000;
    assert(threshold(k).bits == m && threshold(k + 1).bits == m + 0x80_0000);
    assert(m / 0x80_0000 == 0x83 + k && m % 0x80_0000 == 0x20_0000);
    lemma_pow2_unfold((0x83 + k) as nat);
    assert(0xA0_0000 * (2 * pow2((0x82 + k) as nat)) == 2 * (0xA0_0000 * pow2((0x82 + k) as nat)))
        by (nonlinear_arith);
}

/// A note gets the level whose octave it lies in: the first up to 20.0, the last above
/// 5120.0, and in between the one whose octave ends at or above it.
pub proof fn a_note_gets_the_level_of_its_octave(frequency: Ieee32, level: int)
    requires
        is_level(frequency, level),
    ensures
        0 <= level <= 9,
        frequency.nan() ==> level == 0,
        !frequency.nan() && level < 9 ==> frequency.rank() <= 0x41a0_0000 + level * 0x80_0000,
        !frequency.nan() && level > 0 ==> frequency.rank() > 0x41a0_0000 + (level - 1) * 0x80_0000,
{
    if level > 0 {
        assert(threshold(level - 1).below(frequency));
    }
}

/// The shapes by their harmonics: the sine is its fundamental, the saw holds every harmonic
/// and the square every odd one, both falling with the number; the triangle holds every odd
/// one, falling with its square, and turns its sign from each to the next; the last shape
/// holds sixteen.
pub proof fn shapes_are_told_by_their_harmonics(n: int)
    requires
        n >= 1,
    ensures
        partial_of(0, n) == Partial::Silent <==> n != 1,
        partial_of(0, 1) == (Partial::Over { negative: false }),
        n % 2 == 0 ==> partial_of(1, n) == Partial::Silent,
        n % 4 == 1 ==> partial_of(1, n) == (Partial::OverSquare { negative: false }),
        n % 4 == 3 ==> partial_of(1, n) == (Partial::OverSquare { negative: true }),
        partial_of(2, n) == (Partial::Over { negative: false }),
        n % 2 == 1 ==> partial_of(3, n) == partial_of(2, n),
        n % 2 == 0 ==> partial_of(3, n) == Partial::Silent,
        n <= 16 ==> partial_of(4, n) == Partial::Formant,
        n > 16 ==> partial_of(4, n) == Partial::Silent,
{
}

/// A level that exists is kept, and one past the last is the last.
pub proof fn a_level_that_exists_is_kept(mip: int)
    ensures
        mip < 10 ==> level_of(mip) == mip,
        mip >= 10 ==> level_of(mip) == 9,
{
}

} // verus!

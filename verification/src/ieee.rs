//! Single-precision numbers held by their bit patterns.
//!
//! The library never adds or multiplies samples. What it does with a number is
//! compare it, clamp it, and replace it where it is not usable; all of that is
//! decided by the bit pattern, and stated here over it.

use vstd::arithmetic::power2::{lemma_pow2_pos, lemma_pow2_strictly_increases, lemma_pow2_unfold, pow2};
use vstd::prelude::*;

verus! {

/// `0.0`
pub const ZERO: u32 = 0x0000_0000;

/// `0.0005`
pub const HALF_THOUSANDTH: u32 = 0x3a03_126f;

/// `0.001`
pub const THOUSANDTH: u32 = 0x3a83_126f;

/// `0.05`
pub const TWENTIETH: u32 = 0x3d4c_cccd;

/// `0.25`
pub const QUARTER: u32 = 0x3e80_0000;

/// `0.3`
pub const THREE_TENTHS: u32 = 0x3e99_999a;

/// `0.5`
pub const HALF: u32 = 0x3f00_0000;

/// `0.95`
pub const NINETEEN_TWENTIETHS: u32 = 0x3f73_3333;

/// `1.0`
pub const ONE: u32 = 0x3f80_0000;

/// `-1.0`
pub const MINUS_ONE: u32 = 0xbf80_0000;

/// `2.0`
pub const TWO: u32 = 0x4000_0000;

/// The single-precision numbers nearest to `0/100`, `1/100`, up to `100/100`.
pub const PERCENT: [u32; 101] = [
    0x0000_0000, 0x3c23_d70a, 0x3ca3_d70a, 0x3cf5_c28f, 0x3d23_d70a, 0x3d4c_cccd,
    0x3d75_c28f, 0x3d8f_5c29, 0x3da3_d70a, 0x3db8_51ec, 0x3dcc_cccd, 0x3de1_47ae,
    0x3df5_c28f, 0x3e05_1eb8, 0x3e0f_5c29, 0x3e19_999a, 0x3e23_d70a, 0x3e2e_147b,
    0x3e38_51ec, 0x3e42_8f5c, 0x3e4c_cccd, 0x3e57_0a3d, 0x3e61_47ae, 0x3e6b_851f,
    0x3e75_c28f, 0x3e80_0000, 0x3e85_1eb8, 0x3e8a_3d71, 0x3e8f_5c29, 0x3e94_7ae1,
    0x3e99_999a, 0x3e9e_b852, 0x3ea3_d70a, 0x3ea8_f5c3, 0x3eae_147b, 0x3eb3_3333,
    0x3eb8_51ec, 0x3ebd_70a4, 0x3ec2_8f5c, 0x3ec7_ae14, 0x3ecc_cccd, 0x3ed1_eb85,
    0x3ed7_0a3d, 0x3edc_28f6, 0x3ee1_47ae, 0x3ee6_6666, 0x3eeb_851f, 0x3ef0_a3d7,
    0x3ef5_c28f, 0x3efa_e148, 0x3f00_0000, 0x3f02_8f5c, 0x3f05_1eb8, 0x3f07_ae14,
    0x3f0a_3d71, 0x3f0c_cccd, 0x3f0f_5c29, 0x3f11_eb85, 0x3f14_7ae1, 0x3f17_0a3d,
    0x3f19_999a, 0x3f1c_28f6, 0x3f1e_b852, 0x3f21_47ae, 0x3f23_d70a, 0x3f26_6666,
    0x3f28_f5c3, 0x3f2b_851f, 0x3f2e_147b, 0x3f30_a3d7, 0x3f33_3333, 0x3f35_c28f,
    0x3f38_51ec, 0x3f3a_e148, 0x3f3d_70a4, 0x3f40_0000, 0x3f42_8f5c, 0x3f45_1eb8,
    0x3f47_ae14, 0x3f4a_3d71, 0x3f4c_cccd, 0x3f4f_5c29, 0x3f51_eb85, 0x3f54_7ae1,
    0x3f57_0a3d, 0x3f59_999a, 0x3f5c_28f6, 0x3f5e_b852, 0x3f61_47ae, 0x3f63_d70a,
    0x3f66_6666, 0x3f68_f5c3, 0x3f6b_851f, 0x3f6e_147b, 0x3f70_a3d7, 0x3f73_3333,
    0x3f75_c28f, 0x3f78_51ec, 0x3f7a_e148, 0x3f7d_70a4, 0x3f80_0000,
];

/// `n` percent as a number.
#[verifier::allow_in_spec]
pub fn percent(n: usize) -> Ieee32
    requires
        n <= 100,
    returns
        (Ieee32 { bits: PERCENT@[n as int] }),
{
    Ieee32 { bits: PERCENT[n] }
}

/// A single-precision number, known by its bit pattern.
#[derive(Clone, Copy, Debug, PartialEq, Eq, Structural)]
pub struct Ieee32 {
    pub bits: u32,
}

/// The number with the given bit pattern.
#[verifier::allow_in_spec]
pub fn ieee(bits: u32) -> Ieee32
    returns
        (Ieee32 { bits }),
{
    Ieee32 { bits }
}

impl Ieee32 {
    /// Whether the sign bit is set.
    pub open spec fn negative(self) -> bool {
        self.bits >= 0x8000_0000
    }

    /// The pattern without its sign bit.
    pub open spec fn magnitude(self) -> int {
        if self.negative() {
            self.bits - 0x8000_0000
        } else {
            self.bits as int
        }
    }

    pub open spec fn nan(self) -> bool {
        self.magnitude() > 0x7f80_0000
    }

    pub open spec fn finite(self) -> bool {
        self.magnitude() < 0x7f80_0000
    }

    /// The position of a number that is not NaN on the number line: both zeros
    /// stand at 0, and a larger number stands further right.
    pub open spec fn rank(self) -> int {
        if self.negative() {
            -self.magnitude()
        } else {
            self.magnitude()
        }
    }

    /// `self < other`.
    pub open spec fn below(self, other: Ieee32) -> bool {
        !self.nan() && !other.nan() && self.rank() < other.rank()
    }

    /// `self <= other`.
    pub open spec fn at_most(self, other: Ieee32) -> bool {
        !self.nan() && !other.nan() && self.rank() <= other.rank()
    }

    /// The value of a finite number in units of the smallest positive one.
    pub open spec fn units(self) -> int {
        if self.negative() {
            -scaled(self.magnitude())
        } else {
            scaled(self.magnitude())
        }
    }

    /// `self` moved into `lo ..= hi`; NaN stays NaN.
    pub open spec fn clamped(self, lo: Ieee32, hi: Ieee32) -> Ieee32 {
        if self.below(lo) {
            lo
        } else if hi.below(self) {
            hi
        } else {
            self
        }
    }

    /// `self`, or `fallback` where `self` is NaN or infinite.
    pub open spec fn guarded(self, fallback: Ieee32) -> Ieee32 {
        if self.finite() {
            self
        } else {
            fallback
        }
    }

    /// `self` moved into `0.0 ..= 1.0`, with NaN read as `0.0`.
    pub open spec fn unit_clamped(self) -> Ieee32 {
        if self.nan() {
            ieee(ZERO)
        } else {
            self.clamped(ieee(ZERO), ieee(ONE))
        }
    }

    /// The larger of the two; a NaN gives way to the other number.
    pub open spec fn larger(self, other: Ieee32) -> Ieee32 {
        if self.nan() || self.below(other) {
            other
        } else {
            self
        }
    }

    /// The smaller of the two; a NaN gives way to the other number.
    pub open spec fn smaller(self, other: Ieee32) -> Ieee32 {
        if self.nan() || other.below(self) {
            other
        } else {
            self
        }
    }

    /// `self` without its sign.
    pub open spec fn unsigned(self) -> Ieee32 {
        Ieee32 { bits: self.magnitude() as u32 }
    }

    pub fn is_nan(self) -> (r: bool)
        ensures
            r == self.nan(),
    {
        self.abs().bits > 0x7f80_0000
    }

    pub fn is_finite(self) -> (r: bool)
        ensures
            r == self.finite(),
    {
        self.abs().bits < 0x7f80_0000
    }

    pub fn abs(self) -> (r: Ieee32)
        ensures
            r == self.unsigned(),
            r.magnitude() == self.magnitude(),
            !r.negative(),
    {
        if self.bits >= 0x8000_0000 {
            Ieee32 { bits: self.bits - 0x8000_0000 }
        } else {
            self
        }
    }

    /// The position on the number line, see [`Ieee32::rank`].
    pub fn position(self) -> (r: i64)
        ensures
            r == self.rank(),
            -0x8000_0000 < r < 0x8000_0000,
    {
        if self.bits >= 0x8000_0000 {
            -((self.bits - 0x8000_0000) as i64)
        } else {
            self.bits as i64
        }
    }

    pub fn lt(self, other: Ieee32) -> (r: bool)
        ensures
            r == self.below(other),
    {
        !self.is_nan() && !other.is_nan() && self.position() < other.position()
    }

    pub fn le(self, other: Ieee32) -> (r: bool)
        ensures
            r == self.at_most(other),
    {
        !self.is_nan() && !other.is_nan() && self.position() <= other.position()
    }

    pub fn clamp(self, lo: Ieee32, hi: Ieee32) -> (r: Ieee32)
        requires
            lo.at_most(hi),
        ensures
            r == self.clamped(lo, hi),
    {
        if self.lt(lo) {
            lo
        } else if hi.lt(self) {
            hi
        } else {
            self
        }
    }

    pub fn max(self, other: Ieee32) -> (r: Ieee32)
        ensures
            r == self.larger(other),
    {
        if self.is_nan() || self.lt(other) {
            other
        } else {
            self
        }
    }

    pub fn min(self, other: Ieee32) -> (r: Ieee32)
        ensures
            r == self.smaller(other),
    {
        if self.is_nan() || other.lt(self) {
            other
        } else {
            self
        }
    }

    pub fn guard(self, fallback: Ieee32) -> (r: Ieee32)
        ensures
            r == self.guarded(fallback),
    {
        if self.is_finite() {
            self
        } else {
            fallback
        }
    }

    pub fn clamp01(self) -> (r: Ieee32)
        ensures
            r == self.unit_clamped(),
    {
        if self.is_nan() {
            ieee(ZERO)
        } else {
            self.clamp(ieee(ZERO), ieee(ONE))
        }
    }
}

/// The value of the finite magnitude `m`, in units of the smallest positive
/// number: the fraction alone below the first normal number, and from there on
/// the fraction with its leading one, doubled once for each further exponent.
pub open spec fn scaled(m: int) -> int {
    let exponent = m / 0x80_0000;
    let fraction = m % 0x80_0000;
    if exponent == 0 {
        fraction
    } else {
        (0x80_0000 + fraction) * pow2((exponent - 1) as nat)
    }
}

proof fn lemma_scaled_increases(a: int, b: int)
    requires
        0 <= a < b < 0x7f80_0000,
    ensures
        scaled(a) < scaled(b),
{
    let (ea, fa) = (a / 0x80_0000, a % 0x80_0000);
    let (eb, fb) = (b / 0x80_0000, b % 0x80_0000);
    assert(ea <= eb);
    if ea == eb {
        assert(fa < fb);
        if ea > 0 {
            let p = pow2((ea - 1) as nat) as int;
            lemma_pow2_pos((ea - 1) as nat);
            assert((0x80_0000 + fa) * p < (0x80_0000 + fb) * p) by (nonlinear_arith)
                requires
                    fa < fb,
                    p > 0,
            ;
        }
    } else {
        let q = pow2((eb - 1) as nat) as int;
        lemma_pow2_pos((eb - 1) as nat);
        assert(0x80_0000 * q <= (0x80_0000 + fb) * q) by (nonlinear_arith)
            requires
                fb >= 0,
                q > 0,
        ;
        if ea == 0 {
            assert(0x80_0000 <= 0x80_0000 * q) by (nonlinear_arith)
                requires
                    q >= 1,
            ;
        } else {
            let p = pow2((ea - 1) as nat) as int;
            lemma_pow2_pos((ea - 1) as nat);
            lemma_pow2_unfold(ea as nat);
            assert(2 * p <= q) by {
                if ea < eb - 1 {
                    lemma_pow2_strictly_increases(ea as nat, (eb - 1) as nat);
                }
            }
            assert((0x80_0000 + fa) * p < 0x100_0000 * p) by (nonlinear_arith)
                requires
                    fa < 0x80_0000,
                    p > 0,
            ;
            assert(0x100_0000 * p <= 0x80_0000 * q) by (nonlinear_arith)
                requires
                    2 * p <= q,
            ;
        }
    }
}

/// Comparing positions is comparing values: of two finite numbers the one that
/// stands further left is the one with the smaller value.
pub proof fn order_is_numeric(a: Ieee32, b: Ieee32)
    requires
        a.finite(),
        b.finite(),
    ensures
        a.below(b) <==> a.units() < b.units(),
        a.at_most(b) <==> a.units() <= b.units(),
{
    let (m, n) = (a.magnitude(), b.magnitude());
    assert(scaled(0) == 0);
    if 0 < m {
        lemma_scaled_increases(0, m);
    }
    if 0 < n {
        lemma_scaled_increases(0, n);
    }
    if m < n {
        lemma_scaled_increases(m, n);
    }
    if n < m {
        lemma_scaled_increases(n, m);
    }
}

/// A clamped number lies inside its bounds, and clamping it again changes
/// nothing.
pub proof fn clamped_stays_inside(x: Ieee32, lo: Ieee32, hi: Ieee32)
    requires
        lo.at_most(hi),
        !x.nan(),
    ensures
        lo.at_most(x.clamped(lo, hi)),
        x.clamped(lo, hi).at_most(hi),
        x.clamped(lo, hi).clamped(lo, hi) == x.clamped(lo, hi),
{
}

/// Guarding and then clamping with finite bounds gives a finite number inside
/// the bounds, whatever came in.
pub proof fn guarded_and_clamped_is_usable(x: Ieee32, fallback: Ieee32, lo: Ieee32, hi: Ieee32)
    requires
        fallback.finite(),
        lo.finite(),
        hi.finite(),
        lo.at_most(hi),
    ensures
        x.guarded(fallback).clamped(lo, hi).finite(),
        lo.at_most(x.guarded(fallback).clamped(lo, hi)),
        x.guarded(fallback).clamped(lo, hi).at_most(hi),
{
}

/// Whatever comes in, a unit-clamped number is finite and in `0.0 ..= 1.0`.
pub proof fn unit_clamped_is_usable(x: Ieee32)
    ensures
        x.unit_clamped().finite(),
        ieee(ZERO).at_most(x.unit_clamped()),
        x.unit_clamped().at_most(ieee(ONE)),
{
}

/// Clamping leaves alone what is inside the bounds, and moves what is outside to the
/// nearer bound; of two numbers it never swaps the order.
pub proof fn clamping_moves_no_further_than_needed(x: Ieee32, y: Ieee32, lo: Ieee32, hi: Ieee32)
    requires
        lo.at_most(hi),
        !x.nan(),
        !y.nan(),
    ensures
        lo.rank() <= x.rank() <= hi.rank() ==> x.clamped(lo, hi) == x,
        x.rank() < lo.rank() ==> x.clamped(lo, hi) == lo,
        x.rank() > hi.rank() ==> x.clamped(lo, hi) == hi,
        x.rank() <= y.rank() ==> x.clamped(lo, hi).rank() <= y.clamped(lo, hi).rank(),
{
}

/// A NaN passes a clamp unchanged, and a unit clamp reads it as zero; a number in
/// `0.0 ..= 1.0` passes both unchanged.
pub proof fn a_clamp_lets_nan_pass(x: Ieee32, lo: Ieee32, hi: Ieee32)
    ensures
        x.nan() ==> x.clamped(lo, hi) == x,
        x.nan() ==> x.unit_clamped().bits == 0,
        0 <= x.rank() <= 0x3f80_0000 ==> x.unit_clamped() == x,
        !x.nan() && x.rank() < 0 ==> x.unit_clamped().bits == 0,
        !x.nan() && x.rank() > 0x3f80_0000 ==> x.unit_clamped().bits == 0x3f80_0000,
{
}

/// The larger and the smaller of two numbers are the two numbers, and the larger is
/// above both; where one of them is NaN, both are the other.
pub proof fn larger_and_smaller_are_the_two(a: Ieee32, b: Ieee32)
    ensures
        a.larger(b) == a || a.larger(b) == b,
        a.smaller(b) == a || a.smaller(b) == b,
        !a.nan() && !b.nan() ==> a.larger(b).rank() >= a.rank() && a.larger(b).rank() >= b.rank(),
        !a.nan() && !b.nan() ==> a.smaller(b).rank() <= a.rank() && a.smaller(b).rank()
            <= b.rank(),
        a.nan() ==> a.larger(b) == b && a.smaller(b) == b,
        !a.nan() && b.nan() ==> a.larger(b) == a && a.smaller(b) == a,
{
}

/// A guard keeps every number and replaces what is none: infinities and NaN, which
/// are the patterns whose exponent has every bit set.
pub proof fn a_guard_replaces_what_is_no_number(x: Ieee32, fallback: Ieee32)
    ensures
        (x.bits / 0x80_0000) % 256 != 255 ==> x.guarded(fallback) == x,
        (x.bits / 0x80_0000) % 256 == 255 ==> x.guarded(fallback) == fallback,
        x.nan() <==> (x.bits / 0x80_0000) % 256 == 255 && x.bits % 0x80_0000 != 0,
{
}

/// Without its sign a number is as far from zero as before, and not below it.
pub proof fn without_its_sign_a_number_keeps_its_size(x: Ieee32)
    requires
        x.finite(),
    ensures
        x.unsigned().units() == if x.units() < 0 {
            -x.units()
        } else {
            x.units()
        },
        x.unsigned().bits < 0x8000_0000,
{
    assert(scaled(0) == 0);
    if x.magnitude() > 0 {
        lemma_scaled_increases(0, x.magnitude());
    }
}

/// Two to the exponent of `bits`, counted from that of a hundredth.
pub open spec fn step_size(bits: u32) -> int {
    let exponent = bits / 0x80_0000;
    if exponent == 120 {
        1
    } else if exponent == 121 {
        2
    } else if exponent == 122 {
        4
    } else if exponent == 123 {
        8
    } else if exponent == 124 {
        16
    } else if exponent == 125 {
        32
    } else if exponent == 126 {
        64
    } else {
        128
    }
}

/// No number of the same exponent is nearer to `n` hundredths than the one with the
/// pattern `bits`: in steps of `2^-30` it is off by at most half of its own step.
pub open spec fn is_nearest(bits: u32, n: int) -> bool {
    let step = step_size(bits);
    let off = 100 * (0x80_0000 + bits % 0x80_0000) * step - n * 0x4000_0000;
    &&& 120 <= bits / 0x80_0000 <= 127
    &&& -50 * step <= off <= 50 * step
}

/// Percentages are what they say: the single-precision number nearest to that many
/// hundredths.
pub proof fn percentages_are_hundredths(n: usize)
    requires
        n <= 100,
    ensures
        n == 0 ==> percent(n).bits == 0,
        n > 0 ==> is_nearest(percent(n).bits, n as int),
{
    assert(is_nearest(PERCENT@[1], 1)
        && is_nearest(PERCENT@[2], 2)
        && is_nearest(PERCENT@[3], 3)
        && is_nearest(PERCENT@[4], 4)
        && is_nearest(PERCENT@[5], 5));
    assert(is_nearest(PERCENT@[6], 6)
        && is_nearest(PERCENT@[7], 7)
        && is_nearest(PERCENT@[8], 8)
        && is_nearest(PERCENT@[9], 9)
        && is_nearest(PERCENT@[10], 10));
    assert(is_nearest(PERCENT@[11], 11)
        && is_nearest(PERCENT@[12], 12)
        && is_nearest(PERCENT@[13], 13)
        && is_nearest(PERCENT@[14], 14)
        && is_nearest(PERCENT@[15], 15));
    assert(is_nearest(PERCENT@[16], 16)
        && is_nearest(PERCENT@[17], 17)
        && is_nearest(PERCENT@[18], 18)
        && is_nearest(PERCENT@[19], 19)
        && is_nearest(PERCENT@[20], 20));
    assert(is_nearest(PERCENT@[21], 21)
        && is_nearest(PERCENT@[22], 22)
        && is_nearest(PERCENT@[23], 23)
        && is_nearest(PERCENT@[24], 24)
        && is_nearest(PERCENT@[25], 25));
    assert(is_nearest(PERCENT@[26], 26)
        && is_nearest(PERCENT@[27], 27)
        && is_nearest(PERCENT@[28], 28)
        && is_nearest(PERCENT@[29], 29)
        && is_nearest(PERCENT@[30], 30));
    assert(is_nearest(PERCENT@[31], 31)
        && is_nearest(PERCENT@[32], 32)
        && is_nearest(PERCENT@[33], 33)
        && is_nearest(PERCENT@[34], 34)
        && is_nearest(PERCENT@[35], 35));
    assert(is_nearest(PERCENT@[36], 36)
        && is_nearest(PERCENT@[37], 37)
        && is_nearest(PERCENT@[38], 38)
        && is_nearest(PERCENT@[39], 39)
        && is_nearest(PERCENT@[40], 40));
    assert(is_nearest(PERCENT@[41], 41)
        && is_nearest(PERCENT@[42], 42)
        && is_nearest(PERCENT@[43], 43)
        && is_nearest(PERCENT@[44], 44)
        && is_nearest(PERCENT@[45], 45));
    assert(is_nearest(PERCENT@[46], 46)
        && is_nearest(PERCENT@[47], 47)
        && is_nearest(PERCENT@[48], 48)
        && is_nearest(PERCENT@[49], 49)
        && is_nearest(PERCENT@[50], 50));
    assert(is_nearest(PERCENT@[51], 51)
        && is_nearest(PERCENT@[52], 52)
        && is_nearest(PERCENT@[53], 53)
        && is_nearest(PERCENT@[54], 54)
        && is_nearest(PERCENT@[55], 55));
    assert(is_nearest(PERCENT@[56], 56)
        && is_nearest(PERCENT@[57], 57)
        && is_nearest(PERCENT@[58], 58)
        && is_nearest(PERCENT@[59], 59)
        && is_nearest(PERCENT@[60], 60));
    assert(is_nearest(PERCENT@[61], 61)
        && is_nearest(PERCENT@[62], 62)
        && is_nearest(PERCENT@[63], 63)
        && is_nearest(PERCENT@[64], 64)
        && is_nearest(PERCENT@[65], 65));
    assert(is_nearest(PERCENT@[66], 66)
        && is_nearest(PERCENT@[67], 67)
        && is_nearest(PERCENT@[68], 68)
        && is_nearest(PERCENT@[69], 69)
        && is_nearest(PERCENT@[70], 70));
    assert(is_nearest(PERCENT@[71], 71)
        && is_nearest(PERCENT@[72], 72)
        && is_nearest(PERCENT@[73], 73)
        && is_nearest(PERCENT@[74], 74)
        && is_nearest(PERCENT@[75], 75));
    assert(is_nearest(PERCENT@[76], 76)
        && is_nearest(PERCENT@[77], 77)
        && is_nearest(PERCENT@[78], 78)
        && is_nearest(PERCENT@[79], 79)
        && is_nearest(PERCENT@[80], 80));
    assert(is_nearest(PERCENT@[81], 81)
        && is_nearest(PERCENT@[82], 82)
        && is_nearest(PERCENT@[83], 83)
        && is_nearest(PERCENT@[84], 84)
        && is_nearest(PERCENT@[85], 85));
    assert(is_nearest(PERCENT@[86], 86)
        && is_nearest(PERCENT@[87], 87)
        && is_nearest(PERCENT@[88], 88)
        && is_nearest(PERCENT@[89], 89)
        && is_nearest(PERCENT@[90], 90));
    assert(is_nearest(PERCENT@[91], 91)
        && is_nearest(PERCENT@[92], 92)
        && is_nearest(PERCENT@[93], 93)
        && is_nearest(PERCENT@[94], 94)
        && is_nearest(PERCENT@[95], 95));
    assert(is_nearest(PERCENT@[96], 96)
        && is_nearest(PERCENT@[97], 97)
        && is_nearest(PERCENT@[98], 98)
        && is_nearest(PERCENT@[99], 99)
        && is_nearest(PERCENT@[100], 100));
    assert(PERCENT@[0] == 0);
}

/// `r` is what a setting of `x` comes to where it ranges from position `lo` to position
/// `hi` on the number line: `x` itself inside the range, the nearer end outside it, and the
/// number with the pattern `fallback` where `x` is none.
pub open spec fn settles(r: Ieee32, x: Ieee32, lo: int, hi: int, fallback: u32) -> bool {
    if (x.bits / 0x80_0000) % 256 == 255 {
        r.bits == fallback
    } else if x.rank() < lo {
        r.rank() == lo
    } else if x.rank() > hi {
        r.rank() == hi
    } else {
        r == x
    }
}

/// `r` is what a setting of `x` from `0.0` to `1.0` comes to: `x` itself inside the
/// range, the nearer end outside it, and zero for a NaN.
pub open spec fn settles_in_unit(r: Ieee32, x: Ieee32) -> bool {
    if x.nan() || x.rank() < 0 {
        r.bits == 0
    } else if x.rank() > 0x3f80_0000 {
        r.bits == 0x3f80_0000
    } else {
        r == x
    }
}

/// The named numbers are what they are called: the percentages among them, and one,
/// doubled and with the other sign.
pub proof fn named_numbers_are_what_they_say()
    ensures
        ieee(ZERO) == percent(0),
        ieee(TWENTIETH) == percent(5),
        ieee(QUARTER) == percent(25),
        ieee(THREE_TENTHS) == percent(30),
        ieee(HALF) == percent(50),
        ieee(NINETEEN_TWENTIETHS) == percent(95),
        ieee(ONE) == percent(100),
        ieee(MINUS_ONE).units() == -ieee(ONE).units(),
        ieee(TWO).bits == ieee(ONE).bits + 0x80_0000,
        HALF_THOUSANDTH + 0x80_0000 == THOUSANDTH,
        THOUSANDTH == 0x3a83_126f,
{
}

/// Guarding a setting and then clamping it settles it in its range, where the fallback
/// lies in the range too.
pub proof fn guarding_and_clamping_settles(x: Ieee32, fallback: Ieee32, lo: Ieee32, hi: Ieee32)
    requires
        lo.finite(),
        hi.finite(),
        lo.rank() <= fallback.rank() <= hi.rank(),
    ensures
        settles(x.guarded(fallback).clamped(lo, hi), x, lo.rank(), hi.rank(), fallback.bits),
{
}

} // verus!

//! The filter's settings, and how it glides toward them.

use crate::ieee::{ieee, Ieee32, ZERO};
use vstd::prelude::*;

verus! {

/// `20.0`: the lowest cutoff.
pub const MIN_CUTOFF_HZ: u32 = 0x41a0_0000;

/// `1000.0`
pub const OPEN_HZ: u32 = 0x447a_0000;

/// `0.01`: a cutoff this close has arrived.
pub const SMOOTH_EPS_HZ: u32 = 0x3c23_d70a;

/// `1e-5`: a resonance this close has arrived.
pub const SMOOTH_EPS_RES: u32 = 0x3727_c5ac;

/// A cutoff between the lowest and `ceiling`; a NaN is the lowest.
pub open spec fn usable_cutoff(hz: Ieee32, ceiling: Ieee32) -> Ieee32 {
    hz.larger(ieee(MIN_CUTOFF_HZ)).smaller(ceiling.larger(ieee(MIN_CUTOFF_HZ)))
}

/// A cutoff between the lowest and `ceiling`, the highest that the sample rate
/// allows.
pub fn clamp_cutoff(hz: Ieee32, ceiling: Ieee32) -> (r: Ieee32)
    ensures
        r == usable_cutoff(hz, ceiling),
{
    hz.max(ieee(MIN_CUTOFF_HZ)).min(ceiling.max(ieee(MIN_CUTOFF_HZ)))
}

/// Where a filter is, and where it is going.
#[derive(Clone, Copy, Debug, PartialEq, Eq, Structural)]
pub struct Filter {
    pub target_cutoff_hz: Ieee32,
    pub target_resonance: Ieee32,
    pub cur_cutoff_hz: Ieee32,
    pub cur_resonance: Ieee32,
    pub drive: Ieee32,
}

/// What a sample of gliding changed.
#[derive(Clone, Copy, Debug, PartialEq, Eq, Structural)]
pub struct Glide {
    /// The resonance moved, so the damping follows.
    pub resonance: bool,
    /// Something moved, so the coefficients follow.
    pub any: bool,
}

/// A value after a sample of gliding: moved on while it is further from its
/// target than `eps`, then at the target. `distance` is how far it is, and `slid`
/// the value moved on.
pub open spec fn glided(
    cur: Ieee32,
    target: Ieee32,
    distance: Ieee32,
    eps: Ieee32,
    slid: Ieee32,
) -> Ieee32 {
    if eps.below(distance) {
        slid
    } else if same_number(cur, target) {
        cur
    } else {
        target
    }
}

/// Whether a sample of gliding changes a value.
pub open spec fn moves(cur: Ieee32, target: Ieee32, distance: Ieee32, eps: Ieee32) -> bool {
    eps.below(distance) || !same_number(cur, target)
}

/// Equality of numbers: the zeros are equal, and a NaN is equal to nothing.
pub open spec fn same_number(a: Ieee32, b: Ieee32) -> bool {
    !a.nan() && !b.nan() && a.rank() == b.rank()
}

fn glide(cur: Ieee32, target: Ieee32, distance: Ieee32, eps: Ieee32, slid: Ieee32) -> (r: (
    Ieee32,
    bool,
))
    ensures
        r.0 == glided(cur, target, distance, eps, slid),
        r.1 == moves(cur, target, distance, eps),
{
    if eps.lt(distance) {
        (slid, true)
    } else if !cur.is_nan() && !target.is_nan() && cur.position() == target.position() {
        (cur, false)
    } else {
        (target, true)
    }
}

/// A filter after a sample of gliding.
pub open spec fn glided_filter(
    f: Filter,
    cutoff_distance: Ieee32,
    cutoff_slid: Ieee32,
    resonance_distance: Ieee32,
    resonance_slid: Ieee32,
) -> Filter {
    Filter {
        cur_cutoff_hz: glided(
            f.cur_cutoff_hz,
            f.target_cutoff_hz,
            cutoff_distance,
            ieee(SMOOTH_EPS_HZ),
            cutoff_slid,
        ),
        cur_resonance: glided(
            f.cur_resonance,
            f.target_resonance,
            resonance_distance,
            ieee(SMOOTH_EPS_RES),
            resonance_slid,
        ),
        ..f
    }
}

impl Filter {
    /// Open at 1 kHz without resonance. `ceiling` is the highest cutoff.
    pub fn new(ceiling: Ieee32) -> (r: Self)
        ensures
            r == (Filter {
                target_cutoff_hz: usable_cutoff(ieee(0x447a_0000), ceiling),
                target_resonance: ieee(ZERO),
                cur_cutoff_hz: usable_cutoff(ieee(OPEN_HZ), ceiling),
                cur_resonance: ieee(ZERO),
                drive: ieee(ZERO),
            }),
    {
        let hz = clamp_cutoff(ieee(OPEN_HZ), ceiling);
        Filter {
            target_cutoff_hz: hz,
            target_resonance: ieee(ZERO),
            cur_cutoff_hz: hz,
            cur_resonance: ieee(ZERO),
            drive: ieee(ZERO),
        }
    }

    pub fn set_cutoff(&mut self, hz: Ieee32, ceiling: Ieee32)
        ensures
            *final(self) == (Filter {
                target_cutoff_hz: usable_cutoff(hz, ceiling),
                ..*old(self)
            }),
    {
        self.target_cutoff_hz = clamp_cutoff(hz, ceiling);
    }

    pub fn set_resonance(&mut self, amount: Ieee32)
        ensures
            *final(self) == (Filter { target_resonance: amount.unit_clamped(), ..*old(self) }),
    {
        self.target_resonance = amount.clamp01();
    }

    pub fn set_drive(&mut self, amount: Ieee32)
        ensures
            *final(self) == (Filter { drive: amount.unit_clamped(), ..*old(self) }),
    {
        self.drive = amount.clamp01();
    }

    /// Be at the targets at once.
    pub fn snap_to_targets(&mut self)
        ensures
            *final(self) == (Filter {
                cur_cutoff_hz: old(self).target_cutoff_hz,
                cur_resonance: old(self).target_resonance,
                ..*old(self)
            }),
    {
        self.cur_cutoff_hz = self.target_cutoff_hz;
        self.cur_resonance = self.target_resonance;
    }

    /// Glide a sample toward the targets. The distances to them and the values
    /// moved on arrive made.
    pub fn advance_smoothers(
        &mut self,
        cutoff_distance: Ieee32,
        cutoff_slid: Ieee32,
        resonance_distance: Ieee32,
        resonance_slid: Ieee32,
    ) -> (r: Glide)
        ensures
            *final(self) == glided_filter(
                *old(self),
                cutoff_distance,
                cutoff_slid,
                resonance_distance,
                resonance_slid,
            ),
            r.resonance == moves(
                old(self).cur_resonance,
                old(self).target_resonance,
                resonance_distance,
                ieee(SMOOTH_EPS_RES),
            ),
            r.any == (r.resonance || moves(
                old(self).cur_cutoff_hz,
                old(self).target_cutoff_hz,
                cutoff_distance,
                ieee(SMOOTH_EPS_HZ),
            )),
    {
        let (hz, hz_moved) = glide(
            self.cur_cutoff_hz,
            self.target_cutoff_hz,
            cutoff_distance,
            ieee(SMOOTH_EPS_HZ),
            cutoff_slid,
        );
        let (res, res_moved) = glide(
            self.cur_resonance,
            self.target_resonance,
            resonance_distance,
            ieee(SMOOTH_EPS_RES),
            resonance_slid,
        );
        self.cur_cutoff_hz = hz;
        self.cur_resonance = res;
        Glide { resonance: res_moved, any: hz_moved || res_moved }
    }
}

/// A cutoff is never NaN, and lies between the lowest and the ceiling.
pub proof fn cutoffs_are_usable(hz: Ieee32, ceiling: Ieee32)
    ensures
        !usable_cutoff(hz, ceiling).nan(),
        ieee(MIN_CUTOFF_HZ).at_most(usable_cutoff(hz, ceiling)),
        usable_cutoff(hz, ceiling).at_most(ceiling.larger(ieee(MIN_CUTOFF_HZ))),
{
}

/// A filter that has arrived stays: at its target, with no distance left, it
/// does not move.
pub proof fn an_arrived_filter_rests(cur: Ieee32, eps: Ieee32, slid: Ieee32)
    requires
        !cur.nan(),
        !eps.below(ieee(ZERO)),
    ensures
        !moves(cur, cur, ieee(ZERO), eps),
        glided(cur, cur, ieee(ZERO), eps, slid) == cur,
{
}

/// A cutoff from 20.0 to the ceiling is kept, and one outside is the nearer end.
pub proof fn a_usable_cutoff_is_kept(hz: Ieee32, ceiling: Ieee32)
    requires
        !hz.nan(),
        !ceiling.nan(),
        ceiling.rank() >= 0x41a0_0000,
    ensures
        0x41a0_0000 <= hz.rank() <= ceiling.rank() ==> usable_cutoff(hz, ceiling) == hz,
        hz.rank() < 0x41a0_0000 ==> usable_cutoff(hz, ceiling).bits == 0x41a0_0000,
        hz.rank() > ceiling.rank() ==> usable_cutoff(hz, ceiling) == ceiling,
{
}

/// A filter slides while it is further from its targets than 0.01 in cutoff and 0.00001
/// in resonance, each on its own, and is at the target once it is as close as that. Its
/// targets and its drive stay.
pub proof fn a_filter_slides_until_it_is_close(
    f: Filter,
    cutoff_distance: Ieee32,
    cutoff_slid: Ieee32,
    resonance_distance: Ieee32,
    resonance_slid: Ieee32,
)
    requires
        !cutoff_distance.nan(),
        !resonance_distance.nan(),
    ensures
        ({
            let r = glided_filter(
                f,
                cutoff_distance,
                cutoff_slid,
                resonance_distance,
                resonance_slid,
            );
            &&& r.target_cutoff_hz == f.target_cutoff_hz
            &&& r.target_resonance == f.target_resonance
            &&& r.drive == f.drive
            &&& cutoff_distance.rank() > 0x3c23_d70a ==> r.cur_cutoff_hz == cutoff_slid
            &&& cutoff_distance.rank() <= 0x3c23_d70a && !f.target_cutoff_hz.nan()
                ==> r.cur_cutoff_hz.rank() == f.target_cutoff_hz.rank()
            &&& resonance_distance.rank() > 0x3727_c5ac ==> r.cur_resonance == resonance_slid
            &&& resonance_distance.rank() <= 0x3727_c5ac && !f.target_resonance.nan()
                ==> r.cur_resonance.rank() == f.target_resonance.rank()
        }),
{
}

/// A glide is reported whenever there is one: where nothing is reported, the value is what
/// it was.
pub proof fn a_glide_is_reported(
    cur: Ieee32,
    target: Ieee32,
    distance: Ieee32,
    eps: Ieee32,
    slid: Ieee32,
)
    ensures
        glided(cur, target, distance, eps, slid) != cur ==> moves(cur, target, distance, eps),
        !distance.nan() && !eps.nan() && distance.rank() > eps.rank() ==> moves(
            cur,
            target,
            distance,
            eps,
        ),
        !cur.nan() && !target.nan() && cur.rank() != target.rank() ==> moves(
            cur,
            target,
            distance,
            eps,
        ),
        !cur.nan() && !target.nan() && cur.rank() == target.rank() && !eps.nan() && distance.rank()
            <= eps.rank() ==> !moves(cur, target, distance, eps),
{
}

} // verus!

//! The guard on every write into a feedback loop.

use crate::ieee::{ieee, Ieee32, ZERO};
use vstd::prelude::*;

verus! {

/// `1e-25`: a magnitude up to here counts as silence.
pub const DENORMAL_THRESHOLD: u32 = 0x15f7_9688;

/// A number as it may enter a feedback loop: finite and above the threshold, or
/// zero.
pub open spec fn flushed(x: Ieee32) -> Ieee32 {
    if x.finite() && ieee(DENORMAL_THRESHOLD).below(x.unsigned()) {
        x
    } else {
        ieee(ZERO)
    }
}

/// Let a usable number pass, and turn anything else into zero.
pub fn flush_denormal(x: Ieee32) -> (r: Ieee32)
    ensures
        r == flushed(x),
{
    if x.is_finite() && ieee(DENORMAL_THRESHOLD).lt(x.abs()) {
        x
    } else {
        ieee(ZERO)
    }
}

/// Nothing that is not finite gets through, and flushing twice is flushing once.
pub proof fn flushed_is_usable(x: Ieee32)
    ensures
        flushed(x).finite(),
        flushed(flushed(x)) == flushed(x),
{
}

/// A finite number further from zero than `1e-25` passes unchanged; everything else
/// becomes plain zero.
pub proof fn what_is_heard_passes_the_guard(x: Ieee32)
    ensures
        0x15f7_9688 < x.magnitude() < 0x7f80_0000 ==> flushed(x) == x,
        x.magnitude() <= 0x15f7_9688 || x.magnitude() >= 0x7f80_0000 ==> flushed(x).bits == 0,
{
}

} // verus!

//! The parameters that a host automates.

use crate::ieee::{ieee, Ieee32};
use vstd::prelude::*;

verus! {

/// A parameter that a host automates.
#[derive(Clone, Copy, Debug, PartialEq, Eq, Structural)]
pub enum ParamId {
    /// The master gain, in decibels.
    Gain,
    /// Depth of the sidechain duck.
    Pump,
    /// Drive on the bus.
    BusDrive,
    /// Reverb send.
    Reverb,
    /// Delay mix.
    Delay,
    /// Note division of the duck.
    PumpRate,
    /// Shape of the duck.
    PumpCurve,
    /// Parallel compression.
    Parallel,
    /// Emphasis of transients.
    Punch,
    /// How long a gated reverb is held.
    GateTime,
}

/// What a host shows of a parameter, and where it may stand.
#[derive(Clone, Copy, Debug)]
pub struct ParamSpec {
    pub key: &'static str,
    pub name: &'static str,
    pub unit: &'static str,
    pub default: Ieee32,
    pub min: Ieee32,
    pub max: Ieee32,
}

impl ParamId {
    /// The parameter of a gesture id: one to nine are the bus effects, anything
    /// else is the master gain.
    pub open spec fn of_gesture(id: u8) -> ParamId {
        if id == 1 {
            ParamId::Pump
        } else if id == 2 {
            ParamId::BusDrive
        } else if id == 3 {
            ParamId::Reverb
        } else if id == 4 {
            ParamId::Delay
        } else if id == 5 {
            ParamId::PumpRate
        } else if id == 6 {
            ParamId::PumpCurve
        } else if id == 7 {
            ParamId::Parallel
        } else if id == 8 {
            ParamId::Punch
        } else if id == 9 {
            ParamId::GateTime
        } else {
            ParamId::Gain
        }
    }

    /// The parameter of a gesture id.
    pub fn from_gesture(id: u8) -> (r: Self)
        ensures
            r == ParamId::of_gesture(id),
    {
        match id {
            1 => ParamId::Pump,
            2 => ParamId::BusDrive,
            3 => ParamId::Reverb,
            4 => ParamId::Delay,
            5 => ParamId::PumpRate,
            6 => ParamId::PumpCurve,
            7 => ParamId::Parallel,
            8 => ParamId::Punch,
            9 => ParamId::GateTime,
            _ => ParamId::Gain,
        }
    }

    /// The gesture id of a parameter.
    pub fn gesture(self) -> (id: u8)
        ensures
            ParamId::of_gesture(id) == self,
            id <= 9,
    {
        match self {
            ParamId::Gain => 0,
            ParamId::Pump => 1,
            ParamId::BusDrive => 2,
            ParamId::Reverb => 3,
            ParamId::Delay => 4,
            ParamId::PumpRate => 5,
            ParamId::PumpCurve => 6,
            ParamId::Parallel => 7,
            ParamId::Punch => 8,
            ParamId::GateTime => 9,
        }
    }

    /// The key a host stores the parameter under.
    pub open spec fn host_key(self) -> Seq<char> {
        match self {
            ParamId::Gain => "master_gain"@,
            ParamId::Pump => "pump"@,
            ParamId::BusDrive => "bus_drive"@,
            ParamId::Reverb => "reverb"@,
            ParamId::Delay => "delay"@,
            ParamId::PumpRate => "pump_rate"@,
            ParamId::PumpCurve => "pump_curve"@,
            ParamId::Parallel => "parallel"@,
            ParamId::Punch => "punch"@,
            ParamId::GateTime => "gate_time"@,
        }
    }

    /// The name a host shows.
    pub open spec fn host_name(self) -> Seq<char> {
        match self {
            ParamId::Gain => "Master"@,
            ParamId::Pump => "Pump"@,
            ParamId::BusDrive => "Bus Drive"@,
            ParamId::Reverb => "Reverb"@,
            ParamId::Delay => "Delay"@,
            ParamId::PumpRate => "Pump Rate"@,
            ParamId::PumpCurve => "Pump Curve"@,
            ParamId::Parallel => "Parallel Comp"@,
            ParamId::Punch => "Punch"@,
            ParamId::GateTime => "Gate Time"@,
        }
    }

    /// The unit a host shows.
    pub open spec fn host_unit(self) -> Seq<char> {
        match self {
            ParamId::Gain => " dB"@,
            ParamId::PumpRate => ""@,
            ParamId::GateTime => " ms"@,
            _ => " %"@,
        }
    }

    /// Default, least and greatest value.
    pub open spec fn host_range(self) -> (Ieee32, Ieee32, Ieee32) {
        match self {
            ParamId::Gain => (ieee(0xc040_0000), ieee(0xc270_0000), ieee(0x40c0_0000)),
            ParamId::Pump => (ieee(0x0000_0000), ieee(0x0000_0000), ieee(0x3f80_0000)),
            ParamId::BusDrive => (ieee(0x0000_0000), ieee(0x0000_0000), ieee(0x3f80_0000)),
            ParamId::Reverb => (ieee(0x0000_0000), ieee(0x0000_0000), ieee(0x3f80_0000)),
            ParamId::Delay => (ieee(0x0000_0000), ieee(0x0000_0000), ieee(0x3f80_0000)),
            ParamId::PumpRate => (ieee(0x3f00_0000), ieee(0x0000_0000), ieee(0x3f80_0000)),
            ParamId::PumpCurve => (ieee(0x3f00_0000), ieee(0x0000_0000), ieee(0x3f80_0000)),
            ParamId::Parallel => (ieee(0x0000_0000), ieee(0x0000_0000), ieee(0x3f80_0000)),
            ParamId::Punch => (ieee(0x0000_0000), ieee(0x0000_0000), ieee(0x3f80_0000)),
            ParamId::GateTime => (ieee(0x42f0_0000), ieee(0x41a0_0000), ieee(0x43c8_0000)),
        }
    }

    /// What a host shows of this parameter, and where it may stand.
    pub fn spec(self) -> (r: ParamSpec)
        ensures
            r.key@ == self.host_key(),
            r.name@ == self.host_name(),
            r.unit@ == self.host_unit(),
            (r.default, r.min, r.max) == self.host_range(),
    {
        match self {
            ParamId::Gain => ParamSpec {
                key: "master_gain",
                name: "Master",
                unit: " dB",
                default: ieee(0xc040_0000),
                min: ieee(0xc270_0000),
                max: ieee(0x40c0_0000),
            },
            ParamId::Pump => ParamSpec {
                key: "pump",
                name: "Pump",
                unit: " %",
                default: ieee(0x0000_0000),
                min: ieee(0x0000_0000),
                max: ieee(0x3f80_0000),
            },
            ParamId::BusDrive => ParamSpec {
                key: "bus_drive",
                name: "Bus Drive",
                unit: " %",
                default: ieee(0x0000_0000),
                min: ieee(0x0000_0000),
                max: ieee(0x3f80_0000),
            },
            ParamId::Reverb => ParamSpec {
                key: "reverb",
                name: "Reverb",
                unit: " %",
                default: ieee(0x0000_0000),
                min: ieee(0x0000_0000),
                max: ieee(0x3f80_0000),
            },
            ParamId::Delay => ParamSpec {
                key: "delay",
                name: "Delay",
                unit: " %",
                default: ieee(0x0000_0000),
                min: ieee(0x0000_0000),
                max: ieee(0x3f80_0000),
            },
            ParamId::PumpRate => ParamSpec {
                key: "pump_rate",
                name: "Pump Rate",
                unit: "",
                default: ieee(0x3f00_0000),
                min: ieee(0x0000_0000),
                max: ieee(0x3f80_0000),
            },
            ParamId::PumpCurve => ParamSpec {
                key: "pump_curve",
                name: "Pump Curve",
                unit: " %",
                default: ieee(0x3f00_0000),
                min: ieee(0x0000_0000),
                max: ieee(0x3f80_0000),
            },
            ParamId::Parallel => ParamSpec {
                key: "parallel",
                name: "Parallel Comp",
                unit: " %",
                default: ieee(0x0000_0000),
                min: ieee(0x0000_0000),
                max: ieee(0x3f80_0000),
            },
            ParamId::Punch => ParamSpec {
                key: "punch",
                name: "Punch",
                unit: " %",
                default: ieee(0x0000_0000),
                min: ieee(0x0000_0000),
                max: ieee(0x3f80_0000),
            },
            ParamId::GateTime => ParamSpec {
                key: "gate_time",
                name: "Gate Time",
                unit: " ms",
                default: ieee(0x42f0_0000),
                min: ieee(0x41a0_0000),
                max: ieee(0x43c8_0000),
            },
        }
    }
}

/// Every parameter stands within its range by default.
pub proof fn defaults_are_in_range(p: ParamId)
    ensures
        ({
            let (d, lo, hi) = p.host_range();
            lo.at_most(d) && d.at_most(hi)
        }),
{
}

/// No two bus effects share a gesture id.
pub proof fn gestures_tell_parameters(a: u8, b: u8)
    requires
        1 <= a <= 9,
        1 <= b <= 9,
        ParamId::of_gesture(a) == ParamId::of_gesture(b),
    ensures
        a == b,
{
}

/// The note division that a pump rate selects, by how many fifths of its range
/// lie below it.
pub fn pump_rate_label(fifths: usize) -> (r: &'static str)
    ensures
        fifths == 0 ==> r@ == "1/1"@,
        fifths == 1 ==> r@ == "1/2"@,
        fifths == 2 ==> r@ == "1/4"@,
        fifths == 3 ==> r@ == "1/8"@,
        fifths >= 4 ==> r@ == "1/16"@,
{
    match fifths {
        0 => "1/1",
        1 => "1/2",
        2 => "1/4",
        3 => "1/8",
        _ => "1/16",
    }
}

/// Each bus effect has its own gesture id, and every other id is the master gain.
pub proof fn gestures_name_their_parameters(id: u8)
    ensures
        ParamId::of_gesture(id) == ParamId::Pump <==> id == 1,
        ParamId::of_gesture(id) == ParamId::BusDrive <==> id == 2,
        ParamId::of_gesture(id) == ParamId::Reverb <==> id == 3,
        ParamId::of_gesture(id) == ParamId::Delay <==> id == 4,
        ParamId::of_gesture(id) == ParamId::PumpRate <==> id == 5,
        ParamId::of_gesture(id) == ParamId::PumpCurve <==> id == 6,
        ParamId::of_gesture(id) == ParamId::Parallel <==> id == 7,
        ParamId::of_gesture(id) == ParamId::Punch <==> id == 8,
        ParamId::of_gesture(id) == ParamId::GateTime <==> id == 9,
        ParamId::of_gesture(id) == ParamId::Gain <==> id == 0 || id > 9,
{
}

/// Where parameters may stand: the gain from 60 dB down to 6 dB up, 3 dB down by
/// default; the time a reverb tail is held open from 20 to 400 ms, at 120 ms by
/// default; every other between none and all, with the effects off and the pump's rate and curve
/// in the middle by default.
pub proof fn parameters_stand_in_their_ranges(p: ParamId)
    ensures
        p == ParamId::Gain ==> p.host_range() == (
            ieee(0xc040_0000),
            ieee(0xc270_0000),
            ieee(0x40c0_0000),
        ),
        p == ParamId::GateTime ==> p.host_range() == (
            ieee(0x42f0_0000),
            ieee(0x41a0_0000),
            ieee(0x43c8_0000),
        ),
        p != ParamId::Gain && p != ParamId::GateTime ==> p.host_range().1 == ieee(0)
            && p.host_range().2 == ieee(0x3f80_0000),
        p == ParamId::PumpRate || p == ParamId::PumpCurve ==> p.host_range().0 == ieee(0x3f00_0000),
        p == ParamId::Pump || p == ParamId::BusDrive || p == ParamId::Reverb || p == ParamId::Delay
            || p == ParamId::Parallel || p == ParamId::Punch ==> p.host_range().0 == ieee(0),
{
}

/// A host stores the parameters under their keys.
pub proof fn parameters_have_their_keys(p: ParamId)
    ensures
        p == ParamId::Gain ==> p.host_key() == "master_gain"@ && p.host_name() == "Master"@,
        p == ParamId::Pump ==> p.host_key() == "pump"@ && p.host_name() == "Pump"@,
        p == ParamId::BusDrive ==> p.host_key() == "bus_drive"@ && p.host_name() == "Bus Drive"@,
        p == ParamId::Reverb ==> p.host_key() == "reverb"@ && p.host_name() == "Reverb"@,
        p == ParamId::Delay ==> p.host_key() == "delay"@ && p.host_name() == "Delay"@,
        p == ParamId::PumpRate ==> p.host_key() == "pump_rate"@ && p.host_name() == "Pump Rate"@,
        p == ParamId::PumpCurve ==> p.host_key() == "pump_curve"@ && p.host_name() == "Pump Curve"@,
        p == ParamId::Parallel ==> p.host_key() == "parallel"@ && p.host_name()
            == "Parallel Comp"@,
        p == ParamId::Punch ==> p.host_key() == "punch"@ && p.host_name() == "Punch"@,
        p == ParamId::GateTime ==> p.host_key() == "gate_time"@ && p.host_name() == "Gate Time"@,
{
}

/// The gain is shown in decibels, the time of the held reverb in milliseconds, the pump's
/// rate without a unit, and everything else in percent.
pub proof fn parameters_have_their_units(p: ParamId)
    ensures
        p == ParamId::Gain ==> p.host_unit() == " dB"@,
        p == ParamId::GateTime ==> p.host_unit() == " ms"@,
        p == ParamId::PumpRate ==> p.host_unit() == ""@,
        p != ParamId::Gain && p != ParamId::GateTime && p != ParamId::PumpRate ==> p.host_unit()
            == " %"@,
{
}

} // verus!

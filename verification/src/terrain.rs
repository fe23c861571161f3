//! Dig sites: for each lane of each site its role, how active it is, how loud,
//! and how likely a hit is at each position of the bar.

use crate::pattern::MAX_TRACKS;
use crate::text::same_text;
use vstd::prelude::*;

verus! {

/// Steps of the bar that a dig writes.
pub const DIG_STEPS: usize = 16;

/// A lane's job in the groove.
#[derive(Clone, Copy, Debug, PartialEq, Eq, Structural)]
pub enum Role {
    Anchor,
    Backbeat,
    Motor,
    Color,
}

/// One lane's grammar within a site.
#[derive(Clone, Copy, Debug)]
pub struct LanePrior {
    pub role: Role,
    /// How present the lane is, in percent; 0 is silent.
    pub activity: u8,
    /// How likely a hit is at each position, in percent.
    pub prior: [u8; 16],
    /// Velocity at a prior of 0 and of 100.
    pub vel_lo: u8,
    pub vel_hi: u8,
}

/// A dig site.
#[derive(Debug)]
pub struct Terrain {
    pub id: &'static str,
    pub name: &'static str,
    pub swing: u8,
    pub humanize: u8,
    pub lanes: Vec<LanePrior>,
}

impl Terrain {
    pub open spec fn well_formed(self) -> bool {
        self.lanes@.len() == MAX_TRACKS
    }

    /// The site is the one with this name, feel and grammar.
    pub open spec fn speaks(
        self,
        id: Seq<char>,
        name: Seq<char>,
        swing: u8,
        humanize: u8,
        roles: [Role; 12],
        activity: [u8; 12],
        velocity: [[u8; 2]; 12],
        prior: [[u8; 16]; 12],
    ) -> bool {
        &&& self.well_formed()
        &&& self.id@ == id
        &&& self.name@ == name
        &&& self.swing == swing
        &&& self.humanize == humanize
        &&& forall|t: int|
            0 <= t < MAX_TRACKS ==> #[trigger] self.lanes@[t] == (LanePrior {
                role: roles@[t],
                activity: activity@[t],
                prior: prior@[t],
                vel_lo: velocity@[t]@[0],
                vel_hi: velocity@[t]@[1],
            })
    }
}

/// Roles of the lanes of Techno.
pub const TECHNO_ROLES: [Role; 12] = [
    Role::Anchor,
    Role::Anchor,
    Role::Backbeat,
    Role::Backbeat,
    Role::Color,
    Role::Motor,
    Role::Motor,
    Role::Motor,
    Role::Color,
    Role::Color,
    Role::Color,
    Role::Color,
];

/// Activities of the lanes of Techno, in percent.
pub const TECHNO_ACTIVITY: [u8; 12] = [100, 20, 35, 85, 45, 100, 70, 25, 30, 30, 15, 40];

/// Velocity contours of the lanes of Techno: quietest, loudest.
pub const TECHNO_VELOCITY: [[u8; 2]; 12] = [
    [100, 122],
    [84, 100],
    [78, 106],
    [92, 112],
    [62, 88],
    [68, 96],
    [76, 98],
    [58, 80],
    [70, 96],
    [70, 96],
    [66, 88],
    [72, 100],
];

/// Priors of the lanes of Techno.
pub const TECHNO_PRIOR: [[u8; 16]; 12] = [
    [95, 2, 4, 2, 95, 2, 5, 3, 95, 2, 4, 2, 95, 3, 6, 10],
    [70, 0, 0, 0, 0, 0, 0, 0, 70, 0, 0, 0, 0, 0, 0, 0],
    [0, 4, 2, 4, 55, 3, 2, 8, 0, 4, 2, 4, 55, 4, 3, 12],
    [0, 2, 0, 2, 90, 2, 0, 4, 0, 2, 0, 2, 90, 2, 0, 6],
    [0, 10, 4, 14, 0, 8, 4, 10, 0, 10, 4, 14, 0, 8, 6, 16],
    [30, 14, 88, 14, 30, 14, 88, 16, 30, 14, 88, 14, 30, 16, 88, 20],
    [0, 0, 70, 0, 0, 0, 70, 0, 0, 0, 70, 0, 0, 0, 70, 4],
    [12, 0, 22, 0, 12, 0, 22, 0, 12, 0, 22, 0, 12, 0, 22, 0],
    [0, 3, 0, 6, 0, 4, 0, 8, 0, 3, 0, 6, 0, 5, 3, 14],
    [0, 5, 0, 4, 0, 6, 0, 5, 0, 5, 0, 4, 0, 7, 4, 12],
    [0, 0, 8, 0, 0, 6, 0, 0, 0, 0, 8, 0, 0, 6, 0, 10],
    [0, 6, 0, 12, 0, 6, 0, 10, 0, 6, 0, 12, 0, 8, 0, 16],
];

/// Roles of the lanes of Breaks.
pub const BREAKS_ROLES: [Role; 12] = [
    Role::Anchor,
    Role::Anchor,
    Role::Backbeat,
    Role::Backbeat,
    Role::Color,
    Role::Motor,
    Role::Motor,
    Role::Motor,
    Role::Color,
    Role::Color,
    Role::Color,
    Role::Color,
];

/// Activities of the lanes of Breaks, in percent.
pub const BREAKS_ACTIVITY: [u8; 12] = [100, 15, 100, 25, 35, 100, 50, 20, 35, 35, 0, 25];

/// Velocity contours of the lanes of Breaks: quietest, loudest.
pub const BREAKS_VELOCITY: [[u8; 2]; 12] = [
    [98, 120],
    [82, 96],
    [56, 118],
    [84, 104],
    [58, 84],
    [64, 92],
    [74, 96],
    [56, 78],
    [68, 94],
    [68, 94],
    [0, 0],
    [70, 96],
];

/// Priors of the lanes of Breaks.
pub const BREAKS_PRIOR: [[u8; 16]; 12] = [
    [95, 3, 6, 4, 3, 4, 60, 8, 4, 3, 70, 4, 6, 4, 10, 6],
    [55, 0, 0, 0, 0, 0, 0, 0, 45, 0, 0, 0, 0, 0, 0, 0],
    [0, 8, 4, 14, 90, 6, 4, 18, 3, 14, 4, 10, 90, 5, 10, 22],
    [0, 0, 0, 0, 45, 0, 0, 0, 0, 0, 0, 0, 45, 0, 0, 4],
    [0, 8, 0, 10, 0, 6, 0, 8, 0, 8, 0, 10, 0, 6, 0, 12],
    [80, 10, 55, 12, 80, 10, 55, 12, 80, 10, 55, 12, 80, 12, 55, 18],
    [0, 0, 0, 0, 0, 0, 35, 0, 0, 0, 0, 0, 0, 0, 55, 0],
    [14, 0, 14, 0, 14, 0, 14, 0, 14, 0, 14, 0, 14, 0, 14, 0],
    [0, 0, 0, 4, 0, 3, 0, 6, 0, 0, 0, 5, 0, 8, 12, 18],
    [0, 3, 0, 0, 0, 4, 0, 3, 0, 3, 0, 0, 0, 10, 8, 16],
    [0, 0, 0, 0, 0, 0, 0, 0, 0, 0, 0, 0, 0, 0, 0, 0],
    [0, 4, 0, 8, 0, 0, 0, 6, 0, 4, 0, 8, 0, 0, 6, 12],
];

/// Roles of the lanes of Disco.
pub const DISCO_ROLES: [Role; 12] = [
    Role::Anchor,
    Role::Anchor,
    Role::Backbeat,
    Role::Backbeat,
    Role::Color,
    Role::Motor,
    Role::Motor,
    Role::Motor,
    Role::Color,
    Role::Color,
    Role::Color,
    Role::Color,
];

/// Activities of the lanes of Disco, in percent.
pub const DISCO_ACTIVITY: [u8; 12] = [100, 15, 80, 75, 40, 100, 100, 20, 25, 25, 30, 20];

/// Velocity contours of the lanes of Disco: quietest, loudest.
pub const DISCO_VELOCITY: [[u8; 2]; 12] = [
    [98, 120],
    [82, 96],
    [84, 112],
    [88, 110],
    [60, 84],
    [66, 94],
    [78, 100],
    [56, 78],
    [68, 92],
    [68, 92],
    [62, 86],
    [66, 92],
];

/// Priors of the lanes of Disco.
pub const DISCO_PRIOR: [[u8; 16]; 12] = [
    [95, 2, 3, 2, 92, 2, 4, 2, 95, 2, 3, 2, 92, 3, 5, 8],
    [60, 0, 0, 0, 0, 0, 0, 0, 55, 0, 0, 0, 0, 0, 0, 0],
    [0, 3, 2, 4, 88, 3, 2, 6, 0, 3, 2, 4, 88, 3, 4, 10],
    [0, 2, 0, 2, 85, 2, 0, 3, 0, 2, 0, 2, 85, 2, 0, 5],
    [0, 8, 3, 10, 0, 6, 3, 8, 0, 8, 3, 10, 0, 6, 4, 12],
    [55, 18, 70, 18, 55, 18, 70, 20, 55, 18, 70, 18, 55, 20, 70, 24],
    [0, 0, 92, 0, 0, 0, 92, 0, 0, 0, 92, 0, 0, 0, 92, 6],
    [10, 0, 18, 0, 10, 0, 18, 0, 10, 0, 18, 0, 10, 0, 18, 0],
    [0, 2, 0, 5, 0, 3, 0, 6, 0, 2, 0, 5, 0, 4, 3, 12],
    [0, 4, 0, 3, 0, 5, 0, 4, 0, 4, 0, 3, 0, 6, 3, 10],
    [0, 0, 12, 0, 0, 8, 0, 4, 0, 0, 12, 0, 0, 8, 0, 10],
    [0, 4, 0, 8, 0, 4, 0, 6, 0, 4, 0, 8, 0, 5, 0, 10],
];

/// Roles of the lanes of Halftime.
pub const HALFTIME_ROLES: [Role; 12] = [
    Role::Anchor,
    Role::Anchor,
    Role::Backbeat,
    Role::Backbeat,
    Role::Color,
    Role::Motor,
    Role::Motor,
    Role::Motor,
    Role::Color,
    Role::Color,
    Role::Color,
    Role::Color,
];

/// Activities of the lanes of Halftime, in percent.
pub const HALFTIME_ACTIVITY: [u8; 12] = [100, 35, 100, 30, 50, 100, 40, 10, 30, 30, 0, 30];

/// Velocity contours of the lanes of Halftime: quietest, loudest.
pub const HALFTIME_VELOCITY: [[u8; 2]; 12] = [
    [100, 122],
    [86, 104],
    [60, 118],
    [82, 102],
    [56, 82],
    [62, 92],
    [74, 96],
    [54, 76],
    [66, 92],
    [66, 92],
    [0, 0],
    [68, 96],
];

/// Priors of the lanes of Halftime.
pub const HALFTIME_PRIOR: [[u8; 16]; 12] = [
    [95, 4, 8, 3, 3, 5, 55, 10, 3, 4, 50, 4, 8, 5, 12, 6],
    [70, 0, 0, 4, 0, 0, 25, 0, 0, 0, 20, 0, 6, 0, 0, 0],
    [0, 4, 2, 6, 0, 3, 2, 8, 92, 4, 8, 6, 0, 6, 3, 14],
    [0, 0, 0, 0, 0, 0, 0, 0, 60, 0, 0, 0, 0, 0, 0, 6],
    [0, 10, 4, 12, 0, 8, 0, 10, 0, 10, 4, 12, 0, 8, 6, 14],
    [75, 12, 45, 14, 75, 14, 45, 30, 75, 12, 45, 14, 75, 16, 45, 35],
    [0, 0, 0, 0, 0, 0, 40, 0, 0, 0, 0, 0, 0, 0, 50, 0],
    [10, 0, 0, 0, 10, 0, 0, 0, 10, 0, 0, 0, 10, 0, 0, 0],
    [0, 0, 0, 5, 0, 4, 0, 8, 0, 0, 0, 6, 0, 10, 8, 16],
    [0, 4, 0, 0, 0, 5, 0, 4, 0, 4, 0, 0, 0, 8, 10, 14],
    [0, 0, 0, 0, 0, 0, 0, 0, 0, 0, 0, 0, 0, 0, 0, 0],
    [0, 5, 0, 10, 0, 0, 0, 8, 0, 5, 0, 10, 0, 0, 8, 12],
];

/// Roles of the lanes of Footwork.
pub const FOOTWORK_ROLES: [Role; 12] = [
    Role::Anchor,
    Role::Anchor,
    Role::Backbeat,
    Role::Backbeat,
    Role::Color,
    Role::Motor,
    Role::Motor,
    Role::Color,
    Role::Color,
    Role::Color,
    Role::Color,
    Role::Color,
];

/// Activities of the lanes of Footwork, in percent.
pub const FOOTWORK_ACTIVITY: [u8; 12] = [100, 40, 50, 70, 50, 55, 20, 0, 60, 60, 25, 50];

/// Velocity contours of the lanes of Footwork: quietest, loudest.
pub const FOOTWORK_VELOCITY: [[u8; 2]; 12] = [
    [98, 122],
    [84, 104],
    [58, 108],
    [84, 108],
    [58, 84],
    [60, 84],
    [72, 92],
    [0, 0],
    [70, 100],
    [70, 100],
    [64, 88],
    [72, 102],
];

/// Priors of the lanes of Footwork.
pub const FOOTWORK_PRIOR: [[u8; 16]; 12] = [
    [92, 2, 4, 70, 3, 4, 72, 3, 4, 3, 68, 3, 4, 60, 6, 4],
    [60, 0, 0, 30, 0, 0, 30, 0, 0, 0, 25, 0, 0, 20, 0, 0],
    [0, 3, 0, 6, 55, 3, 0, 10, 0, 4, 0, 8, 55, 4, 10, 14],
    [0, 0, 8, 0, 60, 0, 10, 0, 0, 8, 0, 0, 60, 0, 12, 8],
    [0, 12, 0, 8, 0, 10, 0, 12, 0, 12, 0, 8, 0, 10, 6, 14],
    [60, 0, 25, 0, 60, 0, 25, 0, 60, 0, 25, 0, 60, 0, 25, 0],
    [0, 0, 0, 0, 0, 0, 30, 0, 0, 0, 0, 0, 0, 0, 35, 0],
    [0, 0, 0, 0, 0, 0, 0, 0, 0, 0, 0, 0, 0, 0, 0, 0],
    [0, 6, 0, 18, 0, 8, 0, 14, 0, 6, 0, 18, 0, 12, 10, 8],
    [0, 14, 0, 6, 0, 12, 0, 8, 0, 14, 0, 6, 0, 8, 12, 10],
    [0, 0, 10, 0, 0, 10, 0, 0, 0, 0, 10, 0, 6, 0, 10, 0],
    [0, 10, 0, 14, 0, 6, 0, 12, 0, 10, 0, 14, 0, 8, 0, 16],
];

/// Roles of the lanes of Cavern.
pub const CAVERN_ROLES: [Role; 12] = [
    Role::Anchor,
    Role::Anchor,
    Role::Backbeat,
    Role::Color,
    Role::Color,
    Role::Motor,
    Role::Color,
    Role::Motor,
    Role::Color,
    Role::Color,
    Role::Color,
    Role::Color,
];

/// Activities of the lanes of Cavern, in percent.
pub const CAVERN_ACTIVITY: [u8; 12] = [100, 30, 15, 0, 35, 15, 0, 70, 85, 85, 0, 20];

/// Velocity contours of the lanes of Cavern: quietest, loudest.
pub const CAVERN_VELOCITY: [[u8; 2]; 12] = [
    [96, 118],
    [84, 100],
    [70, 96],
    [0, 0],
    [54, 80],
    [52, 72],
    [0, 0],
    [58, 84],
    [74, 104],
    [74, 104],
    [0, 0],
    [62, 90],
];

/// Priors of the lanes of Cavern.
pub const CAVERN_PRIOR: [[u8; 16]; 12] = [
    [90, 0, 2, 0, 0, 3, 0, 4, 0, 2, 0, 65, 0, 3, 0, 6],
    [55, 0, 0, 0, 0, 0, 0, 0, 0, 0, 0, 25, 0, 0, 0, 0],
    [0, 0, 0, 0, 25, 0, 0, 0, 0, 0, 0, 0, 25, 0, 0, 6],
    [0, 0, 0, 0, 0, 0, 0, 0, 0, 0, 0, 0, 0, 0, 0, 0],
    [0, 8, 0, 6, 0, 0, 8, 0, 0, 8, 0, 6, 0, 0, 10, 0],
    [15, 0, 0, 0, 15, 0, 0, 0, 15, 0, 0, 0, 15, 0, 0, 0],
    [0, 0, 0, 0, 0, 0, 0, 0, 0, 0, 0, 0, 0, 0, 0, 0],
    [70, 0, 25, 0, 55, 0, 25, 0, 70, 0, 25, 0, 55, 0, 30, 0],
    [0, 0, 0, 0, 60, 0, 4, 0, 0, 6, 0, 0, 0, 4, 55, 0],
    [0, 0, 0, 10, 0, 0, 0, 60, 0, 4, 0, 0, 8, 0, 0, 45],
    [0, 0, 0, 0, 0, 0, 0, 0, 0, 0, 0, 0, 0, 0, 0, 0],
    [0, 0, 6, 0, 0, 6, 0, 0, 0, 0, 8, 0, 0, 6, 0, 10],
];

/// Roles of the lanes of Outrun.
pub const OUTRUN_ROLES: [Role; 12] = [
    Role::Anchor,
    Role::Anchor,
    Role::Backbeat,
    Role::Backbeat,
    Role::Color,
    Role::Motor,
    Role::Motor,
    Role::Motor,
    Role::Color,
    Role::Color,
    Role::Color,
    Role::Color,
];

/// Activities of the lanes of Outrun, in percent.
pub const OUTRUN_ACTIVITY: [u8; 12] = [100, 10, 100, 40, 30, 100, 35, 15, 45, 45, 10, 60];

/// Velocity contours of the lanes of Outrun: quietest, loudest.
pub const OUTRUN_VELOCITY: [[u8; 2]; 12] = [
    [100, 122],
    [82, 96],
    [88, 120],
    [84, 106],
    [58, 82],
    [64, 92],
    [74, 94],
    [54, 76],
    [72, 100],
    [72, 100],
    [62, 84],
    [74, 104],
];

/// Priors of the lanes of Outrun.
pub const OUTRUN_PRIOR: [[u8; 16]; 12] = [
    [95, 2, 3, 2, 90, 2, 4, 25, 95, 2, 3, 2, 90, 3, 6, 8],
    [50, 0, 0, 0, 0, 0, 0, 0, 0, 0, 0, 0, 0, 0, 0, 0],
    [0, 2, 2, 3, 95, 2, 3, 6, 0, 2, 2, 3, 95, 3, 5, 12],
    [0, 0, 0, 0, 55, 0, 0, 0, 0, 0, 0, 0, 55, 0, 0, 4],
    [0, 8, 0, 6, 0, 8, 0, 6, 0, 8, 0, 6, 0, 8, 4, 10],
    [70, 12, 60, 12, 70, 12, 60, 14, 70, 12, 60, 12, 70, 14, 60, 18],
    [0, 0, 45, 0, 0, 0, 0, 0, 0, 0, 45, 0, 0, 0, 0, 0],
    [12, 0, 0, 0, 12, 0, 0, 0, 12, 0, 0, 0, 12, 0, 0, 0],
    [0, 0, 0, 4, 0, 3, 0, 6, 0, 0, 0, 5, 0, 14, 18, 10],
    [0, 3, 0, 0, 0, 4, 0, 3, 0, 3, 0, 0, 10, 8, 16, 20],
    [0, 0, 8, 0, 0, 0, 0, 0, 0, 0, 8, 0, 0, 0, 0, 6],
    [0, 8, 0, 14, 0, 6, 25, 0, 0, 8, 0, 14, 0, 10, 0, 20],
];

/// The site Techno.
pub open spec fn is_techno(r: Terrain) -> bool {
    r.speaks("techno"@, "Techno"@, 52, 8, TECHNO_ROLES, TECHNO_ACTIVITY, TECHNO_VELOCITY, TECHNO_PRIOR)
}

/// The site Breaks.
pub open spec fn is_breaks(r: Terrain) -> bool {
    r.speaks("breaks"@, "Breaks"@, 57, 22, BREAKS_ROLES, BREAKS_ACTIVITY, BREAKS_VELOCITY, BREAKS_PRIOR)
}

/// The site Disco.
pub open spec fn is_disco(r: Terrain) -> bool {
    r.speaks("disco"@, "Disco"@, 58, 14, DISCO_ROLES, DISCO_ACTIVITY, DISCO_VELOCITY, DISCO_PRIOR)
}

/// The site Halftime.
pub open spec fn is_halftime(r: Terrain) -> bool {
    r.speaks("halftime"@, "Halftime"@, 54, 26, HALFTIME_ROLES, HALFTIME_ACTIVITY, HALFTIME_VELOCITY, HALFTIME_PRIOR)
}

/// The site Footwork.
pub open spec fn is_footwork(r: Terrain) -> bool {
    r.speaks("footwork"@, "Footwork"@, 50, 6, FOOTWORK_ROLES, FOOTWORK_ACTIVITY, FOOTWORK_VELOCITY, FOOTWORK_PRIOR)
}

/// The site Cavern.
pub open spec fn is_cavern(r: Terrain) -> bool {
    r.speaks("cavern"@, "Cavern"@, 52, 12, CAVERN_ROLES, CAVERN_ACTIVITY, CAVERN_VELOCITY, CAVERN_PRIOR)
}

/// The site Outrun.
pub open spec fn is_outrun(r: Terrain) -> bool {
    r.speaks("outrun"@, "Outrun"@, 50, 10, OUTRUN_ROLES, OUTRUN_ACTIVITY, OUTRUN_VELOCITY, OUTRUN_PRIOR)
}

fn build(
    id: &'static str,
    name: &'static str,
    swing: u8,
    humanize: u8,
    roles: &[Role; 12],
    activity: &[u8; 12],
    velocity: &[[u8; 2]; 12],
    prior: &[[u8; 16]; 12],
) -> (r: Terrain)
    ensures
        r.speaks(id@, name@, swing, humanize, *roles, *activity, *velocity, *prior),
{
    let mut lanes: Vec<LanePrior> = Vec::new();
    let mut t: usize = 0;
    while t < MAX_TRACKS
        invariant
            t <= MAX_TRACKS,
            lanes@.len() == t,
            forall|i: int|
                0 <= i < t ==> #[trigger] lanes@[i] == (LanePrior {
                    role: roles@[i],
                    activity: activity@[i],
                    prior: prior@[i],
                    vel_lo: velocity@[i]@[0],
                    vel_hi: velocity@[i]@[1],
                }),
        decreases MAX_TRACKS - t,
    {
        lanes.push(
            LanePrior {
                role: roles[t],
                activity: activity[t],
                prior: prior[t],
                vel_lo: velocity[t][0],
                vel_hi: velocity[t][1],
            },
        );
        t = t + 1;
    }
    Terrain { id, name, swing, humanize, lanes }
}

/// Techno: four on the floor, clap backbeat, offbeat hats, sparse color.
pub fn techno() -> (r: Terrain)
    ensures
        is_techno(r),
{
    build("techno", "Techno", 52, 8, &TECHNO_ROLES, &TECHNO_ACTIVITY, &TECHNO_VELOCITY, &TECHNO_PRIOR)
}

/// Breaks: a displaced kick, a big snare backbeat with ghost notes, straight eighth hats, late-bar toms.
pub fn breaks() -> (r: Terrain)
    ensures
        is_breaks(r),
{
    build("breaks", "Breaks", 57, 22, &BREAKS_ROLES, &BREAKS_ACTIVITY, &BREAKS_VELOCITY, &BREAKS_PRIOR)
}

/// Disco: four on the floor, snare and clap backbeat, the open hat on every off-eighth, cowbell winks.
pub fn disco() -> (r: Terrain)
    ensures
        is_disco(r),
{
    build("disco", "Disco", 58, 14, &DISCO_ROLES, &DISCO_ACTIVITY, &DISCO_VELOCITY, &DISCO_PRIOR)
}

/// Halftime: a syncopated kick, the backbeat on the third beat only, hats that carry the subdivision.
pub fn halftime() -> (r: Terrain)
    ensures
        is_halftime(r),
{
    build("halftime", "Halftime", 54, 26, &HALFTIME_ROLES, &HALFTIME_ACTIVITY, &HALFTIME_VELOCITY, &HALFTIME_PRIOR)
}

/// Footwork: the 3-3-2 kick lattice, clap stabs, melodic toms, spare hats.
pub fn footwork() -> (r: Terrain)
    ensures
        is_footwork(r),
{
    build("footwork", "Footwork", 50, 6, &FOOTWORK_ROLES, &FOOTWORK_ACTIVITY, &FOOTWORK_VELOCITY, &FOOTWORK_PRIOR)
}

/// Cavern: sparse and deep: the toms carry the groove over a ride-bell pulse.
pub fn cavern() -> (r: Terrain)
    ensures
        is_cavern(r),
{
    build("cavern", "Cavern", 52, 12, &CAVERN_ROLES, &CAVERN_ACTIVITY, &CAVERN_VELOCITY, &CAVERN_PRIOR)
}

/// Outrun: a driving kick, the big gated snare on four and twelve, zap stabs, a late-bar tom fill.
pub fn outrun() -> (r: Terrain)
    ensures
        is_outrun(r),
{
    build("outrun", "Outrun", 50, 10, &OUTRUN_ROLES, &OUTRUN_ACTIVITY, &OUTRUN_VELOCITY, &OUTRUN_PRIOR)
}


/// The factory sites, in order.
pub fn terrains() -> (r: Vec<Terrain>)
    ensures
        r@.len() == 7,
        is_techno(r@[0]),
        is_breaks(r@[1]),
        is_disco(r@[2]),
        is_halftime(r@[3]),
        is_footwork(r@[4]),
        is_cavern(r@[5]),
        is_outrun(r@[6]),
{
    let mut v: Vec<Terrain> = Vec::new();
    v.push(techno());
    v.push(breaks());
    v.push(disco());
    v.push(halftime());
    v.push(footwork());
    v.push(cavern());
    v.push(outrun());
    v
}

/// The site with the given id.
pub fn terrain(id: &str) -> (r: Option<Terrain>)
    ensures
        id@ == "techno"@ ==> r is Some && is_techno(r->0),
        id@ == "breaks"@ ==> r is Some && is_breaks(r->0),
        id@ == "disco"@ ==> r is Some && is_disco(r->0),
        id@ == "halftime"@ ==> r is Some && is_halftime(r->0),
        id@ == "footwork"@ ==> r is Some && is_footwork(r->0),
        id@ == "cavern"@ ==> r is Some && is_cavern(r->0),
        id@ == "outrun"@ ==> r is Some && is_outrun(r->0),
        r is Some ==> r->0.id@ == id@,
        r is Some <==> (
            id@ == "techno"@
            || id@ == "breaks"@
            || id@ == "disco"@
            || id@ == "halftime"@
            || id@ == "footwork"@
            || id@ == "cavern"@
            || id@ == "outrun"@
        ),
{
    proof {
        site_ids_differ();
    }
    if same_text(id, "techno") {
        Some(techno())
    } else if same_text(id, "breaks") {
        Some(breaks())
    } else if same_text(id, "disco") {
        Some(disco())
    } else if same_text(id, "halftime") {
        Some(halftime())
    } else if same_text(id, "footwork") {
        Some(footwork())
    } else if same_text(id, "cavern") {
        Some(cavern())
    } else if same_text(id, "outrun") {
        Some(outrun())
    } else {
        None
    }
}

/// No two sites share an id.
pub proof fn site_ids_differ()
    ensures
        "techno"@ != "breaks"@,
        "techno"@ != "disco"@,
        "techno"@ != "halftime"@,
        "techno"@ != "footwork"@,
        "techno"@ != "cavern"@,
        "techno"@ != "outrun"@,
        "breaks"@ != "disco"@,
        "breaks"@ != "halftime"@,
        "breaks"@ != "footwork"@,
        "breaks"@ != "cavern"@,
        "breaks"@ != "outrun"@,
        "disco"@ != "halftime"@,
        "disco"@ != "footwork"@,
        "disco"@ != "cavern"@,
        "disco"@ != "outrun"@,
        "halftime"@ != "footwork"@,
        "halftime"@ != "cavern"@,
        "halftime"@ != "outrun"@,
        "footwork"@ != "cavern"@,
        "footwork"@ != "outrun"@,
        "cavern"@ != "outrun"@,
{
    reveal_strlit("techno");
    reveal_strlit("breaks");
    reveal_strlit("disco");
    reveal_strlit("halftime");
    reveal_strlit("footwork");
    reveal_strlit("cavern");
    reveal_strlit("outrun");
    assert("techno"@[0] != "breaks"@[0]);
    assert("techno"@.len() != "disco"@.len());
    assert("techno"@.len() != "halftime"@.len());
    assert("techno"@.len() != "footwork"@.len());
    assert("techno"@[0] != "cavern"@[0]);
    assert("techno"@[0] != "outrun"@[0]);
    assert("breaks"@.len() != "disco"@.len());
    assert("breaks"@.len() != "halftime"@.len());
    assert("breaks"@.len() != "footwork"@.len());
    assert("breaks"@[0] != "cavern"@[0]);
    assert("breaks"@[0] != "outrun"@[0]);
    assert("disco"@.len() != "halftime"@.len());
    assert("disco"@.len() != "footwork"@.len());
    assert("disco"@.len() != "cavern"@.len());
    assert("disco"@.len() != "outrun"@.len());
    assert("halftime"@[0] != "footwork"@[0]);
    assert("halftime"@.len() != "cavern"@.len());
    assert("halftime"@.len() != "outrun"@.len());
    assert("footwork"@.len() != "cavern"@.len());
    assert("footwork"@.len() != "outrun"@.len());
    assert("cavern"@[0] != "outrun"@[0]);
}

/// The site that speaks the dialect of a recalled kit; a kit without a dialect
/// of its own speaks techno.
pub fn terrain_for_world(kit_id: &str) -> (r: Terrain)
    ensures
        kit_id@ == "discotheque"@ ==> is_disco(r),
        kit_id@ == "marseille"@ ==> is_halftime(r),
        kit_id@ == "bladerunner"@ ==> is_cavern(r),
        kit_id@ == "outrun"@ ==> is_outrun(r),
        kit_id@ != "discotheque"@ && kit_id@ != "marseille"@ && kit_id@ != "bladerunner"@ && kit_id@
            != "outrun"@ ==> is_techno(r),
{
    proof {
        reveal_strlit("discotheque");
        reveal_strlit("marseille");
        reveal_strlit("bladerunner");
        reveal_strlit("outrun");
        assert("discotheque"@[0] != "bladerunner"@[0]);
        assert("outrun"@.len() == 6 && "marseille"@.len() == 9);
        assert("discotheque"@.len() == 11 && "bladerunner"@.len() == 11);
    }
    if same_text(kit_id, "discotheque") {
        disco()
    } else if same_text(kit_id, "marseille") {
        halftime()
    } else if same_text(kit_id, "bladerunner") {
        cavern()
    } else if same_text(kit_id, "outrun") {
        outrun()
    } else {
        techno()
    }
}

/// Every site is playable: on every lane the chances are percentages and the contour
/// rises to a MIDI velocity, and the feel is in the range of a pattern's.
pub proof fn every_site_is_playable(r: Terrain, t: int, s: int)
    requires
        is_techno(r) || is_breaks(r) || is_disco(r) || is_halftime(r) || is_footwork(r) || is_cavern(
            r,
        ) || is_outrun(r),
        0 <= t < 12,
        0 <= s < 16,
    ensures
        r.lanes@.len() == 12,
        r.lanes@[t].prior@[s] <= 100,
        r.lanes@[t].activity <= 100,
        r.lanes@[t].vel_lo <= r.lanes@[t].vel_hi <= 127,
        50 <= r.swing <= 75,
        r.humanize <= 100,
{
    let lane = r.lanes@[t];
}

/// Techno: four on the floor, the clap on both backbeats, hats between the beats.
/// A hit is likelier than not exactly at the named steps.
#[verifier::rlimit(40)]
pub proof fn techno_is_four_on_the_floor(r: Terrain, s: int)
    requires
        is_techno(r),
        0 <= s < 16,
    ensures
        r.swing == 52 && r.humanize == 8,
        r.lanes@[0].prior@[s] >= 50 <==> s % 4 == 0,
        r.lanes@[1].prior@[s] >= 50 <==> s % 8 == 0,
        r.lanes@[2].prior@[s] >= 50 <==> s % 8 == 4,
        r.lanes@[3].prior@[s] >= 50 <==> s % 8 == 4,
        r.lanes@[4].prior@[s] < 50,
        r.lanes@[5].prior@[s] >= 50 <==> s % 4 == 2,
        r.lanes@[6].prior@[s] >= 50 <==> s % 4 == 2,
        r.lanes@[7].prior@[s] < 50,
        r.lanes@[8].prior@[s] < 50,
        r.lanes@[9].prior@[s] < 50,
        r.lanes@[10].prior@[s] < 50,
        r.lanes@[11].prior@[s] < 50,
        r.lanes@[0].activity == 100,
        r.lanes@[5].activity == 100,
        r.lanes@[0].role == Role::Anchor,
        r.lanes@[1].role == Role::Anchor,
        r.lanes@[2].role == Role::Backbeat,
        r.lanes@[3].role == Role::Backbeat,
        r.lanes@[5].role == Role::Motor,
        r.lanes@[6].role == Role::Motor,
        r.lanes@[7].role == Role::Motor,
        r.lanes@[4].role == Role::Color,
        r.lanes@[8].role == Role::Color,
        r.lanes@[9].role == Role::Color,
        r.lanes@[10].role == Role::Color,
        r.lanes@[11].role == Role::Color,
{
    let lane_0 = r.lanes@[0];
    let lane_1 = r.lanes@[1];
    let lane_2 = r.lanes@[2];
    let lane_3 = r.lanes@[3];
    let lane_4 = r.lanes@[4];
    let lane_5 = r.lanes@[5];
    let lane_6 = r.lanes@[6];
    let lane_7 = r.lanes@[7];
    let lane_8 = r.lanes@[8];
    let lane_9 = r.lanes@[9];
    let lane_10 = r.lanes@[10];
    let lane_11 = r.lanes@[11];
}

/// Breaks: a kick off the beat, a snare on both backbeats, hats on the eighths.
/// A hit is likelier than not exactly at the named steps.
#[verifier::rlimit(40)]
pub proof fn breaks_displace_the_kick(r: Terrain, s: int)
    requires
        is_breaks(r),
        0 <= s < 16,
    ensures
        r.swing == 57 && r.humanize == 22,
        r.lanes@[0].prior@[s] >= 50 <==> s == 0 || s == 6 || s == 10,
        r.lanes@[1].prior@[s] >= 50 <==> s == 0,
        r.lanes@[2].prior@[s] >= 50 <==> s % 8 == 4,
        r.lanes@[3].prior@[s] < 50,
        r.lanes@[4].prior@[s] < 50,
        r.lanes@[5].prior@[s] >= 50 <==> s % 2 == 0,
        r.lanes@[6].prior@[s] >= 50 <==> s == 14,
        r.lanes@[7].prior@[s] < 50,
        r.lanes@[8].prior@[s] < 50,
        r.lanes@[9].prior@[s] < 50,
        r.lanes@[10].activity == 0 && r.lanes@[10].prior@[s] == 0,
        r.lanes@[11].prior@[s] < 50,
        r.lanes@[0].activity == 100,
        r.lanes@[2].activity == 100,
        r.lanes@[5].activity == 100,
        r.lanes@[0].role == Role::Anchor,
        r.lanes@[1].role == Role::Anchor,
        r.lanes@[2].role == Role::Backbeat,
        r.lanes@[3].role == Role::Backbeat,
        r.lanes@[5].role == Role::Motor,
        r.lanes@[6].role == Role::Motor,
        r.lanes@[7].role == Role::Motor,
        r.lanes@[4].role == Role::Color,
        r.lanes@[8].role == Role::Color,
        r.lanes@[9].role == Role::Color,
        r.lanes@[10].role == Role::Color,
        r.lanes@[11].role == Role::Color,
{
    let lane_0 = r.lanes@[0];
    let lane_1 = r.lanes@[1];
    let lane_2 = r.lanes@[2];
    let lane_3 = r.lanes@[3];
    let lane_4 = r.lanes@[4];
    let lane_5 = r.lanes@[5];
    let lane_6 = r.lanes@[6];
    let lane_7 = r.lanes@[7];
    let lane_8 = r.lanes@[8];
    let lane_9 = r.lanes@[9];
    let lane_10 = r.lanes@[10];
    let lane_11 = r.lanes@[11];
}

/// Disco: four on the floor, snare and clap on both backbeats, the open hat between the beats.
/// A hit is likelier than not exactly at the named steps.
#[verifier::rlimit(40)]
pub proof fn disco_opens_the_hat_off_the_beat(r: Terrain, s: int)
    requires
        is_disco(r),
        0 <= s < 16,
    ensures
        r.swing == 58 && r.humanize == 14,
        r.lanes@[0].prior@[s] >= 50 <==> s % 4 == 0,
        r.lanes@[1].prior@[s] >= 50 <==> s % 8 == 0,
        r.lanes@[2].prior@[s] >= 50 <==> s % 8 == 4,
        r.lanes@[3].prior@[s] >= 50 <==> s % 8 == 4,
        r.lanes@[4].prior@[s] < 50,
        r.lanes@[5].prior@[s] >= 50 <==> s % 2 == 0,
        r.lanes@[6].prior@[s] >= 50 <==> s % 4 == 2,
        r.lanes@[7].prior@[s] < 50,
        r.lanes@[8].prior@[s] < 50,
        r.lanes@[9].prior@[s] < 50,
        r.lanes@[10].prior@[s] < 50,
        r.lanes@[11].prior@[s] < 50,
        r.lanes@[0].activity == 100,
        r.lanes@[5].activity == 100,
        r.lanes@[6].activity == 100,
        r.lanes@[0].role == Role::Anchor,
        r.lanes@[1].role == Role::Anchor,
        r.lanes@[2].role == Role::Backbeat,
        r.lanes@[3].role == Role::Backbeat,
        r.lanes@[5].role == Role::Motor,
        r.lanes@[6].role == Role::Motor,
        r.lanes@[7].role == Role::Motor,
        r.lanes@[4].role == Role::Color,
        r.lanes@[8].role == Role::Color,
        r.lanes@[9].role == Role::Color,
        r.lanes@[10].role == Role::Color,
        r.lanes@[11].role == Role::Color,
{
    let lane_0 = r.lanes@[0];
    let lane_1 = r.lanes@[1];
    let lane_2 = r.lanes@[2];
    let lane_3 = r.lanes@[3];
    let lane_4 = r.lanes@[4];
    let lane_5 = r.lanes@[5];
    let lane_6 = r.lanes@[6];
    let lane_7 = r.lanes@[7];
    let lane_8 = r.lanes@[8];
    let lane_9 = r.lanes@[9];
    let lane_10 = r.lanes@[10];
    let lane_11 = r.lanes@[11];
}

/// Halftime: the backbeat on the third beat only, under a kick off the beat.
/// A hit is likelier than not exactly at the named steps.
#[verifier::rlimit(40)]
pub proof fn halftime_has_one_backbeat(r: Terrain, s: int)
    requires
        is_halftime(r),
        0 <= s < 16,
    ensures
        r.swing == 54 && r.humanize == 26,
        r.lanes@[0].prior@[s] >= 50 <==> s == 0 || s == 6 || s == 10,
        r.lanes@[1].prior@[s] >= 50 <==> s == 0,
        r.lanes@[2].prior@[s] >= 50 <==> s == 8,
        r.lanes@[3].prior@[s] >= 50 <==> s == 8,
        r.lanes@[4].prior@[s] < 50,
        r.lanes@[5].prior@[s] >= 50 <==> s % 4 == 0,
        r.lanes@[6].prior@[s] >= 50 <==> s == 14,
        r.lanes@[7].prior@[s] < 50,
        r.lanes@[8].prior@[s] < 50,
        r.lanes@[9].prior@[s] < 50,
        r.lanes@[10].activity == 0 && r.lanes@[10].prior@[s] == 0,
        r.lanes@[11].prior@[s] < 50,
        r.lanes@[0].activity == 100,
        r.lanes@[2].activity == 100,
        r.lanes@[5].activity == 100,
        r.lanes@[0].role == Role::Anchor,
        r.lanes@[1].role == Role::Anchor,
        r.lanes@[2].role == Role::Backbeat,
        r.lanes@[3].role == Role::Backbeat,
        r.lanes@[5].role == Role::Motor,
        r.lanes@[6].role == Role::Motor,
        r.lanes@[7].role == Role::Motor,
        r.lanes@[4].role == Role::Color,
        r.lanes@[8].role == Role::Color,
        r.lanes@[9].role == Role::Color,
        r.lanes@[10].role == Role::Color,
        r.lanes@[11].role == Role::Color,
{
    let lane_0 = r.lanes@[0];
    let lane_1 = r.lanes@[1];
    let lane_2 = r.lanes@[2];
    let lane_3 = r.lanes@[3];
    let lane_4 = r.lanes@[4];
    let lane_5 = r.lanes@[5];
    let lane_6 = r.lanes@[6];
    let lane_7 = r.lanes@[7];
    let lane_8 = r.lanes@[8];
    let lane_9 = r.lanes@[9];
    let lane_10 = r.lanes@[10];
    let lane_11 = r.lanes@[11];
}

/// Footwork: the kick in threes, stabs of clap, melodic toms.
/// A hit is likelier than not exactly at the named steps.
#[verifier::rlimit(40)]
pub proof fn footwork_runs_in_threes(r: Terrain, s: int)
    requires
        is_footwork(r),
        0 <= s < 16,
    ensures
        r.swing == 50 && r.humanize == 6,
        r.lanes@[0].prior@[s] >= 50 <==> s == 0 || s == 3 || s == 6 || s == 10 || s == 13,
        r.lanes@[1].prior@[s] >= 50 <==> s == 0,
        r.lanes@[2].prior@[s] >= 50 <==> s % 8 == 4,
        r.lanes@[3].prior@[s] >= 50 <==> s % 8 == 4,
        r.lanes@[4].prior@[s] < 50,
        r.lanes@[5].prior@[s] >= 50 <==> s % 4 == 0,
        r.lanes@[6].prior@[s] < 50,
        r.lanes@[7].activity == 0 && r.lanes@[7].prior@[s] == 0,
        r.lanes@[8].prior@[s] < 50,
        r.lanes@[9].prior@[s] < 50,
        r.lanes@[10].prior@[s] < 50,
        r.lanes@[11].prior@[s] < 50,
        r.lanes@[0].activity == 100,
        r.lanes@[0].role == Role::Anchor,
        r.lanes@[1].role == Role::Anchor,
        r.lanes@[2].role == Role::Backbeat,
        r.lanes@[3].role == Role::Backbeat,
        r.lanes@[5].role == Role::Motor,
        r.lanes@[6].role == Role::Motor,
        r.lanes@[4].role == Role::Color,
        r.lanes@[7].role == Role::Color,
        r.lanes@[8].role == Role::Color,
        r.lanes@[9].role == Role::Color,
        r.lanes@[10].role == Role::Color,
        r.lanes@[11].role == Role::Color,
{
    let lane_0 = r.lanes@[0];
    let lane_1 = r.lanes@[1];
    let lane_2 = r.lanes@[2];
    let lane_3 = r.lanes@[3];
    let lane_4 = r.lanes@[4];
    let lane_5 = r.lanes@[5];
    let lane_6 = r.lanes@[6];
    let lane_7 = r.lanes@[7];
    let lane_8 = r.lanes@[8];
    let lane_9 = r.lanes@[9];
    let lane_10 = r.lanes@[10];
    let lane_11 = r.lanes@[11];
}

/// Cavern: sparse and deep, with the toms in front and the ride as the pulse.
/// A hit is likelier than not exactly at the named steps.
#[verifier::rlimit(40)]
pub proof fn the_cavern_leaves_room(r: Terrain, s: int)
    requires
        is_cavern(r),
        0 <= s < 16,
    ensures
        r.swing == 52 && r.humanize == 12,
        r.lanes@[0].prior@[s] >= 50 <==> s == 0 || s == 11,
        r.lanes@[1].prior@[s] >= 50 <==> s == 0,
        r.lanes@[2].prior@[s] < 50,
        r.lanes@[3].activity == 0 && r.lanes@[3].prior@[s] == 0,
        r.lanes@[4].prior@[s] < 50,
        r.lanes@[5].prior@[s] < 50,
        r.lanes@[6].activity == 0 && r.lanes@[6].prior@[s] == 0,
        r.lanes@[7].prior@[s] >= 50 <==> s % 4 == 0,
        r.lanes@[8].prior@[s] >= 50 <==> s == 4 || s == 14,
        r.lanes@[9].prior@[s] >= 50 <==> s == 7,
        r.lanes@[10].activity == 0 && r.lanes@[10].prior@[s] == 0,
        r.lanes@[11].prior@[s] < 50,
        r.lanes@[0].activity == 100,
        r.lanes@[0].role == Role::Anchor,
        r.lanes@[1].role == Role::Anchor,
        r.lanes@[2].role == Role::Backbeat,
        r.lanes@[5].role == Role::Motor,
        r.lanes@[7].role == Role::Motor,
        r.lanes@[3].role == Role::Color,
        r.lanes@[4].role == Role::Color,
        r.lanes@[6].role == Role::Color,
        r.lanes@[8].role == Role::Color,
        r.lanes@[9].role == Role::Color,
        r.lanes@[10].role == Role::Color,
        r.lanes@[11].role == Role::Color,
{
    let lane_0 = r.lanes@[0];
    let lane_1 = r.lanes@[1];
    let lane_2 = r.lanes@[2];
    let lane_3 = r.lanes@[3];
    let lane_4 = r.lanes@[4];
    let lane_5 = r.lanes@[5];
    let lane_6 = r.lanes@[6];
    let lane_7 = r.lanes@[7];
    let lane_8 = r.lanes@[8];
    let lane_9 = r.lanes@[9];
    let lane_10 = r.lanes@[10];
    let lane_11 = r.lanes@[11];
}

/// Outrun: a driving kick and a big snare on both backbeats.
/// A hit is likelier than not exactly at the named steps.
#[verifier::rlimit(40)]
pub proof fn outrun_has_a_big_snare(r: Terrain, s: int)
    requires
        is_outrun(r),
        0 <= s < 16,
    ensures
        r.swing == 50 && r.humanize == 10,
        r.lanes@[0].prior@[s] >= 50 <==> s % 4 == 0,
        r.lanes@[1].prior@[s] >= 50 <==> s == 0,
        r.lanes@[2].prior@[s] >= 50 <==> s % 8 == 4,
        r.lanes@[3].prior@[s] >= 50 <==> s % 8 == 4,
        r.lanes@[4].prior@[s] < 50,
        r.lanes@[5].prior@[s] >= 50 <==> s % 2 == 0,
        r.lanes@[6].prior@[s] < 50,
        r.lanes@[7].prior@[s] < 50,
        r.lanes@[8].prior@[s] < 50,
        r.lanes@[9].prior@[s] < 50,
        r.lanes@[10].prior@[s] < 50,
        r.lanes@[11].prior@[s] < 50,
        r.lanes@[0].activity == 100,
        r.lanes@[2].activity == 100,
        r.lanes@[5].activity == 100,
        r.lanes@[0].role == Role::Anchor,
        r.lanes@[1].role == Role::Anchor,
        r.lanes@[2].role == Role::Backbeat,
        r.lanes@[3].role == Role::Backbeat,
        r.lanes@[5].role == Role::Motor,
        r.lanes@[6].role == Role::Motor,
        r.lanes@[7].role == Role::Motor,
        r.lanes@[4].role == Role::Color,
        r.lanes@[8].role == Role::Color,
        r.lanes@[9].role == Role::Color,
        r.lanes@[10].role == Role::Color,
        r.lanes@[11].role == Role::Color,
{
    let lane_0 = r.lanes@[0];
    let lane_1 = r.lanes@[1];
    let lane_2 = r.lanes@[2];
    let lane_3 = r.lanes@[3];
    let lane_4 = r.lanes@[4];
    let lane_5 = r.lanes@[5];
    let lane_6 = r.lanes@[6];
    let lane_7 = r.lanes@[7];
    let lane_8 = r.lanes@[8];
    let lane_9 = r.lanes@[9];
    let lane_10 = r.lanes@[10];
    let lane_11 = r.lanes@[11];
}

} // verus!

//! The raw unit of input: what one team did in one match.

use vstd::prelude::*;
use crate::schema::{Alliance, Climb, LeftTarmac};

verus! {

/// One team's performance in one match, as a scout wrote it down.
///
/// `team` and `match_number` together name the record. The eight shot
/// counts are whole numbers of shots; a stored record may hold any `i32`
/// there, so [`RobotMatchInfo::well_formed`] says which records make sense.
#[derive(Clone, Debug)]
pub struct RobotMatchInfo {
    pub team: i32,
    pub match_number: i32,
    pub alliance: Alliance,
    pub left_tarmac: LeftTarmac,
    pub auto_high_made: i32,
    pub auto_high_missed: i32,
    pub auto_low_made: i32,
    pub auto_low_missed: i32,
    pub teleop_high_made: i32,
    pub teleop_high_missed: i32,
    pub teleop_low_made: i32,
    pub teleop_low_missed: i32,
    pub climb: Climb,
    pub notes: String,
}

impl RobotMatchInfo {
    /// A record is well formed when none of its shot counts is negative.
    pub open spec fn well_formed(&self) -> bool {
        &&& self.auto_high_made >= 0
        &&& self.auto_high_missed >= 0
        &&& self.auto_low_made >= 0
        &&& self.auto_low_missed >= 0
        &&& self.teleop_high_made >= 0
        &&& self.teleop_high_missed >= 0
        &&& self.teleop_low_made >= 0
        &&& self.teleop_low_missed >= 0
    }

    /// Tests whether the record is well formed.
    pub fn is_well_formed(&self) -> (ok: bool)
        ensures
            ok == self.well_formed(),
    {
        self.auto_high_made >= 0 && self.auto_high_missed >= 0 && self.auto_low_made >= 0
            && self.auto_low_missed >= 0 && self.teleop_high_made >= 0
            && self.teleop_high_missed >= 0 && self.teleop_low_made >= 0
            && self.teleop_low_missed >= 0
    }
}

} // verus!

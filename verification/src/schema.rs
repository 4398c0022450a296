//! The closed vocabularies a match record is written in.

use vstd::prelude::*;
use vstd::string::*;
use crate::scoring::{
    HIGH_CLIMB_POINTS, LOW_CLIMB_POINTS, MID_CLIMB_POINTS, TRAVERSAL_CLIMB_POINTS,
};

verus! {

/// Which side of the field a robot played on.
#[derive(Clone, Copy, Debug, PartialEq, Eq, Structural)]
pub enum Alliance {
    Red,
    Blue,
}

impl Alliance {
    /// The variant's name, as it is shown to a reader.
    pub open spec fn name_spec(self) -> Seq<char> {
        match self {
            Alliance::Red => "Red"@,
            Alliance::Blue => "Blue"@,
        }
    }

    /// The variant's name as text.
    pub fn name(&self) -> (s: String)
        ensures
            s@ == self.name_spec(),
    {
        match self {
            Alliance::Red => String::from_str("Red"),
            Alliance::Blue => String::from_str("Blue"),
        }
    }
}

/// Whether the robot drove off the tarmac during the autonomous phase.
#[derive(Clone, Copy, Debug, PartialEq, Eq, Structural)]
pub enum LeftTarmac {
    Yes,
    No,
}

impl LeftTarmac {
    /// The variant's name, as it is shown to a reader.
    pub open spec fn name_spec(self) -> Seq<char> {
        match self {
            LeftTarmac::Yes => "Yes"@,
            LeftTarmac::No => "No"@,
        }
    }

    /// The variant's name as text.
    pub fn name(&self) -> (s: String)
        ensures
            s@ == self.name_spec(),
    {
        match self {
            LeftTarmac::Yes => String::from_str("Yes"),
            LeftTarmac::No => String::from_str("No"),
        }
    }
}

/// How a robot's end-game climb ended. The outcomes exclude one another.
#[derive(Clone, Copy, Debug, PartialEq, Eq, Structural)]
pub enum Climb {
    No,
    Failed,
    Low,
    Mid,
    High,
    Traversal,
}

impl Climb {
    /// The variant's name, as it is shown to a reader.
    pub open spec fn name_spec(self) -> Seq<char> {
        match self {
            Climb::No => "No"@,
            Climb::Failed => "Failed"@,
            Climb::Low => "Low"@,
            Climb::Mid => "Mid"@,
            Climb::High => "High"@,
            Climb::Traversal => "Traversal"@,
        }
    }

    /// The variant's name as text.
    pub fn name(&self) -> (s: String)
        ensures
            s@ == self.name_spec(),
    {
        match self {
            Climb::No => String::from_str("No"),
            Climb::Failed => String::from_str("Failed"),
            Climb::Low => String::from_str("Low"),
            Climb::Mid => String::from_str("Mid"),
            Climb::High => String::from_str("High"),
            Climb::Traversal => String::from_str("Traversal"),
        }
    }

    /// Points that this outcome scores: those of the rung reached, and
    /// none without a climb.
    pub open spec fn points_spec(self) -> nat {
        match self {
            Climb::Low => LOW_CLIMB_POINTS as nat,
            Climb::Mid => MID_CLIMB_POINTS as nat,
            Climb::High => HIGH_CLIMB_POINTS as nat,
            Climb::Traversal => TRAVERSAL_CLIMB_POINTS as nat,
            Climb::No | Climb::Failed => 0,
        }
    }

    /// Points that this outcome scores.
    pub fn points(&self) -> (p: u64)
        ensures
            p == self.points_spec(),
    {
        match self {
            Climb::Low => LOW_CLIMB_POINTS,
            Climb::Mid => MID_CLIMB_POINTS,
            Climb::High => HIGH_CLIMB_POINTS,
            Climb::Traversal => TRAVERSAL_CLIMB_POINTS,
            Climb::No | Climb::Failed => 0,
        }
    }
}

} // verus!

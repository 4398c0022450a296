//! The point tables of the game.

use vstd::prelude::*;

verus! {

/// Points for a shot made into the high goal during the autonomous phase.
pub const AUTO_HIGH_POINTS: u64 = 4;

/// Points for a shot made into the low goal during the autonomous phase.
pub const AUTO_LOW_POINTS: u64 = 2;

/// Points for leaving the tarmac during the autonomous phase.
pub const TARMAC_POINTS: u64 = 2;

/// Points for a shot made into the high goal during teleop. A missed high
/// shot counts as much against accuracy.
pub const TELEOP_HIGH_POINTS: u64 = 2;

/// Points for a shot made into the low goal during teleop. A missed low
/// shot counts as much against accuracy.
pub const TELEOP_LOW_POINTS: u64 = 1;

/// Points for a climb that ended on the low rung.
pub const LOW_CLIMB_POINTS: u64 = 4;

/// Points for a climb that ended on the mid rung.
pub const MID_CLIMB_POINTS: u64 = 6;

/// Points for a climb that ended on the high rung.
pub const HIGH_CLIMB_POINTS: u64 = 10;

/// Points for a climb that ended on the traversal rung.
pub const TRAVERSAL_CLIMB_POINTS: u64 = 15;

/// The points that `shots` shots stand for at `weight` points each.
pub(crate) fn shot_points(shots: i32, weight: u64) -> (points: u64)
    requires
        shots >= 0,
        weight <= AUTO_HIGH_POINTS,
    ensures
        points == shots * weight,
        points <= i32::MAX * AUTO_HIGH_POINTS,
{
    assert(0 <= shots * weight <= i32::MAX * AUTO_HIGH_POINTS) by (nonlinear_arith)
        requires
            0 <= shots <= i32::MAX,
            0 <= weight <= AUTO_HIGH_POINTS,
    ;
    shots as u64 * weight
}

} // verus!

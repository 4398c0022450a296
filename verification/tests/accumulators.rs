//! Contributions of single records, and merging.

use scouting::analysis::accuracy::AccuracyInfo;
use scouting::analysis::climb::ClimbInfo;
use scouting::analysis::points::TeamPointsInfo;
use scouting::analysis::Accumulator;
use scouting::ratio::{Ratio, Standing};
use scouting::{Alliance, Climb, LeftTarmac, RobotMatchInfo};

fn record(shots: [i32; 8], left_tarmac: LeftTarmac, climb: Climb) -> RobotMatchInfo {
    RobotMatchInfo {
        team: 4,
        match_number: 9,
        alliance: Alliance::Blue,
        left_tarmac,
        auto_high_made: shots[0],
        auto_high_missed: shots[1],
        auto_low_made: shots[2],
        auto_low_missed: shots[3],
        teleop_high_made: shots[4],
        teleop_high_missed: shots[5],
        teleop_low_made: shots[6],
        teleop_low_missed: shots[7],
        climb,
        notes: String::from("n/a"),
    }
}

fn climb_counts(counts: [u64; 6]) -> ClimbInfo {
    ClimbInfo {
        no_attempts: counts[0],
        fails: counts[1],
        low_climbs: counts[2],
        mid_climbs: counts[3],
        high_climbs: counts[4],
        traverse_climbs: counts[5],
    }
}

#[test]
fn well_formed_records_have_no_negative_count() {
    assert!(record([0; 8], LeftTarmac::No, Climb::No).is_well_formed());
    assert!(record([1, 2, 3, 4, 5, 6, 7, 8], LeftTarmac::Yes, Climb::Mid).is_well_formed());
    assert!(record([i32::MAX; 8], LeftTarmac::Yes, Climb::Mid).is_well_formed());
    for at in 0..8 {
        let mut shots = [3; 8];
        shots[at] = -1;
        assert!(!record(shots, LeftTarmac::Yes, Climb::Mid).is_well_formed());
    }
}

#[test]
fn points_of_one_record() {
    let r = record([3, 9, 5, 9, 7, 9, 11, 9], LeftTarmac::Yes, Climb::Mid);
    assert_eq!(
        TeamPointsInfo::from_record(&r),
        TeamPointsInfo { num_matches: 1, auto_points: 3 * 4 + 5 * 2 + 2, tele_points: 7 * 2 + 11, climb_points: 6 }
    );
}

#[test]
fn points_without_tarmac_bonus() {
    let r = record([3, 0, 5, 0, 0, 0, 0, 0], LeftTarmac::No, Climb::Failed);
    assert_eq!(
        TeamPointsInfo::from_record(&r),
        TeamPointsInfo { num_matches: 1, auto_points: 22, tele_points: 0, climb_points: 0 }
    );
}

#[test]
fn points_of_each_climb_outcome() {
    let outcomes = [
        (Climb::No, 0),
        (Climb::Failed, 0),
        (Climb::Low, 4),
        (Climb::Mid, 6),
        (Climb::High, 10),
        (Climb::Traversal, 15),
    ];
    for (climb, points) in outcomes {
        let r = record([0; 8], LeftTarmac::No, climb);
        assert_eq!(TeamPointsInfo::from_record(&r).climb_points, points);
    }
}

#[test]
fn points_of_the_largest_counts() {
    let r = record([i32::MAX; 8], LeftTarmac::Yes, Climb::Traversal);
    let most = i32::MAX as u64;
    assert_eq!(
        TeamPointsInfo::from_record(&r),
        TeamPointsInfo {
            num_matches: 1,
            auto_points: most * 6 + 2,
            tele_points: most * 3,
            climb_points: 15
        }
    );
    assert_eq!(
        AccuracyInfo::from_record(&r),
        AccuracyInfo { points: most * 3, missed_points: most * 3 }
    );
}

#[test]
fn accuracy_of_one_record() {
    let r = record([9, 9, 9, 9, 7, 2, 11, 5], LeftTarmac::Yes, Climb::Mid);
    assert_eq!(
        AccuracyInfo::from_record(&r),
        AccuracyInfo { points: 7 * 2 + 11, missed_points: 2 * 2 + 5 }
    );
}

#[test]
fn climb_of_one_record_counts_one_outcome() {
    let outcomes = [
        (Climb::No, [1, 0, 0, 0, 0, 0]),
        (Climb::Failed, [0, 1, 0, 0, 0, 0]),
        (Climb::Low, [0, 0, 1, 0, 0, 0]),
        (Climb::Mid, [0, 0, 0, 1, 0, 0]),
        (Climb::High, [0, 0, 0, 0, 1, 0]),
        (Climb::Traversal, [0, 0, 0, 0, 0, 1]),
    ];
    for (climb, counts) in outcomes {
        let r = record([1; 8], LeftTarmac::No, climb);
        let info = ClimbInfo::from_record(&r);
        assert_eq!(info, climb_counts(counts));
        assert_eq!(info.total(), 1);
        assert_eq!(info.count(climb), 1);
    }
}

#[test]
fn empty_accumulators_are_zero() {
    assert_eq!(
        TeamPointsInfo::empty(),
        TeamPointsInfo { num_matches: 0, auto_points: 0, tele_points: 0, climb_points: 0 }
    );
    assert_eq!(TeamPointsInfo::default(), TeamPointsInfo::empty());
    assert_eq!(AccuracyInfo::empty(), AccuracyInfo { points: 0, missed_points: 0 });
    assert_eq!(AccuracyInfo::default(), AccuracyInfo::empty());
    assert_eq!(ClimbInfo::empty(), climb_counts([0; 6]));
    assert_eq!(ClimbInfo::default(), ClimbInfo::empty());
}

#[test]
fn merging_adds_field_by_field() {
    let a = TeamPointsInfo { num_matches: 2, auto_points: 12, tele_points: 8, climb_points: 14 };
    let b = TeamPointsInfo { num_matches: 1, auto_points: 5, tele_points: 0, climb_points: 15 };
    let sum = TeamPointsInfo { num_matches: 3, auto_points: 17, tele_points: 8, climb_points: 29 };
    assert_eq!(a.checked_add(&b), Some(sum));
    assert_eq!(a.add(b), sum);
    let mut c = a;
    c.add_assign(b);
    assert_eq!(c, sum);

    let x = AccuracyInfo { points: 8, missed_points: 4 };
    let y = AccuracyInfo { points: 1, missed_points: 10 };
    let both = AccuracyInfo { points: 9, missed_points: 14 };
    assert_eq!(x.checked_add(&y), Some(both));
    let mut z = x;
    z.add_assign(y);
    assert_eq!(z, both);

    let p = climb_counts([1, 2, 3, 4, 5, 6]);
    let q = climb_counts([10, 20, 30, 40, 50, 60]);
    let all = climb_counts([11, 22, 33, 44, 55, 66]);
    assert_eq!(p.checked_add(&q), Some(all));
    let mut r = p;
    r.add_assign(q);
    assert_eq!(r, all);
}

#[test]
fn merging_is_commutative_and_associative() {
    let a = TeamPointsInfo { num_matches: 2, auto_points: 12, tele_points: 8, climb_points: 14 };
    let b = TeamPointsInfo { num_matches: 1, auto_points: 5, tele_points: 0, climb_points: 15 };
    let c = TeamPointsInfo { num_matches: 7, auto_points: 1, tele_points: 99, climb_points: 0 };
    assert_eq!(a.checked_add(&b), b.checked_add(&a));
    assert_eq!(a.add(b).add(c), a.add(b.add(c)));
    assert_eq!(TeamPointsInfo::empty().add(a), a);
    assert_eq!(a.add(TeamPointsInfo::empty()), a);
}

#[test]
fn merging_refuses_a_sum_out_of_range() {
    let full = TeamPointsInfo { num_matches: 5, auto_points: u64::MAX, tele_points: 0, climb_points: 0 };
    let one = TeamPointsInfo { num_matches: 1, auto_points: 1, tele_points: 1, climb_points: 1 };
    assert_eq!(full.checked_add(&one), None);
    let nearly = TeamPointsInfo { num_matches: 5, auto_points: u64::MAX - 1, tele_points: 0, climb_points: 0 };
    assert_eq!(
        nearly.checked_add(&one),
        Some(TeamPointsInfo { num_matches: 6, auto_points: u64::MAX, tele_points: 1, climb_points: 1 })
    );
    for field in 0..4 {
        let mut big = TeamPointsInfo::empty();
        match field {
            0 => big.num_matches = u64::MAX,
            1 => big.auto_points = u64::MAX,
            2 => big.tele_points = u64::MAX,
            _ => big.climb_points = u64::MAX,
        }
        assert_eq!(big.checked_add(&one), None);
        assert_eq!(one.checked_add(&big), None);
    }

    let shots = AccuracyInfo { points: 1, missed_points: 1 };
    assert_eq!(AccuracyInfo { points: u64::MAX, missed_points: 0 }.checked_add(&shots), None);
    assert_eq!(AccuracyInfo { points: 0, missed_points: u64::MAX }.checked_add(&shots), None);

    let each = climb_counts([1; 6]);
    for at in 0..6 {
        let mut counts = [0; 6];
        counts[at] = u64::MAX;
        assert_eq!(climb_counts(counts).checked_add(&each), None);
    }
}

#[test]
fn means_of_points() {
    let info = TeamPointsInfo { num_matches: 3, auto_points: 17, tele_points: 8, climb_points: 29 };
    assert_eq!(info.total(), 54);
    assert_eq!(info.mean_total(), Ratio { num: 54, den: 3 });
    assert_eq!(info.mean_auto(), Ratio { num: 17, den: 3 });
    assert_eq!(info.mean_tele(), Ratio { num: 8, den: 3 });
    assert_eq!(info.mean_climb(), Ratio { num: 29, den: 3 });
    assert_eq!(info.metric(), info.mean_total());
}

#[test]
fn means_of_the_largest_totals_do_not_overflow() {
    let info = TeamPointsInfo {
        num_matches: u64::MAX,
        auto_points: u64::MAX,
        tele_points: u64::MAX,
        climb_points: u64::MAX,
    };
    assert_eq!(info.total(), 3 * (u64::MAX as u128));
    assert_eq!(info.mean_total().compare(&Ratio { num: 3, den: 1 }), Standing::Level);
    let climbs = climb_counts([u64::MAX; 6]);
    assert_eq!(climbs.total(), 6 * (u64::MAX as u128));
    assert_eq!(climbs.mean_points(), Ratio { num: 35 * (u64::MAX as u128), den: 6 * (u64::MAX as u128) });
    let shots = AccuracyInfo { points: u64::MAX, missed_points: u64::MAX };
    assert_eq!(shots.accuracy().compare(&Ratio { num: 1, den: 2 }), Standing::Level);
}

#[test]
fn accuracy_lies_between_zero_and_one() {
    let cases = [(0u64, 1u64), (1, 0), (8, 4), (3, 1000), (u64::MAX, 1), (1, u64::MAX)];
    for (points, missed_points) in cases {
        let a = AccuracyInfo { points, missed_points }.accuracy();
        assert!(a.is_defined());
        assert!(a.num <= a.den);
        assert_ne!(a.compare(&Ratio { num: 0, den: 1 }), Standing::Below);
        assert_ne!(a.compare(&Ratio { num: 1, den: 1 }), Standing::Above);
    }
    assert_eq!(AccuracyInfo { points: 5, missed_points: 0 }.accuracy(), Ratio { num: 5, den: 5 });
    assert_eq!(AccuracyInfo { points: 0, missed_points: 5 }.accuracy(), Ratio { num: 0, den: 5 });
}

#[test]
fn metrics_of_empty_accumulators_have_no_value() {
    assert!(!TeamPointsInfo::empty().mean_total().is_defined());
    assert!(!TeamPointsInfo::empty().mean_auto().is_defined());
    assert!(!TeamPointsInfo::empty().mean_tele().is_defined());
    assert!(!TeamPointsInfo::empty().mean_climb().is_defined());
    assert!(!AccuracyInfo::empty().accuracy().is_defined());
    assert!(!ClimbInfo::empty().mean_points().is_defined());
    assert!(!ClimbInfo::empty().proportion(Climb::Low).is_defined());
    assert_eq!(AccuracyInfo::empty().accuracy(), Ratio { num: 0, den: 0 });
}

#[test]
fn climb_mean_points_weighs_the_rungs() {
    let info = climb_counts([7, 5, 1, 2, 3, 4]);
    assert_eq!(info.total(), 22);
    assert_eq!(info.mean_points(), Ratio { num: 1 * 4 + 2 * 6 + 3 * 10 + 4 * 15, den: 22 });
    assert_eq!(info.metric(), info.mean_points());
}

#[test]
fn climb_proportions_sum_to_one() {
    let cases = [[7, 5, 1, 2, 3, 4], [0, 0, 0, 0, 0, 1], [1, 0, 0, 0, 0, 0], [3, 3, 3, 3, 3, 3]];
    let outcomes =
        [Climb::No, Climb::Failed, Climb::Low, Climb::Mid, Climb::High, Climb::Traversal];
    for counts in cases {
        let info = climb_counts(counts);
        let mut sum: u128 = 0;
        for outcome in outcomes {
            let p = info.proportion(outcome);
            assert_eq!(p.den, info.total());
            assert!(p.num <= p.den);
            sum += p.num;
        }
        assert_eq!(sum, info.total());
        let as_float: f64 =
            outcomes.iter().map(|o| info.proportion(*o)).map(|p| p.num as f64 / p.den as f64).sum();
        assert!((as_float - 1.0).abs() < 1e-9);
    }
}

//! Folding records into per-team accumulators.

use scouting::analysis::accuracy::AccuracyInfo;
use std::collections::BTreeMap;

use scouting::analysis::aggregate::{check_records, merge_into};
use scouting::analysis::climb::ClimbInfo;
use scouting::analysis::points::TeamPointsInfo;
use scouting::analysis::{aggregate, DataIntegrityError};
use scouting::{Alliance, Climb, LeftTarmac, RobotMatchInfo};

fn record(team: i32, match_number: i32, made: i32, climb: Climb) -> RobotMatchInfo {
    RobotMatchInfo {
        team,
        match_number,
        alliance: Alliance::Red,
        left_tarmac: if made % 2 == 0 { LeftTarmac::Yes } else { LeftTarmac::No },
        auto_high_made: made,
        auto_high_missed: 1,
        auto_low_made: made + 1,
        auto_low_missed: 0,
        teleop_high_made: 2 * made,
        teleop_high_missed: 3,
        teleop_low_made: 1,
        teleop_low_missed: made,
        climb,
        notes: String::new(),
    }
}

fn season() -> Vec<RobotMatchInfo> {
    vec![
        record(254, 1, 4, Climb::Traversal),
        record(1678, 1, 6, Climb::High),
        record(118, 1, 1, Climb::Mid),
        record(254, 2, 3, Climb::High),
        record(118, 2, 0, Climb::No),
        record(254, 3, 5, Climb::Failed),
        record(4414, 7, 2, Climb::Low),
    ]
}

#[test]
fn no_records_give_an_empty_table() {
    assert!(aggregate::<TeamPointsInfo>(&Vec::new()).unwrap().is_empty());
    assert!(aggregate::<AccuracyInfo>(&Vec::new()).unwrap().is_empty());
    assert!(aggregate::<ClimbInfo>(&Vec::new()).unwrap().is_empty());
}

#[test]
fn only_teams_with_records_are_in_the_table() {
    let table = aggregate::<TeamPointsInfo>(&season()).unwrap();
    let teams: Vec<i32> = table.keys().copied().collect();
    assert_eq!(teams, vec![118, 254, 1678, 4414]);
    assert!(table.get(&1).is_none());
}

#[test]
fn matches_are_counted_per_team() {
    let table = aggregate::<TeamPointsInfo>(&season()).unwrap();
    assert_eq!(table[&254].num_matches, 3);
    assert_eq!(table[&118].num_matches, 2);
    assert_eq!(table[&1678].num_matches, 1);
    assert_eq!(table[&4414].num_matches, 1);
    let climbs = aggregate::<ClimbInfo>(&season()).unwrap();
    assert_eq!(climbs[&254].total(), 3);
    assert_eq!(climbs[&118].total(), 2);
}

#[test]
fn totals_are_the_sums_of_the_contributions() {
    let table = aggregate::<TeamPointsInfo>(&season()).unwrap();
    // Team 254 made 4, 3 and 5 high shots in the autonomous phase of its matches.
    let auto = (4 * 4 + 5 * 2 + 2) + (3 * 4 + 4 * 2) + (5 * 4 + 6 * 2);
    let tele = (8 * 2 + 1) + (6 * 2 + 1) + (10 * 2 + 1);
    assert_eq!(
        table[&254],
        TeamPointsInfo { num_matches: 3, auto_points: auto, tele_points: tele, climb_points: 15 + 10 }
    );
    let mut by_hand = TeamPointsInfo::default();
    for r in season().iter().filter(|r| r.team == 254) {
        by_hand.add_assign(<TeamPointsInfo as scouting::analysis::Accumulator>::from_record(r));
    }
    assert_eq!(table[&254], by_hand);

    let shots = aggregate::<AccuracyInfo>(&season()).unwrap();
    assert_eq!(
        shots[&254],
        AccuracyInfo { points: tele, missed_points: (3 * 2 + 4) + (3 * 2 + 3) + (3 * 2 + 5) }
    );
    let climbs = aggregate::<ClimbInfo>(&season()).unwrap();
    assert_eq!(
        climbs[&254],
        ClimbInfo {
            no_attempts: 0,
            fails: 1,
            low_climbs: 0,
            mid_climbs: 0,
            high_climbs: 1,
            traverse_climbs: 1
        }
    );
    assert_eq!(climbs[&118].no_attempts, 1);
    assert_eq!(climbs[&118].mid_climbs, 1);
}

#[test]
fn order_of_records_does_not_matter() {
    let records = season();
    let expected_points = aggregate::<TeamPointsInfo>(&records).unwrap();
    let expected_shots = aggregate::<AccuracyInfo>(&records).unwrap();
    let expected_climbs = aggregate::<ClimbInfo>(&records).unwrap();

    let mut reversed = records.clone();
    reversed.reverse();
    let mut rotated = records.clone();
    rotated.rotate_left(3);
    let mut by_team = records.clone();
    by_team.sort_by_key(|r| r.team);
    let mut swapped = records.clone();
    swapped.swap(0, 5);

    for shuffled in [reversed, rotated, by_team, swapped] {
        assert_eq!(aggregate::<TeamPointsInfo>(&shuffled).unwrap(), expected_points);
        assert_eq!(aggregate::<AccuracyInfo>(&shuffled).unwrap(), expected_shots);
        assert_eq!(aggregate::<ClimbInfo>(&shuffled).unwrap(), expected_climbs);
    }
}

#[test]
fn every_order_of_four_records_gives_the_same_table() {
    let records = vec![
        record(5, 1, 4, Climb::Low),
        record(3, 1, 2, Climb::High),
        record(5, 2, 0, Climb::No),
        record(3, 2, 9, Climb::Mid),
    ];
    let expected = aggregate::<TeamPointsInfo>(&records).unwrap();
    for a in 0..4 {
        for b in 0..4 {
            for c in 0..4 {
                for d in 0..4 {
                    let picked = [a, b, c, d];
                    if (0..4).all(|i| picked.contains(&i)) {
                        let shuffled: Vec<RobotMatchInfo> =
                            picked.iter().map(|i| records[*i].clone()).collect();
                        assert_eq!(aggregate::<TeamPointsInfo>(&shuffled).unwrap(), expected);
                    }
                }
            }
        }
    }
}

#[test]
fn a_record_counts_each_time_it_occurs() {
    let twice = vec![record(9, 1, 2, Climb::Low), record(9, 1, 2, Climb::Low)];
    let table = aggregate::<TeamPointsInfo>(&twice).unwrap();
    assert_eq!(table[&9].num_matches, 2);
    assert_eq!(table[&9].climb_points, 8);
}

#[test]
fn negative_team_numbers_are_teams_like_any_other() {
    let records = vec![record(-7, 1, 2, Climb::Low), record(0, 1, 1, Climb::No)];
    let table = aggregate::<ClimbInfo>(&records).unwrap();
    assert_eq!(table[&-7].low_climbs, 1);
    assert_eq!(table[&0].no_attempts, 1);
}

#[test]
fn a_negative_count_is_refused() {
    let mut records = season();
    records[4].teleop_low_missed = -1;
    assert!(!check_records(&records));
    assert_eq!(aggregate::<TeamPointsInfo>(&records), Err(DataIntegrityError::NegativeCount));
    assert_eq!(aggregate::<AccuracyInfo>(&records), Err(DataIntegrityError::NegativeCount));
    assert_eq!(aggregate::<ClimbInfo>(&records), Err(DataIntegrityError::NegativeCount));
}

#[test]
fn a_negative_count_is_refused_wherever_it_stands() {
    for at in 0..season().len() {
        let mut records = season();
        records[at].auto_high_made = i32::MIN;
        assert_eq!(aggregate::<TeamPointsInfo>(&records), Err(DataIntegrityError::NegativeCount));
    }
}

#[test]
fn well_formed_records_pass_the_check() {
    assert!(check_records(&season()));
    assert!(check_records(&Vec::new()));
}

#[test]
fn large_counts_are_summed_exactly() {
    let mut big = record(1, 1, 0, Climb::Traversal);
    big.auto_high_made = i32::MAX;
    big.auto_low_made = i32::MAX;
    big.teleop_high_made = i32::MAX;
    big.teleop_low_made = i32::MAX;
    let records: Vec<RobotMatchInfo> = (0..1000)
        .map(|n| {
            let mut r = big.clone();
            r.match_number = n;
            r
        })
        .collect();
    let table = aggregate::<TeamPointsInfo>(&records).unwrap();
    let most = i32::MAX as u64;
    assert_eq!(
        table[&1],
        TeamPointsInfo {
            num_matches: 1000,
            auto_points: 1000 * (most * 6 + 2),
            tele_points: 1000 * (most * 3),
            climb_points: 15_000
        }
    );
}

#[test]
fn merging_into_a_table_starts_a_team_from_zero() {
    let mut table: BTreeMap<i32, AccuracyInfo> = BTreeMap::new();
    let first = AccuracyInfo { points: 3, missed_points: 1 };
    assert_eq!(merge_into(&mut table, 8, first), Ok(()));
    assert_eq!(table.len(), 1);
    assert_eq!(table[&8], first);
    assert_eq!(merge_into(&mut table, 8, AccuracyInfo { points: 10, missed_points: 20 }), Ok(()));
    assert_eq!(merge_into(&mut table, 2, AccuracyInfo { points: 1, missed_points: 0 }), Ok(()));
    assert_eq!(table.len(), 2);
    assert_eq!(table[&8], AccuracyInfo { points: 13, missed_points: 21 });
    assert_eq!(table[&2], AccuracyInfo { points: 1, missed_points: 0 });
}

#[test]
fn totals_out_of_range_are_refused_and_the_table_is_kept() {
    let mut table: BTreeMap<i32, TeamPointsInfo> = BTreeMap::new();
    let nearly_full =
        TeamPointsInfo { num_matches: 9, auto_points: u64::MAX - 5, tele_points: 7, climb_points: 0 };
    let other = TeamPointsInfo { num_matches: 1, auto_points: 2, tele_points: 3, climb_points: 4 };
    assert_eq!(merge_into(&mut table, 1, nearly_full), Ok(()));
    assert_eq!(merge_into(&mut table, 2, other), Ok(()));
    let before = table.clone();

    let six = TeamPointsInfo { num_matches: 1, auto_points: 6, tele_points: 0, climb_points: 0 };
    assert_eq!(merge_into(&mut table, 1, six), Err(DataIntegrityError::TotalOutOfRange));
    assert_eq!(table, before);

    let five = TeamPointsInfo { num_matches: 1, auto_points: 5, tele_points: 0, climb_points: 0 };
    assert_eq!(merge_into(&mut table, 1, five), Ok(()));
    assert_eq!(
        table[&1],
        TeamPointsInfo { num_matches: 10, auto_points: u64::MAX, tele_points: 7, climb_points: 0 }
    );
    assert_eq!(table[&2], other);

    let mut climbs: BTreeMap<i32, ClimbInfo> = BTreeMap::new();
    let full = ClimbInfo { high_climbs: u64::MAX, ..ClimbInfo::default() };
    assert_eq!(merge_into(&mut climbs, 3, full), Ok(()));
    let one_more = ClimbInfo { high_climbs: 1, ..ClimbInfo::default() };
    assert_eq!(merge_into(&mut climbs, 3, one_more), Err(DataIntegrityError::TotalOutOfRange));
    assert_eq!(merge_into(&mut climbs, 4, one_more), Ok(()));
    assert_eq!(climbs[&3], full);
}

//! The per-team fold as a mathematical function of the record sequence.

use vstd::prelude::*;
use vstd::seq_lib::{to_multiset_contains, to_multiset_len, to_multiset_remove};
use crate::analysis::accumulator::{Accumulator, DataIntegrityError};
use crate::models::RobotMatchInfo;

verus! {

/// The totals of `team` over `records`: the contributions of its records,
/// combined from the first record to the last.
pub open spec fn team_totals<A: Accumulator>(records: Seq<RobotMatchInfo>, team: i32) -> A::V
    decreases records.len(),
{
    if records.len() == 0 {
        A::zero()
    } else {
        let before = team_totals::<A>(records.drop_last(), team);
        if records.last().team == team {
            A::combine(before, A::contribution(records.last()))
        } else {
            before
        }
    }
}

/// The records of one team, in their order.
pub open spec fn records_of(records: Seq<RobotMatchInfo>, team: i32) -> Seq<RobotMatchInfo> {
    records.filter(|record: RobotMatchInfo| record.team == team)
}

/// The sum of one quantity over the records.
pub open spec fn sum_of(records: Seq<RobotMatchInfo>, quantity: spec_fn(RobotMatchInfo) -> nat) -> nat
    decreases records.len(),
{
    if records.len() == 0 {
        0
    } else {
        sum_of(records.drop_last(), quantity) + quantity(records.last())
    }
}

/// The teams that have at least one record.
pub open spec fn teams_of(records: Seq<RobotMatchInfo>) -> Set<i32> {
    Set::new(|team: i32| exists|i: int| 0 <= i < records.len() && #[trigger] records[i].team == team)
}

/// Every record is well formed.
pub open spec fn all_well_formed(records: Seq<RobotMatchInfo>) -> bool {
    forall|i: int| 0 <= i < records.len() ==> #[trigger] records[i].well_formed()
}

/// Every team's totals can be held by an accumulator.
pub open spec fn all_representable<A: Accumulator>(records: Seq<RobotMatchInfo>) -> bool {
    forall|team: i32| #[trigger]
        teams_of(records).contains(team) ==> A::representable(team_totals::<A>(records, team))
}

/// The mapping from each team with a record to its totals.
pub open spec fn totals_by_team<A: Accumulator>(records: Seq<RobotMatchInfo>) -> Map<i32, A::V> {
    Map::new(
        |team: i32| teams_of(records).contains(team),
        |team: i32| team_totals::<A>(records, team),
    )
}

/// What aggregating `records` gives: the totals of every team that has a
/// record, unless a record is malformed or some totals are out of range.
pub open spec fn aggregate_spec<A: Accumulator>(records: Seq<RobotMatchInfo>) -> Result<
    Map<i32, A::V>,
    DataIntegrityError,
> {
    if !all_well_formed(records) {
        Err(DataIntegrityError::NegativeCount)
    } else if !all_representable::<A>(records) {
        Err(DataIntegrityError::TotalOutOfRange)
    } else {
        Ok(totals_by_team::<A>(records))
    }
}

/// Appending a record adds its contribution to its own team and to no other.
pub proof fn lemma_team_totals_push<A: Accumulator>(
    records: Seq<RobotMatchInfo>,
    record: RobotMatchInfo,
    team: i32,
)
    ensures
        team_totals::<A>(records.push(record), team) == if record.team == team {
            A::combine(team_totals::<A>(records, team), A::contribution(record))
        } else {
            team_totals::<A>(records, team)
        },
{
    let longer = records.push(record);
    assert(longer.drop_last() == records);
    assert(longer.last() == record);
}

/// Appending a record adds its team to the teams.
pub proof fn lemma_teams_of_push(records: Seq<RobotMatchInfo>, record: RobotMatchInfo)
    ensures
        teams_of(records.push(record)) == teams_of(records).insert(record.team),
{
    let longer = records.push(record);
    assert forall|t: i32| teams_of(longer).contains(t) implies teams_of(records).insert(
        record.team,
    ).contains(t) by {
        let i = choose|i: int| 0 <= i < longer.len() && #[trigger] longer[i].team == t;
        if i < records.len() {
            assert(records[i].team == t);
        }
    }
    assert forall|t: i32| teams_of(records).insert(record.team).contains(t) implies teams_of(
        longer,
    ).contains(t) by {
        if t == record.team {
            assert(longer[records.len() as int].team == t);
        } else {
            let i = choose|i: int| 0 <= i < records.len() && #[trigger] records[i].team == t;
            assert(longer[i].team == t);
        }
    }
    assert(teams_of(longer) =~= teams_of(records).insert(record.team));
}

/// A team's records are those it had before, and the new record if it is
/// the team's.
pub proof fn lemma_records_of_push(records: Seq<RobotMatchInfo>, record: RobotMatchInfo, team: i32)
    ensures
        records_of(records.push(record), team) == if record.team == team {
            records_of(records, team).push(record)
        } else {
            records_of(records, team)
        },
{
    reveal(Seq::filter);
    assert(records.push(record).drop_last() == records);
}

/// A team is among the teams of the records exactly if it has a record.
pub proof fn lemma_team_has_record(records: Seq<RobotMatchInfo>, team: i32)
    ensures
        teams_of(records).contains(team) <==> records_of(records, team).len() > 0,
    decreases records.len(),
{
    reveal(Seq::filter);
    if records.len() > 0 {
        let shorter = records.drop_last();
        let last = records.last();
        assert(records == shorter.push(last));
        lemma_team_has_record(shorter, team);
        lemma_teams_of_push(shorter, last);
        lemma_records_of_push(shorter, last, team);
    }
}

/// A team without a record has the totals of no record at all.
pub proof fn lemma_absent_team<A: Accumulator>(records: Seq<RobotMatchInfo>, team: i32)
    requires
        !teams_of(records).contains(team),
    ensures
        team_totals::<A>(records, team) == A::zero(),
    decreases records.len(),
{
    if records.len() > 0 {
        let shorter = records.drop_last();
        assert(records.last() == records[records.len() - 1]);
        assert forall|i: int| 0 <= i < shorter.len() implies #[trigger] shorter[i].team != team by {
            assert(records[i].team != team);
        }
        lemma_absent_team::<A>(shorter, team);
    }
}

/// Totals only grow along the sequence: if an accumulator can hold a team's
/// totals over all the records, it can hold them over any leading part.
pub proof fn lemma_prefix_representable<A: Accumulator>(
    records: Seq<RobotMatchInfo>,
    len: int,
    team: i32,
)
    requires
        0 <= len <= records.len(),
        A::representable(team_totals::<A>(records, team)),
    ensures
        A::representable(team_totals::<A>(records.take(len), team)),
    decreases records.len(),
{
    if len == records.len() {
        assert(records.take(len) == records);
    } else {
        let shorter = records.drop_last();
        if records.last().team == team {
            A::lemma_representable_parts(
                team_totals::<A>(shorter, team),
                A::contribution(records.last()),
            );
        }
        lemma_prefix_representable::<A>(shorter, len, team);
        assert(shorter.take(len) == records.take(len));
    }
}

/// Taking one record out of the sequence, wherever it stands, takes its
/// contribution out of its team's totals.
pub proof fn lemma_team_totals_remove<A: Accumulator>(
    records: Seq<RobotMatchInfo>,
    i: int,
    team: i32,
)
    requires
        0 <= i < records.len(),
    ensures
        team_totals::<A>(records, team) == if records[i].team == team {
            A::combine(team_totals::<A>(records.remove(i), team), A::contribution(records[i]))
        } else {
            team_totals::<A>(records.remove(i), team)
        },
    decreases records.len(),
{
    let shorter = records.drop_last();
    let last = records.last();
    if i == records.len() - 1 {
        assert(records.remove(i) == shorter);
    } else {
        let without = records.remove(i);
        assert(without.drop_last() == shorter.remove(i));
        assert(without.last() == last);
        assert(shorter[i] == records[i]);
        lemma_team_totals_remove::<A>(shorter, i, team);
        if records[i].team == team && last.team == team {
            let rest = team_totals::<A>(shorter.remove(i), team);
            let moved = A::contribution(records[i]);
            let kept = A::contribution(last);
            A::lemma_combine_associative(rest, moved, kept);
            A::lemma_combine_commutative(moved, kept);
            A::lemma_combine_associative(rest, kept, moved);
        }
    }
}

/// Two sequences that hold the same records, in whatever order, give every
/// team the same totals.
pub proof fn lemma_team_totals_permutation<A: Accumulator>(
    records: Seq<RobotMatchInfo>,
    shuffled: Seq<RobotMatchInfo>,
    team: i32,
)
    requires
        records.to_multiset() == shuffled.to_multiset(),
    ensures
        team_totals::<A>(records, team) == team_totals::<A>(shuffled, team),
    decreases records.len(),
{
    assert(records.len() == shuffled.len()) by {
        to_multiset_len(records);
        to_multiset_len(shuffled);
    }
    if records.len() > 0 {
        let last = records.last();
        let shorter = records.drop_last();
        assert(records.contains(last)) by {
            assert(records[records.len() - 1] == last);
        }
        assert(shuffled.contains(last)) by {
            to_multiset_contains(records, last);
            to_multiset_contains(shuffled, last);
        }
        let j = choose|j: int| 0 <= j < shuffled.len() && shuffled[j] == last;
        let rest = shuffled.remove(j);
        assert(shorter.to_multiset() == rest.to_multiset()) by {
            assert(shorter == records.remove(records.len() - 1));
            to_multiset_remove(records, records.len() - 1);
            to_multiset_remove(shuffled, j);
        }
        lemma_team_totals_permutation::<A>(shorter, rest, team);
        lemma_team_totals_remove::<A>(shuffled, j, team);
    }
}

/// The same records in another order have the same teams, and are well
/// formed if and only if the others are.
pub proof fn lemma_teams_permutation(records: Seq<RobotMatchInfo>, shuffled: Seq<RobotMatchInfo>)
    requires
        records.to_multiset() == shuffled.to_multiset(),
    ensures
        teams_of(records) == teams_of(shuffled),
        all_well_formed(records) == all_well_formed(shuffled),
{
    lemma_same_records(records, shuffled);
    lemma_same_records(shuffled, records);
    assert(teams_of(records) =~= teams_of(shuffled));
}

/// Every record of one sequence occurs in the other, so the other has its
/// teams, and a malformed record if the first has one.
proof fn lemma_same_records(records: Seq<RobotMatchInfo>, shuffled: Seq<RobotMatchInfo>)
    requires
        records.to_multiset() == shuffled.to_multiset(),
    ensures
        forall|team: i32| teams_of(records).contains(team) ==> teams_of(shuffled).contains(team),
        all_well_formed(shuffled) ==> all_well_formed(records),
{
    assert forall|i: int| 0 <= i < records.len() implies exists|j: int|
        0 <= j < shuffled.len() && shuffled[j] == #[trigger] records[i] by {
        assert(records.contains(records[i]));
        to_multiset_contains(records, records[i]);
        to_multiset_contains(shuffled, records[i]);
    }
    assert forall|team: i32| teams_of(records).contains(team) implies teams_of(shuffled).contains(
        team,
    ) by {
        let i = choose|i: int| 0 <= i < records.len() && #[trigger] records[i].team == team;
        let j = choose|j: int| 0 <= j < shuffled.len() && shuffled[j] == records[i];
        assert(shuffled[j].team == team);
    }
    if all_well_formed(shuffled) {
        assert forall|i: int| 0 <= i < records.len() implies #[trigger] records[i].well_formed() by {
            let j = choose|j: int| 0 <= j < shuffled.len() && shuffled[j] == records[i];
            assert(shuffled[j].well_formed());
        }
    }
}

/// Aggregation does not depend on the order of the records: two sequences
/// that hold the same records give the same outcome, be it the same table of
/// totals or the same refusal.
pub proof fn lemma_aggregate_order_independent<A: Accumulator>(
    records: Seq<RobotMatchInfo>,
    shuffled: Seq<RobotMatchInfo>,
)
    requires
        records.to_multiset() == shuffled.to_multiset(),
    ensures
        aggregate_spec::<A>(records) == aggregate_spec::<A>(shuffled),
{
    lemma_teams_permutation(records, shuffled);
    assert forall|team: i32|
        team_totals::<A>(records, team) == #[trigger] team_totals::<A>(shuffled, team) by {
        lemma_team_totals_permutation::<A>(records, shuffled, team);
    }
    assert(all_representable::<A>(records) == all_representable::<A>(shuffled));
    assert(totals_by_team::<A>(records) =~= totals_by_team::<A>(shuffled));
}

} // verus!

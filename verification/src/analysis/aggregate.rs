//! The aggregator: one pass over the records, one accumulator per team.

use std::collections::BTreeMap;
use vstd::prelude::*;
use crate::analysis::accumulator::{Accumulator, DataIntegrityError};
use crate::analysis::fold::{
    aggregate_spec, all_representable, all_well_formed, lemma_absent_team,
    lemma_aggregate_order_independent, lemma_prefix_representable, lemma_team_totals_push,
    lemma_teams_of_push, team_totals, teams_of, totals_by_team,
};
use crate::models::RobotMatchInfo;

verus! {

/// The totals that a table of accumulators stands for.
pub open spec fn totals_in<A: Accumulator>(table: Map<i32, A>) -> Map<i32, A::V> {
    Map::new(|team: i32| table.contains_key(team), |team: i32| table[team]@)
}

/// Tables that stand for the same totals are the same table: an accumulator
/// is determined by the totals it holds.
pub proof fn lemma_totals_in_exact<A: Accumulator>(first: Map<i32, A>, second: Map<i32, A>)
    requires
        totals_in(first) == totals_in(second),
    ensures
        first == second,
{
    assert forall|team: i32| first.contains_key(team) == second.contains_key(team) by {
        assert(totals_in(first).contains_key(team) == first.contains_key(team));
        assert(totals_in(second).contains_key(team) == second.contains_key(team));
    }
    assert forall|team: i32| first.contains_key(team) implies first[team] == second[team] by {
        assert(totals_in(first)[team] == first[team]@);
        assert(totals_in(second)[team] == second[team]@);
        A::lemma_view_exact(first[team], second[team]);
    }
    assert(first =~= second);
}

/// The table does not depend on the order of the records: if aggregating
/// some records gives one table and aggregating the same records in another
/// order gives a second, the two are the same table.
pub proof fn lemma_table_order_independent<A: Accumulator>(
    records: Seq<RobotMatchInfo>,
    shuffled: Seq<RobotMatchInfo>,
    first: Map<i32, A>,
    second: Map<i32, A>,
)
    requires
        records.to_multiset() == shuffled.to_multiset(),
        aggregate_spec::<A>(records) == Ok::<Map<i32, A::V>, DataIntegrityError>(totals_in(first)),
        aggregate_spec::<A>(shuffled) == Ok::<Map<i32, A::V>, DataIntegrityError>(
            totals_in(second),
        ),
    ensures
        first == second,
{
    lemma_aggregate_order_independent::<A>(records, shuffled);
    lemma_totals_in_exact(first, second);
}

/// Tests whether every record is well formed.
pub fn check_records(records: &Vec<RobotMatchInfo>) -> (ok: bool)
    ensures
        ok == all_well_formed(records@),
{
    let mut i: usize = 0;
    while i < records.len()
        invariant
            i <= records.len(),
            forall|j: int| 0 <= j < i ==> #[trigger] records@[j].well_formed(),
        decreases records.len() - i,
    {
        if !records[i].is_well_formed() {
            return false;
        }
        i += 1;
    }
    true
}

/// What a table holds for a team so far: the totals of its accumulator, or
/// those of no record if the team is not in the table yet.
pub open spec fn totals_so_far<A: Accumulator>(table: Map<i32, A>, team: i32) -> A::V {
    if table.contains_key(team) {
        table[team]@
    } else {
        A::zero()
    }
}

/// Merges one contribution into the accumulator of its team. A team that is
/// not in the table yet starts from the empty accumulator.
///
/// If the accumulator cannot hold the sum, the table stays as it is and the
/// contribution is refused.
pub fn merge_into<A: Accumulator>(
    table: &mut BTreeMap<i32, A>,
    team: i32,
    contribution: A,
) -> (result: Result<(), DataIntegrityError>)
    ensures
        match result {
            Ok(_) => {
                &&& final(table)@.contains_key(team)
                &&& final(table)@[team]@ == A::combine(
                    totals_so_far(old(table)@, team),
                    contribution@,
                )
                &&& final(table)@ == old(table)@.insert(team, final(table)@[team])
            },
            Err(e) => {
                &&& e == DataIntegrityError::TotalOutOfRange
                &&& !A::representable(A::combine(totals_so_far(old(table)@, team), contribution@))
                &&& final(table)@ == old(table)@
            },
        },
{
    let so_far = match table.get(&team) {
        Some(acc) => *acc,
        None => A::empty(),
    };
    match so_far.checked_add(&contribution) {
        Some(sum) => {
            table.insert(team, sum);
            Ok(())
        },
        None => Err(DataIntegrityError::TotalOutOfRange),
    }
}

/// Folds the records into one accumulator per team.
///
/// A team is in the table exactly if it has a record, and its accumulator
/// holds the combined contributions of its records. The records may come in
/// any order. A malformed record is refused, and so are records whose totals
/// an accumulator cannot hold.
pub fn aggregate<A: Accumulator>(records: &Vec<RobotMatchInfo>) -> (result: Result<
    BTreeMap<i32, A>,
    DataIntegrityError,
>)
    ensures
        match result {
            Ok(table) => aggregate_spec::<A>(records@) == Ok::<
                Map<i32, A::V>,
                DataIntegrityError,
            >(totals_in(table@)),
            Err(e) => aggregate_spec::<A>(records@) == Err::<Map<i32, A::V>, DataIntegrityError>(e),
        },
{
    if !check_records(records) {
        return Err(DataIntegrityError::NegativeCount);
    }
    let mut table: BTreeMap<i32, A> = BTreeMap::new();
    let mut i: usize = 0;
    assert(records@.take(0) == Seq::<RobotMatchInfo>::empty());
    assert(table@.dom() =~= teams_of(records@.take(0)));
    while i < records.len()
        invariant
            i <= records.len(),
            all_well_formed(records@),
            table@.dom() == teams_of(records@.take(i as int)),
            forall|team: i32| #[trigger]
                table@.contains_key(team) ==> table@[team]@ == team_totals::<A>(
                    records@.take(i as int),
                    team,
                ),
        decreases records.len() - i,
    {
        let record = &records[i];
        let team = record.team;
        let ghost seen = records@.take(i as int);
        let ghost next = records@.take(i + 1);
        proof {
            assert(next == seen.push(*record));
            lemma_team_totals_push::<A>(seen, *record, team);
            lemma_teams_of_push(seen, *record);
            if !table@.contains_key(team) {
                lemma_absent_team::<A>(seen, team);
            }
        }
        match merge_into(&mut table, team, A::from_record(record)) {
            Ok(_) => {
                proof {
                    assert(table@.dom() =~= teams_of(next));
                    assert forall|other: i32| #[trigger]
                        table@.contains_key(other) implies table@[other]@ == team_totals::<A>(
                        next,
                        other,
                    ) by {
                        lemma_team_totals_push::<A>(seen, *record, other);
                    }
                }
            },
            Err(e) => {
                proof {
                    assert(records@[i as int].team == team);
                    assert(teams_of(records@).contains(team));
                    if A::representable(team_totals::<A>(records@, team)) {
                        lemma_prefix_representable::<A>(records@, i + 1, team);
                    }
                    assert(!all_representable::<A>(records@));
                }
                return Err(e);
            },
        }
        i += 1;
    }
    proof {
        assert(records@.take(i as int) == records@);
        assert forall|team: i32| #[trigger] teams_of(records@).contains(team) implies A::representable(
            team_totals::<A>(records@, team),
        ) by {
            A::lemma_view_exact(table@[team], table@[team]);
        }
        assert(totals_in(table@) =~= totals_by_team::<A>(records@));
    }
    Ok(table)
}

} // verus!

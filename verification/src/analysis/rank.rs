//! The ranker: teams in ascending order of their metric.
//!
//! Teams whose metrics are level stand in ascending order of team number. A
//! metric without a value (a ratio with denominator zero) is level with every
//! other such metric and below every metric that has a value, so a team
//! without data is ranked like any other and never stops the ranking.

use std::collections::BTreeMap;
use vstd::prelude::*;
use vstd::std_specs::cmp::OrdSpec;
use vstd::seq_lib::{to_multiset_build, to_multiset_contains, to_multiset_insert, to_multiset_len};
use vstd::std_specs::iter::IteratorSpec;
use crate::analysis::accumulator::{Accumulator, DataIntegrityError};
use crate::analysis::aggregate::{aggregate, totals_in};
use crate::analysis::fold::{aggregate_spec, lemma_aggregate_order_independent};
use crate::models::RobotMatchInfo;
use crate::ratio::{Ratio, Standing};

verus! {

/// `x` is ranked before `y`: its metric is lower, or the metrics are level
/// and its team number is lower.
pub open spec fn precedes<A: Accumulator>(x: (i32, A), y: (i32, A)) -> bool {
    let mx = x.1.metric_spec();
    let my = y.1.metric_spec();
    mx.below(my) || (mx.level(my) && x.0 < y.0)
}

/// Each entry is ranked before every entry that follows it.
pub open spec fn is_ranked<A: Accumulator>(entries: Seq<(i32, A)>) -> bool {
    forall|i: int, j: int| 0 <= i < j < entries.len() ==> precedes(entries[i], entries[j])
}

/// The entries are those of the table: each entry is a team of the table
/// with its accumulator, and each team of the table has an entry.
pub open spec fn lists_table<A>(entries: Seq<(i32, A)>, table: Map<i32, A>) -> bool {
    &&& forall|i: int|
        0 <= i < entries.len() ==> table.contains_key(#[trigger] entries[i].0) && table[entries[i].0]
            == entries[i].1
    &&& forall|team: i32| #[trigger]
        table.contains_key(team) ==> exists|i: int|
            0 <= i < entries.len() && #[trigger] entries[i].0 == team
}

/// The entries stand in ascending order of team number, no team twice.
pub open spec fn ascending_teams<A>(entries: Seq<(i32, A)>) -> bool {
    forall|i: int, j: int| 0 <= i < j < entries.len() ==> entries[i].0 < entries[j].0
}

/// Of two entries of different teams exactly one is ranked before the other.
pub proof fn lemma_precedes_total<A: Accumulator>(x: (i32, A), y: (i32, A))
    requires
        x.0 != y.0,
    ensures
        precedes(x, y) != precedes(y, x),
{
    x.1.metric_spec().lemma_trichotomy(y.1.metric_spec());
}

/// Being ranked before is transitive.
pub proof fn lemma_precedes_transitive<A: Accumulator>(x: (i32, A), y: (i32, A), z: (i32, A))
    requires
        precedes(x, y),
        precedes(y, z),
    ensures
        precedes(x, z),
{
    x.1.metric_spec().lemma_transitive(y.1.metric_spec(), z.1.metric_spec());
}

/// No entry is ranked before itself, and no two entries are each ranked
/// before the other.
pub proof fn lemma_precedes_asymmetric<A: Accumulator>(x: (i32, A), y: (i32, A))
    ensures
        !(precedes(x, y) && precedes(y, x)),
        !precedes(x, x),
{
    x.1.metric_spec().lemma_trichotomy(y.1.metric_spec());
    x.1.metric_spec().lemma_trichotomy(x.1.metric_spec());
}

/// Teams whose metrics are level stand in ascending order of team number.
/// This holds of two teams with the same value, and of two teams without a
/// value.
pub proof fn lemma_ties_keep_team_order<A: Accumulator>(ranked: Seq<(i32, A)>, i: int, j: int)
    requires
        is_ranked(ranked),
        0 <= i < j < ranked.len(),
        ranked[i].1.metric_spec().level(ranked[j].1.metric_spec()),
    ensures
        ranked[i].0 < ranked[j].0,
{
    assert(precedes(ranked[i], ranked[j]));
    ranked[i].1.metric_spec().lemma_trichotomy(ranked[j].1.metric_spec());
}

/// A team whose metric has no value is ranked before every team whose
/// metric has one.
pub proof fn lemma_valueless_ranked_first<A: Accumulator>(ranked: Seq<(i32, A)>, i: int, j: int)
    requires
        is_ranked(ranked),
        0 <= i < ranked.len(),
        0 <= j < ranked.len(),
        !ranked[i].1.metric_spec().defined(),
        ranked[j].1.metric_spec().defined(),
    ensures
        i < j,
{
    if j < i {
        assert(precedes(ranked[j], ranked[i]));
    }
}

/// Two rankings of one table agree on their first `len` entries.
proof fn lemma_rankings_agree<A: Accumulator>(
    first: Seq<(i32, A)>,
    second: Seq<(i32, A)>,
    table: Map<i32, A>,
    len: int,
)
    requires
        is_ranked(first),
        lists_table(first, table),
        is_ranked(second),
        lists_table(second, table),
        0 <= len <= first.len(),
    ensures
        len <= second.len(),
        forall|i: int| 0 <= i < len ==> first[i] == second[i],
    decreases len,
{
    if len > 0 {
        let k = len - 1;
        lemma_rankings_agree(first, second, table, k);
        let x = first[k];
        assert(table.contains_key(first[k].0));
        let j = choose|j: int| 0 <= j < second.len() && #[trigger] second[j].0 == x.0;
        assert(second[j] == x) by {
            assert(table[second[j].0] == second[j].1);
        }
        if j < k {
            assert(precedes(first[j], first[k]));
            lemma_precedes_asymmetric(x, x);
        }
        let y = second[k];
        assert(table.contains_key(second[k].0));
        let h = choose|h: int| 0 <= h < first.len() && #[trigger] first[h].0 == y.0;
        assert(first[h] == y) by {
            assert(table[first[h].0] == first[h].1);
        }
        if h < k {
            assert(precedes(second[h], second[k]));
            lemma_precedes_asymmetric(y, y);
        }
        if j > k && h > k {
            assert(precedes(second[k], second[j]));
            assert(precedes(first[k], first[h]));
            lemma_precedes_asymmetric(x, y);
        }
    }
}

/// A table has one ranking only: two sequences that both rank it are equal.
pub proof fn lemma_ranking_unique<A: Accumulator>(
    first: Seq<(i32, A)>,
    second: Seq<(i32, A)>,
    table: Map<i32, A>,
)
    requires
        is_ranked(first),
        lists_table(first, table),
        is_ranked(second),
        lists_table(second, table),
    ensures
        first == second,
{
    lemma_rankings_agree(first, second, table, first.len() as int);
    lemma_rankings_agree(second, first, table, second.len() as int);
    assert(first =~= second);
}

/// Tests whether `x` is ranked before `y`.
pub fn ranks_before<A: Accumulator>(x: &(i32, A), y: &(i32, A)) -> (b: bool)
    ensures
        b == precedes(*x, *y),
{
    let mx: Ratio = x.1.metric();
    let my: Ratio = y.1.metric();
    match mx.compare(&my) {
        Standing::Below => true,
        Standing::Level => x.0 < y.0,
        Standing::Above => {
            proof {
                mx.lemma_trichotomy(my);
            }
            false
        },
    }
}

/// Puts `entry` into a ranking, at the one place that keeps it a ranking.
pub fn insert_ranked<A: Accumulator>(ranked: &mut Vec<(i32, A)>, entry: (i32, A))
    requires
        is_ranked(old(ranked)@),
        forall|i: int| 0 <= i < old(ranked)@.len() ==> (#[trigger] old(ranked)@[i]).0 != entry.0,
    ensures
        is_ranked(final(ranked)@),
        final(ranked)@.to_multiset() == old(ranked)@.to_multiset().insert(entry),
{
    let mut at: usize = ranked.len();
    while at > 0 && ranks_before(&entry, &ranked[at - 1])
        invariant
            at <= ranked.len(),
            forall|i: int| at <= i < ranked@.len() ==> precedes(entry, #[trigger] ranked@[i]),
        decreases at,
    {
        at -= 1;
    }
    proof {
        let before = ranked@;
        let after = before.insert(at as int, entry);
        if at > 0 {
            lemma_precedes_total(entry, before[at - 1]);
        }
        assert forall|i: int, j: int| 0 <= i < j < after.len() implies precedes(
            after[i],
            after[j],
        ) by {
            if j < at {
                assert(after[i] == before[i] && after[j] == before[j]);
            } else if j == at {
                assert(after[i] == before[i]);
                if i < at - 1 {
                    lemma_precedes_transitive(before[i], before[at - 1], entry);
                }
            } else if i < at {
                assert(after[i] == before[i] && after[j] == before[j - 1]);
            } else if i == at {
                assert(after[j] == before[j - 1]);
            } else {
                assert(after[i] == before[i - 1] && after[j] == before[j - 1]);
            }
        }
        to_multiset_insert(before, at as int, entry);
    }
    ranked.insert(at, entry);
}

/// Entries that list a table still list it when they are put in another order.
proof fn lemma_same_entries<A>(entries: Seq<(i32, A)>, shuffled: Seq<(i32, A)>, table: Map<i32, A>)
    requires
        lists_table(entries, table),
        entries.to_multiset() == shuffled.to_multiset(),
    ensures
        lists_table(shuffled, table),
{
    assert forall|at: int| 0 <= at < shuffled.len() implies table.contains_key(
        #[trigger] shuffled[at].0,
    ) && table[shuffled[at].0] == shuffled[at].1 by {
        assert(shuffled.contains(shuffled[at]));
        to_multiset_contains(shuffled, shuffled[at]);
        to_multiset_contains(entries, shuffled[at]);
        let i = choose|i: int| 0 <= i < entries.len() && entries[i] == shuffled[at];
        assert(table.contains_key(entries[i].0));
    }
    assert forall|team: i32| #[trigger] table.contains_key(team) implies exists|at: int|
        0 <= at < shuffled.len() && #[trigger] shuffled[at].0 == team by {
        let i = choose|i: int| 0 <= i < entries.len() && #[trigger] entries[i].0 == team;
        assert(entries.contains(entries[i]));
        to_multiset_contains(entries, entries[i]);
        to_multiset_contains(shuffled, entries[i]);
        let at = choose|at: int| 0 <= at < shuffled.len() && shuffled[at] == entries[i];
        assert(shuffled[at].0 == team);
    }
}

/// The entries of a table in ascending order of team number.
pub fn entries_of<A: Accumulator>(table: &BTreeMap<i32, A>) -> (entries: Vec<(i32, A)>)
    ensures
        lists_table(entries@, table@),
        ascending_teams(entries@),
        entries@.len() == table@.len(),
{
    let mut entries: Vec<(i32, A)> = Vec::new();
    let ghost seen = table.iter().remaining();
    for pair in it: table.iter()
        invariant
            it.seq() == seen,
            vstd::std_specs::btree::increasing_seq(seen.map_values(|kv: (&i32, &A)| *kv.0)),
            entries@.len() == it.index(),
            forall|i: int|
                0 <= i < entries@.len() ==> (#[trigger] entries@[i]).0 == *it.seq()[i].0
                    && entries@[i].1 == *it.seq()[i].1,
    {
        let (team, acc) = pair;
        entries.push((*team, *acc));
    }
    proof {
        assert forall|team: i32| #[trigger] table@.contains_key(team) implies exists|i: int|
            0 <= i < entries@.len() && #[trigger] entries@[i].0 == team by {
            assert(seen.contains((&team, &table@[team])));
            let i = choose|i: int| 0 <= i < seen.len() && seen[i] == (&team, &table@[team]);
            assert(entries@[i].0 == team);
        }
        let teams = seen.map_values(|kv: (&i32, &A)| *kv.0);
        assert forall|i: int, j: int| 0 <= i < j < entries@.len() implies entries@[i].0
            < entries@[j].0 by {
            assert(teams[i] == entries@[i].0);
            assert(teams[j] == entries@[j].0);
            assert(teams[i].cmp_spec(&teams[j]) is Less);
        }
    }
    entries
}

/// Ranks the teams of a table: ascending by metric, and by team number
/// where metrics are level.
///
/// The result lists every team of the table once, with its accumulator, and
/// no ranking of the table other than this one exists.
pub fn rank<A: Accumulator>(table: &BTreeMap<i32, A>) -> (ranked: Vec<(i32, A)>)
    ensures
        lists_table(ranked@, table@),
        is_ranked(ranked@),
        ranked@.len() == table@.len(),
{
    let entries = entries_of(table);
    let mut ranked: Vec<(i32, A)> = Vec::new();
    let mut k: usize = 0;
    assert(entries@.take(0) == Seq::<(i32, A)>::empty());
    while k < entries.len()
        invariant
            k <= entries.len(),
            ascending_teams(entries@),
            is_ranked(ranked@),
            ranked@.to_multiset() == entries@.take(k as int).to_multiset(),
        decreases entries.len() - k,
    {
        let entry = entries[k];
        proof {
            let done = entries@.take(k as int);
            assert forall|at: int| 0 <= at < ranked@.len() implies (#[trigger] ranked@[at]).0
                != entry.0 by {
                assert(ranked@.contains(ranked@[at]));
                to_multiset_contains(ranked@, ranked@[at]);
                to_multiset_contains(done, ranked@[at]);
                let i = choose|i: int| 0 <= i < done.len() && done[i] == ranked@[at];
                assert(entries@[i].0 < entries@[k as int].0);
            }
            assert(entries@.take(k + 1) == done.push(entry));
            to_multiset_build(done, entry);
        }
        insert_ranked(&mut ranked, entry);
        k += 1;
    }
    proof {
        assert(entries@.take(k as int) == entries@);
        lemma_same_entries(entries@, ranked@, table@);
        to_multiset_len(entries@);
        to_multiset_len(ranked@);
    }
    ranked
}

/// The ranking is the ranking of these totals: it lists each team that has
/// totals once, with an accumulator that holds them, in ranked order.
pub open spec fn ranks_totals<A: Accumulator>(ranked: Seq<(i32, A)>, totals: Map<i32, A::V>) -> bool {
    &&& is_ranked(ranked)
    &&& ranked.len() == totals.len()
    &&& forall|i: int|
        0 <= i < ranked.len() ==> totals.contains_key(#[trigger] ranked[i].0) && totals[ranked[i].0]
            == ranked[i].1@
    &&& forall|team: i32| #[trigger]
        totals.contains_key(team) ==> exists|i: int|
            0 <= i < ranked.len() && #[trigger] ranked[i].0 == team
}

/// A ranking of a table of accumulators is the ranking of the totals they
/// hold.
pub proof fn lemma_ranks_totals<A: Accumulator>(ranked: Seq<(i32, A)>, table: Map<i32, A>)
    requires
        is_ranked(ranked),
        lists_table(ranked, table),
        ranked.len() == table.len(),
    ensures
        ranks_totals(ranked, totals_in(table)),
{
    let totals = totals_in(table);
    assert(totals.dom() =~= table.dom());
    assert forall|i: int| 0 <= i < ranked.len() implies totals.contains_key(
        #[trigger] ranked[i].0,
    ) && totals[ranked[i].0] == ranked[i].1@ by {
        assert(table.contains_key(ranked[i].0));
    }
    assert forall|team: i32| #[trigger] totals.contains_key(team) implies exists|i: int|
        0 <= i < ranked.len() && #[trigger] ranked[i].0 == team by {
        assert(table.contains_key(team));
    }
}

/// Totals have one ranking only: two sequences that both rank them are
/// equal, entry for entry.
pub proof fn lemma_ranks_totals_unique<A: Accumulator>(
    first: Seq<(i32, A)>,
    second: Seq<(i32, A)>,
    totals: Map<i32, A::V>,
)
    requires
        ranks_totals(first, totals),
        ranks_totals(second, totals),
    ensures
        first == second,
{
    let table = Map::new(
        |team: i32| totals.contains_key(team),
        |team: i32| choose|acc: A| acc@ == totals[team],
    );
    assert(table.dom() =~= totals.dom());
    lemma_lists_table(first, totals, table);
    lemma_lists_table(second, totals, table);
    lemma_ranking_unique(first, second, table);
}

/// The ranking does not depend on the order of the records: the same records
/// in another order have the same ranking.
pub proof fn lemma_ranking_order_independent<A: Accumulator>(
    records: Seq<RobotMatchInfo>,
    shuffled: Seq<RobotMatchInfo>,
    first: Seq<(i32, A)>,
    second: Seq<(i32, A)>,
)
    requires
        records.to_multiset() == shuffled.to_multiset(),
        aggregate_spec::<A>(records) matches Ok(totals) && ranks_totals(first, totals),
        aggregate_spec::<A>(shuffled) matches Ok(totals) && ranks_totals(second, totals),
    ensures
        first == second,
{
    lemma_aggregate_order_independent::<A>(records, shuffled);
    lemma_ranks_totals_unique(first, second, aggregate_spec::<A>(records)->Ok_0);
}

/// Entries that hold given totals list the table that holds, for each team,
/// the accumulator of those totals.
proof fn lemma_lists_table<A: Accumulator>(
    ranked: Seq<(i32, A)>,
    totals: Map<i32, A::V>,
    table: Map<i32, A>,
)
    requires
        ranks_totals(ranked, totals),
        table.dom() == totals.dom(),
        forall|team: i32| totals.contains_key(team) ==> table[team] == choose|acc: A|
            acc@ == totals[team],
    ensures
        lists_table(ranked, table),
{
    assert forall|i: int| 0 <= i < ranked.len() implies table.contains_key(
        #[trigger] ranked[i].0,
    ) && table[ranked[i].0] == ranked[i].1 by {
        let team = ranked[i].0;
        assert(totals.contains_key(team));
        assert(table.dom().contains(team));
        assert(ranked[i].1@ == totals[team]);
        A::lemma_view_exact(table[team], ranked[i].1);
    }
    assert forall|team: i32| #[trigger] table.contains_key(team) implies exists|i: int|
        0 <= i < ranked.len() && #[trigger] ranked[i].0 == team by {
        assert(table.dom().contains(team));
        assert(totals.contains_key(team));
    }
}

/// Aggregates the records and ranks the teams by the statistic's metric.
///
/// The records are refused exactly when aggregating them is; otherwise the
/// result is the ranking of the totals that aggregating them gives.
pub fn rank_records<A: Accumulator>(infos: &Vec<RobotMatchInfo>) -> (result: Result<
    Vec<(i32, A)>,
    DataIntegrityError,
>)
    ensures
        match result {
            Ok(ranked) => aggregate_spec::<A>(infos@) matches Ok(totals) && ranks_totals(
                ranked@,
                totals,
            ),
            Err(e) => aggregate_spec::<A>(infos@) == Err::<Map<i32, A::V>, DataIntegrityError>(e),
        },
{
    match aggregate::<A>(infos) {
        Ok(table) => {
            let ranked = rank(&table);
            proof {
                lemma_ranks_totals(ranked@, table@);
            }
            Ok(ranked)
        },
        Err(e) => Err(e),
    }
}

} // verus!

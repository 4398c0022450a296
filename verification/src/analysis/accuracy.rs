//! Teleop accuracy: points scored against points that missed shots would
//! have scored.

use vstd::prelude::*;
use crate::analysis::accumulator::{Accumulator, DataIntegrityError};
use crate::analysis::fold::{aggregate_spec, lemma_records_of_push, records_of, sum_of, team_totals};
use crate::analysis::label::{decimal, team_label};
use crate::analysis::rank::{rank_records, ranks_totals};
use crate::analysis::series::{labels_of, team_labels, texts};
use crate::models::RobotMatchInfo;
use crate::ratio::Ratio;
use crate::scoring::{shot_points, TELEOP_HIGH_POINTS, TELEOP_LOW_POINTS};

verus! {

/// A team's accuracy totals as plain numbers.
pub struct AccuracyTotals {
    pub points: nat,
    pub missed_points: nat,
}

/// A team's teleop shots over the matches counted so far, weighted as points.
#[derive(Clone, Copy, Debug, PartialEq, Eq, Structural)]
pub struct AccuracyInfo {
    pub points: u64,
    pub missed_points: u64,
}

impl View for AccuracyInfo {
    type V = AccuracyTotals;

    open spec fn view(&self) -> AccuracyTotals {
        AccuracyTotals { points: self.points as nat, missed_points: self.missed_points as nat }
    }
}

/// Points that the teleop shots made in one record scored.
pub open spec fn scored_points_of(record: RobotMatchInfo) -> nat {
    (record.teleop_high_made * TELEOP_HIGH_POINTS + record.teleop_low_made * TELEOP_LOW_POINTS) as nat
}

/// Points that the teleop shots missed in one record would have scored.
pub open spec fn missed_points_of(record: RobotMatchInfo) -> nat {
    (record.teleop_high_missed * TELEOP_HIGH_POINTS + record.teleop_low_missed
        * TELEOP_LOW_POINTS) as nat
}

impl Accumulator for AccuracyInfo {
    open spec fn zero() -> AccuracyTotals {
        AccuracyTotals { points: 0, missed_points: 0 }
    }

    open spec fn contribution(record: RobotMatchInfo) -> AccuracyTotals {
        AccuracyTotals {
            points: scored_points_of(record),
            missed_points: missed_points_of(record),
        }
    }

    open spec fn combine(a: AccuracyTotals, b: AccuracyTotals) -> AccuracyTotals {
        AccuracyTotals {
            points: a.points + b.points,
            missed_points: a.missed_points + b.missed_points,
        }
    }

    open spec fn representable(totals: AccuracyTotals) -> bool {
        &&& totals.points <= u64::MAX
        &&& totals.missed_points <= u64::MAX
    }

    open spec fn metric_spec(&self) -> Ratio {
        self.accuracy_spec()
    }

    proof fn lemma_combine_commutative(a: AccuracyTotals, b: AccuracyTotals) {
    }

    proof fn lemma_combine_associative(a: AccuracyTotals, b: AccuracyTotals, c: AccuracyTotals) {
    }

    proof fn lemma_zero_neutral(a: AccuracyTotals) {
    }

    proof fn lemma_representable_parts(a: AccuracyTotals, b: AccuracyTotals) {
    }

    proof fn lemma_view_exact(x: AccuracyInfo, y: AccuracyInfo) {
    }

    fn empty() -> (acc: AccuracyInfo) {
        AccuracyInfo { points: 0, missed_points: 0 }
    }

    fn from_record(record: &RobotMatchInfo) -> (acc: AccuracyInfo) {
        AccuracyInfo {
            points: shot_points(record.teleop_high_made, TELEOP_HIGH_POINTS) + shot_points(
                record.teleop_low_made,
                TELEOP_LOW_POINTS,
            ),
            missed_points: shot_points(record.teleop_high_missed, TELEOP_HIGH_POINTS)
                + shot_points(record.teleop_low_missed, TELEOP_LOW_POINTS),
        }
    }

    fn checked_add(&self, rhs: &AccuracyInfo) -> (sum: Option<AccuracyInfo>) {
        let points = self.points.checked_add(rhs.points);
        let missed_points = self.missed_points.checked_add(rhs.missed_points);
        match (points, missed_points) {
            (Some(points), Some(missed_points)) => Some(AccuracyInfo { points, missed_points }),
            _ => None,
        }
    }

    fn metric(&self) -> (m: Ratio) {
        self.accuracy()
    }
}

impl Default for AccuracyInfo {
    fn default() -> (acc: AccuracyInfo)
        ensures
            acc@ == AccuracyInfo::zero(),
    {
        AccuracyInfo::empty()
    }
}

impl AccuracyInfo {
    /// Points scored out of the points all shots stood for.
    pub open spec fn accuracy_spec(&self) -> Ratio {
        Ratio { num: self.points as u128, den: (self.points + self.missed_points) as u128 }
    }

    /// Points scored out of the points all shots stood for. It has no value
    /// for a team without a teleop shot, and lies between 0 and 1 otherwise.
    pub fn accuracy(&self) -> (a: Ratio)
        ensures
            a == self.accuracy_spec(),
            a.defined() <==> self.points + self.missed_points > 0,
            a.defined() ==> a.is_proportion(),
    {
        Ratio { num: self.points as u128, den: self.points as u128 + self.missed_points as u128 }
    }

    /// Adds the shots of `rhs` to `self`.
    pub fn add_assign(&mut self, rhs: AccuracyInfo)
        requires
            AccuracyInfo::representable(AccuracyInfo::combine(old(self)@, rhs@)),
        ensures
            final(self)@ == AccuracyInfo::combine(old(self)@, rhs@),
    {
        self.points += rhs.points;
        self.missed_points += rhs.missed_points;
    }
}

/// A team's totals are exactly what its records add up to: the points its
/// made shots scored, and the points its missed shots would have scored.
pub proof fn lemma_accuracy_totals(records: Seq<RobotMatchInfo>, team: i32)
    ensures
        ({
            let own = records_of(records, team);
            let totals = team_totals::<AccuracyInfo>(records, team);
            &&& totals.points == sum_of(own, |record: RobotMatchInfo| scored_points_of(record))
            &&& totals.missed_points == sum_of(
                own,
                |record: RobotMatchInfo| missed_points_of(record),
            )
        }),
    decreases records.len(),
{
    if records.len() == 0 {
        assert(records_of(records, team) == Seq::<RobotMatchInfo>::empty()) by {
            reveal(Seq::filter);
        }
    } else {
        let shorter = records.drop_last();
        let last = records.last();
        assert(records == shorter.push(last));
        lemma_accuracy_totals(shorter, team);
        lemma_records_of_push(shorter, last, team);
        if last.team == team {
            assert(records_of(records, team).drop_last() == records_of(shorter, team));
        }
    }
}

/// The plain values of each bar of the accuracy chart.
pub open spec fn accuracy_bars_view(bars: Seq<(String, Ratio)>) -> Seq<(Seq<char>, Ratio)> {
    bars.map_values(|bar: (String, Ratio)| (bar.0@, bar.1))
}

/// The bars of the accuracy chart: one bar for each team, its accuracy, in
/// ranked order.
pub open spec fn accuracy_bars_spec(ranked: Seq<(i32, AccuracyInfo)>) -> Seq<(Seq<char>, Ratio)> {
    ranked.map_values(|entry: (i32, AccuracyInfo)| (decimal(entry.0 as int), entry.1.accuracy_spec()))
}

/// The bars of the accuracy chart for a ranking.
pub fn accuracy_bars(ranked: &Vec<(i32, AccuracyInfo)>) -> (bar_data: Vec<(String, Ratio)>)
    ensures
        accuracy_bars_view(bar_data@) == accuracy_bars_spec(ranked@),
{
    let mut bar_data: Vec<(String, Ratio)> = Vec::new();
    let mut i: usize = 0;
    assert(accuracy_bars_view(bar_data@) =~= accuracy_bars_spec(ranked@.take(0)));
    while i < ranked.len()
        invariant
            i <= ranked.len(),
            accuracy_bars_view(bar_data@) == accuracy_bars_spec(ranked@.take(i as int)),
        decreases ranked.len() - i,
    {
        let bar = (team_label(ranked[i].0), ranked[i].1.accuracy());
        proof {
            let done = ranked@.take(i as int);
            assert(ranked@.take(i + 1) == done.push(ranked@[i as int]));
            assert(accuracy_bars_view(bar_data@.push(bar)) =~= accuracy_bars_view(bar_data@).push(
                (bar.0@, bar.1),
            ));
            assert(accuracy_bars_spec(done.push(ranked@[i as int])) =~= accuracy_bars_spec(
                done,
            ).push((decimal(ranked@[i as int].0 as int), ranked@[i as int].1.accuracy_spec())));
        }
        bar_data.push(bar);
        i += 1;
    }
    assert(ranked@.take(i as int) == ranked@);
    bar_data
}

/// All that the accuracy chart is drawn from.
pub struct AccuracyChart {
    /// The teams with their totals, in ranked order.
    pub ranking: Vec<(i32, AccuracyInfo)>,
    /// The horizontal axis: the team labels in ranked order.
    pub teams: Vec<String>,
    /// The bars: team label and accuracy.
    pub bar_data: Vec<(String, Ratio)>,
}

impl AccuracyChart {
    /// The chart shows these totals: its ranking is theirs, and its axis and
    /// bars are those of its ranking.
    pub open spec fn shows(&self, totals: Map<i32, AccuracyTotals>) -> bool {
        &&& ranks_totals(self.ranking@, totals)
        &&& texts(self.teams@) == labels_of(self.ranking@)
        &&& accuracy_bars_view(self.bar_data@) == accuracy_bars_spec(self.ranking@)
    }
}

/// The accuracy chart of a set of records: teams ranked by their teleop
/// accuracy, each shown with it.
pub fn get_accuracy_chart(infos: &Vec<RobotMatchInfo>) -> (result: Result<
    AccuracyChart,
    DataIntegrityError,
>)
    ensures
        match result {
            Ok(chart) => aggregate_spec::<AccuracyInfo>(infos@) matches Ok(totals) && chart.shows(
                totals,
            ),
            Err(e) => aggregate_spec::<AccuracyInfo>(infos@) == Err::<
                Map<i32, AccuracyTotals>,
                DataIntegrityError,
            >(e),
        },
{
    match rank_records::<AccuracyInfo>(infos) {
        Ok(ranking) => {
            let teams = team_labels(&ranking);
            let bar_data = accuracy_bars(&ranking);
            Ok(AccuracyChart { ranking, teams, bar_data })
        },
        Err(e) => Err(e),
    }
}

} // verus!

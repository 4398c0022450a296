//! Climb outcomes: how often each end-game outcome occurred.

use vstd::prelude::*;
use vstd::string::*;
use crate::analysis::accumulator::{Accumulator, DataIntegrityError};
use crate::analysis::fold::{
    aggregate_spec, lemma_records_of_push, lemma_team_has_record, records_of, team_totals,
    teams_of,
};
use crate::analysis::label::{decimal, team_label};
use crate::analysis::rank::{rank_records, ranks_totals};
use crate::analysis::series::{
    bars_view, labels_of, lemma_bars_view_push, team_labels, texts, BarView,
};
use crate::models::RobotMatchInfo;
use crate::ratio::Ratio;
use crate::schema::Climb;
use crate::scoring::{
    HIGH_CLIMB_POINTS, LOW_CLIMB_POINTS, MID_CLIMB_POINTS, TRAVERSAL_CLIMB_POINTS,
};

verus! {

/// A team's climb counts as plain numbers.
pub struct ClimbTotals {
    pub no_attempts: nat,
    pub fails: nat,
    pub low_climbs: nat,
    pub mid_climbs: nat,
    pub high_climbs: nat,
    pub traverse_climbs: nat,
}

/// How often each climb outcome occurred over the matches counted so far.
#[derive(Clone, Copy, Debug, PartialEq, Eq, Structural)]
pub struct ClimbInfo {
    pub no_attempts: u64,
    pub fails: u64,
    pub low_climbs: u64,
    pub mid_climbs: u64,
    pub high_climbs: u64,
    pub traverse_climbs: u64,
}

impl View for ClimbInfo {
    type V = ClimbTotals;

    open spec fn view(&self) -> ClimbTotals {
        ClimbTotals {
            no_attempts: self.no_attempts as nat,
            fails: self.fails as nat,
            low_climbs: self.low_climbs as nat,
            mid_climbs: self.mid_climbs as nat,
            high_climbs: self.high_climbs as nat,
            traverse_climbs: self.traverse_climbs as nat,
        }
    }
}

/// 1 if the two outcomes are the same, 0 if not.
pub open spec fn one_if(outcome: Climb, counted: Climb) -> nat {
    if outcome == counted {
        1
    } else {
        0
    }
}

impl Accumulator for ClimbInfo {
    open spec fn zero() -> ClimbTotals {
        ClimbTotals {
            no_attempts: 0,
            fails: 0,
            low_climbs: 0,
            mid_climbs: 0,
            high_climbs: 0,
            traverse_climbs: 0,
        }
    }

    open spec fn contribution(record: RobotMatchInfo) -> ClimbTotals {
        ClimbTotals {
            no_attempts: one_if(record.climb, Climb::No),
            fails: one_if(record.climb, Climb::Failed),
            low_climbs: one_if(record.climb, Climb::Low),
            mid_climbs: one_if(record.climb, Climb::Mid),
            high_climbs: one_if(record.climb, Climb::High),
            traverse_climbs: one_if(record.climb, Climb::Traversal),
        }
    }

    open spec fn combine(a: ClimbTotals, b: ClimbTotals) -> ClimbTotals {
        ClimbTotals {
            no_attempts: a.no_attempts + b.no_attempts,
            fails: a.fails + b.fails,
            low_climbs: a.low_climbs + b.low_climbs,
            mid_climbs: a.mid_climbs + b.mid_climbs,
            high_climbs: a.high_climbs + b.high_climbs,
            traverse_climbs: a.traverse_climbs + b.traverse_climbs,
        }
    }

    open spec fn representable(totals: ClimbTotals) -> bool {
        &&& totals.no_attempts <= u64::MAX
        &&& totals.fails <= u64::MAX
        &&& totals.low_climbs <= u64::MAX
        &&& totals.mid_climbs <= u64::MAX
        &&& totals.high_climbs <= u64::MAX
        &&& totals.traverse_climbs <= u64::MAX
    }

    open spec fn metric_spec(&self) -> Ratio {
        self.mean_points_spec()
    }

    proof fn lemma_combine_commutative(a: ClimbTotals, b: ClimbTotals) {
    }

    proof fn lemma_combine_associative(a: ClimbTotals, b: ClimbTotals, c: ClimbTotals) {
    }

    proof fn lemma_zero_neutral(a: ClimbTotals) {
    }

    proof fn lemma_representable_parts(a: ClimbTotals, b: ClimbTotals) {
    }

    proof fn lemma_view_exact(x: ClimbInfo, y: ClimbInfo) {
    }

    fn empty() -> (acc: ClimbInfo) {
        ClimbInfo {
            no_attempts: 0,
            fails: 0,
            low_climbs: 0,
            mid_climbs: 0,
            high_climbs: 0,
            traverse_climbs: 0,
        }
    }

    fn from_record(record: &RobotMatchInfo) -> (acc: ClimbInfo) {
        ClimbInfo {
            no_attempts: count_if(record.climb, Climb::No),
            fails: count_if(record.climb, Climb::Failed),
            low_climbs: count_if(record.climb, Climb::Low),
            mid_climbs: count_if(record.climb, Climb::Mid),
            high_climbs: count_if(record.climb, Climb::High),
            traverse_climbs: count_if(record.climb, Climb::Traversal),
        }
    }

    fn checked_add(&self, rhs: &ClimbInfo) -> (sum: Option<ClimbInfo>) {
        let no_attempts = self.no_attempts.checked_add(rhs.no_attempts);
        let fails = self.fails.checked_add(rhs.fails);
        let low_climbs = self.low_climbs.checked_add(rhs.low_climbs);
        let mid_climbs = self.mid_climbs.checked_add(rhs.mid_climbs);
        let high_climbs = self.high_climbs.checked_add(rhs.high_climbs);
        let traverse_climbs = self.traverse_climbs.checked_add(rhs.traverse_climbs);
        match (no_attempts, fails, low_climbs, mid_climbs, high_climbs, traverse_climbs) {
            (
                Some(no_attempts),
                Some(fails),
                Some(low_climbs),
                Some(mid_climbs),
                Some(high_climbs),
                Some(traverse_climbs),
            ) => Some(
                ClimbInfo {
                    no_attempts,
                    fails,
                    low_climbs,
                    mid_climbs,
                    high_climbs,
                    traverse_climbs,
                },
            ),
            _ => None,
        }
    }

    fn metric(&self) -> (m: Ratio) {
        self.mean_points()
    }
}

/// The points of `count` climbs that score `points` each.
fn weighted(count: u64, points: u64) -> (product: u128)
    requires
        points <= TRAVERSAL_CLIMB_POINTS,
    ensures
        product == count * points,
        product <= u64::MAX * TRAVERSAL_CLIMB_POINTS,
{
    assert(count * points <= u64::MAX * TRAVERSAL_CLIMB_POINTS) by (nonlinear_arith)
        requires
            count <= u64::MAX,
            points <= TRAVERSAL_CLIMB_POINTS,
    ;
    count as u128 * points as u128
}

/// 1 if the two outcomes are the same, 0 if not.
fn count_if(outcome: Climb, counted: Climb) -> (n: u64)
    ensures
        n == one_if(outcome, counted),
{
    if outcome == counted {
        1
    } else {
        0
    }
}

impl Default for ClimbInfo {
    fn default() -> (acc: ClimbInfo)
        ensures
            acc@ == ClimbInfo::zero(),
    {
        ClimbInfo::empty()
    }
}

impl ClimbInfo {
    /// How often `outcome` occurred.
    pub open spec fn count_spec(&self, outcome: Climb) -> nat {
        match outcome {
            Climb::No => self.no_attempts as nat,
            Climb::Failed => self.fails as nat,
            Climb::Low => self.low_climbs as nat,
            Climb::Mid => self.mid_climbs as nat,
            Climb::High => self.high_climbs as nat,
            Climb::Traversal => self.traverse_climbs as nat,
        }
    }

    /// The number of matches counted: all six outcomes together.
    pub open spec fn total_spec(&self) -> nat {
        (self.no_attempts + self.fails + self.low_climbs + self.mid_climbs + self.high_climbs
            + self.traverse_climbs) as nat
    }

    /// The climb points of all counted matches together.
    pub open spec fn points_spec(&self) -> nat {
        (self.low_climbs * LOW_CLIMB_POINTS + self.mid_climbs * MID_CLIMB_POINTS + self.high_climbs
            * HIGH_CLIMB_POINTS + self.traverse_climbs * TRAVERSAL_CLIMB_POINTS) as nat
    }

    /// Climb points per match.
    pub open spec fn mean_points_spec(&self) -> Ratio {
        Ratio { num: self.points_spec() as u128, den: self.total_spec() as u128 }
    }

    /// The share of matches that ended in `outcome`.
    pub open spec fn proportion_spec(&self, outcome: Climb) -> Ratio {
        Ratio { num: self.count_spec(outcome) as u128, den: self.total_spec() as u128 }
    }

    /// How often `outcome` occurred.
    pub fn count(&self, outcome: Climb) -> (n: u64)
        ensures
            n == self.count_spec(outcome),
    {
        match outcome {
            Climb::No => self.no_attempts,
            Climb::Failed => self.fails,
            Climb::Low => self.low_climbs,
            Climb::Mid => self.mid_climbs,
            Climb::High => self.high_climbs,
            Climb::Traversal => self.traverse_climbs,
        }
    }

    /// The number of matches counted: all six outcomes together.
    pub fn total(&self) -> (t: u128)
        ensures
            t == self.total_spec(),
    {
        self.no_attempts as u128 + self.fails as u128 + self.low_climbs as u128
            + self.mid_climbs as u128 + self.high_climbs as u128 + self.traverse_climbs as u128
    }

    /// Climb points per match. It has no value for a team without a match.
    pub fn mean_points(&self) -> (m: Ratio)
        ensures
            m == self.mean_points_spec(),
    {
        let low: u128 = weighted(self.low_climbs, LOW_CLIMB_POINTS);
        let mid: u128 = weighted(self.mid_climbs, MID_CLIMB_POINTS);
        let high: u128 = weighted(self.high_climbs, HIGH_CLIMB_POINTS);
        let traverse: u128 = weighted(self.traverse_climbs, TRAVERSAL_CLIMB_POINTS);
        Ratio { num: low + mid + high + traverse, den: self.total() }
    }

    /// The share of matches that ended in `outcome`. It has no value for a
    /// team without a match, and lies between 0 and 1 otherwise.
    pub fn proportion(&self, outcome: Climb) -> (p: Ratio)
        ensures
            p == self.proportion_spec(outcome),
            p.defined() ==> p.is_proportion(),
    {
        Ratio { num: self.count(outcome) as u128, den: self.total() }
    }

    /// Adds the counts of `rhs` to `self`.
    pub fn add_assign(&mut self, rhs: ClimbInfo)
        requires
            ClimbInfo::representable(ClimbInfo::combine(old(self)@, rhs@)),
        ensures
            final(self)@ == ClimbInfo::combine(old(self)@, rhs@),
    {
        self.no_attempts += rhs.no_attempts;
        self.fails += rhs.fails;
        self.low_climbs += rhs.low_climbs;
        self.mid_climbs += rhs.mid_climbs;
        self.high_climbs += rhs.high_climbs;
        self.traverse_climbs += rhs.traverse_climbs;
    }

    /// For a team with a match, the shares of the six outcomes sum to 1: each
    /// is a proportion of the number of matches, and the six counts add up
    /// to that number. So the five plotted shares and the share of matches
    /// without an attempt sum to 1.
    pub proof fn lemma_proportions_sum_to_one(&self)
        requires
            self.total_spec() > 0,
        ensures
            forall|outcome: Climb| #[trigger]
                self.proportion_spec(outcome).den == self.total_spec(),
            forall|outcome: Climb| #[trigger] self.proportion_spec(outcome).is_proportion(),
            self.proportion_spec(Climb::Failed).num + self.proportion_spec(Climb::Low).num
                + self.proportion_spec(Climb::Mid).num + self.proportion_spec(Climb::High).num
                + self.proportion_spec(Climb::Traversal).num + self.proportion_spec(
                Climb::No,
            ).num == self.total_spec(),
    {
    }
}

/// Of the records, those that ended in `outcome`.
pub open spec fn records_ending(records: Seq<RobotMatchInfo>, outcome: Climb) -> Seq<RobotMatchInfo> {
    records.filter(|record: RobotMatchInfo| record.climb == outcome)
}

/// A team's count of an outcome is the number of its records that ended in
/// it, and the six counts add up to the number of its records.
pub proof fn lemma_climb_totals(records: Seq<RobotMatchInfo>, team: i32)
    ensures
        ({
            let own = records_of(records, team);
            let totals = team_totals::<ClimbInfo>(records, team);
            &&& totals.no_attempts == records_ending(own, Climb::No).len()
            &&& totals.fails == records_ending(own, Climb::Failed).len()
            &&& totals.low_climbs == records_ending(own, Climb::Low).len()
            &&& totals.mid_climbs == records_ending(own, Climb::Mid).len()
            &&& totals.high_climbs == records_ending(own, Climb::High).len()
            &&& totals.traverse_climbs == records_ending(own, Climb::Traversal).len()
            &&& totals.no_attempts + totals.fails + totals.low_climbs + totals.mid_climbs
                + totals.high_climbs + totals.traverse_climbs == own.len()
        }),
    decreases records.len(),
{
    reveal(Seq::filter);
    if records.len() > 0 {
        let shorter = records.drop_last();
        let last = records.last();
        assert(records == shorter.push(last));
        lemma_climb_totals(shorter, team);
        lemma_records_of_push(shorter, last, team);
        if last.team == team {
            let own = records_of(records, team);
            assert(own.drop_last() == records_of(shorter, team));
            assert(own.last() == last);
        }
    }
}

/// An accumulator that holds a team's totals counts as many matches as the
/// team has records. If the team has a record, its mean climb points and the
/// shares of its outcomes have values.
pub proof fn lemma_climb_accumulator(records: Seq<RobotMatchInfo>, team: i32, info: ClimbInfo)
    requires
        info@ == team_totals::<ClimbInfo>(records, team),
    ensures
        info.total_spec() == records_of(records, team).len(),
        forall|outcome: Climb| #[trigger]
            info.count_spec(outcome) == records_ending(records_of(records, team), outcome).len(),
        teams_of(records).contains(team) ==> info.mean_points_spec().defined(),
        teams_of(records).contains(team) ==> forall|outcome: Climb| #[trigger]
            info.proportion_spec(outcome).is_proportion(),
{
    lemma_climb_totals(records, team);
    lemma_team_has_record(records, team);
}

/// The five bars of one team: the shares of its matches that ended in a
/// failed climb and in a climb to each of the four rungs. Matches without an
/// attempt are counted in the denominator and have no bar.
pub open spec fn team_climb_bars(entry: (i32, ClimbInfo)) -> Seq<BarView> {
    seq![
        (decimal(entry.0 as int), entry.1.proportion_spec(Climb::Failed), "Failed Climb"@),
        (decimal(entry.0 as int), entry.1.proportion_spec(Climb::Low), "Low"@),
        (decimal(entry.0 as int), entry.1.proportion_spec(Climb::Mid), "Mid"@),
        (decimal(entry.0 as int), entry.1.proportion_spec(Climb::High), "High"@),
        (decimal(entry.0 as int), entry.1.proportion_spec(Climb::Traversal), "Traverse"@),
    ]
}

/// The bars of the climb chart: the five bars of each team, team after team
/// in ranked order.
pub open spec fn climb_bars_spec(ranked: Seq<(i32, ClimbInfo)>) -> Seq<BarView>
    decreases ranked.len(),
{
    if ranked.len() == 0 {
        Seq::empty()
    } else {
        climb_bars_spec(ranked.drop_last()) + team_climb_bars(ranked.last())
    }
}

/// The bars of the climb chart for a ranking.
pub fn climb_bars(ranked: &Vec<(i32, ClimbInfo)>) -> (bar_data: Vec<(String, Ratio, String)>)
    ensures
        bars_view(bar_data@) == climb_bars_spec(ranked@),
{
    let mut bar_data: Vec<(String, Ratio, String)> = Vec::new();
    let mut i: usize = 0;
    assert(bars_view(bar_data@) =~= climb_bars_spec(ranked@.take(0)));
    while i < ranked.len()
        invariant
            i <= ranked.len(),
            bars_view(bar_data@) == climb_bars_spec(ranked@.take(i as int)),
        decreases ranked.len() - i,
    {
        let team = ranked[i].0;
        let info = ranked[i].1;
        let failed = (
            team_label(team),
            info.proportion(Climb::Failed),
            String::from_str("Failed Climb"),
        );
        let low = (team_label(team), info.proportion(Climb::Low), String::from_str("Low"));
        let mid = (team_label(team), info.proportion(Climb::Mid), String::from_str("Mid"));
        let high = (team_label(team), info.proportion(Climb::High), String::from_str("High"));
        let traverse = (
            team_label(team),
            info.proportion(Climb::Traversal),
            String::from_str("Traverse"),
        );
        proof {
            let done = ranked@.take(i as int);
            let next = ranked@.take(i + 1);
            assert(next.drop_last() == done);
            assert(next.last() == ranked@[i as int]);
            let b1 = bar_data@.push(failed);
            let b2 = b1.push(low);
            let b3 = b2.push(mid);
            let b4 = b3.push(high);
            lemma_bars_view_push(bar_data@, failed);
            lemma_bars_view_push(b1, low);
            lemma_bars_view_push(b2, mid);
            lemma_bars_view_push(b3, high);
            lemma_bars_view_push(b4, traverse);
            assert(bars_view(b4.push(traverse)) =~= bars_view(bar_data@) + team_climb_bars(
                ranked@[i as int],
            ));
        }
        bar_data.push(failed);
        bar_data.push(low);
        bar_data.push(mid);
        bar_data.push(high);
        bar_data.push(traverse);
        i += 1;
    }
    assert(ranked@.take(i as int) == ranked@);
    bar_data
}

/// All that the climb chart is drawn from.
pub struct ClimbChart {
    /// The teams with their counts, in ranked order.
    pub ranking: Vec<(i32, ClimbInfo)>,
    /// The horizontal axis: the team labels in ranked order.
    pub teams: Vec<String>,
    /// The bars: team label, share of matches, outcome.
    pub bar_data: Vec<(String, Ratio, String)>,
}

impl ClimbChart {
    /// The chart shows these totals: its ranking is theirs, and its axis and
    /// bars are those of its ranking.
    pub open spec fn shows(&self, totals: Map<i32, ClimbTotals>) -> bool {
        &&& ranks_totals(self.ranking@, totals)
        &&& texts(self.teams@) == labels_of(self.ranking@)
        &&& bars_view(self.bar_data@) == climb_bars_spec(self.ranking@)
    }
}

/// The climb chart of a set of records: teams ranked by their mean climb
/// points, each shown with the shares of its climb outcomes.
pub fn get_climb_chart(infos: &Vec<RobotMatchInfo>) -> (result: Result<
    ClimbChart,
    DataIntegrityError,
>)
    ensures
        match result {
            Ok(chart) => aggregate_spec::<ClimbInfo>(infos@) matches Ok(totals) && chart.shows(
                totals,
            ),
            Err(e) => aggregate_spec::<ClimbInfo>(infos@) == Err::<
                Map<i32, ClimbTotals>,
                DataIntegrityError,
            >(e),
        },
{
    match rank_records::<ClimbInfo>(infos) {
        Ok(ranking) => {
            let teams = team_labels(&ranking);
            let bar_data = climb_bars(&ranking);
            Ok(ClimbChart { ranking, teams, bar_data })
        },
        Err(e) => Err(e),
    }
}

} // verus!

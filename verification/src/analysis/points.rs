//! Points scored: per-team totals of autonomous, teleop and climb points.

use vstd::prelude::*;
use vstd::string::*;
use crate::analysis::accumulator::{Accumulator, DataIntegrityError};
use crate::analysis::fold::{
    aggregate_spec, lemma_records_of_push, lemma_team_has_record, records_of, sum_of, team_totals,
    teams_of,
};
use crate::analysis::label::{decimal, team_label};
use crate::analysis::rank::{is_ranked, precedes, rank_records, ranks_totals};
use crate::analysis::series::{
    bars_view, labels_of, lemma_bars_view_push, team_labels, texts, BarView,
};
use crate::models::RobotMatchInfo;
use crate::ratio::Ratio;
use crate::schema::LeftTarmac;
use crate::scoring::{
    shot_points, AUTO_HIGH_POINTS, AUTO_LOW_POINTS, TARMAC_POINTS, TELEOP_HIGH_POINTS,
    TELEOP_LOW_POINTS,
};

verus! {

/// The top of the vertical axis when there is no team to show.
pub const DEFAULT_MAX_POINTS: u128 = 200;

/// A team's point totals as plain numbers.
pub struct PointsTotals {
    pub matches: nat,
    pub auto_points: nat,
    pub tele_points: nat,
    pub climb_points: nat,
}

/// A team's point totals over the matches counted so far.
#[derive(Clone, Copy, Debug, PartialEq, Eq, Structural)]
pub struct TeamPointsInfo {
    pub num_matches: u64,
    pub auto_points: u64,
    pub tele_points: u64,
    pub climb_points: u64,
}

impl View for TeamPointsInfo {
    type V = PointsTotals;

    open spec fn view(&self) -> PointsTotals {
        PointsTotals {
            matches: self.num_matches as nat,
            auto_points: self.auto_points as nat,
            tele_points: self.tele_points as nat,
            climb_points: self.climb_points as nat,
        }
    }
}

/// Autonomous points of one record: made shots by their weights, and the
/// tarmac bonus.
pub open spec fn auto_points_of(record: RobotMatchInfo) -> nat {
    (record.auto_high_made * AUTO_HIGH_POINTS + record.auto_low_made * AUTO_LOW_POINTS
        + if record.left_tarmac == LeftTarmac::Yes {
        TARMAC_POINTS as int
    } else {
        0int
    }) as nat
}

/// Teleop points of one record: made shots by their weights.
pub open spec fn tele_points_of(record: RobotMatchInfo) -> nat {
    (record.teleop_high_made * TELEOP_HIGH_POINTS + record.teleop_low_made * TELEOP_LOW_POINTS) as nat
}

impl Accumulator for TeamPointsInfo {
    open spec fn zero() -> PointsTotals {
        PointsTotals { matches: 0, auto_points: 0, tele_points: 0, climb_points: 0 }
    }

    open spec fn contribution(record: RobotMatchInfo) -> PointsTotals {
        PointsTotals {
            matches: 1,
            auto_points: auto_points_of(record),
            tele_points: tele_points_of(record),
            climb_points: record.climb.points_spec(),
        }
    }

    open spec fn combine(a: PointsTotals, b: PointsTotals) -> PointsTotals {
        PointsTotals {
            matches: a.matches + b.matches,
            auto_points: a.auto_points + b.auto_points,
            tele_points: a.tele_points + b.tele_points,
            climb_points: a.climb_points + b.climb_points,
        }
    }

    open spec fn representable(totals: PointsTotals) -> bool {
        &&& totals.matches <= u64::MAX
        &&& totals.auto_points <= u64::MAX
        &&& totals.tele_points <= u64::MAX
        &&& totals.climb_points <= u64::MAX
    }

    open spec fn metric_spec(&self) -> Ratio {
        self.mean_total_spec()
    }

    proof fn lemma_combine_commutative(a: PointsTotals, b: PointsTotals) {
    }

    proof fn lemma_combine_associative(a: PointsTotals, b: PointsTotals, c: PointsTotals) {
    }

    proof fn lemma_zero_neutral(a: PointsTotals) {
    }

    proof fn lemma_representable_parts(a: PointsTotals, b: PointsTotals) {
    }

    proof fn lemma_view_exact(x: TeamPointsInfo, y: TeamPointsInfo) {
    }

    fn empty() -> (acc: TeamPointsInfo) {
        TeamPointsInfo { num_matches: 0, auto_points: 0, tele_points: 0, climb_points: 0 }
    }

    fn from_record(record: &RobotMatchInfo) -> (acc: TeamPointsInfo) {
        let tarmac_points: u64 = match record.left_tarmac {
            LeftTarmac::No => 0,
            LeftTarmac::Yes => TARMAC_POINTS,
        };
        let auto_points: u64 = shot_points(record.auto_high_made, AUTO_HIGH_POINTS) + shot_points(
            record.auto_low_made,
            AUTO_LOW_POINTS,
        ) + tarmac_points;
        let tele_points: u64 = shot_points(record.teleop_high_made, TELEOP_HIGH_POINTS)
            + shot_points(record.teleop_low_made, TELEOP_LOW_POINTS);
        TeamPointsInfo {
            num_matches: 1,
            auto_points,
            tele_points,
            climb_points: record.climb.points(),
        }
    }

    fn checked_add(&self, rhs: &TeamPointsInfo) -> (sum: Option<TeamPointsInfo>) {
        let num_matches = self.num_matches.checked_add(rhs.num_matches);
        let auto_points = self.auto_points.checked_add(rhs.auto_points);
        let tele_points = self.tele_points.checked_add(rhs.tele_points);
        let climb_points = self.climb_points.checked_add(rhs.climb_points);
        match (num_matches, auto_points, tele_points, climb_points) {
            (Some(num_matches), Some(auto_points), Some(tele_points), Some(climb_points)) => Some(
                TeamPointsInfo { num_matches, auto_points, tele_points, climb_points },
            ),
            _ => None,
        }
    }

    fn metric(&self) -> (m: Ratio) {
        self.mean_total()
    }
}

impl Default for TeamPointsInfo {
    fn default() -> (acc: TeamPointsInfo)
        ensures
            acc@ == TeamPointsInfo::zero(),
    {
        TeamPointsInfo::empty()
    }
}

impl TeamPointsInfo {
    /// All points together.
    pub open spec fn total_spec(&self) -> nat {
        (self.auto_points + self.tele_points + self.climb_points) as nat
    }

    /// Points per match, all three kinds together.
    pub open spec fn mean_total_spec(&self) -> Ratio {
        Ratio { num: self.total_spec() as u128, den: self.num_matches as u128 }
    }

    /// All points together.
    pub fn total(&self) -> (t: u128)
        ensures
            t == self.total_spec(),
    {
        self.auto_points as u128 + self.tele_points as u128 + self.climb_points as u128
    }

    /// Points per match, all three kinds together. It has no value for a
    /// team without a match.
    pub fn mean_total(&self) -> (m: Ratio)
        ensures
            m == self.mean_total_spec(),
    {
        Ratio { num: self.total(), den: self.num_matches as u128 }
    }

    /// Autonomous points per match.
    pub open spec fn mean_auto_spec(&self) -> Ratio {
        Ratio { num: self.auto_points as u128, den: self.num_matches as u128 }
    }

    /// Teleop points per match.
    pub open spec fn mean_tele_spec(&self) -> Ratio {
        Ratio { num: self.tele_points as u128, den: self.num_matches as u128 }
    }

    /// Climb points per match.
    pub open spec fn mean_climb_spec(&self) -> Ratio {
        Ratio { num: self.climb_points as u128, den: self.num_matches as u128 }
    }

    /// Autonomous points per match.
    pub fn mean_auto(&self) -> (m: Ratio)
        ensures
            m == self.mean_auto_spec(),
    {
        Ratio { num: self.auto_points as u128, den: self.num_matches as u128 }
    }

    /// Teleop points per match.
    pub fn mean_tele(&self) -> (m: Ratio)
        ensures
            m == self.mean_tele_spec(),
    {
        Ratio { num: self.tele_points as u128, den: self.num_matches as u128 }
    }

    /// Climb points per match.
    pub fn mean_climb(&self) -> (m: Ratio)
        ensures
            m == self.mean_climb_spec(),
    {
        Ratio { num: self.climb_points as u128, den: self.num_matches as u128 }
    }

    /// The totals of `self` and `rhs` together.
    pub fn add(self, rhs: TeamPointsInfo) -> (sum: TeamPointsInfo)
        requires
            TeamPointsInfo::representable(TeamPointsInfo::combine(self@, rhs@)),
        ensures
            sum@ == TeamPointsInfo::combine(self@, rhs@),
    {
        TeamPointsInfo {
            num_matches: self.num_matches + rhs.num_matches,
            auto_points: self.auto_points + rhs.auto_points,
            tele_points: self.tele_points + rhs.tele_points,
            climb_points: self.climb_points + rhs.climb_points,
        }
    }

    /// Adds the totals of `rhs` to `self`.
    pub fn add_assign(&mut self, rhs: TeamPointsInfo)
        requires
            TeamPointsInfo::representable(TeamPointsInfo::combine(old(self)@, rhs@)),
        ensures
            final(self)@ == TeamPointsInfo::combine(old(self)@, rhs@),
    {
        *self = self.add(rhs);
    }
}

/// A team's totals are exactly what its records add up to: it has as many
/// matches as it has records, and each kind of points is the sum of what the
/// team's records scored of that kind.
pub proof fn lemma_points_totals(records: Seq<RobotMatchInfo>, team: i32)
    ensures
        ({
            let own = records_of(records, team);
            let totals = team_totals::<TeamPointsInfo>(records, team);
            &&& totals.matches == own.len()
            &&& totals.auto_points == sum_of(own, |record: RobotMatchInfo| auto_points_of(record))
            &&& totals.tele_points == sum_of(own, |record: RobotMatchInfo| tele_points_of(record))
            &&& totals.climb_points == sum_of(
                own,
                |record: RobotMatchInfo| record.climb.points_spec(),
            )
        }),
    decreases records.len(),
{
    if records.len() == 0 {
        assert(records_of(records, team) == Seq::<RobotMatchInfo>::empty()) by {
            reveal(Seq::filter);
        }
    } else {
        let shorter = records.drop_last();
        let last = records.last();
        assert(records == shorter.push(last));
        lemma_points_totals(shorter, team);
        lemma_records_of_push(shorter, last, team);
        if last.team == team {
            assert(records_of(records, team).drop_last() == records_of(shorter, team));
        }
    }
}

/// An accumulator that holds a team's totals counts as many matches as the
/// team has records and holds, of each kind of points, the sum of what the
/// team's records scored. If the team has a record, its means have values.
pub proof fn lemma_points_accumulator(
    records: Seq<RobotMatchInfo>,
    team: i32,
    info: TeamPointsInfo,
)
    requires
        info@ == team_totals::<TeamPointsInfo>(records, team),
    ensures
        ({
            let own = records_of(records, team);
            &&& info.num_matches == own.len()
            &&& info.auto_points == sum_of(own, |record: RobotMatchInfo| auto_points_of(record))
            &&& info.tele_points == sum_of(own, |record: RobotMatchInfo| tele_points_of(record))
            &&& info.climb_points == sum_of(
                own,
                |record: RobotMatchInfo| record.climb.points_spec(),
            )
        }),
        teams_of(records).contains(team) ==> info.mean_total_spec().defined()
            && info.mean_auto_spec().defined() && info.mean_tele_spec().defined()
            && info.mean_climb_spec().defined(),
{
    lemma_points_totals(records, team);
    lemma_team_has_record(records, team);
}

/// The three bars of one team: its autonomous, teleop and climb points per
/// match.
pub open spec fn team_points_bars(entry: (i32, TeamPointsInfo)) -> Seq<BarView> {
    seq![
        (decimal(entry.0 as int), entry.1.mean_auto_spec(), "Auto"@),
        (decimal(entry.0 as int), entry.1.mean_tele_spec(), "TeleOp"@),
        (decimal(entry.0 as int), entry.1.mean_climb_spec(), "Climb"@),
    ]
}

/// The bars of the points chart: the three bars of each team, team after
/// team in ranked order.
pub open spec fn points_bars_spec(ranked: Seq<(i32, TeamPointsInfo)>) -> Seq<BarView>
    decreases ranked.len(),
{
    if ranked.len() == 0 {
        Seq::empty()
    } else {
        points_bars_spec(ranked.drop_last()) + team_points_bars(ranked.last())
    }
}

/// The top of the vertical axis: the highest mean total, which is that of
/// the team ranked last, or the default if there is no team.
pub open spec fn max_points_spec(ranked: Seq<(i32, TeamPointsInfo)>) -> Ratio {
    if ranked.len() == 0 {
        Ratio { num: DEFAULT_MAX_POINTS, den: 1 }
    } else {
        ranked.last().1.mean_total_spec()
    }
}

/// The top of the vertical axis of the points chart.
pub fn max_points(ranked: &Vec<(i32, TeamPointsInfo)>) -> (top: Ratio)
    ensures
        top == max_points_spec(ranked@),
        is_ranked(ranked@) ==> forall|i: int|
            0 <= i < ranked@.len() ==> !top.below(#[trigger] ranked@[i].1.mean_total_spec()),
{
    let n = ranked.len();
    if n == 0 {
        Ratio { num: DEFAULT_MAX_POINTS, den: 1 }
    } else {
        let top = ranked[n - 1].1.mean_total();
        proof {
            if is_ranked(ranked@) {
                assert forall|i: int| 0 <= i < ranked@.len() implies !top.below(
                    #[trigger] ranked@[i].1.mean_total_spec(),
                ) by {
                    let m = ranked@[i].1.mean_total_spec();
                    top.lemma_trichotomy(m);
                    if i < n - 1 {
                        assert(precedes(ranked@[i], ranked@[n - 1]));
                    }
                }
            }
        }
        top
    }
}

/// The bars of the points chart for a ranking.
pub fn points_bars(ranked: &Vec<(i32, TeamPointsInfo)>) -> (bar_data: Vec<(String, Ratio, String)>)
    ensures
        bars_view(bar_data@) == points_bars_spec(ranked@),
{
    let mut bar_data: Vec<(String, Ratio, String)> = Vec::new();
    let mut i: usize = 0;
    assert(bars_view(bar_data@) =~= points_bars_spec(ranked@.take(0)));
    while i < ranked.len()
        invariant
            i <= ranked.len(),
            bars_view(bar_data@) == points_bars_spec(ranked@.take(i as int)),
        decreases ranked.len() - i,
    {
        let team = ranked[i].0;
        let info = ranked[i].1;
        let auto = (team_label(team), info.mean_auto(), String::from_str("Auto"));
        let tele = (team_label(team), info.mean_tele(), String::from_str("TeleOp"));
        let climb = (team_label(team), info.mean_climb(), String::from_str("Climb"));
        proof {
            let done = ranked@.take(i as int);
            let next = ranked@.take(i + 1);
            assert(next.drop_last() == done);
            assert(next.last() == ranked@[i as int]);
            lemma_bars_view_push(bar_data@, auto);
            lemma_bars_view_push(bar_data@.push(auto), tele);
            lemma_bars_view_push(bar_data@.push(auto).push(tele), climb);
            assert(bars_view(bar_data@.push(auto).push(tele).push(climb)) =~= bars_view(bar_data@)
                + team_points_bars(ranked@[i as int]));
        }
        bar_data.push(auto);
        bar_data.push(tele);
        bar_data.push(climb);
        i += 1;
    }
    assert(ranked@.take(i as int) == ranked@);
    bar_data
}

/// All that the points chart is drawn from.
pub struct PointsChart {
    /// The teams with their totals, in ranked order.
    pub ranking: Vec<(i32, TeamPointsInfo)>,
    /// The horizontal axis: the team labels in ranked order.
    pub teams: Vec<String>,
    /// The top of the vertical axis.
    pub max_points: Ratio,
    /// The bars: team label, points per match, kind of points.
    pub bar_data: Vec<(String, Ratio, String)>,
}

impl PointsChart {
    /// The chart shows these totals: its ranking is theirs, and its axes and
    /// bars are those of its ranking.
    pub open spec fn shows(&self, totals: Map<i32, PointsTotals>) -> bool {
        &&& ranks_totals(self.ranking@, totals)
        &&& texts(self.teams@) == labels_of(self.ranking@)
        &&& self.max_points == max_points_spec(self.ranking@)
        &&& bars_view(self.bar_data@) == points_bars_spec(self.ranking@)
    }
}

/// The points chart of a set of records: teams ranked by their mean total
/// points, each shown with its mean autonomous, teleop and climb points.
pub fn get_points_chart(infos: &Vec<RobotMatchInfo>) -> (result: Result<
    PointsChart,
    DataIntegrityError,
>)
    ensures
        match result {
            Ok(chart) => aggregate_spec::<TeamPointsInfo>(infos@) matches Ok(totals)
                && chart.shows(totals),
            Err(e) => aggregate_spec::<TeamPointsInfo>(infos@) == Err::<
                Map<i32, PointsTotals>,
                DataIntegrityError,
            >(e),
        },
{
    match rank_records::<TeamPointsInfo>(infos) {
        Ok(ranking) => {
            let teams = team_labels(&ranking);
            let max_points = max_points(&ranking);
            let bar_data = points_bars(&ranking);
            Ok(PointsChart { ranking, teams, max_points, bar_data })
        },
        Err(e) => Err(e),
    }
}

} // verus!

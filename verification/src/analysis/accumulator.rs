//! What the three statistics have in common: a zero, a contribution drawn
//! from one record, and a merge that adds two partial results.

use vstd::prelude::*;
use vstd::string::*;
use crate::models::RobotMatchInfo;
use crate::ratio::Ratio;

verus! {

/// Why a set of records cannot be aggregated.
#[derive(Clone, Copy, Debug, PartialEq, Eq, Structural)]
pub enum DataIntegrityError {
    /// Some record holds a negative shot count.
    NegativeCount,
    /// Some team's totals are larger than an accumulator can hold.
    TotalOutOfRange,
}

impl DataIntegrityError {
    /// What went wrong, in words.
    pub open spec fn message_spec(self) -> Seq<char> {
        match self {
            DataIntegrityError::NegativeCount => "a record holds a negative shot count"@,
            DataIntegrityError::TotalOutOfRange => "the totals of a team are out of range"@,
        }
    }

    /// What went wrong, in words.
    pub fn message(&self) -> (text: String)
        ensures
            text@ == self.message_spec(),
    {
        match self {
            DataIntegrityError::NegativeCount => String::from_str(
                "a record holds a negative shot count",
            ),
            DataIntegrityError::TotalOutOfRange => String::from_str(
                "the totals of a team are out of range",
            ),
        }
    }
}

/// A per-team statistic that is built up one record at a time.
///
/// The view of an accumulator is its totals as plain numbers without a
/// machine limit. Totals form a commutative monoid under `combine`, which is
/// what makes the order of the records irrelevant.
pub trait Accumulator: Sized + Copy + View {
    /// The totals of no record at all.
    spec fn zero() -> Self::V;

    /// What a single record adds.
    spec fn contribution(record: RobotMatchInfo) -> Self::V;

    /// The totals of two disjoint sets of records taken together.
    spec fn combine(a: Self::V, b: Self::V) -> Self::V;

    /// Whether an accumulator can hold these totals.
    spec fn representable(totals: Self::V) -> bool;

    /// The ratio teams are ranked by.
    spec fn metric_spec(&self) -> Ratio;

    /// Combining is commutative: either side may come first.
    proof fn lemma_combine_commutative(a: Self::V, b: Self::V)
        ensures
            Self::combine(a, b) == Self::combine(b, a),
    ;

    /// Combining is associative: three totals may be combined in either
    /// grouping.
    proof fn lemma_combine_associative(a: Self::V, b: Self::V, c: Self::V)
        ensures
            Self::combine(Self::combine(a, b), c) == Self::combine(a, Self::combine(b, c)),
    ;

    /// Combining with the totals of no record changes nothing.
    proof fn lemma_zero_neutral(a: Self::V)
        ensures
            Self::combine(Self::zero(), a) == a,
    ;

    /// Totals only grow: what holds a sum holds each part.
    proof fn lemma_representable_parts(a: Self::V, b: Self::V)
        requires
            Self::representable(Self::combine(a, b)),
        ensures
            Self::representable(a),
            Self::representable(b),
    ;

    /// An accumulator is determined by its totals, and can hold them.
    proof fn lemma_view_exact(x: Self, y: Self)
        ensures
            Self::representable(x@),
            x@ == y@ ==> x == y,
    ;

    /// The accumulator of a team that has not been seen yet.
    fn empty() -> (acc: Self)
        ensures
            acc@ == Self::zero(),
    ;

    /// The contribution of one record.
    fn from_record(record: &RobotMatchInfo) -> (acc: Self)
        requires
            record.well_formed(),
        ensures
            acc@ == Self::contribution(*record),
    ;

    /// Merges two partial results, or says that the sum cannot be held.
    fn checked_add(&self, rhs: &Self) -> (sum: Option<Self>)
        ensures
            match sum {
                Some(s) => s@ == Self::combine(self@, rhs@),
                None => !Self::representable(Self::combine(self@, rhs@)),
            },
    ;

    /// The ratio teams are ranked by.
    fn metric(&self) -> (m: Ratio)
        ensures
            m == self.metric_spec(),
    ;
}

} // verus!

//! Per-team statistics and the charts drawn from them.
//!
//! Records are folded into one accumulator per team ([`aggregate`]), the
//! teams are ranked by the statistic's metric ([`rank`]), and the ranking is
//! laid out as labelled bars ([`get_points_chart`], [`get_accuracy_chart`],
//! [`get_climb_chart`]).

pub mod accumulator;
pub mod accuracy;
pub mod aggregate;
pub mod climb;
pub mod fold;
pub mod label;
pub mod points;
pub mod rank;
pub mod series;

pub use accumulator::{Accumulator, DataIntegrityError};
pub use accuracy::get_accuracy_chart;
pub use aggregate::{aggregate, merge_into};
pub use climb::get_climb_chart;
pub use points::get_points_chart;
pub use rank::{rank, rank_records};

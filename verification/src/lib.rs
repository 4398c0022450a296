//! Aggregate statistics over robotics match records.
//!
//! Scouts record what each team did in each match. This crate folds such
//! records into per-team totals, ranks the teams by a mean or a ratio, and
//! lays the ranked totals out as the series a bar chart is drawn from.

pub mod analysis;
pub mod auth;
pub mod models;
pub mod ratio;
pub mod schema;
pub mod scoring;

pub use models::RobotMatchInfo;
pub use schema::{Alliance, Climb, LeftTarmac};

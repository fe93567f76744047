//! Study-session analytics: trends, per-subject and per-time-of-day
//! aggregation, score prediction and rule-based recommendations.
//!
//! Every real-valued quantity is carried as a fixed-point integer in
//! hundredths, rounded down: `250` hours stands for 2.50 hours, a score of
//! `8533` for 85.33.

pub mod arith;
pub mod session;
pub mod grouping;
pub mod trend;
pub mod ranking;
pub mod performance;
pub mod recommend;
pub mod predictor;
pub mod analyzer;
pub mod validation;
pub mod models;
pub mod csv_input;
pub mod planner;
pub mod account;

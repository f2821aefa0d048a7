//! Scoring, ranking and access rules of a challenges service for amateur-radio
//! operators: a challenge's configuration document is read into a scoring
//! policy, reports are scored and stored one row per callsign, and
//! leaderboards are ranked and paged from the stored rows.

pub mod access;
pub mod config;
pub mod error;
pub mod json;
pub mod leaderboard;
pub mod links;
pub mod models;
pub mod policy;
pub mod report;
pub mod scoring;
pub mod store;
pub mod token;

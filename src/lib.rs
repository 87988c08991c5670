//! Verified core of a performance-rating service: request validation, a
//! bounded beatmap cache, mod resolution and the bulk recalculation pass.

pub mod text;
pub mod error;
pub mod requests;
pub mod cache;
pub mod config;
pub mod beatmap;
pub mod performance;
pub mod score;
pub mod recalculate;
pub mod responses;

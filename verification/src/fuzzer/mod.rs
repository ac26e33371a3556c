//! The engine: expansion, dispatch decisions, outcomes and their tally.

pub mod dispatch;
pub mod fuzzy;
pub mod headers;
pub mod metrics;
pub mod result_aggregator;

//! Endpoint fuzzing engine: expands endpoint templates with a dictionary of
//! substitution values, decides which requests to issue under a concurrency
//! limit, classifies each reply and aggregates the outcomes into metrics and
//! failure records.

pub mod domain;
pub mod fuzzer;
pub mod text;

//! The data a run is configured with: the targets and the dictionary.

pub mod dictionary;
pub mod input;
pub mod target_url;

//! Humanise raw values: render durations, lists and counts as idiomatic
//! English phrases.

pub mod breakdown;
pub mod decimal;
pub mod durations;
pub mod list;
pub mod phrases;
pub mod plural;

pub use crate::durations::{
    humanise_duration, humanise_duration_chrono, humanise_duration_ms,
};
pub use crate::list::humanise_list;
pub use crate::plural::plural_suffix;

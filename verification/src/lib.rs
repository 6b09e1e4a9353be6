//! A line-oriented text filter: select the lines of an input that match a
//! pattern, and render them under a small set of composable behaviour modes
//! (count-only, quiet, case-insensitive matching, leading-timestamp
//! normalisation).

pub mod actions;
pub mod laws;
pub mod matcher;
pub mod modes;
pub mod number;
pub mod run;
pub mod text;
pub mod timestamp;

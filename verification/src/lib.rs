//! Verified core of a coding-assistant statusline: segment options, usage
//! normalisation, reset-time formatting and TUI layout decisions.
use vstd::prelude::*;

pub mod cli;
pub mod credits;
pub mod model;
pub mod option_map;
pub mod options;
pub mod text;
pub mod time;
pub mod types;
pub mod ui;
pub mod usage;

verus! {

} // verus!

//! Command-line arguments of the statusline program.
use vstd::prelude::*;

verus! {

/// Parsed command line.
pub struct Cli {
    /// Enter TUI configuration mode
    pub config: bool,
    /// Set theme
    pub theme: Option<String>,
    /// Patch the assistant's cli.js to disable context warnings
    pub patch: Option<String>,
    /// List segment options with their current and default values
    pub options: bool,
    /// Set a segment option and save the config (repeatable), e.g. usage.reset_format=countdown
    pub set: Vec<String>,
    /// Remove a segment option so it falls back to its default (repeatable), e.g. usage.reset_format
    pub unset: Vec<String>,
}

} // verus!

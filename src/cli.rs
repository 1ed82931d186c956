//! The command-line interface and configuration records, as plain data.
use vstd::prelude::*;

verus! {

/// The program's arguments: what to do, and where the configuration is.
pub struct Cli {
    pub command: Commands,
    pub config: Option<String>,
}

/// What the program is asked to do.
pub enum Commands {
    /// Run one query, optionally saving the report to a file.
    Run { query: String, output: Option<String> },
    /// Start an interactive session.
    Interactive,
}

/// Optional settings for the model's prompt format.
pub struct AdvancedConfig {
    pub qwen_formatting: Option<bool>,
}

} // verus!

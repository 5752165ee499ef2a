//! The commands of the migration-manifest command line.
use vstd::prelude::*;

verus! {

pub struct Cli {
    pub command: Commands,
}

pub enum Commands {
    /// Scan C source files and merge discovered test entries into the manifest.
    Collect {
        /// Path to the manifest/config YAML file.
        config: String,
    },
    /// Validate the manifest, run C and Rust test commands, and print a report.
    Check {
        /// Path to the manifest/config YAML file.
        config: String,
        /// Path to write run results (default: <config-stem>-results.yml).
        results: Option<String>,
    },
    /// Print a summarized migration report from the manifest and last run results.
    Report {
        /// Path to the manifest/config YAML file.
        config: String,
        /// Path to a run results file produced by `check` (optional).
        results: Option<String>,
    },
}

} // verus!

//! The migration configuration: project, feature source, test commands,
//! discovery settings, and the tracked test entries.
use vstd::prelude::*;

verus! {

pub struct Config {
    pub version: u32,
    pub project: Project,
    pub feature_source: FeatureSource,
    pub test_commands: TestCommands,
    pub discovery: Discovery,
    pub tests: Vec<TestEntry>,
}

pub struct Project {
    pub root: String,
    pub feature: String,
}

pub struct FeatureSource {
    pub kind: String,
    pub root: String,
}

/// Test commands used by `check`.
pub struct TestCommands {
    /// Command to run the C test suite (e.g. `"make test"`).
    pub c: Option<String>,
    /// Command to run the translated Rust test suite (e.g. `"cargo test"`).
    pub rust: Option<String>,
    /// Optional extra Rust command kept for older configurations.
    pub feature_rust: Option<String>,
}

impl Default for TestCommands {
    fn default() -> (r: TestCommands)
        ensures
            r.c is None && r.rust is None && r.feature_rust is None,
    {
        TestCommands { c: None, rust: None, feature_rust: None }
    }
}

/// Migration status of a single C test.
#[derive(Debug, Clone, Copy, PartialEq, Eq, Structural)]
pub enum TestStatus {
    /// Not yet evaluated (the status of newly discovered tests).
    Pending,
    /// The test has been ported to Rust; `rust_tests` must be non-empty.
    Ported,
    /// The test is intentionally skipped; `notes` must explain why.
    Skipped,
    /// The test is not applicable to the Rust port.
    NotApplicable,
}

impl Default for TestStatus {
    fn default() -> (r: TestStatus)
        ensures
            r == TestStatus::Pending,
    {
        TestStatus::Pending
    }
}

/// A single test-migration entry.
pub struct TestEntry {
    /// Name of the C test function (unique within the manifest).
    pub c_test: String,
    /// Source file path relative to `project.root` where the test was found.
    pub source_file: Option<String>,
    /// Migration status.
    pub status: TestStatus,
    /// Selected file (from `meta/selected_files.json`) this test exercises.
    pub selected_file: Option<String>,
    /// Generated module (e.g. `mod_math`) this test exercises.
    pub module: Option<String>,
    /// Symbols within the module exercised by this test.
    pub symbols: Vec<String>,
    /// Rust test names that verify the same behaviour.
    pub rust_tests: Vec<String>,
    /// Brief description of the migration contract.
    pub contract: Option<String>,
    /// Free-form notes (required for `skipped` entries).
    pub notes: Option<String>,
}

impl TestEntry {
    /// A newly found entry: only the name and the source file are set.
    pub open spec fn is_fresh(&self, c_test: Seq<char>, source_file: Option<Seq<char>>) -> bool {
        &&& self.c_test@ == c_test
        &&& match (self.source_file, source_file) {
            (Some(a), Some(b)) => a@ == b,
            (None, None) => true,
            _ => false,
        }
        &&& self.status == TestStatus::Pending
        &&& self.selected_file is None
        &&& self.module is None
        &&& self.symbols@.len() == 0
        &&& self.rust_tests@.len() == 0
        &&& self.contract is None
        &&& self.notes is None
    }
}

impl Default for TestEntry {
    fn default() -> (r: TestEntry)
        ensures
            r.is_fresh(Seq::empty(), None),
    {
        TestEntry {
            c_test: String::new(),
            source_file: None,
            status: TestStatus::Pending,
            selected_file: None,
            module: None,
            symbols: Vec::new(),
            rust_tests: Vec::new(),
            contract: None,
            notes: None,
        }
    }
}

pub struct Discovery {
    pub paths: Vec<String>,
    pub extensions: Vec<String>,
    pub patterns: Vec<DiscoveryPattern>,
}

impl Default for Discovery {
    fn default() -> (r: Discovery)
        ensures
            r.paths@.len() == 0 && r.extensions@.len() == 0 && r.patterns@.len() == 0,
    {
        Discovery { paths: Vec::new(), extensions: Vec::new(), patterns: Vec::new() }
    }
}

pub struct DiscoveryPattern {
    pub regex: String,
    pub framework: String,
}

} // verus!

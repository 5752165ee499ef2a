//! The manifest: tool configuration and the migration table in one
//! document, and the results of the last check run.
use vstd::prelude::*;

use crate::patterns::{compile_regex, regex_compiles};
use crate::text::{chars_of, decimal, push_decimal, push_str, trim, trim_chars};

verus! {

/// Migration status of a single C test entry.
#[derive(Debug, Clone, Copy, PartialEq, Eq, Structural)]
pub enum MigrationStatus {
    /// No Rust counterpart has been written yet.
    Pending,
    /// A Rust test has been written and the entry is considered ported.
    Ported,
    /// Intentionally not ported.
    Skipped,
    /// Not applicable (e.g. helper or setup functions).
    NotApplicable,
}

impl MigrationStatus {
    pub open spec fn spec_name(self) -> Seq<char> {
        match self {
            MigrationStatus::Pending => "pending"@,
            MigrationStatus::Ported => "ported"@,
            MigrationStatus::Skipped => "skipped"@,
            MigrationStatus::NotApplicable => "n/a"@,
        }
    }

    /// The status as reports show it.
    pub fn as_str(self) -> (s: &'static str)
        ensures
            s@ == self.spec_name(),
    {
        match self {
            MigrationStatus::Pending => "pending",
            MigrationStatus::Ported => "ported",
            MigrationStatus::Skipped => "skipped",
            MigrationStatus::NotApplicable => "n/a",
        }
    }
}

impl Default for MigrationStatus {
    fn default() -> (r: MigrationStatus)
        ensures
            r == MigrationStatus::Pending,
    {
        MigrationStatus::Pending
    }
}

/// One discovered C test and its migration state.
pub struct TestEntry {
    /// Name of the C test function / test case identifier.
    pub name: String,
    /// Path to the C source file where the test was discovered.
    pub source_file: String,
    /// Migration status.
    pub status: MigrationStatus,
    /// Names of the Rust tests that cover this C test (may be empty).
    pub rust_tests: Vec<String>,
    /// Free-form notes.
    pub notes: Option<String>,
}

impl TestEntry {
    /// A pending entry with no Rust tests and no notes.
    pub fn new(name: String, source_file: String) -> (e: TestEntry)
        ensures
            e.name@ == name@,
            e.source_file@ == source_file@,
            e.status == MigrationStatus::Pending,
            e.rust_tests@.len() == 0,
            e.notes is None,
    {
        TestEntry {
            name,
            source_file,
            status: MigrationStatus::Pending,
            rust_tests: Vec::new(),
            notes: None,
        }
    }
}

/// A regular expression whose first group is the test name.
pub struct DiscoveryPattern {
    pub regex: String,
    /// The C framework or convention the pattern matches.
    pub framework: Option<String>,
}

/// Configuration for C test source discovery.
pub struct DiscoveryConfig {
    /// Directories, relative to the manifest, to search.
    pub paths: Vec<String>,
    /// File extensions to consider.
    pub extensions: Vec<String>,
    /// Patterns tried on each file, in order.
    pub patterns: Vec<DiscoveryPattern>,
}

/// The extensions searched when the manifest names none: `c`.
pub fn default_extensions() -> (r: Vec<String>)
    ensures
        r@.len() == 1,
        r@[0]@ == "c"@,
{
    let mut r: Vec<String> = Vec::new();
    r.push("c".to_owned());
    r
}

/// Tool-level configuration.
pub struct Config {
    pub discovery: DiscoveryConfig,
    /// Shell command that runs the C test suite.
    pub c_test_command: String,
    /// Shell command that runs the Rust test suite.
    pub rust_test_command: String,
    /// Working directory for the test commands (the manifest's directory when absent).
    pub working_dir: Option<String>,
    /// Extra environment variables for both commands, as name and value
    /// pairs.
    pub env: Vec<(String, String)>,
}

/// The manifest document.
pub struct Manifest {
    pub config: Config,
    pub tests: Vec<TestEntry>,
}

/// Why a manifest is rejected.
pub enum ManifestError {
    EmptyCTestCommand,
    EmptyRustTestCommand,
    EmptyPaths,
    EmptyPatterns,
    InvalidPattern { index: usize, regex: String },
}

impl ManifestError {
    pub open spec fn spec_message(&self) -> Seq<char> {
        match self {
            ManifestError::EmptyCTestCommand => "manifest validation error: `config.c_test_command` must not be empty"@,
            ManifestError::EmptyRustTestCommand => "manifest validation error: `config.rust_test_command` must not be empty"@,
            ManifestError::EmptyPaths => "manifest validation error: `config.discovery.paths` must not be empty"@,
            ManifestError::EmptyPatterns => "manifest validation error: `config.discovery.patterns` must not be empty"@,
            ManifestError::InvalidPattern { index, regex } => "manifest validation error: discovery pattern ["@
                + decimal(*index as nat) + "] has invalid regex: '"@ + regex@ + "'"@,
        }
    }

    pub fn message(&self) -> (s: String)
        ensures
            s@ == self.spec_message(),
    {
        let mut s = String::new();
        match self {
            ManifestError::EmptyCTestCommand => push_str(
                &mut s,
                "manifest validation error: `config.c_test_command` must not be empty",
            ),
            ManifestError::EmptyRustTestCommand => push_str(
                &mut s,
                "manifest validation error: `config.rust_test_command` must not be empty",
            ),
            ManifestError::EmptyPaths => push_str(
                &mut s,
                "manifest validation error: `config.discovery.paths` must not be empty",
            ),
            ManifestError::EmptyPatterns => push_str(
                &mut s,
                "manifest validation error: `config.discovery.patterns` must not be empty",
            ),
            ManifestError::InvalidPattern { index, regex } => {
                push_str(&mut s, "manifest validation error: discovery pattern [");
                push_decimal(&mut s, *index);
                push_str(&mut s, "] has invalid regex: '");
                push_str(&mut s, regex.as_str());
                push_str(&mut s, "'");
            },
        }
        proof {
            assert(s@ =~= self.spec_message());
        }
        s
    }
}

/// The index of the first pattern from `from` on that does not compile.
pub open spec fn first_bad_pattern(ps: Seq<DiscoveryPattern>, from: int) -> Option<int>
    decreases ps.len() - from,
{
    if from < 0 || from >= ps.len() {
        None
    } else if !regex_compiles(ps[from].regex@) {
        Some(from)
    } else {
        first_bad_pattern(ps, from + 1)
    }
}

/// Counts of entries by status.
pub open spec fn status_count(tests: Seq<TestEntry>, s: MigrationStatus) -> nat
    decreases tests.len(),
{
    if tests.len() == 0 {
        0
    } else {
        status_count(tests.drop_last(), s) + if tests.last().status == s {
            1nat
        } else {
            0nat
        }
    }
}

pub proof fn lemma_status_count_bound(tests: Seq<TestEntry>, s: MigrationStatus)
    ensures
        status_count(tests, s) <= tests.len(),
    decreases tests.len(),
{
    if tests.len() > 0 {
        lemma_status_count_bound(tests.drop_last(), s);
    }
}

impl Manifest {
    /// The validation outcome: the checks in order, the first failing one
    /// deciding the error.
    pub open spec fn spec_validate(&self) -> Result<(), ManifestError> {
        if trim(self.config.c_test_command@).len() == 0 {
            Err(ManifestError::EmptyCTestCommand)
        } else if trim(self.config.rust_test_command@).len() == 0 {
            Err(ManifestError::EmptyRustTestCommand)
        } else if self.config.discovery.paths@.len() == 0 {
            Err(ManifestError::EmptyPaths)
        } else if self.config.discovery.patterns@.len() == 0 {
            Err(ManifestError::EmptyPatterns)
        } else {
            match first_bad_pattern(self.config.discovery.patterns@, 0) {
                Some(i) => Err(ManifestError::InvalidPattern { index: i as usize, regex: self.config.discovery.patterns@[i].regex }),
                None => Ok(()),
            }
        }
    }

    /// Basic structural validation: both test commands hold more than
    /// whitespace, there is a path and a pattern to search with, and every
    /// pattern compiles.
    pub fn validate(&self) -> (r: Result<(), ManifestError>)
        ensures
            match (r, self.spec_validate()) {
                (Ok(()), Ok(())) => true,
                (Err(ManifestError::InvalidPattern { index: a, regex: ra }), Err(ManifestError::InvalidPattern { index: b, regex: rb })) => a == b && ra@ == rb@,
                (Err(ManifestError::EmptyCTestCommand), Err(ManifestError::EmptyCTestCommand)) => true,
                (Err(ManifestError::EmptyRustTestCommand), Err(ManifestError::EmptyRustTestCommand)) => true,
                (Err(ManifestError::EmptyPaths), Err(ManifestError::EmptyPaths)) => true,
                (Err(ManifestError::EmptyPatterns), Err(ManifestError::EmptyPatterns)) => true,
                _ => false,
            },
    {
        let c = chars_of(self.config.c_test_command.as_str());
        if trim_chars(&c).len() == 0 {
            return Err(ManifestError::EmptyCTestCommand);
        }
        let rc = chars_of(self.config.rust_test_command.as_str());
        if trim_chars(&rc).len() == 0 {
            return Err(ManifestError::EmptyRustTestCommand);
        }
        if self.config.discovery.paths.len() == 0 {
            return Err(ManifestError::EmptyPaths);
        }
        if self.config.discovery.patterns.len() == 0 {
            return Err(ManifestError::EmptyPatterns);
        }
        let ps = &self.config.discovery.patterns;
        let mut i: usize = 0;
        while i < ps.len()
            invariant
                i <= ps@.len(),
                ps == &self.config.discovery.patterns,
                trim(self.config.c_test_command@).len() != 0,
                trim(self.config.rust_test_command@).len() != 0,
                self.config.discovery.paths@.len() != 0,
                self.config.discovery.patterns@.len() != 0,
                first_bad_pattern(ps@, 0) == first_bad_pattern(ps@, i as int),
            decreases ps@.len() - i,
        {
            match compile_regex(ps[i].regex.as_str()) {
                Ok(_) => {},
                Err(_) => {
                    return Err(ManifestError::InvalidPattern { index: i, regex: ps[i].regex.clone() });
                },
            }
            i = i + 1;
        }
        Ok(())
    }

    /// For each status that some entry has, in the order pending, ported,
    /// skipped, n/a: its name and the number of entries with it.
    pub fn status_counts(&self) -> (r: Vec<(String, usize)>)
        ensures
            r@.map_values(|p: (String, usize)| (p.0@, p.1 as nat)) == status_rows(self.tests@),
    {
        let mut pending: usize = 0;
        let mut ported: usize = 0;
        let mut skipped: usize = 0;
        let mut na: usize = 0;
        let mut i: usize = 0;
        while i < self.tests.len()
            invariant
                i <= self.tests@.len(),
                pending == status_count(self.tests@.take(i as int), MigrationStatus::Pending),
                ported == status_count(self.tests@.take(i as int), MigrationStatus::Ported),
                skipped == status_count(self.tests@.take(i as int), MigrationStatus::Skipped),
                na == status_count(self.tests@.take(i as int), MigrationStatus::NotApplicable),
            decreases self.tests@.len() - i,
        {
            proof {
                assert(self.tests@.take(i + 1).drop_last() =~= self.tests@.take(i as int));
                lemma_status_count_bound(self.tests@.take(i as int), self.tests@[i as int].status);
            }
            match self.tests[i].status {
                MigrationStatus::Pending => pending = pending + 1,
                MigrationStatus::Ported => ported = ported + 1,
                MigrationStatus::Skipped => skipped = skipped + 1,
                MigrationStatus::NotApplicable => na = na + 1,
            }
            i = i + 1;
        }
        proof {
            assert(self.tests@.take(self.tests@.len() as int) =~= self.tests@);
        }
        let mut r: Vec<(String, usize)> = Vec::new();
        if pending > 0 {
            r.push((MigrationStatus::Pending.as_str().to_owned(), pending));
        }
        if ported > 0 {
            r.push((MigrationStatus::Ported.as_str().to_owned(), ported));
        }
        if skipped > 0 {
            r.push((MigrationStatus::Skipped.as_str().to_owned(), skipped));
        }
        if na > 0 {
            r.push((MigrationStatus::NotApplicable.as_str().to_owned(), na));
        }
        proof {
            assert(r@.map_values(|p: (String, usize)| (p.0@, p.1 as nat)) =~= status_rows(self.tests@));
        }
        r
    }
}

/// The row of one status when some entry has it.
pub open spec fn status_row(tests: Seq<TestEntry>, s: MigrationStatus) -> Seq<(Seq<char>, nat)> {
    if status_count(tests, s) > 0 {
        seq![(s.spec_name(), status_count(tests, s))]
    } else {
        seq![]
    }
}

/// The statuses that entries have, with their counts.
pub open spec fn status_rows(tests: Seq<TestEntry>) -> Seq<(Seq<char>, nat)> {
    status_row(tests, MigrationStatus::Pending) + status_row(tests, MigrationStatus::Ported)
        + status_row(tests, MigrationStatus::Skipped) + status_row(
        tests,
        MigrationStatus::NotApplicable,
    )
}

/// Each count is the number of entries with that status, every status that
/// some entry has is listed, and the counts add up to the number of entries.
pub proof fn lemma_status_rows(tests: Seq<TestEntry>)
    ensures
        status_count(tests, MigrationStatus::Pending) + status_count(tests, MigrationStatus::Ported)
            + status_count(tests, MigrationStatus::Skipped) + status_count(
            tests,
            MigrationStatus::NotApplicable,
        ) == tests.len(),
    decreases tests.len(),
{
    if tests.len() > 0 {
        lemma_status_rows(tests.drop_last());
    }
}

/// Outcome of a single shell command execution.
pub struct CommandResult {
    pub command: String,
    pub success: bool,
    pub exit_code: Option<i32>,
    /// The last lines of what the command printed.
    pub output_tail: String,
}

/// Results written by `check` so that `report` can show them without
/// running the tests again.
pub struct RunResults {
    /// RFC-3339 timestamp of when `check` was run.
    pub timestamp: String,
    pub c_result: CommandResult,
    pub rust_result: CommandResult,
}

} // verus!

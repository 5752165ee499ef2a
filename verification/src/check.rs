//! The `check` workflow: lint, then each configured test command, and the
//! summary of the steps.
use vstd::prelude::*;

use crate::config::TestCommands;
use crate::text::push_str;

verus! {

/// Result of a single check step.
#[derive(Debug, Clone, Copy, PartialEq, Eq, Structural)]
pub enum StepResult {
    Passed,
    Failed,
    Skipped,
}

impl StepResult {
    pub open spec fn spec_name(self) -> Seq<char> {
        match self {
            StepResult::Passed => "passed"@,
            StepResult::Failed => "failed"@,
            StepResult::Skipped => "skipped"@,
        }
    }

    /// The result as the summary prints it.
    pub fn as_str(self) -> (s: &'static str)
        ensures
            s@ == self.spec_name(),
    {
        match self {
            StepResult::Passed => "passed",
            StepResult::Failed => "failed",
            StepResult::Skipped => "skipped",
        }
    }
}

/// Aggregated results from a `check` run.
#[derive(Debug, Clone, Copy, PartialEq, Eq, Structural)]
pub struct CheckSummary {
    pub lint: StepResult,
    pub c_tests: StepResult,
    pub rust_tests: StepResult,
    pub feature_rust: Option<StepResult>,
}

impl CheckSummary {
    pub open spec fn spec_overall_passed(&self) -> bool {
        &&& self.lint != StepResult::Failed
        &&& self.c_tests != StepResult::Failed
        &&& self.rust_tests != StepResult::Failed
        &&& self.feature_rust != Some(StepResult::Failed)
    }

    /// No step failed (skipped steps are not failures).
    pub fn overall_passed(&self) -> (b: bool)
        ensures
            b == self.spec_overall_passed(),
    {
        self.lint != StepResult::Failed && self.c_tests != StepResult::Failed && self.rust_tests
            != StepResult::Failed && !matches!(self.feature_rust, Some(StepResult::Failed))
    }
}

/// The step result of an optional command: skipped when it is not
/// configured, else passed exactly when it ran and exited with status 0.
pub open spec fn optional_step(configured: bool, outcome: Option<bool>) -> StepResult {
    if !configured {
        StepResult::Skipped
    } else if outcome == Some(true) {
        StepResult::Passed
    } else {
        StepResult::Failed
    }
}

/// The step result of the optional command `cmd`, given whether it exited
/// with status 0 when it ran.
pub fn run_optional_command(cmd: &Option<String>, outcome: Option<bool>) -> (r: StepResult)
    ensures
        r == optional_step(cmd is Some, outcome),
{
    match cmd {
        None => StepResult::Skipped,
        Some(_) => match outcome {
            Some(true) => StepResult::Passed,
            _ => StepResult::Failed,
        },
    }
}

/// A test command slot of a check.
#[derive(Debug, Clone, Copy, PartialEq, Eq, Structural)]
pub enum CommandSlot {
    C,
    Rust,
    FeatureRust,
}

/// What the commands that ran so far returned: whether each exited with
/// status 0.
#[derive(Debug, Clone, Copy, PartialEq, Eq, Structural)]
pub struct CommandOutcomes {
    pub c: Option<bool>,
    pub rust: Option<bool>,
    pub feature_rust: Option<bool>,
}

/// The next thing a check does.
pub enum CheckStep {
    /// Run this shell command and report whether it exited with status 0.
    Run(CommandSlot, String),
    /// The check is over.
    Finish(CheckSummary),
}

/// The summary when lint failed: every test command is skipped.
pub open spec fn lint_failed_summary(cmds: TestCommands) -> CheckSummary {
    CheckSummary {
        lint: StepResult::Failed,
        c_tests: StepResult::Skipped,
        rust_tests: StepResult::Skipped,
        feature_rust: if cmds.feature_rust is Some {
            Some(StepResult::Skipped)
        } else {
            None
        },
    }
}

/// The summary once every configured command has run.
pub open spec fn final_summary(cmds: TestCommands, o: CommandOutcomes) -> CheckSummary {
    CheckSummary {
        lint: StepResult::Passed,
        c_tests: optional_step(cmds.c is Some, o.c),
        rust_tests: optional_step(cmds.rust is Some, o.rust),
        feature_rust: if cmds.feature_rust is Some {
            Some(optional_step(true, o.feature_rust))
        } else {
            None
        },
    }
}

/// Decides the next step of a check.  A failed lint ends the check with
/// every test command skipped.  Otherwise the configured commands run in
/// the order C, Rust, extra Rust, each once; then the summary follows.
pub fn run(lint_passed: bool, cmds: &TestCommands, done: &CommandOutcomes) -> (step: CheckStep)
    ensures
        !lint_passed ==> step == CheckStep::Finish(lint_failed_summary(*cmds)),
        lint_passed && cmds.c is Some && done.c is None ==> step == CheckStep::Run(
            CommandSlot::C,
            cmds.c.unwrap(),
        ),
        lint_passed && !(cmds.c is Some && done.c is None) && cmds.rust is Some && done.rust is None
            ==> step == CheckStep::Run(CommandSlot::Rust, cmds.rust.unwrap()),
        lint_passed && !(cmds.c is Some && done.c is None) && !(cmds.rust is Some && done.rust is None)
            && cmds.feature_rust is Some && done.feature_rust is None ==> step == CheckStep::Run(
            CommandSlot::FeatureRust,
            cmds.feature_rust.unwrap(),
        ),
        lint_passed && !(cmds.c is Some && done.c is None) && !(cmds.rust is Some && done.rust is None)
            && !(cmds.feature_rust is Some && done.feature_rust is None) ==> step == CheckStep::Finish(
            final_summary(*cmds, *done),
        ),
{
    if !lint_passed {
        return CheckStep::Finish(
            CheckSummary {
                lint: StepResult::Failed,
                c_tests: StepResult::Skipped,
                rust_tests: StepResult::Skipped,
                feature_rust: match &cmds.feature_rust {
                    Some(_) => Some(StepResult::Skipped),
                    None => None,
                },
            },
        );
    }
    match (&cmds.c, done.c) {
        (Some(c), None) => {
            return CheckStep::Run(CommandSlot::C, c.clone());
        },
        _ => {},
    }
    match (&cmds.rust, done.rust) {
        (Some(c), None) => {
            return CheckStep::Run(CommandSlot::Rust, c.clone());
        },
        _ => {},
    }
    match (&cmds.feature_rust, done.feature_rust) {
        (Some(c), None) => {
            return CheckStep::Run(CommandSlot::FeatureRust, c.clone());
        },
        _ => {},
    }
    CheckStep::Finish(
        CheckSummary {
            lint: StepResult::Passed,
            c_tests: run_optional_command(&cmds.c, done.c),
            rust_tests: run_optional_command(&cmds.rust, done.rust),
            feature_rust: match &cmds.feature_rust {
                Some(_) => Some(run_optional_command(&cmds.feature_rust, done.feature_rust)),
                None => None,
            },
        },
    )
}

/// The overall result: passed when no step failed.
pub open spec fn overall_name(s: CheckSummary) -> Seq<char> {
    if s.spec_overall_passed() {
        "passed"@
    } else {
        "failed"@
    }
}

/// The printed summary of a check.
pub open spec fn summary_text(s: CheckSummary) -> Seq<char> {
    "\n=== Check ===\n"@ + "lint          : "@ + s.lint.spec_name() + "\n"@ + "c tests       : "@
        + s.c_tests.spec_name() + "\n"@ + "rust tests    : "@ + s.rust_tests.spec_name() + "\n"@
        + match s.feature_rust {
        Some(f) => "feature_rust  : "@ + f.spec_name() + "\n"@,
        None => seq![],
    } + "\n"@ + "overall       : "@ + overall_name(s) + "\n"@
}

/// The summary of a check, as it is printed.
pub fn render_summary(summary: &CheckSummary) -> (out: String)
    ensures
        out@ == summary_text(*summary),
{
    let overall = if summary.overall_passed() {
        StepResult::Passed
    } else {
        StepResult::Failed
    };
    let mut out = String::new();
    push_str(&mut out, "\n=== Check ===\n");
    push_str(&mut out, "lint          : ");
    push_str(&mut out, summary.lint.as_str());
    push_str(&mut out, "\n");
    push_str(&mut out, "c tests       : ");
    push_str(&mut out, summary.c_tests.as_str());
    push_str(&mut out, "\n");
    push_str(&mut out, "rust tests    : ");
    push_str(&mut out, summary.rust_tests.as_str());
    push_str(&mut out, "\n");
    match summary.feature_rust {
        Some(f) => {
            push_str(&mut out, "feature_rust  : ");
            push_str(&mut out, f.as_str());
            push_str(&mut out, "\n");
        },
        None => {},
    }
    push_str(&mut out, "\n");
    push_str(&mut out, "overall       : ");
    push_str(&mut out, overall.as_str());
    push_str(&mut out, "\n");
    proof {
        assert(out@ =~= summary_text(*summary));
    }
    out
}

/// A step that failed fails the whole check, and a check in which no step
/// failed passes: the overall verdict is "passed" exactly when neither the
/// lint, nor the C tests, nor the Rust tests, nor the extra Rust command
/// failed.  Skipped steps are no failures.
pub proof fn lemma_overall_verdict(s: CheckSummary)
    ensures
        s.lint == StepResult::Failed ==> !s.spec_overall_passed(),
        s.c_tests == StepResult::Failed ==> !s.spec_overall_passed(),
        s.rust_tests == StepResult::Failed ==> !s.spec_overall_passed(),
        s.feature_rust == Some(StepResult::Failed) ==> !s.spec_overall_passed(),
        (s.lint != StepResult::Failed && s.c_tests != StepResult::Failed && s.rust_tests
            != StepResult::Failed && s.feature_rust != Some(StepResult::Failed)) ==> s.spec_overall_passed(),
        overall_name(s) == (if s.spec_overall_passed() { "passed"@ } else { "failed"@ }),
{
}

/// When a configured test command exits with a failure, the check's summary
/// says the check failed: its last line reads `overall       : failed`.
pub proof fn lemma_failed_command_fails_check(cmds: TestCommands, o: CommandOutcomes)
    requires
        (cmds.c is Some && o.c == Some(false)) || (cmds.rust is Some && o.rust == Some(false)) || (
        cmds.feature_rust is Some && o.feature_rust == Some(false)),
    ensures
        !final_summary(cmds, o).spec_overall_passed(),
        summary_text(final_summary(cmds, o)).subrange(
            summary_text(final_summary(cmds, o)).len() - 23,
            summary_text(final_summary(cmds, o)).len() as int,
        ) == seq![
            'o', 'v', 'e', 'r', 'a', 'l', 'l', ' ', ' ', ' ', ' ', ' ', ' ', ' ', ':', ' ', 'f', 'a', 'i',
            'l', 'e', 'd', '\n'
        ],
{
    let t = summary_text(final_summary(cmds, o));
    reveal_strlit("overall       : ");
    reveal_strlit("failed");
    reveal_strlit("\n");
    let tail = "overall       : "@ + "failed"@ + "\n"@;
    assert(tail.len() == 23);
    assert(t.subrange(t.len() - 23, t.len() as int) =~= tail);
}

/// A failed lint fails the check and runs none of the test commands.
pub proof fn lemma_failed_lint_fails_check(cmds: TestCommands)
    ensures
        !lint_failed_summary(cmds).spec_overall_passed(),
        lint_failed_summary(cmds).c_tests == StepResult::Skipped,
        lint_failed_summary(cmds).rust_tests == StepResult::Skipped,
{
}

} // verus!

use c2rust_tests_helper::check::{render_summary, run, run_optional_command, CheckStep, CheckSummary, CommandOutcomes, CommandSlot, StepResult};
use c2rust_tests_helper::collect::{collect_tests, has_extension, is_c_source, is_skipped_dir, merge_discovered, ScannedFile};
use c2rust_tests_helper::config::{Config, Discovery, DiscoveryPattern, FeatureSource, Project, TestCommands, TestEntry, TestStatus};
use c2rust_tests_helper::feature::index::{FeatureIndex, FeatureModule};
use c2rust_tests_helper::lint::lint;
use c2rust_tests_helper::manifest;
use c2rust_tests_helper::report::{count_status, report};
use c2rust_tests_helper::runner::tail_lines;

fn commands(c: Option<&str>, rust: Option<&str>, feature_rust: Option<&str>) -> TestCommands {
    TestCommands {
        c: c.map(|s| s.to_string()),
        rust: rust.map(|s| s.to_string()),
        feature_rust: feature_rust.map(|s| s.to_string()),
    }
}

fn entry(name: &str, source: Option<&str>) -> TestEntry {
    TestEntry {
        c_test: name.to_string(),
        source_file: source.map(|s| s.to_string()),
        ..Default::default()
    }
}

fn config(tests: Vec<TestEntry>, patterns: Vec<&str>) -> Config {
    Config {
        version: 1,
        project: Project { root: ".".to_string(), feature: "demo".to_string() },
        feature_source: FeatureSource { kind: "c2rust-demo".to_string(), root: "feat".to_string() },
        test_commands: TestCommands::default(),
        discovery: Discovery {
            paths: vec!["tests".to_string()],
            extensions: vec!["c".to_string()],
            patterns: patterns
                .into_iter()
                .map(|p| DiscoveryPattern { regex: p.to_string(), framework: String::new() })
                .collect(),
        },
        tests,
    }
}

fn module(name: &str, functions: &[&str], vars: &[&str]) -> FeatureModule {
    FeatureModule {
        name: name.to_string(),
        selected_file: None,
        functions: functions.iter().map(|s| s.to_string()).collect(),
        decls: vec![],
        vars: vars.iter().map(|s| s.to_string()).collect(),
    }
}

fn index() -> FeatureIndex {
    FeatureIndex {
        feature_root: "feat".to_string(),
        selected_files: vec!["src/math.c".to_string(), "src/io.c".to_string()],
        modules: vec![module("mod_math", &["add", "sub"], &["counter"]), module("mod_io", &["read"], &[])],
    }
}

#[test]
fn step_results_and_overall() {
    assert_eq!(StepResult::Passed.as_str(), "passed");
    assert_eq!(StepResult::Failed.as_str(), "failed");
    assert_eq!(StepResult::Skipped.as_str(), "skipped");
    let ok = CheckSummary { lint: StepResult::Passed, c_tests: StepResult::Skipped, rust_tests: StepResult::Passed, feature_rust: None };
    assert!(ok.overall_passed());
    let bad = CheckSummary { feature_rust: Some(StepResult::Failed), ..ok };
    assert!(!bad.overall_passed());
    assert_eq!(
        render_summary(&bad),
        "\n=== Check ===\nlint          : passed\nc tests       : skipped\nrust tests    : passed\nfeature_rust  : failed\n\noverall       : failed\n"
    );
    assert_eq!(run_optional_command(&None, Some(false)), StepResult::Skipped);
    assert_eq!(run_optional_command(&Some("x".to_string()), Some(true)), StepResult::Passed);
    assert_eq!(run_optional_command(&Some("x".to_string()), Some(false)), StepResult::Failed);
}

#[test]
fn check_runs_configured_commands_in_order() {
    let cmds = commands(Some("make test"), None, Some("cargo test -p f"));
    let mut done = CommandOutcomes { c: None, rust: None, feature_rust: None };
    let mut ran = Vec::new();
    let summary = loop {
        match run(true, &cmds, &done) {
            CheckStep::Run(slot, cmd) => {
                ran.push(cmd.clone());
                match slot {
                    CommandSlot::C => done.c = Some(true),
                    CommandSlot::Rust => done.rust = Some(true),
                    CommandSlot::FeatureRust => done.feature_rust = Some(false),
                }
            }
            CheckStep::Finish(s) => break s,
        }
    };
    assert_eq!(ran, vec!["make test".to_string(), "cargo test -p f".to_string()]);
    assert_eq!(
        summary,
        CheckSummary { lint: StepResult::Passed, c_tests: StepResult::Passed, rust_tests: StepResult::Skipped, feature_rust: Some(StepResult::Failed) }
    );
    match run(false, &cmds, &CommandOutcomes { c: None, rust: None, feature_rust: None }) {
        CheckStep::Finish(s) => assert_eq!(
            s,
            CheckSummary { lint: StepResult::Failed, c_tests: StepResult::Skipped, rust_tests: StepResult::Skipped, feature_rust: Some(StepResult::Skipped) }
        ),
        CheckStep::Run(..) => panic!("lint failed: nothing may run"),
    }
}

#[test]
fn lint_reports_every_problem() {
    let mut missing_file = entry("t1", None);
    missing_file.selected_file = Some("src/gone.c".to_string());
    let mut no_module = entry("t2", None);
    no_module.symbols = vec!["add".to_string()];
    let mut bad_symbol = entry("t3", None);
    bad_symbol.module = Some("mod_math".to_string());
    bad_symbol.symbols = vec!["add".to_string(), "mul".to_string()];
    let mut unknown_module = entry("t4", None);
    unknown_module.module = Some("mod_gone".to_string());
    unknown_module.symbols = vec!["x".to_string()];
    let mut ported = entry("t5", None);
    ported.status = TestStatus::Ported;
    let mut skipped = entry("t6", None);
    skipped.status = TestStatus::Skipped;
    let cfg = config(vec![missing_file, no_module, bad_symbol, unknown_module, ported, skipped], vec![]);
    let errors = lint(&cfg, &index()).unwrap_err();
    assert_eq!(
        errors.errors,
        vec![
            "[t1] selected_file \"src/gone.c\" not found in feature surface (meta/selected_files.json)".to_string(),
            "[t2] has symbols [\"add\"] but no module specified; add a `module` field".to_string(),
            "[t3] symbol \"mul\" not found in module \"mod_math\" (known: [\"add\", \"sub\", \"counter\"])".to_string(),
            "[t4] module \"mod_gone\" not found in feature surface".to_string(),
            "[t5] status is 'ported' but rust_tests is empty; add at least one Rust test name".to_string(),
            "[t6] status is 'skipped' but notes is missing; explain why this test is skipped".to_string(),
        ]
    );
    assert_eq!(errors.message(), "6 lint error(s) found");

    let mut fine = entry("ok", None);
    fine.module = Some("mod_io".to_string());
    fine.symbols = vec!["read".to_string()];
    fine.status = TestStatus::Skipped;
    fine.notes = Some("internal".to_string());
    assert_eq!(lint(&config(vec![fine, entry("p", None)], vec![]), &index()).ok(), Some(2));
}

#[test]
fn merge_adds_only_new_tests_sorted_and_is_idempotent() {
    let mut cfg = config(vec![entry("test_old", Some("b.c"))], vec![]);
    let found = vec![
        ("test_z".to_string(), "a.c".to_string()),
        ("test_old".to_string(), "b.c".to_string()),
        ("test_old".to_string(), "a.c".to_string()),
        ("test_z".to_string(), "a.c".to_string()),
        ("test_a".to_string(), "b.c".to_string()),
    ];
    assert_eq!(merge_discovered(&mut cfg, &found), 3);
    let keys: Vec<(String, Option<String>)> = cfg.tests.iter().map(|t| (t.c_test.clone(), t.source_file.clone())).collect();
    assert_eq!(
        keys,
        vec![
            ("test_old".to_string(), Some("b.c".to_string())),
            ("test_old".to_string(), Some("a.c".to_string())),
            ("test_z".to_string(), Some("a.c".to_string())),
            ("test_a".to_string(), Some("b.c".to_string())),
        ]
    );
    assert!(cfg.tests[1..].iter().all(|t| t.status == TestStatus::Pending && t.module.is_none()));
    assert_eq!(merge_discovered(&mut cfg, &found), 0);
    assert_eq!(cfg.tests.len(), 4);
}

#[test]
fn collect_runs_patterns_over_files() {
    let mut cfg = config(vec![], vec![r"(?m)^void\s+(test_\w+)", r"TEST_CASE"]);
    let files = vec![
        ScannedFile { source_file: "tests/b.c".to_string(), content: "void test_two(void) {}\nvoid test_one(void) {}\n".to_string() },
        ScannedFile { source_file: "tests/a.c".to_string(), content: "void test_one(void) {}\n".to_string() },
    ];
    let outcome = collect_tests(&mut cfg, &files).ok().unwrap();
    assert_eq!(outcome.added, 3);
    assert_eq!(outcome.patterns_without_group, vec![1]);
    let keys: Vec<(&str, &str)> = cfg.tests.iter().map(|t| (t.c_test.as_str(), t.source_file.as_deref().unwrap())).collect();
    assert_eq!(keys, vec![("test_one", "tests/a.c"), ("test_one", "tests/b.c"), ("test_two", "tests/b.c")]);
    assert_eq!(collect_tests(&mut cfg, &files).ok().unwrap().added, 0);

    let mut bad = config(vec![], vec![r"ok_(\w+)", r"broken(", r"also[broken"]);
    let err = collect_tests(&mut bad, &files).err().unwrap();
    assert_eq!(err.index, 1);
    assert_eq!(err.message(), "invalid discovery regex: broken(");
    assert!(bad.tests.is_empty());
}

#[test]
fn report_figures() {
    let mut a = entry("a", None);
    a.status = TestStatus::Ported;
    a.selected_file = Some("src/math.c".to_string());
    a.module = Some("mod_math".to_string());
    a.symbols = vec!["add".to_string(), "counter".to_string()];
    let mut b = entry("b", None);
    b.selected_file = Some("src/math.c".to_string());
    b.symbols = vec!["add".to_string(), "read".to_string()];
    let cfg = config(vec![a, b, entry("c", None)], vec![]);
    assert_eq!(count_status(&cfg, TestStatus::Pending), 2);
    let r = report(&cfg, &index());
    assert_eq!((r.total, r.pending, r.ported, r.skipped, r.not_applicable), (3, 2, 1, 0, 0));
    assert_eq!((r.total_files, r.total_modules, r.total_symbols), (2, 2, 4));
    assert_eq!((r.referenced_files, r.referenced_modules, r.referenced_symbols), (1, 1, 3));
    assert_eq!(r.unmapped_files, vec!["src/io.c".to_string()]);
    assert_eq!(r.unmapped_modules, vec!["mod_io".to_string()]);
    assert_eq!(r.unmapped_symbols, vec!["mod_math/sub".to_string(), "mod_io/read".to_string()]);
}

#[test]
fn manifest_entries_validation_and_counts() {
    let e = manifest::TestEntry::new("test_x".to_string(), "x.c".to_string());
    assert_eq!(e.status, manifest::MigrationStatus::Pending);
    assert!(e.rust_tests.is_empty() && e.notes.is_none());
    assert_eq!(manifest::MigrationStatus::NotApplicable.as_str(), "n/a");
    assert_eq!(manifest::default_extensions(), vec!["c".to_string()]);

    let mk = |c: &str, rust: &str, paths: Vec<&str>, patterns: Vec<&str>| manifest::Manifest {
        config: manifest::Config {
            discovery: manifest::DiscoveryConfig {
                paths: paths.into_iter().map(|s| s.to_string()).collect(),
                extensions: vec!["c".to_string()],
                patterns: patterns.into_iter().map(|p| manifest::DiscoveryPattern { regex: p.to_string(), framework: None }).collect(),
            },
            c_test_command: c.to_string(),
            rust_test_command: rust.to_string(),
            working_dir: None,
            env: vec![],
        },
        tests: vec![],
    };
    let msg = |m: &manifest::Manifest| m.validate().err().map(|e| e.message());
    assert_eq!(msg(&mk("make", "cargo test", vec!["t"], vec![r"(test_\w+)"])), None);
    assert_eq!(msg(&mk(" \t", "cargo", vec!["t"], vec!["x"])), Some("manifest validation error: `config.c_test_command` must not be empty".to_string()));
    assert_eq!(msg(&mk("make", "", vec!["t"], vec!["x"])), Some("manifest validation error: `config.rust_test_command` must not be empty".to_string()));
    assert_eq!(msg(&mk("make", "cargo", vec![], vec!["x"])), Some("manifest validation error: `config.discovery.paths` must not be empty".to_string()));
    assert_eq!(msg(&mk("make", "cargo", vec!["t"], vec![])), Some("manifest validation error: `config.discovery.patterns` must not be empty".to_string()));
    assert_eq!(
        msg(&mk("make", "cargo", vec!["t"], vec!["ok", "bad(", "worse["])),
        Some("manifest validation error: discovery pattern [1] has invalid regex: 'bad('".to_string())
    );

    let mut m = mk("make", "cargo", vec!["t"], vec!["x"]);
    let mut ported = manifest::TestEntry::new("a".to_string(), "a.c".to_string());
    ported.status = manifest::MigrationStatus::Ported;
    m.tests = vec![ported, manifest::TestEntry::new("b".to_string(), "b.c".to_string()), manifest::TestEntry::new("c".to_string(), "c.c".to_string())];
    assert_eq!(m.status_counts(), vec![("pending".to_string(), 2), ("ported".to_string(), 1)]);
}

#[test]
fn output_tail() {
    assert_eq!(tail_lines("a\nb\n", 2), "a\nb\n");
    assert_eq!(tail_lines("a\nb\nc\r\nd", 2), "c\nd");
    assert_eq!(tail_lines("", 0), "");
    assert_eq!(tail_lines("x\n", 0), "");
}

#[test]
fn feature_index_summary() {
    let mut ix = index();
    ix.modules[0].selected_file = Some("src/math.c".to_string());
    let text = ix.summary_text();
    assert_eq!(
        text,
        "Feature root : feat\n\nSelected source files (2):\n  src/math.c\n  src/io.c\n\nModules (2):\n  [mod_math]\n    selected file: src/math.c\n    functions (2):\n      add\n      sub\n    vars (1):\n      counter\n  [mod_io]\n    functions (1):\n      read\n"
    );
}

#[test]
fn test_has_extension_compares_last_suffix_case_insensitively() {
    let exts = vec!["c".to_string(), "H".to_string()];
    assert!(has_extension("src/foo.c", &exts));
    assert!(has_extension("src/FOO.C", &exts));
    assert!(has_extension("include/bar.h", &exts));
    assert!(has_extension("a/b.tar.c", &exts));
    assert!(!has_extension("a/b.c.txt", &exts));
    assert!(!has_extension("src/.c", &exts));
    assert!(!has_extension("src/makefile", &exts));
    assert!(!has_extension("src/foo.", &exts));
    assert!(!has_extension("src/foo.cc", &exts));
}

#[test]
fn test_is_c_source_wants_lower_case_c() {
    assert!(is_c_source("tests/test_a.c"));
    assert!(is_c_source("test_a.c"));
    assert!(!is_c_source("tests/test_a.C"));
    assert!(!is_c_source("tests/test_a.h"));
    assert!(!is_c_source("tests/.c"));
    assert!(!is_c_source("tests/c"));
}

#[test]
fn test_is_skipped_dir_names_target_and_git() {
    assert!(is_skipped_dir("target"));
    assert!(is_skipped_dir(".git"));
    assert!(!is_skipped_dir("src"));
    assert!(!is_skipped_dir("targets"));
}

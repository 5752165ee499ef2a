use c2rust_tests_helper::mapping::{render_map_report_with, select_candidates};
use c2rust_tests_helper::{
    discover_tests, infer_candidate_symbols, parse_interface_report, render_discovery_report,
    render_map_report, CTestCase, InterfaceSymbol, SourceFile, SymbolKind,
};

#[test]
fn test_infer_candidate_symbols_word_boundary() {
    let symbols = vec![
        InterfaceSymbol {
            module: "mod_src_foo".to_string(),
            name: "add".to_string(),
            kind: SymbolKind::Function,
        },
        InterfaceSymbol {
            module: "mod_src_foo".to_string(),
            name: "counter".to_string(),
            kind: SymbolKind::Variable,
        },
    ];

    // "add" appears as a whole word
    let candidates = infer_candidate_symbols("test_add\nassert(add(1,2) == 3);", &symbols);
    assert!(candidates.contains(&"add".to_string()));
    assert!(!candidates.contains(&"counter".to_string()));

    // "add" as a substring should NOT match "add_extra"
    let candidates = infer_candidate_symbols("add_extra(1);", &symbols);
    assert!(!candidates.contains(&"add".to_string()));

    // both symbols present
    let candidates = infer_candidate_symbols("add(1); counter = 0;", &symbols);
    assert!(candidates.contains(&"add".to_string()));
    assert!(candidates.contains(&"counter".to_string()));
}

fn sym(module: &str, name: &str) -> InterfaceSymbol {
    InterfaceSymbol { module: module.to_string(), name: name.to_string(), kind: SymbolKind::Function }
}

#[test]
fn candidates_are_sorted_and_unique() {
    let symbols = vec![sym("m2", "zeta"), sym("m1", "alpha"), sym("m3", "zeta")];
    let c = infer_candidate_symbols("zeta(alpha); zeta();", &symbols);
    assert_eq!(c, vec!["alpha".to_string(), "zeta".to_string()]);
    assert_eq!(infer_candidate_symbols("nothing here", &symbols), Vec::<String>::new());
}

#[test]
fn candidate_names_are_matched_literally() {
    // Meta characters in a name are escaped: `a.b` does not match `axb`.
    let symbols = vec![sym("m", "a.b"), sym("m", "c+")];
    assert_eq!(infer_candidate_symbols("axb c+ ", &symbols), Vec::<String>::new());
    assert_eq!(infer_candidate_symbols("x = a.b;", &symbols), vec!["a.b".to_string()]);
}

#[test]
fn selection_keeps_marked_names_once_in_order() {
    let symbols = vec![sym("m", "b"), sym("m", "a"), sym("n", "b"), sym("n", "c")];
    let r = select_candidates(&symbols, &vec![true, true, true, false]);
    assert_eq!(r, vec!["a".to_string(), "b".to_string()]);
    assert_eq!(select_candidates(&symbols, &vec![false; 4]), Vec::<String>::new());
}

#[test]
fn map_report_text() {
    let tests = vec![
        CTestCase { name: "test_a".to_string(), file: "a.c".to_string(), body: "{}".to_string() },
        CTestCase { name: "test_b".to_string(), file: "b.c".to_string(), body: "{}".to_string() },
    ];
    let cands = vec![vec!["add".to_string(), "sub".to_string()], vec![]];
    let report = render_map_report_with("tests/c", &tests, &cands, 7);
    assert_eq!(
        report,
        "# C Test to Interface Candidate Mapping Report\n\nScanned: `tests/c`\n\n## Candidate Mappings\n\n| test function | file | candidate symbols |\n|---|---|---|\n| test_a | a.c | add, sub |\n| test_b | b.c | - |\n\n## Summary\n\n| metric | value |\n|---|---|\n| total C tests | 2 |\n| total interface symbols | 7 |\n"
    );
}

#[test]
fn test_discover_and_map_write_reports() {
    let report_text = r#"
# Init Interface Report — feature `demo`

## mod_src_foo

### `add` (function)
"#;
    let files = vec![SourceFile {
        path: "tests/c/test_math.c".to_string(),
        content: r#"
void test_add_smoke(void) {
    assert(add(1, 2) == 3);
}
"#
        .to_string(),
    }];
    let symbols = parse_interface_report(report_text).unwrap();
    let tests = discover_tests(&files);

    let discovery = render_discovery_report("tests/c", &tests);
    assert!(discovery.contains("# C Test Discovery Report"));
    assert!(discovery.contains("| test function | file |"));
    assert!(discovery.contains("test_add_smoke"));
    assert!(discovery.contains("| total C tests | 1 |"));

    let mapping = render_map_report("tests/c", &tests, &symbols);
    assert!(mapping.contains("# C Test to Interface Candidate Mapping Report"));
    assert!(mapping.contains("| test function | file | candidate symbols |"));
    assert!(mapping.contains("test_add_smoke"));
    assert!(mapping.contains("add"));
    assert!(mapping.contains("| total C tests | 1 |"));
    assert!(mapping.contains("| total interface symbols | 1 |"));
    assert!(mapping.contains("| test_add_smoke | tests/c/test_math.c | add |"));
}

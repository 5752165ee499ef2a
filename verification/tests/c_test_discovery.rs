use c2rust_tests_helper::{discover_tests, extract_function_body, render_discovery_report, CTestCase, SourceFile};

fn source(path: &str, content: &str) -> SourceFile {
    SourceFile { path: path.to_string(), content: content.to_string() }
}

fn body_of(text: &str) -> String {
    let chars: Vec<char> = text.chars().collect();
    extract_function_body(&chars).into_iter().collect()
}

#[test]
fn test_discover_c_tests_finds_test_functions() {
    // Two C files, in the order a directory walk sorts them.
    let files = vec![
        source(
            "tests/test_counter.c",
            r#"
void test_counter_inc(void) {
    counter = 0;
    counter_inc();
    assert(counter == 1);
}
"#,
        ),
        source(
            "tests/test_math.c",
            r#"
#include <assert.h>

void test_add(void) {
    assert(add(1, 2) == 3);
}

int test_add_negative(void) {
    return add(-1, -2) == -3 ? 0 : 1;
}

static void helper_not_a_test(void) {}
"#,
        ),
    ];
    let found = discover_tests(&files);
    assert_eq!(found.len(), 3);

    let names: Vec<&str> = found.iter().map(|t| t.name.as_str()).collect();
    assert!(names.contains(&"test_add"));
    assert!(names.contains(&"test_add_negative"));
    assert!(names.contains(&"test_counter_inc"));
    assert!(!names.contains(&"helper_not_a_test"));
}

#[test]
fn test_discover_c_tests_ignores_non_c_files() {
    // Only the `.c` file reaches discovery; the `.rs` file is left out by the walk.
    let files = vec![source("test_bar.c", "void test_bar(void) {}\n")];
    let found = discover_tests(&files);
    assert_eq!(found.len(), 1);
    assert_eq!(found[0].name, "test_bar");
}

#[test]
fn discovered_tests_are_sorted_by_name_then_file_order() {
    let files = vec![
        source("a.c", "void test_b(void) { one(); }\nint test_a(void) { return 0; }\n"),
        source("b.c", "void test_b(void) { two(); }\n"),
    ];
    let found = discover_tests(&files);
    let rows: Vec<(String, String, String)> =
        found.iter().map(|t| (t.name.clone(), t.file.clone(), t.body.clone())).collect();
    assert_eq!(
        rows,
        vec![
            ("test_a".to_string(), "a.c".to_string(), "{ return 0; }".to_string()),
            ("test_b".to_string(), "a.c".to_string(), "{ one(); }".to_string()),
            ("test_b".to_string(), "b.c".to_string(), "{ two(); }".to_string()),
        ]
    );
}

#[test]
fn tests_of_one_name_are_ordered_by_path_components() {
    // As strings "a-b.c" < "a/b.c"; as paths `a` < `a-b.c`, so `a/b.c` comes first.
    let files = vec![
        source("a-b.c", "void test_same(void) {}\n"),
        source("x/b.c", "void test_same(void) {}\n"),
        source("a/b.c", "void test_same(void) {}\n"),
    ];
    let found = discover_tests(&files);
    let paths: Vec<String> = found.iter().map(|t| t.file.clone()).collect();
    assert_eq!(paths, vec!["a/b.c".to_string(), "a-b.c".to_string(), "x/b.c".to_string()]);
}

#[test]
fn header_rules() {
    let content = "  void test_indented(void) {}\nvoid\ntest_split_line (void) { x; }\nvoidtest_x(void) {}\nint test_(void) {}\nint test_y;\nint test_z\n(void) { {nested} }\n";
    let found = discover_tests(&vec![source("h.c", content)]);
    let names: Vec<&str> = found.iter().map(|t| t.name.as_str()).collect();
    assert_eq!(names, vec!["test_split_line", "test_z"]);
    assert_eq!(found[0].body, "{ x; }");
    assert_eq!(found[1].body, "{ {nested} }");
}

#[test]
fn prototype_takes_the_next_body() {
    let content = "void test_p(void);\nstatic void helper(void) { h(); }\nvoid test_p(void) { p(); }\n";
    let found = discover_tests(&vec![source("p.c", content)]);
    assert_eq!(found.len(), 2);
    assert_eq!(found[0].body, "{ h(); }");
    assert_eq!(found[1].body, "{ p(); }");
}

#[test]
fn function_body_extraction() {
    assert_eq!(body_of("(void) } { a { b } c } d }"), "{ a { b } c }");
    assert_eq!(body_of("no braces"), "");
    assert_eq!(body_of("{ open { never closed"), "{ open { never closed");
    assert_eq!(body_of("{}"), "{}");
}

#[test]
fn discovery_report_text() {
    let tests = vec![CTestCase {
        name: "test_add_smoke".to_string(),
        file: "tests/c/test_math.c".to_string(),
        body: "{}".to_string(),
    }];
    let report = render_discovery_report("tests/c", &tests);
    assert_eq!(
        report,
        "# C Test Discovery Report\n\nScanned: `tests/c`\n\n## Discovered Test Functions\n\n| test function | file |\n|---|---|\n| test_add_smoke | tests/c/test_math.c |\n\n## Summary\n\n| metric | value |\n|---|---|\n| total C tests | 1 |\n"
    );
    let empty = render_discovery_report(".", &vec![]);
    assert!(empty.ends_with("| total C tests | 0 |\n"));
}

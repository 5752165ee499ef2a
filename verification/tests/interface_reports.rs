use c2rust_tests_helper::{parse_interface_report, render_interface_symbols, InterfaceSymbol, SymbolKind};

#[test]
fn test_parse_interface_report_function_and_variable() {
    let report = r#"
# Init Interface Report — feature `demo`

---

## mod_src_foo

### `add` (function)

- **Rust symbol:** `add`

### `counter` (variable)
- **FFI:** `static mut counter: c_int`
"#;
    let symbols = parse_interface_report(report).unwrap();
    assert_eq!(symbols.len(), 2);
    assert_eq!(symbols[0].module, "mod_src_foo");
    assert_eq!(symbols[0].name, "add");
    assert_eq!(symbols[0].kind, SymbolKind::Function);
    assert_eq!(symbols[1].name, "counter");
    assert_eq!(symbols[1].kind, SymbolKind::Variable);
}

#[test]
fn test_parse_interface_report_skips_non_module_sections() {
    let report = r#"
## Summary

### `ignored` (function)

## `lib.rs` — Shared FFI

### `also_ignored` (variable)

## mod_src_foo

### `kept_symbol` (function)

## my_lib.rs_parser

### `also_kept` (function)
"#;
    let symbols = parse_interface_report(report).unwrap();
    assert_eq!(symbols.len(), 2);
    assert_eq!(symbols[0].module, "mod_src_foo");
    assert_eq!(symbols[0].name, "kept_symbol");
    assert_eq!(symbols[1].module, "my_lib.rs_parser");
    assert_eq!(symbols[1].name, "also_kept");
}

#[test]
fn test_parse_merge_report_symbols() {
    let report = r#"
# Merge Interface Report — feature `default`

## Summary

| Item | Count |
|---|---|
| modules | 1 |

## `lib.rs` — Shared FFI

- `shared_fn`

## mod_src_foo

### Final Rust functions

- `add`
- `compute`

### Final Rust variables

- `counter`

### Module-local FFI

- `local_fn`

### Source files merged

- `mod_src_foo/mod.rs`
"#;
    let symbols = parse_interface_report(report).unwrap();
    assert_eq!(symbols.len(), 4);
    assert_eq!(symbols[0].module, "lib.rs");
    assert_eq!(symbols[0].name, "shared_fn");
    assert_eq!(symbols[0].kind, SymbolKind::Function);
    assert_eq!(symbols[1].module, "mod_src_foo");
    assert_eq!(symbols[1].name, "add");
    assert_eq!(symbols[1].kind, SymbolKind::Function);
    assert_eq!(symbols[2].name, "compute");
    assert_eq!(symbols[2].kind, SymbolKind::Function);
    assert_eq!(symbols[3].name, "counter");
    assert_eq!(symbols[3].kind, SymbolKind::Variable);
}

fn sym(module: &str, name: &str, kind: SymbolKind) -> InterfaceSymbol {
    InterfaceSymbol { module: module.to_string(), name: name.to_string(), kind }
}

#[test]
fn init_report_symbols_are_sorted_by_module_name_and_kind() {
    let report = "## mod_b\n### `zeta` (function)\n### `alpha` (variable)\n## mod_a\n### `same` (variable)\n### `same` (function)\n";
    let symbols = parse_interface_report(report).unwrap();
    assert_eq!(
        symbols,
        vec![
            sym("mod_a", "same", SymbolKind::Function),
            sym("mod_a", "same", SymbolKind::Variable),
            sym("mod_b", "alpha", SymbolKind::Variable),
            sym("mod_b", "zeta", SymbolKind::Function),
        ]
    );
}

#[test]
fn init_report_heading_grammar() {
    // Tabs count as whitespace, trailing whitespace is allowed, names are trimmed,
    // text after the kind or a missing space before it rejects the line.
    let report = "##\tmod_x  \r\n###\t` padded ` (function)   \r\n### `tail` (function) extra\n### `nospace`(function)\n###`nogap` (function)\n### `` (function)\n### `other` (method)\n";
    let symbols = parse_interface_report(report).unwrap();
    assert_eq!(symbols, vec![sym("mod_x", "padded", SymbolKind::Function)]);
}

#[test]
fn init_report_symbols_before_any_module_are_ignored() {
    let report = "### `orphan` (function)\n## lib.rs helpers\n### `shared` (function)\n## lib.rsx\n### `kept` (variable)\n";
    let symbols = parse_interface_report(report).unwrap();
    assert_eq!(symbols, vec![sym("lib.rsx", "kept", SymbolKind::Variable)]);
}

#[test]
fn merge_report_detection_uses_first_nonblank_line() {
    let merge = "\n   \n  # Merge Interface Report\n## mod_m\n### Final Rust variables\n- `v`\n- `v`\n";
    assert_eq!(
        parse_interface_report(merge).unwrap(),
        vec![sym("mod_m", "v", SymbolKind::Variable), sym("mod_m", "v", SymbolKind::Variable)]
    );
    // Not the first non-blank line: read as an init report, where list items mean nothing.
    let init = "# Init\n# Merge Interface Report\n## mod_m\n### Final Rust variables\n- `v`\n";
    assert_eq!(parse_interface_report(init).unwrap(), vec![]);
    assert_eq!(parse_interface_report("").unwrap(), vec![]);
}

#[test]
fn merge_report_lists_follow_subsections() {
    let report = "# Merge Interface Report\n## mod_q\n- `before_any_list`\n### Final Rust functions\n*(none)*\n- `f1`\n### Notes\n- `still_function`\n### Module-local FFI\n- `hidden`\n### FINAL RUST VARIABLES\n- ` spaced `  \n- `bad` trailing\n## Summary\n- `after_summary`\n## `LIB.RS` shared\n- `shared`\n";
    let symbols = parse_interface_report(report).unwrap();
    assert_eq!(
        symbols,
        vec![
            sym("lib.rs", "shared", SymbolKind::Function),
            sym("mod_q", "f1", SymbolKind::Function),
            sym("mod_q", "spaced", SymbolKind::Variable),
            sym("mod_q", "still_function", SymbolKind::Function),
        ]
    );
}

#[test]
fn symbol_kind_names_and_symbol_table() {
    assert_eq!(SymbolKind::Function.as_str(), "function");
    assert_eq!(SymbolKind::Variable.as_str(), "variable");
    let table = render_interface_symbols(&vec![
        sym("mod_a", "add", SymbolKind::Function),
        sym("mod_a", "counter", SymbolKind::Variable),
    ]);
    assert_eq!(
        table,
        "| module | symbol | kind |\n|---|---|---|\n| mod_a | add | function |\n| mod_a | counter | variable |\n"
    );
    assert_eq!(render_interface_symbols(&vec![]), "| module | symbol | kind |\n|---|---|---|\n");
}

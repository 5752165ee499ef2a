use c2rust_tests_helper::feature::loader::{
    collect_stems, infer_selected_file_for_module, load, load_selected_files, module_dir_names,
    module_name_for_selected_file, module_name_matches_selected_file, sanitize_component,
    selected_file_source_key, validate_layout, DirEntryInfo, LayoutProbe, LoadError, ModuleListing,
};

const ROOT: &str = "/ws/.c2rust/demo";

fn strings(v: &[&str]) -> Vec<String> {
    v.iter().map(|s| s.to_string()).collect()
}

fn probe(root: bool, meta: bool, selected: bool, rust_src: bool) -> LayoutProbe {
    LayoutProbe {
        root_exists: root,
        meta_exists: meta,
        selected_files_exists: selected,
        rust_src_exists: rust_src,
    }
}

#[test]
fn layout_is_checked_in_order() {
    assert_eq!(validate_layout(&probe(true, true, true, true)), Ok(()));
    assert_eq!(validate_layout(&probe(false, false, false, false)), Err(LoadError::MissingRoot));
    assert_eq!(validate_layout(&probe(true, false, false, true)), Err(LoadError::MissingMeta));
    assert_eq!(validate_layout(&probe(true, true, false, false)), Err(LoadError::MissingSelectedFiles));
    assert_eq!(validate_layout(&probe(true, true, true, false)), Err(LoadError::MissingRustSrc));
}

#[test]
fn load_error_messages_name_the_root() {
    assert_eq!(LoadError::MissingRoot.message("/f"), "feature source root does not exist: /f");
    assert_eq!(
        LoadError::MissingMeta.message("/f"),
        "expected `meta/` directory inside feature root: /f"
    );
    assert_eq!(
        LoadError::MissingSelectedFiles.message("/f"),
        "expected `meta/selected_files.json` inside feature root: /f"
    );
    assert_eq!(
        LoadError::MissingRustSrc.message("/f"),
        "expected `rust/src/` directory inside feature root: /f"
    );
    assert_eq!(
        LoadError::BadSelectedFiles.message("/f"),
        "failed to parse /f/meta/selected_files.json"
    );
    assert_eq!(
        LoadError::BadSelectedFiles.message("/f/"),
        "failed to parse /f/meta/selected_files.json"
    );
    assert_eq!(LoadError::BadSelectedFiles.message(""), "failed to parse meta/selected_files.json");
}

#[test]
fn selected_files_are_read_as_a_json_string_array() {
    assert_eq!(
        load_selected_files("[\"c/a.c\", \"c/b\\u0041.c\"]"),
        Ok(strings(&["c/a.c", "c/bA.c"]))
    );
    assert_eq!(load_selected_files("[]"), Ok(Vec::new()));
    assert_eq!(load_selected_files("{\"a\": 1}"), Err(LoadError::BadSelectedFiles));
    assert_eq!(load_selected_files("[1, 2]"), Err(LoadError::BadSelectedFiles));
    assert_eq!(load_selected_files("not json"), Err(LoadError::BadSelectedFiles));
}

#[test]
fn components_are_sanitized() {
    let s = |x: &str| -> String { sanitize_component(&x.chars().collect()).into_iter().collect() };
    assert_eq!(s("__Foo--bar__"), "Foo_bar");
    assert_eq!(s("json-parse"), "json_parse");
    assert_eq!(s("a.b.c"), "a_b_c");
    assert_eq!(s("plain9"), "plain9");
    assert_eq!(s("  "), "");
    assert_eq!(s("é"), "");
    assert_eq!(s(""), "");
    for x in ["__Foo--bar__", "a..b", "_x_", "ok"] {
        let once = s(x);
        assert_eq!(s(&once), once);
        assert!(!once.starts_with('_') && !once.ends_with('_') && !once.contains("__"));
    }
}

#[test]
fn module_names_follow_the_selected_file() {
    assert_eq!(
        module_name_for_selected_file(ROOT, "/ws/.c2rust/demo/c/src/math.c"),
        Some("mod_src_math".to_string())
    );
    assert_eq!(
        module_name_for_selected_file(ROOT, "c/lib/json-parse.c"),
        Some("mod_lib_json_parse".to_string())
    );
    assert_eq!(
        module_name_for_selected_file(ROOT, "project/.c2rust/demo/c/util.c.c2rust"),
        Some("mod_util".to_string())
    );
    assert_eq!(module_name_for_selected_file(ROOT, "foo.c"), Some("mod_foo".to_string()));
    assert_eq!(module_name_for_selected_file(ROOT, "c\\x\\y.c"), Some("mod_x_y".to_string()));
    assert_eq!(module_name_for_selected_file(ROOT, "--.c"), None);
    assert!(module_name_matches_selected_file(ROOT, "mod_src_math", "/ws/.c2rust/demo/c/src/math.c"));
    assert!(!module_name_matches_selected_file(ROOT, "mod_math", "/ws/.c2rust/demo/c/src/math.c"));
}

#[test]
fn source_keys_drop_one_more_extension() {
    assert_eq!(selected_file_source_key(ROOT, "c/lib/json-parse.c"), Some("lib/json-parse".to_string()));
    assert_eq!(selected_file_source_key(ROOT, "c/a/b.tar.gz"), Some("a/b".to_string()));
    assert_eq!(selected_file_source_key(ROOT, "/ws/.c2rust/demo/c/src/math.c"), Some("src/math".to_string()));
}

#[test]
fn a_module_gets_its_selected_file_only_when_one_matches() {
    assert_eq!(
        infer_selected_file_for_module(ROOT, "mod_a", &strings(&["c/a.c", "c/b.c"])),
        Some("c/a.c".to_string())
    );
    assert_eq!(infer_selected_file_for_module(ROOT, "mod_a", &strings(&["c/a.c", "a.c"])), None);
    assert_eq!(infer_selected_file_for_module(ROOT, "mod_z", &strings(&["c/a.c"])), None);
}

#[test]
fn stems_are_prefixed_rust_files_sorted() {
    let names = strings(&["fun_sub.rs", "fun_add.rs", "decl_x.rs", "fun_.rs", "fun_mul.txt", "var_y.rs"]);
    assert_eq!(collect_stems(&names, "fun_"), strings(&["", "add", "sub"]));
    assert_eq!(collect_stems(&names, "decl_"), strings(&["x"]));
    assert_eq!(collect_stems(&names, "var_"), strings(&["y"]));
}

#[test]
fn module_directories_are_mod_dirs_in_name_order() {
    let entry = |name: &str, is_dir: bool| DirEntryInfo { name: name.to_string(), is_dir };
    let entries = vec![entry("mod_b", true), entry("mod_a", true), entry("mod_c", false), entry("other", true)];
    assert_eq!(module_dir_names(&entries), strings(&["mod_a", "mod_b"]));
}

#[test]
fn feature_index_from_listings() {
    let listings = vec![
        ModuleListing { name: "mod_math".to_string(), file_names: strings(&["fun_add.rs", "var_pi.rs", "decl_t.rs"]) },
        ModuleListing { name: "mod_io".to_string(), file_names: strings(&["fun_write.rs", "fun_read.rs"]) },
    ];
    let index = load(ROOT, "[\"c/math.c\", \"c/io.c\", \"c/io.h\"]", &listings).unwrap();
    assert_eq!(index.feature_root, ROOT);
    assert_eq!(index.selected_files, strings(&["c/math.c", "c/io.c", "c/io.h"]));
    assert_eq!(index.modules.len(), 2);
    assert_eq!(index.modules[0].name, "mod_math");
    assert_eq!(index.modules[0].selected_file, Some("c/math.c".to_string()));
    assert_eq!(index.modules[0].functions, strings(&["add"]));
    assert_eq!(index.modules[0].decls, strings(&["t"]));
    assert_eq!(index.modules[0].vars, strings(&["pi"]));
    assert_eq!(index.modules[1].name, "mod_io");
    assert_eq!(index.modules[1].selected_file, None);
    assert_eq!(index.modules[1].functions, strings(&["read", "write"]));
    assert!(matches!(load(ROOT, "[", &listings), Err(LoadError::BadSelectedFiles)));
}

use c2rust_tests_helper::report_location::{MAP_OUTPUT_FILE, DISCOVER_OUTPUT_FILE};
use c2rust_tests_helper::{
    resolve_default_report_path, resolve_output_path, resolve_output_path_direct, FeatureReports,
    ReportLocation,
};

fn feature(name: &str, has_init: bool, has_merge: bool) -> FeatureReports {
    FeatureReports { name: name.to_string(), has_init, has_merge }
}

#[test]
fn test_resolve_default_report_path_prefers_init_then_merge() {
    let resolved = resolve_default_report_path(true, true, &vec![]).unwrap();
    assert_eq!(resolved.relative_path(), "meta/init-interface-report.md");
    let resolved = resolve_default_report_path(false, true, &vec![]).unwrap();
    assert_eq!(resolved.relative_path(), "meta/merge-interface-report.md");
}

#[test]
fn test_resolve_default_report_path_errors_when_missing() {
    let err = resolve_default_report_path(false, false, &vec![]).unwrap_err();
    let msg = err.message();
    assert!(msg.contains("meta/init-interface-report.md"));
    assert!(msg.contains("meta/merge-interface-report.md"));
    assert!(msg.contains(".c2rust/<feature>/meta/{init,merge}-interface-report.md"));
}

#[test]
fn test_resolve_default_report_path_finds_c2rust_feature_init() {
    let resolved = resolve_default_report_path(false, false, &vec![feature("default", true, false)]).unwrap();
    assert_eq!(resolved, ReportLocation::FeatureInit("default".to_string()));
    assert!(resolved.in_feature_dir());
    assert_eq!(resolved.relative_path(), ".c2rust/default/meta/init-interface-report.md");
}

#[test]
fn test_resolve_default_report_path_finds_c2rust_feature_merge() {
    let resolved = resolve_default_report_path(false, false, &vec![feature("default", false, true)]).unwrap();
    assert_eq!(resolved, ReportLocation::FeatureMerge("default".to_string()));
    assert_eq!(resolved.relative_path(), ".c2rust/default/meta/merge-interface-report.md");
}

#[test]
fn test_resolve_default_report_path_prefers_meta_over_c2rust() {
    let resolved = resolve_default_report_path(true, false, &vec![feature("default", true, false)]).unwrap();
    assert_eq!(resolved, ReportLocation::Init);
    assert!(!resolved.in_feature_dir());
}

#[test]
fn test_resolve_default_report_path_c2rust_prefers_init_over_merge() {
    let resolved = resolve_default_report_path(false, false, &vec![feature("default", true, true)]).unwrap();
    assert_eq!(resolved, ReportLocation::FeatureInit("default".to_string()));
}

#[test]
fn feature_directories_are_taken_in_name_order() {
    let features = vec![feature("zeta", true, false), feature("beta", false, true), feature("alpha", false, true), feature("gamma", true, false)];
    let resolved = resolve_default_report_path(false, false, &features).unwrap();
    assert_eq!(resolved, ReportLocation::FeatureInit("gamma".to_string()));
    let only_merge = vec![feature("zeta", false, true), feature("beta", false, true), feature("none", false, false)];
    let resolved = resolve_default_report_path(false, false, &only_merge).unwrap();
    assert_eq!(resolved, ReportLocation::FeatureMerge("beta".to_string()));
    assert!(resolve_default_report_path(false, false, &vec![feature("x", false, false)]).is_err());
}

#[test]
fn output_paths() {
    assert_eq!(
        resolve_output_path("meta/init-interface-report.md", None, MAP_OUTPUT_FILE),
        "meta/c-test-map-report.md"
    );
    assert_eq!(resolve_output_path("report.md", None, MAP_OUTPUT_FILE), "c-test-map-report.md");
    assert_eq!(resolve_output_path("/r.md", None, MAP_OUTPUT_FILE), "/c-test-map-report.md");
    assert_eq!(resolve_output_path("/", None, MAP_OUTPUT_FILE), "./c-test-map-report.md");
    assert_eq!(resolve_output_path("", None, MAP_OUTPUT_FILE), "./c-test-map-report.md");
    assert_eq!(resolve_output_path("a//b/", None, "x.md"), "a/x.md");
    assert_eq!(resolve_output_path("./r.md", None, "x.md"), "./x.md");
    assert_eq!(resolve_output_path("x/./../y", None, "z"), "x/./../z");
    assert_eq!(
        resolve_output_path("meta/r.md", Some("out/custom.md".to_string()), MAP_OUTPUT_FILE),
        "out/custom.md"
    );
    assert_eq!(resolve_output_path_direct(None, DISCOVER_OUTPUT_FILE), "c-test-discovery-report.md");
    assert_eq!(resolve_output_path_direct(Some("o.md".to_string()), DISCOVER_OUTPUT_FILE), "o.md");
}

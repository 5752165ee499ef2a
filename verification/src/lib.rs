//! Helpers for moving a C code base's tests onto its generated Rust
//! modules: discovery of C test functions, reading the interface reports
//! that list a feature's exported symbols, mapping each test onto the
//! symbols it mentions, and keeping a manifest of tests and their status.
//!
//! Text is parsed and rendered here; reading and writing files, running
//! commands and the command line live with the callers.
pub mod c_tests;
pub mod check;
pub mod cli;
pub mod collect;
pub mod components;
pub mod config;
pub mod debug_text;
pub mod feature;
pub mod interface_report;
pub mod lint;
pub mod manifest;
pub mod mapping;
pub mod order;
pub mod paths;
pub mod patterns;
pub mod report;
pub mod report_location;
pub mod runner;
pub mod text;

pub use c_tests::{discover_tests, extract_function_body, render_discovery_report, CTestCase, SourceFile};
pub use interface_report::{
    parse_init_report, parse_interface_report, parse_merge_report, render_interface_symbols,
    InterfaceSymbol, SymbolKind,
};
pub use mapping::{infer_candidate_symbols, render_map_report};
pub use paths::{resolve_output_path, resolve_output_path_direct};
pub use report_location::{resolve_default_report_path, FeatureReports, ReportLocation, ReportNotFound};

use qubit_infra_style::check;
use qubit_infra_style::project::env_flag;
use qubit_infra_style::project::is_skipped_directory_name;
use qubit_infra_style::project::ExceptionSource;
use qubit_infra_style::project::ProjectSnapshot;
use qubit_infra_style::project::WalkEntry;
use qubit_infra_style::project::WalkedTree;
use qubit_infra_style::project_relative_path;
use qubit_infra_style::report::render_text;
use qubit_infra_style::rules::snake_case;
use qubit_infra_style::rules::valid_copyright_line;
use qubit_infra_style::Diagnostic;
use qubit_infra_style::StyleError;

const ROOT: &str = "/work/project";

const HEADER: &str = "// =============================================================================\n//    Copyright (c) 2025 - 2026 Haixing Hu.\n//\n//    SPDX-License-Identifier: Apache-2.0\n//\n//    Licensed under the Apache License, Version 2.0.\n// =============================================================================\n";

fn chars(s: &str) -> Vec<char> {
    s.chars().collect()
}

fn tree(root: &str, files: &[(&str, &str)]) -> WalkedTree {
    let mut entries = vec![WalkEntry::Directory { path: root.to_string() }];
    for (name, text) in files {
        entries.push(WalkEntry::File { path: format!("{root}/{name}"), text: Some(text.to_string()) });
    }
    WalkedTree { root: root.to_string(), is_dir: true, entries }
}

fn snapshot(trees: Vec<WalkedTree>) -> ProjectSnapshot {
    ProjectSnapshot {
        root: ROOT.to_string(),
        has_manifest: false,
        has_fuzz_manifest: false,
        windows_paths: false,
        formatter_toolchain: None,
        formatter_config: None,
        exceptions: ExceptionSource::Absent,
        workspace: None,
        source_test_pairs_switch: None,
        inline_tests_switch: None,
        trees,
    }
}

/// The diagnostics of one source file `src/<name>`.
fn source_diagnostics(name: &str, text: &str) -> Vec<Diagnostic> {
    check(&snapshot(vec![tree(&format!("{ROOT}/src"), &[(name, text)])]), None, None).unwrap()
}

/// The diagnostics of one test file `tests/<name>`.
fn test_diagnostics(name: &str, text: &str) -> Vec<Diagnostic> {
    check(&snapshot(vec![tree(&format!("{ROOT}/tests"), &[(name, text)])]), None, None).unwrap()
}

fn codes_and_lines(diagnostics: &[Diagnostic]) -> Vec<(String, usize)> {
    diagnostics.iter().map(|d| (d.code.clone(), d.line)).collect()
}

fn pairs(expected: &[(&str, usize)]) -> Vec<(String, usize)> {
    expected.iter().map(|(c, l)| (c.to_string(), *l)).collect()
}

#[test]
fn every_diagnostic_is_an_error_of_schema_one() {
    let diagnostics = source_diagnostics("wrong.rs", "use std::*;\nuse a::{b, c};\npub struct GoodName;\n");
    assert_eq!(4, diagnostics.len());
    for d in &diagnostics {
        assert_eq!(1, d.schema_version);
        assert_eq!("error", d.severity);
        assert_eq!("src/wrong.rs", d.path);
    }
}

#[test]
fn import_rules_report_each_import_line() {
    let text = "use crate::a::B;\nuse std::fmt::Debug;\nuse serde::Serialize;\n\n\nuse self::c::D;\n#[allow(unused_imports)]\nfn f() {}\n#[allow(unused_imports)]\nuse std::mem;\n";
    let diagnostics = source_diagnostics("imports.rs", text);
    assert_eq!(
        pairs(&[("STYLE005", 2), ("STYLE006", 3), ("STYLE006", 6), ("STYLE007", 7), ("STYLE007", 9)]),
        codes_and_lines(&diagnostics)
    );
    assert_eq!("imports must be ordered standard, external, then current-crate", diagnostics[0].message);
    assert_eq!("import groups must be separated by exactly one blank line", diagnostics[1].message);
    assert_eq!("unused_imports allows are not allowed", diagnostics[3].message);
}

#[test]
fn unused_imports_allow_inside_an_import_block_is_reported() {
    let text = "use std::fmt::Debug;\n#[allow(unused_imports)]\nuse std::io::Read;\n";
    let diagnostics = source_diagnostics("a.rs", text);
    assert_eq!(pairs(&[("STYLE007", 2)]), codes_and_lines(&diagnostics));
    assert_eq!("src/a.rs", diagnostics[0].path);
    assert_eq!("unused_imports allows are not allowed", diagnostics[0].message);
}

#[test]
fn well_ordered_imports_pass() {
    let text = "use std::fmt::Debug;\nuse core::mem;\n\n#[cfg(feature = \"x\")]\nuse serde::Serialize;\n\npub use crate::a::B;\n";
    assert!(source_diagnostics("imports.rs", text).is_empty());
}

#[test]
fn brace_list_and_wildcard_are_reported_on_their_line() {
    let diagnostics = source_diagnostics("imports.rs", "\nuse std::{fmt, mem};\npub use a::*;\n");
    assert_eq!(pairs(&[("STYLE003", 2), ("STYLE004", 3), ("STYLE006", 3)]), codes_and_lines(&diagnostics));
    assert_eq!("use declarations must import one object; brace lists are not allowed", diagnostics[0].message);
}

#[test]
fn aggregation_mod_file_must_not_collect_imports() {
    let diagnostics = source_diagnostics("a/mod.rs", "pub mod b;\nuse b::C;\n");
    assert_eq!(pairs(&[("STYLE016", 2)]), codes_and_lines(&diagnostics));
    assert_eq!("src/a/mod.rs", diagnostics[0].path);
    assert_eq!("aggregation-only mod.rs files must not collect private imports for child modules", diagnostics[0].message);
}

#[test]
fn aggregation_files_only_declare_modules() {
    let diagnostics = source_diagnostics("lib.rs", "pub mod a;\npub use a::B;\npub fn helper() {}\nstruct Inner;\n");
    assert_eq!(pairs(&[("STYLE009", 0), ("STYLE009", 0)]), codes_and_lines(&diagnostics));
    assert_eq!("lib.rs and mod.rs files must only declare modules and re-export items", diagnostics[0].message);
    assert!(source_diagnostics("lib.rs", "pub mod a;\npub use a::B;\n").is_empty());
}

#[test]
fn one_public_type_per_file() {
    let diagnostics = source_diagnostics("shapes.rs", "pub struct Circle;\npub enum Square {}\n");
    assert_eq!(pairs(&[("STYLE010", 0)]), codes_and_lines(&diagnostics));
    assert_eq!(
        "file contains multiple public top-level types; split them or add a reviewed .infra/style/exceptions.toml entry",
        diagnostics[0].message
    );
}

#[test]
fn public_type_lives_in_its_snake_case_file() {
    let diagnostics = source_diagnostics("http_server.rs", "pub struct HTTPServer;\n");
    assert_eq!(pairs(&[("STYLE011", 0)]), codes_and_lines(&diagnostics));
    assert_eq!("struct 'HTTPServer' should live in 'h_t_t_p_server.rs', not 'http_server.rs'", diagnostics[0].message);
    assert!(source_diagnostics("good_name.rs", "pub struct GoodName;\n").is_empty());
    assert!(source_diagnostics("macros.rs", "pub struct GoodName;\n").is_empty());
}

#[test]
fn snake_case_splits_before_capitals() {
    assert_eq!(chars("good_name"), snake_case(&chars("GoodName")));
    assert_eq!(chars("h_t_t_p"), snake_case(&chars("HTTP")));
    assert_eq!(chars("already_snake"), snake_case(&chars("already_snake")));
    assert_eq!(chars(""), snake_case(&chars("")));
}

#[test]
fn coverage_cfg_is_reported_per_line() {
    let diagnostics = source_diagnostics("feature.rs", "pub fn a() {}\n#[cfg(coverage)]\nfn b() {}\n#[cfg(not(coverage))]\nfn c() {}\n");
    assert_eq!(pairs(&[("STYLE008", 2), ("STYLE008", 4)]), codes_and_lines(&diagnostics));
    assert_eq!("coverage-specific cfg is not allowed in source", diagnostics[0].message);
}

#[test]
fn test_file_naming_follows_parsed_tests() {
    let nested = "mod cases {\n    #[test]\n    fn works() {}\n}\n";
    let diagnostics = test_diagnostics("checks.rs", nested);
    assert_eq!(pairs(&[("STYLE001", 0)]), codes_and_lines(&diagnostics));
    assert_eq!("test files should be named '*_tests.rs' or 'mod.rs'", diagnostics[0].message);
    assert!(test_diagnostics("checks_tests.rs", nested).is_empty());
    assert!(test_diagnostics("helpers.rs", "pub fn helper() {}\n").is_empty());
    assert!(test_diagnostics("common/checks.rs", nested).is_empty());
}

#[test]
fn test_functions_found_only_by_parsing_count_as_tests() {
    let diagnostics = test_diagnostics("checks.rs", "#[ test ]\nfn works() {}\n");
    assert_eq!(pairs(&[("STYLE001", 0)]), codes_and_lines(&diagnostics));
    assert!(test_diagnostics("checks.rs", "#[ test ]\nfn works( {}\n").is_empty());
    assert!(test_diagnostics("checks.rs", "#[cfg( test )]\nfn helper() {}\n").len() == 1);
}

#[test]
fn redirects_are_reported_outside_support_code() {
    let diagnostics = test_diagnostics("a_tests.rs", "#[test]\nfn t() {}\ninclude!(\"x.rs\");\n");
    assert_eq!(pairs(&[("STYLE002", 3)]), codes_and_lines(&diagnostics));
    assert!(test_diagnostics("fixtures/shared.rs", "include!(\"x.rs\");\n").is_empty());
}

#[test]
fn header_is_required_only_in_cargo_projects() {
    let src = format!("{ROOT}/src");
    let mut project = snapshot(vec![tree(&src, &[("lib.rs", "pub mod a;\n")])]);
    project.has_manifest = true;
    let diagnostics = check(&project, Some("src"), None).unwrap();
    assert_eq!(pairs(&[("DOC-001", 1)]), codes_and_lines(&diagnostics));
    assert_eq!(
        "Rust files must begin with the accepted seven-line copyright and license header",
        diagnostics[0].message
    );
    let text = format!("{HEADER}pub mod a;\n");
    let mut good = snapshot(vec![tree(&src, &[("lib.rs", text.as_str())])]);
    good.has_manifest = true;
    assert!(check(&good, Some("src"), None).unwrap().is_empty());
}

#[test]
fn copyright_years_are_checked() {
    assert!(valid_copyright_line(&chars("//    Copyright (c) 2025 Haixing Hu.")));
    assert!(valid_copyright_line(&chars("//    Copyright (c) 2025 - 2030 Haixing Hu.")));
    assert!(valid_copyright_line(&chars("//    Copyright (c) 2025 - 2025 Haixing Hu.")));
    assert!(valid_copyright_line(&chars("//    Copyright (c) 2031 Haixing Hu.")));
    assert!(!valid_copyright_line(&chars("//    Copyright (c) 2026 - 2027 Haixing Hu.")));
    assert!(!valid_copyright_line(&chars("//    Copyright (c) 2025 - 2024 Haixing Hu.")));
    assert!(!valid_copyright_line(&chars("//    Copyright (c) 2024 Haixing Hu.")));
    assert!(!valid_copyright_line(&chars("//    Copyright (c) 2025-2026 Haixing Hu.")));
    assert!(!valid_copyright_line(&chars("//    Copyright (c) 20x5 Haixing Hu.")));
    assert!(!valid_copyright_line(&chars("//  Copyright (c) 2025 Haixing Hu.")));
    assert!(!valid_copyright_line(&chars("//    Copyright (c) 2025 Someone Else.")));
}

#[test]
fn internal_test_tree_must_be_connected() {
    let src = format!("{ROOT}/src");
    let internal = format!("{src}/tests");
    let project = snapshot(vec![
        tree(&src, &[("lib.rs", "pub mod a;\n"), ("tests/a_tests.rs", "#[test]\nfn t() {}\n")]),
        tree(&internal, &[("a_tests.rs", "#[test]\nfn t() {}\n")]),
    ]);
    let diagnostics = check(&project, None, None).unwrap();
    assert_eq!(pairs(&[("STYLE012", 0)]), codes_and_lines(&diagnostics));
    assert_eq!("src/tests", diagnostics[0].path);
    assert_eq!("src/tests must be connected from the crate root with #[cfg(test)] mod tests;", diagnostics[0].message);
}

#[test]
fn walk_failure_and_unreadable_files_stop_the_check() {
    let src = format!("{ROOT}/src");
    let mut broken = tree(&src, &[("lib.rs", "pub mod a;\n")]);
    broken.entries.push(WalkEntry::Failed);
    let error = check(&snapshot(vec![broken]), None, None).unwrap_err();
    assert_eq!(StyleError::WalkFailed, error);
    assert_eq!("failed to walk style source tree", error.message());

    let mut unreadable = tree(&src, &[]);
    unreadable.entries.push(WalkEntry::File { path: format!("{src}/bad.rs"), text: None });
    unreadable.entries.push(WalkEntry::File { path: format!("{src}/notes.txt"), text: None });
    let error = check(&snapshot(vec![unreadable]), None, None).unwrap_err();
    assert_eq!(StyleError::Unreadable(format!("{src}/bad.rs")), error);
}

#[test]
fn non_rust_files_and_source_test_dirs_are_skipped() {
    let src = format!("{ROOT}/src");
    let project = snapshot(vec![tree(&src, &[("notes.txt", "use std::*;"), ("tests/x.rs", "use std::*;\n")])]);
    assert!(check(&project, None, None).unwrap().is_empty());
}

#[test]
fn render_text_lists_each_diagnostic_then_a_summary() {
    assert_eq!("Rust style checks passed.\n", render_text(&vec![]));
    let diagnostics = source_diagnostics("wrong.rs", "use std::*;\npub struct GoodName;\n");
    assert_eq!(
        "error: src/wrong.rs:1: wildcard imports are not allowed\nerror: src/wrong.rs: struct 'GoodName' should live in 'good_name.rs', not 'wrong.rs'\nRust style checks failed with 2 issue(s).\n",
        render_text(&diagnostics)
    );
}

#[test]
fn switch_values_follow_the_shell_conventions() {
    for value in ["1", "true", "True", "TRUE"] {
        assert!(env_flag(Some(value), false), "{value}");
    }
    for value in ["0", "false", "False", "FALSE"] {
        assert!(!env_flag(Some(value), true), "{value}");
    }
    assert!(env_flag(Some("yes"), true));
    assert!(!env_flag(Some("yes"), false));
    assert!(!env_flag(None, false));
    assert!(env_flag(None, true));
}

#[test]
fn skipped_directories_are_target_and_git() {
    assert!(is_skipped_directory_name("target"));
    assert!(is_skipped_directory_name(".git"));
    assert!(!is_skipped_directory_name("src"));
    assert!(!is_skipped_directory_name("Target"));
}

#[test]
fn relative_paths_outside_the_project_stay_normalized() {
    assert_eq!("/elsewhere/x.rs", project_relative_path("/work/project", "/elsewhere//x.rs"));
    assert_eq!("/work/projects/x.rs", project_relative_path("/work/project", "/work/projects/x.rs"));
    assert_eq!("src/lib.rs", project_relative_path("/work/project//", "/work/project/src/lib.rs"));
    assert_eq!("", project_relative_path("/work/project", "/work/project"));
    assert_eq!("/Work/Project/x.rs", project_relative_path("/work/project", "/Work/Project/x.rs"));
}

#[test]
fn only_plain_cfg_test_and_plain_pub_count() {
    assert!(test_diagnostics("checks.rs", "#[::cfg(test)]\nfn helper() {}\n").is_empty());
    assert!(test_diagnostics("checks.rs", "#[cfg::<X>(test)]\nfn helper() {}\n").is_empty());
    assert_eq!(1, test_diagnostics("checks.rs", "#[::rstest]\nfn case() {}\n").len());
    assert!(source_diagnostics("b.rs", "pub(crate) struct Alpha;\npub(super) enum Beta {}\n").is_empty());
    assert!(source_diagnostics("b.rs", "struct Alpha;\ntrait Beta {}\n").is_empty());
    let diagnostics = source_diagnostics("b.rs", "pub trait Alpha {}\n");
    assert_eq!("trait 'Alpha' should live in 'alpha.rs', not 'b.rs'", diagnostics[0].message);
}

#[test]
fn entries_a_walk_would_not_list_are_ignored() {
    let src = format!("{ROOT}/src");
    let mut walked = tree(&src, &[("lib.rs", "pub mod a;\n")]);
    walked.entries.push(WalkEntry::File { path: format!("{src}/target/gen.rs"), text: Some("use std::*;\n".to_string()) });
    walked.entries.push(WalkEntry::File { path: format!("{src}/a/.git/x.rs"), text: None });
    walked.entries.push(WalkEntry::File { path: "/elsewhere/x.rs".to_string(), text: Some("use std::*;\n".to_string()) });
    walked.entries.push(WalkEntry::File { path: src.clone(), text: None });
    assert!(check(&snapshot(vec![walked]), None, None).unwrap().is_empty());
    let target = format!("{ROOT}/target");
    let skipped = tree(&target, &[("x.rs", "use std::*;\n")]);
    let project = snapshot(vec![skipped]);
    assert!(check(&project, Some("target"), None).unwrap().is_empty());
}

#[test]
fn linked_files_count_as_files() {
    let src = format!("{ROOT}/src");
    let internal = format!("{src}/tests");
    let mut source = tree(&src, &[]);
    source.entries.push(WalkEntry::Other {
        path: format!("{src}/lib.rs"),
        follows_to_file: true,
        text: Some("#[cfg(test)]\nmod tests;\n".to_string()),
    });
    let project = snapshot(vec![source, tree(&internal, &[("a_tests.rs", "#[test]\nfn t() {}\n")])]);
    assert!(check(&project, None, None).unwrap().is_empty());

    let mut unlinked = tree(&src, &[]);
    unlinked.entries.push(WalkEntry::Other { path: format!("{src}/lib.rs"), follows_to_file: false, text: None });
    let project = snapshot(vec![unlinked, tree(&internal, &[("a_tests.rs", "#[test]\nfn t() {}\n")])]);
    assert_eq!(pairs(&[("STYLE012", 0)]), codes_and_lines(&check(&project, None, None).unwrap()));
}

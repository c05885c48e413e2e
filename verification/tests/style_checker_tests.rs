use qubit_infra_style::check;
use qubit_infra_style::check_project;
use qubit_infra_style::fix_project;
use qubit_infra_style::project::CargoMetadata;
use qubit_infra_style::project::CargoPackage;
use qubit_infra_style::project::ExceptionSource;
use qubit_infra_style::project::ProjectSnapshot;
use qubit_infra_style::project::WalkEntry;
use qubit_infra_style::project::WalkedTree;
use qubit_infra_style::project_relative_path;
use qubit_infra_style::ExceptionConfig;
use qubit_infra_style::FormatterOutcome;
use qubit_infra_style::StyleError;
use qubit_infra_style::StyleException;

const ROOT: &str = "/work/project";

/// A walked directory holding the given files (relative to the tree root).
fn tree(root: &str, files: &[(&str, &str)]) -> WalkedTree {
    let mut entries = vec![WalkEntry::Directory { path: root.to_string() }];
    for (name, text) in files {
        entries.push(WalkEntry::File {
            path: format!("{root}/{name}"),
            text: if name.ends_with(".rs") { Some(text.to_string()) } else { None },
        });
    }
    WalkedTree { root: root.to_string(), is_dir: true, entries }
}

fn snapshot(has_manifest: bool, trees: Vec<WalkedTree>) -> ProjectSnapshot {
    ProjectSnapshot {
        root: ROOT.to_string(),
        has_manifest,
        has_fuzz_manifest: false,
        windows_paths: false,
        formatter_toolchain: None,
        formatter_config: None,
        exceptions: ExceptionSource::Absent,
        workspace: None,
        source_test_pairs_switch: None,
        inline_tests_switch: None,
        trees,
    }
}

fn single_package(name: &str, dir: &str) -> Option<Result<CargoMetadata, String>> {
    let id = format!("path+file://{dir}#{name}@0.1.0");
    Some(Ok(CargoMetadata {
        packages: vec![CargoPackage { id: id.clone(), manifest_path: format!("{dir}/Cargo.toml") }],
        workspace_default_members: vec![id.clone()],
        workspace_members: vec![id],
    }))
}

fn exceptions(entries: &[(&str, &str, &str)]) -> ExceptionSource {
    let exceptions: Vec<StyleException> = entries
        .iter()
        .map(|(rule, path, reason)| StyleException {
            rule: rule.to_string(),
            path: path.to_string(),
            reason: reason.to_string(),
        })
        .collect();
    let targets = vec![true; exceptions.len()];
    ExceptionSource::Loaded { config: ExceptionConfig { format: 1, exceptions }, targets }
}

const HEADER: &str = "// =============================================================================\n//    Copyright (c) 2025 - 2026 Haixing Hu.\n//\n//    SPDX-License-Identifier: Apache-2.0\n//\n//    Licensed under the Apache License, Version 2.0.\n// =============================================================================\n";

#[test]
fn reports_type_file_and_wildcard_import_violations() {
    let src = format!("{ROOT}/src");
    let project = snapshot(false, vec![tree(&src, &[("wrong.rs", "use std::*;\npub struct GoodName;\n")])]);
    let diagnostics = check(&project, None, None).unwrap();
    assert!(diagnostics.iter().any(|item| item.code == "STYLE004"));
    assert!(diagnostics.iter().any(|item| item.code == "STYLE011"));
}

#[test]
fn configured_exception_matches_only_the_exact_path_and_rule() {
    let tests = format!("{ROOT}/tests");
    let mut project = snapshot(
        false,
        vec![tree(
            &tests,
            &[
                ("legacy_tests.rs", "include!(\"legacy_impl.rs\");\n"),
                ("wrong_name.rs", "#[test]\nfn test_example() {}\ninclude!(\"other_impl.rs\");\n"),
                ("other_tests.rs", "// qubit-style: allow test-redirect\ninclude!(\"legacy_impl.rs\");\n"),
            ],
        )],
    );
    project.exceptions = exceptions(&[(
        "test-redirect",
        "tests/wrong_name.rs",
        "This fixture intentionally redirects to shared test code.",
    )]);

    let diagnostics = check(&project, None, None).unwrap();

    assert_eq!(3, diagnostics.len());
    assert!(diagnostics.iter().any(|item| { item.path == "tests/wrong_name.rs" && item.code == "STYLE001" }));
    assert!(diagnostics.iter().any(|item| { item.path == "tests/other_tests.rs" && item.code == "STYLE002" }));
    assert!(diagnostics.iter().any(|item| { item.path == "tests/legacy_tests.rs" && item.code == "STYLE002" }));
}

#[test]
fn test_filename_rule_applies_only_to_files_containing_tests() {
    let tests = format!("{ROOT}/tests");
    let project = snapshot(
        false,
        vec![tree(
            &tests,
            &[("support/fixture.rs", "pub fn fixture() {}\n"), ("wrong_name.rs", "#[test]\nfn test_example() {}\n")],
        )],
    );

    let diagnostics = check(&project, None, None).unwrap();

    assert_eq!(1, diagnostics.len());
    assert_eq!("STYLE001", diagnostics[0].code);
    assert_eq!("tests/wrong_name.rs", diagnostics[0].path);
}

#[test]
fn test_redirect_is_reported_even_when_file_contains_a_test() {
    let tests = format!("{ROOT}/tests");
    let project = snapshot(
        false,
        vec![tree(&tests, &[("redirect_tests.rs", "#[test]\nfn test_example() {}\ninclude!(\"shared.rs\");\n")])],
    );

    let diagnostics = check(&project, None, None).unwrap();

    assert!(diagnostics.iter().any(|item| { item.path == "tests/redirect_tests.rs" && item.code == "STYLE002" }));
}

#[test]
fn checks_benchmark_files_for_explicit_imports() {
    let src = format!("{ROOT}/src");
    let benches = format!("{ROOT}/benches");
    let project = snapshot(
        false,
        vec![tree(&src, &[("lib.rs", "pub fn value() {}\n")]), tree(&benches, &[("value.rs", "use std::*;\n")])],
    );

    let diagnostics = check(&project, None, None).unwrap();

    assert!(diagnostics.iter().any(|item| { item.path == "benches/value.rs" && item.code == "STYLE004" }));
}

#[test]
fn missing_rust_header_is_reported() {
    let src = format!("{ROOT}/src");
    let mut project = snapshot(true, vec![tree(&src, &[("lib.rs", "pub fn value() {}\n")])]);
    project.workspace = single_package("header-fixture", ROOT);

    let diagnostics = check(&project, None, None).unwrap();

    assert!(diagnostics.iter().any(|item| { item.path == "src/lib.rs" && item.code == "DOC-001" }));
}

#[test]
fn coverage_exception_requires_source_allow_comment() {
    let src = format!("{ROOT}/src");
    let text = format!("{HEADER}#[cfg(coverage)]\npub fn value() {{}}\n");
    let mut project = snapshot(true, vec![tree(&src, &[("lib.rs", text.as_str())])]);
    project.workspace = single_package("coverage-fixture", ROOT);
    project.exceptions = exceptions(&[("coverage-cfg", "src/lib.rs", "Coverage-only compatibility branch.")]);

    let diagnostics = check(&project, None, None).unwrap();

    assert!(diagnostics.iter().any(|item| { item.path == "src/lib.rs" && item.code == "STYLE008" }));
}

#[test]
fn project_relative_paths_match_mixed_windows_separators() {
    let project = r"D:\a\rs-fs\rs-fs";
    let file = r"D:/\/a/rs-fs/rs-fs/tests/example_tests.rs";

    assert_eq!("tests/example_tests.rs", project_relative_path(project, file));
}

#[test]
fn project_relative_paths_match_windows_case_insensitive_roots() {
    let project = r"D:\A\Repo";
    let file = r"d:/a/repo/tests/Example.rs";

    assert_eq!("tests/Example.rs", project_relative_path(project, file));
}

#[test]
fn project_relative_paths_match_unc_roots_case_insensitively() {
    let project = r"\\SERVER\Share\Repo";
    let file = r"\\server\share\repo\tests\Example.rs";

    assert_eq!("tests/Example.rs", project_relative_path(project, file));
}

#[test]
fn project_relative_paths_match_verbatim_drive_roots() {
    let project = r"\\?\D:\A\Repo";
    let file = r"D:/a/repo/tests/Example.rs";

    assert_eq!("tests/Example.rs", project_relative_path(project, file));
}

#[test]
fn project_check_rejects_unformatted_rust() {
    let src = format!("{ROOT}/src");
    let mut project = snapshot(true, vec![tree(&src, &[("lib.rs", "pub fn value( ) ->i32{1}\n")])]);
    project.workspace = single_package("format-fixture", ROOT);

    let result = check_project(&project, None, None, &vec![FormatterOutcome::Failed]);

    assert!(result.is_err(), "unformatted Rust must fail project check");
}

#[test]
fn workspace_check_includes_crate_internal_tests() {
    let crate_dir = format!("{ROOT}/crate");
    let src = format!("{crate_dir}/src");
    let internal = format!("{src}/tests");
    let mut project = snapshot(
        true,
        vec![
            tree(&src, &[("lib.rs", "#[cfg(test)] mod tests;\n"), ("tests/redirect.rs", "include!(\"fixture.rs\");\n")]),
            tree(&internal, &[("redirect.rs", "include!(\"fixture.rs\");\n")]),
        ],
    );
    project.workspace = single_package("crate", &crate_dir);

    let diagnostics = check(&project, None, None).expect("style check");

    assert!(diagnostics.iter().any(|item| { item.code == "STYLE002" && item.path == "crate/src/tests/redirect.rs" }));
}

#[test]
fn fix_project_honors_explicit_source_and_test_directories() {
    let custom_src = format!("{ROOT}/custom-src");
    let custom_tests = format!("{ROOT}/custom-tests");
    let src = format!("{ROOT}/src");
    let project = snapshot(
        true,
        vec![
            tree(&custom_src, &[("wrong.rs", "use std::*;\n")]),
            tree(&custom_tests, &[]),
            tree(&src, &[("lib.rs", "pub fn value() -> i32 { 1 }\n")]),
        ],
    );

    let result = fix_project(
        &project,
        Some("custom-src"),
        Some("custom-tests"),
        false,
        &vec![FormatterOutcome::Succeeded],
    );

    assert!(result.is_err(), "custom source violations must be checked");
    assert!(matches!(result, Err(StyleError::IssuesRemain(_))));
}

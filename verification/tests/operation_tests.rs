use qubit_infra_style::check;
use qubit_infra_style::check_project;
use qubit_infra_style::fix;
use qubit_infra_style::fix_project;
use qubit_infra_style::formatter::cargo_fmt_command;
use qubit_infra_style::formatter::cargo_fmt_description;
use qubit_infra_style::formatter::formatter_step;
use qubit_infra_style::formatter::snapshot_formatter_commands;
use qubit_infra_style::project::CargoMetadata;
use qubit_infra_style::project::CargoPackage;
use qubit_infra_style::project::ExceptionSource;
use qubit_infra_style::project::ProjectSnapshot;
use qubit_infra_style::project::WalkEntry;
use qubit_infra_style::project::WalkedTree;
use qubit_infra_style::report::render_text;
use qubit_infra_style::FixOutcome;
use qubit_infra_style::FormatterAction;
use qubit_infra_style::FormatterOutcome;
use qubit_infra_style::StyleError;

const ROOT: &str = "/work/project";

fn tree(root: &str, files: &[(&str, &str)]) -> WalkedTree {
    let mut entries = vec![WalkEntry::Directory { path: root.to_string() }];
    for (name, text) in files {
        entries.push(WalkEntry::File {
            path: format!("{root}/{name}"),
            text: if name.ends_with(".rs") { Some(text.to_string()) } else { None },
        });
    }
    WalkedTree { root: root.to_string(), is_dir: true, entries }
}

fn snapshot(has_manifest: bool, trees: Vec<WalkedTree>) -> ProjectSnapshot {
    ProjectSnapshot {
        root: ROOT.to_string(),
        has_manifest,
        has_fuzz_manifest: false,
        windows_paths: false,
        formatter_toolchain: None,
        formatter_config: None,
        exceptions: ExceptionSource::Absent,
        workspace: None,
        source_test_pairs_switch: None,
        inline_tests_switch: None,
        trees,
    }
}

fn single_package(name: &str, dir: &str) -> Option<Result<CargoMetadata, String>> {
    let id = format!("path+file://{dir}#{name}@0.1.0");
    Some(Ok(CargoMetadata {
        packages: vec![CargoPackage { id: id.clone(), manifest_path: format!("{dir}/Cargo.toml") }],
        workspace_default_members: vec![id.clone()],
        workspace_members: vec![id],
    }))
}

fn strings(args: &[&str]) -> Vec<String> {
    args.iter().map(|a| a.to_string()).collect()
}

const HEADER: &str = "// =============================================================================\n//    Copyright (c) 2025 - 2026 Haixing Hu.\n//\n//    SPDX-License-Identifier: Apache-2.0\n//\n//    Licensed under the Apache License, Version 2.0.\n// =============================================================================\n";

#[test]
fn fix_cli_forwards_explicit_style_directories() {
    let project = snapshot(
        true,
        vec![
            tree(&format!("{ROOT}/src"), &[("lib.rs", "pub fn value() -> i32 { 1 }\n")]),
            tree(&format!("{ROOT}/custom-src"), &[("wrong.rs", "use std::*;\n")]),
            tree(&format!("{ROOT}/custom-tests"), &[]),
        ],
    );

    let result = fix_project(
        &project,
        Some("custom-src"),
        Some("custom-tests"),
        false,
        &vec![FormatterOutcome::Succeeded],
    );

    assert!(result.is_err(), "custom source violation must fail");
    let stderr = result.unwrap_err().message();
    assert!(stderr.contains("style checks still report"), "{stderr}");
}

#[test]
fn test_formatter_forwards_toolchain_and_config_for_both_modes() {
    let manifest_path = format!("{ROOT}/Cargo.toml");
    for (toolchain, config) in [(false, false), (true, false), (false, true), (true, true)] {
        for operation in ["check", "fix"] {
            let mut project = snapshot(true, vec![tree(&format!("{ROOT}/src"), &[("main.rs", "fn main() {}\n")])]);
            let mut expected = Vec::new();
            if toolchain {
                project.formatter_toolchain = Some("nightly-2026-06-05".to_string());
                expected.push("+nightly-2026-06-05");
            }
            if config {
                project.formatter_config = Some("shared config.toml".to_string());
            }
            expected.extend(["fmt", "--all", "--manifest-path"]);
            expected.push(manifest_path.as_str());
            if operation == "check" || config {
                expected.push("--");
            }
            if operation == "check" {
                expected.push("--check");
            }
            if config {
                expected.extend(["--config-path", "shared config.toml"]);
            }
            let commands = snapshot_formatter_commands(&project, operation == "check");
            assert_eq!(vec![strings(&expected)], commands);
            let failed = vec![FormatterOutcome::Failed];
            let result = if operation == "check" {
                check_project(&project, None, None, &failed).map(|_| ())
            } else {
                fix_project(&project, None, None, false, &failed).map(|_| ())
            };
            assert!(result.is_err(), "formatter failure must propagate");
        }
    }
}

#[test]
fn test_formatter_dry_run_shows_contract_without_running_cargo() {
    let mut project = snapshot(true, vec![tree(&format!("{ROOT}/src"), &[("main.rs", "fn main() {}\n")])]);
    project.formatter_toolchain = Some("nightly-2026-06-05".to_string());
    project.formatter_config = Some("shared config.toml".to_string());

    let result = fix(&project, true, &vec![]);

    match result {
        Ok(FixOutcome::DryRun(text)) => assert_eq!(
            format!(
                "cargo +nightly-2026-06-05 fmt --all --manifest-path {}/Cargo.toml -- --config-path \"shared config.toml\"",
                ROOT
            ),
            text
        ),
        other => panic!("dry run must only describe the command: {other:?}"),
    }
}

#[test]
fn test_legacy_style_rules_are_reported() {
    let mut project = snapshot(
        true,
        vec![
            tree(
                &format!("{ROOT}/src"),
                &[
                    ("lib.rs", "pub mod wrong;\n"),
                    ("wrong.rs", "use std::*;\n\n#[cfg(test)]\nmod tests {\n    #[test]\n    fn works() {}\n}\n"),
                ],
            ),
            tree(&format!("{ROOT}/tests"), &[("support/helpers.rs", "fn helper() {}\n")]),
        ],
    );
    project.inline_tests_switch = Some("1".to_string());

    let diagnostics = check(&project, Some("src"), Some("tests")).unwrap();
    let stderr = render_text(&diagnostics);
    assert!(!diagnostics.is_empty(), "legacy inline-test rule must fail");
    assert!(stderr.contains("inline test attributes are not allowed"), "{stderr}");
    assert!(stderr.contains("wildcard imports are not allowed"), "{stderr}");
}

#[test]
fn source_test_pair_rule_is_opt_in_like_legacy_rs_ci() {
    let mut project = snapshot(
        true,
        vec![
            tree(&format!("{ROOT}/src"), &[("lib.rs", "pub mod widget;\n"), ("widget.rs", "pub struct Widget;\n")]),
            tree(&format!("{ROOT}/tests"), &[]),
        ],
    );
    project.workspace = single_package("pair-fixture", ROOT);
    project.source_test_pairs_switch = Some("1".to_string());

    let diagnostics = check(&project, None, None).unwrap();
    let stdout = render_text(&diagnostics);
    assert!(!diagnostics.is_empty(), "missing source test pair must fail when enabled");
    assert!(stdout.contains("missing corresponding test file 'tests/widget_tests.rs'"), "{stdout}");
}

#[test]
fn source_test_pair_rule_is_silent_when_switched_off() {
    for switch in [None, Some("0"), Some("false"), Some("maybe")] {
        let mut project = snapshot(
            true,
            vec![
                tree(&format!("{ROOT}/src"), &[("lib.rs", "pub mod widget;\n"), ("widget.rs", "pub struct Widget;\n")]),
                tree(&format!("{ROOT}/tests"), &[]),
            ],
        );
        project.workspace = single_package("pair-fixture", ROOT);
        project.source_test_pairs_switch = switch.map(|s| s.to_string());
        let diagnostics = check(&project, None, None).unwrap();
        assert!(diagnostics.iter().all(|d| d.code != "STYLE014"), "{switch:?}");
    }
}

#[test]
fn source_test_pair_accepts_an_existing_test_file() {
    let mut project = snapshot(
        true,
        vec![
            tree(&format!("{ROOT}/src"), &[("lib.rs", "pub mod widget;\n"), ("widget.rs", "pub struct Widget;\n")]),
            tree(&format!("{ROOT}/tests"), &[("widget_tests.rs", "#[test]\nfn works() {}\n")]),
        ],
    );
    project.workspace = single_package("pair-fixture", ROOT);
    project.source_test_pairs_switch = Some("TRUE".to_string());
    let diagnostics = check(&project, None, None).unwrap();
    assert!(diagnostics.iter().all(|d| d.code != "STYLE014"));
}

#[test]
fn formatter_step_runs_commands_in_order_and_stops_at_a_failure() {
    let mut project = snapshot(true, vec![]);
    project.has_fuzz_manifest = true;
    let commands = snapshot_formatter_commands(&project, true);
    assert_eq!(2, commands.len());
    assert_eq!(
        strings(&["fmt", "--manifest-path", "/work/project/fuzz/Cargo.toml", "--", "--check"]),
        commands[1]
    );
    assert!(matches!(formatter_step(&commands, &vec![]), FormatterAction::Run(0)));
    assert!(matches!(formatter_step(&commands, &vec![FormatterOutcome::Succeeded]), FormatterAction::Run(1)));
    assert!(matches!(
        formatter_step(&commands, &vec![FormatterOutcome::Succeeded, FormatterOutcome::Succeeded]),
        FormatterAction::Finished(Ok(()))
    ));
    match formatter_step(&commands, &vec![FormatterOutcome::NotStarted]) {
        FormatterAction::Finished(Err(StyleError::FormatterNotStarted(d))) => {
            assert_eq!("cargo fmt --all --manifest-path /work/project/Cargo.toml -- --check", d)
        },
        other => panic!("{other:?}"),
    }
    match formatter_step(&commands, &vec![FormatterOutcome::Succeeded, FormatterOutcome::Failed]) {
        FormatterAction::Finished(Err(e)) => assert_eq!(
            "cargo fmt --manifest-path /work/project/fuzz/Cargo.toml -- --check failed",
            e.message()
        ),
        other => panic!("{other:?}"),
    }
}

#[test]
fn check_project_needs_every_formatter_command_to_succeed() {
    let src = format!("{ROOT}/src");
    let text = format!("{HEADER}pub mod a;\n");
    let mut project = snapshot(true, vec![tree(&src, &[("lib.rs", text.as_str())])]);
    project.workspace = single_package("fixture", ROOT);
    assert_eq!(Ok(vec![]), check_project(&project, None, None, &vec![FormatterOutcome::Succeeded]));
    project.has_fuzz_manifest = true;
    let error = check_project(&project, None, None, &vec![FormatterOutcome::Succeeded]).unwrap_err();
    assert_eq!(
        "failed to start cargo fmt --manifest-path /work/project/fuzz/Cargo.toml -- --check",
        error.message()
    );
}

#[test]
fn fix_reports_remaining_issues_and_completes_on_a_clean_project() {
    let src = format!("{ROOT}/src");
    let clean_text = format!("{HEADER}pub mod a;\n");
    let mut clean = snapshot(true, vec![tree(&src, &[("lib.rs", clean_text.as_str())])]);
    clean.workspace = single_package("fixture", ROOT);
    assert!(matches!(fix(&clean, false, &vec![FormatterOutcome::Succeeded]), Ok(FixOutcome::Completed)));

    let mut dirty = snapshot(true, vec![tree(&src, &[("lib.rs", "use std::*;\n")])]);
    dirty.workspace = single_package("fixture", ROOT);
    let error = fix(&dirty, false, &vec![FormatterOutcome::Succeeded]).unwrap_err();
    assert_eq!(StyleError::IssuesRemain(2), error);
    assert_eq!("style checks still report 2 issue(s)", error.message());
}

#[test]
fn empty_formatter_settings_are_ignored() {
    let plain = cargo_fmt_command("/p", false, None, None);
    assert_eq!(strings(&["fmt", "--all", "--manifest-path", "/p/Cargo.toml"]), plain);
    assert_eq!(plain, cargo_fmt_command("/p", false, Some(""), Some("")));
}

#[test]
fn description_quotes_arguments_with_white_space() {
    let args = strings(&["fmt", "--config-path", "a \"b\"\\c", "tab\there"]);
    assert_eq!("cargo fmt --config-path \"a \\\"b\\\"\\\\c\" \"tab\\there\"", cargo_fmt_description(&args));
    assert_eq!("cargo", cargo_fmt_description(&vec![]));
}

#[test]
fn workspace_metadata_failure_stops_the_check() {
    let mut project = snapshot(true, vec![]);
    project.workspace = Some(Err("cargo metadata failed: no manifest".to_string()));
    let error = check(&project, None, None).unwrap_err();
    assert_eq!(StyleError::Metadata("cargo metadata failed: no manifest".to_string()), error);
    assert_eq!("cargo metadata failed: no manifest", error.message());
}

#[test]
fn dry_run_ignores_formatter_outcomes() {
    let project = snapshot(true, vec![]);
    for outcomes in [vec![], vec![FormatterOutcome::Failed], vec![FormatterOutcome::NotStarted]] {
        match fix_project(&project, Some("src"), None, true, &outcomes) {
            Ok(FixOutcome::DryRun(text)) => {
                assert_eq!("cargo fmt --all --manifest-path /work/project/Cargo.toml", text)
            },
            other => panic!("{other:?}"),
        }
    }
}

#[test]
fn pairing_diagnostics_follow_path_order() {
    let mut project = snapshot(
        true,
        vec![
            tree(
                &format!("{ROOT}/src"),
                &[
                    ("lib.rs", "pub mod a;\npub mod b;\n"),
                    ("b.rs", "pub fn b() {}\n"),
                    ("a.rs", "pub mod z;\n"),
                    ("a/z.rs", "pub fn z() {}\n"),
                ],
            ),
            tree(&format!("{ROOT}/tests"), &[]),
        ],
    );
    project.workspace = single_package("order-fixture", ROOT);
    project.source_test_pairs_switch = Some("true".to_string());
    let diagnostics = check(&project, None, None).unwrap();
    let paired: Vec<&str> =
        diagnostics.iter().filter(|d| d.code == "STYLE014").map(|d| d.path.as_str()).collect();
    assert_eq!(vec!["src/a/z.rs", "src/a.rs", "src/b.rs"], paired);
}

#[test]
fn source_test_pair_accepts_a_linked_test_file() {
    let mut tests = tree(&format!("{ROOT}/tests"), &[]);
    tests.entries.push(WalkEntry::Other {
        path: format!("{ROOT}/tests/widget_tests.rs"),
        follows_to_file: true,
        text: Some("#[test]\nfn works() {}\n".to_string()),
    });
    let mut project = snapshot(
        true,
        vec![tree(&format!("{ROOT}/src"), &[("lib.rs", "pub mod widget;\n"), ("widget.rs", "pub struct Widget;\n")]), tests],
    );
    project.workspace = single_package("pair-fixture", ROOT);
    project.source_test_pairs_switch = Some("1".to_string());
    let diagnostics = check(&project, None, None).unwrap();
    assert!(diagnostics.iter().all(|d| d.code != "STYLE014"));
}

use qubit_infra_style::check;
use qubit_infra_style::project::ExceptionSource;
use qubit_infra_style::project::ProjectSnapshot;
use qubit_infra_style::project::WalkEntry;
use qubit_infra_style::project::WalkedTree;
use qubit_infra_style::ExceptionConfig;
use qubit_infra_style::StyleError;
use qubit_infra_style::StyleException;

const ROOT: &str = "/work/project";

fn chars(s: &str) -> Vec<char> {
    s.chars().collect()
}

fn exception(rule: &str, path: &str, reason: &str) -> StyleException {
    StyleException { rule: rule.to_string(), path: path.to_string(), reason: reason.to_string() }
}

fn config(entries: Vec<StyleException>) -> ExceptionConfig {
    ExceptionConfig { format: 1, exceptions: entries }
}

fn tree(root: &str, files: &[(&str, &str)]) -> WalkedTree {
    let mut entries = vec![WalkEntry::Directory { path: root.to_string() }];
    for (name, text) in files {
        entries.push(WalkEntry::File { path: format!("{root}/{name}"), text: Some(text.to_string()) });
    }
    WalkedTree { root: root.to_string(), is_dir: true, entries }
}

fn snapshot(trees: Vec<WalkedTree>, exceptions: ExceptionSource) -> ProjectSnapshot {
    ProjectSnapshot {
        root: ROOT.to_string(),
        has_manifest: false,
        has_fuzz_manifest: false,
        windows_paths: false,
        formatter_toolchain: None,
        formatter_config: None,
        exceptions,
        workspace: None,
        source_test_pairs_switch: None,
        inline_tests_switch: None,
        trees,
    }
}

fn loaded(entries: Vec<StyleException>) -> ExceptionSource {
    let targets = vec![true; entries.len()];
    ExceptionSource::Loaded { config: config(entries), targets }
}

#[test]
fn loads_exact_path_exception() {
    let config = config(vec![exception(
        "type-file-name",
        "src/lib.rs",
        "The public API is intentionally rooted here.",
    )]);
    assert_eq!(Ok(()), config.validate(&vec![true], false));

    assert!(config.allows(&chars("type-file-name"), &chars("src/lib.rs")));
    assert!(!config.allows(&chars("type-file-name"), &chars("src/other.rs")));
}

#[test]
fn rejects_unknown_rule_and_missing_path() {
    let config = config(vec![exception("unknown", "src/missing.rs", "Not allowed.")]);

    let error = config.validate(&vec![false], false).unwrap_err();
    assert!(error.message().contains("unknown style rule"));
}

#[test]
fn allows_needs_both_rule_and_path_to_match() {
    let config = config(vec![
        exception("test-redirect", "tests/a.rs", "reason"),
        exception("coverage-cfg", "src/lib.rs", "reason"),
    ]);
    assert!(config.allows(&chars("test-redirect"), &chars("tests/a.rs")));
    assert!(config.allows(&chars("coverage-cfg"), &chars("src/lib.rs")));
    assert!(!config.allows(&chars("coverage-cfg"), &chars("tests/a.rs")));
    assert!(!config.allows(&chars("test-redirect"), &chars("src/lib.rs")));
    assert!(!config.allows(&chars("test-redirect"), &chars("tests/a.rs/")));
    assert!(!ExceptionConfig::empty().allows(&chars("test-redirect"), &chars("tests/a.rs")));
}

#[test]
fn every_documented_rule_is_accepted() {
    let rules = [
        "inline-tests",
        "test-file-name",
        "test-redirect",
        "source-test-pair",
        "explicit-imports",
        "coverage-cfg",
        "aggregation-files",
        "public-type-layout",
        "multiple-public-types",
        "type-file-name",
        "internal-test-module",
    ];
    for rule in rules {
        assert!(qubit_infra_style::exceptions::known_rule(rule), "{rule}");
        let config = config(vec![exception(rule, "src/lib.rs", "reviewed")]);
        assert_eq!(Ok(()), config.validate(&vec![true], false), "{rule}");
    }
    assert!(!qubit_infra_style::exceptions::known_rule("Test-Redirect"));
    assert!(!qubit_infra_style::exceptions::known_rule(""));
}

#[test]
fn unsupported_format_is_rejected() {
    let config = ExceptionConfig { format: 2, exceptions: vec![] };
    let error = config.validate(&vec![], false).unwrap_err();
    assert_eq!(StyleError::UnsupportedFormat(2), error);
    assert_eq!(".infra/style/exceptions.toml uses unsupported format 2; expected 1", error.message());
}

#[test]
fn invalid_relative_paths_are_rejected() {
    for path in ["", "/src/lib.rs", "src//lib.rs", "src/../lib.rs", "src/", "src\\lib.rs", "..", "./"] {
        let config = config(vec![exception("test-redirect", path, "reason")]);
        let error = config.validate(&vec![true], false).unwrap_err();
        assert_eq!(StyleError::InvalidPath(path.to_string()), error, "{path}");
        assert_eq!(
            format!(".infra/style/exceptions.toml contains invalid relative path '{path}'"),
            error.message()
        );
    }
    let config = config(vec![exception("test-redirect", "./src/lib.rs", "reason")]);
    assert_eq!(Ok(()), config.validate(&vec![true], false));
}

#[test]
fn blank_reason_is_rejected() {
    let config = config(vec![exception("test-redirect", "tests/a.rs", " \t ")]);
    let error = config.validate(&vec![true], false).unwrap_err();
    assert_eq!(StyleError::MissingReason("test-redirect".to_string(), "tests/a.rs".to_string()), error);
    assert_eq!(
        ".infra/style/exceptions.toml requires a non-empty reason for test-redirect:tests/a.rs",
        error.message()
    );
}

#[test]
fn duplicate_exception_is_rejected() {
    let config = config(vec![
        exception("test-redirect", "tests/a.rs", "first"),
        exception("test-file-name", "tests/a.rs", "other rule"),
        exception("test-redirect", "tests/a.rs", "second"),
    ]);
    let error = config.validate(&vec![true, true, true], false).unwrap_err();
    assert_eq!(StyleError::DuplicateException("test-redirect".to_string(), "tests/a.rs".to_string()), error);
    assert_eq!(".infra/style/exceptions.toml contains duplicate exception test-redirect:tests/a.rs", error.message());
}

#[test]
fn missing_target_is_rejected() {
    let config = config(vec![
        exception("test-redirect", "tests/a.rs", "present"),
        exception("test-redirect", "tests/b.rs", "absent"),
    ]);
    let error = config.validate(&vec![true, false], false).unwrap_err();
    assert_eq!(StyleError::MissingTarget("tests/b.rs".to_string()), error);
    assert_eq!(".infra/style/exceptions.toml refers to missing file 'tests/b.rs'", error.message());
    let short = config.validate(&vec![true], false).unwrap_err();
    assert_eq!(StyleError::MissingTarget("tests/b.rs".to_string()), short);
}

#[test]
fn first_problem_in_file_order_is_reported() {
    let config = config(vec![
        exception("test-redirect", "bad//path", "reason"),
        exception("unknown", "tests/a.rs", "reason"),
    ]);
    let error = config.validate(&vec![true, true], false).unwrap_err();
    assert_eq!(StyleError::InvalidPath("bad//path".to_string()), error);
}

#[test]
fn unreadable_or_malformed_exception_file_stops_the_check() {
    let src = format!("{ROOT}/src");
    let unreadable = snapshot(vec![tree(&src, &[("lib.rs", "pub mod a;\n")])], ExceptionSource::Unreadable);
    let error = check(&unreadable, None, None).unwrap_err();
    assert_eq!("failed to read /work/project/.infra/style/exceptions.toml", error.message());

    let malformed = snapshot(vec![tree(&src, &[("lib.rs", "pub mod a;\n")])], ExceptionSource::Malformed);
    let error = check(&malformed, None, None).unwrap_err();
    assert_eq!("failed to parse /work/project/.infra/style/exceptions.toml", error.message());

    let invalid = snapshot(
        vec![tree(&src, &[("lib.rs", "pub mod a;\n")])],
        loaded(vec![exception("unknown", "src/lib.rs", "reason")]),
    );
    let error = check(&invalid, None, None).unwrap_err();
    assert_eq!(StyleError::UnknownRule("unknown".to_string()), error);
}

#[test]
fn exception_for_another_path_changes_nothing() {
    let src = format!("{ROOT}/src");
    let files = [("wrong.rs", "use std::*;\npub struct GoodName;\n"), ("other.rs", "pub fn f() {}\n")];
    let plain = snapshot(vec![tree(&src, &files)], ExceptionSource::Absent);
    let excepted = snapshot(
        vec![tree(&src, &files)],
        loaded(vec![exception("explicit-imports", "src/other.rs", "reviewed")]),
    );
    assert_eq!(check(&plain, None, None).unwrap(), check(&excepted, None, None).unwrap());
}

#[test]
fn exception_suppresses_only_its_own_rule() {
    let src = format!("{ROOT}/src");
    let files = [("wrong.rs", "use std::*;\npub struct GoodName;\n")];
    let plain = check(&snapshot(vec![tree(&src, &files)], ExceptionSource::Absent), None, None).unwrap();
    let codes: Vec<&str> = plain.iter().map(|d| d.code.as_str()).collect();
    assert_eq!(vec!["STYLE004", "STYLE011"], codes);

    let excepted = check(
        &snapshot(vec![tree(&src, &files)], loaded(vec![exception("explicit-imports", "src/wrong.rs", "reviewed")])),
        None,
        None,
    )
    .unwrap();
    let codes: Vec<&str> = excepted.iter().map(|d| d.code.as_str()).collect();
    assert_eq!(vec!["STYLE011"], codes);

    let both = check(
        &snapshot(
            vec![tree(&src, &files)],
            loaded(vec![
                exception("explicit-imports", "src/wrong.rs", "reviewed"),
                exception("type-file-name", "src/wrong.rs", "reviewed"),
            ]),
        ),
        None,
        None,
    )
    .unwrap();
    assert!(both.is_empty());
}

#[test]
fn drive_paths_are_absolute_under_windows_rules() {
    for path in ["C:/src/lib.rs", "c:/src/lib.rs"] {
        let config = config(vec![exception("test-redirect", path, "reason")]);
        let error = config.validate(&vec![true], true).unwrap_err();
        assert_eq!(StyleError::InvalidPath(path.to_string()), error, "{path}");
        assert_eq!(Ok(()), config.validate(&vec![true], false), "{path}");
    }
    for path in ["C:src/lib.rs", "1:/src/lib.rs", "src/C:/lib.rs"] {
        let config = config(vec![exception("test-redirect", path, "reason")]);
        assert_eq!(Ok(()), config.validate(&vec![true], true), "{path}");
    }
    let src = format!("{ROOT}/src");
    let mut project = snapshot(
        vec![tree(&src, &[("lib.rs", "pub mod a;\n")])],
        loaded(vec![exception("test-redirect", "C:/src/lib.rs", "reason")]),
    );
    assert!(check(&project, None, None).is_ok());
    project.windows_paths = true;
    assert_eq!(StyleError::InvalidPath("C:/src/lib.rs".to_string()), check(&project, None, None).unwrap_err());
}

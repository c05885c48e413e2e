//! Laws of the diagnostics themselves: every diagnostic that a check
//! reports is an error of schema version 1.

use vstd::prelude::*;

use crate::diagnostic::DiagnosticView;
use crate::error::StyleErrorView;
use crate::exceptions::ExceptionView;
use crate::exceptions::allowed;
use crate::paths::relative_path;
use crate::project::ProjectSnapshot;
use crate::project::RootKind;
use crate::project::WalkEntry;
use crate::project::chain;
use crate::project::check_outcome;
use crate::project::entries_outcome;
use crate::project::file_reports;
use crate::project::internal_part;
use crate::project::opt_view;
use crate::project::package_outcome;
use crate::project::packages_from;
use crate::project::pair_outcome;
use crate::project::pairs_from;
use crate::project::root_outcome;
use crate::project::source_test_pairs_outcome;
use crate::project::switch_value;
use crate::project::tests_part;
use crate::text::trim;

verus! {

/// Whether every diagnostic of `s` is an error of schema version 1.
pub open spec fn all_errors(s: Seq<DiagnosticView>) -> bool {
    forall|k: int| 0 <= k < s.len() ==> (#[trigger] s[k]).schema_version == 1 && s[k].severity == "error"@
}

/// Whether a successful outcome holds only errors of schema version 1.
pub open spec fn outcome_errors(o: Result<Seq<DiagnosticView>, StyleErrorView>) -> bool {
    match o {
        Ok(s) => all_errors(s),
        Err(_) => true,
    }
}

proof fn lemma_all_errors_concat(a: Seq<DiagnosticView>, b: Seq<DiagnosticView>)
    requires
        all_errors(a),
        all_errors(b),
    ensures
        all_errors(a + b),
{
    assert forall|k: int| 0 <= k < (a + b).len() implies (#[trigger] (a + b)[k]).schema_version == 1 && (a
        + b)[k].severity == "error"@ by {
        if k < a.len() {
            assert((a + b)[k] == a[k]);
        } else {
            assert((a + b)[k] == b[k - a.len()]);
        }
    }
}

proof fn lemma_chain_errors(a: Result<Seq<DiagnosticView>, StyleErrorView>, b: Result<Seq<DiagnosticView>, StyleErrorView>)
    requires
        outcome_errors(a),
        outcome_errors(b),
    ensures
        outcome_errors(chain(a, b)),
{
    match a {
        Ok(x) => match b {
            Ok(y) => lemma_all_errors_concat(x, y),
            Err(_) => {},
        },
        Err(_) => {},
    }
}

/// Whether every diagnostic of `s` is an error of schema version 1 about
/// `path`.
pub open spec fn reported_at(s: Seq<DiagnosticView>, path: Seq<char>) -> bool {
    forall|k: int|
        0 <= k < s.len() ==> (#[trigger] s[k]).schema_version == 1 && s[k].severity == "error"@ && s[k].path
            == path
}

proof fn lemma_reported_at_concat(a: Seq<DiagnosticView>, b: Seq<DiagnosticView>, path: Seq<char>)
    requires
        reported_at(a, path),
        reported_at(b, path),
    ensures
        reported_at(a + b, path),
{
    assert forall|k: int| 0 <= k < (a + b).len() implies (#[trigger] (a + b)[k]).schema_version == 1 && (a
        + b)[k].severity == "error"@ && (a + b)[k].path == path by {
        if k < a.len() {
            assert((a + b)[k] == a[k]);
        } else {
            assert((a + b)[k] == b[k - a.len()]);
        }
    }
}

proof fn lemma_line_reports_at(rule: crate::rules::LineRule, rel: Seq<char>, lines: Seq<Seq<char>>, i: int)
    ensures
        reported_at(crate::rules::line_reports(rule, rel, lines, i), rel),
    decreases lines.len() - i,
{
    if 0 <= i < lines.len() {
        lemma_line_reports_at(rule, rel, lines, i + 1);
        let head = if crate::rules::line_matches(rule, lines[i]) {
            seq![crate::diagnostic::report(crate::rules::line_code(rule), rel, (i + 1) as usize, crate::rules::line_message(rule))]
        } else {
            seq![]
        };
        lemma_reported_at_concat(head, crate::rules::line_reports(rule, rel, lines, i + 1), rel);
    }
}

proof fn lemma_import_scan_at(rel: Seq<char>, lines: Seq<Seq<char>>, i: int, last: Option<int>, blanks: int)
    ensures
        reported_at(crate::rules::import_scan(rel, lines, i, last, blanks), rel),
    decreases lines.len() - i,
{
    if 0 <= i < lines.len() {
        let t = trim(lines[i]);
        if t.len() == 0 {
            lemma_import_scan_at(rel, lines, i + 1, last, if last is Some { blanks + 1 } else { blanks });
        } else if "#["@.is_prefix_of(t) && last is Some {
            lemma_import_scan_at(rel, lines, i + 1, last, blanks);
            let head = crate::rules::unused_imports_allow_reports(rel, i, t);
            lemma_reported_at_concat(head, crate::rules::import_scan(rel, lines, i + 1, last, blanks), rel);
        } else {
            match crate::rules::import_path(t) {
                Some(path) => {
                    let next = crate::rules::import_scan(rel, lines, i + 1, Some(crate::rules::import_group(path)), 0);
                    lemma_import_scan_at(rel, lines, i + 1, Some(crate::rules::import_group(path)), 0);
                    let head = crate::rules::import_line_reports(rel, i, path, last, blanks);
                    assert(reported_at(head, rel));
                    lemma_reported_at_concat(head, next, rel);
                },
                None => {
                    lemma_import_scan_at(rel, lines, i + 1, None, 0);
                    let head = if "#[allow"@.is_prefix_of(t) && crate::text::contains(t, "unused_imports"@) {
                        seq![crate::diagnostic::report("STYLE007"@, rel, (i + 1) as usize, "unused_imports allows are not allowed"@)]
                    } else {
                        seq![]
                    };
                    lemma_reported_at_concat(head, crate::rules::import_scan(rel, lines, i + 1, None, 0), rel);
                },
            }
        }
    }
}

proof fn lemma_mod_imports_at(rel: Seq<char>, lines: Seq<Seq<char>>, i: int)
    ensures
        reported_at(crate::rules::mod_import_reports(rel, lines, i), rel),
    decreases lines.len() - i,
{
    if 0 <= i < lines.len() {
        lemma_mod_imports_at(rel, lines, i + 1);
        let head = if "use "@.is_prefix_of(crate::text::trim_start(lines[i])) {
            seq![crate::diagnostic::report("STYLE016"@, rel, (i + 1) as usize, "aggregation-only mod.rs files must not collect private imports for child modules"@)]
        } else {
            seq![]
        };
        lemma_reported_at_concat(head, crate::rules::mod_import_reports(rel, lines, i + 1), rel);
    }
}

proof fn lemma_disallowed_items_at(rel: Seq<char>, items: Seq<crate::syntax::SourceItem>, i: int)
    ensures
        reported_at(crate::rules::disallowed_item_reports(rel, items, i), rel),
    decreases items.len() - i,
{
    if 0 <= i < items.len() {
        lemma_disallowed_items_at(rel, items, i + 1);
        let head = if !crate::syntax::allowed_in_aggregation(items[i]) {
            seq![crate::diagnostic::report("STYLE009"@, rel, 0, "lib.rs and mod.rs files must only declare modules and re-export items"@)]
        } else {
            seq![]
        };
        lemma_reported_at_concat(head, crate::rules::disallowed_item_reports(rel, items, i + 1), rel);
    }
}

proof fn lemma_common_at(rel: Seq<char>, lines: Seq<Seq<char>>, enforce_headers: bool, ex: Seq<ExceptionView>)
    ensures
        reported_at(crate::rules::common_reports(rel, lines, enforce_headers, ex), rel),
{
    lemma_import_scan_at(rel, lines, 0, None, 0);
    lemma_mod_imports_at(rel, lines, 0);
    lemma_reported_at_concat(crate::rules::import_scan(rel, lines, 0, None, 0), crate::rules::mod_import_reports(rel, lines, 0), rel);
    lemma_reported_at_concat(crate::rules::import_scan(rel, lines, 0, None, 0), seq![], rel);
    let heads = if enforce_headers {
        crate::rules::header_reports(rel, lines)
    } else {
        seq![]
    };
    lemma_reported_at_concat(heads, crate::rules::import_reports(rel, lines, ex), rel);
}

pub(crate) proof fn lemma_file_errors(
    kind: RootKind,
    project: Seq<char>,
    path: Seq<char>,
    text: Seq<char>,
    ex: Seq<ExceptionView>,
    enforce_headers: bool,
    inline_tests: bool,
)
    ensures
        reported_at(file_reports(kind, project, path, text, ex, enforce_headers, inline_tests), relative_path(project, path)),
        all_errors(file_reports(kind, project, path, text, ex, enforce_headers, inline_tests)),
{
    let rel = relative_path(project, path);
    let lines = crate::text::lines(text);
    lemma_common_at(rel, lines, enforce_headers, ex);
    let common = crate::rules::common_reports(rel, lines, enforce_headers, ex);
    match kind {
        RootKind::Other => {},
        RootKind::Tests => {
            lemma_line_reports_at(crate::rules::LineRule::TestRedirect, rel, lines, 0);
            let naming = crate::rules::test_naming_reports(rel, text, ex);
            lemma_reported_at_concat(common, naming, rel);
            lemma_reported_at_concat(common + naming, crate::rules::test_redirect_reports(rel, lines, ex), rel);
        },
        RootKind::Source => {
            let stem = crate::paths::stem_of(
                match crate::paths::file_name(path) {
                    Some(n) => n,
                    None => seq![],
                },
            );
            lemma_line_reports_at(crate::rules::LineRule::CoverageCfg, rel, lines, 0);
            lemma_line_reports_at(crate::rules::LineRule::InlineTest, rel, lines, 0);
            match crate::syntax::rust_items(text) {
                Some(items) => lemma_disallowed_items_at(rel, items, 0),
                None => {},
            }
            let v = crate::rules::coverage_reports(rel, lines, ex);
            let a = crate::rules::aggregation_reports(rel, text, ex);
            let l = crate::rules::type_layout_reports(rel, stem, text, ex);
            assert(reported_at(l, rel));
            let n = crate::rules::inline_test_reports(rel, lines, inline_tests, ex);
            lemma_reported_at_concat(common, v, rel);
            lemma_reported_at_concat(common + v, a, rel);
            lemma_reported_at_concat(common + v + a, l, rel);
            lemma_reported_at_concat(common + v + a + l, n, rel);
        },
    }
}

proof fn lemma_entries_errors(
    kind: RootKind,
    project: Seq<char>,
    root: Seq<char>,
    entries: Seq<WalkEntry>,
    i: int,
    ex: Seq<ExceptionView>,
    enforce_headers: bool,
    inline_tests: bool,
)
    ensures
        outcome_errors(entries_outcome(kind, project, root, entries, i, ex, enforce_headers, inline_tests)),
    decreases entries.len() - i,
{
    if 0 <= i < entries.len() {
        lemma_entries_errors(kind, project, root, entries, i + 1, ex, enforce_headers, inline_tests);
        let rest = entries_outcome(kind, project, root, entries, i + 1, ex, enforce_headers, inline_tests);
        match entries[i] {
            WalkEntry::File { path, text } => match text {
                Some(t) => {
                    lemma_file_errors(kind, project, path@, t@, ex, enforce_headers, inline_tests);
                    lemma_chain_errors(Ok(file_reports(kind, project, path@, t@, ex, enforce_headers, inline_tests)), rest);
                },
                None => {},
            },
            _ => {},
        }
    }
}

proof fn lemma_root_errors(
    snap: ProjectSnapshot,
    root: Seq<char>,
    kind: RootKind,
    ex: Seq<ExceptionView>,
    enforce_headers: bool,
    inline_tests: bool,
)
    ensures
        outcome_errors(root_outcome(snap, root, kind, ex, enforce_headers, inline_tests)),
{
    reveal(root_outcome);
    match crate::project::tree_at(snap.trees@, root) {
        Some(t) => lemma_entries_errors(kind, snap.root@, root, t.entries@, 0, ex, enforce_headers, inline_tests),
        None => {},
    }
}

proof fn lemma_pairs_errors(
    snap: ProjectSnapshot,
    ex: Seq<ExceptionView>,
    source: Seq<char>,
    tests: Seq<char>,
    test_files: Seq<Seq<char>>,
    files: Seq<Seq<char>>,
    i: int,
)
    ensures
        outcome_errors(pairs_from(snap, ex, source, tests, test_files, files, i)),
    decreases files.len() - i,
{
    if 0 <= i < files.len() {
        lemma_pairs_errors(snap, ex, source, tests, test_files, files, i + 1);
        assert(outcome_errors(pair_outcome(snap, ex, source, tests, test_files, files[i])));
        lemma_chain_errors(
            pair_outcome(snap, ex, source, tests, test_files, files[i]),
            pairs_from(snap, ex, source, tests, test_files, files, i + 1),
        );
    }
}

proof fn lemma_package_errors(
    snap: ProjectSnapshot,
    ex: Seq<ExceptionView>,
    source: Seq<char>,
    tests: Seq<char>,
    enforce_headers: bool,
    inline_tests: bool,
)
    ensures
        outcome_errors(package_outcome(snap, ex, source, tests, enforce_headers, inline_tests)),
{
    let dir = crate::project::package_dir(source);
    let a = root_outcome(snap, source, RootKind::Source, ex, enforce_headers, inline_tests);
    let b = internal_part(snap, ex, source, enforce_headers, inline_tests);
    let c = tests_part(snap, ex, source, tests, enforce_headers, inline_tests);
    let d = root_outcome(snap, crate::paths::join(dir, "benches"@), RootKind::Other, ex, enforce_headers, inline_tests);
    let e = root_outcome(snap, crate::paths::join(dir, "fuzz"@), RootKind::Other, ex, enforce_headers, inline_tests);
    let f = root_outcome(snap, crate::paths::join(dir, "examples"@), RootKind::Other, ex, enforce_headers, inline_tests);
    let g = source_test_pairs_outcome(snap, ex, source, tests);
    lemma_root_errors(snap, source, RootKind::Source, ex, enforce_headers, inline_tests);
    lemma_root_errors(snap, crate::paths::join(source, "tests"@), RootKind::Tests, ex, enforce_headers, inline_tests);
    reveal(internal_part);
    lemma_chain_errors(
        Ok(crate::project::internal_module_reports(snap, ex, source)),
        root_outcome(snap, crate::paths::join(source, "tests"@), RootKind::Tests, ex, enforce_headers, inline_tests),
    );
    reveal(tests_part);
    lemma_root_errors(snap, tests, RootKind::Tests, ex, enforce_headers, inline_tests);
    lemma_root_errors(snap, crate::paths::join(dir, "benches"@), RootKind::Other, ex, enforce_headers, inline_tests);
    lemma_root_errors(snap, crate::paths::join(dir, "fuzz"@), RootKind::Other, ex, enforce_headers, inline_tests);
    lemma_root_errors(snap, crate::paths::join(dir, "examples"@), RootKind::Other, ex, enforce_headers, inline_tests);
    reveal(source_test_pairs_outcome);
    let trees = snap.trees@;
    match crate::project::rust_files(trees, tests) {
        Ok(test_files) => match crate::project::rust_files(trees, source) {
            Ok(files) => lemma_pairs_errors(snap, ex, source, tests, test_files, files, 0),
            Err(_) => {},
        },
        Err(_) => {},
    }
    lemma_chain_errors(f, g);
    lemma_chain_errors(e, chain(f, g));
    lemma_chain_errors(d, chain(e, chain(f, g)));
    lemma_chain_errors(c, chain(d, chain(e, chain(f, g))));
    lemma_chain_errors(b, chain(c, chain(d, chain(e, chain(f, g)))));
    lemma_chain_errors(a, chain(b, chain(c, chain(d, chain(e, chain(f, g))))));
}

proof fn lemma_packages_errors(
    snap: ProjectSnapshot,
    ex: Seq<ExceptionView>,
    roots: Seq<(Seq<char>, Seq<char>)>,
    i: int,
    enforce_headers: bool,
    inline_tests: bool,
)
    ensures
        outcome_errors(packages_from(snap, ex, roots, i, enforce_headers, inline_tests)),
    decreases roots.len() - i,
{
    if 0 <= i < roots.len() {
        lemma_packages_errors(snap, ex, roots, i + 1, enforce_headers, inline_tests);
        lemma_package_errors(snap, ex, roots[i].0, roots[i].1, enforce_headers, inline_tests);
        lemma_chain_errors(
            package_outcome(snap, ex, roots[i].0, roots[i].1, enforce_headers, inline_tests),
            packages_from(snap, ex, roots, i + 1, enforce_headers, inline_tests),
        );
    }
}

/// Every diagnostic that a style check reports is an error of schema
/// version 1.
pub proof fn every_reported_diagnostic_is_an_error_of_schema_one(
    snap: ProjectSnapshot,
    source_dir: Option<Seq<char>>,
    test_dir: Option<Seq<char>>,
)
    ensures
        outcome_errors(check_outcome(snap, source_dir, test_dir)),
{
    match crate::project::exceptions_outcome(snap.root@, snap.exceptions, snap.windows_paths) {
        Ok(ex) => match crate::project::package_roots(snap, source_dir, test_dir) {
            Ok(roots) => lemma_packages_errors(
                snap,
                ex,
                roots,
                0,
                snap.has_manifest,
                switch_value(opt_view(snap.inline_tests_switch), false),
            ),
            Err(_) => {},
        },
        Err(_) => {},
    }
}

} // verus!

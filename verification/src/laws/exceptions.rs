//! Laws of the exception file: when it is accepted, and which
//! diagnostics an exception suppresses.

use vstd::prelude::*;

use crate::diagnostic::DiagnosticView;
use crate::error::StyleErrorView;
use crate::exceptions::ExceptionView;
use crate::exceptions::allowed;
use crate::exceptions::first_problem;
use crate::exceptions::is_known_rule;
use crate::exceptions::is_plain_relative_path;
use crate::exceptions::repeats_earlier;
use crate::exceptions::validation;
use crate::laws::reports::lemma_file_errors;
use crate::paths::relative_path;
use crate::project::ProjectSnapshot;
use crate::project::RootKind;
use crate::project::WalkEntry;
use crate::project::chain;
use crate::project::entries_outcome;
use crate::project::file_reports;
use crate::project::internal_part;
use crate::project::opt_view;
use crate::project::outcome_with_exceptions;
use crate::project::package_outcome;
use crate::project::packages_from;
use crate::project::pair_outcome;
use crate::project::pairs_from;
use crate::project::root_outcome;
use crate::project::source_test_pairs_outcome;
use crate::project::switch_value;
use crate::project::tests_part;
use crate::text::trim;

verus! {

/// Whether exception `i` is acceptable: a known rule, a plain relative
/// path (under Windows rules when `windows`), a reason that is not blank,
/// a rule and path not configured before, and a path that names an
/// existing file.
pub open spec fn acceptable_exception(ex: Seq<ExceptionView>, targets: Seq<bool>, windows: bool, i: int) -> bool {
    &&& is_known_rule(ex[i].rule)
    &&& is_plain_relative_path(ex[i].path, windows)
    &&& trim(ex[i].reason).len() > 0
    &&& !repeats_earlier(ex, i)
    &&& i < targets.len() && targets[i]
}

proof fn lemma_first_problem_none(ex: Seq<ExceptionView>, targets: Seq<bool>, windows: bool, i: int)
    requires
        0 <= i <= ex.len(),
    ensures
        first_problem(ex, targets, windows, i) is None <==> forall|j: int|
            i <= j < ex.len() ==> #[trigger] acceptable_exception(ex, targets, windows, j),
    decreases ex.len() - i,
{
    if i < ex.len() {
        lemma_first_problem_none(ex, targets, windows, i + 1);
        if forall|j: int| i <= j < ex.len() ==> #[trigger] acceptable_exception(ex, targets, windows, j) {
            assert(acceptable_exception(ex, targets, windows, i));
        }
        if acceptable_exception(ex, targets, windows, i) && first_problem(ex, targets, windows, i + 1) is None {
            assert forall|j: int| i <= j < ex.len() implies #[trigger] acceptable_exception(ex, targets, windows, j) by {
                if j > i {
                    assert(i + 1 <= j < ex.len());
                }
            }
        }
    }
}

/// An exception configuration is accepted exactly when its format is 1 and
/// every exception in it is acceptable: malformed or unsupported entries
/// fail the check.
pub proof fn validation_accepts_exactly_acceptable_exceptions(format: u8, ex: Seq<ExceptionView>, targets: Seq<bool>, windows: bool)
    ensures
        validation(format, ex, targets, windows) is Ok <==> (format == 1 && forall|i: int|
            0 <= i < ex.len() ==> #[trigger] acceptable_exception(ex, targets, windows, i)),
{
    lemma_first_problem_none(ex, targets, windows, 0);
}

/// The source/test pairing rule is opt-in: unless its switch is on, it
/// reports nothing.
pub proof fn pairing_rule_is_opt_in(
    snap: ProjectSnapshot,
    ex: Seq<ExceptionView>,
    source: Seq<char>,
    tests: Seq<char>,
)
    requires
        !switch_value(opt_view(snap.source_test_pairs_switch), false),
    ensures
        source_test_pairs_outcome(snap, ex, source, tests) == Ok::<Seq<DiagnosticView>, StyleErrorView>(seq![]),
{
    reveal(source_test_pairs_outcome);
}

/// The diagnostics of a file depend on the exceptions only through the
/// rules they exempt for that file's own path.
pub proof fn file_reports_depend_only_on_its_own_exceptions(
    kind: RootKind,
    project: Seq<char>,
    path: Seq<char>,
    text: Seq<char>,
    ex1: Seq<ExceptionView>,
    ex2: Seq<ExceptionView>,
    enforce_headers: bool,
    inline_tests: bool,
)
    requires
        forall|rule: Seq<char>|
            #[trigger] allowed(ex1, rule, relative_path(project, path)) == allowed(
                ex2,
                rule,
                relative_path(project, path),
            ),
    ensures
        file_reports(kind, project, path, text, ex1, enforce_headers, inline_tests) == file_reports(
            kind,
            project,
            path,
            text,
            ex2,
            enforce_headers,
            inline_tests,
        ),
{
}

/// An exception for another path leaves a file's diagnostics unchanged.
pub proof fn exception_for_another_path_has_no_effect(
    kind: RootKind,
    project: Seq<char>,
    path: Seq<char>,
    text: Seq<char>,
    ex: Seq<ExceptionView>,
    e: ExceptionView,
    enforce_headers: bool,
    inline_tests: bool,
)
    requires
        e.path != relative_path(project, path),
    ensures
        file_reports(kind, project, path, text, ex.push(e), enforce_headers, inline_tests) == file_reports(
            kind,
            project,
            path,
            text,
            ex,
            enforce_headers,
            inline_tests,
        ),
{
    let rel = relative_path(project, path);
    assert forall|rule: Seq<char>| #[trigger] allowed(ex.push(e), rule, rel) == allowed(ex, rule, rel) by {
        if allowed(ex.push(e), rule, rel) {
            let i = choose|i: int| 0 <= i < ex.push(e).len() && ex.push(e)[i].rule == rule && ex.push(e)[i].path == rel;
            assert(i < ex.len());
            assert(ex[i] == ex.push(e)[i]);
        }
        if allowed(ex, rule, rel) {
            let i = choose|i: int| 0 <= i < ex.len() && ex[i].rule == rule && ex[i].path == rel;
            assert(ex.push(e)[i] == ex[i]);
        }
    }
    file_reports_depend_only_on_its_own_exceptions(kind, project, path, text, ex.push(e), ex, enforce_headers, inline_tests);
}

/// Whether `small` is `big` or nothing: what an exemption does to the
/// diagnostics of one rule.
pub open spec fn same_or_empty(small: Seq<DiagnosticView>, big: Seq<DiagnosticView>) -> bool {
    small == big || small.len() == 0
}

proof fn lemma_concat_contains(a: Seq<DiagnosticView>, b: Seq<DiagnosticView>, d: DiagnosticView)
    ensures
        (a + b).contains(d) <==> (a.contains(d) || b.contains(d)),
{
    if (a + b).contains(d) {
        let i = choose|i: int| 0 <= i < (a + b).len() && (a + b)[i] == d;
        if i < a.len() {
            assert(a[i] == d);
        } else {
            assert(b[i - a.len()] == d);
        }
    }
    if a.contains(d) {
        let i = choose|i: int| 0 <= i < a.len() && a[i] == d;
        assert((a + b)[i] == d);
    }
    if b.contains(d) {
        let i = choose|i: int| 0 <= i < b.len() && b[i] == d;
        assert((a + b)[a.len() + i] == d);
    }
}

proof fn lemma_common_shrinks(
    rel: Seq<char>,
    lines: Seq<Seq<char>>,
    enforce_headers: bool,
    fewer: Seq<ExceptionView>,
    more: Seq<ExceptionView>,
    d: DiagnosticView,
)
    requires
        allowed(fewer, "explicit-imports"@, rel) ==> allowed(more, "explicit-imports"@, rel),
    ensures
        crate::rules::common_reports(rel, lines, enforce_headers, more).contains(d)
            ==> crate::rules::common_reports(rel, lines, enforce_headers, fewer).contains(d),
{
    let heads = if enforce_headers {
        crate::rules::header_reports(rel, lines)
    } else {
        seq![]
    };
    assert(same_or_empty(crate::rules::import_reports(rel, lines, more), crate::rules::import_reports(rel, lines, fewer)));
    lemma_concat_contains(heads, crate::rules::import_reports(rel, lines, more), d);
    lemma_concat_contains(heads, crate::rules::import_reports(rel, lines, fewer), d);
}

proof fn lemma_four_parts_shrink(
    a1: Seq<DiagnosticView>,
    b1: Seq<DiagnosticView>,
    c1: Seq<DiagnosticView>,
    e1: Seq<DiagnosticView>,
    f1: Seq<DiagnosticView>,
    a2: Seq<DiagnosticView>,
    b2: Seq<DiagnosticView>,
    c2: Seq<DiagnosticView>,
    e2: Seq<DiagnosticView>,
    f2: Seq<DiagnosticView>,
    d: DiagnosticView,
)
    requires
        a2.contains(d) ==> a1.contains(d),
        same_or_empty(b2, b1),
        same_or_empty(c2, c1),
        same_or_empty(e2, e1),
        same_or_empty(f2, f1),
        (a2 + b2 + c2 + e2 + f2).contains(d),
    ensures
        (a1 + b1 + c1 + e1 + f1).contains(d),
{
    lemma_concat_contains(a2 + b2 + c2 + e2, f2, d);
    lemma_concat_contains(a2 + b2 + c2, e2, d);
    lemma_concat_contains(a2 + b2, c2, d);
    lemma_concat_contains(a2, b2, d);
    lemma_concat_contains(a1 + b1 + c1 + e1, f1, d);
    lemma_concat_contains(a1 + b1 + c1, e1, d);
    lemma_concat_contains(a1 + b1, c1, d);
    lemma_concat_contains(a1, b1, d);
}

proof fn lemma_test_file_shrinks(
    rel: Seq<char>,
    text: Seq<char>,
    enforce_headers: bool,
    fewer: Seq<ExceptionView>,
    more: Seq<ExceptionView>,
    d: DiagnosticView,
)
    requires
        forall|rule: Seq<char>| #[trigger] allowed(fewer, rule, rel) ==> allowed(more, rule, rel),
        crate::rules::test_file_reports(rel, text, enforce_headers, more).contains(d),
    ensures
        crate::rules::test_file_reports(rel, text, enforce_headers, fewer).contains(d),
{
    let lines = crate::text::lines(text);
    assert(allowed(fewer, "explicit-imports"@, rel) ==> allowed(more, "explicit-imports"@, rel));
    assert(allowed(fewer, "test-file-name"@, rel) ==> allowed(more, "test-file-name"@, rel));
    assert(allowed(fewer, "test-redirect"@, rel) ==> allowed(more, "test-redirect"@, rel));
    lemma_common_shrinks(rel, lines, enforce_headers, fewer, more, d);
    lemma_four_parts_shrink(
        crate::rules::common_reports(rel, lines, enforce_headers, fewer),
        crate::rules::test_naming_reports(rel, text, fewer),
        crate::rules::test_redirect_reports(rel, lines, fewer),
        seq![],
        seq![],
        crate::rules::common_reports(rel, lines, enforce_headers, more),
        crate::rules::test_naming_reports(rel, text, more),
        crate::rules::test_redirect_reports(rel, lines, more),
        seq![],
        seq![],
        d,
    );
}

proof fn lemma_source_file_shrinks(
    rel: Seq<char>,
    stem: Seq<char>,
    text: Seq<char>,
    enforce_headers: bool,
    inline_tests: bool,
    fewer: Seq<ExceptionView>,
    more: Seq<ExceptionView>,
    d: DiagnosticView,
)
    requires
        forall|rule: Seq<char>| #[trigger] allowed(fewer, rule, rel) ==> allowed(more, rule, rel),
        crate::rules::source_file_reports(rel, stem, text, enforce_headers, inline_tests, more).contains(d),
    ensures
        crate::rules::source_file_reports(rel, stem, text, enforce_headers, inline_tests, fewer).contains(d),
{
    let lines = crate::text::lines(text);
    assert(allowed(fewer, "explicit-imports"@, rel) ==> allowed(more, "explicit-imports"@, rel));
    assert(allowed(fewer, "coverage-cfg"@, rel) ==> allowed(more, "coverage-cfg"@, rel));
    assert(allowed(fewer, "aggregation-files"@, rel) ==> allowed(more, "aggregation-files"@, rel));
    assert(allowed(fewer, "public-type-layout"@, rel) ==> allowed(more, "public-type-layout"@, rel));
    assert(allowed(fewer, "multiple-public-types"@, rel) ==> allowed(more, "multiple-public-types"@, rel));
    assert(allowed(fewer, "type-file-name"@, rel) ==> allowed(more, "type-file-name"@, rel));
    assert(allowed(fewer, "inline-tests"@, rel) ==> allowed(more, "inline-tests"@, rel));
    lemma_common_shrinks(rel, lines, enforce_headers, fewer, more, d);
    lemma_four_parts_shrink(
        crate::rules::common_reports(rel, lines, enforce_headers, fewer),
        crate::rules::coverage_reports(rel, lines, fewer),
        crate::rules::aggregation_reports(rel, text, fewer),
        crate::rules::type_layout_reports(rel, stem, text, fewer),
        crate::rules::inline_test_reports(rel, lines, inline_tests, fewer),
        crate::rules::common_reports(rel, lines, enforce_headers, more),
        crate::rules::coverage_reports(rel, lines, more),
        crate::rules::aggregation_reports(rel, text, more),
        crate::rules::type_layout_reports(rel, stem, text, more),
        crate::rules::inline_test_reports(rel, lines, inline_tests, more),
        d,
    );
}

/// Granting more exemptions never adds a diagnostic to a file: each
/// diagnostic reported with the larger set of exceptions is also reported
/// with the smaller one.
pub proof fn more_exceptions_never_add_file_diagnostics(
    kind: RootKind,
    project: Seq<char>,
    path: Seq<char>,
    text: Seq<char>,
    fewer: Seq<ExceptionView>,
    more: Seq<ExceptionView>,
    enforce_headers: bool,
    inline_tests: bool,
    d: DiagnosticView,
)
    requires
        forall|rule: Seq<char>|
            #[trigger] allowed(fewer, rule, relative_path(project, path)) ==> allowed(
                more,
                rule,
                relative_path(project, path),
            ),
        file_reports(kind, project, path, text, more, enforce_headers, inline_tests).contains(d),
    ensures
        file_reports(kind, project, path, text, fewer, enforce_headers, inline_tests).contains(d),
{
    let rel = relative_path(project, path);
    match kind {
        RootKind::Other => {
            assert(allowed(fewer, "explicit-imports"@, rel) ==> allowed(more, "explicit-imports"@, rel));
            lemma_common_shrinks(rel, crate::text::lines(text), enforce_headers, fewer, more, d);
        },
        RootKind::Tests => {
            lemma_test_file_shrinks(rel, text, enforce_headers, fewer, more, d);
        },
        RootKind::Source => {
            let stem = crate::paths::stem_of(
                match crate::paths::file_name(path) {
                    Some(n) => n,
                    None => seq![],
                },
            );
            lemma_source_file_shrinks(rel, stem, text, enforce_headers, inline_tests, fewer, more, d);
        },
    }
}

/// The diagnostic codes of the import rules.
pub open spec fn is_import_code(code: Seq<char>) -> bool {
    ||| code == "STYLE003"@
    ||| code == "STYLE004"@
    ||| code == "STYLE005"@
    ||| code == "STYLE006"@
    ||| code == "STYLE007"@
    ||| code == "STYLE016"@
}

/// Whether an exception for `rule` may suppress diagnostics with `code`.
pub open spec fn governs(rule: Seq<char>, code: Seq<char>) -> bool {
    ||| rule == "inline-tests"@ && code == "STYLE013"@
    ||| rule == "test-file-name"@ && code == "STYLE001"@
    ||| rule == "test-redirect"@ && code == "STYLE002"@
    ||| rule == "source-test-pair"@ && code == "STYLE014"@
    ||| rule == "explicit-imports"@ && is_import_code(code)
    ||| rule == "coverage-cfg"@ && code == "STYLE008"@
    ||| rule == "aggregation-files"@ && code == "STYLE009"@
    ||| rule == "public-type-layout"@ && code == "STYLE010"@
    ||| rule == "multiple-public-types"@ && code == "STYLE010"@
    ||| rule == "type-file-name"@ && code == "STYLE011"@
    ||| rule == "internal-test-module"@ && code == "STYLE012"@
}

/// Whether every diagnostic of `s` is one that `rule` governs.
pub open spec fn all_governed(s: Seq<DiagnosticView>, rule: Seq<char>) -> bool {
    forall|k: int| 0 <= k < s.len() ==> governs(rule, #[trigger] s[k].code)
}

proof fn lemma_all_governed_concat(a: Seq<DiagnosticView>, b: Seq<DiagnosticView>, rule: Seq<char>)
    requires
        all_governed(a, rule),
        all_governed(b, rule),
    ensures
        all_governed(a + b, rule),
{
    assert forall|k: int| 0 <= k < (a + b).len() implies governs(rule, #[trigger] (a + b)[k].code) by {
        if k < a.len() {
            assert((a + b)[k] == a[k]);
        } else {
            assert((a + b)[k] == b[k - a.len()]);
        }
    }
}

proof fn lemma_line_reports_governed(
    rule: crate::rules::LineRule,
    rel: Seq<char>,
    lines: Seq<Seq<char>>,
    i: int,
    exempting: Seq<char>,
)
    requires
        governs(exempting, crate::rules::line_code(rule)),
    ensures
        all_governed(crate::rules::line_reports(rule, rel, lines, i), exempting),
    decreases lines.len() - i,
{
    if 0 <= i < lines.len() {
        lemma_line_reports_governed(rule, rel, lines, i + 1, exempting);
        let head = if crate::rules::line_matches(rule, lines[i]) {
            seq![crate::diagnostic::report(crate::rules::line_code(rule), rel, (i + 1) as usize, crate::rules::line_message(rule))]
        } else {
            seq![]
        };
        lemma_all_governed_concat(head, crate::rules::line_reports(rule, rel, lines, i + 1), exempting);
    }
}

proof fn lemma_import_scan_governed(
    rel: Seq<char>,
    lines: Seq<Seq<char>>,
    i: int,
    last: Option<int>,
    blanks: int,
)
    ensures
        all_governed(crate::rules::import_scan(rel, lines, i, last, blanks), "explicit-imports"@),
    decreases lines.len() - i,
{
    if 0 <= i < lines.len() {
        let t = trim(lines[i]);
        if t.len() == 0 {
            lemma_import_scan_governed(rel, lines, i + 1, last, if last is Some { blanks + 1 } else { blanks });
        } else if "#["@.is_prefix_of(t) && last is Some {
            lemma_import_scan_governed(rel, lines, i + 1, last, blanks);
            let head = crate::rules::unused_imports_allow_reports(rel, i, t);
            lemma_all_governed_concat(head, crate::rules::import_scan(rel, lines, i + 1, last, blanks), "explicit-imports"@);
        } else {
            match crate::rules::import_path(t) {
                Some(path) => {
                    lemma_import_scan_governed(rel, lines, i + 1, Some(crate::rules::import_group(path)), 0);
                    let head = crate::rules::import_line_reports(rel, i, path, last, blanks);
                    assert(all_governed(head, "explicit-imports"@));
                    lemma_all_governed_concat(
                        head,
                        crate::rules::import_scan(rel, lines, i + 1, Some(crate::rules::import_group(path)), 0),
                        "explicit-imports"@,
                    );
                },
                None => {
                    lemma_import_scan_governed(rel, lines, i + 1, None, 0);
                    let head = if "#[allow"@.is_prefix_of(t) && crate::text::contains(t, "unused_imports"@) {
                        seq![crate::diagnostic::report("STYLE007"@, rel, (i + 1) as usize, "unused_imports allows are not allowed"@)]
                    } else {
                        seq![]
                    };
                    lemma_all_governed_concat(head, crate::rules::import_scan(rel, lines, i + 1, None, 0), "explicit-imports"@);
                },
            }
        }
    }
}

proof fn lemma_mod_imports_governed(rel: Seq<char>, lines: Seq<Seq<char>>, i: int)
    ensures
        all_governed(crate::rules::mod_import_reports(rel, lines, i), "explicit-imports"@),
    decreases lines.len() - i,
{
    if 0 <= i < lines.len() {
        lemma_mod_imports_governed(rel, lines, i + 1);
        let head = if "use "@.is_prefix_of(crate::text::trim_start(lines[i])) {
            seq![crate::diagnostic::report("STYLE016"@, rel, (i + 1) as usize, "aggregation-only mod.rs files must not collect private imports for child modules"@)]
        } else {
            seq![]
        };
        lemma_all_governed_concat(head, crate::rules::mod_import_reports(rel, lines, i + 1), "explicit-imports"@);
    }
}

proof fn lemma_import_reports_governed(rel: Seq<char>, lines: Seq<Seq<char>>, ex: Seq<ExceptionView>)
    ensures
        all_governed(crate::rules::import_reports(rel, lines, ex), "explicit-imports"@),
{
    lemma_import_scan_governed(rel, lines, 0, None, 0);
    lemma_mod_imports_governed(rel, lines, 0);
    lemma_all_governed_concat(crate::rules::import_scan(rel, lines, 0, None, 0), crate::rules::mod_import_reports(rel, lines, 0), "explicit-imports"@);
    lemma_all_governed_concat(crate::rules::import_scan(rel, lines, 0, None, 0), seq![], "explicit-imports"@);
}

proof fn lemma_disallowed_items_governed(rel: Seq<char>, items: Seq<crate::syntax::SourceItem>, i: int)
    ensures
        all_governed(crate::rules::disallowed_item_reports(rel, items, i), "aggregation-files"@),
    decreases items.len() - i,
{
    if 0 <= i < items.len() {
        lemma_disallowed_items_governed(rel, items, i + 1);
        let head = if !crate::syntax::allowed_in_aggregation(items[i]) {
            seq![crate::diagnostic::report("STYLE009"@, rel, 0, "lib.rs and mod.rs files must only declare modules and re-export items"@)]
        } else {
            seq![]
        };
        lemma_all_governed_concat(head, crate::rules::disallowed_item_reports(rel, items, i + 1), "aggregation-files"@);
    }
}

proof fn lemma_allowed_push(ex: Seq<ExceptionView>, e: ExceptionView, rule: Seq<char>, path: Seq<char>)
    ensures
        allowed(ex.push(e), rule, path) <==> (allowed(ex, rule, path) || (e.rule == rule && e.path == path)),
{
    if allowed(ex.push(e), rule, path) {
        let i = choose|i: int| 0 <= i < ex.push(e).len() && ex.push(e)[i].rule == rule && ex.push(e)[i].path == path;
        if i < ex.len() {
            assert(ex[i] == ex.push(e)[i]);
        }
    }
    if allowed(ex, rule, path) {
        let i = choose|i: int| 0 <= i < ex.len() && ex[i].rule == rule && ex[i].path == path;
        assert(ex.push(e)[i] == ex[i]);
    }
    if e.rule == rule && e.path == path {
        assert(ex.push(e)[ex.len() as int] == e);
    }
}

proof fn lemma_lost_in_piece(
    old_piece: Seq<DiagnosticView>,
    new_piece: Seq<DiagnosticView>,
    rule: Seq<char>,
    d: DiagnosticView,
)
    requires
        old_piece.contains(d),
        !new_piece.contains(d),
        old_piece != new_piece ==> all_governed(old_piece, rule),
    ensures
        governs(rule, d.code),
{
    let k = choose|k: int| 0 <= k < old_piece.len() && old_piece[k] == d;
    assert(governs(rule, old_piece[k].code));
}

/// Whether every diagnostic of `o` missing from `n` is one that `rule`
/// governs.
pub open spec fn loses_only_governed(o: Seq<DiagnosticView>, n: Seq<DiagnosticView>, rule: Seq<char>) -> bool {
    forall|d: DiagnosticView| #[trigger] o.contains(d) && !n.contains(d) ==> governs(rule, d.code)
}

proof fn lemma_changed_piece(o: Seq<DiagnosticView>, n: Seq<DiagnosticView>, rule: Seq<char>)
    requires
        o != n ==> all_governed(o, rule),
    ensures
        loses_only_governed(o, n, rule),
{
    assert forall|d: DiagnosticView| #[trigger] o.contains(d) && !n.contains(d) implies governs(rule, d.code) by {
        lemma_lost_in_piece(o, n, rule, d);
    }
}

proof fn lemma_loses_concat(
    a_o: Seq<DiagnosticView>,
    a_n: Seq<DiagnosticView>,
    b_o: Seq<DiagnosticView>,
    b_n: Seq<DiagnosticView>,
    rule: Seq<char>,
)
    requires
        loses_only_governed(a_o, a_n, rule),
        loses_only_governed(b_o, b_n, rule),
    ensures
        loses_only_governed(a_o + b_o, a_n + b_n, rule),
{
    assert forall|d: DiagnosticView| #[trigger] (a_o + b_o).contains(d) && !(a_n + b_n).contains(d) implies governs(rule, d.code) by {
        lemma_concat_contains(a_o, b_o, d);
        lemma_concat_contains(a_n, b_n, d);
        if a_o.contains(d) {
            assert(!a_n.contains(d));
        } else {
            assert(b_o.contains(d) && !b_n.contains(d));
        }
    }
}

proof fn lemma_common_loses(rel: Seq<char>, lines: Seq<Seq<char>>, enforce_headers: bool, ex: Seq<ExceptionView>, e: ExceptionView)
    ensures
        loses_only_governed(
            crate::rules::common_reports(rel, lines, enforce_headers, ex),
            crate::rules::common_reports(rel, lines, enforce_headers, ex.push(e)),
            e.rule,
        ),
{
    let heads = if enforce_headers {
        crate::rules::header_reports(rel, lines)
    } else {
        seq![]
    };
    lemma_changed_piece(heads, heads, e.rule);
    lemma_allowed_push(ex, e, "explicit-imports"@, rel);
    lemma_import_reports_governed(rel, lines, ex);
    lemma_changed_piece(crate::rules::import_reports(rel, lines, ex), crate::rules::import_reports(rel, lines, ex.push(e)), e.rule);
    lemma_loses_concat(
        heads,
        heads,
        crate::rules::import_reports(rel, lines, ex),
        crate::rules::import_reports(rel, lines, ex.push(e)),
        e.rule,
    );
}

proof fn lemma_layout_loses(rel: Seq<char>, stem: Seq<char>, text: Seq<char>, ex: Seq<ExceptionView>, e: ExceptionView)
    ensures
        loses_only_governed(
            crate::rules::type_layout_reports(rel, stem, text, ex),
            crate::rules::type_layout_reports(rel, stem, text, ex.push(e)),
            e.rule,
        ),
{
    lemma_allowed_push(ex, e, "public-type-layout"@, rel);
    lemma_allowed_push(ex, e, "multiple-public-types"@, rel);
    lemma_allowed_push(ex, e, "type-file-name"@, rel);
    let o = crate::rules::type_layout_reports(rel, stem, text, ex);
    if o != crate::rules::type_layout_reports(rel, stem, text, ex.push(e)) {
        assert(all_governed(o, e.rule));
    }
    lemma_changed_piece(o, crate::rules::type_layout_reports(rel, stem, text, ex.push(e)), e.rule);
}

proof fn lemma_source_loses(
    rel: Seq<char>,
    stem: Seq<char>,
    text: Seq<char>,
    enforce_headers: bool,
    inline_tests: bool,
    ex: Seq<ExceptionView>,
    e: ExceptionView,
)
    ensures
        loses_only_governed(
            crate::rules::source_file_reports(rel, stem, text, enforce_headers, inline_tests, ex),
            crate::rules::source_file_reports(rel, stem, text, enforce_headers, inline_tests, ex.push(e)),
            e.rule,
        ),
{
    let lines = crate::text::lines(text);
    let ex2 = ex.push(e);
    lemma_common_loses(rel, lines, enforce_headers, ex, e);
    lemma_allowed_push(ex, e, "coverage-cfg"@, rel);
    lemma_line_reports_governed(crate::rules::LineRule::CoverageCfg, rel, lines, 0, "coverage-cfg"@);
    lemma_changed_piece(crate::rules::coverage_reports(rel, lines, ex), crate::rules::coverage_reports(rel, lines, ex2), e.rule);
    lemma_allowed_push(ex, e, "aggregation-files"@, rel);
    match crate::syntax::rust_items(text) {
        Some(items) => lemma_disallowed_items_governed(rel, items, 0),
        None => {},
    }
    lemma_changed_piece(crate::rules::aggregation_reports(rel, text, ex), crate::rules::aggregation_reports(rel, text, ex2), e.rule);
    lemma_layout_loses(rel, stem, text, ex, e);
    lemma_allowed_push(ex, e, "inline-tests"@, rel);
    lemma_line_reports_governed(crate::rules::LineRule::InlineTest, rel, lines, 0, "inline-tests"@);
    lemma_changed_piece(
        crate::rules::inline_test_reports(rel, lines, inline_tests, ex),
        crate::rules::inline_test_reports(rel, lines, inline_tests, ex2),
        e.rule,
    );
    let c_o = crate::rules::common_reports(rel, lines, enforce_headers, ex);
    let c_n = crate::rules::common_reports(rel, lines, enforce_headers, ex2);
    let v_o = crate::rules::coverage_reports(rel, lines, ex);
    let v_n = crate::rules::coverage_reports(rel, lines, ex2);
    let a_o = crate::rules::aggregation_reports(rel, text, ex);
    let a_n = crate::rules::aggregation_reports(rel, text, ex2);
    let l_o = crate::rules::type_layout_reports(rel, stem, text, ex);
    let l_n = crate::rules::type_layout_reports(rel, stem, text, ex2);
    let i_o = crate::rules::inline_test_reports(rel, lines, inline_tests, ex);
    let i_n = crate::rules::inline_test_reports(rel, lines, inline_tests, ex2);
    lemma_loses_concat(c_o, c_n, v_o, v_n, e.rule);
    lemma_loses_concat(c_o + v_o, c_n + v_n, a_o, a_n, e.rule);
    lemma_loses_concat(c_o + v_o + a_o, c_n + v_n + a_n, l_o, l_n, e.rule);
    lemma_loses_concat(c_o + v_o + a_o + l_o, c_n + v_n + a_n + l_n, i_o, i_n, e.rule);
}

proof fn lemma_test_loses(rel: Seq<char>, text: Seq<char>, enforce_headers: bool, ex: Seq<ExceptionView>, e: ExceptionView)
    ensures
        loses_only_governed(
            crate::rules::test_file_reports(rel, text, enforce_headers, ex),
            crate::rules::test_file_reports(rel, text, enforce_headers, ex.push(e)),
            e.rule,
        ),
{
    let lines = crate::text::lines(text);
    let ex2 = ex.push(e);
    lemma_common_loses(rel, lines, enforce_headers, ex, e);
    lemma_allowed_push(ex, e, "test-file-name"@, rel);
    lemma_changed_piece(crate::rules::test_naming_reports(rel, text, ex), crate::rules::test_naming_reports(rel, text, ex2), e.rule);
    lemma_allowed_push(ex, e, "test-redirect"@, rel);
    lemma_line_reports_governed(crate::rules::LineRule::TestRedirect, rel, lines, 0, "test-redirect"@);
    lemma_changed_piece(crate::rules::test_redirect_reports(rel, lines, ex), crate::rules::test_redirect_reports(rel, lines, ex2), e.rule);
    let c_o = crate::rules::common_reports(rel, lines, enforce_headers, ex);
    let c_n = crate::rules::common_reports(rel, lines, enforce_headers, ex2);
    let n_o = crate::rules::test_naming_reports(rel, text, ex);
    let n_n = crate::rules::test_naming_reports(rel, text, ex2);
    lemma_loses_concat(c_o, c_n, n_o, n_n, e.rule);
    lemma_loses_concat(
        c_o + n_o,
        c_n + n_n,
        crate::rules::test_redirect_reports(rel, lines, ex),
        crate::rules::test_redirect_reports(rel, lines, ex2),
        e.rule,
    );
}

/// An exception suppresses only diagnostics that match both its path and
/// its rule: a diagnostic of a file that disappears when the exception is
/// added belongs to the file the exception names and has a code that the
/// exception's rule governs.
pub proof fn exception_suppresses_only_its_rule_at_its_path(
    kind: RootKind,
    project: Seq<char>,
    path: Seq<char>,
    text: Seq<char>,
    ex: Seq<ExceptionView>,
    e: ExceptionView,
    enforce_headers: bool,
    inline_tests: bool,
    d: DiagnosticView,
)
    requires
        file_reports(kind, project, path, text, ex, enforce_headers, inline_tests).contains(d),
        !file_reports(kind, project, path, text, ex.push(e), enforce_headers, inline_tests).contains(d),
    ensures
        e.path == relative_path(project, path),
        governs(e.rule, d.code),
{
    let rel = relative_path(project, path);
    if e.path != rel {
        exception_for_another_path_has_no_effect(kind, project, path, text, ex, e, enforce_headers, inline_tests);
    }
    match kind {
        RootKind::Other => lemma_common_loses(rel, crate::text::lines(text), enforce_headers, ex, e),
        RootKind::Tests => lemma_test_loses(rel, text, enforce_headers, ex, e),
        RootKind::Source => {
            let stem = crate::paths::stem_of(
                match crate::paths::file_name(path) {
                    Some(n) => n,
                    None => seq![],
                },
            );
            lemma_source_loses(rel, stem, text, enforce_headers, inline_tests, ex, e);
        },
    }
}

/// When both outcomes succeed: every diagnostic of the second outcome is
/// in the first, and every diagnostic of the first missing from the second
/// is about the exception's path and has a code that its rule governs.
pub open spec fn outcome_loses_only(
    o: Result<Seq<DiagnosticView>, StyleErrorView>,
    n: Result<Seq<DiagnosticView>, StyleErrorView>,
    e: ExceptionView,
) -> bool {
    match o {
        Ok(a) => match n {
            Ok(b) => (forall|d: DiagnosticView|
                #[trigger] a.contains(d) && !b.contains(d) ==> d.path == e.path && governs(e.rule, d.code))
                && (forall|d: DiagnosticView| #[trigger] b.contains(d) ==> a.contains(d)),
            Err(_) => true,
        },
        Err(_) => true,
    }
}

proof fn lemma_chain_loses(
    a1: Result<Seq<DiagnosticView>, StyleErrorView>,
    a2: Result<Seq<DiagnosticView>, StyleErrorView>,
    b1: Result<Seq<DiagnosticView>, StyleErrorView>,
    b2: Result<Seq<DiagnosticView>, StyleErrorView>,
    e: ExceptionView,
)
    requires
        outcome_loses_only(a1, a2, e),
        outcome_loses_only(b1, b2, e),
    ensures
        outcome_loses_only(chain(a1, b1), chain(a2, b2), e),
{
    if a1 is Ok && b1 is Ok && a2 is Ok && b2 is Ok {
        let x = a1->Ok_0;
        let y = b1->Ok_0;
        let u = a2->Ok_0;
        let v = b2->Ok_0;
        assert forall|d: DiagnosticView| #[trigger] (x + y).contains(d) && !(u + v).contains(d) implies d.path == e.path && governs(e.rule, d.code) by {
            lemma_concat_contains(x, y, d);
            lemma_concat_contains(u, v, d);
        }
        assert forall|d: DiagnosticView| #[trigger] (u + v).contains(d) implies (x + y).contains(d) by {
            lemma_concat_contains(x, y, d);
            lemma_concat_contains(u, v, d);
        }
    }
}

proof fn lemma_same_outcome_loses_nothing(o: Result<Seq<DiagnosticView>, StyleErrorView>, e: ExceptionView)
    ensures
        outcome_loses_only(o, o, e),
{
}

proof fn lemma_file_loses(
    kind: RootKind,
    project: Seq<char>,
    path: Seq<char>,
    text: Seq<char>,
    ex: Seq<ExceptionView>,
    e: ExceptionView,
    enforce_headers: bool,
    inline_tests: bool,
)
    ensures
        outcome_loses_only(
            Ok(file_reports(kind, project, path, text, ex, enforce_headers, inline_tests)),
            Ok(file_reports(kind, project, path, text, ex.push(e), enforce_headers, inline_tests)),
            e,
        ),
{
    let old = file_reports(kind, project, path, text, ex, enforce_headers, inline_tests);
    let new = file_reports(kind, project, path, text, ex.push(e), enforce_headers, inline_tests);
    lemma_file_errors(kind, project, path, text, ex, enforce_headers, inline_tests);
    assert forall|d: DiagnosticView| #[trigger] old.contains(d) && !new.contains(d) implies d.path == e.path && governs(e.rule, d.code) by {
        exception_suppresses_only_its_rule_at_its_path(kind, project, path, text, ex, e, enforce_headers, inline_tests, d);
        let k = choose|k: int| 0 <= k < old.len() && old[k] == d;
        assert(old[k].path == relative_path(project, path));
    }
    let rel = relative_path(project, path);
    assert forall|rule: Seq<char>| #[trigger] allowed(ex, rule, rel) implies allowed(ex.push(e), rule, rel) by {
        lemma_allowed_push(ex, e, rule, rel);
    }
    assert forall|d: DiagnosticView| #[trigger] new.contains(d) implies old.contains(d) by {
        more_exceptions_never_add_file_diagnostics(kind, project, path, text, ex, ex.push(e), enforce_headers, inline_tests, d);
    }
}

proof fn lemma_entries_loses(
    kind: RootKind,
    project: Seq<char>,
    root: Seq<char>,
    entries: Seq<WalkEntry>,
    i: int,
    ex: Seq<ExceptionView>,
    e: ExceptionView,
    enforce_headers: bool,
    inline_tests: bool,
)
    ensures
        outcome_loses_only(
            entries_outcome(kind, project, root, entries, i, ex, enforce_headers, inline_tests),
            entries_outcome(kind, project, root, entries, i, ex.push(e), enforce_headers, inline_tests),
            e,
        ),
    decreases entries.len() - i,
{
    if 0 <= i < entries.len() {
        lemma_entries_loses(kind, project, root, entries, i + 1, ex, e, enforce_headers, inline_tests);
        let rest1 = entries_outcome(kind, project, root, entries, i + 1, ex, enforce_headers, inline_tests);
        let rest2 = entries_outcome(kind, project, root, entries, i + 1, ex.push(e), enforce_headers, inline_tests);
        match entries[i] {
            WalkEntry::File { path, text } => match text {
                Some(t) => {
                    lemma_file_loses(kind, project, path@, t@, ex, e, enforce_headers, inline_tests);
                    lemma_chain_loses(
                        Ok(file_reports(kind, project, path@, t@, ex, enforce_headers, inline_tests)),
                        Ok(file_reports(kind, project, path@, t@, ex.push(e), enforce_headers, inline_tests)),
                        rest1,
                        rest2,
                        e,
                    );
                },
                None => {},
            },
            _ => {},
        }
    }
}

proof fn lemma_root_loses(
    snap: ProjectSnapshot,
    root: Seq<char>,
    kind: RootKind,
    ex: Seq<ExceptionView>,
    e: ExceptionView,
    enforce_headers: bool,
    inline_tests: bool,
)
    ensures
        outcome_loses_only(
            root_outcome(snap, root, kind, ex, enforce_headers, inline_tests),
            root_outcome(snap, root, kind, ex.push(e), enforce_headers, inline_tests),
            e,
        ),
{
    reveal(root_outcome);
    match crate::project::tree_at(snap.trees@, root) {
        Some(t) => lemma_entries_loses(kind, snap.root@, root, t.entries@, 0, ex, e, enforce_headers, inline_tests),
        None => {},
    }
}

proof fn lemma_internal_loses(
    snap: ProjectSnapshot,
    ex: Seq<ExceptionView>,
    e: ExceptionView,
    source: Seq<char>,
    enforce_headers: bool,
    inline_tests: bool,
)
    ensures
        outcome_loses_only(
            internal_part(snap, ex, source, enforce_headers, inline_tests),
            internal_part(snap, ex.push(e), source, enforce_headers, inline_tests),
            e,
        ),
{
    reveal(internal_part);
    let internal = crate::paths::join(source, "tests"@);
    let relative = relative_path(snap.root@, internal);
    lemma_allowed_push(ex, e, "internal-test-module"@, relative);
    let m1 = crate::project::internal_module_reports(snap, ex, source);
    let m2 = crate::project::internal_module_reports(snap, ex.push(e), source);
    assert(outcome_loses_only(Ok(m1), Ok(m2), e));
    lemma_root_loses(snap, internal, RootKind::Tests, ex, e, enforce_headers, inline_tests);
    lemma_chain_loses(
        Ok(m1),
        Ok(m2),
        root_outcome(snap, internal, RootKind::Tests, ex, enforce_headers, inline_tests),
        root_outcome(snap, internal, RootKind::Tests, ex.push(e), enforce_headers, inline_tests),
        e,
    );
}

proof fn lemma_pair_loses(
    snap: ProjectSnapshot,
    ex: Seq<ExceptionView>,
    e: ExceptionView,
    source: Seq<char>,
    tests: Seq<char>,
    test_files: Seq<Seq<char>>,
    file: Seq<char>,
)
    ensures
        outcome_loses_only(
            pair_outcome(snap, ex, source, tests, test_files, file),
            pair_outcome(snap, ex.push(e), source, tests, test_files, file),
            e,
        ),
{
    let relative = relative_path(snap.root@, file);
    lemma_allowed_push(ex, e, "source-test-pair"@, relative);
    if allowed(ex.push(e), "source-test-pair"@, relative) == allowed(ex, "source-test-pair"@, relative) {
        assert(pair_outcome(snap, ex, source, tests, test_files, file) == pair_outcome(snap, ex.push(e), source, tests, test_files, file));
        lemma_same_outcome_loses_nothing(pair_outcome(snap, ex, source, tests, test_files, file), e);
    }
}

proof fn lemma_pairs_loses(
    snap: ProjectSnapshot,
    ex: Seq<ExceptionView>,
    e: ExceptionView,
    source: Seq<char>,
    tests: Seq<char>,
    test_files: Seq<Seq<char>>,
    files: Seq<Seq<char>>,
    i: int,
)
    ensures
        outcome_loses_only(
            pairs_from(snap, ex, source, tests, test_files, files, i),
            pairs_from(snap, ex.push(e), source, tests, test_files, files, i),
            e,
        ),
    decreases files.len() - i,
{
    if 0 <= i < files.len() {
        lemma_pairs_loses(snap, ex, e, source, tests, test_files, files, i + 1);
        lemma_pair_loses(snap, ex, e, source, tests, test_files, files[i]);
        lemma_chain_loses(
            pair_outcome(snap, ex, source, tests, test_files, files[i]),
            pair_outcome(snap, ex.push(e), source, tests, test_files, files[i]),
            pairs_from(snap, ex, source, tests, test_files, files, i + 1),
            pairs_from(snap, ex.push(e), source, tests, test_files, files, i + 1),
            e,
        );
    }
}

proof fn lemma_source_test_pairs_loses(
    snap: ProjectSnapshot,
    ex: Seq<ExceptionView>,
    e: ExceptionView,
    source: Seq<char>,
    tests: Seq<char>,
)
    ensures
        outcome_loses_only(
            source_test_pairs_outcome(snap, ex, source, tests),
            source_test_pairs_outcome(snap, ex.push(e), source, tests),
            e,
        ),
{
    reveal(source_test_pairs_outcome);
    let trees = snap.trees@;
    match crate::project::rust_files(trees, tests) {
        Ok(test_files) => match crate::project::rust_files(trees, source) {
            Ok(files) => lemma_pairs_loses(snap, ex, e, source, tests, test_files, files, 0),
            Err(_) => {},
        },
        Err(_) => {},
    }
}

proof fn lemma_package_loses(
    snap: ProjectSnapshot,
    ex: Seq<ExceptionView>,
    e: ExceptionView,
    source: Seq<char>,
    tests: Seq<char>,
    enforce_headers: bool,
    inline_tests: bool,
)
    ensures
        outcome_loses_only(
            package_outcome(snap, ex, source, tests, enforce_headers, inline_tests),
            package_outcome(snap, ex.push(e), source, tests, enforce_headers, inline_tests),
            e,
        ),
{
    let ex2 = ex.push(e);
    let dir = crate::project::package_dir(source);
    let benches = crate::paths::join(dir, "benches"@);
    let fuzz = crate::paths::join(dir, "fuzz"@);
    let examples = crate::paths::join(dir, "examples"@);
    let a1 = root_outcome(snap, source, RootKind::Source, ex, enforce_headers, inline_tests);
    let a2 = root_outcome(snap, source, RootKind::Source, ex2, enforce_headers, inline_tests);
    let b1 = internal_part(snap, ex, source, enforce_headers, inline_tests);
    let b2 = internal_part(snap, ex2, source, enforce_headers, inline_tests);
    let c1 = tests_part(snap, ex, source, tests, enforce_headers, inline_tests);
    let c2 = tests_part(snap, ex2, source, tests, enforce_headers, inline_tests);
    let d1 = root_outcome(snap, benches, RootKind::Other, ex, enforce_headers, inline_tests);
    let d2 = root_outcome(snap, benches, RootKind::Other, ex2, enforce_headers, inline_tests);
    let e1 = root_outcome(snap, fuzz, RootKind::Other, ex, enforce_headers, inline_tests);
    let e2 = root_outcome(snap, fuzz, RootKind::Other, ex2, enforce_headers, inline_tests);
    let f1 = root_outcome(snap, examples, RootKind::Other, ex, enforce_headers, inline_tests);
    let f2 = root_outcome(snap, examples, RootKind::Other, ex2, enforce_headers, inline_tests);
    let g1 = source_test_pairs_outcome(snap, ex, source, tests);
    let g2 = source_test_pairs_outcome(snap, ex2, source, tests);
    lemma_root_loses(snap, source, RootKind::Source, ex, e, enforce_headers, inline_tests);
    lemma_internal_loses(snap, ex, e, source, enforce_headers, inline_tests);
    reveal(tests_part);
    lemma_root_loses(snap, tests, RootKind::Tests, ex, e, enforce_headers, inline_tests);
    lemma_root_loses(snap, benches, RootKind::Other, ex, e, enforce_headers, inline_tests);
    lemma_root_loses(snap, fuzz, RootKind::Other, ex, e, enforce_headers, inline_tests);
    lemma_root_loses(snap, examples, RootKind::Other, ex, e, enforce_headers, inline_tests);
    lemma_source_test_pairs_loses(snap, ex, e, source, tests);
    lemma_chain_loses(f1, f2, g1, g2, e);
    lemma_chain_loses(e1, e2, chain(f1, g1), chain(f2, g2), e);
    lemma_chain_loses(d1, d2, chain(e1, chain(f1, g1)), chain(e2, chain(f2, g2)), e);
    lemma_chain_loses(c1, c2, chain(d1, chain(e1, chain(f1, g1))), chain(d2, chain(e2, chain(f2, g2))), e);
    lemma_chain_loses(
        b1,
        b2,
        chain(c1, chain(d1, chain(e1, chain(f1, g1)))),
        chain(c2, chain(d2, chain(e2, chain(f2, g2)))),
        e,
    );
    lemma_chain_loses(
        a1,
        a2,
        chain(b1, chain(c1, chain(d1, chain(e1, chain(f1, g1))))),
        chain(b2, chain(c2, chain(d2, chain(e2, chain(f2, g2))))),
        e,
    );
}

proof fn lemma_packages_loses(
    snap: ProjectSnapshot,
    ex: Seq<ExceptionView>,
    e: ExceptionView,
    roots: Seq<(Seq<char>, Seq<char>)>,
    i: int,
    enforce_headers: bool,
    inline_tests: bool,
)
    ensures
        outcome_loses_only(
            packages_from(snap, ex, roots, i, enforce_headers, inline_tests),
            packages_from(snap, ex.push(e), roots, i, enforce_headers, inline_tests),
            e,
        ),
    decreases roots.len() - i,
{
    if 0 <= i < roots.len() {
        lemma_packages_loses(snap, ex, e, roots, i + 1, enforce_headers, inline_tests);
        lemma_package_loses(snap, ex, e, roots[i].0, roots[i].1, enforce_headers, inline_tests);
        lemma_chain_loses(
            package_outcome(snap, ex, roots[i].0, roots[i].1, enforce_headers, inline_tests),
            package_outcome(snap, ex.push(e), roots[i].0, roots[i].1, enforce_headers, inline_tests),
            packages_from(snap, ex, roots, i + 1, enforce_headers, inline_tests),
            packages_from(snap, ex.push(e), roots, i + 1, enforce_headers, inline_tests),
            e,
        );
    }
}

/// Across a whole check, an exception suppresses only diagnostics that
/// match both its path and its rule: a diagnostic reported without the
/// exception but not with it is about the exception's path and has a code
/// that the exception's rule governs.
pub proof fn exceptions_suppress_only_matching_diagnostics(
    snap: ProjectSnapshot,
    ex: Seq<ExceptionView>,
    e: ExceptionView,
    source_dir: Option<Seq<char>>,
    test_dir: Option<Seq<char>>,
    d: DiagnosticView,
)
    requires
        outcome_with_exceptions(snap, ex, source_dir, test_dir) matches Ok(without) && without.contains(d),
        outcome_with_exceptions(snap, ex.push(e), source_dir, test_dir) matches Ok(with) && !with.contains(d),
    ensures
        d.path == e.path,
        governs(e.rule, d.code),
{
    match crate::project::package_roots(snap, source_dir, test_dir) {
        Ok(roots) => lemma_packages_loses(
            snap,
            ex,
            e,
            roots,
            0,
            snap.has_manifest,
            switch_value(opt_view(snap.inline_tests_switch), false),
        ),
        Err(_) => {},
    }
}

/// A source comment alone exempts nothing: without configured exceptions
/// no rule is exempted for any path, and the coverage rule reports every
/// coverage-specific `cfg` line even when the file carries the
/// `qubit-style: allow coverage-cfg` marker.
pub proof fn source_comments_alone_exempt_nothing(rule: Seq<char>, path: Seq<char>, lines: Seq<Seq<char>>)
    ensures
        !allowed(seq![], rule, path),
        crate::rules::coverage_reports(path, lines, seq![]) == crate::rules::line_reports(
            crate::rules::LineRule::CoverageCfg,
            path,
            lines,
            0,
        ),
{
}

/// Across a whole check, adding an exception never adds a diagnostic:
/// every diagnostic reported with the exception is also reported without
/// it.
pub proof fn exceptions_never_add_diagnostics(
    snap: ProjectSnapshot,
    ex: Seq<ExceptionView>,
    e: ExceptionView,
    source_dir: Option<Seq<char>>,
    test_dir: Option<Seq<char>>,
    d: DiagnosticView,
)
    requires
        outcome_with_exceptions(snap, ex, source_dir, test_dir) is Ok,
        outcome_with_exceptions(snap, ex.push(e), source_dir, test_dir) matches Ok(with) && with.contains(d),
    ensures
        outcome_with_exceptions(snap, ex, source_dir, test_dir) matches Ok(without) && without.contains(d),
{
    match crate::project::package_roots(snap, source_dir, test_dir) {
        Ok(roots) => lemma_packages_loses(
            snap,
            ex,
            e,
            roots,
            0,
            snap.has_manifest,
            switch_value(opt_view(snap.inline_tests_switch), false),
        ),
        Err(_) => {},
    }
}

} // verus!

//! Laws of the import rules: what the diagnostics of one file's imports
//! can be.

use vstd::prelude::*;

use crate::diagnostic::DiagnosticView;
use crate::exceptions::ExceptionView;
use crate::laws::exceptions::is_import_code;
use crate::rules::import_line_reports;
use crate::rules::import_reports;
use crate::rules::import_scan;
use crate::rules::mod_import_reports;
use crate::rules::unused_imports_allow_reports;
use crate::text::trim;

verus! {

/// Whether `d` is a diagnostic that the import rules may report for the
/// file at `path` with `n` lines: an error of schema version 1 about that
/// file, with an import rule code, on a line from 1 to `n`.
pub open spec fn import_diagnostic(d: DiagnosticView, path: Seq<char>, n: int) -> bool {
    &&& d.schema_version == 1
    &&& d.severity == "error"@
    &&& d.path == path
    &&& is_import_code(d.code)
    &&& 1 <= d.line <= n
}

/// Whether every diagnostic of `s` is one that the import rules may report
/// for the file at `path` with `n` lines.
pub open spec fn all_import_diagnostics(s: Seq<DiagnosticView>, path: Seq<char>, n: int) -> bool {
    forall|k: int| 0 <= k < s.len() ==> import_diagnostic(#[trigger] s[k], path, n)
}

proof fn lemma_all_import_concat(a: Seq<DiagnosticView>, b: Seq<DiagnosticView>, path: Seq<char>, n: int)
    requires
        all_import_diagnostics(a, path, n),
        all_import_diagnostics(b, path, n),
    ensures
        all_import_diagnostics(a + b, path, n),
{
    assert forall|k: int| 0 <= k < (a + b).len() implies import_diagnostic(#[trigger] (a + b)[k], path, n) by {
        if k < a.len() {
            assert((a + b)[k] == a[k]);
        } else {
            assert((a + b)[k] == b[k - a.len()]);
        }
    }
}

proof fn lemma_import_scan_lines(rel: Seq<char>, lines: Seq<Seq<char>>, i: int, last: Option<int>, blanks: int)
    requires
        lines.len() <= usize::MAX,
    ensures
        all_import_diagnostics(import_scan(rel, lines, i, last, blanks), rel, lines.len() as int),
    decreases lines.len() - i,
{
    let n = lines.len() as int;
    if 0 <= i < lines.len() {
        let t = trim(lines[i]);
        let allow = unused_imports_allow_reports(rel, i, t);
        assert(all_import_diagnostics(allow, rel, n));
        if t.len() == 0 {
            lemma_import_scan_lines(rel, lines, i + 1, last, if last is Some { blanks + 1 } else { blanks });
        } else if "#["@.is_prefix_of(t) && last is Some {
            lemma_import_scan_lines(rel, lines, i + 1, last, blanks);
            lemma_all_import_concat(allow, import_scan(rel, lines, i + 1, last, blanks), rel, n);
        } else {
            match crate::rules::import_path(t) {
                Some(path) => {
                    let group = crate::rules::import_group(path);
                    lemma_import_scan_lines(rel, lines, i + 1, Some(group), 0);
                    let head = import_line_reports(rel, i, path, last, blanks);
                    assert(all_import_diagnostics(head, rel, n));
                    lemma_all_import_concat(head, import_scan(rel, lines, i + 1, Some(group), 0), rel, n);
                },
                None => {
                    lemma_import_scan_lines(rel, lines, i + 1, None, 0);
                    lemma_all_import_concat(allow, import_scan(rel, lines, i + 1, None, 0), rel, n);
                },
            }
        }
    }
}

proof fn lemma_mod_import_lines(rel: Seq<char>, lines: Seq<Seq<char>>, i: int)
    requires
        lines.len() <= usize::MAX,
    ensures
        all_import_diagnostics(mod_import_reports(rel, lines, i), rel, lines.len() as int),
    decreases lines.len() - i,
{
    if 0 <= i < lines.len() {
        lemma_mod_import_lines(rel, lines, i + 1);
        let head = if "use "@.is_prefix_of(crate::text::trim_start(lines[i])) {
            seq![crate::diagnostic::report("STYLE016"@, rel, (i + 1) as usize, "aggregation-only mod.rs files must not collect private imports for child modules"@)]
        } else {
            seq![]
        };
        assert(all_import_diagnostics(head, rel, lines.len() as int));
        lemma_all_import_concat(head, mod_import_reports(rel, lines, i + 1), rel, lines.len() as int);
    }
}

/// The import rules report, for one file, only errors of schema version 1
/// about that file, with the codes of the import rules (`STYLE003` to
/// `STYLE007`, `STYLE016`) and line numbers from 1 to the file's number of
/// lines.  `check_imports` appends exactly these diagnostics after the ones
/// it was given.
pub proof fn import_rules_report_only_import_lines(relative: Seq<char>, lines: Seq<Seq<char>>, ex: Seq<ExceptionView>)
    requires
        lines.len() <= usize::MAX,
    ensures
        all_import_diagnostics(import_reports(relative, lines, ex), relative, lines.len() as int),
{
    let n = lines.len() as int;
    lemma_import_scan_lines(relative, lines, 0, None, 0);
    lemma_mod_import_lines(relative, lines, 0);
    lemma_all_import_concat(import_scan(relative, lines, 0, None, 0), mod_import_reports(relative, lines, 0), relative, n);
    lemma_all_import_concat(import_scan(relative, lines, 0, None, 0), seq![], relative, n);
}

} // verus!

//! Human-readable rendering of diagnostics.

use vstd::prelude::*;

use crate::diagnostic::views;
use crate::diagnostic::Diagnostic;
use crate::diagnostic::DiagnosticView;
use crate::error::decimal;
use crate::error::decimal_exec;
use crate::text::chars_of;
use crate::text::string_of;

verus! {

/// One diagnostic as a text line (without its newline): file-level
/// diagnostics omit the line number.
pub open spec fn diagnostic_line(d: DiagnosticView) -> Seq<char> {
    if d.line == 0 {
        "error: "@ + d.path + ": "@ + d.message
    } else {
        "error: "@ + d.path + ":"@ + decimal(d.line as nat) + ": "@ + d.message
    }
}

/// The lines of the first `n` diagnostics, each ended by a newline.
pub open spec fn rendered_lines(ds: Seq<DiagnosticView>, n: int) -> Seq<char>
    decreases n,
{
    if n <= 0 || n > ds.len() {
        seq![]
    } else {
        rendered_lines(ds, n - 1) + diagnostic_line(ds[n - 1]) + "\n"@
    }
}

/// The text report: one line per diagnostic in order, then a summary line.
pub open spec fn text_report(ds: Seq<DiagnosticView>) -> Seq<char> {
    rendered_lines(ds, ds.len() as int) + if ds.len() == 0 {
        "Rust style checks passed.\n"@
    } else {
        "Rust style checks failed with "@ + decimal(ds.len()) + " issue(s).\n"@
    }
}

fn append_str(v: &mut Vec<char>, s: &str)
    ensures
        final(v)@ == old(v)@ + s@,
{
    let mut more = chars_of(s);
    v.append(&mut more);
}

/// Renders diagnostics as the text report that `check` prints.
pub fn render_text(diagnostics: &Vec<Diagnostic>) -> (r: String)
    ensures
        r@ == text_report(views(diagnostics@)),
{
    let ghost ds = views(diagnostics@);
    let mut out: Vec<char> = Vec::new();
    let mut i: usize = 0;
    while i < diagnostics.len()
        invariant
            i <= diagnostics.len(),
            ds == views(diagnostics@),
            out@ == rendered_lines(ds, i as int),
        decreases diagnostics.len() - i,
    {
        let d = &diagnostics[i];
        assert(ds[i as int] == d@);
        let ghost before = out@;
        append_str(&mut out, "error: ");
        append_str(&mut out, d.path.as_str());
        if d.line == 0 {
            append_str(&mut out, ": ");
        } else {
            append_str(&mut out, ":");
            let mut n = decimal_exec(d.line);
            out.append(&mut n);
            append_str(&mut out, ": ");
        }
        append_str(&mut out, d.message.as_str());
        append_str(&mut out, "\n");
        assert(out@ =~= before + diagnostic_line(ds[i as int]) + "\n"@);
        i = i + 1;
    }
    if diagnostics.len() == 0 {
        append_str(&mut out, "Rust style checks passed.\n");
    } else {
        append_str(&mut out, "Rust style checks failed with ");
        let mut n = decimal_exec(diagnostics.len());
        out.append(&mut n);
        append_str(&mut out, " issue(s).\n");
    }
    assert(out@ =~= text_report(ds));
    string_of(&out)
}

} // verus!

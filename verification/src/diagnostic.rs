//! Machine-readable diagnostics produced by the style checker.

use vstd::prelude::*;

use crate::text::string_of;

verus! {

/// A machine-readable style diagnostic.
#[derive(Debug, Clone, PartialEq, Eq)]
pub struct Diagnostic {
    /// Version of the serialized diagnostic schema.
    pub schema_version: u8,
    /// Stable rule identifier, such as `STYLE004`.
    pub code: String,
    /// Human-readable severity, currently `error`.
    pub severity: String,
    /// Project-relative source path using forward slashes.
    pub path: String,
    /// One-based source line, or zero for file-level diagnostics.
    pub line: usize,
    /// Human-readable explanation of the violation.
    pub message: String,
}

/// The mathematical content of a [`Diagnostic`].
pub ghost struct DiagnosticView {
    pub schema_version: u8,
    pub code: Seq<char>,
    pub severity: Seq<char>,
    pub path: Seq<char>,
    pub line: usize,
    pub message: Seq<char>,
}

impl View for Diagnostic {
    type V = DiagnosticView;

    open spec fn view(&self) -> DiagnosticView {
        DiagnosticView {
            schema_version: self.schema_version,
            code: self.code@,
            severity: self.severity@,
            path: self.path@,
            line: self.line,
            message: self.message@,
        }
    }
}

/// The views of a sequence of diagnostics.
pub open spec fn views(v: Seq<Diagnostic>) -> Seq<DiagnosticView> {
    v.map_values(|d: Diagnostic| d@)
}

/// The diagnostic that every rule reports: schema version 1, severity
/// `error`.
pub open spec fn report(code: Seq<char>, path: Seq<char>, line: usize, message: Seq<char>) -> DiagnosticView {
    DiagnosticView {
        schema_version: 1,
        code: code,
        severity: "error"@,
        path: path,
        line: line,
        message: message,
    }
}

/// Appends a normalized diagnostic record to the current result set.
pub fn add(diagnostics: &mut Vec<Diagnostic>, code: &str, path: &Vec<char>, line: usize, message: &Vec<char>)
    ensures
        views(final(diagnostics)@) == views(old(diagnostics)@).push(report(code@, path@, line, message@)),
{
    let d = Diagnostic {
        schema_version: 1,
        code: String::from_str(code),
        severity: String::from_str("error"),
        path: string_of(path),
        line: line,
        message: string_of(message),
    };
    let ghost before = diagnostics@;
    diagnostics.push(d);
    assert(views(diagnostics@) =~= views(before).push(report(code@, path@, line, message@)));
}

} // verus!

//! Errors that stop a style check before it can report diagnostics.

use vstd::prelude::*;

use crate::text::chars_of;
use crate::text::string_of;

verus! {

/// Why a style operation failed.
#[derive(Debug, Clone, PartialEq, Eq)]
pub enum StyleError {
    /// The exception file exists but could not be read; holds its path.
    ExceptionsUnreadable(String),
    /// The exception file is not valid TOML of the expected shape; holds
    /// its path.
    ExceptionsMalformed(String),
    /// The exception file declares a format other than 1.
    UnsupportedFormat(u8),
    /// An exception names a rule that is not supported.
    UnknownRule(String),
    /// An exception path is not a plain relative path.
    InvalidPath(String),
    /// An exception has an empty reason; holds its rule and path.
    MissingReason(String, String),
    /// Two exceptions name the same rule and path.
    DuplicateException(String, String),
    /// An exception path does not name an existing file.
    MissingTarget(String),
    /// Cargo workspace metadata could not be obtained; holds the reason.
    Metadata(String),
    /// A source tree could not be walked.
    WalkFailed,
    /// A Rust file could not be read as text; holds its path.
    Unreadable(String),
    /// A formatter command could not be started; holds its description.
    FormatterNotStarted(String),
    /// A formatter command exited with a failure; holds its description.
    FormatterFailed(String),
    /// Diagnostics remain after formatting; holds their number.
    IssuesRemain(usize),
}

/// The mathematical content of a [`StyleError`].
pub ghost enum StyleErrorView {
    ExceptionsUnreadable(Seq<char>),
    ExceptionsMalformed(Seq<char>),
    UnsupportedFormat(u8),
    UnknownRule(Seq<char>),
    InvalidPath(Seq<char>),
    MissingReason(Seq<char>, Seq<char>),
    DuplicateException(Seq<char>, Seq<char>),
    MissingTarget(Seq<char>),
    Metadata(Seq<char>),
    WalkFailed,
    Unreadable(Seq<char>),
    FormatterNotStarted(Seq<char>),
    FormatterFailed(Seq<char>),
    IssuesRemain(usize),
}

impl View for StyleError {
    type V = StyleErrorView;

    open spec fn view(&self) -> StyleErrorView {
        match self {
            StyleError::ExceptionsUnreadable(p) => StyleErrorView::ExceptionsUnreadable(p@),
            StyleError::ExceptionsMalformed(p) => StyleErrorView::ExceptionsMalformed(p@),
            StyleError::UnsupportedFormat(f) => StyleErrorView::UnsupportedFormat(*f),
            StyleError::UnknownRule(r) => StyleErrorView::UnknownRule(r@),
            StyleError::InvalidPath(p) => StyleErrorView::InvalidPath(p@),
            StyleError::MissingReason(r, p) => StyleErrorView::MissingReason(r@, p@),
            StyleError::DuplicateException(r, p) => StyleErrorView::DuplicateException(r@, p@),
            StyleError::MissingTarget(p) => StyleErrorView::MissingTarget(p@),
            StyleError::Metadata(m) => StyleErrorView::Metadata(m@),
            StyleError::WalkFailed => StyleErrorView::WalkFailed,
            StyleError::Unreadable(p) => StyleErrorView::Unreadable(p@),
            StyleError::FormatterNotStarted(d) => StyleErrorView::FormatterNotStarted(d@),
            StyleError::FormatterFailed(d) => StyleErrorView::FormatterFailed(d@),
            StyleError::IssuesRemain(n) => StyleErrorView::IssuesRemain(*n),
        }
    }
}

/// The decimal digits of `n`.
pub open spec fn decimal(n: nat) -> Seq<char>
    decreases n,
{
    if n < 10 {
        seq![digit(n)]
    } else {
        decimal(n / 10).push(digit(n % 10))
    }
}

/// The character of a decimal digit.
pub open spec fn digit(d: nat) -> char {
    if d == 0 { '0' }
    else if d == 1 { '1' }
    else if d == 2 { '2' }
    else if d == 3 { '3' }
    else if d == 4 { '4' }
    else if d == 5 { '5' }
    else if d == 6 { '6' }
    else if d == 7 { '7' }
    else if d == 8 { '8' }
    else { '9' }
}

fn digit_exec(d: usize) -> (c: char)
    requires
        d < 10,
    ensures
        c == digit(d as nat),
{
    if d == 0 { '0' }
    else if d == 1 { '1' }
    else if d == 2 { '2' }
    else if d == 3 { '3' }
    else if d == 4 { '4' }
    else if d == 5 { '5' }
    else if d == 6 { '6' }
    else if d == 7 { '7' }
    else if d == 8 { '8' }
    else { '9' }
}

/// Renders a number in decimal.
pub fn decimal_exec(n: usize) -> (r: Vec<char>)
    ensures
        r@ == decimal(n as nat),
    decreases n,
{
    if n < 10 {
        let mut r: Vec<char> = Vec::new();
        r.push(digit_exec(n));
        assert(r@ =~= seq![digit(n as nat)]);
        r
    } else {
        let mut r = decimal_exec(n / 10);
        r.push(digit_exec(n % 10));
        r
    }
}

/// The file that holds project-local style exceptions.
pub open spec fn exceptions_file() -> Seq<char> {
    ".infra/style/exceptions.toml"@
}

/// The text of an error message.
pub open spec fn error_message(e: StyleErrorView) -> Seq<char> {
    match e {
        StyleErrorView::ExceptionsUnreadable(p) => "failed to read "@ + p,
        StyleErrorView::ExceptionsMalformed(p) => "failed to parse "@ + p,
        StyleErrorView::UnsupportedFormat(f) => exceptions_file() + " uses unsupported format "@
            + decimal(f as nat) + "; expected 1"@,
        StyleErrorView::UnknownRule(r) => exceptions_file() + " contains unknown style rule '"@ + r
            + "'"@,
        StyleErrorView::InvalidPath(p) => exceptions_file() + " contains invalid relative path '"@
            + p + "'"@,
        StyleErrorView::MissingReason(r, p) => exceptions_file()
            + " requires a non-empty reason for "@ + r + ":"@ + p,
        StyleErrorView::DuplicateException(r, p) => exceptions_file()
            + " contains duplicate exception "@ + r + ":"@ + p,
        StyleErrorView::MissingTarget(p) => exceptions_file() + " refers to missing file '"@ + p
            + "'"@,
        StyleErrorView::Metadata(m) => m,
        StyleErrorView::WalkFailed => "failed to walk style source tree"@,
        StyleErrorView::Unreadable(p) => "failed to read "@ + p,
        StyleErrorView::FormatterNotStarted(d) => "failed to start "@ + d,
        StyleErrorView::FormatterFailed(d) => d + " failed"@,
        StyleErrorView::IssuesRemain(n) => "style checks still report "@ + decimal(n as nat)
            + " issue(s)"@,
    }
}

/// Appends the characters of `s` to `v`.
fn push_str(v: &mut Vec<char>, s: &str)
    ensures
        final(v)@ == old(v)@ + s@,
{
    let mut more = chars_of(s);
    v.append(&mut more);
}

/// Appends the characters of `s` to `v`.
fn push_string(v: &mut Vec<char>, s: &String)
    ensures
        final(v)@ == old(v)@ + s@,
{
    let mut more = chars_of(s.as_str());
    v.append(&mut more);
}

impl StyleError {
    /// The human-readable message of this error.
    pub fn message(&self) -> (r: String)
        ensures
            r@ == error_message(self@),
    {
        let mut m: Vec<char> = Vec::new();
        match self {
            StyleError::ExceptionsUnreadable(p) => {
                push_str(&mut m, "failed to read ");
                push_string(&mut m, p);
            },
            StyleError::ExceptionsMalformed(p) => {
                push_str(&mut m, "failed to parse ");
                push_string(&mut m, p);
            },
            StyleError::UnsupportedFormat(f) => {
                push_str(&mut m, ".infra/style/exceptions.toml");
                push_str(&mut m, " uses unsupported format ");
                let mut d = decimal_exec(*f as usize);
                m.append(&mut d);
                push_str(&mut m, "; expected 1");
            },
            StyleError::UnknownRule(r) => {
                push_str(&mut m, ".infra/style/exceptions.toml");
                push_str(&mut m, " contains unknown style rule '");
                push_string(&mut m, r);
                push_str(&mut m, "'");
            },
            StyleError::InvalidPath(p) => {
                push_str(&mut m, ".infra/style/exceptions.toml");
                push_str(&mut m, " contains invalid relative path '");
                push_string(&mut m, p);
                push_str(&mut m, "'");
            },
            StyleError::MissingReason(r, p) => {
                push_str(&mut m, ".infra/style/exceptions.toml");
                push_str(&mut m, " requires a non-empty reason for ");
                push_string(&mut m, r);
                push_str(&mut m, ":");
                push_string(&mut m, p);
            },
            StyleError::DuplicateException(r, p) => {
                push_str(&mut m, ".infra/style/exceptions.toml");
                push_str(&mut m, " contains duplicate exception ");
                push_string(&mut m, r);
                push_str(&mut m, ":");
                push_string(&mut m, p);
            },
            StyleError::MissingTarget(p) => {
                push_str(&mut m, ".infra/style/exceptions.toml");
                push_str(&mut m, " refers to missing file '");
                push_string(&mut m, p);
                push_str(&mut m, "'");
            },
            StyleError::Metadata(text) => {
                push_string(&mut m, text);
                assert(m@ =~= text@);
            },
            StyleError::WalkFailed => {
                push_str(&mut m, "failed to walk style source tree");
                assert(m@ =~= "failed to walk style source tree"@);
            },
            StyleError::Unreadable(p) => {
                push_str(&mut m, "failed to read ");
                push_string(&mut m, p);
            },
            StyleError::FormatterNotStarted(d) => {
                push_str(&mut m, "failed to start ");
                push_string(&mut m, d);
            },
            StyleError::FormatterFailed(d) => {
                push_string(&mut m, d);
                push_str(&mut m, " failed");
            },
            StyleError::IssuesRemain(n) => {
                push_str(&mut m, "style checks still report ");
                let mut d = decimal_exec(*n);
                m.append(&mut d);
                push_str(&mut m, " issue(s)");
            },
        }
        string_of(&m)
    }
}

} // verus!

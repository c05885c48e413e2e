//! The style rules that inspect one file's text.
//!
//! Each rule is stated as a spec function from the file's path, text and
//! project exceptions to the diagnostics it reports, and implemented by an
//! executable function proved to report exactly those diagnostics.

use vstd::prelude::*;

use crate::diagnostic::report;
use crate::diagnostic::views;
use crate::diagnostic::Diagnostic;
use crate::diagnostic::DiagnosticView;
use crate::exceptions::allowed;
use crate::exceptions::exception_views;
use crate::exceptions::ExceptionConfig;
use crate::text::chars_eq_str;
use crate::text::chars_of;
use crate::text::contains;
use crate::text::contains_str;
use crate::text::ends_with_str;
use crate::text::slice_chars;
use crate::text::starts_with_str;
use crate::text::trim;
use crate::text::trim_chars;
use crate::text::trim_start;
use crate::text::trim_start_chars;
use crate::syntax::rust_items;
use crate::syntax::parse_rust_items;
use crate::syntax::public_types;
use crate::syntax::allowed_in_aggregation;
use crate::syntax::items_have_tests;
use crate::syntax::SourceItem;

verus! {

/// The first and last lines of the accepted file header.
pub open spec fn header_rule() -> Seq<char> {
    "// ============================================================================="@
}

/// Four ASCII digits that denote a year no earlier than 2025.
pub open spec fn is_year(y: Seq<char>) -> bool {
    &&& y.len() == 4
    &&& forall|i: int| 0 <= i < 4 ==> 48 <= (#[trigger] y[i] as u32) && (y[i] as u32) <= 57
    &&& year_value(y) >= 2025
}

/// The value of four decimal digits.
pub open spec fn year_value(y: Seq<char>) -> int {
    ((y[0] as u32) as int - 48) * 1000 + ((y[1] as u32) as int - 48) * 100 + ((y[2] as u32) as int
        - 48) * 10 + ((y[3] as u32) as int - 48)
}

/// One year, or a range from 2025 to a year: `2025 - {year}`.
pub open spec fn is_year_span(y: Seq<char>) -> bool {
    ||| is_year(y)
    ||| (y.len() == 11 && y.take(4) == "2025"@ && y.subrange(4, 7) == " - "@ && is_year(y.skip(7)))
}

/// The accepted copyright line: `//    Copyright (c) <years> Haixing Hu.`.
pub open spec fn is_copyright_line(line: Seq<char>) -> bool {
    let prefix = "//    Copyright (c) "@;
    let suffix = " Haixing Hu."@;
    let rest = line.skip(prefix.len() as int);
    &&& prefix.is_prefix_of(line)
    &&& suffix.is_suffix_of(rest)
    &&& is_year_span(rest.take(rest.len() - suffix.len()))
}

/// Whether the first lines form the accepted seven-line header.
pub open spec fn has_header(lines: Seq<Seq<char>>) -> bool {
    &&& lines.len() >= 7
    &&& lines[0] == header_rule()
    &&& is_copyright_line(lines[1])
    &&& lines[2] == "//"@
    &&& lines[3] == "//    SPDX-License-Identifier: Apache-2.0"@
    &&& lines[4] == "//"@
    &&& lines[5] == "//    Licensed under the Apache License, Version 2.0."@
    &&& lines[6] == header_rule()
}

/// Diagnostics of the header rule (`DOC-001`).
pub open spec fn header_reports(relative: Seq<char>, lines: Seq<Seq<char>>) -> Seq<DiagnosticView> {
    if has_header(lines) {
        seq![]
    } else {
        seq![report("DOC-001"@, relative, 1, "Rust files must begin with the accepted seven-line copyright and license header"@)]
    }
}

fn is_year_exec(y: &Vec<char>, from: usize) -> (r: bool)
    requires
        from + 4 <= y.len(),
    ensures
        r == is_year(y@.subrange(from as int, from + 4)),
{
    let ghost s = y@.subrange(from as int, from + 4);
    let mut i: usize = 0;
    while i < 4
        invariant
            from + 4 <= y.len(),
            i <= 4,
            s == y@.subrange(from as int, from + 4),
            forall|j: int| 0 <= j < i ==> 48 <= (#[trigger] s[j] as u32) && (s[j] as u32) <= 57,
        decreases 4 - i,
    {
        let c = y[from + i];
        assert(s[i as int] == c);
        if !(48 <= (c as u32) && (c as u32) <= 57) {
            return false;
        }
        i = i + 1;
    }
    assert(48 <= (s[0] as u32) && 48 <= (s[1] as u32) && 48 <= (s[2] as u32) && 48 <= (s[3] as u32));
    assert((s[0] as u32) <= 57 && (s[1] as u32) <= 57 && (s[2] as u32) <= 57 && (s[3] as u32) <= 57);
    let d0 = (y[from] as u32) - 48;
    let d1 = (y[from + 1] as u32) - 48;
    let d2 = (y[from + 2] as u32) - 48;
    let d3 = (y[from + 3] as u32) - 48;
    assert(s[0] == y@[from as int] && s[1] == y@[from + 1] && s[2] == y@[from + 2] && s[3] == y@[from + 3]);
    let value = d0 * 1000 + d1 * 100 + d2 * 10 + d3;
    value >= 2025
}

/// Whether a line is the accepted copyright line.
pub fn valid_copyright_line(line: &Vec<char>) -> (r: bool)
    ensures
        r == is_copyright_line(line@),
{
    let prefix = chars_of("//    Copyright (c) ");
    let suffix = chars_of(" Haixing Hu.");
    if !crate::text::starts_with(line, &prefix) {
        return false;
    }
    let rest = slice_chars(line, prefix.len(), line.len());
    assert(rest@ =~= line@.skip(prefix@.len() as int));
    if !crate::text::ends_with(&rest, &suffix) {
        return false;
    }
    let years = slice_chars(&rest, 0, rest.len() - suffix.len());
    assert(years@ =~= rest@.take(rest@.len() - suffix@.len()));
    if years.len() == 4 {
        assert(years@.subrange(0, 4) =~= years@);
        let r = is_year_exec(&years, 0);
        proof {
            if !r {
                assert(!is_year(years@));
            }
        }
        return r;
    }
    if years.len() != 11 {
        return false;
    }
    assert(years@.subrange(0, 4) =~= years@.take(4));
    assert(years@.subrange(7, 11) =~= years@.skip(7));
    let first = slice_chars(&years, 0, 4);
    let middle = slice_chars(&years, 4, 7);
    chars_eq_str(&first, "2025") && chars_eq_str(&middle, " - ") && is_year_exec(&years, 7)
}

/// Whether a line equals the given text.
fn line_is(lines: &Vec<Vec<char>>, i: usize, s: &str) -> (r: bool)
    requires
        i < lines.len(),
    ensures
        r == (lines@[i as int]@ == s@),
{
    chars_eq_str(&lines[i], s)
}

/// Checks the exact accepted Rust file header.
pub fn check_file_header(relative: &Vec<char>, lines: &Vec<Vec<char>>, diagnostics: &mut Vec<Diagnostic>)
    ensures
        views(final(diagnostics)@) == views(old(diagnostics)@) + header_reports(
            relative@,
            crate::text::views_of(lines@),
        ),
{
    let ghost ls = crate::text::views_of(lines@);
    let rule = "// =============================================================================";
    let valid = lines.len() >= 7 && line_is(lines, 0, rule) && valid_copyright_line(&lines[1])
        && line_is(lines, 2, "//") && line_is(lines, 3, "//    SPDX-License-Identifier: Apache-2.0")
        && line_is(lines, 4, "//") && line_is(
        lines,
        5,
        "//    Licensed under the Apache License, Version 2.0.",
    ) && line_is(lines, 6, rule);
    proof {
        if lines.len() >= 7 {
            assert(ls[0] == lines@[0]@ && ls[1] == lines@[1]@ && ls[2] == lines@[2]@ && ls[3]
                == lines@[3]@ && ls[4] == lines@[4]@ && ls[5] == lines@[5]@ && ls[6] == lines@[6]@);
        }
    }
    if !valid {
        let message = chars_of(
            "Rust files must begin with the accepted seven-line copyright and license header",
        );
        crate::diagnostic::add(diagnostics, "DOC-001", relative, 1, &message);
    } else {
        assert(views(diagnostics@) =~= views(diagnostics@) + Seq::<DiagnosticView>::empty());
    }
}


/// The imported path of a trimmed line `use <path>;` or `pub use <path>;`.
pub open spec fn import_path(t: Seq<char>) -> Option<Seq<char>> {
    let body = if "use "@.is_prefix_of(t) {
        Some(t.skip("use "@.len() as int))
    } else if "pub use "@.is_prefix_of(t) {
        Some(t.skip("pub use "@.len() as int))
    } else {
        None
    };
    match body {
        Some(b) => if b.len() > 0 && b.last() == ';' {
            Some(b.drop_last())
        } else {
            None
        },
        None => None,
    }
}

/// The import group of a path: standard library 0, external crates 1,
/// the current crate 2.
pub open spec fn import_group(path: Seq<char>) -> int {
    if "std::"@.is_prefix_of(path) || "core::"@.is_prefix_of(path) || "alloc::"@.is_prefix_of(path) {
        0
    } else if "crate::"@.is_prefix_of(path) || "self::"@.is_prefix_of(path) || "super::"@.is_prefix_of(path) {
        2
    } else {
        1
    }
}

/// Diagnostics for one import line: brace lists (`STYLE003`), wildcards
/// (`STYLE004`), group order (`STYLE005`) and group separation
/// (`STYLE006`).
pub open spec fn import_line_reports(
    relative: Seq<char>,
    line: int,
    path: Seq<char>,
    last: Option<int>,
    blanks: int,
) -> Seq<DiagnosticView> {
    let group = import_group(path);
    let braces = if crate::text::has_char(path, '{') {
        seq![report("STYLE003"@, relative, (line + 1) as usize, "use declarations must import one object; brace lists are not allowed"@)]
    } else {
        seq![]
    };
    let stars = if crate::text::has_char(path, '*') {
        seq![report("STYLE004"@, relative, (line + 1) as usize, "wildcard imports are not allowed"@)]
    } else {
        seq![]
    };
    let order = match last {
        Some(previous) => if group < previous {
            seq![report("STYLE005"@, relative, (line + 1) as usize, "imports must be ordered standard, external, then current-crate"@)]
        } else if group != previous && blanks != 1 {
            seq![report("STYLE006"@, relative, (line + 1) as usize, "import groups must be separated by exactly one blank line"@)]
        } else {
            seq![]
        },
        None => seq![],
    };
    braces + stars + order
}

/// The diagnostic of an `unused_imports` allow (`STYLE007`) on line `i`,
/// whose trimmed text is `t`.
pub open spec fn unused_imports_allow_reports(relative: Seq<char>, i: int, t: Seq<char>) -> Seq<DiagnosticView> {
    if "#[allow"@.is_prefix_of(t) && contains(t, "unused_imports"@) {
        seq![report("STYLE007"@, relative, (i + 1) as usize, "unused_imports allows are not allowed"@)]
    } else {
        seq![]
    }
}

/// Diagnostics of the import scan from line `i` on, given the group of the
/// import block in progress and the blank lines since its last import.
///
/// A blank line inside an import block is counted; an attribute line inside
/// one keeps the block going and is only checked for `unused_imports`
/// allows (`STYLE007`); an import line is checked and continues the block; any
/// other line ends the block and is checked for `unused_imports` allows
/// (`STYLE007`).
pub open spec fn import_scan(
    relative: Seq<char>,
    lines: Seq<Seq<char>>,
    i: int,
    last: Option<int>,
    blanks: int,
) -> Seq<DiagnosticView>
    decreases lines.len() - i,
{
    if i < 0 || i >= lines.len() {
        seq![]
    } else {
        let t = trim(lines[i]);
        if t.len() == 0 {
            import_scan(relative, lines, i + 1, last, if last is Some { blanks + 1 } else { blanks })
        } else if "#["@.is_prefix_of(t) && last is Some {
            unused_imports_allow_reports(relative, i, t) + import_scan(relative, lines, i + 1, last, blanks)
        } else {
            match import_path(t) {
                Some(path) => import_line_reports(relative, i, path, last, blanks) + import_scan(
                    relative,
                    lines,
                    i + 1,
                    Some(import_group(path)),
                    0,
                ),
                None => unused_imports_allow_reports(relative, i, t) + import_scan(relative, lines, i + 1, None, 0),
            }
        }
    }
}

/// Whether a line (without leading white space) starts a concrete item.
pub open spec fn starts_item(t: Seq<char>) -> bool {
    ||| "async fn "@.is_prefix_of(t)
    ||| "fn "@.is_prefix_of(t)
    ||| "struct "@.is_prefix_of(t)
    ||| "enum "@.is_prefix_of(t)
    ||| "trait "@.is_prefix_of(t)
    ||| "type "@.is_prefix_of(t)
    ||| "const "@.is_prefix_of(t)
    ||| "static "@.is_prefix_of(t)
    ||| "impl "@.is_prefix_of(t)
    ||| "macro_rules!"@.is_prefix_of(t)
    ||| "pub fn "@.is_prefix_of(t)
    ||| "pub struct "@.is_prefix_of(t)
    ||| "pub enum "@.is_prefix_of(t)
    ||| "pub trait "@.is_prefix_of(t)
    ||| "pub type "@.is_prefix_of(t)
    ||| "pub const "@.is_prefix_of(t)
    ||| "pub static "@.is_prefix_of(t)
    ||| "pub impl "@.is_prefix_of(t)
}

/// Whether an aggregation file contains a concrete top-level item.
pub open spec fn has_items(lines: Seq<Seq<char>>) -> bool {
    exists|i: int| 0 <= i < lines.len() && starts_item(trim_start(#[trigger] lines[i]))
}

/// Diagnostics for `use` lines of an aggregation-only `mod.rs`
/// (`STYLE016`), from line `i` on.
pub open spec fn mod_import_reports(relative: Seq<char>, lines: Seq<Seq<char>>, i: int) -> Seq<DiagnosticView>
    decreases lines.len() - i,
{
    if i < 0 || i >= lines.len() {
        seq![]
    } else {
        (if "use "@.is_prefix_of(trim_start(lines[i])) {
            seq![report("STYLE016"@, relative, (i + 1) as usize, "aggregation-only mod.rs files must not collect private imports for child modules"@)]
        } else {
            seq![]
        }) + mod_import_reports(relative, lines, i + 1)
    }
}

/// Diagnostics of the import rules for one file, unless the file is
/// exempted from `explicit-imports`.
pub open spec fn import_reports(
    relative: Seq<char>,
    lines: Seq<Seq<char>>,
    ex: Seq<crate::exceptions::ExceptionView>,
) -> Seq<DiagnosticView> {
    if allowed(ex, "explicit-imports"@, relative) {
        seq![]
    } else {
        import_scan(relative, lines, 0, None, 0) + if "/mod.rs"@.is_suffix_of(relative) && !has_items(
            lines,
        ) {
            mod_import_reports(relative, lines, 0)
        } else {
            seq![]
        }
    }
}

/// The imported path of a trimmed line, if it is an import.
fn import_path_exec(t: &Vec<char>) -> (r: Option<Vec<char>>)
    ensures
        match r {
            Some(p) => import_path(t@) == Some(p@),
            None => import_path(t@) is None,
        },
{
    let use_kw = chars_of("use ");
    let pub_use = chars_of("pub use ");
    let body = if crate::text::starts_with(t, &use_kw) {
        slice_chars(t, use_kw.len(), t.len())
    } else if crate::text::starts_with(t, &pub_use) {
        slice_chars(t, pub_use.len(), t.len())
    } else {
        return None;
    };
    proof {
        if use_kw@.is_prefix_of(t@) {
            assert(body@ =~= t@.skip("use "@.len() as int));
        } else {
            assert(body@ =~= t@.skip("pub use "@.len() as int));
        }
    }
    if body.len() > 0 && body[body.len() - 1] == ';' {
        let r = slice_chars(&body, 0, body.len() - 1);
        assert(r@ =~= body@.drop_last());
        Some(r)
    } else {
        None
    }
}

/// The import group of a path.
fn import_group_exec(path: &Vec<char>) -> (r: u8)
    ensures
        r as int == import_group(path@),
{
    if starts_with_str(path, "std::") || starts_with_str(path, "core::") || starts_with_str(
        path,
        "alloc::",
    ) {
        0
    } else if starts_with_str(path, "crate::") || starts_with_str(path, "self::")
        || starts_with_str(path, "super::") {
        2
    } else {
        1
    }
}

/// The group of the import block in progress, as an integer.
pub open spec fn group_view(o: Option<u8>) -> Option<int> {
    match o {
        Some(g) => Some(g as int),
        None => None,
    }
}

/// Whether a line (without leading white space) starts a concrete item.
fn starts_item_exec(t: &Vec<char>) -> (r: bool)
    ensures
        r == starts_item(t@),
{
    starts_with_str(t, "async fn ") || starts_with_str(t, "fn ") || starts_with_str(t, "struct ")
        || starts_with_str(t, "enum ") || starts_with_str(t, "trait ") || starts_with_str(
        t,
        "type ",
    ) || starts_with_str(t, "const ") || starts_with_str(t, "static ") || starts_with_str(
        t,
        "impl ",
    ) || starts_with_str(t, "macro_rules!") || starts_with_str(t, "pub fn ") || starts_with_str(
        t,
        "pub struct ",
    ) || starts_with_str(t, "pub enum ") || starts_with_str(t, "pub trait ") || starts_with_str(
        t,
        "pub type ",
    ) || starts_with_str(t, "pub const ") || starts_with_str(t, "pub static ") || starts_with_str(
        t,
        "pub impl ",
    )
}

/// Returns whether an aggregation file contains a concrete top-level item.
pub fn has_aggregation_items(lines: &Vec<Vec<char>>) -> (r: bool)
    ensures
        r == has_items(crate::text::views_of(lines@)),
{
    let ghost ls = crate::text::views_of(lines@);
    let mut i: usize = 0;
    while i < lines.len()
        invariant
            i <= lines.len(),
            ls == crate::text::views_of(lines@),
            forall|j: int| 0 <= j < i ==> !starts_item(trim_start(#[trigger] ls[j])),
        decreases lines.len() - i,
    {
        assert(ls[i as int] == lines@[i as int]@);
        let t = trim_start_chars(&lines[i]);
        if starts_item_exec(&t) {
            return true;
        }
        i = i + 1;
    }
    false
}

/// Checks import shape and ordering in one project-owned Rust file.
pub fn check_imports(
    relative: &Vec<char>,
    lines: &Vec<Vec<char>>,
    exceptions: &ExceptionConfig,
    diagnostics: &mut Vec<Diagnostic>,
)
    ensures
        views(final(diagnostics)@) == views(old(diagnostics)@) + import_reports(
            relative@,
            crate::text::views_of(lines@),
            exception_views(exceptions.exceptions@),
        ),
{
    let ghost ls = crate::text::views_of(lines@);
    let ghost start = views(diagnostics@);
    let rule = chars_of("explicit-imports");
    if exceptions.allows(&rule, relative) {
        assert(views(diagnostics@) =~= start + Seq::<DiagnosticView>::empty());
        return;
    }
    let mut last: Option<u8> = None;
    let mut blanks: usize = 0;
    let mut i: usize = 0;
    while i < lines.len()
        invariant
            i <= lines.len(),
            blanks <= i,
            ls == crate::text::views_of(lines@),
            start + import_scan(relative@, ls, 0, None, 0) == views(diagnostics@) + import_scan(
                relative@,
                ls,
                i as int,
                group_view(last),
                blanks as int,
            ),
        decreases lines.len() - i,
    {
        assert(ls[i as int] == lines@[i as int]@);
        let ghost before = views(diagnostics@);
        let ghost last_view = group_view(last);
        let t = trim_chars(&lines[i]);
        if t.len() == 0 {
            if last.is_some() {
                blanks = blanks + 1;
            }
        } else if starts_with_str(&t, "#[") && last.is_some() {
            if starts_with_str(&t, "#[allow") && contains_str(&t, "unused_imports") {
                let m = chars_of("unused_imports allows are not allowed");
                crate::diagnostic::add(diagnostics, "STYLE007", relative, i + 1, &m);
            }
        } else {
            match import_path_exec(&t) {
                Some(path) => {
                    let group = import_group_exec(&path);
                    if crate::text::has_char_exec(&path, '{') {
                        let m = chars_of(
                            "use declarations must import one object; brace lists are not allowed",
                        );
                        crate::diagnostic::add(diagnostics, "STYLE003", relative, i + 1, &m);
                    }
                    if crate::text::has_char_exec(&path, '*') {
                        let m = chars_of("wildcard imports are not allowed");
                        crate::diagnostic::add(diagnostics, "STYLE004", relative, i + 1, &m);
                    }
                    match last {
                        Some(previous) => {
                            if group < previous {
                                let m = chars_of(
                                    "imports must be ordered standard, external, then current-crate",
                                );
                                crate::diagnostic::add(diagnostics, "STYLE005", relative, i + 1, &m);
                            } else if group != previous && blanks != 1 {
                                let m = chars_of(
                                    "import groups must be separated by exactly one blank line",
                                );
                                crate::diagnostic::add(diagnostics, "STYLE006", relative, i + 1, &m);
                            }
                        },
                        None => {},
                    }
                    assert(views(diagnostics@) =~= before + import_line_reports(
                        relative@,
                        i as int,
                        path@,
                        last_view,
                        blanks as int,
                    ));
                    last = Some(group);
                    blanks = 0;
                },
                None => {
                    last = None;
                    blanks = 0;
                    if starts_with_str(&t, "#[allow") && contains_str(&t, "unused_imports") {
                        let m = chars_of("unused_imports allows are not allowed");
                        crate::diagnostic::add(diagnostics, "STYLE007", relative, i + 1, &m);
                    }
                },
            }
        }
        i = i + 1;
    }
    let ghost after_scan = views(diagnostics@);
    assert(after_scan == start + import_scan(relative@, ls, 0, None, 0));
    let module_file = chars_of("/mod.rs");
    if crate::text::ends_with(relative, &module_file) && !has_aggregation_items(lines) {
        let mut k: usize = 0;
        while k < lines.len()
            invariant
                k <= lines.len(),
                ls == crate::text::views_of(lines@),
                views(diagnostics@) + mod_import_reports(relative@, ls, k as int) == after_scan
                    + mod_import_reports(relative@, ls, 0),
            decreases lines.len() - k,
        {
            assert(ls[k as int] == lines@[k as int]@);
            let ghost before = views(diagnostics@);
            let t = trim_start_chars(&lines[k]);
            if starts_with_str(&t, "use ") {
                let m = chars_of(
                    "aggregation-only mod.rs files must not collect private imports for child modules",
                );
                crate::diagnostic::add(diagnostics, "STYLE016", relative, k + 1, &m);
            }
            k = k + 1;
        }
    } else {
        assert(views(diagnostics@) =~= after_scan + Seq::<DiagnosticView>::empty());
    }
}


/// `char::is_uppercase`: whether the character has the Unicode `Uppercase`
/// property.
pub uninterp spec fn char_is_uppercase(c: char) -> bool;

/// `char::to_lowercase`: the lowercase mapping of a character.
pub uninterp spec fn char_lowercase(c: char) -> Seq<char>;

/// The ASCII lowercase of an ASCII character.
pub open spec fn ascii_lowercase(c: char) -> char {
    if 'A' <= c && c <= 'Z' {
        ((c as u32) + 32) as char
    } else {
        c
    }
}

/// Tests `char::is_uppercase`.
///
/// Trusted: the result is `char_is_uppercase(c)`; for ASCII characters it
/// holds exactly of `A` to `Z`.
#[verifier::external_body]
fn is_uppercase(c: char) -> (r: bool)
    ensures
        r == char_is_uppercase(c),
        (c as u32) < 128 ==> (r == ('A' <= c && c <= 'Z')),
{
    c.is_uppercase()
}

/// The characters of `char::to_lowercase`.
///
/// Trusted: the result is `char_lowercase(c)`; an ASCII character maps to
/// its ASCII lowercase alone.
#[verifier::external_body]
fn to_lowercase(c: char) -> (r: Vec<char>)
    ensures
        r@ == char_lowercase(c),
        (c as u32) < 128 ==> r@ == seq![ascii_lowercase(c)],
{
    c.to_lowercase().collect()
}

/// What the character at `index` of a type name contributes to its snake
/// case: an underscore before an uppercase character that is not the
/// first, then the lowercase mapping.
pub open spec fn snake_piece(c: char, index: int) -> Seq<char> {
    (if char_is_uppercase(c) && index > 0 {
        seq!['_']
    } else {
        seq![]
    }) + char_lowercase(c)
}

/// The snake case of the first `n` characters of a name.
pub open spec fn snake_prefix(name: Seq<char>, n: int) -> Seq<char>
    decreases n,
{
    if n <= 0 || n > name.len() {
        seq![]
    } else {
        snake_prefix(name, n - 1) + snake_piece(name[n - 1], n - 1)
    }
}

/// The expected file stem for a type name.
pub open spec fn snake_case_of(name: Seq<char>) -> Seq<char> {
    snake_prefix(name, name.len() as int)
}

/// Whether every character of a text is ASCII.
pub open spec fn all_ascii(s: Seq<char>) -> bool {
    forall|i: int| 0 <= i < s.len() ==> (#[trigger] s[i] as u32) < 128
}

/// What an ASCII character at `index` contributes to the snake case: an
/// underscore before `A` to `Z` when it is not the first, then its ASCII
/// lowercase.
pub open spec fn ascii_snake_piece(c: char, index: int) -> Seq<char> {
    (if 'A' <= c && c <= 'Z' && index > 0 {
        seq!['_']
    } else {
        seq![]
    }) + seq![ascii_lowercase(c)]
}

/// The snake case of the first `n` characters of an ASCII name.
pub open spec fn ascii_snake_prefix(name: Seq<char>, n: int) -> Seq<char>
    decreases n,
{
    if n <= 0 || n > name.len() {
        seq![]
    } else {
        ascii_snake_prefix(name, n - 1) + ascii_snake_piece(name[n - 1], n - 1)
    }
}

/// Converts a Rust type name into the expected snake-case filename stem.
/// For an ASCII name, each `A` to `Z` after the first character gets an
/// underscore before it and every letter is lowercased.
pub fn snake_case(value: &Vec<char>) -> (r: Vec<char>)
    ensures
        r@ == snake_case_of(value@),
        all_ascii(value@) ==> r@ == ascii_snake_prefix(value@, value@.len() as int),
{
    let mut output: Vec<char> = Vec::new();
    let mut i: usize = 0;
    while i < value.len()
        invariant
            i <= value.len(),
            output@ == snake_prefix(value@, i as int),
            all_ascii(value@) ==> output@ == ascii_snake_prefix(value@, i as int),
        decreases value.len() - i,
    {
        let c = value[i];
        let upper = is_uppercase(c);
        if upper && i > 0 {
            output.push('_');
        }
        let mut lower = to_lowercase(c);
        output.append(&mut lower);
        assert(output@ =~= snake_prefix(value@, i as int) + snake_piece(c, i as int));
        proof {
            if all_ascii(value@) {
                assert((value@[i as int] as u32) < 128);
                assert(output@ =~= ascii_snake_prefix(value@, i as int) + ascii_snake_piece(c, i as int));
            }
        }
        i = i + 1;
    }
    output
}

/// The kinds of line that some rules report one by one.
pub enum LineRule {
    /// A coverage-specific `cfg` attribute in source (`STYLE008`).
    CoverageCfg,
    /// A redirect of a test file to other code (`STYLE002`).
    TestRedirect,
    /// A test attribute in production source (`STYLE013`).
    InlineTest,
}

/// Whether a line is one that the rule reports.
pub open spec fn line_matches(rule: LineRule, line: Seq<char>) -> bool {
    let t = trim_start(line);
    match rule {
        LineRule::CoverageCfg => "#[cfg"@.is_prefix_of(t) && contains(line, "coverage"@),
        LineRule::TestRedirect => "include!("@.is_prefix_of(t) || "#[path"@.is_prefix_of(t),
        LineRule::InlineTest => "#[test"@.is_prefix_of(t) || "#[rstest"@.is_prefix_of(t) || contains(
            t,
            "::test]"@,
        ) || contains(t, "::test("@),
    }
}

/// The code of a line rule.
pub open spec fn line_code(rule: LineRule) -> Seq<char> {
    match rule {
        LineRule::CoverageCfg => "STYLE008"@,
        LineRule::TestRedirect => "STYLE002"@,
        LineRule::InlineTest => "STYLE013"@,
    }
}

/// The message of a line rule.
pub open spec fn line_message(rule: LineRule) -> Seq<char> {
    match rule {
        LineRule::CoverageCfg => "coverage-specific cfg is not allowed in source"@,
        LineRule::TestRedirect => "test files must contain concrete tests directly; redirects are not allowed"@,
        LineRule::InlineTest => "inline test attributes are not allowed; place tests under the tests directory"@,
    }
}

/// One diagnostic for each line from `i` on that the rule reports.
pub open spec fn line_reports(rule: LineRule, relative: Seq<char>, lines: Seq<Seq<char>>, i: int) -> Seq<DiagnosticView>
    decreases lines.len() - i,
{
    if i < 0 || i >= lines.len() {
        seq![]
    } else {
        (if line_matches(rule, lines[i]) {
            seq![report(line_code(rule), relative, (i + 1) as usize, line_message(rule))]
        } else {
            seq![]
        }) + line_reports(rule, relative, lines, i + 1)
    }
}

fn line_matches_exec(rule: &LineRule, line: &Vec<char>) -> (r: bool)
    ensures
        r == line_matches(*rule, line@),
{
    let t = trim_start_chars(line);
    match rule {
        LineRule::CoverageCfg => starts_with_str(&t, "#[cfg") && contains_str(line, "coverage"),
        LineRule::TestRedirect => starts_with_str(&t, "include!(") || starts_with_str(&t, "#[path"),
        LineRule::InlineTest => starts_with_str(&t, "#[test") || starts_with_str(&t, "#[rstest")
            || contains_str(&t, "::test]") || contains_str(&t, "::test("),
    }
}

/// Reports each line that the rule matches.
pub fn report_lines(
    rule: &LineRule,
    relative: &Vec<char>,
    lines: &Vec<Vec<char>>,
    diagnostics: &mut Vec<Diagnostic>,
)
    ensures
        views(final(diagnostics)@) == views(old(diagnostics)@) + line_reports(
            *rule,
            relative@,
            crate::text::views_of(lines@),
            0,
        ),
{
    let ghost ls = crate::text::views_of(lines@);
    let ghost start = views(diagnostics@);
    let mut i: usize = 0;
    while i < lines.len()
        invariant
            i <= lines.len(),
            ls == crate::text::views_of(lines@),
            views(diagnostics@) + line_reports(*rule, relative@, ls, i as int) == start + line_reports(
                *rule,
                relative@,
                ls,
                0,
            ),
        decreases lines.len() - i,
    {
        assert(ls[i as int] == lines@[i as int]@);
        if line_matches_exec(rule, &lines[i]) {
            let (code, message) = match rule {
                LineRule::CoverageCfg => (
                    "STYLE008",
                    chars_of("coverage-specific cfg is not allowed in source"),
                ),
                LineRule::TestRedirect => (
                    "STYLE002",
                    chars_of(
                        "test files must contain concrete tests directly; redirects are not allowed",
                    ),
                ),
                LineRule::InlineTest => (
                    "STYLE013",
                    chars_of(
                        "inline test attributes are not allowed; place tests under the tests directory",
                    ),
                ),
            };
            assert(code@ == line_code(*rule) && message@ == line_message(*rule));
            crate::diagnostic::add(diagnostics, code, relative, i + 1, &message);
        }
        i = i + 1;
    }
    assert(views(diagnostics@) =~= views(diagnostics@) + line_reports(*rule, relative@, ls, i as int));
}

/// Whether a line carries the source marker that a `coverage-cfg`
/// exception needs.
pub open spec fn has_coverage_marker(lines: Seq<Seq<char>>) -> bool {
    exists|i: int| 0 <= i < lines.len() && contains(#[trigger] lines[i], "qubit-style: allow coverage-cfg"@)
}

/// Whether the coverage rule is exempted: an exception for `coverage-cfg`
/// and a marker comment in the file are both needed.
pub open spec fn coverage_exempt(relative: Seq<char>, lines: Seq<Seq<char>>, ex: Seq<crate::exceptions::ExceptionView>) -> bool {
    allowed(ex, "coverage-cfg"@, relative) && has_coverage_marker(lines)
}

/// Whether the coverage rule is exempted for this file.
pub fn coverage_exception_allowed(
    relative: &Vec<char>,
    lines: &Vec<Vec<char>>,
    exceptions: &ExceptionConfig,
) -> (r: bool)
    ensures
        r == coverage_exempt(relative@, crate::text::views_of(lines@), exception_views(
            exceptions.exceptions@,
        )),
{
    let rule = chars_of("coverage-cfg");
    if !exceptions.allows(&rule, relative) {
        return false;
    }
    let ghost ls = crate::text::views_of(lines@);
    let mut i: usize = 0;
    while i < lines.len()
        invariant
            i <= lines.len(),
            ls == crate::text::views_of(lines@),
            forall|j: int| 0 <= j < i ==> !contains(#[trigger] ls[j], "qubit-style: allow coverage-cfg"@),
            allowed(exception_views(exceptions.exceptions@), "coverage-cfg"@, relative@),
        decreases lines.len() - i,
    {
        assert(ls[i as int] == lines@[i as int]@);
        if contains_str(&lines[i], "qubit-style: allow coverage-cfg") {
            assert(contains(ls[i as int], "qubit-style: allow coverage-cfg"@));
            return true;
        }
        i = i + 1;
    }
    false
}

/// One `STYLE009` diagnostic per item that may not stand in an aggregation
/// file, from index `i` on.
pub open spec fn disallowed_item_reports(relative: Seq<char>, items: Seq<SourceItem>, i: int) -> Seq<DiagnosticView>
    decreases items.len() - i,
{
    if i < 0 || i >= items.len() {
        seq![]
    } else {
        (if !allowed_in_aggregation(items[i]) {
            seq![report("STYLE009"@, relative, 0, "lib.rs and mod.rs files must only declare modules and re-export items"@)]
        } else {
            seq![]
        }) + disallowed_item_reports(relative, items, i + 1)
    }
}

/// Diagnostics of the aggregation rule: `lib.rs` and `mod.rs` files that
/// parse may only declare modules, imports and procedural macros.
pub open spec fn aggregation_reports(relative: Seq<char>, text: Seq<char>, ex: Seq<crate::exceptions::ExceptionView>) -> Seq<DiagnosticView> {
    if !("/lib.rs"@.is_suffix_of(relative) || "/mod.rs"@.is_suffix_of(relative)) || allowed(
        ex,
        "aggregation-files"@,
        relative,
    ) {
        seq![]
    } else {
        match rust_items(text) {
            Some(items) => disallowed_item_reports(relative, items, 0),
            None => seq![],
        }
    }
}

/// Ensures aggregation files contain only declarations and re-exports.
pub fn check_aggregation(
    relative: &Vec<char>,
    text: &String,
    exceptions: &ExceptionConfig,
    diagnostics: &mut Vec<Diagnostic>,
)
    ensures
        views(final(diagnostics)@) == views(old(diagnostics)@) + aggregation_reports(
            relative@,
            text@,
            exception_views(exceptions.exceptions@),
        ),
{
    let ghost start = views(diagnostics@);
    let rule = chars_of("aggregation-files");
    if !(ends_with_str(relative, "/lib.rs") || ends_with_str(relative, "/mod.rs"))
        || exceptions.allows(&rule, relative) {
        assert(views(diagnostics@) =~= start + Seq::<DiagnosticView>::empty());
        return;
    }
    match parse_rust_items(text.as_str()) {
        Some(items) => {
            let mut i: usize = 0;
            while i < items.len()
                invariant
                    i <= items.len(),
                    views(diagnostics@) + disallowed_item_reports(relative@, items@, i as int)
                        == start + disallowed_item_reports(relative@, items@, 0),
                decreases items.len() - i,
            {
                if !crate::syntax::item_allowed_in_aggregation(&items[i]) {
                    let m = chars_of(
                        "lib.rs and mod.rs files must only declare modules and re-export items",
                    );
                    crate::diagnostic::add(diagnostics, "STYLE009", relative, 0, &m);
                }
                i = i + 1;
            }
            assert(views(diagnostics@) =~= views(diagnostics@) + disallowed_item_reports(
                relative@,
                items@,
                i as int,
            ));
        },
        None => {
            assert(views(diagnostics@) =~= start + Seq::<DiagnosticView>::empty());
        },
    }
}

/// The message for a public type that lives in the wrong file.
pub open spec fn type_file_message(kind: Seq<char>, name: Seq<char>, expected: Seq<char>, stem: Seq<char>) -> Seq<char> {
    kind + " '"@ + name + "' should live in '"@ + expected + ".rs', not '"@ + stem + ".rs'"@
}

/// Diagnostics of the type layout rules: at most one public top-level type
/// per file (`STYLE010`), living in the file named after it (`STYLE011`).
/// Crate roots, module files and `macros.rs` are not checked, nor files
/// that do not parse.
pub open spec fn type_layout_reports(
    relative: Seq<char>,
    stem: Seq<char>,
    text: Seq<char>,
    ex: Seq<crate::exceptions::ExceptionView>,
) -> Seq<DiagnosticView> {
    if stem == "lib"@ || stem == "main"@ || stem == "mod"@ || stem == "macros"@ {
        seq![]
    } else {
        match rust_items(text) {
            None => seq![],
            Some(items) => {
                let types = public_types(items);
                if types.len() > 1 {
                    if allowed(ex, "public-type-layout"@, relative) || allowed(
                        ex,
                        "multiple-public-types"@,
                        relative,
                    ) {
                        seq![]
                    } else {
                        seq![report("STYLE010"@, relative, 0, "file contains multiple public top-level types; split them or add a reviewed .infra/style/exceptions.toml entry"@)]
                    }
                } else if types.len() == 1 {
                    let expected = snake_case_of(types[0].1);
                    if expected != stem && !allowed(ex, "type-file-name"@, relative) {
                        seq![report("STYLE011"@, relative, 0, type_file_message(types[0].0, types[0].1, expected, stem))]
                    } else {
                        seq![]
                    }
                } else {
                    seq![]
                }
            },
        }
    }
}

/// Checks public type count and filename alignment in one source file.
pub fn check_type_layout(
    relative: &Vec<char>,
    stem: &Vec<char>,
    text: &String,
    exceptions: &ExceptionConfig,
    diagnostics: &mut Vec<Diagnostic>,
)
    ensures
        views(final(diagnostics)@) == views(old(diagnostics)@) + type_layout_reports(
            relative@,
            stem@,
            text@,
            exception_views(exceptions.exceptions@),
        ),
{
    let ghost start = views(diagnostics@);
    if chars_eq_str(stem, "lib") || chars_eq_str(stem, "main") || chars_eq_str(stem, "mod")
        || chars_eq_str(stem, "macros") {
        assert(views(diagnostics@) =~= start + Seq::<DiagnosticView>::empty());
        return;
    }
    let items = match parse_rust_items(text.as_str()) {
        Some(items) => items,
        None => {
            assert(views(diagnostics@) =~= start + Seq::<DiagnosticView>::empty());
            return;
        },
    };
    let types = public_types_of_items(&items);
    if types.len() > 1 {
        let layout = chars_of("public-type-layout");
        let multiple = chars_of("multiple-public-types");
        if exceptions.allows(&layout, relative) || exceptions.allows(&multiple, relative) {
            assert(views(diagnostics@) =~= start + Seq::<DiagnosticView>::empty());
            return;
        }
        let m = chars_of(
            "file contains multiple public top-level types; split them or add a reviewed .infra/style/exceptions.toml entry",
        );
        crate::diagnostic::add(diagnostics, "STYLE010", relative, 0, &m);
        return;
    }
    if types.len() == 1 {
        let kind = &types[0].0;
        let name = &types[0].1;
        let expected = snake_case(name);
        let rule = chars_of("type-file-name");
        if !crate::text::chars_eq(&expected, stem) && !exceptions.allows(&rule, relative) {
            let mut m = slice_chars(kind, 0, kind.len());
            let mut part = chars_of(" '");
            m.append(&mut part);
            let mut n = slice_chars(name, 0, name.len());
            m.append(&mut n);
            let mut part = chars_of("' should live in '");
            m.append(&mut part);
            let mut e = slice_chars(&expected, 0, expected.len());
            m.append(&mut e);
            let mut part = chars_of(".rs', not '");
            m.append(&mut part);
            let mut st = slice_chars(stem, 0, stem.len());
            m.append(&mut st);
            let mut part = chars_of(".rs'");
            m.append(&mut part);
            assert(m@ =~= type_file_message(kind@, name@, expected@, stem@));
            crate::diagnostic::add(diagnostics, "STYLE011", relative, 0, &m);
        } else {
            assert(views(diagnostics@) =~= start + Seq::<DiagnosticView>::empty());
        }
    } else {
        assert(views(diagnostics@) =~= start + Seq::<DiagnosticView>::empty());
    }
}

/// The public types of the items, with their views.
fn public_types_of_items(items: &Vec<SourceItem>) -> (r: Vec<(Vec<char>, Vec<char>)>)
    ensures
        r@.len() == public_types(items@).len(),
        forall|i: int| 0 <= i < r@.len() ==> (#[trigger] r@[i]).0@ == public_types(items@)[i].0
            && r@[i].1@ == public_types(items@)[i].1,
{
    let r = crate::syntax::public_types_of(items);
    proof {
        assert forall|i: int| 0 <= i < r@.len() implies (#[trigger] r@[i]).0@ == public_types(
            items@,
        )[i].0 && r@[i].1@ == public_types(items@)[i].1 by {
            assert(r@.map_values(|t: (Vec<char>, Vec<char>)| (t.0@, t.1@))[i] == (r@[i].0@, r@[i].1@));
        }
    }
    r
}


/// Diagnostics that every project-owned Rust file gets: the header rule
/// (when headers are enforced) and the import rules.
pub open spec fn common_reports(
    relative: Seq<char>,
    lines: Seq<Seq<char>>,
    enforce_headers: bool,
    ex: Seq<crate::exceptions::ExceptionView>,
) -> Seq<DiagnosticView> {
    (if enforce_headers {
        header_reports(relative, lines)
    } else {
        seq![]
    }) + import_reports(relative, lines, ex)
}

/// Diagnostics of the coverage rule (`STYLE008`), unless the file is
/// exempted from it.
pub open spec fn coverage_reports(relative: Seq<char>, lines: Seq<Seq<char>>, ex: Seq<crate::exceptions::ExceptionView>) -> Seq<DiagnosticView> {
    if coverage_exempt(relative, lines, ex) {
        seq![]
    } else {
        line_reports(LineRule::CoverageCfg, relative, lines, 0)
    }
}

/// Diagnostics of the inline test rule (`STYLE013`): only when its switch
/// is on and the file is not exempted from `inline-tests`.
pub open spec fn inline_test_reports(
    relative: Seq<char>,
    lines: Seq<Seq<char>>,
    inline_tests: bool,
    ex: Seq<crate::exceptions::ExceptionView>,
) -> Seq<DiagnosticView> {
    if inline_tests && !allowed(ex, "inline-tests"@, relative) {
        line_reports(LineRule::InlineTest, relative, lines, 0)
    } else {
        seq![]
    }
}

/// Diagnostics of a production source file: the common rules, the
/// coverage rule, the aggregation and type layout rules, and the inline
/// test rule.
pub open spec fn source_file_reports(
    relative: Seq<char>,
    stem: Seq<char>,
    text: Seq<char>,
    enforce_headers: bool,
    inline_tests: bool,
    ex: Seq<crate::exceptions::ExceptionView>,
) -> Seq<DiagnosticView> {
    let lines = crate::text::lines(text);
    common_reports(relative, lines, enforce_headers, ex) + coverage_reports(relative, lines, ex)
        + aggregation_reports(relative, text, ex) + type_layout_reports(relative, stem, text, ex)
        + inline_test_reports(relative, lines, inline_tests, ex)
}

/// A path part that marks shared test support code.
pub open spec fn is_support_part(part: Seq<char>) -> bool {
    part == "support"@ || part == "common"@ || part == "fixtures"@ || part == "coverage_support"@
}

/// Whether a test path lies in shared support code.
pub open spec fn is_support_path(relative: Seq<char>) -> bool {
    exists|i: int|
        0 <= i < crate::exceptions::split(relative, '/').len() && is_support_part(
            #[trigger] crate::exceptions::split(relative, '/')[i],
        )
}

/// Whether a line carries a test attribute.
pub open spec fn is_test_attribute_line(line: Seq<char>) -> bool {
    let t = trim_start(line);
    "#[cfg(test"@.is_prefix_of(t) || "#[test"@.is_prefix_of(t) || "#[rstest"@.is_prefix_of(t)
        || contains(t, "::test]"@) || contains(t, "::test("@)
}

/// Whether some line carries a test attribute.
pub open spec fn has_test_attribute_line(lines: Seq<Seq<char>>) -> bool {
    exists|i: int| 0 <= i < lines.len() && is_test_attribute_line(#[trigger] lines[i])
}

/// Whether a file contains tests: a test function among its parsed items,
/// or a test attribute on some line.
pub open spec fn contains_tests(text: Seq<char>) -> bool {
    (match rust_items(text) {
        Some(items) => items_have_tests(items),
        None => false,
    }) || has_test_attribute_line(crate::text::lines(text))
}

/// Diagnostics of the test naming rule (`STYLE001`): a test file outside
/// shared support code that contains tests must be named `*_tests.rs` or
/// `mod.rs`, unless exempted from `test-file-name`.
pub open spec fn test_naming_reports(relative: Seq<char>, text: Seq<char>, ex: Seq<crate::exceptions::ExceptionView>) -> Seq<DiagnosticView> {
    if !is_support_path(relative) && contains_tests(text) && !"_tests.rs"@.is_suffix_of(relative)
        && !"/mod.rs"@.is_suffix_of(relative) && !allowed(ex, "test-file-name"@, relative) {
        seq![report("STYLE001"@, relative, 0, "test files should be named '*_tests.rs' or 'mod.rs'"@)]
    } else {
        seq![]
    }
}

/// Diagnostics of the redirect rule (`STYLE002`) for a test file outside
/// shared support code, unless exempted from `test-redirect`.
pub open spec fn test_redirect_reports(relative: Seq<char>, lines: Seq<Seq<char>>, ex: Seq<crate::exceptions::ExceptionView>) -> Seq<DiagnosticView> {
    if !is_support_path(relative) && !allowed(ex, "test-redirect"@, relative) {
        line_reports(LineRule::TestRedirect, relative, lines, 0)
    } else {
        seq![]
    }
}

/// Diagnostics of a test file: the common rules, the naming rule and the
/// redirect rule.
pub open spec fn test_file_reports(
    relative: Seq<char>,
    text: Seq<char>,
    enforce_headers: bool,
    ex: Seq<crate::exceptions::ExceptionView>,
) -> Seq<DiagnosticView> {
    let lines = crate::text::lines(text);
    common_reports(relative, lines, enforce_headers, ex) + test_naming_reports(relative, text, ex)
        + test_redirect_reports(relative, lines, ex)
}

/// Applies the checks that every project-owned Rust file gets.
pub fn check_common_file(
    relative: &Vec<char>,
    lines: &Vec<Vec<char>>,
    exceptions: &ExceptionConfig,
    enforce_headers: bool,
    diagnostics: &mut Vec<Diagnostic>,
)
    ensures
        views(final(diagnostics)@) == views(old(diagnostics)@) + common_reports(
            relative@,
            crate::text::views_of(lines@),
            enforce_headers,
            exception_views(exceptions.exceptions@),
        ),
{
    let ghost start = views(diagnostics@);
    if enforce_headers {
        check_file_header(relative, lines, diagnostics);
    }
    let ghost middle = views(diagnostics@);
    check_imports(relative, lines, exceptions, diagnostics);
    assert(views(diagnostics@) =~= start + common_reports(
        relative@,
        crate::text::views_of(lines@),
        enforce_headers,
        exception_views(exceptions.exceptions@),
    ));
}

/// Applies the production-source rules to one source file.
pub fn check_source_file(
    relative: &Vec<char>,
    stem: &Vec<char>,
    text: &String,
    exceptions: &ExceptionConfig,
    enforce_headers: bool,
    inline_tests: bool,
    diagnostics: &mut Vec<Diagnostic>,
)
    ensures
        views(final(diagnostics)@) == views(old(diagnostics)@) + source_file_reports(
            relative@,
            stem@,
            text@,
            enforce_headers,
            inline_tests,
            exception_views(exceptions.exceptions@),
        ),
{
    let ghost start = views(diagnostics@);
    let ghost ex = exception_views(exceptions.exceptions@);
    let chars = chars_of(text.as_str());
    let lines = crate::text::lines_of(&chars);
    let ghost ls = crate::text::views_of(lines@);
    check_common_file(relative, &lines, exceptions, enforce_headers, diagnostics);
    let ghost s1 = views(diagnostics@);
    if !coverage_exception_allowed(relative, &lines, exceptions) {
        report_lines(&LineRule::CoverageCfg, relative, &lines, diagnostics);
    }
    let ghost s2 = views(diagnostics@);
    check_aggregation(relative, text, exceptions, diagnostics);
    let ghost s3 = views(diagnostics@);
    check_type_layout(relative, stem, text, exceptions, diagnostics);
    let ghost s4 = views(diagnostics@);
    let inline_rule = chars_of("inline-tests");
    if inline_tests && !exceptions.allows(&inline_rule, relative) {
        report_lines(&LineRule::InlineTest, relative, &lines, diagnostics);
    }
    assert(views(diagnostics@) =~= start + source_file_reports(
        relative@,
        stem@,
        text@,
        enforce_headers,
        inline_tests,
        ex,
    ));
}

/// Whether a test path lies in shared support code.
fn support_path(relative: &Vec<char>) -> (r: bool)
    ensures
        r == is_support_path(relative@),
{
    let parts = crate::exceptions::split_exec(relative, '/');
    let ghost ps = crate::text::views_of(parts@);
    let mut i: usize = 0;
    while i < parts.len()
        invariant
            i <= parts.len(),
            ps == crate::text::views_of(parts@),
            ps == crate::exceptions::split(relative@, '/'),
            forall|j: int| 0 <= j < i ==> !is_support_part(#[trigger] ps[j]),
        decreases parts.len() - i,
    {
        assert(ps[i as int] == parts@[i as int]@);
        let p = &parts[i];
        if chars_eq_str(p, "support") || chars_eq_str(p, "common") || chars_eq_str(p, "fixtures")
            || chars_eq_str(p, "coverage_support") {
            assert(is_support_part(ps[i as int]));
            return true;
        }
        i = i + 1;
    }
    false
}

/// Detects test attributes even when a file only declares an external
/// module.
pub fn contains_test_attributes(lines: &Vec<Vec<char>>) -> (r: bool)
    ensures
        r == has_test_attribute_line(crate::text::views_of(lines@)),
{
    let ghost ls = crate::text::views_of(lines@);
    let mut i: usize = 0;
    while i < lines.len()
        invariant
            i <= lines.len(),
            ls == crate::text::views_of(lines@),
            forall|j: int| 0 <= j < i ==> !is_test_attribute_line(#[trigger] ls[j]),
        decreases lines.len() - i,
    {
        assert(ls[i as int] == lines@[i as int]@);
        let t = trim_start_chars(&lines[i]);
        if starts_with_str(&t, "#[cfg(test") || starts_with_str(&t, "#[test") || starts_with_str(
            &t,
            "#[rstest",
        ) || contains_str(&t, "::test]") || contains_str(&t, "::test(") {
            assert(is_test_attribute_line(ls[i as int]));
            return true;
        }
        i = i + 1;
    }
    false
}

/// Detects conventional test functions, including functions in inline
/// modules; a file that does not parse has none.
pub fn contains_test_functions(text: &String) -> (r: bool)
    ensures
        r == match rust_items(text@) {
            Some(items) => items_have_tests(items),
            None => false,
        },
{
    match parse_rust_items(text.as_str()) {
        Some(items) => crate::syntax::items_contain_test_functions(&items),
        None => false,
    }
}

/// Applies the naming and redirect rules to one test file.
pub fn check_test_file(
    relative: &Vec<char>,
    text: &String,
    exceptions: &ExceptionConfig,
    enforce_headers: bool,
    diagnostics: &mut Vec<Diagnostic>,
)
    ensures
        views(final(diagnostics)@) == views(old(diagnostics)@) + test_file_reports(
            relative@,
            text@,
            enforce_headers,
            exception_views(exceptions.exceptions@),
        ),
{
    let ghost start = views(diagnostics@);
    let ghost ex = exception_views(exceptions.exceptions@);
    let chars = chars_of(text.as_str());
    let lines = crate::text::lines_of(&chars);
    check_common_file(relative, &lines, exceptions, enforce_headers, diagnostics);
    let ghost s1 = views(diagnostics@);
    let support = support_path(relative);
    let has_tests = contains_test_functions(text) || contains_test_attributes(&lines);
    let name_rule = chars_of("test-file-name");
    if !support && has_tests && !ends_with_str(relative, "_tests.rs") && !ends_with_str(
        relative,
        "/mod.rs",
    ) && !exceptions.allows(&name_rule, relative) {
        let m = chars_of("test files should be named '*_tests.rs' or 'mod.rs'");
        crate::diagnostic::add(diagnostics, "STYLE001", relative, 0, &m);
    }
    let ghost s2 = views(diagnostics@);
    let redirect_rule = chars_of("test-redirect");
    if !support && !exceptions.allows(&redirect_rule, relative) {
        report_lines(&LineRule::TestRedirect, relative, &lines, diagnostics);
    }
    assert(views(diagnostics@) =~= start + test_file_reports(relative@, text@, enforce_headers, ex));
}

} // verus!

//! Laws of the file rules, stated over what the lines and parsed items of
//! a file hold: which lines and items each rule must report.

use vstd::prelude::*;

use crate::diagnostic::report;
use crate::diagnostic::DiagnosticView;
use crate::exceptions::allowed;
use crate::exceptions::split;
use crate::exceptions::ExceptionView;
use crate::rules::import_group;
use crate::rules::import_line_reports;
use crate::rules::import_path;
use crate::rules::import_reports;
use crate::rules::import_scan;
use crate::rules::line_matches;
use crate::rules::line_reports;
use crate::rules::source_file_reports;
use crate::rules::snake_case_of;
use crate::rules::type_layout_reports;
use crate::rules::aggregation_reports;
use crate::syntax::rust_items;
use crate::syntax::SourceItem;
use crate::syntax::VisibilityKind;
use crate::rules::test_file_reports;
use crate::rules::LineRule;
use crate::text::contains;
use crate::text::lines;
use crate::text::trim;
use crate::text::trim_start;

verus! {

proof fn lemma_in_concat(a: Seq<DiagnosticView>, b: Seq<DiagnosticView>, d: DiagnosticView)
    ensures
        a.contains(d) ==> (a + b).contains(d),
        b.contains(d) ==> (a + b).contains(d),
{
    if a.contains(d) {
        let i = choose|i: int| 0 <= i < a.len() && a[i] == d;
        assert((a + b)[i] == d);
    }
    if b.contains(d) {
        let i = choose|i: int| 0 <= i < b.len() && b[i] == d;
        assert((a + b)[a.len() + i] == d);
    }
}

proof fn lemma_line_reported(rule: LineRule, rel: Seq<char>, ls: Seq<Seq<char>>, i: int, k: int)
    requires
        0 <= i <= k < ls.len(),
        line_matches(rule, ls[k]),
    ensures
        line_reports(rule, rel, ls, i).contains(
            report(crate::rules::line_code(rule), rel, (k + 1) as usize, crate::rules::line_message(rule)),
        ),
    decreases k - i,
{
    let d = report(crate::rules::line_code(rule), rel, (k + 1) as usize, crate::rules::line_message(rule));
    let head = if line_matches(rule, ls[i]) {
        seq![report(crate::rules::line_code(rule), rel, (i + 1) as usize, crate::rules::line_message(rule))]
    } else {
        seq![]
    };
    if i == k {
        assert(head[0] == d);
        lemma_in_concat(head, line_reports(rule, rel, ls, i + 1), d);
    } else {
        lemma_line_reported(rule, rel, ls, i + 1, k);
        lemma_in_concat(head, line_reports(rule, rel, ls, i + 1), d);
    }
}

/// Whether a path part marks shared test support code.
pub open spec fn support_part(part: Seq<char>) -> bool {
    part == "support"@ || part == "common"@ || part == "fixtures"@ || part == "coverage_support"@
}

/// In a test file outside shared support code, without a `test-redirect`
/// exception, every line whose trimmed start is `include!(` or `#[path` is
/// reported as a redirect (`STYLE002`) on that line.
pub proof fn test_redirect_lines_are_reported(
    relative: Seq<char>,
    text: Seq<char>,
    enforce_headers: bool,
    ex: Seq<ExceptionView>,
    k: int,
)
    requires
        0 <= k < lines(text).len(),
        "include!("@.is_prefix_of(trim_start(lines(text)[k])) || "#[path"@.is_prefix_of(
            trim_start(lines(text)[k]),
        ),
        forall|i: int| 0 <= i < split(relative, '/').len() ==> !support_part(#[trigger] split(relative, '/')[i]),
        !allowed(ex, "test-redirect"@, relative),
    ensures
        test_file_reports(relative, text, enforce_headers, ex).contains(
            report(
                "STYLE002"@,
                relative,
                (k + 1) as usize,
                "test files must contain concrete tests directly; redirects are not allowed"@,
            ),
        ),
{
    let ls = lines(text);
    let d = report("STYLE002"@, relative, (k + 1) as usize, "test files must contain concrete tests directly; redirects are not allowed"@);
    assert(!crate::rules::is_support_path(relative));
    assert(line_matches(LineRule::TestRedirect, ls[k]));
    lemma_line_reported(LineRule::TestRedirect, relative, ls, 0, k);
    let common = crate::rules::common_reports(relative, ls, enforce_headers, ex);
    let naming = crate::rules::test_naming_reports(relative, text, ex);
    let redirect = crate::rules::test_redirect_reports(relative, ls, ex);
    lemma_in_concat(common + naming, redirect, d);
}

/// In a source file without a `coverage-cfg` exception, every line whose
/// trimmed start is `#[cfg` (so `#[cfg(..)]` and `#[cfg_attr(..)]` alike)
/// and that mentions `coverage` is reported (`STYLE008`) on that line.
pub proof fn coverage_cfg_lines_are_reported(
    relative: Seq<char>,
    stem: Seq<char>,
    text: Seq<char>,
    enforce_headers: bool,
    inline_tests: bool,
    ex: Seq<ExceptionView>,
    k: int,
)
    requires
        0 <= k < lines(text).len(),
        "#[cfg"@.is_prefix_of(trim_start(lines(text)[k])),
        contains(lines(text)[k], "coverage"@),
        !allowed(ex, "coverage-cfg"@, relative),
    ensures
        source_file_reports(relative, stem, text, enforce_headers, inline_tests, ex).contains(
            report("STYLE008"@, relative, (k + 1) as usize, "coverage-specific cfg is not allowed in source"@),
        ),
{
    let ls = lines(text);
    let d = report("STYLE008"@, relative, (k + 1) as usize, "coverage-specific cfg is not allowed in source"@);
    assert(line_matches(LineRule::CoverageCfg, ls[k]));
    lemma_line_reported(LineRule::CoverageCfg, relative, ls, 0, k);
    let c = crate::rules::common_reports(relative, ls, enforce_headers, ex);
    let v = crate::rules::coverage_reports(relative, ls, ex);
    let a = crate::rules::aggregation_reports(relative, text, ex);
    let l = crate::rules::type_layout_reports(relative, stem, text, ex);
    let n = crate::rules::inline_test_reports(relative, ls, inline_tests, ex);
    lemma_in_concat(c, v, d);
    lemma_in_concat(c + v, a, d);
    lemma_in_concat(c + v + a, l, d);
    lemma_in_concat(c + v + a + l, n, d);
}

/// Whether a use path starts in the standard library (`std`, `core`,
/// `alloc`).
pub open spec fn standard_path(p: Seq<char>) -> bool {
    "std::"@.is_prefix_of(p) || "core::"@.is_prefix_of(p) || "alloc::"@.is_prefix_of(p)
}

/// Whether a use path starts in the current crate (`crate`, `self`,
/// `super`).
pub open spec fn current_crate_path(p: Seq<char>) -> bool {
    "crate::"@.is_prefix_of(p) || "self::"@.is_prefix_of(p) || "super::"@.is_prefix_of(p)
}

proof fn lemma_second_char(prefix: Seq<char>, p: Seq<char>)
    requires
        prefix.len() > 1,
    ensures
        prefix.is_prefix_of(p) ==> p[1] == prefix[1],
{
    if prefix.is_prefix_of(p) {
        assert(p.subrange(0, prefix.len() as int)[1] == p[1]);
    }
}

proof fn lemma_use_line(p: Seq<char>)
    ensures
        import_path("use "@ + p + ";"@) == Some(p),
        !("#["@.is_prefix_of("use "@ + p + ";"@)),
        ("use "@ + p + ";"@).len() > 0,
{
    reveal_strlit("use ");
    reveal_strlit(";");
    reveal_strlit("#[");
    let t = "use "@ + p + ";"@;
    assert("use "@.is_prefix_of(t)) by {
        assert(t.take(4) =~= "use "@);
    }
    assert(t.skip(4) =~= p + ";"@);
    assert((p + ";"@).drop_last() =~= p);
    assert(t[0] == 'u');
}

proof fn lemma_scan_keeps_after_import(
    rel: Seq<char>,
    ls: Seq<Seq<char>>,
    j: int,
    last: Option<int>,
    blanks: int,
    k: int,
    p: Seq<char>,
    d: DiagnosticView,
)
    requires
        0 <= j <= k < ls.len(),
        trim(ls[k]) == "use "@ + p + ";"@,
        import_scan(rel, ls, k + 1, Some(import_group(p)), 0).contains(d),
    ensures
        import_scan(rel, ls, j, last, blanks).contains(d),
    decreases k - j,
{
    let t = trim(ls[j]);
    if j == k {
        lemma_use_line(p);
        lemma_in_concat(
            import_line_reports(rel, j, p, last, blanks),
            import_scan(rel, ls, k + 1, Some(import_group(p)), 0),
            d,
        );
    } else if t.len() == 0 {
        lemma_scan_keeps_after_import(rel, ls, j + 1, last, if last is Some { blanks + 1 } else { blanks }, k, p, d);
    } else if "#["@.is_prefix_of(t) && last is Some {
        lemma_scan_keeps_after_import(rel, ls, j + 1, last, blanks, k, p, d);
        lemma_in_concat(
            crate::rules::unused_imports_allow_reports(rel, j, t),
            import_scan(rel, ls, j + 1, last, blanks),
            d,
        );
    } else {
        match import_path(t) {
            Some(q) => {
                lemma_scan_keeps_after_import(rel, ls, j + 1, Some(import_group(q)), 0, k, p, d);
                lemma_in_concat(
                    import_line_reports(rel, j, q, last, blanks),
                    import_scan(rel, ls, j + 1, Some(import_group(q)), 0),
                    d,
                );
            },
            None => {
                lemma_scan_keeps_after_import(rel, ls, j + 1, None, 0, k, p, d);
                lemma_in_concat(
                    crate::rules::unused_imports_allow_reports(rel, j, t),
                    import_scan(rel, ls, j + 1, None, 0),
                    d,
                );
            },
        }
    }
}

/// Two consecutive `use` lines out of group order are reported: when a
/// current-crate import (`crate::`, `self::`, `super::`) is directly
/// followed by one that is not, or an import outside the standard library
/// is directly followed by a standard one, and the file has no
/// `explicit-imports` exception, the second line gets `STYLE005`.
pub proof fn imports_out_of_group_order_are_reported(
    relative: Seq<char>,
    ls: Seq<Seq<char>>,
    ex: Seq<ExceptionView>,
    k: int,
    first: Seq<char>,
    second: Seq<char>,
)
    requires
        0 <= k,
        k + 1 < ls.len(),
        trim(ls[k]) == "use "@ + first + ";"@,
        trim(ls[k + 1]) == "use "@ + second + ";"@,
        (current_crate_path(first) && !current_crate_path(second)) || (!standard_path(first)
            && standard_path(second)),
        !allowed(ex, "explicit-imports"@, relative),
    ensures
        import_reports(relative, ls, ex).contains(
            report(
                "STYLE005"@,
                relative,
                (k + 2) as usize,
                "imports must be ordered standard, external, then current-crate"@,
            ),
        ),
{
    reveal_strlit("std::");
    reveal_strlit("core::");
    reveal_strlit("alloc::");
    reveal_strlit("crate::");
    reveal_strlit("self::");
    reveal_strlit("super::");
    let d = report("STYLE005"@, relative, (k + 2) as usize, "imports must be ordered standard, external, then current-crate"@);
    let g = import_group(first);
    assert(import_group(second) < g) by {
        if current_crate_path(first) {
            lemma_second_char("crate::"@, first);
            lemma_second_char("self::"@, first);
            lemma_second_char("super::"@, first);
            lemma_second_char("std::"@, first);
            lemma_second_char("core::"@, first);
            lemma_second_char("alloc::"@, first);
        }
    }
    lemma_use_line(second);
    let head = import_line_reports(relative, k + 1, second, Some(g), 0);
    assert(head.contains(d)) by {
        let b = if crate::text::has_char(second, '{') {
            seq![report("STYLE003"@, relative, (k + 2) as usize, "use declarations must import one object; brace lists are not allowed"@)]
        } else {
            seq![]
        };
        let s = if crate::text::has_char(second, '*') {
            seq![report("STYLE004"@, relative, (k + 2) as usize, "wildcard imports are not allowed"@)]
        } else {
            seq![]
        };
        assert(head == b + s + seq![d]);
        assert(head[head.len() - 1] == d);
    }
    lemma_in_concat(head, import_scan(relative, ls, k + 2, Some(import_group(second)), 0), d);
    lemma_scan_keeps_after_import(relative, ls, 0, None, 0, k, first, d);
    let scan = import_scan(relative, ls, 0, None, 0);
    let mods = if "/mod.rs"@.is_suffix_of(relative) && !crate::rules::has_items(ls) {
        crate::rules::mod_import_reports(relative, ls, 0)
    } else {
        seq![]
    };
    lemma_in_concat(scan, mods, d);
}

/// Whether an item is a top-level struct, enum or trait declared `pub`.
pub open spec fn is_pub_type_item(item: SourceItem) -> bool {
    ||| item matches SourceItem::Struct { visibility: VisibilityKind::Public, .. }
    ||| item matches SourceItem::Enum { visibility: VisibilityKind::Public, .. }
    ||| item matches SourceItem::Trait { visibility: VisibilityKind::Public, .. }
}

/// The keyword and name of a struct, enum or trait item.
pub open spec fn type_keyword_and_name(item: SourceItem) -> (Seq<char>, Seq<char>) {
    match item {
        SourceItem::Struct { name, .. } => ("struct"@, name@),
        SourceItem::Enum { name, .. } => ("enum"@, name@),
        SourceItem::Trait { name, .. } => ("trait"@, name@),
        _ => (seq![], seq![]),
    }
}

proof fn lemma_no_public_types(items: Seq<SourceItem>)
    requires
        forall|i: int| 0 <= i < items.len() ==> !is_pub_type_item(#[trigger] items[i]),
    ensures
        crate::syntax::public_types(items) == Seq::<(Seq<char>, Seq<char>)>::empty(),
    decreases items.len(),
{
    if items.len() > 0 {
        assert(!is_pub_type_item(items[0]));
        assert forall|i: int| 0 <= i < items.drop_first().len() implies !is_pub_type_item(#[trigger] items.drop_first()[i]) by {
            assert(items.drop_first()[i] == items[i + 1]);
        }
        lemma_no_public_types(items.drop_first());
    }
}

proof fn lemma_one_public_type(items: Seq<SourceItem>, j: int)
    requires
        0 <= j < items.len(),
        is_pub_type_item(items[j]),
        forall|i: int| 0 <= i < items.len() && i != j ==> !is_pub_type_item(#[trigger] items[i]),
    ensures
        crate::syntax::public_types(items) == seq![type_keyword_and_name(items[j])],
    decreases items.len(),
{
    assert forall|i: int| 0 <= i < items.drop_first().len() && i != j - 1 implies !is_pub_type_item(#[trigger] items.drop_first()[i]) by {
        assert(items.drop_first()[i] == items[i + 1]);
    }
    if j == 0 {
        lemma_no_public_types(items.drop_first());
        assert(seq![type_keyword_and_name(items[0])] + Seq::<(Seq<char>, Seq<char>)>::empty() =~= seq![type_keyword_and_name(items[0])]);
    } else {
        assert(!is_pub_type_item(items[0]));
        assert(items.drop_first()[j - 1] == items[j]);
        lemma_one_public_type(items.drop_first(), j - 1);
    }
}

/// A file that is not a crate root, module file or `macros.rs` and parses
/// with exactly one top-level `pub` struct, enum or trait must live in the
/// file named after the type's snake case: otherwise, without a
/// `type-file-name` exception, it gets exactly one `STYLE011` naming the
/// kind of the type, the type, the expected file and the actual file.
pub proof fn single_public_type_must_live_in_its_file(
    relative: Seq<char>,
    stem: Seq<char>,
    text: Seq<char>,
    ex: Seq<ExceptionView>,
    items: Seq<SourceItem>,
    j: int,
)
    requires
        stem != "lib"@ && stem != "main"@ && stem != "mod"@ && stem != "macros"@,
        rust_items(text) == Some(items),
        0 <= j < items.len(),
        is_pub_type_item(items[j]),
        forall|i: int| 0 <= i < items.len() && i != j ==> !is_pub_type_item(#[trigger] items[i]),
        snake_case_of(type_keyword_and_name(items[j]).1) != stem,
        !allowed(ex, "type-file-name"@, relative),
    ensures
        type_layout_reports(relative, stem, text, ex) == seq![
            report(
                "STYLE011"@,
                relative,
                0,
                type_keyword_and_name(items[j]).0 + " '"@ + type_keyword_and_name(items[j]).1
                    + "' should live in '"@ + snake_case_of(type_keyword_and_name(items[j]).1)
                    + ".rs', not '"@ + stem + ".rs'"@,
            ),
        ],
{
    lemma_one_public_type(items, j);
}

/// Whether an item may stand in `lib.rs` or `mod.rs`: a module, a `use`
/// declaration, or a function with a `proc_macro`, `proc_macro_attribute`
/// or `proc_macro_derive` attribute (by the last path segment).
pub open spec fn aggregation_item(item: SourceItem) -> bool {
    match item {
        SourceItem::Module { .. } => true,
        SourceItem::Import => true,
        SourceItem::Function { attributes } => exists|k: int|
            0 <= k < attributes@.len() && {
                let segs = (#[trigger] attributes@[k]).segments@;
                segs.len() > 0 && (segs.last().name@ == "proc_macro"@ || segs.last().name@
                    == "proc_macro_attribute"@ || segs.last().name@ == "proc_macro_derive"@)
            },
        _ => false,
    }
}

/// The number of items from index `i` on that may not stand in an
/// aggregation file.
pub open spec fn stray_items(items: Seq<SourceItem>, i: int) -> nat
    decreases items.len() - i,
{
    if i < 0 || i >= items.len() {
        0
    } else {
        (if aggregation_item(items[i]) {
            0nat
        } else {
            1nat
        }) + stray_items(items, i + 1)
    }
}

proof fn lemma_stray_reports(rel: Seq<char>, items: Seq<SourceItem>, i: int)
    requires
        0 <= i <= items.len(),
    ensures
        crate::rules::disallowed_item_reports(rel, items, i).len() == stray_items(items, i),
        forall|k: int|
            0 <= k < crate::rules::disallowed_item_reports(rel, items, i).len() ==> #[trigger] crate::rules::disallowed_item_reports(rel, items, i)[k]
                == report("STYLE009"@, rel, 0, "lib.rs and mod.rs files must only declare modules and re-export items"@),
    decreases items.len() - i,
{
    if i < items.len() {
        lemma_stray_reports(rel, items, i + 1);
        let rest = crate::rules::disallowed_item_reports(rel, items, i + 1);
        let d = report("STYLE009"@, rel, 0, "lib.rs and mod.rs files must only declare modules and re-export items"@);
        let head = if !crate::syntax::allowed_in_aggregation(items[i]) {
            seq![d]
        } else {
            seq![]
        };
        assert(crate::syntax::allowed_in_aggregation(items[i]) == aggregation_item(items[i]));
        assert forall|k: int| 0 <= k < (head + rest).len() implies #[trigger] (head + rest)[k] == d by {
            if k < head.len() {
                assert((head + rest)[k] == head[k]);
            } else {
                assert((head + rest)[k] == rest[k - head.len()]);
            }
        }
    }
}

/// In a `lib.rs` or `mod.rs` that parses, without an `aggregation-files`
/// exception, each top-level item that is not a module, a `use`
/// declaration or a procedural macro function (a type alias, a type, a
/// plain function, ...) gets one `STYLE009`, and nothing else is reported
/// by the aggregation rule.
pub proof fn aggregation_files_report_each_stray_item(
    relative: Seq<char>,
    text: Seq<char>,
    ex: Seq<ExceptionView>,
    items: Seq<SourceItem>,
)
    requires
        "/lib.rs"@.is_suffix_of(relative) || "/mod.rs"@.is_suffix_of(relative),
        rust_items(text) == Some(items),
        !allowed(ex, "aggregation-files"@, relative),
    ensures
        aggregation_reports(relative, text, ex).len() == stray_items(items, 0),
        forall|k: int|
            0 <= k < aggregation_reports(relative, text, ex).len() ==> #[trigger] aggregation_reports(relative, text, ex)[k]
                == report(
                "STYLE009"@,
                relative,
                0,
                "lib.rs and mod.rs files must only declare modules and re-export items"@,
            ),
{
    lemma_stray_reports(relative, items, 0);
}

proof fn lemma_scan_reaches_import(
    rel: Seq<char>,
    ls: Seq<Seq<char>>,
    j: int,
    last: Option<int>,
    blanks: int,
    k: int,
    p: Seq<char>,
    d: DiagnosticView,
)
    requires
        0 <= j <= k < ls.len(),
        trim(ls[k]) == "use "@ + p + ";"@,
        forall|l: Option<int>, b: int| #[trigger] import_line_reports(rel, k, p, l, b).contains(d),
    ensures
        import_scan(rel, ls, j, last, blanks).contains(d),
    decreases k - j,
{
    let t = trim(ls[j]);
    if j == k {
        lemma_use_line(p);
        assert(import_line_reports(rel, k, p, last, blanks).contains(d));
        lemma_in_concat(
            import_line_reports(rel, j, p, last, blanks),
            import_scan(rel, ls, k + 1, Some(import_group(p)), 0),
            d,
        );
    } else if t.len() == 0 {
        lemma_scan_reaches_import(rel, ls, j + 1, last, if last is Some { blanks + 1 } else { blanks }, k, p, d);
    } else if "#["@.is_prefix_of(t) && last is Some {
        lemma_scan_reaches_import(rel, ls, j + 1, last, blanks, k, p, d);
        lemma_in_concat(crate::rules::unused_imports_allow_reports(rel, j, t), import_scan(rel, ls, j + 1, last, blanks), d);
    } else {
        match import_path(t) {
            Some(q) => {
                lemma_scan_reaches_import(rel, ls, j + 1, Some(import_group(q)), 0, k, p, d);
                lemma_in_concat(
                    import_line_reports(rel, j, q, last, blanks),
                    import_scan(rel, ls, j + 1, Some(import_group(q)), 0),
                    d,
                );
            },
            None => {
                lemma_scan_reaches_import(rel, ls, j + 1, None, 0, k, p, d);
                lemma_in_concat(crate::rules::unused_imports_allow_reports(rel, j, t), import_scan(rel, ls, j + 1, None, 0), d);
            },
        }
    }
}

proof fn lemma_import_reports_hold_scan(rel: Seq<char>, ls: Seq<Seq<char>>, ex: Seq<ExceptionView>, d: DiagnosticView)
    requires
        import_scan(rel, ls, 0, None, 0).contains(d),
        !allowed(ex, "explicit-imports"@, rel),
    ensures
        import_reports(rel, ls, ex).contains(d),
{
    let mods = if "/mod.rs"@.is_suffix_of(rel) && !crate::rules::has_items(ls) {
        crate::rules::mod_import_reports(rel, ls, 0)
    } else {
        seq![]
    };
    lemma_in_concat(import_scan(rel, ls, 0, None, 0), mods, d);
}

/// A `use` line whose path holds `*` is reported as a wildcard import
/// (`STYLE004`), and one whose path holds `{` as a brace list
/// (`STYLE003`), on that line, unless the file has an `explicit-imports`
/// exception.
pub proof fn wildcard_and_brace_imports_are_reported(
    relative: Seq<char>,
    ls: Seq<Seq<char>>,
    ex: Seq<ExceptionView>,
    k: int,
    path: Seq<char>,
)
    requires
        0 <= k < ls.len(),
        trim(ls[k]) == "use "@ + path + ";"@,
        !allowed(ex, "explicit-imports"@, relative),
    ensures
        crate::text::has_char(path, '*') ==> import_reports(relative, ls, ex).contains(
            report("STYLE004"@, relative, (k + 1) as usize, "wildcard imports are not allowed"@),
        ),
        crate::text::has_char(path, '{') ==> import_reports(relative, ls, ex).contains(
            report(
                "STYLE003"@,
                relative,
                (k + 1) as usize,
                "use declarations must import one object; brace lists are not allowed"@,
            ),
        ),
{
    let star = report("STYLE004"@, relative, (k + 1) as usize, "wildcard imports are not allowed"@);
    let brace = report("STYLE003"@, relative, (k + 1) as usize, "use declarations must import one object; brace lists are not allowed"@);
    if crate::text::has_char(path, '*') {
        assert forall|l: Option<int>, b: int| #[trigger] import_line_reports(relative, k, path, l, b).contains(star) by {
            let r = import_line_reports(relative, k, path, l, b);
            let bs = if crate::text::has_char(path, '{') { seq![brace] } else { seq![] };
            assert(r[bs.len() as int] == star);
        }
        lemma_scan_reaches_import(relative, ls, 0, None, 0, k, path, star);
        lemma_import_reports_hold_scan(relative, ls, ex, star);
    }
    if crate::text::has_char(path, '{') {
        assert forall|l: Option<int>, b: int| #[trigger] import_line_reports(relative, k, path, l, b).contains(brace) by {
            assert(import_line_reports(relative, k, path, l, b)[0] == brace);
        }
        lemma_scan_reaches_import(relative, ls, 0, None, 0, k, path, brace);
        lemma_import_reports_hold_scan(relative, ls, ex, brace);
    }
}

/// Two directly consecutive `use` lines of different groups in the right
/// order (standard before external, external before current-crate) lack
/// the blank line between groups: the second line gets `STYLE006`, unless
/// the file has an `explicit-imports` exception.
pub proof fn adjacent_import_groups_need_a_blank_line(
    relative: Seq<char>,
    ls: Seq<Seq<char>>,
    ex: Seq<ExceptionView>,
    k: int,
    first: Seq<char>,
    second: Seq<char>,
)
    requires
        0 <= k,
        k + 1 < ls.len(),
        trim(ls[k]) == "use "@ + first + ";"@,
        trim(ls[k + 1]) == "use "@ + second + ";"@,
        (standard_path(first) && !standard_path(second)) || (!standard_path(first) && !current_crate_path(first)
            && current_crate_path(second)),
        !allowed(ex, "explicit-imports"@, relative),
    ensures
        import_reports(relative, ls, ex).contains(
            report(
                "STYLE006"@,
                relative,
                (k + 2) as usize,
                "import groups must be separated by exactly one blank line"@,
            ),
        ),
{
    reveal_strlit("std::");
    reveal_strlit("core::");
    reveal_strlit("alloc::");
    reveal_strlit("crate::");
    reveal_strlit("self::");
    reveal_strlit("super::");
    lemma_second_char("crate::"@, second);
    lemma_second_char("self::"@, second);
    lemma_second_char("super::"@, second);
    lemma_second_char("std::"@, second);
    lemma_second_char("core::"@, second);
    lemma_second_char("alloc::"@, second);
    let d = report("STYLE006"@, relative, (k + 2) as usize, "import groups must be separated by exactly one blank line"@);
    let g = import_group(first);
    assert(import_group(second) > g);
    lemma_use_line(second);
    let head = import_line_reports(relative, k + 1, second, Some(g), 0);
    assert(head.contains(d)) by {
        assert(head[head.len() - 1] == d);
    }
    lemma_in_concat(head, import_scan(relative, ls, k + 2, Some(import_group(second)), 0), d);
    lemma_scan_keeps_after_import(relative, ls, 0, None, 0, k, first, d);
    lemma_import_reports_hold_scan(relative, ls, ex, d);
}

/// With the inline-test switch on and no `inline-tests` exception, every
/// line of a source file whose trimmed start is `#[test` or `#[rstest` is
/// reported (`STYLE013`) on that line.
pub proof fn inline_test_lines_are_reported(
    relative: Seq<char>,
    stem: Seq<char>,
    text: Seq<char>,
    enforce_headers: bool,
    ex: Seq<ExceptionView>,
    k: int,
)
    requires
        0 <= k < lines(text).len(),
        "#[test"@.is_prefix_of(trim_start(lines(text)[k])) || "#[rstest"@.is_prefix_of(
            trim_start(lines(text)[k]),
        ),
        !allowed(ex, "inline-tests"@, relative),
    ensures
        source_file_reports(relative, stem, text, enforce_headers, true, ex).contains(
            report(
                "STYLE013"@,
                relative,
                (k + 1) as usize,
                "inline test attributes are not allowed; place tests under the tests directory"@,
            ),
        ),
{
    let ls = lines(text);
    let d = report("STYLE013"@, relative, (k + 1) as usize, "inline test attributes are not allowed; place tests under the tests directory"@);
    assert(line_matches(LineRule::InlineTest, ls[k]));
    lemma_line_reported(LineRule::InlineTest, relative, ls, 0, k);
    let c = crate::rules::common_reports(relative, ls, enforce_headers, ex);
    let v = crate::rules::coverage_reports(relative, ls, ex);
    let a = aggregation_reports(relative, text, ex);
    let l = type_layout_reports(relative, stem, text, ex);
    let n = crate::rules::inline_test_reports(relative, ls, true, ex);
    lemma_in_concat(c + v + a + l, n, d);
}

/// When headers are enforced, a file whose first line is not the header
/// rule line gets `DOC-001` on line 1.
pub proof fn missing_header_is_reported(relative: Seq<char>, ls: Seq<Seq<char>>, ex: Seq<ExceptionView>)
    requires
        ls.len() == 0 || ls[0] != "// ============================================================================="@,
    ensures
        crate::rules::common_reports(relative, ls, true, ex).contains(
            report(
                "DOC-001"@,
                relative,
                1,
                "Rust files must begin with the accepted seven-line copyright and license header"@,
            ),
        ),
{
    let d = report("DOC-001"@, relative, 1, "Rust files must begin with the accepted seven-line copyright and license header"@);
    let h = crate::rules::header_reports(relative, ls);
    assert(h[0] == d);
    lemma_in_concat(h, import_reports(relative, ls, ex), d);
}

/// A test file outside shared support code, not named `*_tests.rs` or
/// `mod.rs`, with a line whose trimmed start is `#[test` and no
/// `test-file-name` exception gets `STYLE001`.
pub proof fn test_files_with_tests_must_be_named_for_tests(
    relative: Seq<char>,
    text: Seq<char>,
    enforce_headers: bool,
    ex: Seq<ExceptionView>,
    k: int,
)
    requires
        0 <= k < lines(text).len(),
        "#[test"@.is_prefix_of(trim_start(lines(text)[k])),
        forall|i: int| 0 <= i < split(relative, '/').len() ==> !support_part(#[trigger] split(relative, '/')[i]),
        !"_tests.rs"@.is_suffix_of(relative),
        !"/mod.rs"@.is_suffix_of(relative),
        !allowed(ex, "test-file-name"@, relative),
    ensures
        test_file_reports(relative, text, enforce_headers, ex).contains(
            report("STYLE001"@, relative, 0, "test files should be named '*_tests.rs' or 'mod.rs'"@),
        ),
{
    let ls = lines(text);
    let d = report("STYLE001"@, relative, 0, "test files should be named '*_tests.rs' or 'mod.rs'"@);
    assert(!crate::rules::is_support_path(relative));
    assert(crate::rules::is_test_attribute_line(ls[k]));
    assert(crate::rules::has_test_attribute_line(ls));
    let common = crate::rules::common_reports(relative, ls, enforce_headers, ex);
    let naming = crate::rules::test_naming_reports(relative, text, ex);
    assert(naming[0] == d);
    lemma_in_concat(common, naming, d);
    lemma_in_concat(common + naming, crate::rules::test_redirect_reports(relative, ls, ex), d);
}

} // verus!

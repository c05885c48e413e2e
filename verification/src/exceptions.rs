//! Project-local exceptions to the style rules.
//!
//! A project may exempt one exact project-relative path from one supported
//! rule, with a reason.  The exceptions come from
//! `.infra/style/exceptions.toml`; this module validates them and answers
//! whether a diagnostic is exempted.

use vstd::prelude::*;

use crate::error::StyleError;
use crate::error::StyleErrorView;
use crate::text::chars_eq;
use crate::text::chars_eq_str;
use crate::text::chars_of;
use crate::text::has_char_exec;
use crate::text::slice_chars;
use crate::text::trim;
use crate::text::trim_chars;

verus! {

/// One reviewed exception: `rule` does not apply to the file `path`.
#[derive(Debug, Clone)]
pub struct StyleException {
    /// Supported rule name, such as `test-redirect`.
    pub rule: String,
    /// Exact project-relative path with forward slashes.
    pub path: String,
    /// Why the exception is needed.
    pub reason: String,
}

/// The exceptions configured for a project.
#[derive(Debug, Clone)]
pub struct ExceptionConfig {
    /// Version of the exception file format.
    pub format: u8,
    /// Configured exceptions, in file order.
    pub exceptions: Vec<StyleException>,
}

/// The mathematical content of a [`StyleException`].
pub ghost struct ExceptionView {
    pub rule: Seq<char>,
    pub path: Seq<char>,
    pub reason: Seq<char>,
}

impl View for StyleException {
    type V = ExceptionView;

    open spec fn view(&self) -> ExceptionView {
        ExceptionView { rule: self.rule@, path: self.path@, reason: self.reason@ }
    }
}

/// The views of a sequence of exceptions.
pub open spec fn exception_views(v: Seq<StyleException>) -> Seq<ExceptionView> {
    v.map_values(|e: StyleException| e@)
}

/// The rules that an exception may name.
pub open spec fn is_known_rule(rule: Seq<char>) -> bool {
    ||| rule == "inline-tests"@
    ||| rule == "test-file-name"@
    ||| rule == "test-redirect"@
    ||| rule == "source-test-pair"@
    ||| rule == "explicit-imports"@
    ||| rule == "coverage-cfg"@
    ||| rule == "aggregation-files"@
    ||| rule == "public-type-layout"@
    ||| rule == "multiple-public-types"@
    ||| rule == "type-file-name"@
    ||| rule == "internal-test-module"@
}

/// The parts of `rest` between occurrences of `sep` (`str::split` with a
/// character), where `current` holds the part in progress.
pub open spec fn parts_from(current: Seq<char>, sep: char, rest: Seq<char>) -> Seq<Seq<char>>
    decreases rest.len(),
{
    if rest.len() == 0 {
        seq![current]
    } else if rest[0] == sep {
        seq![current] + parts_from(seq![], sep, rest.drop_first())
    } else {
        parts_from(current.push(rest[0]), sep, rest.drop_first())
    }
}

/// The parts of `s` between occurrences of `sep`, empty parts included.
pub open spec fn split(s: Seq<char>, sep: char) -> Seq<Seq<char>> {
    parts_from(seq![], sep, s)
}

/// Whether a path starts with a drive letter, `:` and a separator, which
/// `Path::is_absolute` calls absolute under Windows rules.
pub open spec fn is_drive_absolute(path: Seq<char>) -> bool {
    &&& path.len() >= 3
    &&& (('A' <= path[0] && path[0] <= 'Z') || ('a' <= path[0] && path[0] <= 'z'))
    &&& path[1] == ':'
    &&& (path[2] == '/' || path[2] == '\\')
}

/// A plain project-relative path: not empty, no empty or `..` part between
/// slashes (so neither absolute nor ending in a slash), and no backslash;
/// under Windows rules (`windows`), not a drive path such as `C:/x.rs`
/// either.
pub open spec fn is_plain_relative_path(path: Seq<char>, windows: bool) -> bool {
    &&& path.len() > 0
    &&& forall|i: int| 0 <= i < split(path, '/').len() ==> {
        let part = #[trigger] split(path, '/')[i];
        part.len() > 0 && part != ".."@
    }
    &&& !crate::text::has_char(path, '\\')
    &&& !(windows && is_drive_absolute(path))
}

/// Whether an exception at index `i` repeats the rule and path of an
/// earlier one.
pub open spec fn repeats_earlier(ex: Seq<ExceptionView>, i: int) -> bool {
    exists|j: int| 0 <= j < i && ex[j].rule == ex[i].rule && ex[j].path == ex[i].path
}

/// The first problem of the exceptions from index `i` on, checked in file
/// order; each exception is checked for a known rule, a plain path, a
/// reason, uniqueness and an existing target, in that order.
pub open spec fn first_problem(ex: Seq<ExceptionView>, targets: Seq<bool>, windows: bool, i: int) -> Option<StyleErrorView>
    decreases ex.len() - i,
{
    if i < 0 || i >= ex.len() {
        None
    } else if !is_known_rule(ex[i].rule) {
        Some(StyleErrorView::UnknownRule(ex[i].rule))
    } else if !is_plain_relative_path(ex[i].path, windows) {
        Some(StyleErrorView::InvalidPath(ex[i].path))
    } else if trim(ex[i].reason).len() == 0 {
        Some(StyleErrorView::MissingReason(ex[i].rule, ex[i].path))
    } else if repeats_earlier(ex, i) {
        Some(StyleErrorView::DuplicateException(ex[i].rule, ex[i].path))
    } else if !(i < targets.len() && targets[i]) {
        Some(StyleErrorView::MissingTarget(ex[i].path))
    } else {
        first_problem(ex, targets, windows, i + 1)
    }
}

/// The outcome of validating a configuration whose exception targets exist
/// as files where `targets` says so; `windows` tells whether paths follow
/// Windows rules.
pub open spec fn validation(format: u8, ex: Seq<ExceptionView>, targets: Seq<bool>, windows: bool) -> Result<(), StyleErrorView> {
    if format != 1 {
        Err(StyleErrorView::UnsupportedFormat(format))
    } else {
        match first_problem(ex, targets, windows, 0) {
            Some(e) => Err(e),
            None => Ok(()),
        }
    }
}

/// Whether an exception exempts `path` from `rule`.
pub open spec fn allowed(ex: Seq<ExceptionView>, rule: Seq<char>, path: Seq<char>) -> bool {
    exists|i: int| 0 <= i < ex.len() && ex[i].rule == rule && ex[i].path == path
}

/// Whether `rule` is a rule that exceptions may name.
pub fn known_rule(rule: &str) -> (r: bool)
    ensures
        r == is_known_rule(rule@),
{
    let c = chars_of(rule);
    chars_eq_str(&c, "inline-tests") || chars_eq_str(&c, "test-file-name") || chars_eq_str(
        &c,
        "test-redirect",
    ) || chars_eq_str(&c, "source-test-pair") || chars_eq_str(&c, "explicit-imports")
        || chars_eq_str(&c, "coverage-cfg") || chars_eq_str(&c, "aggregation-files")
        || chars_eq_str(&c, "public-type-layout") || chars_eq_str(&c, "multiple-public-types")
        || chars_eq_str(&c, "type-file-name") || chars_eq_str(&c, "internal-test-module")
}

proof fn lemma_parts_step(current: Seq<char>, sep: char, rest: Seq<char>)
    requires
        rest.len() > 0,
    ensures
        rest[0] == sep ==> parts_from(current, sep, rest) == seq![current] + parts_from(
            seq![],
            sep,
            rest.drop_first(),
        ),
        rest[0] != sep ==> parts_from(current, sep, rest) == parts_from(
            current.push(rest[0]),
            sep,
            rest.drop_first(),
        ),
{
}

/// The parts of `s` between occurrences of `sep`.
pub fn split_exec(s: &Vec<char>, sep: char) -> (r: Vec<Vec<char>>)
    ensures
        crate::text::views_of(r@) == split(s@, sep),
{
    let mut r: Vec<Vec<char>> = Vec::new();
    let mut current: Vec<char> = Vec::new();
    let mut i: usize = 0;
    assert(s@.skip(0) =~= s@);
    assert(crate::text::views_of(r@) =~= Seq::<Seq<char>>::empty());
    assert(current@ =~= Seq::<char>::empty());
    assert(crate::text::views_of(r@) + parts_from(current@, sep, s@.skip(0)) =~= parts_from(
        current@,
        sep,
        s@,
    ));
    while i < s.len()
        invariant
            i <= s.len(),
            crate::text::views_of(r@) + parts_from(current@, sep, s@.skip(i as int)) == split(
                s@,
                sep,
            ),
        decreases s.len() - i,
    {
        let ghost rest = s@.skip(i as int);
        assert(rest.drop_first() =~= s@.skip(i + 1));
        proof {
            lemma_parts_step(current@, sep, rest);
        }
        if s[i] == sep {
            let ghost old_r = r@;
            let ghost old_current = current@;
            r.push(current);
            assert(crate::text::views_of(r@) + parts_from(seq![], sep, s@.skip(i + 1))
                =~= crate::text::views_of(old_r) + (seq![old_current] + parts_from(
                seq![],
                sep,
                s@.skip(i + 1),
            )));
            current = Vec::new();
            assert(current@ =~= Seq::<char>::empty());
        } else {
            current.push(s[i]);
        }
        i = i + 1;
    }
    assert(s@.skip(i as int) =~= Seq::<char>::empty());
    let ghost old_r = r@;
    let ghost old_current = current@;
    r.push(current);
    assert(crate::text::views_of(r@) =~= crate::text::views_of(old_r) + seq![old_current]);
    r
}

/// Whether a path is a plain project-relative path.
pub fn plain_relative_path(path: &Vec<char>, windows: bool) -> (r: bool)
    ensures
        r == is_plain_relative_path(path@, windows),
{
    if path.len() == 0 {
        return false;
    }
    let parts = split_exec(path, '/');
    let ghost views = crate::text::views_of(parts@);
    let mut i: usize = 0;
    while i < parts.len()
        invariant
            i <= parts.len(),
            views == crate::text::views_of(parts@),
            views == split(path@, '/'),
            forall|j: int| 0 <= j < i ==> {
                let part = #[trigger] views[j];
                part.len() > 0 && part != ".."@
            },
        decreases parts.len() - i,
    {
        assert(views[i as int] == parts@[i as int]@);
        if parts[i].len() == 0 || chars_eq_str(&parts[i], "..") {
            return false;
        }
        i = i + 1;
    }
    if has_char_exec(path, '\\') {
        return false;
    }
    !(windows && drive_absolute(path))
}

/// Whether a path starts with a drive letter, `:` and a separator.
fn drive_absolute(path: &Vec<char>) -> (r: bool)
    ensures
        r == is_drive_absolute(path@),
{
    if path.len() < 3 {
        return false;
    }
    let c = path[0];
    (('A' <= c && c <= 'Z') || ('a' <= c && c <= 'z')) && path[1] == ':' && (path[2] == '/' || path[2] == '\\')
}

/// Whether some exception before index `i` has the rule and path of
/// exception `i`.
fn repeats_earlier_exec(ex: &Vec<StyleException>, i: usize) -> (r: bool)
    requires
        i < ex.len(),
    ensures
        r == repeats_earlier(exception_views(ex@), i as int),
{
    let ghost v = exception_views(ex@);
    let rule = chars_of(ex[i].rule.as_str());
    let path = chars_of(ex[i].path.as_str());
    let mut j: usize = 0;
    while j < i
        invariant
            j <= i < ex.len(),
            v == exception_views(ex@),
            rule@ == v[i as int].rule,
            path@ == v[i as int].path,
            forall|k: int| 0 <= k < j ==> !(v[k].rule == v[i as int].rule && v[k].path == v[
                i as int
            ].path),
        decreases i - j,
    {
        let other_rule = chars_of(ex[j].rule.as_str());
        let other_path = chars_of(ex[j].path.as_str());
        assert(v[j as int] == ex@[j as int]@);
        if chars_eq(&other_rule, &rule) && chars_eq(&other_path, &path) {
            return true;
        }
        j = j + 1;
    }
    false
}

impl ExceptionConfig {
    /// The configuration of a project without an exception file.
    pub fn empty() -> (r: ExceptionConfig)
        ensures
            r.format == 1,
            r.exceptions@.len() == 0,
    {
        ExceptionConfig { format: 1, exceptions: Vec::new() }
    }

    /// Validates the configuration; `targets[i]` tells whether the path of
    /// exception `i` names an existing file of the project (a missing entry
    /// counts as no file), and `windows` whether paths follow Windows rules,
    /// where a drive path such as `C:/x.rs` is absolute.
    pub fn validate(&self, targets: &Vec<bool>, windows: bool) -> (r: Result<(), StyleError>)
        ensures
            match r {
                Ok(()) => validation(self.format, exception_views(self.exceptions@), targets@, windows)
                    is Ok,
                Err(e) => validation(self.format, exception_views(self.exceptions@), targets@, windows)
                    == Err::<(), StyleErrorView>(e@),
            },
    {
        if self.format != 1 {
            return Err(StyleError::UnsupportedFormat(self.format));
        }
        let ghost v = exception_views(self.exceptions@);
        let mut i: usize = 0;
        while i < self.exceptions.len()
            invariant
                i <= self.exceptions.len(),
                self.format == 1,
                v == exception_views(self.exceptions@),
                first_problem(v, targets@, windows, 0) == first_problem(v, targets@, windows, i as int),
            decreases self.exceptions.len() - i,
        {
            let exception = &self.exceptions[i];
            assert(v[i as int] == exception@);
            if !known_rule(exception.rule.as_str()) {
                return Err(StyleError::UnknownRule(exception.rule.clone()));
            }
            let path = chars_of(exception.path.as_str());
            if !plain_relative_path(&path, windows) {
                return Err(StyleError::InvalidPath(exception.path.clone()));
            }
            let reason = chars_of(exception.reason.as_str());
            if trim_chars(&reason).len() == 0 {
                return Err(StyleError::MissingReason(exception.rule.clone(), exception.path.clone()));
            }
            if repeats_earlier_exec(&self.exceptions, i) {
                return Err(
                    StyleError::DuplicateException(exception.rule.clone(), exception.path.clone()),
                );
            }
            if i >= targets.len() || !targets[i] {
                return Err(StyleError::MissingTarget(exception.path.clone()));
            }
            i = i + 1;
        }
        Ok(())
    }

    /// Whether an exception exempts `path` from `rule`.
    pub fn allows(&self, rule: &Vec<char>, path: &Vec<char>) -> (r: bool)
        ensures
            r == allowed(exception_views(self.exceptions@), rule@, path@),
    {
        let ghost v = exception_views(self.exceptions@);
        let mut i: usize = 0;
        while i < self.exceptions.len()
            invariant
                i <= self.exceptions.len(),
                v == exception_views(self.exceptions@),
                forall|k: int| 0 <= k < i ==> !(v[k].rule == rule@ && v[k].path == path@),
            decreases self.exceptions.len() - i,
        {
            assert(v[i as int] == self.exceptions@[i as int]@);
            let r = chars_of(self.exceptions[i].rule.as_str());
            let p = chars_of(self.exceptions[i].path.as_str());
            if chars_eq(&r, rule) && chars_eq(&p, path) {
                return true;
            }
            i = i + 1;
        }
        false
    }
}

} // verus!

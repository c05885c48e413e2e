//! Path text handling: separator normalization and project-relative paths.
//!
//! Paths are texts.  Diagnostics report paths relative to the project root
//! with forward slashes, whatever separators the platform used.

use vstd::prelude::*;

use crate::text::chars_of;
use crate::text::slice_chars;
use crate::text::starts_with;
use crate::text::string_of;

verus! {

/// A path separator on any supported platform.
pub open spec fn is_separator(c: char) -> bool {
    c == '/' || c == '\\'
}

/// Rewrites separators of `rest` onto `acc`: each run of separators becomes
/// one `/`, except that a path marked `unc` keeps its leading pair.
/// `previous` tells whether the last character read was a separator.
pub open spec fn collapse(acc: Seq<char>, previous: bool, unc: bool, rest: Seq<char>) -> Seq<char>
    decreases rest.len(),
{
    if rest.len() == 0 {
        acc
    } else if is_separator(rest[0]) {
        let keep = !previous || (unc && acc == seq!['/']);
        collapse(if keep { acc.push('/') } else { acc }, true, unc, rest.drop_first())
    } else {
        collapse(acc.push(rest[0]), false, unc, rest.drop_first())
    }
}

/// Whether a path starts with a UNC pair of separators.
pub open spec fn is_unc(path: Seq<char>) -> bool {
    "//"@.is_prefix_of(path) || "\\\\"@.is_prefix_of(path)
}

/// A path with forward slashes, repeated separators collapsed (a leading
/// UNC pair kept), `//?/UNC/` shortened to `//` and `//?/` removed.
pub open spec fn normalize_separators(path: Seq<char>) -> Seq<char> {
    let n = collapse(seq![], false, is_unc(path), path);
    if "//?/UNC/"@.is_prefix_of(n) {
        "//"@ + n.skip("//?/UNC/"@.len() as int)
    } else if "//?/"@.is_prefix_of(n) {
        n.skip("//?/"@.len() as int)
    } else {
        n
    }
}

/// Whether a normalized path is a Windows path: a UNC path, or a drive
/// letter followed by `:/`.
pub open spec fn is_windows(path: Seq<char>) -> bool {
    "//"@.is_prefix_of(path) || (path.len() >= 3 && (path[0] as u32) < 128 && path[1] == ':'
        && path[2] == '/')
}

/// `path` without its trailing `c` characters.
pub open spec fn trim_end_char(path: Seq<char>, c: char) -> Seq<char>
    decreases path.len(),
{
    if path.len() > 0 && path.last() == c {
        trim_end_char(path.drop_last(), c)
    } else {
        path
    }
}

/// `path` without its leading `c` characters.
pub open spec fn trim_start_char(path: Seq<char>, c: char) -> Seq<char>
    decreases path.len(),
{
    if path.len() > 0 && path[0] == c {
        trim_start_char(path.drop_first(), c)
    } else {
        path
    }
}

/// A character with ASCII upper case folded to lower case.
pub open spec fn ascii_fold(c: char) -> int {
    if 'A' <= c && c <= 'Z' {
        (c as u32) as int + 32
    } else {
        (c as u32) as int
    }
}

/// Equality up to ASCII case (`str::eq_ignore_ascii_case`).
pub open spec fn eq_ignore_ascii_case(a: Seq<char>, b: Seq<char>) -> bool {
    a.len() == b.len() && forall|i: int| 0 <= i < a.len() ==> ascii_fold(a[i]) == ascii_fold(b[i])
}

/// The path of `path` relative to `project`, with forward slashes.
///
/// Both paths are normalized.  When the normalized project (without
/// trailing slashes) is a prefix of the path at a component boundary, the
/// rest of the path without its leading slashes is returned; Windows paths
/// compare the prefix without regard to ASCII case.  Otherwise the
/// normalized path itself is returned.
pub open spec fn relative_path(project: Seq<char>, path: Seq<char>) -> Seq<char> {
    let root = trim_end_char(normalize_separators(project), '/');
    let full = normalize_separators(path);
    let n = root.len();
    let prefix_matches = n <= full.len() && (if is_windows(root) && is_windows(full) {
        eq_ignore_ascii_case(full.take(n as int), root)
    } else {
        full.take(n as int) == root
    });
    let suffix = full.skip(n as int);
    if prefix_matches && (suffix.len() == 0 || suffix[0] == '/') {
        trim_start_char(suffix, '/')
    } else {
        full
    }
}

proof fn lemma_collapse_step(acc: Seq<char>, previous: bool, unc: bool, rest: Seq<char>)
    requires
        rest.len() > 0,
    ensures
        collapse(acc, previous, unc, rest) == (if is_separator(rest[0]) {
            let keep = !previous || (unc && acc == seq!['/']);
            collapse(if keep { acc.push('/') } else { acc }, true, unc, rest.drop_first())
        } else {
            collapse(acc.push(rest[0]), false, unc, rest.drop_first())
        }),
{
}

/// Replaces `\` with `/` and collapses repeated separators, keeping a
/// leading UNC pair and dropping verbatim prefixes.
pub fn normalize_path_separators(path: &Vec<char>) -> (r: Vec<char>)
    ensures
        r@ == normalize_separators(path@),
{
    let slashes = chars_of("//");
    let backslashes = chars_of("\\\\");
    let unc = starts_with(path, &slashes) || starts_with(path, &backslashes);
    let mut normalized: Vec<char> = Vec::new();
    let mut previous = false;
    let mut i: usize = 0;
    assert(path@.skip(0) =~= path@);
    while i < path.len()
        invariant
            i <= path.len(),
            unc == is_unc(path@),
            collapse(normalized@, previous, unc, path@.skip(i as int)) == collapse(
                seq![],
                false,
                unc,
                path@,
            ),
        decreases path.len() - i,
    {
        let ghost rest = path@.skip(i as int);
        proof {
            lemma_collapse_step(normalized@, previous, unc, rest);
        }
        assert(rest.drop_first() =~= path@.skip(i + 1));
        let c = path[i];
        if c == '/' || c == '\\' {
            let at_root = normalized.len() == 1 && normalized[0] == '/';
            assert(at_root == (normalized@ == seq!['/'])) by {
                if normalized@.len() == 1 && normalized@[0] == '/' {
                    assert(normalized@ =~= seq!['/']);
                }
            }
            if !previous || (unc && at_root) {
                normalized.push('/');
            }
            previous = true;
        } else {
            normalized.push(c);
            previous = false;
        }
        i = i + 1;
    }
    assert(path@.skip(i as int) =~= Seq::<char>::empty());
    let unc_prefix = chars_of("//?/UNC/");
    let verbatim = chars_of("//?/");
    if starts_with(&normalized, &unc_prefix) {
        let mut r = slashes;
        let mut rest = slice_chars(&normalized, unc_prefix.len(), normalized.len());
        r.append(&mut rest);
        r
    } else if starts_with(&normalized, &verbatim) {
        slice_chars(&normalized, verbatim.len(), normalized.len())
    } else {
        normalized
    }
}

/// Whether a normalized path is a Windows path.
pub fn is_windows_path(path: &Vec<char>) -> (r: bool)
    ensures
        r == is_windows(path@),
{
    let slashes = chars_of("//");
    starts_with(path, &slashes) || (path.len() >= 3 && (path[0] as u32) < 128 && path[1] == ':'
        && path[2] == '/')
}

proof fn lemma_trim_end_char_take(s: Seq<char>, c: char, k: int)
    requires
        0 <= k <= s.len(),
        forall|j: int| k <= j < s.len() ==> #[trigger] s[j] == c,
    ensures
        trim_end_char(s, c) == trim_end_char(s.take(k), c),
    decreases s.len() - k,
{
    if k < s.len() {
        lemma_trim_end_char_take(s.drop_last(), c, k);
        assert(s.drop_last().take(k) =~= s.take(k));
    } else {
        assert(s.take(k) =~= s);
    }
}

proof fn lemma_trim_start_char_skip(s: Seq<char>, c: char, k: int)
    requires
        0 <= k <= s.len(),
        forall|j: int| 0 <= j < k ==> #[trigger] s[j] == c,
    ensures
        trim_start_char(s, c) == trim_start_char(s.skip(k), c),
    decreases k,
{
    if k > 0 {
        lemma_trim_start_char_skip(s.drop_first(), c, k - 1);
        assert(s.drop_first().skip(k - 1) =~= s.skip(k));
    } else {
        assert(s.skip(0) =~= s);
    }
}

/// `s` without its trailing `c` characters.
pub fn trim_end_matches_char(s: &Vec<char>, c: char) -> (r: Vec<char>)
    ensures
        r@ == trim_end_char(s@, c),
{
    let mut k = s.len();
    while k > 0 && s[k - 1] == c
        invariant
            k <= s.len(),
            forall|j: int| k <= j < s.len() ==> #[trigger] s@[j] == c,
        decreases k,
    {
        k = k - 1;
    }
    proof {
        lemma_trim_end_char_take(s@, c, k as int);
        assert(s@.take(k as int) =~= s@.subrange(0, k as int));
    }
    let r = slice_chars(s, 0, k);
    proof {
        let t = s@.take(k as int);
        if t.len() > 0 {
            assert(t.last() == s@[k - 1]);
        }
    }
    r
}

/// `s` without its leading `c` characters.
pub fn trim_start_matches_char(s: &Vec<char>, c: char) -> (r: Vec<char>)
    ensures
        r@ == trim_start_char(s@, c),
{
    let mut k: usize = 0;
    while k < s.len() && s[k] == c
        invariant
            k <= s.len(),
            forall|j: int| 0 <= j < k ==> #[trigger] s@[j] == c,
        decreases s.len() - k,
    {
        k = k + 1;
    }
    proof {
        lemma_trim_start_char_skip(s@, c, k as int);
        assert(s@.skip(k as int) =~= s@.subrange(k as int, s@.len() as int));
    }
    slice_chars(s, k, s.len())
}

/// Compares the first `n` characters of `a` with `b`, ignoring ASCII case.
fn prefix_eq_ignore_ascii_case(a: &Vec<char>, b: &Vec<char>) -> (r: bool)
    requires
        b.len() <= a.len(),
    ensures
        r == eq_ignore_ascii_case(a@.take(b.len() as int), b@),
{
    let mut i: usize = 0;
    while i < b.len()
        invariant
            b.len() <= a.len(),
            i <= b.len(),
            forall|j: int| 0 <= j < i ==> ascii_fold(a@[j]) == ascii_fold(b@[j]),
        decreases b.len() - i,
    {
        let x = a[i];
        let y = b[i];
        let fx: u32 = if 'A' <= x && x <= 'Z' { (x as u32) + 32 } else { x as u32 };
        let fy: u32 = if 'A' <= y && y <= 'Z' { (y as u32) + 32 } else { y as u32 };
        assert(fx == ascii_fold(x));
        assert(fy == ascii_fold(y));
        if fx != fy {
            assert(a@.take(b.len() as int)[i as int] == x);
            return false;
        }
        i = i + 1;
    }
    true
}

/// The project-relative path of `path`, with forward slashes.
pub fn relative_path_chars(project: &Vec<char>, path: &Vec<char>) -> (r: Vec<char>)
    ensures
        r@ == relative_path(project@, path@),
{
    let normalized_root = normalize_path_separators(project);
    let root = trim_end_matches_char(&normalized_root, '/');
    let full = normalize_path_separators(path);
    let n = root.len();
    let prefix_matches = if n <= full.len() {
        if is_windows_path(&root) && is_windows_path(&full) {
            prefix_eq_ignore_ascii_case(&full, &root)
        } else {
            let head = slice_chars(&full, 0, n);
            assert(head@ =~= full@.take(n as int));
            crate::text::chars_eq(&head, &root)
        }
    } else {
        false
    };
    if prefix_matches {
        let suffix = slice_chars(&full, n, full.len());
        assert(suffix@ =~= full@.skip(n as int));
        if suffix.len() == 0 || suffix[0] == '/' {
            return trim_start_matches_char(&suffix, '/');
        }
    }
    full
}

/// Returns a project-relative diagnostic path using forward slashes.
///
/// If `path` is not rooted beneath `project`, its normalized path is
/// returned so path-scoped exceptions cannot accidentally match it.
pub fn project_relative_path(project: &str, path: &str) -> (r: String)
    ensures
        r@ == relative_path(project@, path@),
{
    let p = chars_of(project);
    let q = chars_of(path);
    string_of(&relative_path_chars(&p, &q))
}


/// A component kept by `Path::components`: neither empty nor `.`.
pub open spec fn emit_segment(current: Seq<char>) -> Seq<Seq<char>> {
    if current.len() == 0 || current == seq!['.'] {
        seq![]
    } else {
        seq![current]
    }
}

/// The components of `rest`, where `current` holds the characters already
/// read of the component in progress.
pub open spec fn segments_from(current: Seq<char>, rest: Seq<char>) -> Seq<Seq<char>>
    decreases rest.len(),
{
    if rest.len() == 0 {
        emit_segment(current)
    } else if rest[0] == '/' {
        emit_segment(current) + segments_from(seq![], rest.drop_first())
    } else {
        segments_from(current.push(rest[0]), rest.drop_first())
    }
}

/// The named components of a `/`-separated path: the texts between
/// slashes, without empty and `.` components.
pub open spec fn segments(path: Seq<char>) -> Seq<Seq<char>> {
    segments_from(seq![], path)
}

/// Whether a `/`-separated path is absolute.
pub open spec fn is_absolute(path: Seq<char>) -> bool {
    path.len() > 0 && path[0] == '/'
}

/// Two paths name the same location: same root and same components.
pub open spec fn same_path(a: Seq<char>, b: Seq<char>) -> bool {
    is_absolute(a) == is_absolute(b) && segments(a) == segments(b)
}

/// Components joined with `/`.
pub open spec fn join_segments(segs: Seq<Seq<char>>) -> Seq<char>
    decreases segs.len(),
{
    if segs.len() == 0 {
        seq![]
    } else if segs.len() == 1 {
        segs[0]
    } else {
        join_segments(segs.drop_last()) + seq!['/'] + segs.last()
    }
}

/// A path made of components, absolute or relative.
pub open spec fn render(absolute: bool, segs: Seq<Seq<char>>) -> Seq<char> {
    if absolute {
        seq!['/'] + join_segments(segs)
    } else {
        join_segments(segs)
    }
}

/// `base` joined with `rel` (`Path::join`): an absolute `rel` replaces
/// `base`, otherwise a separator is inserted when `base` needs one.
pub open spec fn join(base: Seq<char>, rel: Seq<char>) -> Seq<char> {
    if is_absolute(rel) || base.len() == 0 {
        rel
    } else if base.last() == '/' {
        base + rel
    } else {
        base + seq!['/'] + rel
    }
}

/// The parent directory of a path (`Path::parent`), if it has one.
pub open spec fn parent(path: Seq<char>) -> Option<Seq<char>> {
    let segs = segments(path);
    if segs.len() == 0 {
        None
    } else {
        Some(render(is_absolute(path), segs.drop_last()))
    }
}

/// The last component of a path (`Path::file_name`), if it names one.
pub open spec fn file_name(path: Seq<char>) -> Option<Seq<char>> {
    let segs = segments(path);
    if segs.len() == 0 || segs.last() == ".."@ {
        None
    } else {
        Some(segs.last())
    }
}

/// Index of the last `c` in `s`, or -1.
pub open spec fn last_index_of(s: Seq<char>, c: char) -> int
    decreases s.len(),
{
    if s.len() == 0 {
        -1
    } else if s.last() == c {
        s.len() - 1
    } else {
        last_index_of(s.drop_last(), c)
    }
}

/// The stem of a file name (`Path::file_stem`): the name before its last
/// dot, unless that dot starts the name.
pub open spec fn stem_of(name: Seq<char>) -> Seq<char> {
    let k = last_index_of(name, '.');
    if k <= 0 {
        name
    } else {
        name.take(k)
    }
}

/// Whether a file name has the `rs` extension.
pub open spec fn is_rust_name(name: Seq<char>) -> bool {
    name.len() > 3 && ".rs"@.is_suffix_of(name)
}

/// Whether a path names a Rust source file.
pub open spec fn is_rust_path(path: Seq<char>) -> bool {
    match file_name(path) {
        Some(name) => is_rust_name(name),
        None => false,
    }
}

/// The path with its file name replaced (`Path::with_file_name`).
pub open spec fn with_file_name(path: Seq<char>, name: Seq<char>) -> Seq<char> {
    match (file_name(path), parent(path)) {
        (Some(_), Some(dir)) => join(dir, name),
        _ => join(path, name),
    }
}

/// The path with the extension of its last component set to `rs`.
pub open spec fn with_rust_extension(path: Seq<char>) -> Seq<char> {
    match (file_name(path), parent(path)) {
        (Some(name), Some(dir)) => join(dir, stem_of(name) + ".rs"@),
        _ => path,
    }
}

/// The components of `path` below `base`, if `base` is a prefix of it
/// (`Path::strip_prefix`).
pub open spec fn components_below(base: Seq<char>, path: Seq<char>) -> Option<Seq<Seq<char>>> {
    let b = segments(base);
    let p = segments(path);
    if is_absolute(base) == is_absolute(path) && b.len() <= p.len() && p.take(b.len() as int) == b {
        Some(p.skip(b.len() as int))
    } else {
        None
    }
}

proof fn lemma_segments_step(current: Seq<char>, rest: Seq<char>)
    requires
        rest.len() > 0,
    ensures
        rest[0] == '/' ==> segments_from(current, rest) == emit_segment(current) + segments_from(
            seq![],
            rest.drop_first(),
        ),
        rest[0] != '/' ==> segments_from(current, rest) == segments_from(
            current.push(rest[0]),
            rest.drop_first(),
        ),
{
}

/// Whether `current` is a component that `Path::components` keeps.
fn keeps_segment(current: &Vec<char>) -> (r: bool)
    ensures
        r == (current@.len() != 0 && current@ != seq!['.']),
{
    if current.len() == 0 {
        return false;
    }
    if current.len() == 1 && current[0] == '.' {
        assert(current@ =~= seq!['.']);
        return false;
    }
    assert(current@.len() != 1 || current@[0] != '.');
    true
}

/// The named components of a `/`-separated path.
pub fn segments_of(path: &Vec<char>) -> (r: Vec<Vec<char>>)
    ensures
        crate::text::views_of(r@) == segments(path@),
{
    let mut r: Vec<Vec<char>> = Vec::new();
    let mut current: Vec<char> = Vec::new();
    let mut i: usize = 0;
    assert(path@.skip(0) =~= path@);
    assert(crate::text::views_of(r@) =~= Seq::<Seq<char>>::empty());
    assert(current@ =~= Seq::<char>::empty());
    assert(crate::text::views_of(r@) + segments_from(current@, path@.skip(0)) =~= segments_from(
        current@,
        path@,
    ));
    while i < path.len()
        invariant
            i <= path.len(),
            crate::text::views_of(r@) + segments_from(current@, path@.skip(i as int)) == segments(
                path@,
            ),
        decreases path.len() - i,
    {
        let ghost rest = path@.skip(i as int);
        assert(rest.drop_first() =~= path@.skip(i + 1));
        proof {
            lemma_segments_step(current@, rest);
        }
        if path[i] == '/' {
            let ghost old_r = r@;
            let ghost old_current = current@;
            if keeps_segment(&current) {
                r.push(current);
                assert(crate::text::views_of(r@) =~= crate::text::views_of(old_r) + emit_segment(
                    old_current,
                ));
            } else {
                assert(crate::text::views_of(r@) =~= crate::text::views_of(old_r) + emit_segment(
                    old_current,
                ));
            }
            assert(crate::text::views_of(r@) + segments_from(seq![], path@.skip(i + 1))
                =~= crate::text::views_of(old_r) + (emit_segment(old_current) + segments_from(
                seq![],
                path@.skip(i + 1),
            )));
            current = Vec::new();
            assert(current@ =~= Seq::<char>::empty());
        } else {
            current.push(path[i]);
        }
        i = i + 1;
    }
    assert(path@.skip(i as int) =~= Seq::<char>::empty());
    let ghost old_r = r@;
    let ghost old_current = current@;
    if keeps_segment(&current) {
        r.push(current);
    }
    assert(crate::text::views_of(r@) =~= crate::text::views_of(old_r) + emit_segment(old_current));
    r
}

/// Whether a `/`-separated path is absolute.
pub fn is_absolute_exec(path: &Vec<char>) -> (r: bool)
    ensures
        r == is_absolute(path@),
{
    path.len() > 0 && path[0] == '/'
}

/// Tests two component lists for equality.
fn segments_eq(a: &Vec<Vec<char>>, b: &Vec<Vec<char>>) -> (r: bool)
    ensures
        r == (crate::text::views_of(a@) == crate::text::views_of(b@)),
{
    if a.len() != b.len() {
        assert(crate::text::views_of(a@).len() != crate::text::views_of(b@).len());
        return false;
    }
    let mut i: usize = 0;
    while i < a.len()
        invariant
            a.len() == b.len(),
            i <= a.len(),
            forall|j: int| 0 <= j < i ==> a@[j]@ == b@[j]@,
        decreases a.len() - i,
    {
        if !crate::text::chars_eq(&a[i], &b[i]) {
            assert(crate::text::views_of(a@)[i as int] != crate::text::views_of(b@)[i as int]);
            return false;
        }
        i = i + 1;
    }
    assert(crate::text::views_of(a@) =~= crate::text::views_of(b@));
    true
}

/// Whether two paths name the same location.
pub fn same_path_exec(a: &Vec<char>, b: &Vec<char>) -> (r: bool)
    ensures
        r == same_path(a@, b@),
{
    if is_absolute_exec(a) != is_absolute_exec(b) {
        return false;
    }
    let sa = segments_of(a);
    let sb = segments_of(b);
    segments_eq(&sa, &sb)
}

/// `base` joined with `rel`.
pub fn join_exec(base: &Vec<char>, rel: &Vec<char>) -> (r: Vec<char>)
    ensures
        r@ == join(base@, rel@),
{
    if is_absolute_exec(rel) || base.len() == 0 {
        return slice_chars(rel, 0, rel.len());
    }
    let mut r = slice_chars(base, 0, base.len());
    if base[base.len() - 1] != '/' {
        r.push('/');
    }
    let mut tail = slice_chars(rel, 0, rel.len());
    r.append(&mut tail);
    r
}

/// Components joined with `/`, behind an optional root slash.
pub fn render_exec(absolute: bool, segs: &Vec<Vec<char>>, count: usize) -> (r: Vec<char>)
    requires
        count <= segs.len(),
    ensures
        r@ == render(absolute, crate::text::views_of(segs@).take(count as int)),
{
    let mut joined: Vec<char> = Vec::new();
    let mut i: usize = 0;
    while i < count
        invariant
            count <= segs.len(),
            i <= count,
            joined@ == join_segments(crate::text::views_of(segs@).take(i as int)),
        decreases count - i,
    {
        let ghost prev = crate::text::views_of(segs@).take(i as int);
        let ghost next = crate::text::views_of(segs@).take(i + 1);
        assert(next.drop_last() =~= prev);
        if i > 0 {
            joined.push('/');
        }
        let mut part = slice_chars(&segs[i], 0, segs[i].len());
        joined.append(&mut part);
        assert(joined@ =~= join_segments(next));
        i = i + 1;
    }
    if absolute {
        let mut r: Vec<char> = Vec::new();
        r.push('/');
        r.append(&mut joined);
        r
    } else {
        joined
    }
}

/// The parent directory of a path, if it has one.
pub fn parent_exec(path: &Vec<char>) -> (r: Option<Vec<char>>)
    ensures
        match r {
            Some(p) => parent(path@) == Some(p@),
            None => parent(path@) is None,
        },
{
    let segs = segments_of(path);
    if segs.len() == 0 {
        return None;
    }
    let r = render_exec(is_absolute_exec(path), &segs, segs.len() - 1);
    assert(crate::text::views_of(segs@).take(segs.len() - 1) =~= crate::text::views_of(
        segs@,
    ).drop_last());
    Some(r)
}

/// The last component of a path, if it names one.
pub fn file_name_exec(path: &Vec<char>) -> (r: Option<Vec<char>>)
    ensures
        match r {
            Some(n) => file_name(path@) == Some(n@),
            None => file_name(path@) is None,
        },
{
    let segs = segments_of(path);
    if segs.len() == 0 {
        return None;
    }
    let last = slice_chars(&segs[segs.len() - 1], 0, segs[segs.len() - 1].len());
    assert(last@ == crate::text::views_of(segs@).last());
    if crate::text::chars_eq_str(&last, "..") {
        return None;
    }
    Some(last)
}

/// The stem of a file name.
pub fn stem_exec(name: &Vec<char>) -> (r: Vec<char>)
    ensures
        r@ == stem_of(name@),
{
    let mut k = name.len();
    assert(name@.take(name.len() as int) =~= name@);
    while k > 0 && name[k - 1] != '.'
        invariant
            k <= name.len(),
            last_index_of(name@, '.') == last_index_of(name@.take(k as int), '.'),
        decreases k,
    {
        assert(name@.take(k as int).drop_last() =~= name@.take(k - 1));
        k = k - 1;
    }
    assert(name@.take(name.len() as int) =~= name@);
    if k <= 1 {
        proof {
            if k == 1 {
                assert(name@.take(1).last() == '.');
            }
        }
        slice_chars(name, 0, name.len())
    } else {
        assert(name@.take(k as int).last() == '.');
        slice_chars(name, 0, k - 1)
    }
}

/// Whether a path names a Rust source file.
pub fn is_rust_path_exec(path: &Vec<char>) -> (r: bool)
    ensures
        r == is_rust_path(path@),
{
    match file_name_exec(path) {
        Some(name) => name.len() > 3 && crate::text::ends_with_str(&name, ".rs"),
        None => false,
    }
}

/// The path with its file name replaced.
pub fn with_file_name_exec(path: &Vec<char>, name: &Vec<char>) -> (r: Vec<char>)
    ensures
        r@ == with_file_name(path@, name@),
{
    let f = file_name_exec(path);
    let p = parent_exec(path);
    match (f, p) {
        (Some(_), Some(dir)) => join_exec(&dir, name),
        _ => join_exec(path, name),
    }
}

/// The path with the extension of its last component set to `rs`.
pub fn with_rust_extension_exec(path: &Vec<char>) -> (r: Vec<char>)
    ensures
        r@ == with_rust_extension(path@),
{
    let f = file_name_exec(path);
    let p = parent_exec(path);
    match (f, p) {
        (Some(name), Some(dir)) => {
            let mut leaf = stem_exec(&name);
            let mut ext = chars_of(".rs");
            leaf.append(&mut ext);
            join_exec(&dir, &leaf)
        },
        _ => slice_chars(path, 0, path.len()),
    }
}

/// The components of `path` below `base`, if `base` is a prefix of it.
pub fn components_below_exec(base: &Vec<char>, path: &Vec<char>) -> (r: Option<Vec<Vec<char>>>)
    ensures
        match r {
            Some(c) => components_below(base@, path@) == Some(crate::text::views_of(c@)),
            None => components_below(base@, path@) is None,
        },
{
    let b = segments_of(base);
    let p = segments_of(path);
    if is_absolute_exec(base) != is_absolute_exec(path) || b.len() > p.len() {
        return None;
    }
    let mut i: usize = 0;
    while i < b.len()
        invariant
            b.len() <= p.len(),
            i <= b.len(),
            forall|j: int| 0 <= j < i ==> p@[j]@ == b@[j]@,
            crate::text::views_of(b@) == segments(base@),
            crate::text::views_of(p@) == segments(path@),
            is_absolute(base@) == is_absolute(path@),
        decreases b.len() - i,
    {
        if !crate::text::chars_eq(&p[i], &b[i]) {
            assert(crate::text::views_of(p@).take(b.len() as int)[i as int] != crate::text::views_of(
                b@,
            )[i as int]);
            assert(crate::text::views_of(p@).take(b.len() as int) != crate::text::views_of(b@));
            return None;
        }
        i = i + 1;
    }
    assert(crate::text::views_of(p@).take(b.len() as int) =~= crate::text::views_of(b@));
    let mut rest: Vec<Vec<char>> = Vec::new();
    let mut k = b.len();
    while k < p.len()
        invariant
            b.len() <= k <= p.len(),
            crate::text::views_of(b@) == segments(base@),
            crate::text::views_of(p@) == segments(path@),
            is_absolute(base@) == is_absolute(path@),
            crate::text::views_of(p@).take(b.len() as int) == crate::text::views_of(b@),
            crate::text::views_of(rest@) == crate::text::views_of(p@).subrange(
                b.len() as int,
                k as int,
            ),
        decreases p.len() - k,
    {
        let ghost prev = rest@;
        let piece = slice_chars(&p[k], 0, p[k].len());
        assert(piece@ =~= p@[k as int]@);
        assert(crate::text::views_of(p@)[k as int] == p@[k as int]@);
        rest.push(piece);
        assert(crate::text::views_of(rest@) =~= crate::text::views_of(prev).push(piece@));
        assert(crate::text::views_of(rest@) =~= crate::text::views_of(p@).subrange(
            b.len() as int,
            k + 1,
        ));
        k = k + 1;
    }
    assert(crate::text::views_of(p@).subrange(b.len() as int, p.len() as int)
        =~= crate::text::views_of(p@).skip(b.len() as int));
    Some(rest)
}


/// Strict lexicographic order of texts by code point (the byte order of
/// their UTF-8 encodings).
pub open spec fn text_less(a: Seq<char>, b: Seq<char>) -> bool
    decreases a.len(),
{
    if b.len() == 0 {
        false
    } else if a.len() == 0 {
        true
    } else if a[0] != b[0] {
        (a[0] as u32) < (b[0] as u32)
    } else {
        text_less(a.drop_first(), b.drop_first())
    }
}

/// Strict lexicographic order of component lists.
pub open spec fn segments_less(a: Seq<Seq<char>>, b: Seq<Seq<char>>) -> bool
    decreases a.len(),
{
    if b.len() == 0 {
        false
    } else if a.len() == 0 {
        true
    } else if a[0] != b[0] {
        text_less(a[0], b[0])
    } else {
        segments_less(a.drop_first(), b.drop_first())
    }
}

/// The order of `Path` values: the root comes first, then components
/// compare lexicographically.
pub open spec fn path_less(a: Seq<char>, b: Seq<char>) -> bool {
    if is_absolute(a) != is_absolute(b) {
        is_absolute(a)
    } else {
        segments_less(segments(a), segments(b))
    }
}

/// Inserts `x` into `sorted` before the first path that is greater.
pub open spec fn insert_path(sorted: Seq<Seq<char>>, x: Seq<char>) -> Seq<Seq<char>>
    decreases sorted.len(),
{
    if sorted.len() == 0 {
        seq![x]
    } else if path_less(x, sorted[0]) {
        seq![x] + sorted
    } else {
        seq![sorted[0]] + insert_path(sorted.drop_first(), x)
    }
}

/// The paths in ascending `Path` order; equal paths keep their order
/// (a stable sort, as `slice::sort` performs).
pub open spec fn sort_paths(s: Seq<Seq<char>>) -> Seq<Seq<char>>
    decreases s.len(),
{
    if s.len() == 0 {
        seq![]
    } else {
        insert_path(sort_paths(s.drop_last()), s.last())
    }
}

/// Compares two texts by code point.
pub fn text_less_exec(a: &Vec<char>, b: &Vec<char>) -> (r: bool)
    ensures
        r == text_less(a@, b@),
{
    let mut i: usize = 0;
    assert(a@.skip(0) =~= a@);
    assert(b@.skip(0) =~= b@);
    loop
        invariant
            i <= a.len(),
            i <= b.len(),
            text_less(a@, b@) == text_less(a@.skip(i as int), b@.skip(i as int)),
        decreases a.len() - i,
    {
        if i == b.len() {
            return false;
        }
        if i == a.len() {
            return true;
        }
        if a[i] != b[i] {
            return (a[i] as u32) < (b[i] as u32);
        }
        assert(a@.skip(i as int).drop_first() =~= a@.skip(i + 1));
        assert(b@.skip(i as int).drop_first() =~= b@.skip(i + 1));
        i = i + 1;
    }
}

/// Compares two component lists lexicographically.
pub fn segments_less_exec(a: &Vec<Vec<char>>, b: &Vec<Vec<char>>) -> (r: bool)
    ensures
        r == segments_less(crate::text::views_of(a@), crate::text::views_of(b@)),
{
    let ghost va = crate::text::views_of(a@);
    let ghost vb = crate::text::views_of(b@);
    let mut i: usize = 0;
    assert(va.skip(0) =~= va);
    assert(vb.skip(0) =~= vb);
    loop
        invariant
            i <= a.len(),
            i <= b.len(),
            va == crate::text::views_of(a@),
            vb == crate::text::views_of(b@),
            segments_less(va, vb) == segments_less(va.skip(i as int), vb.skip(i as int)),
        decreases a.len() - i,
    {
        if i == b.len() {
            return false;
        }
        if i == a.len() {
            return true;
        }
        assert(va[i as int] == a@[i as int]@);
        assert(vb[i as int] == b@[i as int]@);
        if !crate::text::chars_eq(&a[i], &b[i]) {
            return text_less_exec(&a[i], &b[i]);
        }
        assert(va.skip(i as int).drop_first() =~= va.skip(i + 1));
        assert(vb.skip(i as int).drop_first() =~= vb.skip(i + 1));
        i = i + 1;
    }
}

/// Compares two paths in `Path` order.
pub fn path_less_exec(a: &Vec<char>, b: &Vec<char>) -> (r: bool)
    ensures
        r == path_less(a@, b@),
{
    let aa = is_absolute_exec(a);
    let ab = is_absolute_exec(b);
    if aa != ab {
        return aa;
    }
    let sa = segments_of(a);
    let sb = segments_of(b);
    segments_less_exec(&sa, &sb)
}

proof fn lemma_insert_at(sorted: Seq<Seq<char>>, x: Seq<char>, i: int)
    requires
        0 <= i <= sorted.len(),
        forall|j: int| 0 <= j < i ==> !path_less(x, #[trigger] sorted[j]),
        i == sorted.len() || path_less(x, sorted[i]),
    ensures
        insert_path(sorted, x) == sorted.insert(i, x),
    decreases i,
{
    if sorted.len() == 0 {
        assert(sorted.insert(i, x) =~= seq![x]);
    } else if i == 0 {
        assert(sorted.insert(0, x) =~= seq![x] + sorted);
    } else {
        assert(!path_less(x, sorted[0]));
        lemma_insert_at(sorted.drop_first(), x, i - 1);
        assert(sorted.insert(i, x) =~= seq![sorted[0]] + sorted.drop_first().insert(i - 1, x));
    }
}

/// Sorts paths in ascending `Path` order, keeping equal paths in order.
pub fn sort_paths_exec(paths: Vec<Vec<char>>) -> (r: Vec<Vec<char>>)
    ensures
        crate::text::views_of(r@) == sort_paths(crate::text::views_of(paths@)),
{
    let ghost input = crate::text::views_of(paths@);
    assert(input.len() == paths@.len());
    assert(paths@.len() == paths.len());
    let mut sorted: Vec<Vec<char>> = Vec::new();
    let mut paths = paths;
    let mut pending: Vec<Vec<char>> = Vec::new();
    while paths.len() > 0
        invariant
            crate::text::views_of(pending@) + crate::text::views_of(paths@).reverse() =~= input.reverse(),
            input.len() <= usize::MAX,
        decreases paths.len(),
    {
        let ghost before = paths@;
        let x = paths.pop().unwrap();
        let ghost pend = pending@;
        pending.push(x);
        assert(crate::text::views_of(before) =~= crate::text::views_of(paths@).push(x@));
        assert(crate::text::views_of(before).reverse() =~= seq![x@] + crate::text::views_of(
            paths@,
        ).reverse());
        assert(crate::text::views_of(pending@) =~= crate::text::views_of(pend).push(x@));
    }
    assert(crate::text::views_of(pending@) =~= input.reverse());
    let ghost rev = crate::text::views_of(pending@);
    let mut k: usize = 0;
    assert(input.take(0) =~= Seq::<Seq<char>>::empty());
    assert(crate::text::views_of(sorted@) =~= Seq::<Seq<char>>::empty());
    while pending.len() > 0
        invariant
            k + pending@.len() == input.len(),
            input.len() <= usize::MAX,
            rev == input.reverse(),
            crate::text::views_of(pending@) == rev.take(pending@.len() as int),
            crate::text::views_of(sorted@) == sort_paths(input.take(k as int)),
        decreases pending.len(),
    {
        let ghost pend = pending@;
        let x = pending.pop().unwrap();
        assert(crate::text::views_of(pend)[pend.len() - 1] == pend[pend.len() - 1]@);
        assert(x@ == rev[pend.len() - 1]);
        assert(x@ == input[k as int]);
        assert(crate::text::views_of(pending@) =~= rev.take(pending@.len() as int));
        let mut i: usize = 0;
        while i < sorted.len() && !path_less_exec(&x, &sorted[i])
            invariant
                i <= sorted.len(),
                forall|j: int| 0 <= j < i ==> !path_less(x@, #[trigger] crate::text::views_of(sorted@)[j]),
            decreases sorted.len() - i,
        {
            assert(crate::text::views_of(sorted@)[i as int] == sorted@[i as int]@);
            i = i + 1;
        }
        proof {
            if i < sorted.len() {
                assert(crate::text::views_of(sorted@)[i as int] == sorted@[i as int]@);
            }
            lemma_insert_at(crate::text::views_of(sorted@), x@, i as int);
        }
        let ghost old_sorted = sorted@;
        sorted.insert(i, x);
        assert(crate::text::views_of(sorted@) =~= crate::text::views_of(old_sorted).insert(i as int, x@));
        assert(input.take(k + 1).drop_last() =~= input.take(k as int));
        assert(input.take(k + 1).last() == input[k as int]);
        k = k + 1;
    }
    assert(input.take(input.len() as int) =~= input);
    sorted
}

} // verus!

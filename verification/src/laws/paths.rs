//! Laws of diagnostic paths and of the order in which files are checked.

use vstd::prelude::*;

use crate::paths::collapse;
use crate::paths::insert_path;
use crate::paths::is_windows;
use crate::paths::normalize_separators;
use crate::paths::path_less;
use crate::paths::relative_path;
use crate::paths::segments_less;
use crate::paths::sort_paths;
use crate::paths::text_less;
use crate::paths::trim_end_char;
use crate::paths::trim_start_char;
use crate::text::has_char;

verus! {

proof fn lemma_collapse_no_backslash(acc: Seq<char>, previous: bool, unc: bool, rest: Seq<char>)
    requires
        !has_char(acc, '\\'),
    ensures
        !has_char(collapse(acc, previous, unc, rest), '\\'),
    decreases rest.len(),
{
    if rest.len() > 0 {
        if crate::paths::is_separator(rest[0]) {
            let keep = !previous || (unc && acc == seq!['/']);
            let next = if keep { acc.push('/') } else { acc };
            assert forall|i: int| 0 <= i < next.len() implies next[i] != '\\' by {
                if i < acc.len() {
                    assert(next[i] == acc[i]);
                }
            }
            lemma_collapse_no_backslash(next, true, unc, rest.drop_first());
        } else {
            let next = acc.push(rest[0]);
            assert forall|i: int| 0 <= i < next.len() implies next[i] != '\\' by {
                if i < acc.len() {
                    assert(next[i] == acc[i]);
                }
            }
            lemma_collapse_no_backslash(next, false, unc, rest.drop_first());
        }
    }
}

proof fn lemma_normalized_no_backslash(path: Seq<char>)
    ensures
        !has_char(normalize_separators(path), '\\'),
{
    reveal_strlit("//?/UNC/");
    reveal_strlit("//?/");
    reveal_strlit("//");
    let n = collapse(seq![], false, crate::paths::is_unc(path), path);
    lemma_collapse_no_backslash(seq![], false, crate::paths::is_unc(path), path);
    let r = normalize_separators(path);
    if "//?/UNC/"@.is_prefix_of(n) {
        assert forall|i: int| 0 <= i < r.len() implies r[i] != '\\' by {
            if i >= 2 {
                assert(r[i] == n[i - 2 + 8]);
            }
        }
    } else if "//?/"@.is_prefix_of(n) {
        assert forall|i: int| 0 <= i < r.len() implies r[i] != '\\' by {
            assert(r[i] == n[i + 4]);
        }
    }
}

proof fn lemma_trim_start_char_suffix(s: Seq<char>, c: char)
    ensures
        trim_start_char(s, c).len() <= s.len(),
        trim_start_char(s, c) == s.skip(s.len() - trim_start_char(s, c).len()),
    decreases s.len(),
{
    if s.len() > 0 && s[0] == c {
        lemma_trim_start_char_suffix(s.drop_first(), c);
        let t = trim_start_char(s.drop_first(), c);
        assert(s.drop_first().skip(s.drop_first().len() - t.len()) =~= s.skip(s.len() - t.len()));
    } else {
        assert(s.skip(0) =~= s);
    }
}

/// Diagnostic paths use forward slashes: a project-relative path never
/// contains a backslash, whatever separators its inputs used.
pub proof fn relative_paths_use_forward_slashes(project: Seq<char>, path: Seq<char>)
    ensures
        !has_char(relative_path(project, path), '\\'),
{
    let full = normalize_separators(path);
    lemma_normalized_no_backslash(path);
    let root = trim_end_char(normalize_separators(project), '/');
    let n = root.len();
    let r = relative_path(project, path);
    if n <= full.len() {
        let suffix = full.skip(n as int);
        lemma_trim_start_char_suffix(suffix, '/');
        assert forall|i: int| 0 <= i < trim_start_char(suffix, '/').len() implies trim_start_char(suffix, '/')[i] != '\\' by {
            let t = trim_start_char(suffix, '/');
            assert(t[i] == suffix[suffix.len() - t.len() + i]);
            assert(suffix[suffix.len() - t.len() + i] == full[n + suffix.len() - t.len() + i]);
        }
    }
}

/// A file below the project root is reported by its path below the root:
/// for a normalized root without a trailing slash and a normalized path
/// `root/rel`, the project-relative path is `rel`.
pub proof fn relative_path_strips_the_project_root(project: Seq<char>, rel: Seq<char>)
    requires
        project.len() > 0,
        project.last() != '/',
        rel.len() == 0 || rel[0] != '/',
        normalize_separators(project) == project,
        normalize_separators(project + "/"@ + rel) == project + "/"@ + rel,
    ensures
        relative_path(project, project + "/"@ + rel) == rel,
{
    reveal_strlit("/");
    let full = project + "/"@ + rel;
    assert(trim_end_char(project, '/') == project);
    let n = project.len();
    assert(full.take(n as int) =~= project);
    let suffix = full.skip(n as int);
    assert(suffix =~= "/"@ + rel);
    assert(suffix[0] == '/');
    assert(suffix.drop_first() =~= rel);
    assert(trim_start_char(suffix, '/') == trim_start_char(rel, '/'));
    assert(trim_start_char(rel, '/') == rel);
    if is_windows(project) && is_windows(full) {
        assert(crate::paths::eq_ignore_ascii_case(full.take(n as int), project));
    }
}

proof fn lemma_text_less_asymmetric(a: Seq<char>, b: Seq<char>)
    ensures
        text_less(a, b) ==> !text_less(b, a),
    decreases a.len(),
{
    if a.len() > 0 && b.len() > 0 && a[0] == b[0] {
        lemma_text_less_asymmetric(a.drop_first(), b.drop_first());
    }
}

proof fn lemma_text_less_transitive(a: Seq<char>, b: Seq<char>, c: Seq<char>)
    ensures
        text_less(a, b) && text_less(b, c) ==> text_less(a, c),
    decreases a.len(),
{
    if a.len() > 0 && b.len() > 0 && c.len() > 0 && a[0] == b[0] && b[0] == c[0] {
        lemma_text_less_transitive(a.drop_first(), b.drop_first(), c.drop_first());
    }
}

proof fn lemma_segments_less_asymmetric(a: Seq<Seq<char>>, b: Seq<Seq<char>>)
    ensures
        segments_less(a, b) ==> !segments_less(b, a),
    decreases a.len(),
{
    if a.len() > 0 && b.len() > 0 {
        if a[0] == b[0] {
            lemma_segments_less_asymmetric(a.drop_first(), b.drop_first());
        } else {
            lemma_text_less_asymmetric(a[0], b[0]);
        }
    }
}

proof fn lemma_segments_less_transitive(a: Seq<Seq<char>>, b: Seq<Seq<char>>, c: Seq<Seq<char>>)
    ensures
        segments_less(a, b) && segments_less(b, c) ==> segments_less(a, c),
    decreases a.len(),
{
    if a.len() > 0 && b.len() > 0 && c.len() > 0 {
        if a[0] == b[0] && b[0] == c[0] {
            lemma_segments_less_transitive(a.drop_first(), b.drop_first(), c.drop_first());
        } else {
            lemma_text_less_transitive(a[0], b[0], c[0]);
            lemma_text_less_asymmetric(a[0], b[0]);
            lemma_text_less_asymmetric(b[0], c[0]);
            if a[0] == c[0] {
                lemma_text_less_asymmetric(a[0], b[0]);
            }
        }
    }
}

proof fn lemma_path_less_order(a: Seq<char>, b: Seq<char>, c: Seq<char>)
    ensures
        path_less(a, b) ==> !path_less(b, a),
        path_less(a, b) && path_less(b, c) ==> path_less(a, c),
{
    lemma_segments_less_asymmetric(crate::paths::segments(a), crate::paths::segments(b));
    lemma_segments_less_transitive(crate::paths::segments(a), crate::paths::segments(b), crate::paths::segments(c));
}

/// Whether paths are in ascending `Path` order: no path is less than one
/// before it.
pub open spec fn paths_sorted(s: Seq<Seq<char>>) -> bool {
    forall|i: int, j: int| 0 <= i < j < s.len() ==> !path_less(#[trigger] s[j], #[trigger] s[i])
}

proof fn lemma_insert_index(t: Seq<Seq<char>>, x: Seq<char>) -> (i: int)
    ensures
        0 <= i <= t.len(),
        insert_path(t, x) == t.insert(i, x),
        forall|k: int| 0 <= k < i ==> !path_less(x, #[trigger] t[k]),
        i < t.len() ==> path_less(x, t[i]),
    decreases t.len(),
{
    if t.len() == 0 {
        assert(t.insert(0, x) =~= seq![x]);
        0
    } else if path_less(x, t[0]) {
        assert(t.insert(0, x) =~= seq![x] + t);
        0
    } else {
        let j = lemma_insert_index(t.drop_first(), x);
        assert(t.insert(j + 1, x) =~= seq![t[0]] + t.drop_first().insert(j, x));
        assert forall|k: int| 0 <= k < j + 1 implies !path_less(x, #[trigger] t[k]) by {
            if k > 0 {
                assert(t[k] == t.drop_first()[k - 1]);
            }
        }
        j + 1
    }
}

proof fn lemma_insert_keeps_order(t: Seq<Seq<char>>, x: Seq<char>)
    requires
        paths_sorted(t),
    ensures
        paths_sorted(insert_path(t, x)),
        insert_path(t, x).to_multiset() == t.to_multiset().insert(x),
{
    let i = lemma_insert_index(t, x);
    let r = t.insert(i, x);
    vstd::seq_lib::to_multiset_insert(t, i, x);
    assert forall|a: int, b: int| 0 <= a < b < r.len() implies !path_less(#[trigger] r[b], #[trigger] r[a]) by {
        if b < i {
            assert(r[a] == t[a] && r[b] == t[b]);
        } else if b == i {
            assert(r[a] == t[a]);
        } else if a > i {
            assert(r[a] == t[a - 1] && r[b] == t[b - 1]);
        } else if a == i {
            assert(r[b] == t[b - 1]);
            lemma_path_less_order(t[b - 1], x, t[i]);
            lemma_path_less_order(x, t[i], t[b - 1]);
        } else {
            assert(r[a] == t[a] && r[b] == t[b - 1]);
        }
    }
}

/// The Rust files of a tree are reported in a deterministic order: sorting
/// puts paths in ascending `Path` order and keeps exactly the paths it was
/// given.
pub proof fn sorted_paths_are_ordered_and_complete(s: Seq<Seq<char>>)
    ensures
        paths_sorted(sort_paths(s)),
        sort_paths(s).to_multiset() == s.to_multiset(),
    decreases s.len(),
{
    if s.len() > 0 {
        sorted_paths_are_ordered_and_complete(s.drop_last());
        lemma_insert_keeps_order(sort_paths(s.drop_last()), s.last());
        vstd::seq_lib::to_multiset_build(s.drop_last(), s.last());
        assert(s.drop_last().push(s.last()) =~= s);
    } else {
        assert(sort_paths(s) =~= s);
    }
}

} // verus!

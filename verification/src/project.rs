//! Checking a whole project: which trees are walked, which rules apply to
//! each file, and the opt-in source/test pairing rule.
//!
//! The project is given as a snapshot of plain values: the trees that were
//! walked (entries in walk order, with the text of each Rust file), the
//! exception file, Cargo workspace metadata when it is needed, and the
//! opt-in environment switches.

use vstd::prelude::*;

use crate::diagnostic::report;
use crate::diagnostic::views;
use crate::diagnostic::Diagnostic;
use crate::diagnostic::DiagnosticView;
use crate::error::StyleError;
use crate::error::StyleErrorView;
use crate::error::exceptions_file;
use crate::exceptions::validation;
use crate::exceptions::allowed;
use crate::exceptions::exception_views;
use crate::exceptions::ExceptionConfig;
use crate::exceptions::ExceptionView;
use crate::paths::components_below;
use crate::paths::file_name;
use crate::paths::is_rust_path;
use crate::paths::join;
use crate::paths::parent;
use crate::paths::relative_path;
use crate::paths::render;
use crate::paths::same_path;
use crate::paths::segments;
use crate::paths::sort_paths;
use crate::paths::stem_of;
use crate::paths::with_file_name;
use crate::paths::with_rust_extension;
use crate::rules::common_reports;
use crate::rules::source_file_reports;
use crate::rules::test_file_reports;
use crate::syntax::only_type_aliases;
use crate::syntax::rust_items;
use crate::text::contains;
use crate::text::chars_eq_str;
use crate::text::chars_of;
use crate::text::string_of;

verus! {

/// One entry of a directory walk, in walk order.
#[derive(Debug, Clone)]
pub enum WalkEntry {
    /// A directory (the walked root comes first).
    Directory { path: String },
    /// A regular file; `text` holds the contents of a Rust file, or `None`
    /// when a Rust file could not be read as UTF-8 text.  Other files have
    /// no text.
    File { path: String, text: Option<String> },
    /// Anything else, such as a symbolic link.  `follows_to_file` tells
    /// whether the path, following links, names a regular file; `text`
    /// then holds the contents of such a Rust file (`None` when it is not
    /// one, or could not be read as UTF-8 text).
    Other { path: String, follows_to_file: bool, text: Option<String> },
    /// The walk could not read an entry.
    Failed,
}

/// A walked directory tree.  Directories named `target` or `.git` are not
/// descended into (see [`is_skipped_directory_name`]).
#[derive(Debug, Clone)]
pub struct WalkedTree {
    /// The path that was walked.
    pub root: String,
    /// Whether that path is a directory.
    pub is_dir: bool,
    /// The entries of the walk, in order; empty when `root` is not a
    /// directory.
    pub entries: Vec<WalkEntry>,
}

/// How the project's exception file was found.
#[derive(Debug, Clone)]
pub enum ExceptionSource {
    /// There is no `.infra/style/exceptions.toml` file.
    Absent,
    /// The file exists but could not be read.
    Unreadable,
    /// The file is not valid TOML of the expected shape.
    Malformed,
    /// The parsed file; `targets[i]` tells whether the path of exception
    /// `i` names an existing file of the project.
    Loaded { config: ExceptionConfig, targets: Vec<bool> },
}

/// One package of Cargo metadata.
#[derive(Debug, Clone)]
pub struct CargoPackage {
    /// Stable package identifier used by workspace membership lists.
    pub id: String,
    /// Manifest path reported by Cargo.
    pub manifest_path: String,
}

/// The Cargo metadata needed to locate workspace packages.
#[derive(Debug, Clone)]
pub struct CargoMetadata {
    /// Package records returned by Cargo.
    pub packages: Vec<CargoPackage>,
    /// Workspace members selected by Cargo as default targets.
    pub workspace_default_members: Vec<String>,
    /// All workspace members reported by Cargo.
    pub workspace_members: Vec<String>,
}

/// A view of a project taken for one style check.
#[derive(Debug, Clone)]
pub struct ProjectSnapshot {
    /// Project root, with forward slashes.
    pub root: String,
    /// Whether `Cargo.toml` is a file of the project root.
    pub has_manifest: bool,
    /// Whether `fuzz/Cargo.toml` is a file of the project root.
    pub has_fuzz_manifest: bool,
    /// Whether paths follow Windows rules (the host is Windows).
    pub windows_paths: bool,
    /// The value of `RS_INFRA_STYLE_TOOLCHAIN`, if set.
    pub formatter_toolchain: Option<String>,
    /// The value of `RS_INFRA_STYLE_RUSTFMT_CONFIG`, if set.
    pub formatter_config: Option<String>,
    /// The project's exception file.
    pub exceptions: ExceptionSource,
    /// Cargo workspace metadata, or why it could not be obtained; `None`
    /// when it was not collected.
    pub workspace: Option<Result<CargoMetadata, String>>,
    /// The value of `STYLE_ENFORCE_SOURCE_TEST_PAIRS`, if set.
    pub source_test_pairs_switch: Option<String>,
    /// The value of `STYLE_ENFORCE_INLINE_TESTS`, if set.
    pub inline_tests_switch: Option<String>,
    /// The walked trees.
    pub trees: Vec<WalkedTree>,
}

/// The role of a walked tree.
#[derive(Debug, Clone, Copy, PartialEq, Eq)]
pub enum RootKind {
    /// Production source files.
    Source,
    /// External or crate-internal test files.
    Tests,
    /// Benchmarks, fuzz targets, examples, and other project-owned Rust files.
    Other,
}

/// The value of a boolean switch: `0`/`false` and `1`/`true` in
/// lower, capitalized or upper case; anything else, or no value, gives the
/// default.
pub open spec fn switch_value(value: Option<Seq<char>>, default: bool) -> bool {
    match value {
        Some(v) => if v == "0"@ || v == "false"@ || v == "False"@ || v == "FALSE"@ {
            false
        } else if v == "1"@ || v == "true"@ || v == "True"@ || v == "TRUE"@ {
            true
        } else {
            default
        },
        None => default,
    }
}

/// Directories that walks do not descend into.
pub open spec fn is_skipped_name(name: Seq<char>) -> bool {
    name == "target"@ || name == ".git"@
}

/// The view of an optional string.
pub open spec fn opt_view(s: Option<String>) -> Option<Seq<char>> {
    match s {
        Some(t) => Some(t@),
        None => None,
    }
}

/// The index of the first tree walked at path `p`, from index `k` on.
pub open spec fn tree_index_from(trees: Seq<WalkedTree>, p: Seq<char>, k: int) -> Option<int>
    decreases trees.len() - k,
{
    if k < 0 || k >= trees.len() {
        None
    } else if same_path(trees[k].root@, p) {
        Some(k)
    } else {
        tree_index_from(trees, p, k + 1)
    }
}

/// The first tree walked at path `p`.
pub open spec fn tree_at(trees: Seq<WalkedTree>, p: Seq<char>) -> Option<WalkedTree> {
    match tree_index_from(trees, p, 0) {
        Some(k) => Some(trees[k]),
        None => None,
    }
}

/// Whether `p` is a directory: a tree walked there says so.
pub open spec fn is_dir(trees: Seq<WalkedTree>, p: Seq<char>) -> bool {
    match tree_at(trees, p) {
        Some(t) => t.is_dir,
        None => false,
    }
}

/// Whether an entry is a file at path `p`, following links.
pub open spec fn is_file_entry_at(e: WalkEntry, p: Seq<char>) -> bool {
    match e {
        WalkEntry::File { path, .. } => same_path(path@, p),
        WalkEntry::Other { path, follows_to_file, .. } => follows_to_file && same_path(path@, p),
        _ => false,
    }
}

/// Whether some walked tree lists a file at `p`.
pub open spec fn is_file(trees: Seq<WalkedTree>, p: Seq<char>) -> bool {
    exists|k: int, i: int|
        0 <= k < trees.len() && 0 <= i < trees[k].entries@.len() && is_file_entry_at(
            #[trigger] trees[k].entries@[i],
            p,
        )
}

/// The text recorded for the first file at `p` (following links) among the
/// entries from index `i` on; `Some(None)` when that file has no text.
pub open spec fn text_in_entries(entries: Seq<WalkEntry>, p: Seq<char>, i: int) -> Option<Option<Seq<char>>>
    decreases entries.len() - i,
{
    if i < 0 || i >= entries.len() {
        None
    } else {
        match entries[i] {
            WalkEntry::File { path, text } => if same_path(path@, p) {
                Some(opt_view(text))
            } else {
                text_in_entries(entries, p, i + 1)
            },
            WalkEntry::Other { path, follows_to_file, text } => if follows_to_file && same_path(path@, p) {
                Some(opt_view(text))
            } else {
                text_in_entries(entries, p, i + 1)
            },
            _ => text_in_entries(entries, p, i + 1),
        }
    }
}

/// The text of the first file at `p` in the trees from index `k` on.
pub open spec fn text_in_trees(trees: Seq<WalkedTree>, p: Seq<char>, k: int) -> Option<Seq<char>>
    decreases trees.len() - k,
{
    if k < 0 || k >= trees.len() {
        None
    } else {
        match text_in_entries(trees[k].entries@, p, 0) {
            Some(t) => t,
            None => text_in_trees(trees, p, k + 1),
        }
    }
}

/// The text of the file at `p`, if it was read.
pub open spec fn file_text(trees: Seq<WalkedTree>, p: Seq<char>) -> Option<Seq<char>> {
    text_in_trees(trees, p, 0)
}


/// Chains two outcomes: the first error wins; otherwise the diagnostics
/// are concatenated.
pub open spec fn chain(
    a: Result<Seq<DiagnosticView>, StyleErrorView>,
    b: Result<Seq<DiagnosticView>, StyleErrorView>,
) -> Result<Seq<DiagnosticView>, StyleErrorView> {
    match a {
        Err(e) => Err(e),
        Ok(x) => match b {
            Err(e) => Err(e),
            Ok(y) => Ok(x + y),
        },
    }
}

/// The project's exceptions, or the error that stops the check.
pub open spec fn exceptions_outcome(root: Seq<char>, source: ExceptionSource, windows: bool) -> Result<Seq<ExceptionView>, StyleErrorView> {
    match source {
        ExceptionSource::Absent => Ok(seq![]),
        ExceptionSource::Unreadable => Err(StyleErrorView::ExceptionsUnreadable(join(root, exceptions_file()))),
        ExceptionSource::Malformed => Err(StyleErrorView::ExceptionsMalformed(join(root, exceptions_file()))),
        ExceptionSource::Loaded { config, targets } => match validation(
            config.format,
            exception_views(config.exceptions@),
            targets@,
            windows,
        ) {
            Ok(()) => Ok(exception_views(config.exceptions@)),
            Err(e) => Err(e),
        },
    }
}

/// The package identifiers that the workspace selects: the default members,
/// or all members when there are no default members.
pub open spec fn selected_ids(meta: CargoMetadata) -> Seq<String> {
    if meta.workspace_default_members@.len() == 0 {
        meta.workspace_members@
    } else {
        meta.workspace_default_members@
    }
}

/// Whether a package is selected: every package is when no identifier is
/// listed.
pub open spec fn is_selected(ids: Seq<String>, id: Seq<char>) -> bool {
    ids.len() == 0 || exists|i: int| 0 <= i < ids.len() && (#[trigger] ids[i])@ == id
}

/// The source and test roots of the selected packages from index `i` on:
/// `src` and `tests` beside each manifest.
pub open spec fn workspace_roots_from(packages: Seq<CargoPackage>, ids: Seq<String>, i: int) -> Seq<(Seq<char>, Seq<char>)>
    decreases packages.len() - i,
{
    if i < 0 || i >= packages.len() {
        seq![]
    } else {
        (if is_selected(ids, packages[i].id@) {
            match parent(packages[i].manifest_path@) {
                Some(dir) => seq![(join(dir, "src"@), join(dir, "tests"@))],
                None => seq![],
            }
        } else {
            seq![]
        }) + workspace_roots_from(packages, ids, i + 1)
    }
}

/// The source and test roots of the workspace's selected packages.
pub open spec fn workspace_roots(meta: CargoMetadata) -> Seq<(Seq<char>, Seq<char>)> {
    workspace_roots_from(meta.packages@, selected_ids(meta), 0)
}

/// Whether the roots come from Cargo workspace metadata: no directory was
/// given and the project has a manifest.
pub open spec fn uses_workspace(has_manifest: bool, source_dir: Option<Seq<char>>, test_dir: Option<Seq<char>>) -> bool {
    source_dir is None && test_dir is None && has_manifest
}

/// The (source, tests) roots to check.  Given directories are resolved
/// against the project root (defaults `src` and `tests`); without them,
/// a Cargo project uses its workspace packages and any other project its
/// own `src` and `tests`.
pub open spec fn package_roots(
    snap: ProjectSnapshot,
    source_dir: Option<Seq<char>>,
    test_dir: Option<Seq<char>>,
) -> Result<Seq<(Seq<char>, Seq<char>)>, StyleErrorView> {
    let root = snap.root@;
    if source_dir is Some || test_dir is Some {
        Ok(seq![(join(root, match source_dir { Some(d) => d, None => "src"@ }), join(root, match test_dir { Some(d) => d, None => "tests"@ }))])
    } else if snap.has_manifest {
        match snap.workspace {
            None => Err(StyleErrorView::Metadata("cargo metadata was not collected"@)),
            Some(Err(m)) => Err(StyleErrorView::Metadata(m@)),
            Some(Ok(meta)) => Ok(workspace_roots(meta)),
        }
    } else {
        Ok(seq![(join(root, "src"@), join(root, "tests"@))])
    }
}

/// Whether a path lies in the `tests` directory just below `root`.
pub open spec fn under_tests_dir(root: Seq<char>, path: Seq<char>) -> bool {
    match components_below(root, path) {
        Some(c) => c.len() > 0 && c[0] == "tests"@,
        None => false,
    }
}

/// The diagnostics of one Rust file of a tree of the given kind.
pub open spec fn file_reports(
    kind: RootKind,
    project: Seq<char>,
    path: Seq<char>,
    text: Seq<char>,
    ex: Seq<ExceptionView>,
    enforce_headers: bool,
    inline_tests: bool,
) -> Seq<DiagnosticView> {
    let relative = relative_path(project, path);
    match kind {
        RootKind::Source => source_file_reports(
            relative,
            stem_of(
                match file_name(path) {
                    Some(n) => n,
                    None => seq![],
                },
            ),
            text,
            enforce_headers,
            inline_tests,
            ex,
        ),
        RootKind::Tests => test_file_reports(relative, text, enforce_headers, ex),
        RootKind::Other => common_reports(relative, crate::text::lines(text), enforce_headers, ex),
    }
}

/// Whether a walk of `root` lists `path`: it lies strictly below the
/// root, no directory between them is named `target` or `.git`, and the
/// root itself is not one of those (see [`is_skipped_directory_name`]).
pub open spec fn listed_in_walk(root: Seq<char>, path: Seq<char>) -> bool {
    &&& !(match file_name(root) {
        Some(n) => is_skipped_name(n),
        None => false,
    })
    &&& match components_below(root, path) {
        Some(c) => c.len() > 0 && forall|k: int| 0 <= k < c.len() - 1 ==> !is_skipped_name(#[trigger] c[k]),
        None => false,
    }
}

/// The outcome of checking the walk entries of `root` from index `i` on.
/// A failed entry or an unreadable Rust file stops the check; source trees
/// skip their `tests` directory; files that are not Rust files, and
/// entries that a walk of `root` does not list, are ignored.
pub open spec fn entries_outcome(
    kind: RootKind,
    project: Seq<char>,
    root: Seq<char>,
    entries: Seq<WalkEntry>,
    i: int,
    ex: Seq<ExceptionView>,
    enforce_headers: bool,
    inline_tests: bool,
) -> Result<Seq<DiagnosticView>, StyleErrorView>
    decreases entries.len() - i,
{
    if i < 0 || i >= entries.len() {
        Ok(seq![])
    } else {
        let rest = entries_outcome(kind, project, root, entries, i + 1, ex, enforce_headers, inline_tests);
        match entries[i] {
            WalkEntry::Failed => Err(StyleErrorView::WalkFailed),
            WalkEntry::File { path, text } => if !listed_in_walk(root, path@) || (kind == RootKind::Source
                && under_tests_dir(root, path@)) || !is_rust_path(path@) {
                rest
            } else {
                match text {
                    None => Err(StyleErrorView::Unreadable(path@)),
                    Some(t) => chain(
                        Ok(file_reports(kind, project, path@, t@, ex, enforce_headers, inline_tests)),
                        rest,
                    ),
                }
            },
            _ => rest,
        }
    }
}

/// The outcome of checking the tree walked at `root`; a path that is not a
/// directory has nothing to check.
#[verifier::opaque]
pub open spec fn root_outcome(
    snap: ProjectSnapshot,
    root: Seq<char>,
    kind: RootKind,
    ex: Seq<ExceptionView>,
    enforce_headers: bool,
    inline_tests: bool,
) -> Result<Seq<DiagnosticView>, StyleErrorView> {
    match tree_at(snap.trees@, root) {
        Some(t) => if t.is_dir {
            entries_outcome(kind, snap.root@, root, t.entries@, 0, ex, enforce_headers, inline_tests)
        } else {
            Ok(seq![])
        },
        None => Ok(seq![]),
    }
}

/// Whether a crate root text connects the internal test tree.
pub open spec fn connects_tests(text: Option<Seq<char>>) -> bool {
    match text {
        Some(t) => contains(t, "#[cfg(test)]"@) && contains(t, "mod tests"@),
        None => false,
    }
}

/// Diagnostics of the internal test module rule (`STYLE012`): an existing
/// `src/tests` tree must be connected from `lib.rs` or `main.rs`.
pub open spec fn internal_module_reports(snap: ProjectSnapshot, ex: Seq<ExceptionView>, source: Seq<char>) -> Seq<DiagnosticView> {
    let trees = snap.trees@;
    let internal = join(source, "tests"@);
    if connects_tests(file_text(trees, join(source, "lib.rs"@))) || connects_tests(
        file_text(trees, join(source, "main.rs"@)),
    ) {
        seq![]
    } else {
        let relative = relative_path(snap.root@, internal);
        if allowed(ex, "internal-test-module"@, relative) {
            seq![]
        } else {
            seq![report("STYLE012"@, relative, 0, "src/tests must be connected from the crate root with #[cfg(test)] mod tests;"@)]
        }
    }
}

/// Whether a walk failed somewhere.
pub open spec fn walk_failed(entries: Seq<WalkEntry>) -> bool {
    exists|i: int| 0 <= i < entries.len() && (#[trigger] entries[i]) is Failed
}

/// The paths of the Rust files among the entries from index `i` on.
pub open spec fn rust_paths(root: Seq<char>, entries: Seq<WalkEntry>, i: int) -> Seq<Seq<char>>
    decreases entries.len() - i,
{
    if i < 0 || i >= entries.len() {
        seq![]
    } else {
        match entries[i] {
            WalkEntry::File { path, .. } => if listed_in_walk(root, path@) && is_rust_path(path@) {
                seq![path@] + rust_paths(root, entries, i + 1)
            } else {
                rust_paths(root, entries, i + 1)
            },
            _ => rust_paths(root, entries, i + 1),
        }
    }
}

/// The Rust files below a directory, in `Path` order.
pub open spec fn rust_files(trees: Seq<WalkedTree>, root: Seq<char>) -> Result<Seq<Seq<char>>, StyleErrorView> {
    match tree_at(trees, root) {
        Some(t) => if !t.is_dir {
            Ok(seq![])
        } else if walk_failed(t.entries@) {
            Err(StyleErrorView::WalkFailed)
        } else {
            Ok(sort_paths(rust_paths(root, t.entries@, 0)))
        },
        None => Ok(seq![]),
    }
}

/// Whether some test file has the given file name.
pub open spec fn names_test_file(test_files: Seq<Seq<char>>, name: Seq<char>) -> bool {
    exists|i: int| 0 <= i < test_files.len() && file_name(#[trigger] test_files[i]) == Some(name)
}

/// A source file's path below the source root.
pub open spec fn below_source(source: Seq<char>, file: Seq<char>) -> Seq<char> {
    match components_below(source, file) {
        Some(c) => render(false, c),
        None => file,
    }
}

/// Whether the module directory made of the first `m` components of `rel`
/// has a module file in the source root and a test file named after it.
pub open spec fn module_has_test(
    trees: Seq<WalkedTree>,
    source: Seq<char>,
    test_files: Seq<Seq<char>>,
    rel: Seq<Seq<char>>,
    m: int,
) -> bool {
    let module = rel[m - 1];
    &&& module != ".."@
    &&& is_file(trees, with_rust_extension(join(source, render(false, rel.take(m)))))
    &&& names_test_file(test_files, module + "_tests.rs"@)
}

/// Whether an enclosing module above the file's own directory has a test
/// file (the file's own directory is not considered).
pub open spec fn parent_module_tested(
    trees: Seq<WalkedTree>,
    source: Seq<char>,
    test_files: Seq<Seq<char>>,
    rel: Seq<Seq<char>>,
) -> bool {
    exists|m: int| 1 <= m && m + 1 < rel.len() && #[trigger] module_has_test(trees, source, test_files, rel, m)
}

/// The file names that need no test file of their own.
pub open spec fn exempt_from_pairing(name: Seq<char>) -> bool {
    name == "lib.rs"@ || name == "main.rs"@ || name == "mod.rs"@ || name == "macros.rs"@
        || "_tests.rs"@.is_suffix_of(name)
}

/// Whether a file holds only type aliases (and parses).
pub open spec fn alias_only(text: Seq<char>) -> bool {
    match rust_items(text) {
        Some(items) => only_type_aliases(items),
        None => false,
    }
}

/// The outcome of the pairing rule for one source file (`STYLE014`).
pub open spec fn pair_outcome(
    snap: ProjectSnapshot,
    ex: Seq<ExceptionView>,
    source: Seq<char>,
    tests: Seq<char>,
    test_files: Seq<Seq<char>>,
    file: Seq<char>,
) -> Result<Seq<DiagnosticView>, StyleErrorView> {
    let trees = snap.trees@;
    let relative = relative_path(snap.root@, file);
    let name = match file_name(file) {
        Some(n) => n,
        None => seq![],
    };
    if exempt_from_pairing(name) || allowed(ex, "source-test-pair"@, relative) {
        Ok(seq![])
    } else {
        match file_text(trees, file) {
            None => Err(StyleErrorView::Unreadable(file)),
            Some(text) => if alias_only(text) {
                Ok(seq![])
            } else {
                let expected_name = stem_of(name) + "_tests.rs"@;
                let rel = below_source(source, file);
                let expected = with_file_name(join(tests, rel), expected_name);
                let sibling = with_file_name(file, expected_name);
                if !is_file(trees, expected) && !names_test_file(test_files, expected_name) && !is_file(
                    trees,
                    sibling,
                ) && !parent_module_tested(trees, source, test_files, segments(rel)) {
                    Ok(seq![report("STYLE014"@, relative, 0, "missing corresponding test file 'tests/"@ + expected_name + "'"@)])
                } else {
                    Ok(seq![])
                }
            },
        }
    }
}

/// The outcome of the pairing rule for the source files from index `i` on.
pub open spec fn pairs_from(
    snap: ProjectSnapshot,
    ex: Seq<ExceptionView>,
    source: Seq<char>,
    tests: Seq<char>,
    test_files: Seq<Seq<char>>,
    files: Seq<Seq<char>>,
    i: int,
) -> Result<Seq<DiagnosticView>, StyleErrorView>
    decreases files.len() - i,
{
    if i < 0 || i >= files.len() {
        Ok(seq![])
    } else {
        chain(
            pair_outcome(snap, ex, source, tests, test_files, files[i]),
            pairs_from(snap, ex, source, tests, test_files, files, i + 1),
        )
    }
}

/// The outcome of the opt-in pairing rule for one package: every source
/// file needs a corresponding test file.
#[verifier::opaque]
pub open spec fn source_test_pairs_outcome(
    snap: ProjectSnapshot,
    ex: Seq<ExceptionView>,
    source: Seq<char>,
    tests: Seq<char>,
) -> Result<Seq<DiagnosticView>, StyleErrorView> {
    let trees = snap.trees@;
    if !switch_value(opt_view(snap.source_test_pairs_switch), false) || !is_dir(trees, source)
        || !is_dir(trees, tests) {
        Ok(seq![])
    } else {
        match rust_files(trees, tests) {
            Err(e) => Err(e),
            Ok(test_files) => match rust_files(trees, source) {
                Err(e) => Err(e),
                Ok(files) => pairs_from(snap, ex, source, tests, test_files, files, 0),
            },
        }
    }
}

/// The directory that holds a package's source root.
pub open spec fn package_dir(source: Seq<char>) -> Seq<char> {
    match parent(source) {
        Some(p) => p,
        None => source,
    }
}

/// The outcome of the internal test tree `source/tests`, when it is a
/// directory: the internal module rule, then its test files.
#[verifier::opaque]
pub open spec fn internal_part(
    snap: ProjectSnapshot,
    ex: Seq<ExceptionView>,
    source: Seq<char>,
    enforce_headers: bool,
    inline_tests: bool,
) -> Result<Seq<DiagnosticView>, StyleErrorView> {
    let internal = join(source, "tests"@);
    if is_dir(snap.trees@, internal) {
        chain(
            Ok(internal_module_reports(snap, ex, source)),
            root_outcome(snap, internal, RootKind::Tests, ex, enforce_headers, inline_tests),
        )
    } else {
        Ok(seq![])
    }
}

/// The outcome of the external test tree, unless it is the internal one.
#[verifier::opaque]
pub open spec fn tests_part(
    snap: ProjectSnapshot,
    ex: Seq<ExceptionView>,
    source: Seq<char>,
    tests: Seq<char>,
    enforce_headers: bool,
    inline_tests: bool,
) -> Result<Seq<DiagnosticView>, StyleErrorView> {
    if !same_path(tests, join(source, "tests"@)) {
        root_outcome(snap, tests, RootKind::Tests, ex, enforce_headers, inline_tests)
    } else {
        Ok(seq![])
    }
}

/// The outcome of checking one package: its source tree, its internal test
/// tree (when present), its external test tree (when distinct), its
/// `benches`, `fuzz` and `examples` trees, and the pairing rule.
pub open spec fn package_outcome(
    snap: ProjectSnapshot,
    ex: Seq<ExceptionView>,
    source: Seq<char>,
    tests: Seq<char>,
    enforce_headers: bool,
    inline_tests: bool,
) -> Result<Seq<DiagnosticView>, StyleErrorView> {
    let dir = package_dir(source);
    chain(
        root_outcome(snap, source, RootKind::Source, ex, enforce_headers, inline_tests),
        chain(
            internal_part(snap, ex, source, enforce_headers, inline_tests),
            chain(
                tests_part(snap, ex, source, tests, enforce_headers, inline_tests),
                chain(
                    root_outcome(snap, join(dir, "benches"@), RootKind::Other, ex, enforce_headers, inline_tests),
                    chain(
                        root_outcome(snap, join(dir, "fuzz"@), RootKind::Other, ex, enforce_headers, inline_tests),
                        chain(
                            root_outcome(snap, join(dir, "examples"@), RootKind::Other, ex, enforce_headers, inline_tests),
                            source_test_pairs_outcome(snap, ex, source, tests),
                        ),
                    ),
                ),
            ),
        ),
    )
}

/// The outcome of checking the packages from index `i` on.
pub open spec fn packages_from(
    snap: ProjectSnapshot,
    ex: Seq<ExceptionView>,
    roots: Seq<(Seq<char>, Seq<char>)>,
    i: int,
    enforce_headers: bool,
    inline_tests: bool,
) -> Result<Seq<DiagnosticView>, StyleErrorView>
    decreases roots.len() - i,
{
    if i < 0 || i >= roots.len() {
        Ok(seq![])
    } else {
        chain(
            package_outcome(snap, ex, roots[i].0, roots[i].1, enforce_headers, inline_tests),
            packages_from(snap, ex, roots, i + 1, enforce_headers, inline_tests),
        )
    }
}

/// The outcome of checking the selected packages with the given
/// exceptions.  Headers are enforced in Cargo projects; the inline test
/// rule follows its switch.
pub open spec fn outcome_with_exceptions(
    snap: ProjectSnapshot,
    ex: Seq<ExceptionView>,
    source_dir: Option<Seq<char>>,
    test_dir: Option<Seq<char>>,
) -> Result<Seq<DiagnosticView>, StyleErrorView> {
    match package_roots(snap, source_dir, test_dir) {
        Err(e) => Err(e),
        Ok(roots) => packages_from(
            snap,
            ex,
            roots,
            0,
            snap.has_manifest,
            switch_value(opt_view(snap.inline_tests_switch), false),
        ),
    }
}

/// The outcome of a style check: the diagnostics of every selected
/// package, or the first error met.
pub open spec fn check_outcome(
    snap: ProjectSnapshot,
    source_dir: Option<Seq<char>>,
    test_dir: Option<Seq<char>>,
) -> Result<Seq<DiagnosticView>, StyleErrorView> {
    match exceptions_outcome(snap.root@, snap.exceptions, snap.windows_paths) {
        Err(e) => Err(e),
        Ok(ex) => outcome_with_exceptions(snap, ex, source_dir, test_dir),
    }
}


/// Whether a change of diagnostics from `before` to `after` is what a
/// successful outcome reports.
pub open spec fn grown(
    before: Seq<DiagnosticView>,
    after: Seq<DiagnosticView>,
    outcome: Result<Seq<DiagnosticView>, StyleErrorView>,
) -> bool {
    match outcome {
        Ok(d) => after == before + d,
        Err(_) => false,
    }
}

/// Reads a boolean style switch from its value.
pub fn env_flag(value: Option<&str>, default: bool) -> (r: bool)
    ensures
        r == switch_value(
            match value {
                Some(v) => Some(v@),
                None => None,
            },
            default,
        ),
{
    match value {
        Some(v) => {
            let c = chars_of(v);
            if chars_eq_str(&c, "0") || chars_eq_str(&c, "false") || chars_eq_str(&c, "False")
                || chars_eq_str(&c, "FALSE") {
                false
            } else if chars_eq_str(&c, "1") || chars_eq_str(&c, "true") || chars_eq_str(&c, "True")
                || chars_eq_str(&c, "TRUE") {
                true
            } else {
                default
            }
        },
        None => default,
    }
}

/// Reads a switch recorded in a snapshot.
fn switch_on(value: &Option<String>) -> (r: bool)
    ensures
        r == switch_value(opt_view(*value), false),
{
    match value {
        Some(v) => env_flag(Some(v.as_str()), false),
        None => env_flag(None, false),
    }
}

/// Whether a walk skips a directory of this name (`target`, `.git`).
pub fn is_skipped_directory_name(name: &str) -> (r: bool)
    ensures
        r == is_skipped_name(name@),
{
    let c = chars_of(name);
    chars_eq_str(&c, "target") || chars_eq_str(&c, ".git")
}

/// The index of the first tree walked at path `p`.
fn tree_index(trees: &Vec<WalkedTree>, p: &Vec<char>) -> (r: Option<usize>)
    ensures
        match r {
            Some(k) => tree_index_from(trees@, p@, 0) == Some(k as int) && k < trees.len(),
            None => tree_index_from(trees@, p@, 0) is None,
        },
{
    let mut k: usize = 0;
    while k < trees.len()
        invariant
            k <= trees.len(),
            tree_index_from(trees@, p@, 0) == tree_index_from(trees@, p@, k as int),
        decreases trees.len() - k,
    {
        let root = chars_of(trees[k].root.as_str());
        if crate::paths::same_path_exec(&root, p) {
            return Some(k);
        }
        k = k + 1;
    }
    None
}

/// Whether `p` is a directory according to the walked trees.
pub fn dir_exists(trees: &Vec<WalkedTree>, p: &Vec<char>) -> (r: bool)
    ensures
        r == is_dir(trees@, p@),
{
    match tree_index(trees, p) {
        Some(k) => trees[k].is_dir,
        None => false,
    }
}

/// Whether some walked tree lists a file at `p`.
pub fn file_exists(trees: &Vec<WalkedTree>, p: &Vec<char>) -> (r: bool)
    ensures
        r == is_file(trees@, p@),
{
    let mut k: usize = 0;
    while k < trees.len()
        invariant
            k <= trees.len(),
            forall|a: int, b: int|
                0 <= a < k && 0 <= b < trees@[a].entries@.len() ==> !is_file_entry_at(
                    #[trigger] trees@[a].entries@[b],
                    p@,
                ),
        decreases trees.len() - k,
    {
        let entries = &trees[k].entries;
        let mut i: usize = 0;
        while i < entries.len()
            invariant
                k < trees.len(),
                entries == &trees@[k as int].entries,
                i <= entries.len(),
                forall|a: int, b: int|
                    0 <= a < k && 0 <= b < trees@[a].entries@.len() ==> !is_file_entry_at(
                        #[trigger] trees@[a].entries@[b],
                        p@,
                    ),
                forall|b: int| 0 <= b < i ==> !is_file_entry_at(#[trigger] entries@[b], p@),
            decreases entries.len() - i,
        {
            match &entries[i] {
                WalkEntry::File { path, .. } => {
                    let c = chars_of(path.as_str());
                    if crate::paths::same_path_exec(&c, p) {
                        assert(is_file_entry_at(trees@[k as int].entries@[i as int], p@));
                        return true;
                    }
                },
                WalkEntry::Other { path, follows_to_file, .. } => {
                    let c = chars_of(path.as_str());
                    if *follows_to_file && crate::paths::same_path_exec(&c, p) {
                        assert(is_file_entry_at(trees@[k as int].entries@[i as int], p@));
                        return true;
                    }
                },
                _ => {},
            }
            i = i + 1;
        }
        k = k + 1;
    }
    false
}

/// The text of the first file at `p` in one walk, if listed.
fn text_in_walk<'a>(entries: &'a Vec<WalkEntry>, p: &Vec<char>) -> (r: Option<&'a Option<String>>)
    ensures
        match r {
            Some(t) => text_in_entries(entries@, p@, 0) == Some(opt_view(*t)),
            None => text_in_entries(entries@, p@, 0) is None,
        },
{
    let mut i: usize = 0;
    while i < entries.len()
        invariant
            i <= entries.len(),
            text_in_entries(entries@, p@, 0) == text_in_entries(entries@, p@, i as int),
        decreases entries.len() - i,
    {
        match &entries[i] {
            WalkEntry::File { path, text } => {
                let c = chars_of(path.as_str());
                if crate::paths::same_path_exec(&c, p) {
                    return Some(text);
                }
            },
            WalkEntry::Other { path, follows_to_file, text } => {
                let c = chars_of(path.as_str());
                if *follows_to_file && crate::paths::same_path_exec(&c, p) {
                    return Some(text);
                }
            },
            _ => {},
        }
        i = i + 1;
    }
    None
}

/// The text of the file at `p`, if it was read.
pub fn read_text<'a>(trees: &'a Vec<WalkedTree>, p: &Vec<char>) -> (r: Option<&'a String>)
    ensures
        match r {
            Some(t) => file_text(trees@, p@) == Some(t@),
            None => file_text(trees@, p@) is None,
        },
{
    let mut k: usize = 0;
    while k < trees.len()
        invariant
            k <= trees.len(),
            file_text(trees@, p@) == text_in_trees(trees@, p@, k as int),
        decreases trees.len() - k,
    {
        match text_in_walk(&trees[k].entries, p) {
            Some(t) => {
                return match t {
                    Some(s) => Some(s),
                    None => None,
                };
            },
            None => {},
        }
        k = k + 1;
    }
    None
}


proof fn lemma_chain_ok(acc: Seq<DiagnosticView>, d: Seq<DiagnosticView>, rest: Result<Seq<DiagnosticView>, StyleErrorView>)
    ensures
        chain(Ok(acc), chain(Ok(d), rest)) == chain(Ok(acc + d), rest),
{
    match rest {
        Ok(y) => {
            assert(acc + (d + y) =~= (acc + d) + y);
        },
        Err(_) => {},
    }
}

proof fn lemma_chain_empty(acc: Seq<DiagnosticView>)
    ensures
        chain(Ok(acc), Ok(seq![])) == Ok::<Seq<DiagnosticView>, StyleErrorView>(acc),
{
    assert(acc + seq![] =~= acc);
}

/// Whether a path lies in the `tests` directory just below `root`.
fn in_tests_dir(root: &Vec<char>, path: &Vec<char>) -> (r: bool)
    ensures
        r == under_tests_dir(root@, path@),
{
    match crate::paths::components_below_exec(root, path) {
        Some(c) => {
            if c.len() == 0 {
                return false;
            }
            assert(crate::text::views_of(c@)[0] == c@[0]@);
            chars_eq_str(&c[0], "tests")
        },
        None => false,
    }
}

/// Whether a directory name is one that walks skip.
fn skipped_name(name: &Vec<char>) -> (r: bool)
    ensures
        r == is_skipped_name(name@),
{
    chars_eq_str(name, "target") || chars_eq_str(name, ".git")
}

/// Whether a walk of `root` lists `path`.
fn listed_in_walk_exec(root: &Vec<char>, path: &Vec<char>) -> (r: bool)
    ensures
        r == listed_in_walk(root@, path@),
{
    match crate::paths::file_name_exec(root) {
        Some(n) => {
            if skipped_name(&n) {
                return false;
            }
        },
        None => {},
    }
    match crate::paths::components_below_exec(root, path) {
        Some(c) => {
            let ghost cv = crate::text::views_of(c@);
            if c.len() == 0 {
                return false;
            }
            let mut k: usize = 0;
            while k + 1 < c.len()
                invariant
                    k + 1 <= c.len(),
                    cv == crate::text::views_of(c@),
                    components_below(root@, path@) == Some(cv),
                    !(match file_name(root@) {
                        Some(n) => is_skipped_name(n),
                        None => false,
                    }),
                    forall|j: int| 0 <= j < k ==> !is_skipped_name(#[trigger] cv[j]),
                decreases c.len() - k,
            {
                assert(cv[k as int] == c@[k as int]@);
                if skipped_name(&c[k]) {
                    assert(cv.len() == c@.len());
                    assert(components_below(root@, path@) == Some(cv));
                    assert(is_skipped_name(cv[k as int]) && 0 <= k < cv.len() - 1);
                    assert(!(forall|j: int| 0 <= j < cv.len() - 1 ==> !is_skipped_name(#[trigger] cv[j])));
                    return false;
                }
                k = k + 1;
            }
            true
        },
        None => false,
    }
}

/// Applies the rules of a tree's kind to one Rust file.
fn check_file(
    kind: RootKind,
    project: &Vec<char>,
    path: &Vec<char>,
    text: &String,
    exceptions: &ExceptionConfig,
    enforce_headers: bool,
    inline_tests: bool,
    diagnostics: &mut Vec<Diagnostic>,
)
    ensures
        views(final(diagnostics)@) == views(old(diagnostics)@) + file_reports(
            kind,
            project@,
            path@,
            text@,
            exception_views(exceptions.exceptions@),
            enforce_headers,
            inline_tests,
        ),
{
    let relative = crate::paths::relative_path_chars(project, path);
    match kind {
        RootKind::Source => {
            let name = match crate::paths::file_name_exec(path) {
                Some(n) => n,
                None => Vec::new(),
            };
            let stem = crate::paths::stem_exec(&name);
            crate::rules::check_source_file(
                &relative,
                &stem,
                text,
                exceptions,
                enforce_headers,
                inline_tests,
                diagnostics,
            );
        },
        RootKind::Tests => {
            crate::rules::check_test_file(&relative, text, exceptions, enforce_headers, diagnostics);
        },
        RootKind::Other => {
            let chars = chars_of(text.as_str());
            let lines = crate::text::lines_of(&chars);
            crate::rules::check_common_file(&relative, &lines, exceptions, enforce_headers, diagnostics);
        },
    }
}

/// Dispatches each Rust file of a walk to the checks of its role.
fn check_entries(
    kind: RootKind,
    project: &Vec<char>,
    root: &Vec<char>,
    entries: &Vec<WalkEntry>,
    exceptions: &ExceptionConfig,
    enforce_headers: bool,
    inline_tests: bool,
    diagnostics: &mut Vec<Diagnostic>,
) -> (r: Result<(), StyleError>)
    ensures
        match r {
            Ok(()) => grown(
                views(old(diagnostics)@),
                views(final(diagnostics)@),
                entries_outcome(
                    kind,
                    project@,
                    root@,
                    entries@,
                    0,
                    exception_views(exceptions.exceptions@),
                    enforce_headers,
                    inline_tests,
                ),
            ),
            Err(e) => entries_outcome(
                kind,
                project@,
                root@,
                entries@,
                0,
                exception_views(exceptions.exceptions@),
                enforce_headers,
                inline_tests,
            ) == Err::<Seq<DiagnosticView>, StyleErrorView>(e@),
        },
{
    let ghost ex = exception_views(exceptions.exceptions@);
    let ghost start = views(diagnostics@);
    let ghost mut acc: Seq<DiagnosticView> = seq![];
    let mut i: usize = 0;
    assert(start + acc =~= start);
    while i < entries.len()
        invariant
            i <= entries.len(),
            ex == exception_views(exceptions.exceptions@),
            views(diagnostics@) == start + acc,
            entries_outcome(kind, project@, root@, entries@, 0, ex, enforce_headers, inline_tests)
                == chain(
                Ok(acc),
                entries_outcome(kind, project@, root@, entries@, i as int, ex, enforce_headers, inline_tests),
            ),
        decreases entries.len() - i,
    {
        let ghost rest = entries_outcome(kind, project@, root@, entries@, i + 1, ex, enforce_headers, inline_tests);
        match &entries[i] {
            WalkEntry::Failed => {
                return Err(StyleError::WalkFailed);
            },
            WalkEntry::File { path, text } => {
                let pc = chars_of(path.as_str());
                let skip = !listed_in_walk_exec(root, &pc) || (matches!(kind, RootKind::Source)
                    && in_tests_dir(root, &pc)) || !crate::paths::is_rust_path_exec(&pc);
                if !skip {
                    match text {
                        None => {
                            return Err(StyleError::Unreadable(path.clone()));
                        },
                        Some(t) => {
                            let ghost before = views(diagnostics@);
                            check_file(
                                kind,
                                project,
                                &pc,
                                t,
                                exceptions,
                                enforce_headers,
                                inline_tests,
                                diagnostics,
                            );
                            let ghost d = file_reports(kind, project@, pc@, t@, ex, enforce_headers, inline_tests);
                            proof {
                                lemma_chain_ok(acc, d, rest);
                                acc = acc + d;
                            }
                            assert(views(diagnostics@) =~= start + acc);
                        },
                    }
                }
            },
            _ => {},
        }
        i = i + 1;
    }
    proof {
        lemma_chain_empty(acc);
    }
    Ok(())
}

/// Walks a configured root and dispatches each Rust file to its role
/// checks; a root that is not a directory has nothing to check.
fn check_root(
    snap: &ProjectSnapshot,
    project: &Vec<char>,
    root: &Vec<char>,
    kind: RootKind,
    exceptions: &ExceptionConfig,
    enforce_headers: bool,
    inline_tests: bool,
    diagnostics: &mut Vec<Diagnostic>,
) -> (r: Result<(), StyleError>)
    requires
        project@ == snap.root@,
    ensures
        match r {
            Ok(()) => grown(
                views(old(diagnostics)@),
                views(final(diagnostics)@),
                root_outcome(*snap, root@, kind, exception_views(exceptions.exceptions@), enforce_headers, inline_tests),
            ),
            Err(e) => root_outcome(*snap, root@, kind, exception_views(exceptions.exceptions@), enforce_headers, inline_tests)
                == Err::<Seq<DiagnosticView>, StyleErrorView>(e@),
        },
{
    reveal(root_outcome);
    match tree_index(&snap.trees, root) {
        Some(k) => {
            if snap.trees[k].is_dir {
                check_entries(
                    kind,
                    project,
                    root,
                    &snap.trees[k].entries,
                    exceptions,
                    enforce_headers,
                    inline_tests,
                    diagnostics,
                )
            } else {
                assert(views(diagnostics@) =~= views(diagnostics@) + Seq::<DiagnosticView>::empty());
                Ok(())
            }
        },
        None => {
            assert(views(diagnostics@) =~= views(diagnostics@) + Seq::<DiagnosticView>::empty());
            Ok(())
        },
    }
}


/// Whether a crate root text, if read, connects the internal test tree.
fn connects_tests_exec(text: Option<&String>) -> (r: bool)
    ensures
        r == connects_tests(
            match text {
                Some(t) => Some(t@),
                None => None,
            },
        ),
{
    match text {
        Some(t) => {
            let c = chars_of(t.as_str());
            crate::text::contains_str(&c, "#[cfg(test)]") && crate::text::contains_str(&c, "mod tests")
        },
        None => false,
    }
}

/// Verifies that an existing `src/tests` tree is connected to the crate
/// root with `#[cfg(test)] mod tests`.
fn check_internal_test_module(
    snap: &ProjectSnapshot,
    project: &Vec<char>,
    source: &Vec<char>,
    exceptions: &ExceptionConfig,
    diagnostics: &mut Vec<Diagnostic>,
)
    requires
        project@ == snap.root@,
    ensures
        views(final(diagnostics)@) == views(old(diagnostics)@) + internal_module_reports(
            *snap,
            exception_views(exceptions.exceptions@),
            source@,
        ),
{
    let tests_name = chars_of("tests");
    let internal = crate::paths::join_exec(source, &tests_name);
    let lib_name = chars_of("lib.rs");
    let main_name = chars_of("main.rs");
    let lib = crate::paths::join_exec(source, &lib_name);
    let main = crate::paths::join_exec(source, &main_name);
    let has_module = connects_tests_exec(read_text(&snap.trees, &lib)) || connects_tests_exec(
        read_text(&snap.trees, &main),
    );
    if !has_module {
        let relative = crate::paths::relative_path_chars(project, &internal);
        let rule = chars_of("internal-test-module");
        if !exceptions.allows(&rule, &relative) {
            let m = chars_of("src/tests must be connected from the crate root with #[cfg(test)] mod tests;");
            crate::diagnostic::add(diagnostics, "STYLE012", &relative, 0, &m);
            return;
        }
    }
    assert(views(diagnostics@) =~= views(diagnostics@) + Seq::<DiagnosticView>::empty());
}

/// Returns the Rust files below a directory in deterministic order.
fn rust_files_of(trees: &Vec<WalkedTree>, root: &Vec<char>) -> (r: Result<Vec<Vec<char>>, StyleError>)
    ensures
        match r {
            Ok(files) => rust_files(trees@, root@) == Ok::<Seq<Seq<char>>, StyleErrorView>(
                crate::text::views_of(files@),
            ),
            Err(e) => rust_files(trees@, root@) == Err::<Seq<Seq<char>>, StyleErrorView>(e@),
        },
{
    let k = match tree_index(trees, root) {
        Some(k) => k,
        None => {
            let r: Vec<Vec<char>> = Vec::new();
            assert(crate::text::views_of(r@) =~= Seq::<Seq<char>>::empty());
            return Ok(r);
        },
    };
    if !trees[k].is_dir {
        let r: Vec<Vec<char>> = Vec::new();
        assert(crate::text::views_of(r@) =~= Seq::<Seq<char>>::empty());
        return Ok(r);
    }
    let entries = &trees[k].entries;
    let mut files: Vec<Vec<char>> = Vec::new();
    let mut i: usize = 0;
    while i < entries.len()
        invariant
            i <= entries.len(),
            k < trees.len(),
            tree_index_from(trees@, root@, 0) == Some(k as int),
            trees@[k as int].is_dir,
            entries == &trees@[k as int].entries,
            forall|j: int| 0 <= j < i ==> !((#[trigger] entries@[j]) is Failed),
            crate::text::views_of(files@) + rust_paths(root@, entries@, i as int) == rust_paths(root@, entries@, 0),
        decreases entries.len() - i,
    {
        match &entries[i] {
            WalkEntry::Failed => {
                assert(walk_failed(entries@));
                return Err(StyleError::WalkFailed);
            },
            WalkEntry::File { path, .. } => {
                let pc = chars_of(path.as_str());
                if listed_in_walk_exec(root, &pc) && crate::paths::is_rust_path_exec(&pc) {
                    let ghost prev = files@;
                    files.push(pc);
                    assert(crate::text::views_of(files@) =~= crate::text::views_of(prev).push(path@));
                    assert(crate::text::views_of(files@) + rust_paths(root@, entries@, i + 1)
                        =~= crate::text::views_of(prev) + rust_paths(root@, entries@, i as int));
                }
            },
            _ => {},
        }
        i = i + 1;
    }
    assert(crate::text::views_of(files@) =~= crate::text::views_of(files@) + rust_paths(
        root@,
        entries@,
        i as int,
    ));
    Ok(crate::paths::sort_paths_exec(files))
}

/// Identifies files containing only one or more top-level type aliases.
fn type_alias_only(trees: &Vec<WalkedTree>, file: &Vec<char>) -> (r: Result<bool, StyleError>)
    ensures
        match r {
            Ok(b) => file_text(trees@, file@) matches Some(t) && b == alias_only(t),
            Err(e) => file_text(trees@, file@) is None && e@ == StyleErrorView::Unreadable(file@),
        },
{
    match read_text(trees, file) {
        Some(t) => match crate::syntax::parse_rust_items(t.as_str()) {
            Some(items) => Ok(crate::syntax::all_type_aliases(&items)),
            None => Ok(false),
        },
        None => Err(StyleError::Unreadable(crate::text::string_of(file))),
    }
}

/// Whether some test file has the given file name.
fn names_test_file_exec(test_files: &Vec<Vec<char>>, name: &Vec<char>) -> (r: bool)
    ensures
        r == names_test_file(crate::text::views_of(test_files@), name@),
{
    let ghost tf = crate::text::views_of(test_files@);
    let mut i: usize = 0;
    while i < test_files.len()
        invariant
            i <= test_files.len(),
            tf == crate::text::views_of(test_files@),
            forall|j: int| 0 <= j < i ==> file_name(#[trigger] tf[j]) != Some(name@),
        decreases test_files.len() - i,
    {
        assert(tf[i as int] == test_files@[i as int]@);
        match crate::paths::file_name_exec(&test_files[i]) {
            Some(n) => {
                if crate::text::chars_eq(&n, name) {
                    assert(file_name(tf[i as int]) == Some(name@));
                    return true;
                }
            },
            None => {},
        }
        i = i + 1;
    }
    false
}

/// Whether an enclosing module above the file's own directory has a test
/// file.
fn parent_module_tested_exec(
    trees: &Vec<WalkedTree>,
    source: &Vec<char>,
    test_files: &Vec<Vec<char>>,
    rel: &Vec<Vec<char>>,
) -> (r: bool)
    ensures
        r == parent_module_tested(trees@, source@, crate::text::views_of(test_files@), crate::text::views_of(rel@)),
{
    let ghost tf = crate::text::views_of(test_files@);
    let ghost rs = crate::text::views_of(rel@);
    if rel.len() < 2 {
        return false;
    }
    let last = rel.len() - 1;
    let mut m: usize = 1;
    while m < last
        invariant
            1 <= m,
            last + 1 == rel.len(),
            m <= last,
            tf == crate::text::views_of(test_files@),
            rs == crate::text::views_of(rel@),
            forall|j: int| 1 <= j < m ==> !#[trigger] module_has_test(trees@, source@, tf, rs, j),
        decreases last - m,
    {
        let module = &rel[m - 1];
        assert(rs[m - 1] == module@);
        if !chars_eq_str(module, "..") {
            let dir = crate::paths::render_exec(false, rel, m);
            let joined = crate::paths::join_exec(source, &dir);
            let module_source = crate::paths::with_rust_extension_exec(&joined);
            if file_exists(trees, &module_source) {
                let mut test_name = crate::text::slice_chars(module, 0, module.len());
                assert(test_name@ =~= module@);
                let mut suffix = chars_of("_tests.rs");
                test_name.append(&mut suffix);
                if names_test_file_exec(test_files, &test_name) {
                    assert(module_has_test(trees@, source@, tf, rs, m as int));
                    return true;
                }
            }
        }
        m = m + 1;
    }
    false
}

/// Applies the pairing rule to one source file.
fn check_pair(
    snap: &ProjectSnapshot,
    project: &Vec<char>,
    exceptions: &ExceptionConfig,
    source: &Vec<char>,
    tests: &Vec<char>,
    test_files: &Vec<Vec<char>>,
    file: &Vec<char>,
    diagnostics: &mut Vec<Diagnostic>,
) -> (r: Result<(), StyleError>)
    requires
        project@ == snap.root@,
    ensures
        match r {
            Ok(()) => grown(
                views(old(diagnostics)@),
                views(final(diagnostics)@),
                pair_outcome(*snap, exception_views(exceptions.exceptions@), source@, tests@, crate::text::views_of(test_files@), file@),
            ),
            Err(e) => pair_outcome(*snap, exception_views(exceptions.exceptions@), source@, tests@, crate::text::views_of(test_files@), file@)
                == Err::<Seq<DiagnosticView>, StyleErrorView>(e@),
        },
{
    let ghost start = views(diagnostics@);
    let relative = crate::paths::relative_path_chars(project, file);
    let name = match crate::paths::file_name_exec(file) {
        Some(n) => n,
        None => Vec::new(),
    };
    let rule = chars_of("source-test-pair");
    if chars_eq_str(&name, "lib.rs") || chars_eq_str(&name, "main.rs") || chars_eq_str(
        &name,
        "mod.rs",
    ) || chars_eq_str(&name, "macros.rs") || crate::text::ends_with_str(&name, "_tests.rs")
        || exceptions.allows(&rule, &relative) {
        assert(views(diagnostics@) =~= views(diagnostics@) + Seq::<DiagnosticView>::empty());
        return Ok(());
    }
    let alias = type_alias_only(&snap.trees, file)?;
    if alias {
        assert(views(diagnostics@) =~= views(diagnostics@) + Seq::<DiagnosticView>::empty());
        return Ok(());
    }
    let mut expected_name = crate::paths::stem_exec(&name);
    let mut suffix = chars_of("_tests.rs");
    expected_name.append(&mut suffix);
    let rel = match crate::paths::components_below_exec(source, file) {
        Some(c) => crate::paths::render_exec(false, &c, c.len()),
        None => crate::text::slice_chars(file, 0, file.len()),
    };
    proof {
        match components_below(source@, file@) {
            Some(c) => {
                assert(c.take(c.len() as int) =~= c);
            },
            None => {},
        }
    }
    assert(rel@ == below_source(source@, file@));
    let expected_dir = crate::paths::join_exec(tests, &rel);
    let expected = crate::paths::with_file_name_exec(&expected_dir, &expected_name);
    let sibling = crate::paths::with_file_name_exec(file, &expected_name);
    let rel_segments = crate::paths::segments_of(&rel);
    if !file_exists(&snap.trees, &expected) && !names_test_file_exec(test_files, &expected_name)
        && !file_exists(&snap.trees, &sibling) && !parent_module_tested_exec(
        &snap.trees,
        source,
        test_files,
        &rel_segments,
    ) {
        let mut m = chars_of("missing corresponding test file 'tests/");
        let mut n = crate::text::slice_chars(&expected_name, 0, expected_name.len());
        assert(n@ =~= expected_name@);
        m.append(&mut n);
        let mut close = chars_of("'");
        m.append(&mut close);
        assert(m@ =~= "missing corresponding test file 'tests/"@ + expected_name@ + "'"@);
        crate::diagnostic::add(diagnostics, "STYLE014", &relative, 0, &m);
        assert(views(diagnostics@) =~= start + seq![report("STYLE014"@, relative@, 0, m@)]);
    } else {
        assert(views(diagnostics@) =~= views(diagnostics@) + Seq::<DiagnosticView>::empty());
    }
    Ok(())
}

/// Enforces the opt-in source-to-integration-test pairing rule.
fn check_source_test_pairs(
    snap: &ProjectSnapshot,
    project: &Vec<char>,
    exceptions: &ExceptionConfig,
    source: &Vec<char>,
    tests: &Vec<char>,
    diagnostics: &mut Vec<Diagnostic>,
) -> (r: Result<(), StyleError>)
    requires
        project@ == snap.root@,
    ensures
        match r {
            Ok(()) => grown(
                views(old(diagnostics)@),
                views(final(diagnostics)@),
                source_test_pairs_outcome(*snap, exception_views(exceptions.exceptions@), source@, tests@),
            ),
            Err(e) => source_test_pairs_outcome(*snap, exception_views(exceptions.exceptions@), source@, tests@)
                == Err::<Seq<DiagnosticView>, StyleErrorView>(e@),
        },
{
    reveal(source_test_pairs_outcome);
    let ghost ex = exception_views(exceptions.exceptions@);
    if !switch_on(&snap.source_test_pairs_switch) || !dir_exists(&snap.trees, source) || !dir_exists(
        &snap.trees,
        tests,
    ) {
        assert(views(diagnostics@) =~= views(diagnostics@) + Seq::<DiagnosticView>::empty());
        return Ok(());
    }
    let test_files = rust_files_of(&snap.trees, tests)?;
    let files = rust_files_of(&snap.trees, source)?;
    let ghost fs = crate::text::views_of(files@);
    let ghost tf = crate::text::views_of(test_files@);
    let ghost start = views(diagnostics@);
    let ghost mut acc: Seq<DiagnosticView> = seq![];
    assert(start + acc =~= start);
    assert(source_test_pairs_outcome(*snap, ex, source@, tests@) == pairs_from(*snap, ex, source@, tests@, tf, fs, 0));
    let mut i: usize = 0;
    while i < files.len()
        invariant
            i <= files.len(),
            project@ == snap.root@,
            source_test_pairs_outcome(*snap, ex, source@, tests@) == pairs_from(*snap, ex, source@, tests@, tf, fs, 0),
            ex == exception_views(exceptions.exceptions@),
            fs == crate::text::views_of(files@),
            tf == crate::text::views_of(test_files@),
            views(diagnostics@) == start + acc,
            pairs_from(*snap, ex, source@, tests@, tf, fs, 0) == chain(
                Ok(acc),
                pairs_from(*snap, ex, source@, tests@, tf, fs, i as int),
            ),
        decreases files.len() - i,
    {
        assert(fs[i as int] == files@[i as int]@);
        let ghost rest = pairs_from(*snap, ex, source@, tests@, tf, fs, i + 1);
        let ghost before = views(diagnostics@);
        assert(pairs_from(*snap, ex, source@, tests@, tf, fs, i as int) == chain(
            pair_outcome(*snap, ex, source@, tests@, tf, fs[i as int]),
            rest,
        ));
        match check_pair(snap, project, exceptions, source, tests, &test_files, &files[i], diagnostics) {
            Ok(()) => {},
            Err(e) => {
                return Err(e);
            },
        }
        let ghost d = match pair_outcome(*snap, ex, source@, tests@, tf, fs[i as int]) {
            Ok(x) => x,
            Err(_) => seq![],
        };
        proof {
            lemma_chain_ok(acc, d, rest);
            acc = acc + d;
        }
        assert(views(diagnostics@) =~= start + acc);
        i = i + 1;
    }
    proof {
        lemma_chain_empty(acc);
    }
    Ok(())
}


proof fn lemma_chain_step(
    acc: Seq<DiagnosticView>,
    x: Result<Seq<DiagnosticView>, StyleErrorView>,
    y: Result<Seq<DiagnosticView>, StyleErrorView>,
)
    ensures
        x matches Ok(d) ==> chain(Ok(acc), chain(x, y)) == chain(Ok(acc + d), y),
        x matches Err(e) ==> chain(Ok(acc), chain(x, y)) == Err::<Seq<DiagnosticView>, StyleErrorView>(e),
{
    match x {
        Ok(d) => {
            lemma_chain_ok(acc, d, y);
        },
        Err(_) => {},
    }
}

/// Checks the internal test tree of a package, when it is a directory.
fn check_internal_tree(
    snap: &ProjectSnapshot,
    project: &Vec<char>,
    source: &Vec<char>,
    exceptions: &ExceptionConfig,
    enforce_headers: bool,
    inline_tests: bool,
    diagnostics: &mut Vec<Diagnostic>,
) -> (r: Result<(), StyleError>)
    requires
        project@ == snap.root@,
    ensures
        match r {
            Ok(()) => grown(
                views(old(diagnostics)@),
                views(final(diagnostics)@),
                internal_part(*snap, exception_views(exceptions.exceptions@), source@, enforce_headers, inline_tests),
            ),
            Err(e) => internal_part(*snap, exception_views(exceptions.exceptions@), source@, enforce_headers, inline_tests)
                == Err::<Seq<DiagnosticView>, StyleErrorView>(e@),
        },
{
    reveal(internal_part);
    let ghost start = views(diagnostics@);
    let tests_name = chars_of("tests");
    let internal = crate::paths::join_exec(source, &tests_name);
    if !dir_exists(&snap.trees, &internal) {
        assert(views(diagnostics@) =~= start + Seq::<DiagnosticView>::empty());
        return Ok(());
    }
    check_internal_test_module(snap, project, source, exceptions, diagnostics);
    let ghost middle = views(diagnostics@);
    let r = check_root(
        snap,
        project,
        &internal,
        RootKind::Tests,
        exceptions,
        enforce_headers,
        inline_tests,
        diagnostics,
    );
    proof {
        let ex = exception_views(exceptions.exceptions@);
        match root_outcome(*snap, internal@, RootKind::Tests, ex, enforce_headers, inline_tests) {
            Ok(d) => {
                if r is Ok {
                    assert(views(diagnostics@) =~= start + (internal_module_reports(*snap, ex, source@) + d));
                }
            },
            Err(_) => {},
        }
    }
    r
}

/// Checks the external test tree of a package, unless it is the internal
/// one.
fn check_tests_tree(
    snap: &ProjectSnapshot,
    project: &Vec<char>,
    source: &Vec<char>,
    tests: &Vec<char>,
    exceptions: &ExceptionConfig,
    enforce_headers: bool,
    inline_tests: bool,
    diagnostics: &mut Vec<Diagnostic>,
) -> (r: Result<(), StyleError>)
    requires
        project@ == snap.root@,
    ensures
        match r {
            Ok(()) => grown(
                views(old(diagnostics)@),
                views(final(diagnostics)@),
                tests_part(*snap, exception_views(exceptions.exceptions@), source@, tests@, enforce_headers, inline_tests),
            ),
            Err(e) => tests_part(*snap, exception_views(exceptions.exceptions@), source@, tests@, enforce_headers, inline_tests)
                == Err::<Seq<DiagnosticView>, StyleErrorView>(e@),
        },
{
    reveal(tests_part);
    let tests_name = chars_of("tests");
    let internal = crate::paths::join_exec(source, &tests_name);
    if crate::paths::same_path_exec(tests, &internal) {
        assert(views(diagnostics@) =~= views(diagnostics@) + Seq::<DiagnosticView>::empty());
        return Ok(());
    }
    check_root(snap, project, tests, RootKind::Tests, exceptions, enforce_headers, inline_tests, diagnostics)
}

/// Checks one package's production, test and other roots, then the
/// pairing rule.
#[verifier::spinoff_prover]
pub fn check_package_roots(
    snap: &ProjectSnapshot,
    project: &Vec<char>,
    source: &Vec<char>,
    tests: &Vec<char>,
    exceptions: &ExceptionConfig,
    enforce_headers: bool,
    inline_tests: bool,
    diagnostics: &mut Vec<Diagnostic>,
) -> (r: Result<(), StyleError>)
    requires
        project@ == snap.root@,
    ensures
        match r {
            Ok(()) => grown(
                views(old(diagnostics)@),
                views(final(diagnostics)@),
                package_outcome(*snap, exception_views(exceptions.exceptions@), source@, tests@, enforce_headers, inline_tests),
            ),
            Err(e) => package_outcome(*snap, exception_views(exceptions.exceptions@), source@, tests@, enforce_headers, inline_tests)
                == Err::<Seq<DiagnosticView>, StyleErrorView>(e@),
        },
{
    let ghost ex = exception_views(exceptions.exceptions@);
    let ghost start = views(diagnostics@);
    let dir = match crate::paths::parent_exec(source) {
        Some(p) => p,
        None => crate::text::slice_chars(source, 0, source.len()),
    };
    assert(dir@ == package_dir(source@)) by {
        if parent(source@) is None {
            assert(dir@ =~= source@);
        }
    }
    let benches_name = chars_of("benches");
    let fuzz_name = chars_of("fuzz");
    let examples_name = chars_of("examples");
    let benches = crate::paths::join_exec(&dir, &benches_name);
    let fuzz = crate::paths::join_exec(&dir, &fuzz_name);
    let examples = crate::paths::join_exec(&dir, &examples_name);
    let ghost a = root_outcome(*snap, source@, RootKind::Source, ex, enforce_headers, inline_tests);
    let ghost b = internal_part(*snap, ex, source@, enforce_headers, inline_tests);
    let ghost c = tests_part(*snap, ex, source@, tests@, enforce_headers, inline_tests);
    let ghost d = root_outcome(*snap, benches@, RootKind::Other, ex, enforce_headers, inline_tests);
    let ghost e = root_outcome(*snap, fuzz@, RootKind::Other, ex, enforce_headers, inline_tests);
    let ghost f = root_outcome(*snap, examples@, RootKind::Other, ex, enforce_headers, inline_tests);
    let ghost g = source_test_pairs_outcome(*snap, ex, source@, tests@);
    let ghost whole = package_outcome(*snap, ex, source@, tests@, enforce_headers, inline_tests);
    assert(whole == chain(a, chain(b, chain(c, chain(d, chain(e, chain(f, g)))))));
    let ghost mut acc: Seq<DiagnosticView> = seq![];
    assert(start + acc =~= start);
    assert(chain(Ok(acc), whole) == whole) by {
        match whole {
            Ok(w) => {
                assert(acc + w =~= w);
            },
            Err(_) => {},
        }
    }
    // source tree
    let ghost before = views(diagnostics@);
    let r = check_root(snap, project, source, RootKind::Source, exceptions, enforce_headers, inline_tests, diagnostics);
    proof {
        lemma_chain_step(acc, a, chain(b, chain(c, chain(d, chain(e, chain(f, g))))));
    }
    if let Err(err) = r {
        return Err(err);
    }
    proof {
        acc = acc + a->Ok_0;
    }
    assert(views(diagnostics@) =~= start + acc);
    // internal tests
    let r = check_internal_tree(snap, project, source, exceptions, enforce_headers, inline_tests, diagnostics);
    proof {
        lemma_chain_step(acc, b, chain(c, chain(d, chain(e, chain(f, g)))));
    }
    if let Err(err) = r {
        return Err(err);
    }
    proof {
        acc = acc + b->Ok_0;
    }
    assert(views(diagnostics@) =~= start + acc);
    // external tests
    let r = check_tests_tree(snap, project, source, tests, exceptions, enforce_headers, inline_tests, diagnostics);
    proof {
        lemma_chain_step(acc, c, chain(d, chain(e, chain(f, g))));
    }
    if let Err(err) = r {
        return Err(err);
    }
    proof {
        acc = acc + c->Ok_0;
    }
    assert(views(diagnostics@) =~= start + acc);
    // benches
    let r = check_root(snap, project, &benches, RootKind::Other, exceptions, enforce_headers, inline_tests, diagnostics);
    proof {
        lemma_chain_step(acc, d, chain(e, chain(f, g)));
    }
    if let Err(err) = r {
        return Err(err);
    }
    proof {
        acc = acc + d->Ok_0;
    }
    assert(views(diagnostics@) =~= start + acc);
    // fuzz
    let r = check_root(snap, project, &fuzz, RootKind::Other, exceptions, enforce_headers, inline_tests, diagnostics);
    proof {
        lemma_chain_step(acc, e, chain(f, g));
    }
    if let Err(err) = r {
        return Err(err);
    }
    proof {
        acc = acc + e->Ok_0;
    }
    assert(views(diagnostics@) =~= start + acc);
    // examples
    let r = check_root(snap, project, &examples, RootKind::Other, exceptions, enforce_headers, inline_tests, diagnostics);
    proof {
        lemma_chain_step(acc, f, g);
    }
    if let Err(err) = r {
        return Err(err);
    }
    proof {
        acc = acc + f->Ok_0;
    }
    assert(views(diagnostics@) =~= start + acc);
    // pairing
    let r = check_source_test_pairs(snap, project, exceptions, source, tests, diagnostics);
    if let Err(err) = r {
        assert(chain(Ok(acc), g) == Err::<Seq<DiagnosticView>, StyleErrorView>(err@));
        return Err(err);
    }
    assert(views(diagnostics@) =~= start + (acc + g->Ok_0));
    Ok(())
}


/// Whether a package identifier is selected.
fn selected(ids: &Vec<String>, id: &String) -> (r: bool)
    ensures
        r == is_selected(ids@, id@),
{
    if ids.len() == 0 {
        return true;
    }
    let target = chars_of(id.as_str());
    let mut i: usize = 0;
    while i < ids.len()
        invariant
            i <= ids.len(),
            target@ == id@,
            forall|j: int| 0 <= j < i ==> (#[trigger] ids@[j])@ != id@,
        decreases ids.len() - i,
    {
        let candidate = chars_of(ids[i].as_str());
        if crate::text::chars_eq(&candidate, &target) {
            assert((ids@[i as int])@ == id@);
            return true;
        }
        i = i + 1;
    }
    false
}

/// The views of a list of root pairs.
pub open spec fn root_views(v: Seq<(Vec<char>, Vec<char>)>) -> Seq<(Seq<char>, Seq<char>)> {
    v.map_values(|p: (Vec<char>, Vec<char>)| (p.0@, p.1@))
}

/// Resolves workspace package roots from Cargo metadata: the `src` and
/// `tests` directories beside each selected manifest.
pub fn workspace_roots_of(meta: &CargoMetadata) -> (r: Vec<(Vec<char>, Vec<char>)>)
    ensures
        root_views(r@) == workspace_roots(*meta),
{
    let ids = if meta.workspace_default_members.len() == 0 {
        &meta.workspace_members
    } else {
        &meta.workspace_default_members
    };
    let ghost chosen = selected_ids(*meta);
    assert(ids@ == chosen);
    let mut r: Vec<(Vec<char>, Vec<char>)> = Vec::new();
    let mut i: usize = 0;
    let src_name = chars_of("src");
    let tests_name = chars_of("tests");
    assert(root_views(r@) =~= Seq::<(Seq<char>, Seq<char>)>::empty());
    while i < meta.packages.len()
        invariant
            i <= meta.packages.len(),
            ids@ == chosen,
            chosen == selected_ids(*meta),
            src_name@ == "src"@,
            tests_name@ == "tests"@,
            root_views(r@) + workspace_roots_from(meta.packages@, chosen, i as int) == workspace_roots(*meta),
        decreases meta.packages.len() - i,
    {
        let package = &meta.packages[i];
        let ghost prev = r@;
        if selected(ids, &package.id) {
            let manifest = chars_of(package.manifest_path.as_str());
            match crate::paths::parent_exec(&manifest) {
                Some(dir) => {
                    let source = crate::paths::join_exec(&dir, &src_name);
                    let tests = crate::paths::join_exec(&dir, &tests_name);
                    r.push((source, tests));
                    assert(root_views(r@) =~= root_views(prev).push((source@, tests@)));
                },
                None => {},
            }
        }
        assert(root_views(r@) + workspace_roots_from(meta.packages@, chosen, i + 1) =~= root_views(prev)
            + workspace_roots_from(meta.packages@, chosen, i as int));
        i = i + 1;
    }
    assert(root_views(r@) =~= root_views(r@) + workspace_roots_from(meta.packages@, chosen, i as int));
    r
}

/// The view of an optional string slice.
pub open spec fn str_opt(s: Option<&str>) -> Option<Seq<char>> {
    match s {
        Some(t) => Some(t@),
        None => None,
    }
}

/// Whether the roots come from Cargo workspace metadata, so that the
/// metadata must be collected before checking.
pub fn needs_workspace_metadata(has_manifest: bool, source_dir: Option<&str>, test_dir: Option<&str>) -> (r: bool)
    ensures
        r == uses_workspace(has_manifest, str_opt(source_dir), str_opt(test_dir)),
{
    source_dir.is_none() && test_dir.is_none() && has_manifest
}

/// The (source, tests) roots to check.
pub fn roots_to_check(
    snap: &ProjectSnapshot,
    source_dir: Option<&str>,
    test_dir: Option<&str>,
) -> (r: Result<Vec<(Vec<char>, Vec<char>)>, StyleError>)
    ensures
        match r {
            Ok(v) => package_roots(*snap, str_opt(source_dir), str_opt(test_dir)) == Ok::<Seq<(Seq<char>, Seq<char>)>, StyleErrorView>(root_views(v@)),
            Err(e) => package_roots(*snap, str_opt(source_dir), str_opt(test_dir)) == Err::<Seq<(Seq<char>, Seq<char>)>, StyleErrorView>(e@),
        },
{
    let root = chars_of(snap.root.as_str());
    if source_dir.is_some() || test_dir.is_some() {
        let source_rel = chars_of(
            match source_dir {
                Some(d) => d,
                None => "src",
            },
        );
        let tests_rel = chars_of(
            match test_dir {
                Some(d) => d,
                None => "tests",
            },
        );
        let source = crate::paths::join_exec(&root, &source_rel);
        let tests = crate::paths::join_exec(&root, &tests_rel);
        let mut r: Vec<(Vec<char>, Vec<char>)> = Vec::new();
        r.push((source, tests));
        assert(root_views(r@) =~= seq![(source@, tests@)]);
        return Ok(r);
    }
    if snap.has_manifest {
        return match &snap.workspace {
            None => Err(StyleError::Metadata(String::from_str("cargo metadata was not collected"))),
            Some(Err(m)) => Err(StyleError::Metadata(m.clone())),
            Some(Ok(meta)) => Ok(workspace_roots_of(meta)),
        };
    }
    let src_name = chars_of("src");
    let tests_name = chars_of("tests");
    let source = crate::paths::join_exec(&root, &src_name);
    let tests = crate::paths::join_exec(&root, &tests_name);
    let mut r: Vec<(Vec<char>, Vec<char>)> = Vec::new();
    r.push((source, tests));
    assert(root_views(r@) =~= seq![(source@, tests@)]);
    Ok(r)
}

/// Checks the configured source and test trees of a project snapshot
/// without invoking rustfmt.
///
/// When no directories are supplied, Cargo workspace default members are
/// checked (each package's `src`, `src/tests` and `tests` trees); a
/// project without a manifest checks its own `src` and `tests`.  Supplying
/// either directory selects the explicit-directory mode, resolved against
/// the project root.  Exception file problems, missing workspace metadata,
/// failed walks and unreadable Rust files are returned as `Err`.
pub fn check(project: &ProjectSnapshot, source_dir: Option<&str>, test_dir: Option<&str>) -> (r: Result<Vec<Diagnostic>, StyleError>)
    ensures
        match r {
            Ok(d) => check_outcome(*project, str_opt(source_dir), str_opt(test_dir)) == Ok::<Seq<DiagnosticView>, StyleErrorView>(views(d@)),
            Err(e) => check_outcome(*project, str_opt(source_dir), str_opt(test_dir)) == Err::<Seq<DiagnosticView>, StyleErrorView>(e@),
        },
{
    let root = chars_of(project.root.as_str());
    let empty = ExceptionConfig::empty();
    let exceptions: &ExceptionConfig = match &project.exceptions {
        ExceptionSource::Absent => &empty,
        ExceptionSource::Unreadable => {
            let file = chars_of(".infra/style/exceptions.toml");
            let path = crate::paths::join_exec(&root, &file);
            return Err(StyleError::ExceptionsUnreadable(string_of(&path)));
        },
        ExceptionSource::Malformed => {
            let file = chars_of(".infra/style/exceptions.toml");
            let path = crate::paths::join_exec(&root, &file);
            return Err(StyleError::ExceptionsMalformed(string_of(&path)));
        },
        ExceptionSource::Loaded { config, targets } => {
            match config.validate(targets, project.windows_paths) {
                Ok(()) => {},
                Err(e) => {
                    return Err(e);
                },
            }
            config
        },
    };
    let ghost ex = exception_views(exceptions.exceptions@);
    assert(exceptions_outcome(project.root@, project.exceptions, project.windows_paths) == Ok::<Seq<ExceptionView>, StyleErrorView>(ex)) by {
        if project.exceptions is Absent {
            assert(ex =~= Seq::<ExceptionView>::empty());
        }
    }
    let roots = roots_to_check(project, source_dir, test_dir)?;
    let ghost rs = root_views(roots@);
    let enforce_headers = project.has_manifest;
    let inline_tests = switch_on(&project.inline_tests_switch);
    let mut diagnostics: Vec<Diagnostic> = Vec::new();
    let ghost mut acc: Seq<DiagnosticView> = seq![];
    assert(views(diagnostics@) =~= acc);
    let ghost whole = packages_from(*project, ex, rs, 0, enforce_headers, inline_tests);
    assert(chain(Ok(acc), whole) == whole) by {
        match whole {
            Ok(w) => {
                assert(acc + w =~= w);
            },
            Err(_) => {},
        }
    }
    assert(check_outcome(*project, str_opt(source_dir), str_opt(test_dir)) == whole);
    let mut i: usize = 0;
    while i < roots.len()
        invariant
            i <= roots.len(),
            check_outcome(*project, str_opt(source_dir), str_opt(test_dir)) == whole,
            root@ == project.root@,
            rs == root_views(roots@),
            ex == exception_views(exceptions.exceptions@),
            views(diagnostics@) == acc,
            whole == packages_from(*project, ex, rs, 0, enforce_headers, inline_tests),
            whole == chain(Ok(acc), packages_from(*project, ex, rs, i as int, enforce_headers, inline_tests)),
        decreases roots.len() - i,
    {
        assert(rs[i as int] == (roots@[i as int].0@, roots@[i as int].1@));
        let ghost this = package_outcome(*project, ex, rs[i as int].0, rs[i as int].1, enforce_headers, inline_tests);
        let ghost rest = packages_from(*project, ex, rs, i + 1, enforce_headers, inline_tests);
        proof {
            lemma_chain_step(acc, this, rest);
        }
        let r = check_package_roots(
            project,
            &root,
            &roots[i].0,
            &roots[i].1,
            exceptions,
            enforce_headers,
            inline_tests,
            &mut diagnostics,
        );
        if let Err(e) = r {
            return Err(e);
        }
        proof {
            acc = acc + this->Ok_0;
        }
        i = i + 1;
    }
    assert(chain(Ok(acc), Ok(seq![])) == Ok::<Seq<DiagnosticView>, StyleErrorView>(acc)) by {
        assert(acc + seq![] =~= acc);
    }
    Ok(diagnostics)
}

} // verus!

//! The rustfmt step of `check_project`, `fix` and `fix_project`.
//!
//! The formatter commands are built here from the project and the
//! formatter settings; the caller runs them one at a time as
//! [`formatter_step`] directs and reports each outcome back.

use vstd::prelude::*;

use crate::diagnostic::views;
use crate::diagnostic::Diagnostic;
use crate::diagnostic::DiagnosticView;
use crate::error::StyleError;
use crate::error::StyleErrorView;
use crate::paths::join;
use crate::project::check;
use crate::project::check_outcome;
use crate::project::opt_view;
use crate::project::str_opt;
use crate::project::ProjectSnapshot;
use crate::text::chars_of;
use crate::text::is_space;
use crate::text::string_of;

verus! {

/// `format!("{:?}", s)`: the Debug rendering of a string, quoted and
/// escaped.
pub uninterp spec fn debug_quoted(s: Seq<char>) -> Seq<char>;

/// Whether every character is printable ASCII other than a double quote or
/// a backslash: such a string is rendered by Debug between quotes as is.
pub open spec fn plain_printable(s: Seq<char>) -> bool {
    forall|i: int| 0 <= i < s.len() ==> 32 <= (#[trigger] s[i] as u32) && (s[i] as u32) <= 126
        && s[i] != '"' && s[i] != '\\'
}

/// Renders a string with `Debug` (`format!("{:?}")`).
///
/// Trusted: the result is `debug_quoted(s)`; a string of printable ASCII
/// without quotes or backslashes is rendered between double quotes.
#[verifier::external_body]
fn debug_quote(s: &str) -> (r: String)
    ensures
        r@ == debug_quoted(s@),
        plain_printable(s@) ==> r@ == "\""@ + s@ + "\""@,
{
    format!("{s:?}")
}

/// How one formatter command ended.
#[derive(Debug, Clone, Copy, PartialEq, Eq)]
pub enum FormatterOutcome {
    /// The command could not be started.
    NotStarted,
    /// The command exited with a failure status.
    Failed,
    /// The command succeeded.
    Succeeded,
}

/// What the caller should do next with the formatter commands.
#[derive(Debug)]
pub enum FormatterAction {
    /// Run the command at this index and report its outcome.
    Run(usize),
    /// Formatting is over, with this result.
    Finished(Result<(), StyleError>),
}

/// The views of a sequence of strings.
pub open spec fn string_views(v: Seq<String>) -> Seq<Seq<char>> {
    v.map_values(|s: String| s@)
}

/// A setting that is set and not empty.
pub open spec fn nonempty(v: Option<Seq<char>>) -> Option<Seq<char>> {
    match v {
        Some(s) => if s.len() == 0 {
            None
        } else {
            Some(s)
        },
        None => None,
    }
}

/// The toolchain selector argument, when a toolchain is set.
pub open spec fn toolchain_args(toolchain: Option<Seq<char>>) -> Seq<Seq<char>> {
    match nonempty(toolchain) {
        Some(t) => seq!["+"@ + t],
        None => seq![],
    }
}

/// The configuration arguments, when a configuration path is set.
pub open spec fn config_args(config: Option<Seq<char>>) -> Seq<Seq<char>> {
    match nonempty(config) {
        Some(c) => seq!["--config-path"@, c],
        None => seq![],
    }
}

/// The arguments of `cargo fmt` for the project's workspace.
pub open spec fn main_fmt_args(
    project: Seq<char>,
    check_only: bool,
    toolchain: Option<Seq<char>>,
    config: Option<Seq<char>>,
) -> Seq<Seq<char>> {
    toolchain_args(toolchain) + seq!["fmt"@, "--all"@, "--manifest-path"@, join(project, "Cargo.toml"@)]
        + (if check_only || nonempty(config) is Some {
        seq!["--"@]
    } else {
        seq![]
    }) + (if check_only {
        seq!["--check"@]
    } else {
        seq![]
    }) + config_args(config)
}

/// The arguments of `cargo fmt` for a standalone fuzz crate.
pub open spec fn fuzz_fmt_args(
    project: Seq<char>,
    check_only: bool,
    toolchain: Option<Seq<char>>,
    config: Option<Seq<char>>,
) -> Seq<Seq<char>> {
    toolchain_args(toolchain) + seq!["fmt"@, "--manifest-path"@, join(project, "fuzz/Cargo.toml"@), "--"@]
        + (if check_only {
        seq!["--check"@]
    } else {
        seq![]
    }) + config_args(config)
}

/// The formatter commands to run, in order: the workspace, then the fuzz
/// crate when it has a manifest.
pub open spec fn fmt_commands(
    project: Seq<char>,
    check_only: bool,
    has_fuzz_manifest: bool,
    toolchain: Option<Seq<char>>,
    config: Option<Seq<char>>,
) -> Seq<Seq<Seq<char>>> {
    seq![main_fmt_args(project, check_only, toolchain, config)] + if has_fuzz_manifest {
        seq![fuzz_fmt_args(project, check_only, toolchain, config)]
    } else {
        seq![]
    }
}

/// The formatter commands for a project snapshot.
pub open spec fn snapshot_commands(snap: ProjectSnapshot, check_only: bool) -> Seq<Seq<Seq<char>>> {
    fmt_commands(
        snap.root@,
        check_only,
        snap.has_fuzz_manifest,
        opt_view(snap.formatter_toolchain),
        opt_view(snap.formatter_config),
    )
}

/// Whether a text contains white space.
pub open spec fn has_space(s: Seq<char>) -> bool {
    exists|i: int| 0 <= i < s.len() && is_space(#[trigger] s[i])
}

/// One argument as a command description shows it: quoted when it holds
/// white space.
pub open spec fn shown_argument(a: Seq<char>) -> Seq<char> {
    if has_space(a) {
        debug_quoted(a)
    } else {
        a
    }
}

/// The description of the first `n` arguments of a cargo command.
pub open spec fn describe_prefix(args: Seq<Seq<char>>, n: int) -> Seq<char>
    decreases n,
{
    if n <= 0 || n > args.len() {
        "cargo"@
    } else {
        describe_prefix(args, n - 1) + " "@ + shown_argument(args[n - 1])
    }
}

/// The description of a cargo command, for dry runs and failure messages.
pub open spec fn describe(args: Seq<Seq<char>>) -> Seq<char> {
    describe_prefix(args, args.len() as int)
}

/// One plain printable argument as a command description shows it:
/// between double quotes when it holds white space.
pub open spec fn shown_plain_argument(a: Seq<char>) -> Seq<char> {
    if has_space(a) {
        "\""@ + a + "\""@
    } else {
        a
    }
}

/// The description of the first `n` arguments when every argument is plain
/// printable text.
pub open spec fn describe_plain_prefix(args: Seq<Seq<char>>, n: int) -> Seq<char>
    decreases n,
{
    if n <= 0 || n > args.len() {
        "cargo"@
    } else {
        describe_plain_prefix(args, n - 1) + " "@ + shown_plain_argument(args[n - 1])
    }
}

/// Whether every argument is printable ASCII without quotes or
/// backslashes.
pub open spec fn all_plain_printable(args: Seq<Seq<char>>) -> bool {
    forall|i: int| 0 <= i < args.len() ==> plain_printable(#[trigger] args[i])
}

/// The index of the first command, from `i` on, whose outcome is not a
/// success.
pub open spec fn first_unsuccessful(outcomes: Seq<FormatterOutcome>, i: int) -> Option<int>
    decreases outcomes.len() - i,
{
    if i < 0 || i >= outcomes.len() {
        None
    } else if outcomes[i] != FormatterOutcome::Succeeded {
        Some(i)
    } else {
        first_unsuccessful(outcomes, i + 1)
    }
}

/// The error of a command that did not succeed.
pub open spec fn command_error(outcome: FormatterOutcome, args: Seq<Seq<char>>) -> StyleErrorView {
    if outcome == FormatterOutcome::NotStarted {
        StyleErrorView::FormatterNotStarted(describe(args))
    } else {
        StyleErrorView::FormatterFailed(describe(args))
    }
}

/// What to do next, given the outcomes of the commands run so far: stop at
/// the first command that did not succeed, otherwise run the next command,
/// and finish once every command has succeeded.
pub open spec fn next_step(commands: Seq<Seq<Seq<char>>>, outcomes: Seq<FormatterOutcome>) -> Result<Option<int>, StyleErrorView> {
    let done = if outcomes.len() <= commands.len() { outcomes } else { outcomes.take(commands.len() as int) };
    match first_unsuccessful(done, 0) {
        Some(j) => Err(command_error(done[j], commands[j])),
        None => if done.len() < commands.len() {
            Ok(Some(done.len() as int))
        } else {
            Ok(None)
        },
    }
}

/// The result of formatting once the caller stopped: a command that did
/// not succeed, or was never run, fails it.
pub open spec fn formatting_result(commands: Seq<Seq<Seq<char>>>, outcomes: Seq<FormatterOutcome>) -> Result<(), StyleErrorView> {
    match next_step(commands, outcomes) {
        Err(e) => Err(e),
        Ok(Some(j)) => Err(StyleErrorView::FormatterNotStarted(describe(commands[j]))),
        Ok(None) => Ok(()),
    }
}

/// What a fix operation did.
#[derive(Debug)]
pub enum FixOutcome {
    /// A dry run: the formatter command that would run.
    DryRun(String),
    /// The project was formatted and no diagnostics remain.
    Completed,
}

/// The view of a fix outcome: the dry-run description, if any.
pub open spec fn fix_view(o: FixOutcome) -> Option<Seq<char>> {
    match o {
        FixOutcome::DryRun(d) => Some(d@),
        FixOutcome::Completed => None,
    }
}

/// The result of a fix: a dry run describes the workspace formatter
/// command; otherwise formatting must succeed and the style check must
/// report nothing.
pub open spec fn fix_result(
    snap: ProjectSnapshot,
    source_dir: Option<Seq<char>>,
    test_dir: Option<Seq<char>>,
    dry_run: bool,
    formatting: Seq<FormatterOutcome>,
) -> Result<Option<Seq<char>>, StyleErrorView> {
    if dry_run {
        Ok(Some(describe(main_fmt_args(snap.root@, false, opt_view(snap.formatter_toolchain), opt_view(snap.formatter_config)))))
    } else {
        match formatting_result(snapshot_commands(snap, false), formatting) {
            Err(e) => Err(e),
            Ok(()) => match check_outcome(snap, source_dir, test_dir) {
                Err(e) => Err(e),
                Ok(d) => if d.len() > 0 {
                    Err(StyleErrorView::IssuesRemain(d.len() as usize))
                } else {
                    Ok(None)
                },
            },
        }
    }
}


/// A setting that is set and not empty.
fn nonempty_exec(v: Option<&str>) -> (r: Option<Vec<char>>)
    ensures
        match r {
            Some(c) => nonempty(str_opt(v)) == Some(c@),
            None => nonempty(str_opt(v)) is None,
        },
{
    match v {
        Some(s) => {
            let c = chars_of(s);
            if c.len() == 0 {
                None
            } else {
                Some(c)
            }
        },
        None => None,
    }
}

/// Appends a string made of characters to an argument list.
fn push_arg(args: &mut Vec<String>, arg: &Vec<char>)
    ensures
        string_views(final(args)@) == string_views(old(args)@).push(arg@),
{
    let ghost before = args@;
    args.push(string_of(arg));
    assert(string_views(args@) =~= string_views(before).push(arg@));
}

/// Appends a literal argument.
fn push_literal(args: &mut Vec<String>, arg: &str)
    ensures
        string_views(final(args)@) == string_views(old(args)@).push(arg@),
{
    let ghost before = args@;
    args.push(String::from_str(arg));
    assert(string_views(args@) =~= string_views(before).push(arg@));
}

/// Appends the toolchain selector, when a toolchain is set.
fn push_toolchain(args: &mut Vec<String>, toolchain: Option<&str>)
    ensures
        string_views(final(args)@) == string_views(old(args)@) + toolchain_args(str_opt(toolchain)),
{
    match nonempty_exec(toolchain) {
        Some(t) => {
            let mut arg = chars_of("+");
            let mut rest = t;
            arg.append(&mut rest);
            push_arg(args, &arg);
        },
        None => {
            assert(string_views(args@) =~= string_views(args@) + Seq::<Seq<char>>::empty());
        },
    }
}

/// Appends the configuration arguments, when a configuration path is set.
fn push_config(args: &mut Vec<String>, config: Option<&str>)
    ensures
        string_views(final(args)@) == string_views(old(args)@) + config_args(str_opt(config)),
{
    match nonempty_exec(config) {
        Some(c) => {
            let ghost before = string_views(args@);
            push_literal(args, "--config-path");
            push_arg(args, &c);
            assert(string_views(args@) =~= before + seq!["--config-path"@, c@]);
        },
        None => {
            assert(string_views(args@) =~= string_views(args@) + Seq::<Seq<char>>::empty());
        },
    }
}

/// Builds the arguments of a formatter command for the project workspace,
/// using the optional toolchain and configuration overrides.
pub fn cargo_fmt_command(project: &str, check_only: bool, toolchain: Option<&str>, config: Option<&str>) -> (r: Vec<String>)
    ensures
        string_views(r@) == main_fmt_args(project@, check_only, str_opt(toolchain), str_opt(config)),
{
    let mut args: Vec<String> = Vec::new();
    assert(string_views(args@) =~= Seq::<Seq<char>>::empty());
    push_toolchain(&mut args, toolchain);
    let ghost s1 = string_views(args@);
    push_literal(&mut args, "fmt");
    push_literal(&mut args, "--all");
    push_literal(&mut args, "--manifest-path");
    let p = chars_of(project);
    let manifest_name = chars_of("Cargo.toml");
    let manifest = crate::paths::join_exec(&p, &manifest_name);
    push_arg(&mut args, &manifest);
    let ghost s2 = string_views(args@);
    assert(s2 =~= s1 + seq!["fmt"@, "--all"@, "--manifest-path"@, join(project@, "Cargo.toml"@)]);
    let has_config = nonempty_exec(config).is_some();
    if check_only || has_config {
        push_literal(&mut args, "--");
    }
    let ghost s3 = string_views(args@);
    if check_only {
        push_literal(&mut args, "--check");
    }
    let ghost s4 = string_views(args@);
    push_config(&mut args, config);
    assert(string_views(args@) =~= main_fmt_args(project@, check_only, str_opt(toolchain), str_opt(config)));
    args
}

/// Builds the second formatter invocation for a standalone fuzz crate.
pub fn cargo_fuzz_fmt_command(project: &str, check_only: bool, toolchain: Option<&str>, config: Option<&str>) -> (r: Vec<String>)
    ensures
        string_views(r@) == fuzz_fmt_args(project@, check_only, str_opt(toolchain), str_opt(config)),
{
    let mut args: Vec<String> = Vec::new();
    assert(string_views(args@) =~= Seq::<Seq<char>>::empty());
    push_toolchain(&mut args, toolchain);
    let ghost s1 = string_views(args@);
    push_literal(&mut args, "fmt");
    push_literal(&mut args, "--manifest-path");
    let p = chars_of(project);
    let manifest_name = chars_of("fuzz/Cargo.toml");
    let manifest = crate::paths::join_exec(&p, &manifest_name);
    push_arg(&mut args, &manifest);
    push_literal(&mut args, "--");
    let ghost s2 = string_views(args@);
    assert(s2 =~= s1 + seq!["fmt"@, "--manifest-path"@, join(project@, "fuzz/Cargo.toml"@), "--"@]);
    if check_only {
        push_literal(&mut args, "--check");
    }
    push_config(&mut args, config);
    assert(string_views(args@) =~= fuzz_fmt_args(project@, check_only, str_opt(toolchain), str_opt(config)));
    args
}

/// The views of a list of commands.
pub open spec fn command_views(v: Seq<Vec<String>>) -> Seq<Seq<Seq<char>>> {
    v.map_values(|c: Vec<String>| string_views(c@))
}

/// The formatter commands to run for a project, in order.
pub fn formatter_commands(
    project: &str,
    check_only: bool,
    has_fuzz_manifest: bool,
    toolchain: Option<&str>,
    config: Option<&str>,
) -> (r: Vec<Vec<String>>)
    ensures
        command_views(r@) == fmt_commands(project@, check_only, has_fuzz_manifest, str_opt(toolchain), str_opt(config)),
{
    let mut commands: Vec<Vec<String>> = Vec::new();
    commands.push(cargo_fmt_command(project, check_only, toolchain, config));
    if has_fuzz_manifest {
        commands.push(cargo_fuzz_fmt_command(project, check_only, toolchain, config));
    }
    assert(command_views(commands@) =~= fmt_commands(project@, check_only, has_fuzz_manifest, str_opt(toolchain), str_opt(config)));
    commands
}

/// A snapshot setting as a string slice.
fn setting(v: &Option<String>) -> (r: Option<&str>)
    ensures
        str_opt(r) == opt_view(*v),
{
    match v {
        Some(s) => Some(s.as_str()),
        None => None,
    }
}

/// The formatter commands for a project snapshot.
pub fn snapshot_formatter_commands(snap: &ProjectSnapshot, check_only: bool) -> (r: Vec<Vec<String>>)
    ensures
        command_views(r@) == snapshot_commands(*snap, check_only),
{
    formatter_commands(
        snap.root.as_str(),
        check_only,
        snap.has_fuzz_manifest,
        setting(&snap.formatter_toolchain),
        setting(&snap.formatter_config),
    )
}

/// Whether a text contains white space.
fn has_space_exec(s: &Vec<char>) -> (r: bool)
    ensures
        r == has_space(s@),
{
    let mut i: usize = 0;
    while i < s.len()
        invariant
            i <= s.len(),
            forall|j: int| 0 <= j < i ==> !is_space(#[trigger] s@[j]),
        decreases s.len() - i,
    {
        if crate::text::is_space_char(s[i]) {
            assert(is_space(s@[i as int]));
            return true;
        }
        i = i + 1;
    }
    false
}

/// Describes a formatter command for dry runs and failure diagnostics;
/// arguments containing white space are quoted for readability.
pub fn cargo_fmt_description(args: &Vec<String>) -> (r: String)
    ensures
        r@ == describe(string_views(args@)),
        all_plain_printable(string_views(args@)) ==> r@ == describe_plain_prefix(
            string_views(args@),
            args@.len() as int,
        ),
{
    let ghost a = string_views(args@);
    let mut description = chars_of("cargo");
    let mut i: usize = 0;
    while i < args.len()
        invariant
            i <= args.len(),
            a == string_views(args@),
            description@ == describe_prefix(a, i as int),
            all_plain_printable(a) ==> description@ == describe_plain_prefix(a, i as int),
        decreases args.len() - i,
    {
        assert(a[i as int] == args@[i as int]@);
        let argument = chars_of(args[i].as_str());
        let mut space = chars_of(" ");
        description.append(&mut space);
        if has_space_exec(&argument) {
            let quoted = debug_quote(args[i].as_str());
            let mut q = chars_of(quoted.as_str());
            description.append(&mut q);
        } else {
            let mut plain = argument;
            description.append(&mut plain);
        }
        assert(description@ =~= describe_prefix(a, i as int) + " "@ + shown_argument(a[i as int]));
        proof {
            if all_plain_printable(a) {
                assert(plain_printable(a[i as int]));
                assert(description@ =~= describe_plain_prefix(a, i as int) + " "@ + shown_plain_argument(a[i as int]));
            }
        }
        i = i + 1;
    }
    string_of(&description)
}

/// Decides the next formatter step from the outcomes of the commands run
/// so far: stop at the first failure, run the next command, or finish.
pub fn formatter_step(commands: &Vec<Vec<String>>, outcomes: &Vec<FormatterOutcome>) -> (r: FormatterAction)
    ensures
        match r {
            FormatterAction::Run(j) => next_step(command_views(commands@), outcomes@) == Ok::<Option<int>, StyleErrorView>(Some(j as int)),
            FormatterAction::Finished(Ok(())) => next_step(command_views(commands@), outcomes@) == Ok::<Option<int>, StyleErrorView>(None),
            FormatterAction::Finished(Err(e)) => next_step(command_views(commands@), outcomes@) == Err::<Option<int>, StyleErrorView>(e@),
        },
{
    let ghost cs = command_views(commands@);
    let n = if outcomes.len() <= commands.len() { outcomes.len() } else { commands.len() };
    let ghost done = if outcomes@.len() <= cs.len() { outcomes@ } else { outcomes@.take(cs.len() as int) };
    assert(done.len() == n);
    assert forall|k: int| 0 <= k < n implies done[k] == outcomes@[k] by {}
    let mut i: usize = 0;
    assert(first_unsuccessful(done, 0) == first_unsuccessful(done, 0));
    while i < n
        invariant
            i <= n,
            n == done.len(),
            n <= commands.len(),
            n <= outcomes.len(),
            cs.len() == commands.len(),
            done == (if outcomes@.len() <= cs.len() { outcomes@ } else { outcomes@.take(cs.len() as int) }),
            cs == command_views(commands@),
            forall|k: int| 0 <= k < n ==> done[k] == outcomes@[k],
            first_unsuccessful(done, 0) == first_unsuccessful(done, i as int),
        decreases n - i,
    {
        match outcomes[i] {
            FormatterOutcome::Succeeded => {},
            FormatterOutcome::NotStarted => {
                assert(cs[i as int] == string_views(commands@[i as int]@));
                let d = cargo_fmt_description(&commands[i]);
                return FormatterAction::Finished(Err(StyleError::FormatterNotStarted(d)));
            },
            FormatterOutcome::Failed => {
                assert(cs[i as int] == string_views(commands@[i as int]@));
                let d = cargo_fmt_description(&commands[i]);
                return FormatterAction::Finished(Err(StyleError::FormatterFailed(d)));
            },
        }
        i = i + 1;
    }
    if n < commands.len() {
        FormatterAction::Run(n)
    } else {
        FormatterAction::Finished(Ok(()))
    }
}

/// The result of formatting once the caller has stopped running commands.
fn formatting_outcome(commands: &Vec<Vec<String>>, outcomes: &Vec<FormatterOutcome>) -> (r: Result<(), StyleError>)
    ensures
        match r {
            Ok(()) => formatting_result(command_views(commands@), outcomes@) is Ok,
            Err(e) => formatting_result(command_views(commands@), outcomes@) == Err::<(), StyleErrorView>(e@),
        },
{
    match formatter_step(commands, outcomes) {
        FormatterAction::Run(j) => {
            assert(command_views(commands@)[j as int] == string_views(commands@[j as int]@));
            Err(StyleError::FormatterNotStarted(cargo_fmt_description(&commands[j])))
        },
        FormatterAction::Finished(r) => r,
    }
}

/// Checks a project after rustfmt ran in check mode: a formatter command
/// that did not succeed (or was not run) fails the check; otherwise the
/// style diagnostics are returned.
pub fn check_project(
    project: &ProjectSnapshot,
    source_dir: Option<&str>,
    test_dir: Option<&str>,
    formatting: &Vec<FormatterOutcome>,
) -> (r: Result<Vec<Diagnostic>, StyleError>)
    ensures
        match r {
            Ok(d) => formatting_result(snapshot_commands(*project, true), formatting@) is Ok
                && check_outcome(*project, str_opt(source_dir), str_opt(test_dir)) == Ok::<Seq<DiagnosticView>, StyleErrorView>(views(d@)),
            Err(e) => match formatting_result(snapshot_commands(*project, true), formatting@) {
                Err(f) => e@ == f,
                Ok(()) => check_outcome(*project, str_opt(source_dir), str_opt(test_dir)) == Err::<Seq<DiagnosticView>, StyleErrorView>(e@),
            },
        },
{
    let commands = snapshot_formatter_commands(project, true);
    formatting_outcome(&commands, formatting)?;
    check(project, source_dir, test_dir)
}

/// Formats a project and validates the selected style roots.
///
/// In dry-run mode nothing runs and the workspace formatter command is
/// returned for display.  Otherwise a formatter command that did not
/// succeed, an error of the style check, or remaining diagnostics fail the
/// operation.
pub fn fix_project(
    project: &ProjectSnapshot,
    source_dir: Option<&str>,
    test_dir: Option<&str>,
    dry_run: bool,
    formatting: &Vec<FormatterOutcome>,
) -> (r: Result<FixOutcome, StyleError>)
    ensures
        match r {
            Ok(o) => fix_result(*project, str_opt(source_dir), str_opt(test_dir), dry_run, formatting@) == Ok::<Option<Seq<char>>, StyleErrorView>(fix_view(o)),
            Err(e) => fix_result(*project, str_opt(source_dir), str_opt(test_dir), dry_run, formatting@) == Err::<Option<Seq<char>>, StyleErrorView>(e@),
        },
{
    if dry_run {
        let args = cargo_fmt_command(
            project.root.as_str(),
            false,
            setting(&project.formatter_toolchain),
            setting(&project.formatter_config),
        );
        return Ok(FixOutcome::DryRun(cargo_fmt_description(&args)));
    }
    let commands = snapshot_formatter_commands(project, false);
    formatting_outcome(&commands, formatting)?;
    let diagnostics = check(project, source_dir, test_dir)?;
    if diagnostics.len() > 0 {
        assert(views(diagnostics@).len() == diagnostics@.len());
        return Err(StyleError::IssuesRemain(diagnostics.len()));
    }
    Ok(FixOutcome::Completed)
}

/// Formats a project and validates its default workspace style rules.
pub fn fix(project: &ProjectSnapshot, dry_run: bool, formatting: &Vec<FormatterOutcome>) -> (r: Result<FixOutcome, StyleError>)
    ensures
        match r {
            Ok(o) => fix_result(*project, None, None, dry_run, formatting@) == Ok::<Option<Seq<char>>, StyleErrorView>(fix_view(o)),
            Err(e) => fix_result(*project, None, None, dry_run, formatting@) == Err::<Option<Seq<char>>, StyleErrorView>(e@),
        },
{
    fix_project(project, None, None, dry_run, formatting)
}

} // verus!

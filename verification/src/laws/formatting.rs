//! Laws of the formatter step: which commands run, with which
//! arguments, and when formatting, dry runs and fixes succeed.

use vstd::prelude::*;

use crate::diagnostic::DiagnosticView;
use crate::error::StyleErrorView;
use crate::formatter::FormatterOutcome;
use crate::formatter::describe;
use crate::formatter::first_unsuccessful;
use crate::formatter::fix_result;
use crate::formatter::fmt_commands;
use crate::formatter::formatting_result;
use crate::formatter::main_fmt_args;
use crate::formatter::next_step;
use crate::formatter::snapshot_commands;
use crate::project::ProjectSnapshot;
use crate::project::check_outcome;
use crate::project::opt_view;

verus! {

proof fn lemma_first_unsuccessful(outcomes: Seq<FormatterOutcome>, i: int)
    requires
        0 <= i <= outcomes.len(),
    ensures
        first_unsuccessful(outcomes, i) is None <==> forall|j: int|
            i <= j < outcomes.len() ==> outcomes[j] == FormatterOutcome::Succeeded,
    decreases outcomes.len() - i,
{
    if i < outcomes.len() {
        lemma_first_unsuccessful(outcomes, i + 1);
    }
}

/// Formatting succeeds exactly when every formatter command was run and
/// succeeded: a command that failed, could not start or was never run
/// fails the operation.
pub proof fn formatting_succeeds_only_when_every_command_succeeds(
    commands: Seq<Seq<Seq<char>>>,
    outcomes: Seq<FormatterOutcome>,
)
    ensures
        formatting_result(commands, outcomes) is Ok <==> (outcomes.len() >= commands.len() && forall|i: int|
            0 <= i < commands.len() ==> outcomes[i] == FormatterOutcome::Succeeded),
{
    let done = if outcomes.len() <= commands.len() {
        outcomes
    } else {
        outcomes.take(commands.len() as int)
    };
    lemma_first_unsuccessful(done, 0);
    if outcomes.len() >= commands.len() && forall|i: int|
        0 <= i < commands.len() ==> outcomes[i] == FormatterOutcome::Succeeded {
        assert forall|j: int| 0 <= j < done.len() implies done[j] == FormatterOutcome::Succeeded by {
            assert(done[j] == outcomes[j]);
        }
    }
    if formatting_result(commands, outcomes) is Ok {
        assert(next_step(commands, outcomes) == Ok::<Option<int>, crate::error::StyleErrorView>(None));
        assert forall|i: int| 0 <= i < commands.len() implies outcomes[i] == FormatterOutcome::Succeeded by {
            assert(done[i] == outcomes[i]);
        }
    }
}

/// An empty toolchain or configuration setting acts as an unset one.
pub proof fn empty_formatter_settings_act_as_unset(
    project: Seq<char>,
    check_only: bool,
    has_fuzz_manifest: bool,
    toolchain: Option<Seq<char>>,
    config: Option<Seq<char>>,
)
    ensures
        fmt_commands(project, check_only, has_fuzz_manifest, Some(seq![]), config) == fmt_commands(
            project,
            check_only,
            has_fuzz_manifest,
            None,
            config,
        ),
        fmt_commands(project, check_only, has_fuzz_manifest, toolchain, Some(seq![])) == fmt_commands(
            project,
            check_only,
            has_fuzz_manifest,
            toolchain,
            None,
        ),
{
}

/// A toolchain setting only puts its `+toolchain` selector in front of the
/// workspace formatter arguments.
pub proof fn toolchain_only_selects_the_cargo_toolchain(
    project: Seq<char>,
    check_only: bool,
    toolchain: Seq<char>,
    config: Option<Seq<char>>,
)
    requires
        toolchain.len() > 0,
    ensures
        main_fmt_args(project, check_only, Some(toolchain), config) == seq!["+"@ + toolchain] + main_fmt_args(
            project,
            check_only,
            None,
            config,
        ),
{
    assert(main_fmt_args(project, check_only, Some(toolchain), config) =~= seq!["+"@ + toolchain]
        + main_fmt_args(project, check_only, None, config));
}

/// A configuration setting only appends `--config-path` and its path to
/// rustfmt's arguments, after the `--` separator.
pub proof fn config_only_adds_the_config_path(
    project: Seq<char>,
    check_only: bool,
    toolchain: Option<Seq<char>>,
    config: Seq<char>,
)
    requires
        config.len() > 0,
    ensures
        main_fmt_args(project, check_only, toolchain, Some(config)) == main_fmt_args(
            project,
            check_only,
            toolchain,
            None,
        ) + (if check_only {
            seq![]
        } else {
            seq!["--"@]
        }) + seq!["--config-path"@, config],
{
    assert(main_fmt_args(project, check_only, toolchain, Some(config)) =~= main_fmt_args(
        project,
        check_only,
        toolchain,
        None,
    ) + (if check_only {
        seq![]
    } else {
        seq!["--"@]
    }) + seq!["--config-path"@, config]);
}

/// A dry run runs nothing: whatever the formatter outcomes, it succeeds and
/// describes the workspace formatter command of a fix.
pub proof fn dry_run_only_describes_the_formatter_command(
    snap: ProjectSnapshot,
    source_dir: Option<Seq<char>>,
    test_dir: Option<Seq<char>>,
    formatting: Seq<FormatterOutcome>,
)
    ensures
        fix_result(snap, source_dir, test_dir, true, formatting) == Ok::<Option<Seq<char>>, StyleErrorView>(
            Some(
                describe(
                    main_fmt_args(
                        snap.root@,
                        false,
                        opt_view(snap.formatter_toolchain),
                        opt_view(snap.formatter_config),
                    ),
                ),
            ),
        ),
{
}

/// A fix succeeds exactly when every formatter command succeeded and the
/// style check of the formatted project then reports nothing.
pub proof fn fix_succeeds_only_on_a_clean_project(
    snap: ProjectSnapshot,
    source_dir: Option<Seq<char>>,
    test_dir: Option<Seq<char>>,
    formatting: Seq<FormatterOutcome>,
)
    ensures
        fix_result(snap, source_dir, test_dir, false, formatting) is Ok <==> (formatting_result(
            snapshot_commands(snap, false),
            formatting,
        ) is Ok && check_outcome(snap, source_dir, test_dir) == Ok::<Seq<DiagnosticView>, StyleErrorView>(
            seq![],
        )),
{
    match check_outcome(snap, source_dir, test_dir) {
        Ok(d) => {
            if d.len() == 0 {
                assert(d =~= seq![]);
            }
        },
        Err(_) => {},
    }
}

} // verus!

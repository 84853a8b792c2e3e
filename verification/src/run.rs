//! The order in which a run does its work.

use vstd::prelude::*;

use crate::cli::{Args, EditorialCommand, Operation};
use crate::execution;
use crate::execution::ExecutionError;
use crate::path;

verus! {

/// The lock file of a build.
pub const LOCK_FILE: &'static str = ".lock";

/// A step of a run.
#[derive(Debug, Clone, Copy, PartialEq, Eq, Structural)]
pub enum RunStep {
    /// Print what was asked for.
    Print,
    /// Set a workspace up.
    InitWorkspace,
    /// Examine the workspace.
    Doctor,
    /// Find out all that the run needs to know.
    Resolve,
    /// Serve what was built.
    Preview,
    /// Make the directory of the build.
    MakeBuildDir,
    /// Take the lock of the build.
    Lock,
    /// Give the lock back.
    Unlock,
    /// Remove the directory of the build.
    RemoveBuildDir,
    /// Validate the selected proposals.
    EditorialLint,
    /// Prepare the build.
    Prepare,
    /// Prepare the build behind an editorial selection.
    PrepareEditorial,
    /// Check the prepared site.
    Check,
    /// Render the prepared site.
    Build,
    /// Serve the prepared site.
    Serve,
    /// List the files that differ from upstream.
    ListChanged,
}

/// What an operation does while it holds the lock of the build.
pub open spec fn locked_work(operation: Operation) -> Seq<RunStep> {
    match operation {
        Operation::Check => seq![RunStep::Prepare, RunStep::Check],
        Operation::Build { .. } => seq![RunStep::Prepare, RunStep::Build],
        Operation::Serve { .. } => seq![RunStep::Prepare, RunStep::Serve],
        Operation::Changed { .. } => seq![RunStep::ListChanged],
        Operation::Editorial { command: EditorialCommand::Lint(_) } => seq![RunStep::EditorialLint],
        Operation::Editorial { command: EditorialCommand::Check(_) } => seq![
            RunStep::EditorialLint,
            RunStep::PrepareEditorial,
            RunStep::Check,
        ],
        _ => Seq::empty(),
    }
}

/// The steps of a run, in their order.
pub open spec fn run_steps(operation: Operation) -> Seq<RunStep> {
    let entry = seq![RunStep::Resolve, RunStep::MakeBuildDir, RunStep::Lock];
    match operation {
        Operation::Print => seq![RunStep::Print],
        Operation::Init { .. } => seq![RunStep::InitWorkspace],
        Operation::Doctor => seq![RunStep::Doctor],
        Operation::Preview { .. } => seq![RunStep::Resolve, RunStep::Preview],
        Operation::Clean => entry + seq![RunStep::Unlock, RunStep::RemoveBuildDir],
        _ => entry + locked_work(operation) + seq![RunStep::Unlock],
    }
}

/// The steps of a run, in their order, unless its flags do not go with what is to be done.
pub fn run(args: &Args) -> (out: Result<Vec<RunStep>, ExecutionError>)
    ensures
        match out {
            Ok(steps) => execution::flags_fit(*args) && steps@ == run_steps(args.operation),
            Err(error) => !execution::flags_fit(*args) && error == execution::misplaced_flags(
                *args,
            ),
        },
{
    match execution::validate_non_execution_command_flags(args) {
        Ok(_) => {},
        Err(error) => return Err(error),
    }
    let mut steps: Vec<RunStep> = Vec::new();
    match &args.operation {
        Operation::Print => {
            steps.push(RunStep::Print);
            return Ok(steps);
        },
        Operation::Init { .. } => {
            steps.push(RunStep::InitWorkspace);
            return Ok(steps);
        },
        Operation::Doctor => {
            steps.push(RunStep::Doctor);
            return Ok(steps);
        },
        _ => {},
    }
    steps.push(RunStep::Resolve);
    if let Operation::Preview { .. } = &args.operation {
        steps.push(RunStep::Preview);
        assert(steps@ =~= run_steps(args.operation));
        return Ok(steps);
    }
    steps.push(RunStep::MakeBuildDir);
    steps.push(RunStep::Lock);
    match &args.operation {
        Operation::Clean => {
            steps.push(RunStep::Unlock);
            steps.push(RunStep::RemoveBuildDir);
            assert(steps@ =~= run_steps(args.operation));
            return Ok(steps);
        },
        Operation::Check => {
            steps.push(RunStep::Prepare);
            steps.push(RunStep::Check);
        },
        Operation::Build { .. } => {
            steps.push(RunStep::Prepare);
            steps.push(RunStep::Build);
        },
        Operation::Serve { .. } => {
            steps.push(RunStep::Prepare);
            steps.push(RunStep::Serve);
        },
        Operation::Changed { .. } => {
            steps.push(RunStep::ListChanged);
        },
        Operation::Editorial { command } => {
            steps.push(RunStep::EditorialLint);
            if let EditorialCommand::Check(_) = command {
                steps.push(RunStep::PrepareEditorial);
                steps.push(RunStep::Check);
            }
        },
        _ => {},
    }
    steps.push(RunStep::Unlock);
    assert(steps@ =~= run_steps(args.operation));
    Ok(steps)
}

/// The lock file of the build at `build_path`.
pub fn lock_path(build_path: &str) -> (out: String)
    ensures
        out@ == path::path_joined(build_path@, LOCK_FILE@),
{
    path::join(build_path, LOCK_FILE)
}

/// Whether a step changes what a build prepared.
pub open spec fn changes_build(step: RunStep) -> bool {
    matches!(
        step,
        RunStep::EditorialLint | RunStep::Prepare | RunStep::PrepareEditorial | RunStep::Check
            | RunStep::Build | RunStep::Serve | RunStep::ListChanged
    )
}

/// Whether the lock is held when the step at `i` is done.
pub open spec fn lock_is_held(steps: Seq<RunStep>, i: int) -> bool {
    exists|j: int|
        0 <= j < i && #[trigger] steps[j] == RunStep::Lock && forall|k: int|
            j < k < i ==> #[trigger] steps[k] != RunStep::Unlock
}

/// What a build prepared is changed only while its lock is held.
pub proof fn builds_are_changed_under_lock(operation: Operation, i: int)
    requires
        0 <= i < run_steps(operation).len(),
        changes_build(run_steps(operation)[i]),
    ensures
        lock_is_held(run_steps(operation), i),
{
    let steps = run_steps(operation);
    assert(steps[2] == RunStep::Lock);
}

/// Serving what was built takes no lock, and changes nothing.
pub proof fn preview_takes_no_lock(operation: Operation, i: int)
    requires
        operation is Preview,
        0 <= i < run_steps(operation).len(),
    ensures
        run_steps(operation)[i] != RunStep::Lock,
        !changes_build(run_steps(operation)[i]),
{
}

/// A lock that is taken is given back, once, and nothing of the build is changed behind that.
pub proof fn locks_are_given_back(operation: Operation, i: int)
    requires
        0 <= i < run_steps(operation).len(),
        run_steps(operation)[i] == RunStep::Lock,
    ensures
        exists|j: int|
            i < j < run_steps(operation).len() && #[trigger] run_steps(operation)[j]
                == RunStep::Unlock && forall|k: int|
                0 <= k < run_steps(operation).len() && k != j ==> #[trigger] run_steps(operation)[k]
                    != RunStep::Unlock && (k > j ==> !changes_build(run_steps(operation)[k])),
{
    let steps = run_steps(operation);
    let at = if operation is Clean {
        3
    } else {
        steps.len() - 1
    };
    assert(steps[at] == RunStep::Unlock);
}

/// Every command does its own work: `build`, `serve` and `check` prepare the build and then render,
/// serve or check it; editorial commands validate first, and an editorial check prepares and checks
/// behind that; `changed` lists, `clean` removes the build, `preview` serves what was built; and the
/// commands around a workspace do one thing each.
pub proof fn commands_do_their_work(operation: Operation)
    ensures
        ({
            let steps = run_steps(operation);
            let n = steps.len() as int;
            match operation {
                Operation::Build { .. } => n == 6 && steps[3] == RunStep::Prepare && steps[4]
                    == RunStep::Build,
                Operation::Serve { .. } => n == 6 && steps[3] == RunStep::Prepare && steps[4]
                    == RunStep::Serve,
                Operation::Check => n == 6 && steps[3] == RunStep::Prepare && steps[4]
                    == RunStep::Check,
                Operation::Editorial { command: EditorialCommand::Lint(_) } => n == 5 && steps[3]
                    == RunStep::EditorialLint,
                Operation::Editorial { command: EditorialCommand::Check(_) } => n == 7 && steps[3]
                    == RunStep::EditorialLint && steps[4] == RunStep::PrepareEditorial && steps[5]
                    == RunStep::Check,
                Operation::Changed { .. } => n == 5 && steps[3] == RunStep::ListChanged,
                Operation::Clean => n == 5 && steps[3] == RunStep::Unlock && steps[4]
                    == RunStep::RemoveBuildDir,
                Operation::Preview { .. } => n == 2 && steps[1] == RunStep::Preview,
                Operation::Init { .. } => n == 1 && steps[0] == RunStep::InitWorkspace,
                Operation::Doctor => n == 1 && steps[0] == RunStep::Doctor,
                Operation::Print => n == 1 && steps[0] == RunStep::Print,
            }
        }),
        !(operation is Init || operation is Doctor || operation is Print) ==> run_steps(
            operation,
        )[0] == RunStep::Resolve,
        !(operation is Init || operation is Doctor || operation is Print || operation is Preview)
            ==> run_steps(operation)[1] == RunStep::MakeBuildDir && run_steps(operation)[2]
            == RunStep::Lock,
{
}

} // verus!

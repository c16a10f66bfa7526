use vstd::prelude::*;

use super::error::ExecutorError;
use super::package::{edit_outcome, package_edit};
use super::service::service_edit;
use crate::command::Action;
use crate::planner::ExecutionPlan;
use crate::text::texts;

verus! {

/// The module file an action edits.
#[derive(Debug, Clone, Copy, PartialEq, Eq, Structural)]
pub enum ModuleFile {
    /// `modules/pkgs.nix`, the package list.
    Packages,
    /// `modules/core.nix`, the service settings.
    Core,
}

/// What the caller reports back after doing a step.
#[derive(Debug)]
pub enum ExecutionEvent {
    /// Nothing has been done yet.
    Started,
    /// The dry-run report was shown.
    Reported,
    /// The module file was read, or could not be.
    Read(Result<String, String>),
    /// The module file was written, or could not be.
    Written(Result<(), String>),
    /// `nixos-rebuild switch` ran, or failed.
    Rebuilt(Result<(), String>),
}

/// What the caller is to do next.
#[derive(Debug)]
pub enum ExecutionStep {
    /// Show these lines (a dry run).
    Report(Vec<String>),
    /// Read the module file.
    Read(ModuleFile),
    /// Write this text to the module file.
    Write(ModuleFile, String),
    /// Run `nixos-rebuild switch`.
    Rebuild,
    /// Stop, with this outcome.
    Done(Result<(), ExecutorError>),
}

/// The file that an action edits.
pub open spec fn module_file_for(action: Action) -> ModuleFile {
    if action.is_package_action() {
        ModuleFile::Packages
    } else {
        ModuleFile::Core
    }
}

/// The edit that a plan asks of the text of its module file.
pub open spec fn plan_edit(plan: ExecutionPlan, content: Seq<char>) -> Result<
    Option<Seq<char>>,
    Seq<char>,
> {
    if plan.action.is_package_action() {
        package_edit(plan, content)
    } else {
        service_edit(plan, content)
    }
}

/// The step is `Done` with a `NixosError` that says `message`.
pub open spec fn fails_with(step: ExecutionStep, message: Seq<char>) -> bool {
    step matches ExecutionStep::Done(Err(ExecutorError::NixosError(m))) && m@ == message
}

/// The lines of a dry-run report.
pub open spec fn dry_run_lines(plan: ExecutionPlan) -> Seq<Seq<char>> {
    seq![
        "========== Dry Run =========="@,
        "Action : "@ + plan.action.name_text(),
        "Target : "@ + plan.target.name@,
        "============================="@,
    ]
}

/// The step that follows `event` when carrying out `plan` for real.
pub open spec fn work_step(plan: ExecutionPlan, rebuild: bool, event: ExecutionEvent, step: ExecutionStep) -> bool {
    match event {
        ExecutionEvent::Started | ExecutionEvent::Reported => step == ExecutionStep::Read(
            module_file_for(plan.action),
        ),
        ExecutionEvent::Read(Err(e)) => fails_with(step, e@),
        ExecutionEvent::Read(Ok(content)) => match plan_edit(plan, content@) {
            Err(e) => fails_with(step, e),
            Ok(Some(t)) => step matches ExecutionStep::Write(f, s) && f == module_file_for(
                plan.action,
            ) && s@ == t,
            Ok(None) => step matches ExecutionStep::Done(Ok(())),
        },
        ExecutionEvent::Written(Err(e)) => fails_with(step, e@),
        ExecutionEvent::Written(Ok(())) => if rebuild {
            step is Rebuild
        } else {
            step matches ExecutionStep::Done(Ok(()))
        },
        ExecutionEvent::Rebuilt(Err(e)) => fails_with(step, e@),
        ExecutionEvent::Rebuilt(Ok(())) => step matches ExecutionStep::Done(Ok(())),
    }
}

/// The step that follows `event` when carrying out `plan`: a dry run shows
/// its report first and then ends well; any other plan is carried out and
/// the system rebuilt.
pub open spec fn execution_step(plan: ExecutionPlan, event: ExecutionEvent, step: ExecutionStep) -> bool {
    if plan.dry_run {
        match event {
            ExecutionEvent::Started => step matches ExecutionStep::Report(lines) && texts(lines@)
                == dry_run_lines(plan),
            _ => step matches ExecutionStep::Done(Ok(())),
        }
    } else {
        work_step(plan, true, event, step)
    }
}

/// A dry run never reads, writes or rebuilds anything.
pub proof fn law_dry_run_changes_nothing(plan: ExecutionPlan, event: ExecutionEvent, step: ExecutionStep)
    requires
        plan.dry_run,
        execution_step(plan, event, step),
    ensures
        step is Report || step is Done,
{
}

/// The system is rebuilt only right after the module file was written
/// successfully, and only when a rebuild was asked for.
pub proof fn law_rebuild_only_after_write(
    plan: ExecutionPlan,
    rebuild: bool,
    event: ExecutionEvent,
    step: ExecutionStep,
)
    requires
        work_step(plan, rebuild, event, step),
        step is Rebuild,
    ensures
        rebuild,
        event matches ExecutionEvent::Written(Ok(())),
{
}

/// Only the edit the plan asks for is written, to the file the action
/// edits, and only right after that file was read.
pub proof fn law_write_only_the_planned_edit(
    plan: ExecutionPlan,
    rebuild: bool,
    event: ExecutionEvent,
    step: ExecutionStep,
)
    requires
        work_step(plan, rebuild, event, step),
        step is Write,
    ensures
        event matches ExecutionEvent::Read(Ok(content)) && step matches ExecutionStep::Write(f, t)
            && f == module_file_for(plan.action) && plan_edit(plan, content@) == Ok::<
            Option<Seq<char>>,
            Seq<char>,
        >(Some(t@)),
{
}

/// A failure at any step ends the run with that failure's message.
pub proof fn law_failure_ends_the_run(
    plan: ExecutionPlan,
    rebuild: bool,
    event: ExecutionEvent,
    step: ExecutionStep,
)
    requires
        work_step(plan, rebuild, event, step),
        event matches ExecutionEvent::Read(Err(_)) || event matches ExecutionEvent::Written(Err(_))
            || event matches ExecutionEvent::Rebuilt(Err(_)),
    ensures
        step matches ExecutionStep::Done(Err(ExecutorError::NixosError(m))) && match event {
            ExecutionEvent::Read(Err(e)) => m@ == e@,
            ExecutionEvent::Written(Err(e)) => m@ == e@,
            ExecutionEvent::Rebuilt(Err(e)) => m@ == e@,
            _ => false,
        },
{
}

pub struct Executor;

impl Executor {
    /// The next step of carrying out `plan`.
    ///
    /// A dry run only shows its report and ends well; it never reads,
    /// writes or rebuilds. Otherwise the plan is carried out and the system
    /// rebuilt (see `execute_with_rebuild`).
    pub fn execute(plan: &ExecutionPlan, event: ExecutionEvent) -> (step: ExecutionStep)
        ensures
            execution_step(*plan, event, step),
    {
        if plan.dry_run {
            match event {
                ExecutionEvent::Started => ExecutionStep::Report(Self::dry_run_report(plan)),
                _ => ExecutionStep::Done(Ok(())),
            }
        } else {
            Self::execute_with_rebuild(plan, true, event)
        }
    }

    /// The lines of the dry-run report.
    fn dry_run_report(plan: &ExecutionPlan) -> (lines: Vec<String>)
        ensures
            texts(lines@) == dry_run_lines(*plan),
    {
        let mut lines: Vec<String> = Vec::new();
        lines.push(String::from_str("========== Dry Run =========="));
        let mut action = String::from_str("Action : ");
        action.append(plan.action.name());
        lines.push(action);
        let mut target = String::from_str("Target : ");
        target.append(plan.target.name.as_str());
        lines.push(target);
        lines.push(String::from_str("============================="));
        assert(texts(lines@) =~= dry_run_lines(*plan));
        lines
    }

    /// The next step of carrying out `plan`, rebuilding the system at the
    /// end when `rebuild` is set.
    ///
    /// The steps are: read the module file the action edits; edit the text
    /// (see `plan_edit`); write the result back; rebuild. A failure at any
    /// step ends the run with a `NixosError` that carries its message, and
    /// nothing after it is done. Only a successful write leads to a rebuild.
    pub fn execute_with_rebuild(plan: &ExecutionPlan, rebuild: bool, event: ExecutionEvent) -> (step:
        ExecutionStep)
        ensures
            work_step(*plan, rebuild, event, step),
    {
        let file = Self::module_file(plan.action);
        match event {
            ExecutionEvent::Started | ExecutionEvent::Reported => ExecutionStep::Read(file),
            ExecutionEvent::Read(Err(e)) => ExecutionStep::Done(Err(ExecutorError::NixosError(e))),
            ExecutionEvent::Read(Ok(content)) => {
                let edited = match plan.action {
                    Action::InstallPackage | Action::RemovePackage => super::package::execute(
                        plan,
                        content.as_str(),
                    ),
                    Action::EnableService | Action::DisableService => super::service::execute(
                        plan,
                        content.as_str(),
                    ),
                };
                match edited {
                    Ok(Some(updated)) => ExecutionStep::Write(file, updated),
                    Ok(None) => ExecutionStep::Done(Ok(())),
                    Err(e) => ExecutionStep::Done(Err(e)),
                }
            },
            ExecutionEvent::Written(Err(e)) => ExecutionStep::Done(
                Err(ExecutorError::NixosError(e)),
            ),
            ExecutionEvent::Written(Ok(())) => if rebuild {
                ExecutionStep::Rebuild
            } else {
                ExecutionStep::Done(Ok(()))
            },
            ExecutionEvent::Rebuilt(Err(e)) => ExecutionStep::Done(
                Err(ExecutorError::NixosError(e)),
            ),
            ExecutionEvent::Rebuilt(Ok(())) => ExecutionStep::Done(Ok(())),
        }
    }

    /// The module file that `action` edits.
    pub fn module_file(action: Action) -> (f: ModuleFile)
        ensures
            f == module_file_for(action),
    {
        match action {
            Action::InstallPackage | Action::RemovePackage => ModuleFile::Packages,
            Action::EnableService | Action::DisableService => ModuleFile::Core,
        }
    }
}

} // verus!

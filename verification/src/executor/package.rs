use vstd::prelude::*;

use super::error::ExecutorError;
use crate::command::Action;
use crate::nixos::module::{
    add_package_to_content, added_package, law_removed_package_gone, remove_package_from_content,
    removed_package, some_line_is,
};
use crate::text::{lines, trim};
use crate::planner::ExecutionPlan;

verus! {

/// The outcome of an edit: the new text, nothing to write, or the failure.
pub open spec fn edit_outcome(r: Result<Option<String>, ExecutorError>) -> Result<
    Option<Seq<char>>,
    Seq<char>,
> {
    match r {
        Ok(Some(s)) => Ok(Some(s@)),
        Ok(None) => Ok(None),
        Err(ExecutorError::NixosError(e)) => Err(e@),
        Err(ExecutorError::PackageError(e)) => Err(e@),
        Err(ExecutorError::ServiceError(e)) => Err(e@),
    }
}

/// The package-list edit a plan asks for.
pub open spec fn package_edit(plan: ExecutionPlan, content: Seq<char>) -> Result<
    Option<Seq<char>>,
    Seq<char>,
> {
    let r = match plan.action {
        Action::InstallPackage => added_package(content, plan.target.name@),
        Action::RemovePackage => removed_package(content, plan.target.name@),
        _ => Ok(content),
    };
    if plan.action.is_package_action() {
        match r {
            Ok(t) => Ok(Some(t)),
            Err(e) => Err(e),
        }
    } else {
        Ok(None)
    }
}

/// Edits the package list `content` as the plan asks: adds the package for
/// an install, removes it for a removal; other actions leave it alone
/// (`None`). Failures are `NixosError`s.
pub fn execute(plan: &ExecutionPlan, content: &str) -> (r: Result<Option<String>, ExecutorError>)
    ensures
        edit_outcome(r) == package_edit(*plan, content@),
        r matches Err(e) ==> e is NixosError,
{
    match plan.action {
        Action::InstallPackage => match add_package_to_content(content, plan.target.name.as_str()) {
            Ok(updated) => Ok(Some(updated)),
            Err(e) => Err(ExecutorError::NixosError(e)),
        },
        Action::RemovePackage => match remove_package_from_content(
            content,
            plan.target.name.as_str(),
        ) {
            Ok(updated) => Ok(Some(updated)),
            Err(e) => Err(ExecutorError::NixosError(e)),
        },
        _ => Ok(None),
    }
}

/// Removing a package takes it out: the edit is the removal, it succeeds
/// only when some line of the list, trimmed, is the package, and no line of
/// what it writes, trimmed, is the package.
pub proof fn law_remove_takes_the_package_out(plan: ExecutionPlan, content: Seq<char>)
    requires
        plan.action == Action::RemovePackage,
    ensures
        package_edit(plan, content) == match removed_package(content, plan.target.name@) {
            Ok(t) => Ok(Some(t)),
            Err(e) => Err(e),
        },
        package_edit(plan, content) is Ok ==> exists|k: int|
            0 <= k < lines(content).len() && #[trigger] trim(lines(content)[k])
                == plan.target.name@,
        package_edit(plan, content) matches Ok(Some(t)) ==> forall|k: int|
            0 <= k < lines(t).len() ==> #[trigger] trim(lines(t)[k]) != plan.target.name@,
{
    law_removed_package_gone(content, plan.target.name@);
    if removed_package(content, plan.target.name@) is Ok {
        let t = removed_package(content, plan.target.name@)->Ok_0;
        assert(!some_line_is(lines(t), plan.target.name@));
    }
}

} // verus!

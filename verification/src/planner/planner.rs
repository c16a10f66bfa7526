use vstd::prelude::*;

use super::execution_plan::ExecutionPlan;
use crate::command::Action;
use crate::resolver::ResolvedTarget;

verus! {

pub struct Planner;

impl Planner {
    /// The plan that carries out `action` on `target`; it is not a dry run.
    pub fn create(action: Action, target: ResolvedTarget) -> (plan: ExecutionPlan)
        ensures
            plan.action == action,
            plan.target == target,
            !plan.dry_run,
    {
        ExecutionPlan { action, target, dry_run: false }
    }
}

} // verus!

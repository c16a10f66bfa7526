use vstd::prelude::*;

use crate::command::Action;
use crate::resolver::ResolvedTarget;

verus! {

/// What will be done: the action, its resolved target, and whether only to
/// report it.
#[derive(Debug, Clone)]
pub struct ExecutionPlan {
    pub action: Action,
    pub target: ResolvedTarget,
    pub dry_run: bool,
}

} // verus!

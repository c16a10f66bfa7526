use vstd::prelude::*;

use super::error::ExecutorError;
use super::package::edit_outcome;
use crate::command::Action;
use crate::nixos::module::{add_service_to_content, law_setting_is_written, service_set};
use crate::text::contains_seq;
use crate::planner::ExecutionPlan;

verus! {

/// The service-setting edit a plan asks for.
pub open spec fn service_edit(plan: ExecutionPlan, content: Seq<char>) -> Result<
    Option<Seq<char>>,
    Seq<char>,
> {
    match plan.action {
        Action::EnableService => match service_set(content, plan.target.name@, true) {
            Ok(t) => Ok(Some(t)),
            Err(e) => Err(e),
        },
        Action::DisableService => match service_set(content, plan.target.name@, false) {
            Ok(t) => Ok(Some(t)),
            Err(e) => Err(e),
        },
        _ => Ok(None),
    }
}

/// Edits the module `content` as the plan asks: enables or disables the
/// service; other actions leave it alone (`None`). Failures are
/// `NixosError`s.
pub fn execute(plan: &ExecutionPlan, content: &str) -> (r: Result<Option<String>, ExecutorError>)
    ensures
        edit_outcome(r) == service_edit(*plan, content@),
        r matches Err(e) ==> e is NixosError,
{
    let enabled = match plan.action {
        Action::EnableService => true,
        Action::DisableService => false,
        _ => {
            return Ok(None);
        },
    };
    match add_service_to_content(content, plan.target.name.as_str(), enabled) {
        Ok(updated) => Ok(Some(updated)),
        Err(e) => Err(ExecutorError::NixosError(e)),
    }
}

/// Disabling a service writes it disabled: the edit is setting the service
/// to `false`, and what it writes holds
/// `systemd.services.<service>.enable = false;`.
pub proof fn law_disable_writes_false(plan: ExecutionPlan, content: Seq<char>)
    requires
        plan.action == Action::DisableService,
    ensures
        service_edit(plan, content) == match service_set(content, plan.target.name@, false) {
            Ok(t) => Ok(Some(t)),
            Err(e) => Err(e),
        },
        service_edit(plan, content) matches Ok(Some(t)) ==> contains_seq(
            t,
            "systemd.services."@ + plan.target.name@ + ".enable = false;"@,
        ),
{
    law_setting_is_written(content, plan.target.name@, false);
    reveal_strlit(".enable = false;");
    reveal_strlit(".enable = ");
    reveal_strlit("false");
    reveal_strlit(";");
    assert("systemd.services."@ + plan.target.name@ + ".enable = "@ + "false"@ + ";"@
        =~= "systemd.services."@ + plan.target.name@ + ".enable = false;"@);
}

/// Enabling a service writes it enabled: the edit is setting the service
/// to `true`, and what it writes holds
/// `systemd.services.<service>.enable = true;`.
pub proof fn law_enable_writes_true(plan: ExecutionPlan, content: Seq<char>)
    requires
        plan.action == Action::EnableService,
    ensures
        service_edit(plan, content) == match service_set(content, plan.target.name@, true) {
            Ok(t) => Ok(Some(t)),
            Err(e) => Err(e),
        },
        service_edit(plan, content) matches Ok(Some(t)) ==> contains_seq(
            t,
            "systemd.services."@ + plan.target.name@ + ".enable = true;"@,
        ),
{
    law_setting_is_written(content, plan.target.name@, true);
    reveal_strlit(".enable = true;");
    reveal_strlit(".enable = ");
    reveal_strlit("true");
    reveal_strlit(";");
    assert("systemd.services."@ + plan.target.name@ + ".enable = "@ + "true"@ + ";"@
        =~= "systemd.services."@ + plan.target.name@ + ".enable = true;"@);
}

} // verus!

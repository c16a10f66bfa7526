use nixos_json_controller::command::{Action, Command, Target};
use nixos_json_controller::executor::{ExecutionEvent, ExecutionStep, Executor, ExecutorError, ModuleFile};
use nixos_json_controller::planner::{ExecutionPlan, Planner};
use nixos_json_controller::resolver::Resolver;
use nixos_json_controller::validator::Validator;

const PACKAGES: &str = "{ pkgs, ... }:\n{\n  environment.systemPackages = with pkgs; [\n    firefox\n  ];\n}\n";
const CORE: &str = "{ ... }:\n{\n  services.xserver.enable = true;\n}\n";

/// Carries out `plan` against module files that hold `PACKAGES` and
/// `CORE`, answering every step with success.
fn carry_out(plan: ExecutionPlan) -> Result<(), ExecutorError> {
    let mut event = ExecutionEvent::Started;
    loop {
        event = match Executor::execute(&plan, event) {
            ExecutionStep::Report(_) => ExecutionEvent::Reported,
            ExecutionStep::Read(ModuleFile::Packages) => ExecutionEvent::Read(Ok(PACKAGES.to_string())),
            ExecutionStep::Read(ModuleFile::Core) => ExecutionEvent::Read(Ok(CORE.to_string())),
            ExecutionStep::Write(_, _) => ExecutionEvent::Written(Ok(())),
            ExecutionStep::Rebuild => ExecutionEvent::Rebuilt(Ok(())),
            ExecutionStep::Done(outcome) => return outcome,
        };
    }
}

fn pipeline(action: Action, target: &str) -> Result<(), ExecutorError> {
    let command = Command { action, target: Target { raw: target.to_string() } };
    Validator::validate(&command).unwrap();
    let action = command.action;
    let resolved = Resolver::resolve(action, command.target).expect("failed to resolve target");
    let plan = Planner::create(command.action, resolved);
    carry_out(plan)
}

#[test]
fn pipeline_install_package_pipeline() {
    let result = pipeline(Action::InstallPackage, "firefox");
    assert!(result.is_ok());
}

#[test]
fn pipeline_enable_service_pipeline() {
    let result = pipeline(Action::EnableService, "openssh");
    assert!(result.is_ok());
}

#[test]
fn remove_package_pipeline() {
    let result = pipeline(Action::RemovePackage, "firefox");
    assert!(result.is_ok());
}

#[test]
fn disable_service_pipeline() {
    let result = pipeline(Action::DisableService, "openssh");
    assert!(result.is_ok());
}

#[test]
fn pipeline_with_an_alias() {
    let result = pipeline(Action::RemovePackage, "ファイアフォックス");
    assert!(result.is_ok());
}

use nixos_json_controller::command::Action;
use nixos_json_controller::executor::{
    ExecutionEvent, ExecutionStep, Executor, ExecutorError, ModuleFile,
};
use nixos_json_controller::planner::ExecutionPlan;
use nixos_json_controller::resolver::ResolvedTarget;

const PACKAGES: &str = "{ config, pkgs, ... }:\n\n{\nenvironment.systemPackages = with pkgs; [\n  git\n  firefox\n];\n}\n";

const CORE: &str = "{ config, pkgs, ... }:\n\n{\n  networking.hostName = \"nixos-laptop\";\n  systemd.services.openssh.enable = false;\n}\n";

/// What a run did: its outcome, the steps taken, and what was written.
struct Run {
    outcome: Result<(), ExecutorError>,
    reads: Vec<ModuleFile>,
    writes: Vec<(ModuleFile, String)>,
    rebuilds: usize,
    report: Vec<String>,
}

/// Carries out `plan` against module files that hold `packages` and
/// `core`; `rebuild` is `None` for `Executor::execute`.
fn drive(plan: &ExecutionPlan, rebuild: Option<bool>, packages: &str, core: &str) -> Run {
    let mut run = Run { outcome: Ok(()), reads: Vec::new(), writes: Vec::new(), rebuilds: 0, report: Vec::new() };
    let mut event = ExecutionEvent::Started;
    for _ in 0..10 {
        let step = match rebuild {
            None => Executor::execute(plan, event),
            Some(r) => Executor::execute_with_rebuild(plan, r, event),
        };
        event = match step {
            ExecutionStep::Report(lines) => {
                run.report = lines;
                ExecutionEvent::Reported
            }
            ExecutionStep::Read(file) => {
                run.reads.push(file);
                let text = match file {
                    ModuleFile::Packages => packages,
                    ModuleFile::Core => core,
                };
                ExecutionEvent::Read(Ok(text.to_string()))
            }
            ExecutionStep::Write(file, text) => {
                run.writes.push((file, text));
                ExecutionEvent::Written(Ok(()))
            }
            ExecutionStep::Rebuild => {
                run.rebuilds += 1;
                ExecutionEvent::Rebuilt(Ok(()))
            }
            ExecutionStep::Done(outcome) => {
                run.outcome = outcome;
                return run;
            }
        };
    }
    panic!("the run did not end");
}

fn plan(action: Action, name: &str, dry_run: bool) -> ExecutionPlan {
    ExecutionPlan { action, target: ResolvedTarget { name: name.to_string() }, dry_run }
}

#[test]
fn tests_create_rebuild_command() {
    let plan = ExecutionPlan {
        action: Action::InstallPackage,
        target: ResolvedTarget { name: "firefox".to_string() },
        dry_run: false,
    };

    let command = Executor::execute_with_rebuild;

    let _ = command;

    assert_eq!(plan.target.name, "firefox");
}

#[test]
fn execute_dry_run() {
    let plan = plan(Action::InstallPackage, "firefox", true);
    let run = drive(&plan, None, PACKAGES, CORE);
    assert!(run.outcome.is_ok());
}

#[test]
fn execute_install_package() {
    let plan = plan(Action::InstallPackage, "firefox", false);
    let run = drive(&plan, Some(false), PACKAGES, CORE);
    assert!(run.outcome.is_ok());
}

#[test]
fn execute_remove_package() {
    let plan = plan(Action::RemovePackage, "firefox", false);
    let run = drive(&plan, Some(false), PACKAGES, CORE);
    assert!(run.outcome.is_ok());
}

#[test]
fn execute_enable_service() {
    let plan = plan(Action::EnableService, "openssh", false);
    let run = drive(&plan, Some(false), PACKAGES, CORE);
    assert!(run.outcome.is_ok());
}

#[test]
fn execute_disable_service() {
    let plan = plan(Action::DisableService, "openssh", false);
    let run = drive(&plan, Some(false), PACKAGES, CORE);
    assert!(run.outcome.is_ok());
}

#[test]
fn dry_run_reports_and_touches_nothing() {
    let plan = plan(Action::RemovePackage, "firefox", true);
    let run = drive(&plan, None, PACKAGES, CORE);
    assert!(run.outcome.is_ok());
    assert!(run.reads.is_empty());
    assert!(run.writes.is_empty());
    assert_eq!(run.rebuilds, 0);
    assert_eq!(
        run.report,
        vec![
            "========== Dry Run ==========".to_string(),
            "Action : RemovePackage".to_string(),
            "Target : firefox".to_string(),
            "=============================".to_string(),
        ]
    );
}

#[test]
fn install_writes_the_package_list_then_rebuilds() {
    let plan = plan(Action::InstallPackage, "curl", false);
    let run = drive(&plan, None, PACKAGES, CORE);
    assert!(run.outcome.is_ok());
    assert_eq!(run.reads, vec![ModuleFile::Packages]);
    assert_eq!(run.writes.len(), 1);
    assert_eq!(run.writes[0].0, ModuleFile::Packages);
    assert_eq!(
        run.writes[0].1,
        "{ config, pkgs, ... }:\n\n{\nenvironment.systemPackages = with pkgs; [\n  curl\n  git\n  firefox\n];\n}\n"
    );
    assert_eq!(run.rebuilds, 1);
}

#[test]
fn service_edits_the_core_module() {
    let plan = plan(Action::EnableService, "openssh", false);
    let run = drive(&plan, Some(false), PACKAGES, CORE);
    assert_eq!(run.reads, vec![ModuleFile::Core]);
    assert_eq!(
        run.writes[0].1,
        "{ config, pkgs, ... }:\n\n{\n  networking.hostName = \"nixos-laptop\";\n  systemd.services.openssh.enable = true;\n}\n"
    );
    assert_eq!(run.rebuilds, 0);
}

#[test]
fn failed_edit_stops_before_writing() {
    let plan = plan(Action::RemovePackage, "curl", false);
    let run = drive(&plan, None, PACKAGES, CORE);
    assert!(run.writes.is_empty());
    assert_eq!(run.rebuilds, 0);
    match run.outcome {
        Err(ExecutorError::NixosError(m)) => assert_eq!(m, "package 'curl' not found"),
        other => panic!("unexpected outcome {other:?}"),
    }
}

#[test]
fn failed_read_write_and_rebuild_end_the_run() {
    let plan = plan(Action::InstallPackage, "curl", false);
    let step = Executor::execute(&plan, ExecutionEvent::Read(Err("no such file".to_string())));
    assert!(matches!(step, ExecutionStep::Done(Err(ExecutorError::NixosError(ref m))) if m == "no such file"));
    let step = Executor::execute(&plan, ExecutionEvent::Written(Err("read-only".to_string())));
    assert!(matches!(step, ExecutionStep::Done(Err(ExecutorError::NixosError(ref m))) if m == "read-only"));
    let step = Executor::execute(&plan, ExecutionEvent::Rebuilt(Err("nixos-rebuild failed".to_string())));
    assert!(matches!(step, ExecutionStep::Done(Err(ExecutorError::NixosError(ref m))) if m == "nixos-rebuild failed"));
}

#[test]
fn module_files_by_action() {
    assert_eq!(Executor::module_file(Action::InstallPackage), ModuleFile::Packages);
    assert_eq!(Executor::module_file(Action::RemovePackage), ModuleFile::Packages);
    assert_eq!(Executor::module_file(Action::EnableService), ModuleFile::Core);
    assert_eq!(Executor::module_file(Action::DisableService), ModuleFile::Core);
}

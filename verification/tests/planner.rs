use nixos_json_controller::command::{Action, Target};
use nixos_json_controller::planner::Planner;
use nixos_json_controller::resolver::{ResolvedTarget, Resolver};

fn create_resolved_target(name: &str) -> ResolvedTarget {
    ResolvedTarget { name: name.to_string() }
}

#[test]
fn create_install_package_plan() {
    let action = Action::InstallPackage;
    let target = create_resolved_target("firefox");
    let plan = Planner::create(action, target);
    assert!(matches!(plan.action, Action::InstallPackage));
    assert_eq!(plan.target.name, "firefox");
}

#[test]
fn create_enable_service_plan() {
    let action = Action::EnableService;
    let target = create_resolved_target("openssh");
    let plan = Planner::create(action, target);
    assert!(matches!(plan.action, Action::EnableService));
    assert_eq!(plan.target.name, "openssh");
}

#[test]
fn create_install_package_plan_from_dictionary_alias() {
    let target = Target { raw: "ファイヤーフォックス".to_string() };
    let resolved = Resolver::resolve(Action::InstallPackage, target).unwrap();
    let plan = Planner::create(Action::InstallPackage, resolved);
    assert!(matches!(plan.action, Action::InstallPackage));
    assert_eq!(plan.target.name, "firefox");
}

#[test]
fn plans_are_never_dry_runs() {
    let plan = Planner::create(Action::DisableService, create_resolved_target("openssh"));
    assert!(!plan.dry_run);
}

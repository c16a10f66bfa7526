use nixos_json_controller::command::{Action, Target};
use nixos_json_controller::resolver::Resolver;

fn create_target(name: &str) -> Target {
    Target { raw: name.to_string() }
}

#[test]
fn resolve_package_name() {
    let target = create_target("firefox");
    let result = Resolver::resolve(Action::InstallPackage, target).unwrap();
    assert_eq!(result.name, "firefox");
}

#[test]
fn resolve_service_name() {
    let target = create_target("openssh");
    let result = Resolver::resolve(Action::EnableService, target).unwrap();
    assert_eq!(result.name, "openssh");
}

#[test]
fn reject_service_as_package() {
    let target = create_target("ssh");
    let result = Resolver::resolve(Action::InstallPackage, target);
    assert!(result.is_err());
}

#[test]
fn reject_package_as_service() {
    let target = create_target("firefox");
    let result = Resolver::resolve(Action::EnableService, target);
    assert!(result.is_err());
}

#[test]
fn unknown_target_message_names_the_target() {
    let result = Resolver::resolve(Action::RemovePackage, create_target("emacs"));
    assert_eq!(result.unwrap_err(), "unknown target: emacs");
    let result = Resolver::resolve(Action::DisableService, create_target("nginx"));
    assert_eq!(result.unwrap_err(), "unknown target: nginx");
}

#[test]
fn aliases_resolve_for_every_action_of_their_kind() {
    let r = Resolver::resolve(Action::RemovePackage, create_target("火狐")).unwrap();
    assert_eq!(r.name, "firefox");
    let r = Resolver::resolve(Action::DisableService, create_target("sshd")).unwrap();
    assert_eq!(r.name, "openssh");
}

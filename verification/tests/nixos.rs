use nixos_json_controller::nixos::discovery::state::{state_path, validate_discovery};
use nixos_json_controller::nixos::discovery::{
    evaluate_nixos_configuration, ContextProbe, DiscoveryContext, DiscoveryMetadata,
    DiscoveryResult, FileMetadata, SelectionMethod,
};
use nixos_json_controller::nixos::flake::{
    configuration_name, core_path, discovery_context, pkgs_path, repository_path,
    DISCOVERY_ERROR_MESSAGE,
};
use nixos_json_controller::nixos::generator::NixModule;
use nixos_json_controller::nixos::import::ensure_generated_module;
use nixos_json_controller::nixos::module;
use nixos_json_controller::nixos::rebuild::{rebuild_arguments, switch_with_context, REBUILD_PROGRAM};
use nixos_json_controller::path::join;

const NIX_CONFIG_PATH: &str = "/home/nakaoku/Projects/nix-config";

fn flake_nix_state() -> FileMetadata {
    FileMetadata { size: 2048, modified_ns: 1_700_000_000_000_000_000 }
}

fn saved_result() -> DiscoveryResult {
    DiscoveryResult {
        flake_root: NIX_CONFIG_PATH.to_string(),
        flake_file: join(NIX_CONFIG_PATH, "flake.nix"),
        selected_configuration: evaluate_nixos_configuration(
            "laptop",
            "x86_64-linux".to_string(),
            "nixos-laptop".to_string(),
        ),
        selection_method: SelectionMethod::HostnameMatch,
        metadata: Some(DiscoveryMetadata {
            discovered_at: 1_700_000_100,
            flake_nix: flake_nix_state(),
            flake_lock: None,
        }),
    }
}

fn laptop_probe() -> ContextProbe {
    ContextProbe {
        flake_root_is_dir: true,
        flake_file_is_file: true,
        current_hostname: Some("nixos-laptop".to_string()),
        current_system: "x86_64-linux".to_string(),
        flake_nix_metadata: Ok(flake_nix_state()),
        flake_lock_metadata: None,
    }
}

fn context() -> Result<DiscoveryContext, String> {
    DiscoveryContext::load(Ok(saved_result()), &laptop_probe())
}

// ============================================================
// Generator
// ============================================================

#[test]
fn generate_empty_package_module() {
    let module = NixModule { packages: vec![] };
    let result = module.generate();
    assert_eq!(result, "environment.systemPackages = with pkgs; [\n];\n");
}

#[test]
fn generate_single_package_module() {
    let module = NixModule { packages: vec!["firefox".to_string()] };
    let result = module.generate();
    assert_eq!(result, "environment.systemPackages = with pkgs; [\n  firefox\n];\n");
}

#[test]
fn generate_multiple_package_module() {
    let module = NixModule {
        packages: vec!["firefox".to_string(), "git".to_string(), "curl".to_string()],
    };
    let result = module.generate();
    assert_eq!(
        result,
        "environment.systemPackages = with pkgs; [\n  firefox\n  git\n  curl\n];\n"
    );
}

#[test]
fn generate_module_contains_package() {
    let module = NixModule { packages: vec!["firefox".to_string()] };
    let result = module.generate();
    assert!(result.contains("firefox"));
    assert!(result.contains("environment.systemPackages"));
}

// ============================================================
// Module
// ============================================================

#[test]
fn module_add_package() {
    let content = r#"{ config, pkgs, ... }:

{
environment.systemPackages = with pkgs; [
  git
  curl
];
}
"#;

    let result = module::add_package_to_content(content, "firefox").unwrap();

    assert!(result.contains("  firefox"));
    assert!(result.contains("  git"));
    assert!(result.contains("  curl"));
}

#[test]
fn module_add_package_keeps_existing_content() {
    let content = r#"{ config, pkgs, ... }:

{
environment.systemPackages = with pkgs; [
  git
];

nixpkgs.config.allowUnfree = true;
}
"#;

    let result = module::add_package_to_content(content, "firefox").unwrap();

    assert!(result.contains("  git"));
    assert!(result.contains("  firefox"));
    assert!(result.contains("nixpkgs.config.allowUnfree = true;"));
}

#[test]
fn module_add_package_requires_package_section() {
    let content = r#"{ config, pkgs, ... }:

{
}
"#;

    let result = module::add_package_to_content(content, "firefox");

    assert!(result.is_err());
}

#[test]
fn added_package_line_follows_the_marker() {
    let content = "a\nenvironment.systemPackages = with pkgs; [\n  git\n];\n";
    assert_eq!(
        module::add_package_to_content(content, "firefox").unwrap(),
        "a\nenvironment.systemPackages = with pkgs; [\n  firefox\n  git\n];\n"
    );
    assert_eq!(
        module::add_package_to_content("{}", "firefox").unwrap_err(),
        "environment.systemPackages section not found"
    );
}

#[test]
fn remove_package_lines() {
    let content = "environment.systemPackages = with pkgs; [\n  git\n  firefox\n  firefox  \n];\n";
    assert_eq!(
        module::remove_package_from_content(content, "firefox").unwrap(),
        "environment.systemPackages = with pkgs; [\n  git\n];\n"
    );
    // Without a final newline, none is added.
    assert_eq!(module::remove_package_from_content("git\nfirefox", "firefox").unwrap(), "git");
    // Windows line ends are read as line ends.
    assert_eq!(module::remove_package_from_content("git\r\nfirefox\r\n", "firefox").unwrap(), "git\n");
    assert_eq!(
        module::remove_package_from_content("git\n", "firefox").unwrap_err(),
        "package 'firefox' not found"
    );
}

#[test]
fn add_then_remove_restores_the_module() {
    let content = "{ pkgs, ... }:\n{\n  environment.systemPackages = with pkgs; [\n    git\n  ];\n}\n";
    let added = module::add_package_to_content(content, "firefox").unwrap();
    assert_eq!(module::remove_package_from_content(&added, "firefox").unwrap(), content);
}

#[test]
fn service_settings() {
    let content = "{\n  systemd.services.openssh.enable = false;\n}\n";
    assert_eq!(
        module::add_service_to_content(content, "openssh", true).unwrap(),
        "{\n  systemd.services.openssh.enable = true;\n}\n"
    );
    // A service with no setting gets one before the last closing brace.
    assert_eq!(
        module::add_service_to_content("{\n  a = 1;\n}\n", "nginx", false).unwrap(),
        "{\n  a = 1;\n  systemd.services.nginx.enable = false;\n}\n"
    );
    assert_eq!(
        module::add_service_to_content("no braces", "nginx", true).unwrap_err(),
        "Nix module closing brace not found"
    );
}

#[test]
fn setting_a_service_twice_changes_nothing_more() {
    let content = "{\n  systemd.services.openssh.enable = false;\n  x = 1;\n}\n";
    let once = module::add_service_to_content(content, "openssh", true).unwrap();
    let twice = module::add_service_to_content(&once, "openssh", true).unwrap();
    assert_eq!(once, twice);
}

#[test]
fn edits_of_what_was_read() {
    let read: Result<String, String> = Err("permission denied".to_string());
    assert_eq!(module::add_package(read.clone(), "git").unwrap_err(), "permission denied");
    assert_eq!(module::remove_package(read.clone(), "git").unwrap_err(), "permission denied");
    assert_eq!(module::enable_service(read.clone(), "openssh").unwrap_err(), "permission denied");
    assert_eq!(module::disable_service(read, "openssh").unwrap_err(), "permission denied");
    let core = Ok("{\n}\n".to_string());
    assert_eq!(
        module::disable_service(core, "openssh").unwrap(),
        "{\n  systemd.services.openssh.enable = false;\n}\n"
    );
}

// ============================================================
// Flake discovery
// ============================================================

#[test]
fn repository_paths() {
    let context = context();
    let repository = repository_path(&context).unwrap();

    assert_eq!(context.as_ref().unwrap().flake_file(), join(&repository, "flake.nix"));
    assert!(join(&repository, "flake.nix").contains("nix-config"));
    assert_eq!(
        pkgs_path(&context).unwrap(),
        join(&join(&repository, "modules"), "pkgs.nix")
    );
}

#[test]
fn repository_path_is_not_controller_repository() {
    let repository = repository_path(&context()).unwrap();
    let controller_repository = "/home/nakaoku/Projects/nixos-json-controller";
    assert_ne!(repository, controller_repository);
}

#[test]
fn paths_need_a_usable_discovery() {
    let missing = DiscoveryContext::load(Err("not found".to_string()), &laptop_probe());
    assert_eq!(repository_path(&missing).unwrap_err(), DISCOVERY_ERROR_MESSAGE);
    assert_eq!(configuration_name(&missing).unwrap_err(), DISCOVERY_ERROR_MESSAGE);
    assert_eq!(core_path(&missing).unwrap_err(), DISCOVERY_ERROR_MESSAGE);
    assert_eq!(configuration_name(&context()).unwrap(), "laptop");
    assert_eq!(core_path(&context()).unwrap(), "/home/nakaoku/Projects/nix-config/modules/core.nix");
}

#[test]
fn rebuild_command_for_discovered_flake() {
    let context = context().unwrap();
    assert_eq!(REBUILD_PROGRAM, "sudo");
    let args = rebuild_arguments(&context);
    let expected_flake = format!("{}#laptop", NIX_CONFIG_PATH);
    assert_eq!(
        args,
        vec![
            "nixos-rebuild".to_string(),
            "switch".to_string(),
            "--flake".to_string(),
            expected_flake,
        ]
    );
}

#[test]
fn rebuild_outcome() {
    assert!(switch_with_context(Ok(true)).is_ok());
    assert_eq!(switch_with_context(Ok(false)).unwrap_err(), "nixos-rebuild failed");
    assert_eq!(switch_with_context(Err("no sudo".to_string())).unwrap_err(), "no sudo");
}

#[test]
fn saved_discovery_is_checked() {
    let context = discovery_context(Ok(saved_result()), &laptop_probe()).unwrap();
    assert_eq!(context.flake_reference(), "/home/nakaoku/Projects/nix-config#laptop");
    assert_eq!(context.configuration_name(), "laptop");
    assert!(validate_discovery(Ok(saved_result()), &laptop_probe()).is_ok());
    assert_eq!(
        validate_discovery(Err("missing".to_string()), &laptop_probe()).unwrap_err(),
        "NixOS flake discovery is not available. Run `nxc discover` first."
    );
}

#[test]
fn stale_discovery_is_refused() {
    let mut probe = laptop_probe();
    probe.flake_nix_metadata = Ok(FileMetadata { size: 2049, modified_ns: 1 });
    assert_eq!(
        validate_discovery(Ok(saved_result()), &probe).unwrap_err(),
        "flake.nix has changed since discovery. Run `nxc discover` again."
    );

    let mut probe = laptop_probe();
    probe.current_hostname = Some("desktop".to_string());
    assert_eq!(
        validate_discovery(Ok(saved_result()), &probe).unwrap_err(),
        "current hostname 'desktop' does not match discovered hostname 'nixos-laptop'. Run `nxc discover` again."
    );

    let mut probe = laptop_probe();
    probe.flake_root_is_dir = false;
    assert_eq!(
        validate_discovery(Ok(saved_result()), &probe).unwrap_err(),
        "discovered flake directory does not exist: /home/nakaoku/Projects/nix-config. Run `nxc discover` again."
    );

    let mut probe = laptop_probe();
    probe.flake_lock_metadata = Some(Ok(flake_nix_state()));
    assert_eq!(
        validate_discovery(Ok(saved_result()), &probe).unwrap_err(),
        "flake.lock was created since discovery. Run `nxc discover` again."
    );

    let mut result = saved_result();
    result.metadata = None;
    assert_eq!(
        validate_discovery(Ok(result), &laptop_probe()).unwrap_err(),
        "discovery state does not contain stale-check metadata. Run `nxc discover` again."
    );
}

#[test]
fn state_path_is_under_config_directory() {
    let path = state_path(None, Some("/home/nakaoku".to_string())).expect("failed to get state path");
    assert!(path.ends_with("nxc/discovery.json"));
}

#[test]
fn state_path_sources() {
    assert_eq!(
        state_path(None, Some("/home/u".to_string())).unwrap(),
        "/home/u/.config/nxc/discovery.json"
    );
    assert_eq!(
        state_path(Some("/xdg/".to_string()), Some("/home/u".to_string())).unwrap(),
        "/xdg/nxc/discovery.json"
    );
    assert_eq!(state_path(None, None).unwrap_err(), "HOME environment variable is not set");
}

#[test]
fn discovery_metadata_capture() {
    let lock = FileMetadata { size: 10, modified_ns: 20 };
    let m = DiscoveryMetadata::capture(Ok(flake_nix_state()), Some(Ok(lock)), Ok(99)).unwrap();
    assert_eq!(m, DiscoveryMetadata { discovered_at: 99, flake_nix: flake_nix_state(), flake_lock: Some(lock) });
    let m = DiscoveryMetadata::capture(Ok(flake_nix_state()), None, Ok(5)).unwrap();
    assert_eq!(m.flake_lock, None);
    assert_eq!(
        DiscoveryMetadata::capture(Err("nix".to_string()), Some(Err("lock".to_string())), Err("time".to_string()))
            .unwrap_err(),
        "nix"
    );
    assert_eq!(
        DiscoveryMetadata::capture(Ok(flake_nix_state()), Some(Err("lock".to_string())), Err("time".to_string()))
            .unwrap_err(),
        "lock"
    );
    assert_eq!(
        DiscoveryMetadata::capture(Ok(flake_nix_state()), None, Err("time".to_string())).unwrap_err(),
        "time"
    );
}

#[test]
fn generated_module_import() {
    let flake = "{\n  outputs = { nixpkgs, ... }: {\n    nixosConfigurations.laptop = nixpkgs.lib.nixosSystem {\n      modules = [\n        ./hosts/laptop\n      ];\n    };\n  };\n}\n";
    let updated = ensure_generated_module("/f/flake.nix", flake).unwrap().unwrap();
    assert_eq!(
        updated,
        "{\n  outputs = { nixpkgs, ... }: {\n    nixosConfigurations.laptop = nixpkgs.lib.nixosSystem {\n      modules = [\n          ./modules/generated.nix\n        ./hosts/laptop\n      ];\n    };\n  };\n}\n"
    );
    assert_eq!(ensure_generated_module("/f/flake.nix", &updated).unwrap(), None);
    assert_eq!(
        ensure_generated_module("/f/flake.nix", "{ }").unwrap_err(),
        "modules section not found in /f/flake.nix"
    );
}

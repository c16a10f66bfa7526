use nixos_json_controller::cli::{
    discovery_summary, interpret_arguments, plan_command, selection_method_name, CliRequest,
};
use nixos_json_controller::command::{Action, Command, Target};
use nixos_json_controller::nixos::discovery::{
    evaluate_nixos_configuration, inspect_flake, DiscoveryReport, DiscoveryResult,
    DiscoveryStatus, FilesystemInspection, FlakeCandidate, FlakeOutputs, SelectionMethod,
};

fn args(words: &[&str]) -> Vec<String> {
    words.iter().map(|w| w.to_string()).collect()
}

fn runs(request: Result<CliRequest, String>) -> (Action, String) {
    match request {
        Ok(CliRequest::Run(command)) => (command.action, command.target.raw),
        other => panic!("not a run: {other:?}"),
    }
}

#[test]
fn command_line_requests() {
    assert!(matches!(interpret_arguments(&args(&["--help"])), Ok(CliRequest::Help)));
    assert!(matches!(interpret_arguments(&args(&["-h"])), Ok(CliRequest::Help)));
    assert!(matches!(interpret_arguments(&args(&["discover"])), Ok(CliRequest::Discover)));
    assert_eq!(
        runs(interpret_arguments(&args(&["firefox"]))),
        (Action::InstallPackage, "firefox".to_string())
    );
    assert_eq!(
        runs(interpret_arguments(&args(&["i", "火狐"]))),
        (Action::InstallPackage, "火狐".to_string())
    );
    assert_eq!(
        runs(interpret_arguments(&args(&["r", "firefox"]))),
        (Action::RemovePackage, "firefox".to_string())
    );
    assert_eq!(
        runs(interpret_arguments(&args(&["e", "ssh"]))),
        (Action::EnableService, "ssh".to_string())
    );
    assert_eq!(
        runs(interpret_arguments(&args(&["d", "openssh"]))),
        (Action::DisableService, "openssh".to_string())
    );
}

#[test]
fn command_line_errors() {
    assert_eq!(
        interpret_arguments(&args(&["x", "firefox"])).unwrap_err(),
        "unknown operation. use i, r, e, or d"
    );
    assert_eq!(interpret_arguments(&args(&[])).unwrap_err(), "usage: nxc [i|r|e|d] <target>");
    assert_eq!(
        interpret_arguments(&args(&["i", "a", "b"])).unwrap_err(),
        "usage: nxc [i|r|e|d] <target>"
    );
    // `discover` and `--help` only stand alone.
    assert_eq!(
        runs(interpret_arguments(&args(&["i", "discover"]))),
        (Action::InstallPackage, "discover".to_string())
    );
}

#[test]
fn planning_a_command() {
    let command = |action, raw: &str| Command { action, target: Target { raw: raw.to_string() } };
    let plan = plan_command(command(Action::InstallPackage, "ファイヤーフォックス")).unwrap();
    assert_eq!(plan.action, Action::InstallPackage);
    assert_eq!(plan.target.name, "firefox");
    assert!(!plan.dry_run);
    let plan = plan_command(command(Action::EnableService, "ssh")).unwrap();
    assert_eq!(plan.target.name, "openssh");
    assert_eq!(plan_command(command(Action::InstallPackage, "")).unwrap_err(), "EmptyTarget");
    assert_eq!(
        plan_command(command(Action::InstallPackage, " git")).unwrap_err(),
        "LeadingOrTrailingWhitespace"
    );
    assert_eq!(
        plan_command(command(Action::EnableService, "firefox")).unwrap_err(),
        "unknown target: firefox"
    );
}

#[test]
fn selection_method_names() {
    assert_eq!(selection_method_name(&SelectionMethod::ExplicitCli), "explicit CLI");
    assert_eq!(selection_method_name(&SelectionMethod::ConfigFile), "config file");
    assert_eq!(selection_method_name(&SelectionMethod::EnvironmentVariable), "environment variable");
    assert_eq!(selection_method_name(&SelectionMethod::UniqueCandidate), "unique candidate");
    assert_eq!(selection_method_name(&SelectionMethod::HostnameMatch), "hostname match");
    assert_eq!(selection_method_name(&SelectionMethod::SystemMatch), "system match");
    assert_eq!(selection_method_name(&SelectionMethod::UserSelection), "user selection");
}

#[test]
fn discovery_summary_of_a_success() {
    let mut report = DiscoveryReport::new(DiscoveryStatus::Success);
    let mut configuration =
        evaluate_nixos_configuration("laptop", "x86_64-linux".to_string(), "nixos-laptop".to_string());
    report.selected = Some(DiscoveryResult {
        flake_root: "/home/user/Projects/nix-config".to_string(),
        flake_file: "/home/user/Projects/nix-config/flake.nix".to_string(),
        selected_configuration: configuration.clone(),
        selection_method: SelectionMethod::HostnameMatch,
        metadata: None,
    });
    assert_eq!(
        discovery_summary(&report, &vec![]).unwrap(),
        vec![
            "Candidate ranking:".to_string(),
            "Discovery successful.".to_string(),
            String::new(),
            "Flake: /home/user/Projects/nix-config".to_string(),
            "Configuration: laptop".to_string(),
            "Hostname: nixos-laptop".to_string(),
            "System: x86_64-linux".to_string(),
            "Selection: hostname match".to_string(),
        ]
    );
    configuration.hostname = None;
    report.selected.as_mut().unwrap().selected_configuration = configuration;
    assert_eq!(discovery_summary(&report, &vec![]).unwrap()[5], "Hostname: unknown");
    report.selected = None;
    assert_eq!(
        discovery_summary(&report, &vec![]).unwrap_err(),
        "discovery succeeded without a selected result"
    );
}

#[test]
fn discovery_summary_of_other_outcomes() {
    let candidates: Vec<FlakeCandidate> = (1..=11)
        .map(|i| FlakeCandidate::new(format!("/c{i}"), format!("/c{i}/flake.nix")))
        .collect();
    let lines =
        discovery_summary(&DiscoveryReport::new(DiscoveryStatus::MultipleCandidates), &candidates)
            .unwrap();
    // The ranking: a heading, then four lines for each candidate.
    assert_eq!(lines[0], "Candidate ranking:");
    assert_eq!(lines[1], "[1] /c1");
    assert_eq!(lines[2], "    score: 0");
    assert_eq!(lines[3], "    NixOS configurations: 0");
    assert_eq!(lines[4], "");
    assert_eq!(lines[41], "[11] /c11");
    let report = &lines[45..];
    assert_eq!(report.len(), 15);
    assert_eq!(report[0], "Multiple candidates found.");
    assert_eq!(report[2], "The target could not be selected automatically.");
    assert_eq!(report[4], "[1] /c1");
    assert_eq!(report[14], "[11] /c11");
    let lines =
        discovery_summary(&DiscoveryReport::new(DiscoveryStatus::NoCandidates), &candidates).unwrap();
    assert_eq!(lines.last().unwrap(), "No suitable NixOS flake candidates found.");
    assert_eq!(lines.len(), 46);
    let lines = discovery_summary(&DiscoveryReport::new(DiscoveryStatus::EvaluationFailed), &candidates)
        .unwrap();
    assert_eq!(lines.last().unwrap(), "Flake evaluation failed.");
}

#[test]
fn discovery_summary_shows_the_ranking() {
    let mut first = FlakeCandidate::new(
        "/home/user/Projects/nix-config".to_string(),
        "/home/user/Projects/nix-config/flake.nix".to_string(),
    );
    first.score.total = 108;
    let laptop =
        evaluate_nixos_configuration("laptop", "x86_64-linux".to_string(), "nixos-laptop".to_string());
    first.inspection = Some(inspect_flake(
        FilesystemInspection {
            flake_file_exists: true,
            flake_lock_exists: true,
            is_git_repository: true,
            has_hosts_directory: false,
            has_modules_directory: false,
            has_home_directory: false,
            has_system_directory: false,
            has_configuration_nix: false,
            has_hardware_configuration_nix: false,
            contains_nixos_configurations_text: true,
        },
        Ok(FlakeOutputs { nixos_configurations: vec![laptop.clone()] }),
        Some("nixos-laptop".to_string()),
        Some("x86_64-linux".to_string()),
    ));
    let mut second = FlakeCandidate::new(
        "/home/user/Projects/nixos-json-controller".to_string(),
        "/home/user/Projects/nixos-json-controller/flake.nix".to_string(),
    );
    second.score.total = 15;
    let mut report = DiscoveryReport::new(DiscoveryStatus::Success);
    report.selected = Some(DiscoveryResult {
        flake_root: "/home/user/Projects/nix-config".to_string(),
        flake_file: "/home/user/Projects/nix-config/flake.nix".to_string(),
        selected_configuration: laptop,
        selection_method: SelectionMethod::HostnameMatch,
        metadata: None,
    });
    let expected: Vec<String> = [
        "Candidate ranking:",
        "[1] /home/user/Projects/nix-config",
        "    score: 108",
        "    NixOS configurations: 1",
        "      - laptop (nixos-laptop, x86_64-linux)",
        "",
        "[2] /home/user/Projects/nixos-json-controller",
        "    score: 15",
        "    NixOS configurations: 0",
        "",
        "Discovery successful.",
        "",
        "Flake: /home/user/Projects/nix-config",
        "Configuration: laptop",
        "Hostname: nixos-laptop",
        "System: x86_64-linux",
        "Selection: hostname match",
    ]
    .iter()
    .map(|l| l.to_string())
    .collect();
    assert_eq!(discovery_summary(&report, &vec![first, second]).unwrap(), expected);
}

use nixos_json_controller::nixos::discovery::candidate::CandidateScore;
use nixos_json_controller::nixos::discovery::nix::{
    classify_error, collect_outputs, command_failure, evaluation_answer, machine_value,
    match_environment,
};
use nixos_json_controller::nixos::discovery::search::{candidate_precedes, inspect_filesystem};
use nixos_json_controller::nixos::discovery::{
    evaluate_nixos_configuration, inspect_candidate, inspect_candidates, inspect_flake,
    select_candidate, should_skip_directory, DiscoveryStatus, EvaluationErrorCategory, Evidence,
    FlakeCandidate, FlakeOutputs, FlakeProbe, InspectionResult, NixCommandError, NixEvaluation,
    NixFlakeMetadata, NixFlakeOutput, NixFlakeShow, NixosConfiguration, SearchOptions, SelectionMethod,
};
use nixos_json_controller::path::join;

const NIX_CONFIG_PATH: &str = "/home/nakaoku/Projects/nix-config";

fn full_probe() -> FlakeProbe {
    FlakeProbe {
        flake_file_exists: true,
        flake_lock_exists: true,
        is_git_repository: true,
        has_hosts_directory: true,
        has_modules_directory: true,
        has_home_directory: false,
        has_system_directory: false,
        has_configuration_nix: false,
        has_hardware_configuration_nix: false,
    }
}

fn laptop() -> NixosConfiguration {
    evaluate_nixos_configuration("laptop", "x86_64-linux".to_string(), "nixos-laptop".to_string())
}

/// What inspecting `candidate` gives on the laptop, where Nix evaluates
/// `configurations` (or fails with `failure`).
fn inspection_of(candidate: &FlakeCandidate, evaluation: Result<FlakeOutputs, NixCommandError>) -> InspectionResult {
    let filesystem = inspect_filesystem(candidate, &full_probe());
    inspect_flake(
        filesystem,
        evaluation,
        Some("nixos-laptop".to_string()),
        Some("x86_64-linux".to_string()),
    )
}

fn nix_config_candidate() -> FlakeCandidate {
    let root = NIX_CONFIG_PATH.to_string();
    let flake_file = join(&root, "flake.nix");
    let mut candidate = FlakeCandidate::new(root, flake_file);
    candidate.evidence.push(Evidence::NixosConfigurationsText);
    candidate
}

#[test]
fn evaluate_laptop_configuration() {
    let configuration = laptop();

    assert_eq!(configuration.name, "laptop");
    assert_eq!(configuration.system.as_deref(), Some("x86_64-linux"));
    assert_eq!(configuration.hostname.as_deref(), Some("nixos-laptop"));
}

#[test]
fn inspect_nix_config_candidate() {
    let candidate = nix_config_candidate();
    let inspection =
        inspection_of(&candidate, Ok(FlakeOutputs { nixos_configurations: vec![laptop()] }));
    let mut candidates = vec![candidate];
    inspect_candidates(&mut candidates, vec![inspection]);
    let candidate = candidates.remove(0);

    let inspection = candidate.inspection.clone().expect("inspection result not found");

    match inspection.nix_evaluation {
        NixEvaluation::Success { outputs } => {
            assert_eq!(outputs.nixos_configurations.len(), 1);

            let laptop = &outputs.nixos_configurations[0];

            assert_eq!(laptop.name, "laptop");
            assert_eq!(laptop.system.as_deref(), Some("x86_64-linux"));
            assert_eq!(laptop.hostname.as_deref(), Some("nixos-laptop"));
        }
        NixEvaluation::Failed { error } => {
            panic!("Nix evaluation failed: {error:?}");
        }
        NixEvaluation::NotEvaluated => {
            panic!("Nix evaluation was not performed");
        }
    }

    assert_eq!(inspection.environment_match.current_hostname.as_deref(), Some("nixos-laptop"));
    assert!(inspection.environment_match.hostname_matches.contains(&"laptop".to_string()));
    assert!(inspection.environment_match.system_matches.contains(&"laptop".to_string()));
    assert!(candidate.score.total > 0);
}

#[test]
fn select_nix_config_by_hostname() {
    let candidate = nix_config_candidate();
    let inspection =
        inspection_of(&candidate, Ok(FlakeOutputs { nixos_configurations: vec![laptop()] }));
    let mut candidates = vec![candidate];
    inspect_candidates(&mut candidates, vec![inspection]);

    let report = select_candidate(candidates);

    assert_eq!(report.status, DiscoveryStatus::Success);

    let selected = report.selected.expect("candidate should be selected");

    assert_eq!(selected.flake_root, "/home/nakaoku/Projects/nix-config");
    assert_eq!(selected.selected_configuration.name, "laptop");
    assert_eq!(selected.selected_configuration.hostname.as_deref(), Some("nixos-laptop"));
    assert_eq!(selected.selection_method, SelectionMethod::HostnameMatch);
}

#[test]
fn select_empty_candidates() {
    let report = select_candidate(vec![]);

    assert_eq!(report.status, DiscoveryStatus::NoCandidates);
    assert!(report.selected.is_none());
    assert!(!report.diagnostics.is_empty());
}

#[test]
fn score_of_an_inspected_candidate() {
    let candidate = nix_config_candidate();
    let inspection =
        inspection_of(&candidate, Ok(FlakeOutputs { nixos_configurations: vec![laptop()] }));
    let mut candidates = vec![candidate];
    inspect_candidates(&mut candidates, vec![inspection]);
    let score = &candidates[0].score;
    assert_eq!(score.reasons[0], "nixosConfigurations text found");
    assert_eq!(score.total, 93);
    assert_eq!(
        score.reasons,
        vec![
            "nixosConfigurations text found".to_string(),
            "Nix evaluation found NixOS configurations".to_string(),
            "hostname matches current system".to_string(),
            "system matches current system".to_string(),
        ]
    );
}

#[test]
fn candidates_rank_by_score_then_root() {
    let mut a = FlakeCandidate::new("/home/u/b".to_string(), "/home/u/b/flake.nix".to_string());
    a.evidence.push(Evidence::FlakeFile);
    let mut b = FlakeCandidate::new("/home/u/a".to_string(), "/home/u/a/flake.nix".to_string());
    b.evidence.push(Evidence::FlakeFile);
    let mut c = FlakeCandidate::new("/home/u/c".to_string(), "/home/u/c/flake.nix".to_string());
    c.evidence.push(Evidence::FlakeFile);
    c.evidence.push(Evidence::FlakeLock);
    let failure = || NixCommandError { message: "nix flake show failed".to_string() };
    let ia = inspection_of(&a, Err(failure()));
    let ib = inspection_of(&b, Err(failure()));
    let ic = inspection_of(&c, Err(failure()));
    let mut candidates = vec![a, b, c];
    inspect_candidates(&mut candidates, vec![ia, ib, ic]);
    let roots: Vec<&str> = candidates.iter().map(|c| c.flake_root.as_str()).collect();
    assert_eq!(roots, vec!["/home/u/c", "/home/u/a", "/home/u/b"]);
    assert_eq!(candidates[0].score.total, 8);
    assert_eq!(candidates[1].score.total, 5);
}

#[test]
fn ranking_compares_roots_by_component() {
    let with_root = |root: &str| {
        let mut c = FlakeCandidate::new(root.to_string(), String::new());
        c.score = CandidateScore { total: 5, reasons: Vec::new() };
        c
    };
    assert!(candidate_precedes(&with_root("/a/b"), &with_root("/a/c")));
    assert!(candidate_precedes(&with_root("/a"), &with_root("/a/b")));
    assert!(!candidate_precedes(&with_root("/a//b"), &with_root("/a/b")));
    assert!(!candidate_precedes(&with_root("/a/b"), &with_root("/a//b")));
    // "a-b" sorts after "a" as a component, though '-' sorts before '/'.
    assert!(candidate_precedes(&with_root("/a/z"), &with_root("/a-b")));
    let mut high = with_root("/z");
    high.score.total = 6;
    assert!(candidate_precedes(&high, &with_root("/a")));
}

#[test]
fn equal_ranks_keep_their_order() {
    let mut first = FlakeCandidate::new("/a/b".to_string(), "first".to_string());
    first.evidence.push(Evidence::FlakeFile);
    let mut second = FlakeCandidate::new("/a//b/".to_string(), "second".to_string());
    second.evidence.push(Evidence::FlakeFile);
    let failure = || NixCommandError { message: "boom".to_string() };
    let i1 = inspection_of(&first, Err(failure()));
    let i2 = inspection_of(&second, Err(failure()));
    let mut candidates = vec![first, second];
    inspect_candidates(&mut candidates, vec![i1, i2]);
    assert_eq!(candidates[0].flake_file, "first");
    assert_eq!(candidates[1].flake_file, "second");
}

#[test]
fn classify_nix_failures() {
    let category = |m: &str| classify_error(&NixCommandError { message: m.to_string() });
    assert_eq!(category("Permission Denied while opening"), EvaluationErrorCategory::PermissionDenied);
    assert_eq!(category("operation TIMED OUT"), EvaluationErrorCategory::Timeout);
    assert_eq!(category("timeout"), EvaluationErrorCategory::Timeout);
    assert_eq!(category("failed to execute nix: No such file"), EvaluationErrorCategory::CommandNotFound);
    assert_eq!(category("bash: nix: command not found"), EvaluationErrorCategory::CommandNotFound);
    assert_eq!(category("error: Flake has no outputs"), EvaluationErrorCategory::InvalidFlake);
    assert_eq!(category("error: attribute missing; evaluation aborted"), EvaluationErrorCategory::EvaluationFailed);
    assert_eq!(category("something odd"), EvaluationErrorCategory::Unknown);
}

#[test]
fn failed_evaluation_is_recorded_and_matches_nothing() {
    let candidate = nix_config_candidate();
    let inspection = inspection_of(
        &candidate,
        Err(NixCommandError { message: "Permission denied".to_string() }),
    );
    match &inspection.nix_evaluation {
        NixEvaluation::Failed { error } => {
            assert_eq!(error.category, EvaluationErrorCategory::PermissionDenied);
            assert_eq!(error.message, "Permission denied");
        }
        _ => panic!("the evaluation should have failed"),
    }
    assert!(inspection.environment_match.hostname_matches.is_empty());
    assert!(inspection.environment_match.system_matches.is_empty());
    let report = select_candidate(vec![{
        let mut c = candidate;
        c.inspection = Some(inspection);
        c
    }]);
    assert_eq!(report.status, DiscoveryStatus::EvaluationFailed);
}

#[test]
fn environment_match_by_host_and_system() {
    let other = evaluate_nixos_configuration("server", "aarch64-linux".to_string(), "nixos-server".to_string());
    let outputs = FlakeOutputs { nixos_configurations: vec![laptop(), other] };
    let m = match_environment(&outputs, Some("nixos-server".to_string()), Some("x86_64-linux".to_string()));
    assert_eq!(m.hostname_matches, vec!["server".to_string()]);
    assert_eq!(m.system_matches, vec!["laptop".to_string()]);
    let m = match_environment(&outputs, None, None);
    assert!(m.hostname_matches.is_empty());
    assert!(m.system_matches.is_empty());
}

#[test]
fn candidate_evidence_from_probe() {
    let text = Some("{ outputs = { nixosConfigurations.laptop = x; }; }".to_string());
    let c = inspect_candidate("/r".to_string(), "/r/flake.nix".to_string(), &full_probe(), &text);
    assert_eq!(
        c.evidence,
        vec![
            Evidence::FlakeFile,
            Evidence::FlakeLock,
            Evidence::GitRepository,
            Evidence::HostsDirectory,
            Evidence::ModulesDirectory,
            Evidence::NixosConfigurationsText,
        ]
    );
    assert!(c.inspection.is_none());
    let c = inspect_candidate("/r".to_string(), "/r/flake.nix".to_string(), &full_probe(), &None);
    assert!(!c.evidence.contains(&Evidence::NixosConfigurationsText));
}

#[test]
fn skipped_directories() {
    assert!(should_skip_directory(Some(".git")));
    assert!(should_skip_directory(Some("node_modules")));
    assert!(should_skip_directory(Some("result-bin")));
    assert!(should_skip_directory(None));
    assert!(!should_skip_directory(Some("Projects")));
    assert!(!should_skip_directory(Some("results")));
}

#[test]
fn default_search_options() {
    let options = SearchOptions::default();
    assert!(options.roots.is_empty());
    assert_eq!(options.max_depth, 4);
}

#[test]
fn outputs_from_evaluations() {
    let server = evaluate_nixos_configuration("server", "aarch64-linux".to_string(), "s".to_string());
    let outputs = collect_outputs(vec![Ok(laptop()), Ok(server)]).unwrap();
    assert_eq!(outputs.nixos_configurations.len(), 2);
    assert_eq!(outputs.nixos_configurations[1].name, "server");
    let failed = collect_outputs(vec![
        Ok(laptop()),
        Err(NixCommandError { message: "first".to_string() }),
        Err(NixCommandError { message: "second".to_string() }),
    ]);
    assert_eq!(failed.unwrap_err().message, "first");
    assert!(collect_outputs(vec![]).unwrap().nixos_configurations.is_empty());
}

#[test]
fn configuration_names_in_order() {
    let show = NixFlakeShow {
        nixos_configurations: vec![
            ("laptop".to_string(), NixFlakeOutput { output_type: Some("nixos-configuration".to_string()) }),
            ("server".to_string(), NixFlakeOutput { output_type: None }),
        ],
    };
    assert_eq!(show.configuration_names(), vec!["laptop".to_string(), "server".to_string()]);
}

#[test]
fn failure_message_of_a_nix_command() {
    let e = command_failure("nix flake show", "/home/u/nix-config", "  error: no flake\n\n");
    assert_eq!(e.message, "nix flake show failed for /home/u/nix-config: error: no flake");
}

#[test]
fn reading_nix_eval_answers() {
    let path = ".#nixosConfigurations.laptop.config.networking.hostName";
    assert_eq!(evaluation_answer(path, b"\"nixos-laptop\"\n").unwrap(), "nixos-laptop");
    assert_eq!(evaluation_answer(path, b"\"caf\\u00e9\"").unwrap(), "caf\u{e9}");
    let e = evaluation_answer(path, b"42").unwrap_err();
    assert!(e.message.starts_with(
        "failed to parse nix eval output for .#nixosConfigurations.laptop.config.networking.hostName: "
    ));
    assert!(e.message.len() > 90);
}

#[test]
fn machine_values_are_trimmed() {
    assert_eq!(machine_value(Some("  nixos-laptop\n".to_string())), Some("nixos-laptop".to_string()));
    assert_eq!(machine_value(Some(" \n\t".to_string())), None);
    assert_eq!(machine_value(Some(String::new())), None);
    assert_eq!(machine_value(None), None);
}

#[test]
fn flake_show_keeps_one_entry_per_name() {
    let output = |t: &str| NixFlakeOutput { output_type: Some(t.to_string()) };
    let show = NixFlakeShow::from_entries(vec![
        ("laptop".to_string(), output("first")),
        ("server".to_string(), output("server")),
        ("laptop".to_string(), output("last")),
    ]);
    assert_eq!(show.configuration_names(), vec!["server".to_string(), "laptop".to_string()]);
    assert_eq!(show.nixos_configurations[1].1.output_type.as_deref(), Some("last"));
}

#[test]
fn flake_metadata_holds_plain_values() {
    let m = NixFlakeMetadata {
        description: Some("nix config".to_string()),
        path: Some("/nix/store/x-source".to_string()),
        last_modified: Some(1_700_000_000),
        last_modified_date: Some("20231114221320".to_string()),
        locked: Some("{\"type\":\"git\"}".to_string()),
    };
    assert_eq!(m.clone().last_modified, Some(1_700_000_000));
    assert!(m.path.is_some());
}

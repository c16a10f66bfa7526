use nixos_json_controller::nixos::discovery::candidate::CandidateScore;
use nixos_json_controller::nixos::discovery::{
    evaluate_nixos_configuration, inspect_flake, select_candidate, FilesystemInspection,
    FlakeCandidate, FlakeOutputs,
};
use nixos_json_controller::nixos::discovery::nix::next_configuration;
use nixos_json_controller::nixos::discovery::{
    validate_discovery, ContextProbe, DiscoveryMetadata, DiscoveryResult, FileMetadata,
    NixCommandError, SelectionMethod,
};
use nixos_json_controller::nixos::module::add_service_to_content;
use nixos_json_controller::path::{join, paths_equal, path_precedes};

fn no_files() -> FilesystemInspection {
    FilesystemInspection {
        flake_file_exists: true,
        flake_lock_exists: false,
        is_git_repository: false,
        has_hosts_directory: false,
        has_modules_directory: false,
        has_home_directory: false,
        has_system_directory: false,
        has_configuration_nix: false,
        has_hardware_configuration_nix: false,
        contains_nixos_configurations_text: false,
    }
}

/// Two evaluated candidates, neither of which matches the machine, scored
/// as given.
fn two_candidates(first: u32, second: u32) -> Vec<FlakeCandidate> {
    let mut out = Vec::new();
    for (root, total) in [("/a", first), ("/b", second)] {
        let mut c = FlakeCandidate::new(root.to_string(), join(root, "flake.nix"));
        let server = evaluate_nixos_configuration("server", "aarch64-linux".to_string(), "srv".to_string());
        c.inspection = Some(inspect_flake(
            no_files(),
            Ok(FlakeOutputs { nixos_configurations: vec![server] }),
            Some("laptop".to_string()),
            Some("x86_64-linux".to_string()),
        ));
        c.score = CandidateScore { total, reasons: Vec::new() };
        out.push(c);
    }
    out
}

#[test]
fn scores_never_choose() {
    let low = select_candidate(two_candidates(1, 2));
    let high = select_candidate(two_candidates(500, 2));
    assert_eq!(low.status, high.status);
    assert!(low.selected.is_none() && high.selected.is_none());
    assert_eq!(low.diagnostics, high.diagnostics);
    assert_eq!(
        low.diagnostics,
        vec!["2 evaluated NixOS candidates remain after environment matching.".to_string()]
    );
}

#[test]
fn joining_paths() {
    assert_eq!(join("/home/u", "flake.nix"), "/home/u/flake.nix");
    assert_eq!(join("/home/u/", "flake.nix"), "/home/u/flake.nix");
    assert_eq!(join("/home/u", "/etc/nixos"), "/etc/nixos");
    assert_eq!(join("", "nxc"), "nxc");
}

#[test]
fn comparing_paths_by_component() {
    assert!(paths_equal("/a//b/", "/a/b"));
    assert!(paths_equal("a/./b", "a/b"));
    assert!(!paths_equal("a/../b", "b"));
    assert!(!paths_equal("/a", "a"));
    assert!(path_precedes("/a/b", "/a/c"));
    assert!(!path_precedes("/a/c", "/a/b"));
    assert!(!path_precedes("/a/b", "/a/b"));
    assert!(path_precedes("/", "a"));
}

#[test]
fn inspection_adds_its_bonus_to_the_score() {
    let mut bare = FlakeCandidate::new("/r".to_string(), "/r/flake.nix".to_string());
    bare.evidence = vec![
        nixos_json_controller::nixos::discovery::Evidence::FlakeFile,
        nixos_json_controller::nixos::discovery::Evidence::FlakeLock,
    ];
    let mut inspected = bare.clone();
    bare.calculate_score();
    let laptop = evaluate_nixos_configuration("laptop", "x86_64-linux".to_string(), "nixos-laptop".to_string());
    inspected.inspection = Some(inspect_flake(
        no_files(),
        Ok(FlakeOutputs { nixos_configurations: vec![laptop] }),
        Some("other-host".to_string()),
        Some("x86_64-linux".to_string()),
    ));
    inspected.calculate_score();
    assert_eq!(bare.score.total, 8);
    assert_eq!(inspected.score.total, 8 + 20 + 20);
    assert_eq!(inspected.score.reasons[..2], bare.score.reasons[..]);
    assert_eq!(
        inspected.score.reasons[2..],
        [
            "Nix evaluation found NixOS configurations".to_string(),
            "system matches current system".to_string(),
        ]
    );
}

#[test]
fn order_never_chooses() {
    let mut candidates = two_candidates(1, 2);
    let laptop = evaluate_nixos_configuration("laptop", "x86_64-linux".to_string(), "nixos-laptop".to_string());
    candidates[1].inspection = Some(inspect_flake(
        no_files(),
        Ok(FlakeOutputs { nixos_configurations: vec![laptop] }),
        Some("nixos-laptop".to_string()),
        Some("x86_64-linux".to_string()),
    ));
    let forward = select_candidate(candidates.clone());
    candidates.reverse();
    let backward = select_candidate(candidates);
    assert_eq!(forward.status, backward.status);
    let (f, b) = (forward.selected.unwrap(), backward.selected.unwrap());
    assert_eq!(f.flake_root, "/b");
    assert_eq!(f.flake_root, b.flake_root);
    assert_eq!(f.selected_configuration.name, b.selected_configuration.name);
    assert_eq!(f.selection_method, b.selection_method);
}

#[test]
fn last_service_setting_wins() {
    for content in ["{\n  systemd.services.openssh.enable = false;\n  x = 1;\n}\n", "{\n  x = 1;\n}\n"] {
        let first = add_service_to_content(content, "openssh", true).unwrap();
        let second = add_service_to_content(&first, "openssh", false).unwrap();
        assert_eq!(second, add_service_to_content(content, "openssh", false).unwrap());
    }
}

#[test]
fn captured_metadata_passes_the_check() {
    let nix = FileMetadata { size: 10, modified_ns: 20 };
    let lock = FileMetadata { size: 30, modified_ns: 40 };
    let metadata = DiscoveryMetadata::capture(Ok(nix), Some(Ok(lock)), Ok(7)).unwrap();
    let result = DiscoveryResult {
        flake_root: "/f".to_string(),
        flake_file: "/f/flake.nix".to_string(),
        selected_configuration: evaluate_nixos_configuration("laptop", "x86_64-linux".to_string(), "h".to_string()),
        selection_method: SelectionMethod::UniqueCandidate,
        metadata: Some(metadata),
    };
    let probe = ContextProbe {
        flake_root_is_dir: true,
        flake_file_is_file: true,
        current_hostname: Some("h".to_string()),
        current_system: "x86_64-linux".to_string(),
        flake_nix_metadata: Ok(nix),
        flake_lock_metadata: Some(Ok(lock)),
    };
    assert!(validate_discovery(Ok(result), &probe).is_ok());
}

#[test]
fn evaluation_stops_at_the_first_failure() {
    let names = vec!["a".to_string(), "b".to_string()];
    let a = evaluate_nixos_configuration("a", "s".to_string(), "h".to_string());
    assert_eq!(next_configuration(&names, &vec![]), Some(0));
    assert_eq!(next_configuration(&names, &vec![Ok(a.clone())]), Some(1));
    assert_eq!(next_configuration(&names, &vec![Ok(a.clone()), Ok(a)]), None);
    assert_eq!(
        next_configuration(&names, &vec![Err(NixCommandError { message: "x".to_string() })]),
        None
    );
}

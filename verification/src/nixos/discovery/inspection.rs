use vstd::prelude::*;

verus! {

/// What the file system shows of a flake candidate.
#[derive(Debug, Clone, Copy, PartialEq, Eq, Structural)]
pub struct FilesystemInspection {
    pub flake_file_exists: bool,
    pub flake_lock_exists: bool,
    pub is_git_repository: bool,
    pub has_hosts_directory: bool,
    pub has_modules_directory: bool,
    pub has_home_directory: bool,
    pub has_system_directory: bool,
    pub has_configuration_nix: bool,
    pub has_hardware_configuration_nix: bool,
    /// `flake.nix` mentions `nixosConfigurations`: a light hint only.
    pub contains_nixos_configurations_text: bool,
}

/// The kind of a Nix evaluation failure.
#[derive(Debug, Clone, Copy, PartialEq, Eq, Structural)]
pub enum EvaluationErrorCategory {
    CommandNotFound,
    InvalidFlake,
    EvaluationFailed,
    PermissionDenied,
    Timeout,
    Unknown,
}

/// A Nix evaluation failure.
#[derive(Debug, Clone)]
pub struct NixEvaluationError {
    pub category: EvaluationErrorCategory,
    pub message: String,
}

/// A NixOS configuration of a flake.
#[derive(Debug, Clone)]
pub struct NixosConfiguration {
    /// The attribute name under `nixosConfigurations`.
    pub name: String,
    /// The system, such as `x86_64-linux`.
    pub system: Option<String>,
    /// The host name the configuration sets.
    pub hostname: Option<String>,
    pub platform: Option<String>,
}

/// The outputs of a flake that discovery looks at.
#[derive(Debug, Clone)]
pub struct FlakeOutputs {
    pub nixos_configurations: Vec<NixosConfiguration>,
}

/// The outcome of evaluating a flake with Nix.
#[derive(Debug, Clone)]
pub enum NixEvaluation {
    NotEvaluated,
    Success { outputs: FlakeOutputs },
    Failed { error: NixEvaluationError },
}

/// How a flake's configurations compare with the running machine.
#[derive(Debug, Clone)]
pub struct EnvironmentMatch {
    pub current_hostname: Option<String>,
    pub current_system: Option<String>,
    /// The configurations whose host name is the machine's.
    pub hostname_matches: Vec<String>,
    /// The configurations whose system is the machine's.
    pub system_matches: Vec<String>,
}

/// Everything learnt of a candidate.
#[derive(Debug, Clone)]
pub struct InspectionResult {
    pub filesystem: FilesystemInspection,
    pub nix_evaluation: NixEvaluation,
    pub environment_match: EnvironmentMatch,
}

} // verus!

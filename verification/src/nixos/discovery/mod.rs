pub mod candidate;
pub mod context;
pub mod inspection;
pub mod nix;
pub mod result;
pub mod search;
pub mod selector;
pub mod state;

pub use candidate::{CandidateScore, DiscoverySource, Evidence, FlakeCandidate};
pub use inspection::{
    EnvironmentMatch, EvaluationErrorCategory, FilesystemInspection, FlakeOutputs,
    InspectionResult, NixEvaluation, NixEvaluationError, NixosConfiguration,
};
pub use result::{
    DiscoveryMetadata, DiscoveryReport, DiscoveryResult, DiscoveryStatus, FileMetadata,
    SelectionMethod,
};
pub use selector::select_candidate;
pub use context::{ContextProbe, DiscoveryContext};
pub use nix::{
    collect_outputs, evaluate_nixos_configuration, inspect_flake, NixCommandError,
    NixFlakeMetadata, NixFlakeOutput, NixFlakeShow,
};
pub use search::{
    inspect_candidate, inspect_candidates, should_skip_directory, FlakeProbe, SearchOptions,
};
pub use state::{state_path, validate_discovery};

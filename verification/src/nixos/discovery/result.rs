use vstd::prelude::*;

use super::candidate::FlakeCandidate;
use super::inspection::NixosConfiguration;

verus! {

/// How the flake was chosen.
#[derive(Debug, Clone, Copy, PartialEq, Eq, Structural)]
pub enum SelectionMethod {
    ExplicitCli,
    ConfigFile,
    EnvironmentVariable,
    UniqueCandidate,
    HostnameMatch,
    SystemMatch,
    UserSelection,
}

/// How discovery ended.
#[derive(Debug, Clone, Copy, PartialEq, Eq, Structural)]
pub enum DiscoveryStatus {
    Success,
    MultipleCandidates,
    NoCandidates,
    EvaluationFailed,
}

/// The state of a file when discovery ran: what a later run compares with
/// to tell whether the file changed.
#[derive(Debug, Clone, Copy, PartialEq, Eq, Structural)]
pub struct FileMetadata {
    /// The size in bytes.
    pub size: u64,
    /// The time of the last change, in nanoseconds since the UNIX epoch.
    pub modified_ns: u128,
}

/// When discovery ran, and the state of the flake's files then.
#[derive(Debug, Clone, Copy, PartialEq, Eq, Structural)]
pub struct DiscoveryMetadata {
    /// The time of discovery, in seconds since the UNIX epoch.
    pub discovered_at: u64,
    pub flake_nix: FileMetadata,
    /// `None` when the flake has no `flake.lock`.
    pub flake_lock: Option<FileMetadata>,
}

/// The flake and configuration that discovery chose.
#[derive(Debug, Clone)]
pub struct DiscoveryResult {
    pub flake_root: String,
    pub flake_file: String,
    pub selected_configuration: NixosConfiguration,
    pub selection_method: SelectionMethod,
    /// Absent in states saved before it was recorded.
    pub metadata: Option<DiscoveryMetadata>,
}

/// The outcome of a discovery run.
#[derive(Debug, Clone)]
pub struct DiscoveryReport {
    /// Every candidate found.
    pub candidates: Vec<FlakeCandidate>,
    /// The chosen flake and configuration.
    pub selected: Option<DiscoveryResult>,
    pub status: DiscoveryStatus,
    /// The places searched.
    pub search_locations: Vec<String>,
    /// Notes for the user.
    pub diagnostics: Vec<String>,
    /// When the report was made, as ISO 8601 text.
    pub generated_at: Option<String>,
}

/// The metadata that discovery records, from what was read of `flake.nix`,
/// of `flake.lock` where the flake has one, and of the clock; the first
/// failure, in that order, is the outcome.
pub open spec fn captured(
    flake_nix: Result<FileMetadata, String>,
    flake_lock: Option<Result<FileMetadata, String>>,
    discovered_at: Result<u64, String>,
) -> Result<DiscoveryMetadata, String> {
    match flake_nix {
        Err(e) => Err(e),
        Ok(nix) => match flake_lock {
            Some(Err(e)) => Err(e),
            _ => match discovered_at {
                Err(e) => Err(e),
                Ok(t) => Ok(
                    DiscoveryMetadata {
                        discovered_at: t,
                        flake_nix: nix,
                        flake_lock: match flake_lock {
                            Some(Ok(lock)) => Some(lock),
                            _ => None,
                        },
                    },
                ),
            },
        },
    }
}

impl DiscoveryMetadata {
    /// The metadata to record (see `captured`).
    pub fn capture(
        flake_nix: Result<FileMetadata, String>,
        flake_lock: Option<Result<FileMetadata, String>>,
        discovered_at: Result<u64, String>,
    ) -> (r: Result<Self, String>)
        ensures
            r == captured(flake_nix, flake_lock, discovered_at),
    {
        let nix = match flake_nix {
            Err(e) => return Err(e),
            Ok(nix) => nix,
        };
        let lock = match flake_lock {
            Some(Err(e)) => return Err(e),
            Some(Ok(lock)) => Some(lock),
            None => None,
        };
        match discovered_at {
            Err(e) => Err(e),
            Ok(t) => Ok(DiscoveryMetadata { discovered_at: t, flake_nix: nix, flake_lock: lock }),
        }
    }
}

impl DiscoveryReport {
    /// An empty report with the given status.
    pub fn new(status: DiscoveryStatus) -> (r: Self)
        ensures
            r.status == status,
            r.candidates@.len() == 0,
            r.selected is None,
            r.search_locations@.len() == 0,
            r.diagnostics@.len() == 0,
            r.generated_at is None,
    {
        DiscoveryReport {
            candidates: Vec::new(),
            selected: None,
            status,
            search_locations: Vec::new(),
            diagnostics: Vec::new(),
            generated_at: None,
        }
    }
}

impl NixosConfiguration {
    /// A copy of the configuration.
    pub fn duplicate(&self) -> (r: Self)
        ensures
            r == *self,
    {
        NixosConfiguration {
            name: self.name.clone(),
            system: self.system.clone(),
            hostname: self.hostname.clone(),
            platform: self.platform.clone(),
        }
    }
}

} // verus!

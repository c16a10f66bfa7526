//! Where the discovery result is kept, and checking it before use.
use vstd::prelude::*;

use super::context::{load_outcome, ContextProbe, DiscoveryContext};
use super::result::DiscoveryResult;
use crate::path::{join, join_text};

verus! {

/// The directory of the state, under the configuration home.
pub const STATE_DIRECTORY: &'static str = "nxc";

/// The file that holds the saved discovery result.
pub const STATE_FILE: &'static str = "discovery.json";

/// The state file under the configuration home `config_home`.
pub open spec fn state_path_text(config_home: Seq<char>) -> Seq<char> {
    join_text(join_text(config_home, STATE_DIRECTORY@), STATE_FILE@)
}

/// The path of the saved discovery result: under `$XDG_CONFIG_HOME` when it
/// is set, else under `$HOME/.config`; with neither, an error.
pub fn state_path(xdg_config_home: Option<String>, home: Option<String>) -> (r: Result<
    String,
    String,
>)
    ensures
        match xdg_config_home {
            Some(c) => r matches Ok(p) && p@ == state_path_text(c@),
            None => match home {
                Some(h) => r matches Ok(p) && p@ == state_path_text(join_text(h@, ".config"@)),
                None => r matches Err(e) && e@ == "HOME environment variable is not set"@,
            },
        },
{
    let config_home = match xdg_config_home {
        Some(c) => c,
        None => match home {
            Some(h) => join(h.as_str(), ".config"),
            None => return Err(String::from_str("HOME environment variable is not set")),
        },
    };
    let directory = join(config_home.as_str(), STATE_DIRECTORY);
    Ok(join(directory.as_str(), STATE_FILE))
}

/// Checks the saved discovery result (what reading it gave) against the
/// machine as `probe` shows it, without running Nix (see
/// `DiscoveryContext::load`).
pub fn validate_discovery(saved: Result<DiscoveryResult, String>, probe: &ContextProbe) -> (r:
    Result<DiscoveryContext, String>)
    ensures
        load_outcome(saved, *probe, r),
{
    DiscoveryContext::load(saved, probe)
}

} // verus!

//! Where the NixOS configuration lives, as the saved discovery result says.
use vstd::prelude::*;

use super::discovery::context::{load_outcome, ContextProbe, DiscoveryContext};
use super::discovery::result::DiscoveryResult;
use crate::path::{join, join_text};

verus! {

/// The message when discovery cannot be used.
pub const DISCOVERY_ERROR_MESSAGE: &'static str =
    "NixOS flake discovery is not available. Run `nxc discover` first.";

/// The flake's root directory, from a checked discovery result; any failure
/// to get one becomes `DISCOVERY_ERROR_MESSAGE`. Discovery itself is never
/// run here.
pub fn repository_path(context: &Result<DiscoveryContext, String>) -> (r: Result<String, String>)
    ensures
        match context {
            Ok(c) => r matches Ok(p) && p@ == c.saved().flake_root@,
            Err(_) => r matches Err(e) && e@ == DISCOVERY_ERROR_MESSAGE@,
        },
{
    match context {
        Ok(c) => Ok(c.flake_root_buf()),
        Err(_) => Err(String::from_str(DISCOVERY_ERROR_MESSAGE)),
    }
}

/// The name of the chosen configuration, from a checked discovery result.
pub fn configuration_name(context: &Result<DiscoveryContext, String>) -> (r: Result<
    String,
    String,
>)
    ensures
        match context {
            Ok(c) => r matches Ok(n) && n@ == c.saved().selected_configuration.name@,
            Err(_) => r matches Err(e) && e@ == DISCOVERY_ERROR_MESSAGE@,
        },
{
    match context {
        Ok(c) => Ok(String::from_str(c.configuration_name())),
        Err(_) => Err(String::from_str(DISCOVERY_ERROR_MESSAGE)),
    }
}

/// The checked discovery result (see `DiscoveryContext::load`).
pub fn discovery_context(saved: Result<DiscoveryResult, String>, probe: &ContextProbe) -> (r:
    Result<DiscoveryContext, String>)
    ensures
        load_outcome(saved, *probe, r),
{
    DiscoveryContext::load(saved, probe)
}

/// The path of `modules/<file>` under the flake root.
pub open spec fn module_path_text(root: Seq<char>, file: Seq<char>) -> Seq<char> {
    join_text(join_text(root, "modules"@), file)
}

fn modules_file_path(context: &Result<DiscoveryContext, String>, file: &str) -> (r: Result<
    String,
    String,
>)
    ensures
        match context {
            Ok(c) => r matches Ok(p) && p@ == module_path_text(c.saved().flake_root@, file@),
            Err(_) => r matches Err(e) && e@ == DISCOVERY_ERROR_MESSAGE@,
        },
{
    let root = match repository_path(context) {
        Ok(root) => root,
        Err(e) => return Err(e),
    };
    let modules = join(root.as_str(), "modules");
    Ok(join(modules.as_str(), file))
}

/// The path of the package list, `modules/pkgs.nix`.
pub fn pkgs_path(context: &Result<DiscoveryContext, String>) -> (r: Result<String, String>)
    ensures
        match context {
            Ok(c) => r matches Ok(p) && p@ == module_path_text(
                c.saved().flake_root@,
                "pkgs.nix"@,
            ),
            Err(_) => r matches Err(e) && e@ == DISCOVERY_ERROR_MESSAGE@,
        },
{
    modules_file_path(context, "pkgs.nix")
}

/// The path of the service settings, `modules/core.nix`.
pub fn core_path(context: &Result<DiscoveryContext, String>) -> (r: Result<String, String>)
    ensures
        match context {
            Ok(c) => r matches Ok(p) && p@ == module_path_text(
                c.saved().flake_root@,
                "core.nix"@,
            ),
            Err(_) => r matches Err(e) && e@ == DISCOVERY_ERROR_MESSAGE@,
        },
{
    modules_file_path(context, "core.nix")
}

} // verus!

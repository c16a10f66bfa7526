//! The `nixos-rebuild switch` command and what its exit means.
use vstd::prelude::*;

use super::discovery::DiscoveryContext;
use crate::text::texts;

verus! {

/// The program that runs the rebuild.
pub const REBUILD_PROGRAM: &'static str = "sudo";

/// The arguments of the rebuild: `nixos-rebuild switch --flake
/// <flake root>#<configuration>`.
pub open spec fn rebuild_argument_texts(context: DiscoveryContext) -> Seq<Seq<char>> {
    seq![
        "nixos-rebuild"@,
        "switch"@,
        "--flake"@,
        context.saved().flake_root@ + "#"@ + context.saved().selected_configuration.name@,
    ]
}

/// The arguments to give `REBUILD_PROGRAM`.
pub fn rebuild_arguments(context: &DiscoveryContext) -> (args: Vec<String>)
    ensures
        texts(args@) == rebuild_argument_texts(*context),
{
    let flake = context.flake_reference();
    let mut args: Vec<String> = Vec::new();
    args.push(String::from_str("nixos-rebuild"));
    args.push(String::from_str("switch"));
    args.push(String::from_str("--flake"));
    args.push(flake);
    assert(texts(args@) =~= rebuild_argument_texts(*context));
    args
}

/// What running the rebuild (see `rebuild_arguments`) came to: the error
/// that kept it from running, success when it exited well, and
/// "nixos-rebuild failed" otherwise.
pub fn switch_with_context(status: Result<bool, String>) -> (r: Result<(), String>)
    ensures
        match status {
            Err(e) => r matches Err(m) && m == e,
            Ok(true) => r is Ok,
            Ok(false) => r matches Err(m) && m@ == "nixos-rebuild failed"@,
        },
{
    match status {
        Err(e) => Err(e),
        Ok(true) => Ok(()),
        Ok(false) => Err(String::from_str("nixos-rebuild failed")),
    }
}

} // verus!

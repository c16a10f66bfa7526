use vstd::prelude::*;

use super::inspection::NixosConfiguration;
use super::result::{captured, DiscoveryResult, FileMetadata};
use crate::path::{join, join_text, paths_equal, same_path};
use crate::text::{chars_of, holds_char, text_equal, trim, trim_bounds};

verus! {

/// What the running machine and its file system show, when a saved
/// discovery result is checked.
pub struct ContextProbe {
    /// The saved flake root is a directory.
    pub flake_root_is_dir: bool,
    /// The saved `flake.nix` path is a file.
    pub flake_file_is_file: bool,
    /// The machine's host name, if it can be told.
    pub current_hostname: Option<String>,
    /// The machine's system, such as `x86_64-linux`.
    pub current_system: String,
    /// The present state of the saved `flake.nix`, or why it cannot be read.
    pub flake_nix_metadata: Result<FileMetadata, String>,
    /// `None` when the flake root holds no `flake.lock` file; else its
    /// present state, or why it cannot be read.
    pub flake_lock_metadata: Option<Result<FileMetadata, String>>,
}

/// The message when no usable discovery result was saved.
pub open spec fn discovery_required_text() -> Seq<char> {
    "NixOS flake discovery is not available. Run `nxc discover` first."@
}

/// The message for a saved result that no longer holds.
pub open spec fn rediscover_text(reason: Seq<char>) -> Seq<char> {
    reason + ". Run `nxc discover` again."@
}

/// The check of the saved paths.
pub open spec fn paths_verdict(r: DiscoveryResult, p: ContextProbe) -> Result<(), Seq<char>> {
    if r.flake_root@.len() == 0 {
        Err(rediscover_text("discovered flake root is empty"@))
    } else if !p.flake_root_is_dir {
        Err(rediscover_text("discovered flake directory does not exist: "@ + r.flake_root@))
    } else if !p.flake_file_is_file {
        Err(rediscover_text("discovered flake.nix does not exist: "@ + r.flake_file@))
    } else if !same_path(r.flake_file@, join_text(r.flake_root@, "flake.nix"@)) {
        Err(
            rediscover_text(
                "discovered flake.nix path does not belong to the discovered flake root"@,
            ),
        )
    } else {
        Ok(())
    }
}

/// The check of the saved configuration name.
pub open spec fn configuration_verdict(c: NixosConfiguration) -> Result<(), Seq<char>> {
    let name = trim(c.name@);
    if name.len() == 0 {
        Err(rediscover_text("discovered NixOS configuration name is empty"@))
    } else if name.contains('/') {
        Err(rediscover_text("discovered NixOS configuration name is invalid"@))
    } else {
        Ok(())
    }
}

/// The check of the saved host name and system against the machine's.
///
/// A host name is compared only when both are known.
pub open spec fn environment_verdict(c: NixosConfiguration, p: ContextProbe) -> Result<
    (),
    Seq<char>,
> {
    let host_differs = c.hostname matches Some(saved) && p.current_hostname matches Some(current)
        && current@ != saved@;
    if host_differs {
        Err(
            rediscover_text(
                "current hostname '"@ + p.current_hostname->0@
                    + "' does not match discovered hostname '"@ + c.hostname->0@ + "'"@,
            ),
        )
    } else if c.system matches Some(saved) && p.current_system@ != saved@ {
        Err(
            rediscover_text(
                "current system '"@ + p.current_system@ + "' does not match discovered system '"@
                    + c.system->0@ + "'"@,
            ),
        )
    } else {
        Ok(())
    }
}

/// The check that the flake's files did not change since discovery.
///
/// A file that cannot be read fails with the reading error as it is.
pub open spec fn metadata_verdict(r: DiscoveryResult, p: ContextProbe) -> Result<(), Seq<char>> {
    match r.metadata {
        None => Err(rediscover_text("discovery state does not contain stale-check metadata"@)),
        Some(saved) => match p.flake_nix_metadata {
            Err(e) => Err(e@),
            Ok(current) => if current != saved.flake_nix {
                Err(rediscover_text("flake.nix has changed since discovery"@))
            } else {
                match (saved.flake_lock, p.flake_lock_metadata) {
                    (Some(saved_lock), Some(Ok(current_lock))) => if current_lock != saved_lock {
                        Err(rediscover_text("flake.lock has changed since discovery"@))
                    } else {
                        Ok(())
                    },
                    (Some(_), Some(Err(e))) => Err(e@),
                    (Some(_), None) => Err(rediscover_text("flake.lock was removed since discovery"@)),
                    (None, Some(_)) => Err(rediscover_text("flake.lock was created since discovery"@)),
                    (None, None) => Ok(()),
                }
            },
        },
    }
}

/// The checks of a saved result, in order: paths, configuration name,
/// environment, file states. The first that fails decides.
pub open spec fn result_verdict(r: DiscoveryResult, p: ContextProbe) -> Result<(), Seq<char>> {
    match paths_verdict(r, p) {
        Err(e) => Err(e),
        Ok(()) => match configuration_verdict(r.selected_configuration) {
            Err(e) => Err(e),
            Ok(()) => match environment_verdict(r.selected_configuration, p) {
                Err(e) => Err(e),
                Ok(()) => metadata_verdict(r, p),
            },
        },
    }
}

/// The text of a check's outcome.
pub open spec fn verdict_of(r: Result<(), String>) -> Result<(), Seq<char>> {
    match r {
        Ok(()) => Ok(()),
        Err(e) => Err(e@),
    }
}

/// A saved discovery result that was checked against the machine, for use
/// by ordinary commands, which never run discovery themselves.
#[derive(Debug, Clone)]
pub struct DiscoveryContext {
    result: DiscoveryResult,
}

/// What checking a saved discovery result gives: with none saved, the
/// error that asks to run discovery; otherwise a context for it when every
/// check passes, else the error of the first check that fails (see
/// `result_verdict`).
pub open spec fn load_outcome(
    saved: Result<DiscoveryResult, String>,
    probe: ContextProbe,
    r: Result<DiscoveryContext, String>,
) -> bool {
    match saved {
        Err(_) => r matches Err(e) && e@ == discovery_required_text(),
        Ok(res) => match result_verdict(res, probe) {
            Ok(()) => r matches Ok(c) && c.saved() == res,
            Err(m) => r matches Err(e) && e@ == m,
        },
    }
}

/// The machine, as `p` shows it, no longer agrees with the saved result
/// `r`: the flake or its `flake.nix` is gone, the host name or system
/// differs, `flake.nix` changed since discovery, `flake.lock` changed, was
/// removed or was created since, or nothing was recorded to tell.
pub open spec fn contradicts(r: DiscoveryResult, p: ContextProbe) -> bool {
    ||| !p.flake_root_is_dir
    ||| !p.flake_file_is_file
    ||| (r.selected_configuration.hostname matches Some(saved) && p.current_hostname matches Some(
        current,
    ) && current@ != saved@)
    ||| (r.selected_configuration.system matches Some(saved) && p.current_system@ != saved@)
    ||| r.metadata is None
    ||| (r.metadata matches Some(m) && p.flake_nix_metadata matches Ok(current) && current
        != m.flake_nix)
    ||| (r.metadata matches Some(m) && m.flake_lock matches Some(saved) && p.flake_lock_metadata
        matches Some(Ok(current)) && current != saved)
    ||| (r.metadata matches Some(m) && m.flake_lock is Some && p.flake_lock_metadata is None)
    ||| (r.metadata matches Some(m) && m.flake_lock is None && p.flake_lock_metadata is Some)
}

/// A stale discovery result is never used: whenever the machine
/// contradicts the saved result, checking it fails.
pub proof fn law_stale_discovery_refused(
    saved: DiscoveryResult,
    probe: ContextProbe,
    r: Result<DiscoveryContext, String>,
)
    requires
        contradicts(saved, probe),
        load_outcome(Ok(saved), probe, r),
    ensures
        r is Err,
{
}

/// A result whose metadata was captured from the flake's files passes the
/// check of those files while they stay as they were captured.
pub proof fn law_captured_metadata_passes(
    r: DiscoveryResult,
    p: ContextProbe,
    flake_nix: Result<FileMetadata, String>,
    flake_lock: Option<Result<FileMetadata, String>>,
    discovered_at: Result<u64, String>,
)
    requires
        captured(flake_nix, flake_lock, discovered_at) matches Ok(m) && r.metadata == Some(m),
        p.flake_nix_metadata == flake_nix,
        p.flake_lock_metadata == flake_lock,
    ensures
        metadata_verdict(r, p) == Ok::<(), Seq<char>>(()),
{
}

/// A saved result whose `flake.lock` changed since discovery is refused.
pub proof fn law_changed_lock_refused(
    saved: DiscoveryResult,
    probe: ContextProbe,
    r: Result<DiscoveryContext, String>,
)
    requires
        saved.metadata matches Some(m) && m.flake_lock matches Some(recorded),
        probe.flake_lock_metadata matches Some(Ok(current)),
        probe.flake_lock_metadata->Some_0->Ok_0 != saved.metadata->Some_0.flake_lock->Some_0,
        load_outcome(Ok(saved), probe, r),
    ensures
        r is Err,
{
    law_stale_discovery_refused(saved, probe, r);
}

impl DiscoveryContext {
    /// The saved result.
    pub closed spec fn saved(self) -> DiscoveryResult {
        self.result
    }

    /// Checks the saved result, if there is one, against the machine.
    ///
    /// With no saved result the error asks to run discovery; otherwise the
    /// first check that fails (see `result_verdict`) gives the error.
    pub fn load(saved: Result<DiscoveryResult, String>, probe: &ContextProbe) -> (r: Result<
        Self,
        String,
    >)
        ensures
            load_outcome(saved, *probe, r),
    {
        let result = match saved {
            Ok(result) => result,
            Err(_) => return Err(Self::discovery_required_message()),
        };
        match Self::validate_result(&result, probe) {
            Ok(()) => Ok(DiscoveryContext { result }),
            Err(e) => Err(e),
        }
    }

    fn validate_result(result: &DiscoveryResult, probe: &ContextProbe) -> (r: Result<(), String>)
        ensures
            verdict_of(r) == result_verdict(*result, *probe),
    {
        match Self::validate_paths(result, probe) {
            Ok(()) => {},
            Err(e) => return Err(e),
        }
        match Self::validate_configuration(result) {
            Ok(()) => {},
            Err(e) => return Err(e),
        }
        match Self::validate_environment(result, probe) {
            Ok(()) => {},
            Err(e) => return Err(e),
        }
        Self::validate_metadata(result, probe)
    }

    fn validate_paths(result: &DiscoveryResult, probe: &ContextProbe) -> (r: Result<(), String>)
        ensures
            verdict_of(r) == paths_verdict(*result, *probe),
    {
        if result.flake_root.as_str().is_empty() {
            return Err(Self::rediscover_message("discovered flake root is empty"));
        }
        if !probe.flake_root_is_dir {
            let mut m = String::from_str("discovered flake directory does not exist: ");
            m.append(result.flake_root.as_str());
            return Err(Self::rediscover_message(m.as_str()));
        }
        if !probe.flake_file_is_file {
            let mut m = String::from_str("discovered flake.nix does not exist: ");
            m.append(result.flake_file.as_str());
            return Err(Self::rediscover_message(m.as_str()));
        }
        let expected_flake_file = join(result.flake_root.as_str(), "flake.nix");
        if !paths_equal(result.flake_file.as_str(), expected_flake_file.as_str()) {
            return Err(
                Self::rediscover_message(
                    "discovered flake.nix path does not belong to the discovered flake root",
                ),
            );
        }
        Ok(())
    }

    fn validate_configuration(result: &DiscoveryResult) -> (r: Result<(), String>)
        ensures
            verdict_of(r) == configuration_verdict(result.selected_configuration),
    {
        let v = chars_of(result.selected_configuration.name.as_str());
        let (a, b) = trim_bounds(&v, 0, v.len());
        assert(v@.subrange(0, v@.len() as int) =~= v@);
        if a == b {
            return Err(Self::rediscover_message("discovered NixOS configuration name is empty"));
        }
        if holds_char(&v, a, b, '/') {
            return Err(Self::rediscover_message("discovered NixOS configuration name is invalid"));
        }
        Ok(())
    }

    /// Compares the saved host name and system with the machine's.
    fn validate_environment(result: &DiscoveryResult, probe: &ContextProbe) -> (r: Result<
        (),
        String,
    >)
        ensures
            verdict_of(r) == environment_verdict(result.selected_configuration, *probe),
    {
        let configuration = &result.selected_configuration;
        if let Some(saved_hostname) = &configuration.hostname {
            if let Some(current_hostname) = &probe.current_hostname {
                if !text_equal(current_hostname.as_str(), saved_hostname.as_str()) {
                    let mut m = String::from_str("current hostname '");
                    m.append(current_hostname.as_str());
                    m.append("' does not match discovered hostname '");
                    m.append(saved_hostname.as_str());
                    m.append("'");
                    return Err(Self::rediscover_message(m.as_str()));
                }
            }
        }
        if let Some(saved_system) = &configuration.system {
            if !text_equal(probe.current_system.as_str(), saved_system.as_str()) {
                let mut m = String::from_str("current system '");
                m.append(probe.current_system.as_str());
                m.append("' does not match discovered system '");
                m.append(saved_system.as_str());
                m.append("'");
                return Err(Self::rediscover_message(m.as_str()));
            }
        }
        Ok(())
    }

    /// Checks that `flake.nix` and `flake.lock` are as they were at
    /// discovery.
    fn validate_metadata(result: &DiscoveryResult, probe: &ContextProbe) -> (r: Result<
        (),
        String,
    >)
        ensures
            verdict_of(r) == metadata_verdict(*result, *probe),
    {
        let metadata = match &result.metadata {
            Some(m) => m,
            None => {
                return Err(
                    Self::rediscover_message(
                        "discovery state does not contain stale-check metadata",
                    ),
                );
            },
        };
        let current_flake_nix = match &probe.flake_nix_metadata {
            Ok(m) => m,
            Err(e) => return Err(e.clone()),
        };
        if *current_flake_nix != metadata.flake_nix {
            return Err(Self::rediscover_message("flake.nix has changed since discovery"));
        }
        match (&metadata.flake_lock, &probe.flake_lock_metadata) {
            (Some(saved), Some(current)) => match current {
                Ok(current) => {
                    if *current != *saved {
                        return Err(
                            Self::rediscover_message("flake.lock has changed since discovery"),
                        );
                    }
                },
                Err(e) => return Err(e.clone()),
            },
            (Some(_), None) => {
                return Err(Self::rediscover_message("flake.lock was removed since discovery"));
            },
            (None, Some(_)) => {
                return Err(Self::rediscover_message("flake.lock was created since discovery"));
            },
            (None, None) => {},
        }
        Ok(())
    }

    fn discovery_required_message() -> (m: String)
        ensures
            m@ == discovery_required_text(),
    {
        String::from_str("NixOS flake discovery is not available. Run `nxc discover` first.")
    }

    fn rediscover_message(reason: &str) -> (m: String)
        ensures
            m@ == rediscover_text(reason@),
    {
        let mut m = String::from_str(reason);
        m.append(". Run `nxc discover` again.");
        m
    }

    /// The saved result.
    pub fn result(&self) -> (r: &DiscoveryResult)
        ensures
            *r == self.saved(),
    {
        &self.result
    }

    /// The flake's root directory.
    pub fn flake_root(&self) -> (r: &str)
        ensures
            r@ == self.saved().flake_root@,
    {
        self.result.flake_root.as_str()
    }

    /// The path of the flake's `flake.nix`.
    pub fn flake_file(&self) -> (r: &str)
        ensures
            r@ == self.saved().flake_file@,
    {
        self.result.flake_file.as_str()
    }

    /// The name of the chosen NixOS configuration.
    pub fn configuration_name(&self) -> (r: &str)
        ensures
            r@ == self.saved().selected_configuration.name@,
    {
        self.result.selected_configuration.name.as_str()
    }

    /// `<flake root>#<configuration>`, the reference `nixos-rebuild` takes.
    pub fn flake_reference(&self) -> (r: String)
        ensures
            r@ == self.saved().flake_root@ + "#"@ + self.saved().selected_configuration.name@,
    {
        let mut r = String::from_str(self.flake_root());
        r.append("#");
        r.append(self.configuration_name());
        r
    }

    /// The flake's root directory, owned.
    pub fn flake_root_buf(&self) -> (r: String)
        ensures
            r@ == self.saved().flake_root@,
    {
        String::from_str(self.flake_root())
    }
}

} // verus!

//! What discovery makes of the directories it searches.
use vstd::prelude::*;

use super::candidate::{
    contains_evidence, point_reasons, points_total, score_points, DiscoverySource, Evidence,
    FlakeCandidate,
};
use super::inspection::{FilesystemInspection, InspectionResult};
use crate::path::{
    components, join, join_text, lemma_path_less_irreflexive, lemma_path_less_total,
    lemma_path_less_transitive, path_less, path_precedes, paths_equal, same_path,
};
use crate::text::{chars_of, contains_seq, find_from, text_equal, texts};

verus! {

/// Where to search, and how deep.
#[derive(Debug, Clone)]
pub struct SearchOptions {
    pub roots: Vec<String>,
    pub max_depth: usize,
}

impl Default for SearchOptions {
    fn default() -> (o: Self)
        ensures
            o.roots@.len() == 0,
            o.max_depth == 4,
    {
        SearchOptions { roots: Vec::new(), max_depth: 4 }
    }
}

/// What the file system shows under a flake root.
#[derive(Debug, Clone, Copy, PartialEq, Eq, Structural)]
pub struct FlakeProbe {
    /// `flake.nix` is a file.
    pub flake_file_exists: bool,
    /// `flake.lock` is a file.
    pub flake_lock_exists: bool,
    /// `.git` is a directory.
    pub is_git_repository: bool,
    /// `hosts` is a directory.
    pub has_hosts_directory: bool,
    /// `modules` is a directory.
    pub has_modules_directory: bool,
    /// `home` is a directory.
    pub has_home_directory: bool,
    /// `system` is a directory.
    pub has_system_directory: bool,
    /// `configuration.nix` is a file.
    pub has_configuration_nix: bool,
    /// `hardware-configuration.nix` is a file.
    pub has_hardware_configuration_nix: bool,
}

/// The names of the directories that discovery does not enter: version
/// control, caches, tool homes and build outputs.
pub open spec fn skipped_name(name: Seq<char>) -> bool {
    ||| name == ".git"@
    ||| name == ".cache"@
    ||| name == ".local"@
    ||| name == ".nix-defexpr"@
    ||| name == ".direnv"@
    ||| name == ".cargo"@
    ||| name == ".rustup"@
    ||| name == "node_modules"@
    ||| name == "target"@
    ||| name == "result"@
    ||| name == "result-bin"@
}

/// Whether discovery leaves out a directory with this name; a directory
/// whose name cannot be read as text is left out too.
pub fn should_skip_directory(name: Option<&str>) -> (b: bool)
    ensures
        b == match name {
            None => true,
            Some(n) => skipped_name(n@),
        },
{
    match name {
        None => true,
        Some(n) => text_equal(n, ".git") || text_equal(n, ".cache") || text_equal(n, ".local")
            || text_equal(n, ".nix-defexpr") || text_equal(n, ".direnv") || text_equal(
            n,
            ".cargo",
        ) || text_equal(n, ".rustup") || text_equal(n, "node_modules") || text_equal(
            n,
            "target",
        ) || text_equal(n, "result") || text_equal(n, "result-bin"),
    }
}

/// The text of `flake.nix`, if it could be read, mentions
/// `nixosConfigurations`.
pub open spec fn mentions_configurations(flake_text: Option<String>) -> bool {
    flake_text matches Some(t) && contains_seq(t@, "nixosConfigurations"@)
}

/// The evidence a probe gives, in the order discovery records it: the
/// flake file always, then each thing found.
pub open spec fn probe_evidence(p: FlakeProbe, mentions: bool) -> Seq<Evidence> {
    seq![Evidence::FlakeFile] + (if p.flake_lock_exists {
        seq![Evidence::FlakeLock]
    } else {
        seq![]
    }) + (if p.is_git_repository {
        seq![Evidence::GitRepository]
    } else {
        seq![]
    }) + (if p.has_hosts_directory {
        seq![Evidence::HostsDirectory]
    } else {
        seq![]
    }) + (if p.has_modules_directory {
        seq![Evidence::ModulesDirectory]
    } else {
        seq![]
    }) + (if p.has_home_directory {
        seq![Evidence::HomeDirectory]
    } else {
        seq![]
    }) + (if p.has_system_directory {
        seq![Evidence::SystemDirectory]
    } else {
        seq![]
    }) + (if p.has_configuration_nix {
        seq![Evidence::ConfigurationNix]
    } else {
        seq![]
    }) + (if p.has_hardware_configuration_nix {
        seq![Evidence::HardwareConfigurationNix]
    } else {
        seq![]
    }) + (if mentions {
        seq![Evidence::NixosConfigurationsText]
    } else {
        seq![]
    })
}

fn push_if(ev: &mut Vec<Evidence>, found: bool, e: Evidence)
    ensures
        final(ev)@ == old(ev)@ + if found {
            seq![e]
        } else {
            seq![]
        },
{
    if found {
        ev.push(e);
    } else {
        assert(old(ev)@ + seq![] =~= old(ev)@);
    }
}

/// A candidate found in the home directory, with the evidence the probe
/// and the text of its `flake.nix` give.
pub fn inspect_candidate(
    flake_root: String,
    flake_file: String,
    probe: &FlakeProbe,
    flake_text: &Option<String>,
) -> (c: FlakeCandidate)
    ensures
        c.flake_root == flake_root,
        c.flake_file == flake_file,
        c.sources@ == seq![DiscoverySource::HomeDirectory],
        c.evidence@ == probe_evidence(*probe, mentions_configurations(*flake_text)),
        c.inspection is None,
        c.score.total == 0,
        c.score.reasons@.len() == 0,
{
    let mut candidate = FlakeCandidate::new(flake_root, flake_file);
    candidate.sources.push(DiscoverySource::HomeDirectory);
    assert(candidate.sources@ =~= seq![DiscoverySource::HomeDirectory]);
    let mut ev: Vec<Evidence> = Vec::new();
    ev.push(Evidence::FlakeFile);
    push_if(&mut ev, probe.flake_lock_exists, Evidence::FlakeLock);
    push_if(&mut ev, probe.is_git_repository, Evidence::GitRepository);
    push_if(&mut ev, probe.has_hosts_directory, Evidence::HostsDirectory);
    push_if(&mut ev, probe.has_modules_directory, Evidence::ModulesDirectory);
    push_if(&mut ev, probe.has_home_directory, Evidence::HomeDirectory);
    push_if(&mut ev, probe.has_system_directory, Evidence::SystemDirectory);
    push_if(&mut ev, probe.has_configuration_nix, Evidence::ConfigurationNix);
    push_if(&mut ev, probe.has_hardware_configuration_nix, Evidence::HardwareConfigurationNix);
    let mentions = contains_nixos_configurations(flake_text);
    push_if(&mut ev, mentions, Evidence::NixosConfigurationsText);
    assert(ev@ =~= probe_evidence(*probe, mentions_configurations(*flake_text)));
    candidate.evidence = ev;
    candidate
}

/// Whether the text of `flake.nix`, if read, mentions `nixosConfigurations`.
pub fn contains_nixos_configurations(flake_text: &Option<String>) -> (b: bool)
    ensures
        b == mentions_configurations(*flake_text),
{
    match flake_text {
        None => false,
        Some(t) => {
            let v = chars_of(t.as_str());
            let p = chars_of("nixosConfigurations");
            match find_from(&v, &p, 0) {
                Some(_) => true,
                None => false,
            }
        },
    }
}

/// What the file system shows of a candidate; whether its `flake.nix`
/// mentions `nixosConfigurations` is taken from its evidence.
pub fn inspect_filesystem(candidate: &FlakeCandidate, probe: &FlakeProbe) -> (f:
    FilesystemInspection)
    ensures
        f == (FilesystemInspection {
            flake_file_exists: probe.flake_file_exists,
            flake_lock_exists: probe.flake_lock_exists,
            is_git_repository: probe.is_git_repository,
            has_hosts_directory: probe.has_hosts_directory,
            has_modules_directory: probe.has_modules_directory,
            has_home_directory: probe.has_home_directory,
            has_system_directory: probe.has_system_directory,
            has_configuration_nix: probe.has_configuration_nix,
            has_hardware_configuration_nix: probe.has_hardware_configuration_nix,
            contains_nixos_configurations_text: candidate.evidence@.contains(
                Evidence::NixosConfigurationsText,
            ),
        }),
{
    FilesystemInspection {
        flake_file_exists: probe.flake_file_exists,
        flake_lock_exists: probe.flake_lock_exists,
        is_git_repository: probe.is_git_repository,
        has_hosts_directory: probe.has_hosts_directory,
        has_modules_directory: probe.has_modules_directory,
        has_home_directory: probe.has_home_directory,
        has_system_directory: probe.has_system_directory,
        has_configuration_nix: probe.has_configuration_nix,
        has_hardware_configuration_nix: probe.has_hardware_configuration_nix,
        contains_nixos_configurations_text: contains_evidence(
            &candidate.evidence,
            Evidence::NixosConfigurationsText,
        ),
    }
}

/// `a` ranks before `b`: a higher score first, then the flake root that
/// `Path`'s ordering puts first.
pub open spec fn candidate_before(a: FlakeCandidate, b: FlakeCandidate) -> bool {
    a.score.total > b.score.total || (a.score.total == b.score.total && path_less(
        a.flake_root@,
        b.flake_root@,
    ))
}

/// No candidate ranks before itself.
pub proof fn lemma_candidate_before_irreflexive(a: FlakeCandidate)
    ensures
        !candidate_before(a, a),
{
    lemma_path_less_irreflexive(a.flake_root@);
}

/// The ranking is transitive.
pub proof fn lemma_candidate_before_transitive(a: FlakeCandidate, b: FlakeCandidate, c: FlakeCandidate)
    requires
        candidate_before(a, b),
        candidate_before(b, c),
    ensures
        candidate_before(a, c),
{
    if a.score.total == b.score.total && b.score.total == c.score.total {
        lemma_path_less_transitive(a.flake_root@, b.flake_root@, c.flake_root@);
    }
}

/// Candidates that rank alike are alike to every other: if `a` ranks
/// before `c`, any `b` ranks after `a` or before `c`.
pub proof fn lemma_candidate_before_split(a: FlakeCandidate, b: FlakeCandidate, c: FlakeCandidate)
    requires
        candidate_before(a, c),
    ensures
        candidate_before(a, b) || candidate_before(b, c),
{
    let (x, y, z) = (a.flake_root@, b.flake_root@, c.flake_root@);
    if a.score.total == b.score.total && b.score.total == c.score.total {
        if !path_less(x, y) && !path_less(y, z) {
            if components(x) != components(y) {
                lemma_path_less_total(x, y);
            }
            if components(y) != components(z) {
                lemma_path_less_total(y, z);
            }
            if components(x) == components(y) && components(y) == components(z) {
                lemma_path_less_irreflexive(x);
            } else if components(x) == components(y) {
                lemma_path_less_transitive(x, z, y);
                lemma_path_less_irreflexive(y);
            } else if components(y) == components(z) {
                lemma_path_less_transitive(y, x, z);
                lemma_path_less_irreflexive(z);
            } else {
                lemma_path_less_transitive(z, y, x);
                lemma_path_less_transitive(x, z, x);
                lemma_path_less_irreflexive(x);
            }
        }
    }
}

/// Whether `a` ranks before `b` (see `candidate_before`).
pub fn candidate_precedes(a: &FlakeCandidate, b: &FlakeCandidate) -> (r: bool)
    ensures
        r == candidate_before(*a, *b),
{
    a.score.total > b.score.total || (a.score.total == b.score.total && path_precedes(
        a.flake_root.as_str(),
        b.flake_root.as_str(),
    ))
}

/// `after` is `before` with the inspection `i` recorded and the score that
/// its evidence and that inspection earn.
pub open spec fn scored_from(after: FlakeCandidate, before: FlakeCandidate, i: InspectionResult) -> bool {
    &&& after.flake_root == before.flake_root
    &&& after.flake_file == before.flake_file
    &&& after.sources == before.sources
    &&& after.evidence == before.evidence
    &&& after.inspection == Some(i)
    &&& after.score.total == points_total(score_points(after))
    &&& texts(after.score.reasons@) == point_reasons(score_points(after))
}

/// `ranked` holds `cands`, each scored with its inspection, in the order of
/// `candidate_before`; `p` gives the place in `cands` of each, and those
/// that rank alike keep the order they had.
pub open spec fn ranking(
    ranked: Seq<FlakeCandidate>,
    cands: Seq<FlakeCandidate>,
    ins: Seq<InspectionResult>,
    p: Seq<int>,
) -> bool {
    &&& ranked.len() == p.len()
    &&& p.len() == cands.len()
    &&& forall|k: int| 0 <= k < p.len() ==> 0 <= #[trigger] p[k] < cands.len()
    &&& forall|j: int, k: int| 0 <= j < k < p.len() ==> #[trigger] p[j] != #[trigger] p[k]
    &&& forall|k: int|
        0 <= k < ranked.len() ==> scored_from(#[trigger] ranked[k], cands[p[k]], ins[p[k]])
    &&& forall|j: int, k: int|
        0 <= j < k < ranked.len() ==> !candidate_before(#[trigger] ranked[k], #[trigger] ranked[j])
    &&& forall|j: int, k: int|
        0 <= j < k < ranked.len() && !candidate_before(#[trigger] ranked[j], #[trigger] ranked[k])
            ==> p[j] < p[k]
}

/// The first place in `sorted` where `c` ranks before what stands there.
fn insertion_point(sorted: &Vec<FlakeCandidate>, c: &FlakeCandidate) -> (k: usize)
    ensures
        k <= sorted.len(),
        forall|m: int| 0 <= m < k ==> !candidate_before(*c, #[trigger] sorted@[m]),
        k < sorted.len() ==> candidate_before(*c, sorted@[k as int]),
{
    let mut k: usize = 0;
    while k < sorted.len()
        invariant
            k <= sorted.len(),
            forall|m: int| 0 <= m < k ==> !candidate_before(*c, #[trigger] sorted@[m]),
        decreases sorted.len() - k,
    {
        if candidate_precedes(c, &sorted[k]) {
            return k;
        }
        k = k + 1;
    }
    k
}

/// Records each candidate's inspection (the one at the same place in
/// `inspections`), scores it, and ranks the candidates: a higher score
/// first, then by flake root; those that rank alike keep their order.
pub fn inspect_candidates(candidates: &mut Vec<FlakeCandidate>, inspections: Vec<InspectionResult>)
    requires
        old(candidates).len() == inspections.len(),
    ensures
        exists|p: Seq<int>| ranking(final(candidates)@, old(candidates)@, inspections@, p),
{
    let ghost cs = candidates@;
    let ghost is = inspections@;
    let mut pending: Vec<FlakeCandidate> = Vec::new();
    std::mem::swap(&mut pending, candidates);
    let mut pending_ins = inspections;
    let n = pending.len();
    let mut sorted: Vec<FlakeCandidate> = Vec::new();
    let ghost mut p: Seq<int> = seq![];
    let mut i: usize = 0;
    assert(pending@ =~= cs.skip(0));
    assert(pending_ins@ =~= is.skip(0));
    while i < n
        invariant
            n == cs.len(),
            n == is.len(),
            i <= n,
            pending@ == cs.skip(i as int),
            pending_ins@ == is.skip(i as int),
            sorted.len() == i,
            p.len() == i,
            forall|k: int| 0 <= k < p.len() ==> 0 <= #[trigger] p[k] < i,
            forall|j: int, k: int| 0 <= j < k < p.len() ==> #[trigger] p[j] != #[trigger] p[k],
            forall|k: int|
                0 <= k < sorted.len() ==> scored_from(#[trigger] sorted@[k], cs[p[k]], is[p[k]]),
            forall|j: int, k: int|
                0 <= j < k < sorted.len() ==> !candidate_before(
                    #[trigger] sorted@[k],
                    #[trigger] sorted@[j],
                ),
            forall|j: int, k: int|
                0 <= j < k < sorted.len() && !candidate_before(
                    #[trigger] sorted@[j],
                    #[trigger] sorted@[k],
                ) ==> p[j] < p[k],
        decreases n - i,
    {
        let mut c = pending.remove(0);
        let found = pending_ins.remove(0);
        assert(c == cs[i as int]);
        assert(found == is[i as int]);
        assert(pending@ =~= cs.skip(i + 1));
        assert(pending_ins@ =~= is.skip(i + 1));
        c.inspection = Some(found);
        c.calculate_score();
        assert(scored_from(c, cs[i as int], is[i as int]));
        let k = insertion_point(&sorted, &c);
        let ghost s = sorted@;
        let ghost q = p;
        proof {
            assert forall|m: int| k <= m < s.len() implies #[trigger] candidate_before(c, s[m]) by {
                if !candidate_before(c, s[m]) {
                    lemma_candidate_before_split(c, s[m], s[k as int]);
                    if m == k {
                        lemma_candidate_before_irreflexive(s[m]);
                    }
                }
            }
            assert forall|m: int| k <= m < s.len() implies !candidate_before(#[trigger] s[m], c) by {
                if candidate_before(s[m], c) {
                    lemma_candidate_before_transitive(s[m], c, s[m]);
                    lemma_candidate_before_irreflexive(s[m]);
                }
            }
        }
        sorted.insert(k, c);
        proof {
            p = q.insert(k as int, i as int);
            assert(sorted@ == s.insert(k as int, c));
            assert forall|j: int, m: int| 0 <= j < m < sorted.len() implies !candidate_before(
                #[trigger] sorted@[m],
                #[trigger] sorted@[j],
            ) by {
                if m < k {
                    assert(sorted@[m] == s[m] && sorted@[j] == s[j]);
                } else if m == k {
                    assert(sorted@[j] == s[j]);
                } else if j == k {
                    assert(sorted@[m] == s[m - 1]);
                } else if j < k {
                    assert(sorted@[m] == s[m - 1] && sorted@[j] == s[j]);
                } else {
                    assert(sorted@[m] == s[m - 1] && sorted@[j] == s[j - 1]);
                }
            }
            assert forall|j: int, m: int|
                0 <= j < m < sorted.len() && !candidate_before(
                    #[trigger] sorted@[j],
                    #[trigger] sorted@[m],
                ) implies p[j] < p[m] by {
                if m < k {
                    assert(sorted@[m] == s[m] && sorted@[j] == s[j]);
                } else if m == k {
                    assert(sorted@[j] == s[j]);
                } else if j == k {
                    assert(sorted@[m] == s[m - 1]);
                } else if j < k {
                    assert(sorted@[m] == s[m - 1] && sorted@[j] == s[j]);
                } else {
                    assert(sorted@[m] == s[m - 1] && sorted@[j] == s[j - 1]);
                }
            }
            assert forall|m: int| 0 <= m < sorted.len() implies scored_from(
                #[trigger] sorted@[m],
                cs[p[m]],
                is[p[m]],
            ) by {
                if m < k {
                    assert(sorted@[m] == s[m]);
                } else if m > k {
                    assert(sorted@[m] == s[m - 1]);
                }
            }
            assert forall|j: int, m: int| 0 <= j < m < p.len() implies #[trigger] p[j]
                != #[trigger] p[m] by {
                if j < k && m < k {
                } else if j < k && m == k {
                    assert(q[j] < i);
                } else if j == k {
                    assert(q[m - 1] < i);
                } else if j < k {
                    assert(q[j] != q[m - 1]);
                } else {
                    assert(q[j - 1] != q[m - 1]);
                }
            }
        }
        i = i + 1;
    }
    *candidates = sorted;
    assert(ranking(candidates@, cs, is, p));
}

// ------------------------------------------------------------------
// Walking the directories
// ------------------------------------------------------------------

/// An entry of a directory that the search lists.
#[derive(Debug, Clone)]
pub struct DirectoryEntry {
    /// The entry's path.
    pub path: String,
    /// Its last component, when that is text.
    pub name: Option<String>,
    /// It is a directory.
    pub is_dir: bool,
}

/// What the file system shows of a directory that the search visits.
#[derive(Debug, Clone)]
pub struct DirectoryListing {
    /// When `flake.nix` in it is a file: what the file system shows under
    /// the directory as a flake root, and the text of `flake.nix` if it
    /// could be read.
    pub flake: Option<(FlakeProbe, Option<String>)>,
    /// Its entries, or `None` when it cannot be listed.
    pub entries: Option<Vec<DirectoryEntry>>,
}

/// A directory still to visit, and how deep it lies below its root.
#[derive(Debug, Clone)]
pub struct PendingDirectory {
    pub path: String,
    pub depth: usize,
}

/// The search descends into the entry: a directory whose name is known
/// and not left out.
pub open spec fn descends_into(e: DirectoryEntry) -> bool {
    e.is_dir && match e.name {
        Some(n) => !skipped_name(n@),
        None => false,
    }
}

/// The directories to push, at `depth`, for the entries `es`: those the
/// search descends into, last first, so that they come off the top of the
/// stack in order.
pub open spec fn entry_pushes(es: Seq<DirectoryEntry>, depth: nat) -> Seq<(Seq<char>, nat)>
    decreases es.len(),
{
    if es.len() == 0 {
        seq![]
    } else {
        entry_pushes(es.drop_first(), depth) + if descends_into(es[0]) {
            seq![(es[0].path@, depth)]
        } else {
            seq![]
        }
    }
}

/// The roots to push: those that are directories, last first.
pub open spec fn root_pushes(roots: Seq<String>, is_dir: Seq<bool>) -> Seq<(Seq<char>, nat)>
    decreases roots.len(),
{
    if roots.len() == 0 {
        seq![]
    } else {
        root_pushes(roots.drop_first(), is_dir.drop_first()) + if is_dir[0] {
            seq![(roots[0]@, 0nat)]
        } else {
            seq![]
        }
    }
}

/// The candidate found at the flake root `dir`: its evidence from the probe
/// and the text of its `flake.nix`, found in the home directory.
pub open spec fn found_at(
    c: FlakeCandidate,
    dir: Seq<char>,
    probe: FlakeProbe,
    flake_text: Option<String>,
) -> bool {
    &&& c.flake_root@ == dir
    &&& c.flake_file@ == join_text(dir, "flake.nix"@)
    &&& c.sources@ == seq![DiscoverySource::HomeDirectory]
    &&& c.evidence@ == probe_evidence(probe, mentions_configurations(flake_text))
    &&& c.inspection is None
    &&& c.score.total == 0
    &&& c.score.reasons@.len() == 0
}

/// Some candidate of `cs` has a flake root that is the same path as `dir`.
pub open spec fn root_found(cs: Seq<FlakeCandidate>, dir: Seq<char>) -> bool {
    exists|k: int| 0 <= k < cs.len() && same_path(#[trigger] cs[k].flake_root@, dir)
}

/// No two candidates of `cs` have flake roots that are the same path.
pub open spec fn distinct_roots(cs: Seq<FlakeCandidate>) -> bool {
    forall|i: int, j: int|
        0 <= i < j < cs.len() ==> !same_path(#[trigger] cs[i].flake_root@, #[trigger] cs[j].flake_root@)
}

/// A search for flakes below the roots: depth first, each directory's
/// entries in the order they were listed, down to `max_depth` below a root.
pub struct CandidateSearch {
    max_depth: usize,
    pending: Vec<PendingDirectory>,
    candidates: Vec<FlakeCandidate>,
}

impl CandidateSearch {
    /// The directories still to visit, the next one last.
    pub closed spec fn pending_view(self) -> Seq<(Seq<char>, nat)> {
        Seq::new(self.pending@.len(), |i: int| (self.pending@[i].path@, self.pending@[i].depth as nat))
    }

    /// The candidates found so far, in the order found.
    pub closed spec fn found(self) -> Seq<FlakeCandidate> {
        self.candidates@
    }

    /// How deep below a root the search goes.
    pub closed spec fn depth_limit(self) -> nat {
        self.max_depth as nat
    }

    /// No directory is pending below the depth limit, and no flake root
    /// was found twice.
    pub closed spec fn well_formed(self) -> bool {
        &&& forall|i: int| 0 <= i < self.pending@.len() ==> #[trigger] self.pending@[i].depth <= self.max_depth
        &&& distinct_roots(self.candidates@)
    }

    /// A search of the roots of `options`; `root_is_dir` tells, for each
    /// root, whether it is a directory (the others are left out).
    pub fn new(options: &SearchOptions, root_is_dir: &Vec<bool>) -> (s: Self)
        requires
            root_is_dir@.len() == options.roots@.len(),
        ensures
            s.well_formed(),
            s.pending_view() == root_pushes(options.roots@, root_is_dir@),
            s.found().len() == 0,
            s.depth_limit() == options.max_depth,
    {
        let mut pending: Vec<PendingDirectory> = Vec::new();
        let n = options.roots.len();
        let mut k = n;
        let ghost roots = options.roots@;
        let ghost dirs = root_is_dir@;
        assert(roots.skip(n as int) =~= Seq::<String>::empty());
        while k > 0
            invariant
                k <= n,
                n == roots.len(),
                n == dirs.len(),
                roots == options.roots@,
                dirs == root_is_dir@,
                forall|i: int| 0 <= i < pending@.len() ==> #[trigger] pending@[i].depth == 0,
                Seq::new(pending@.len(), |i: int| (pending@[i].path@, pending@[i].depth as nat))
                    == root_pushes(roots.skip(k as int), dirs.skip(k as int)),
            decreases k,
        {
            let ghost before = pending@;
            k = k - 1;
            assert(roots.skip(k as int).drop_first() =~= roots.skip(k + 1));
            assert(dirs.skip(k as int).drop_first() =~= dirs.skip(k + 1));
            assert(roots.skip(k as int)[0] == roots[k as int]);
            assert(dirs.skip(k as int)[0] == dirs[k as int]);
            if root_is_dir[k] {
                pending.push(PendingDirectory { path: options.roots[k].clone(), depth: 0 });
                assert(Seq::new(pending@.len(), |i: int| (pending@[i].path@, pending@[i].depth as nat))
                    =~= Seq::new(before.len(), |i: int| (before[i].path@, before[i].depth as nat))
                    + seq![(roots[k as int]@, 0nat)]);
            } else {
                assert(Seq::new(pending@.len(), |i: int| (pending@[i].path@, pending@[i].depth as nat))
                    =~= Seq::new(before.len(), |i: int| (before[i].path@, before[i].depth as nat))
                    + Seq::<(Seq<char>, nat)>::empty());
            }
        }
        assert(roots.skip(0) =~= roots);
        assert(dirs.skip(0) =~= dirs);
        CandidateSearch { max_depth: options.max_depth, pending, candidates: Vec::new() }
    }

    /// The directory to visit next, if any is left.
    pub fn next_directory(&self) -> (d: Option<&PendingDirectory>)
        ensures
            match d {
                None => self.pending_view().len() == 0,
                Some(p) => self.pending_view().len() > 0 && (p.path@, p.depth as nat)
                    == self.pending_view().last(),
            },
    {
        if self.pending.len() == 0 {
            None
        } else {
            Some(&self.pending[self.pending.len() - 1])
        }
    }

    fn root_already_found(&self, dir: &str) -> (r: bool)
        ensures
            r == root_found(self.candidates@, dir@),
    {
        let mut k: usize = 0;
        while k < self.candidates.len()
            invariant
                k <= self.candidates@.len(),
                forall|i: int| 0 <= i < k ==> !same_path(#[trigger] self.candidates@[i].flake_root@, dir@),
            decreases self.candidates@.len() - k,
        {
            if paths_equal(self.candidates[k].flake_root.as_str(), dir) {
                return true;
            }
            k = k + 1;
        }
        false
    }

    /// Visits the next directory, which `listing` shows: a flake there is
    /// recorded unless its root was found already, and, while the depth
    /// limit allows, the directories it holds are visited next, in order.
    pub fn visit(&mut self, listing: DirectoryListing)
        requires
            old(self).well_formed(),
            old(self).pending_view().len() > 0,
        ensures
            final(self).well_formed(),
            final(self).depth_limit() == old(self).depth_limit(),
            ({
                let (dir, depth) = old(self).pending_view().last();
                &&& final(self).pending_view() == old(self).pending_view().drop_last() + match listing.entries {
                    Some(es) => if depth < old(self).depth_limit() {
                        entry_pushes(es@, depth + 1)
                    } else {
                        seq![]
                    },
                    None => seq![],
                }
                &&& match listing.flake {
                    Some((probe, text)) => if root_found(old(self).found(), dir) {
                        final(self).found() == old(self).found()
                    } else {
                        &&& final(self).found().len() == old(self).found().len() + 1
                        &&& final(self).found().drop_last() == old(self).found()
                        &&& found_at(final(self).found().last(), dir, probe, text)
                    },
                    None => final(self).found() == old(self).found(),
                }
            }),
    {
        let ghost old_view = self.pending_view();
        let ghost old_pending = self.pending@;
        let next = self.pending.pop().unwrap();
        assert(self.pending@ =~= old_pending.drop_last());
        assert(Seq::new(self.pending@.len(), |i: int| (self.pending@[i].path@, self.pending@[i].depth as nat))
            =~= old_view.drop_last());
        match listing.flake {
            Some((probe, text)) => {
                if !self.root_already_found(next.path.as_str()) {
                    let flake_file = join(next.path.as_str(), "flake.nix");
                    let c = inspect_candidate(next.path.clone(), flake_file, &probe, &text);
                    let ghost before = self.candidates@;
                    self.candidates.push(c);
                    assert(self.candidates@.drop_last() =~= before);
                    assert forall|i: int, j: int| 0 <= i < j < self.candidates@.len() implies !same_path(
                        #[trigger] self.candidates@[i].flake_root@,
                        #[trigger] self.candidates@[j].flake_root@,
                    ) by {
                        if j < before.len() {
                            assert(self.candidates@[i] == before[i]);
                            assert(self.candidates@[j] == before[j]);
                        } else {
                            assert(self.candidates@[i] == before[i]);
                            if same_path(before[i].flake_root@, next.path@) {
                                assert(root_found(before, next.path@));
                            }
                        }
                    }
                }
            },
            None => {},
        }
        if next.depth < self.max_depth {
            match listing.entries {
                Some(entries) => {
                    let ghost es = entries@;
                    let ghost base = self.pending@;
                    let ghost base_view = Seq::new(base.len(), |i: int| (base[i].path@, base[i].depth as nat));
                    let ghost cands = self.candidates@;
                    let ghost md = self.max_depth;
                    assert(base_view =~= old_view.drop_last());
                    let d = next.depth + 1;
                    let mut k = entries.len();
                    assert(es.skip(k as int) =~= Seq::<DirectoryEntry>::empty());
                    while k > 0
                        invariant
                            k <= es.len(),
                            es == entries@,
                            self.candidates@ == cands,
                            distinct_roots(cands),
                            self.max_depth == md,
                            d <= self.max_depth,
                            base.len() <= self.pending@.len(),
                            forall|i: int| 0 <= i < base.len() ==> #[trigger] self.pending@[i] == base[i],
                            forall|i: int| 0 <= i < self.pending@.len() ==> #[trigger] self.pending@[i].depth <= self.max_depth,
                            Seq::new(self.pending@.len(), |i: int| (self.pending@[i].path@, self.pending@[i].depth as nat))
                                == base_view + entry_pushes(es.skip(k as int), d as nat),
                        decreases k,
                    {
                        let ghost before = self.pending@;
                        k = k - 1;
                        assert(es.skip(k as int).drop_first() =~= es.skip(k + 1));
                        assert(es.skip(k as int)[0] == es[k as int]);
                        let e = &entries[k];
                        let skip = match &e.name {
                            Some(n) => should_skip_directory(Some(n.as_str())),
                            None => true,
                        };
                        if e.is_dir && !skip {
                            self.pending.push(PendingDirectory { path: e.path.clone(), depth: d });
                            assert(Seq::new(self.pending@.len(), |i: int| (self.pending@[i].path@, self.pending@[i].depth as nat))
                                =~= Seq::new(before.len(), |i: int| (before[i].path@, before[i].depth as nat))
                                + seq![(es[k as int].path@, d as nat)]);
                        } else {
                            assert(Seq::new(self.pending@.len(), |i: int| (self.pending@[i].path@, self.pending@[i].depth as nat))
                                =~= Seq::new(before.len(), |i: int| (before[i].path@, before[i].depth as nat))
                                + Seq::<(Seq<char>, nat)>::empty());
                        }
                    }
                    assert(es.skip(0) =~= es);
                },
                None => {
                    assert(old_view.drop_last() + Seq::<(Seq<char>, nat)>::empty() =~= old_view.drop_last());
                },
            }
        } else {
            assert(old_view.drop_last() + Seq::<(Seq<char>, nat)>::empty() =~= old_view.drop_last());
        }
    }

    /// The candidates found, in the order found; no two have roots that
    /// are the same path.
    pub fn into_candidates(self) -> (cs: Vec<FlakeCandidate>)
        requires
            self.well_formed(),
        ensures
            cs@ == self.found(),
            distinct_roots(cs@),
    {
        self.candidates
    }
}

/// The names of the directories that the search never enters.
pub open spec fn left_out_names() -> Seq<Seq<char>> {
    seq![
        ".git"@,
        ".cache"@,
        ".local"@,
        ".nix-defexpr"@,
        ".direnv"@,
        ".cargo"@,
        ".rustup"@,
        "node_modules"@,
        "target"@,
        "result"@,
        "result-bin"@,
    ]
}

/// Exactly the listed directories are left out: any other directory with
/// a readable name, hidden or not (such as `.dotfiles` or `.config`), is
/// entered.
pub proof fn law_only_listed_directories_skipped(name: Seq<char>)
    ensures
        skipped_name(name) <==> left_out_names().contains(name),
        !left_out_names().contains(name) ==> !skipped_name(name),
{
    let l = left_out_names();
    if skipped_name(name) {
        if name == ".git"@ { assert(l[0] == name); }
        else if name == ".cache"@ { assert(l[1] == name); }
        else if name == ".local"@ { assert(l[2] == name); }
        else if name == ".nix-defexpr"@ { assert(l[3] == name); }
        else if name == ".direnv"@ { assert(l[4] == name); }
        else if name == ".cargo"@ { assert(l[5] == name); }
        else if name == ".rustup"@ { assert(l[6] == name); }
        else if name == "node_modules"@ { assert(l[7] == name); }
        else if name == "target"@ { assert(l[8] == name); }
        else if name == "result"@ { assert(l[9] == name); }
        else { assert(l[10] == name); }
    }
    if l.contains(name) {
        let k = choose|k: int| 0 <= k < l.len() && l[k] == name;
        assert(0 <= k < 11);
    }
}

/// The search descends into every directory entry whose name is readable
/// and not one of `left_out_names`.
pub proof fn law_hidden_directories_entered(e: DirectoryEntry)
    requires
        e.is_dir,
        e.name matches Some(n) && !left_out_names().contains(n@),
    ensures
        descends_into(e),
{
    law_only_listed_directories_skipped(e.name->Some_0@);
}

} // verus!

use vstd::prelude::*;

use super::inspection::{InspectionResult, NixEvaluation};
use crate::text::texts;

verus! {

/// Where a flake candidate was found.
#[derive(Debug, Clone, Copy, PartialEq, Eq, Structural)]
pub enum DiscoverySource {
    Cli,
    ConfigFile,
    EnvironmentVariable,
    HomeDirectory,
    GitRepository,
    SystemHint,
}

/// A sign, found on disk, that a candidate holds a NixOS configuration.
#[derive(Debug, Clone, Copy, PartialEq, Eq, Structural)]
pub enum Evidence {
    FlakeFile,
    FlakeLock,
    GitRepository,
    HostsDirectory,
    ModulesDirectory,
    HomeDirectory,
    SystemDirectory,
    ConfigurationNix,
    HardwareConfigurationNix,
    NixosConfigurationsText,
}

/// A candidate's score and the reasons for it.
///
/// The score helps compare and explain candidates; it never selects one on
/// its own.
#[derive(Debug, Clone)]
pub struct CandidateScore {
    pub total: u32,
    pub reasons: Vec<String>,
}

impl Default for CandidateScore {
    fn default() -> (s: Self)
        ensures
            s.total == 0,
            s.reasons@.len() == 0,
    {
        CandidateScore { total: 0, reasons: Vec::new() }
    }
}

/// A flake found while searching.
#[derive(Debug, Clone)]
pub struct FlakeCandidate {
    /// The flake's root directory.
    pub flake_root: String,
    /// The path of its `flake.nix`.
    pub flake_file: String,
    /// How it was found.
    pub sources: Vec<DiscoverySource>,
    /// What was seen of it on disk.
    pub evidence: Vec<Evidence>,
    /// The outcome of inspecting it.
    pub inspection: Option<InspectionResult>,
    pub score: CandidateScore,
}

/// A scoring rule that applied: its weight and the reason it gives.
pub open spec fn point(applies: bool, weight: nat, reason: Seq<char>) -> Seq<(nat, Seq<char>)> {
    if applies {
        seq![(weight, reason)]
    } else {
        seq![]
    }
}

/// The points a candidate earns for what was seen of it on disk, in order.
pub open spec fn evidence_points(ev: Seq<Evidence>) -> Seq<(nat, Seq<char>)> {
    point(ev.contains(Evidence::FlakeFile), 5, "flake.nix exists"@) + point(
        ev.contains(Evidence::FlakeLock),
        3,
        "flake.lock exists"@,
    ) + point(ev.contains(Evidence::GitRepository), 3, "Git repository"@) + point(
        ev.contains(Evidence::HostsDirectory),
        2,
        "hosts/ directory exists"@,
    ) + point(ev.contains(Evidence::ModulesDirectory), 2, "modules/ directory exists"@) + point(
        ev.contains(Evidence::HomeDirectory),
        1,
        "home/ directory exists"@,
    ) + point(ev.contains(Evidence::SystemDirectory), 2, "system/ directory exists"@) + point(
        ev.contains(Evidence::ConfigurationNix),
        2,
        "configuration.nix exists"@,
    ) + point(
        ev.contains(Evidence::HardwareConfigurationNix),
        1,
        "hardware-configuration.nix exists"@,
    ) + point(ev.contains(Evidence::NixosConfigurationsText), 3, "nixosConfigurations text found"@)
}

/// The points a candidate earns from a successful Nix evaluation, in order.
pub open spec fn inspection_points(inspection: Option<InspectionResult>) -> Seq<(nat, Seq<char>)> {
    match inspection {
        Some(i) => match i.nix_evaluation {
            NixEvaluation::Success { outputs } => point(
                outputs.nixos_configurations@.len() > 0,
                20,
                "Nix evaluation found NixOS configurations"@,
            ) + point(
                i.environment_match.hostname_matches@.len() > 0,
                50,
                "hostname matches current system"@,
            ) + point(
                i.environment_match.system_matches@.len() > 0,
                20,
                "system matches current system"@,
            ),
            _ => seq![],
        },
        None => seq![],
    }
}

/// All the points a candidate earns, in order.
pub open spec fn score_points(c: FlakeCandidate) -> Seq<(nat, Seq<char>)> {
    evidence_points(c.evidence@) + inspection_points(c.inspection)
}

/// The sum of the weights.
pub open spec fn points_total(ps: Seq<(nat, Seq<char>)>) -> nat
    decreases ps.len(),
{
    if ps.len() == 0 {
        0
    } else {
        points_total(ps.drop_last()) + ps.last().0
    }
}

/// The reasons, in order.
pub open spec fn point_reasons(ps: Seq<(nat, Seq<char>)>) -> Seq<Seq<char>> {
    ps.map_values(|p: (nat, Seq<char>)| p.1)
}

/// Whether `ev` holds `e`.
pub fn contains_evidence(ev: &Vec<Evidence>, e: Evidence) -> (b: bool)
    ensures
        b == ev@.contains(e),
{
    let mut i: usize = 0;
    while i < ev.len()
        invariant
            i <= ev.len(),
            forall|k: int| 0 <= k < i ==> ev@[k] != e,
        decreases ev.len() - i,
    {
        if ev[i] == e {
            assert(ev@[i as int] == e);
            return true;
        }
        i = i + 1;
    }
    false
}

/// Adds a rule's points and reason to `score` when the rule applies.
fn add_point(
    score: &mut CandidateScore,
    applies: bool,
    weight: u32,
    reason: &str,
    Ghost(earned): Ghost<Seq<(nat, Seq<char>)>>,
)
    requires
        old(score).total == points_total(earned),
        texts(old(score).reasons@) == point_reasons(earned),
        old(score).total + weight <= u32::MAX,
    ensures
        final(score).total == points_total(earned + point(applies, weight as nat, reason@)),
        texts(final(score).reasons@) == point_reasons(
            earned + point(applies, weight as nat, reason@),
        ),
        final(score).total <= old(score).total + weight,
{
    let ghost next = earned + point(applies, weight as nat, reason@);
    if applies {
        score.total = score.total + weight;
        let r = String::from_str(reason);
        let ghost old_r = score.reasons@;
        score.reasons.push(r);
        assert(score.reasons@ == old_r.push(r));
        assert(next.drop_last() =~= earned);
        assert(next.len() == earned.len() + 1);
        assert(next[earned.len() as int].1 == reason@);
        assert(texts(old_r).len() == point_reasons(earned).len());
        assert forall|k: int| 0 <= k < next.len() implies #[trigger] texts(score.reasons@)[k]
            == point_reasons(next)[k] by {
            if k < earned.len() {
                assert(next[k] == earned[k]);
                assert(texts(old_r)[k] == point_reasons(earned)[k]);
                assert(score.reasons@[k] == old_r[k]);
            }
        }
        assert(texts(score.reasons@) =~= point_reasons(next));
    } else {
        assert(next =~= earned);
    }
}

/// The points a successful evaluation adds: 20 when it found
/// configurations, 50 when one has the machine's host name, 20 when one has
/// its system.
pub open spec fn evaluation_bonus(inspection: Option<InspectionResult>) -> nat {
    match inspection {
        Some(i) => match i.nix_evaluation {
            NixEvaluation::Success { outputs } => (if outputs.nixos_configurations@.len() > 0 {
                20nat
            } else {
                0nat
            }) + (if i.environment_match.hostname_matches@.len() > 0 {
                50nat
            } else {
                0nat
            }) + (if i.environment_match.system_matches@.len() > 0 {
                20nat
            } else {
                0nat
            }),
            _ => 0,
        },
        None => 0,
    }
}

proof fn lemma_points_total_concat(a: Seq<(nat, Seq<char>)>, b: Seq<(nat, Seq<char>)>)
    ensures
        points_total(a + b) == points_total(a) + points_total(b),
    decreases b.len(),
{
    if b.len() == 0 {
        assert(a + b =~= a);
    } else {
        assert((a + b).drop_last() =~= a + b.drop_last());
        lemma_points_total_concat(a, b.drop_last());
    }
}

proof fn lemma_point_total(applies: bool, weight: nat, reason: Seq<char>)
    ensures
        points_total(point(applies, weight, reason)) == if applies {
            weight
        } else {
            0
        },
{
    let ps = point(applies, weight, reason);
    if applies {
        assert(ps.drop_last() =~= Seq::<(nat, Seq<char>)>::empty());
        assert(points_total(Seq::<(nat, Seq<char>)>::empty()) == 0);
        assert(ps.last().0 == weight);
    } else {
        assert(ps.len() == 0);
    }
}

/// The score of an inspected candidate is the score it had without the
/// inspection plus the evaluation's bonus, and its reasons are those it had,
/// then the bonus's.
pub proof fn law_inspection_adds_bonus(c: FlakeCandidate, d: FlakeCandidate)
    requires
        d.evidence == c.evidence,
        d.inspection is None,
    ensures
        points_total(score_points(c)) == points_total(score_points(d)) + evaluation_bonus(
            c.inspection,
        ),
        point_reasons(score_points(c)) == point_reasons(score_points(d)) + point_reasons(
            inspection_points(c.inspection),
        ),
{
    let e = evidence_points(c.evidence@);
    let i = inspection_points(c.inspection);
    assert(inspection_points(d.inspection) == Seq::<(nat, Seq<char>)>::empty());
    assert(score_points(d) =~= e);
    lemma_points_total_concat(e, i);
    assert(point_reasons(e + i) =~= point_reasons(e) + point_reasons(i));
    match c.inspection {
        Some(r) => match r.nix_evaluation {
            NixEvaluation::Success { outputs } => {
                let a = point(outputs.nixos_configurations@.len() > 0, 20, "Nix evaluation found NixOS configurations"@);
                let b = point(r.environment_match.hostname_matches@.len() > 0, 50, "hostname matches current system"@);
                let f = point(r.environment_match.system_matches@.len() > 0, 20, "system matches current system"@);
                assert(i == a + b + f);
                lemma_points_total_concat(a + b, f);
                lemma_points_total_concat(a, b);
                lemma_point_total(outputs.nixos_configurations@.len() > 0, 20, "Nix evaluation found NixOS configurations"@);
                lemma_point_total(r.environment_match.hostname_matches@.len() > 0, 50, "hostname matches current system"@);
                lemma_point_total(r.environment_match.system_matches@.len() > 0, 20, "system matches current system"@);
            },
            _ => {},
        },
        None => {},
    }
}

impl FlakeCandidate {
    /// A candidate with nothing yet known of it.
    pub fn new(flake_root: String, flake_file: String) -> (c: Self)
        ensures
            c.flake_root == flake_root,
            c.flake_file == flake_file,
            c.sources@.len() == 0,
            c.evidence@.len() == 0,
            c.inspection is None,
            c.score.total == 0,
            c.score.reasons@.len() == 0,
    {
        FlakeCandidate {
            flake_root,
            flake_file,
            sources: Vec::new(),
            evidence: Vec::new(),
            inspection: None,
            score: CandidateScore::default(),
        }
    }

    /// Scores the candidate from its evidence and its inspection.
    ///
    /// Each rule that applies adds its weight and its reason, in the order
    /// of `score_points`; nothing else of the candidate changes.
    pub fn calculate_score(&mut self)
        ensures
            final(self).score.total == points_total(score_points(*old(self))),
            texts(final(self).score.reasons@) == point_reasons(score_points(*old(self))),
            final(self).flake_root == old(self).flake_root,
            final(self).flake_file == old(self).flake_file,
            final(self).sources == old(self).sources,
            final(self).evidence == old(self).evidence,
            final(self).inspection == old(self).inspection,
    {
        let mut score = evidence_score(&self.evidence);
        add_inspection_score(&mut score, &self.inspection, Ghost(evidence_points(self.evidence@)));
        self.score = score;
    }
}

/// The score for what was seen of a candidate on disk.
fn evidence_score(ev: &Vec<Evidence>) -> (score: CandidateScore)
    ensures
        score.total == points_total(evidence_points(ev@)),
        texts(score.reasons@) == point_reasons(evidence_points(ev@)),
        score.total <= 24,
{
    let mut score = CandidateScore::default();
    let ghost mut earned: Seq<(nat, Seq<char>)> = seq![];
    assert(texts(score.reasons@) =~= point_reasons(earned));
    let b = contains_evidence(ev, Evidence::FlakeFile);
    add_point(&mut score, b, 5, "flake.nix exists", Ghost(earned));
    proof { earned = earned + point(b, 5, "flake.nix exists"@); }
    let b = contains_evidence(ev, Evidence::FlakeLock);
    add_point(&mut score, b, 3, "flake.lock exists", Ghost(earned));
    proof { earned = earned + point(b, 3, "flake.lock exists"@); }
    let b = contains_evidence(ev, Evidence::GitRepository);
    add_point(&mut score, b, 3, "Git repository", Ghost(earned));
    proof { earned = earned + point(b, 3, "Git repository"@); }
    let b = contains_evidence(ev, Evidence::HostsDirectory);
    add_point(&mut score, b, 2, "hosts/ directory exists", Ghost(earned));
    proof { earned = earned + point(b, 2, "hosts/ directory exists"@); }
    let b = contains_evidence(ev, Evidence::ModulesDirectory);
    add_point(&mut score, b, 2, "modules/ directory exists", Ghost(earned));
    proof { earned = earned + point(b, 2, "modules/ directory exists"@); }
    let b = contains_evidence(ev, Evidence::HomeDirectory);
    add_point(&mut score, b, 1, "home/ directory exists", Ghost(earned));
    proof { earned = earned + point(b, 1, "home/ directory exists"@); }
    let b = contains_evidence(ev, Evidence::SystemDirectory);
    add_point(&mut score, b, 2, "system/ directory exists", Ghost(earned));
    proof { earned = earned + point(b, 2, "system/ directory exists"@); }
    let b = contains_evidence(ev, Evidence::ConfigurationNix);
    add_point(&mut score, b, 2, "configuration.nix exists", Ghost(earned));
    proof { earned = earned + point(b, 2, "configuration.nix exists"@); }
    let b = contains_evidence(ev, Evidence::HardwareConfigurationNix);
    add_point(&mut score, b, 1, "hardware-configuration.nix exists", Ghost(earned));
    proof { earned = earned + point(b, 1, "hardware-configuration.nix exists"@); }
    let b = contains_evidence(ev, Evidence::NixosConfigurationsText);
    add_point(&mut score, b, 3, "nixosConfigurations text found", Ghost(earned));
    proof { earned = earned + point(b, 3, "nixosConfigurations text found"@); }
    assert(earned == evidence_points(ev@));
    score
}

/// Adds the points of a successful Nix evaluation to `score`.
fn add_inspection_score(
    score: &mut CandidateScore,
    inspection: &Option<InspectionResult>,
    Ghost(earned): Ghost<Seq<(nat, Seq<char>)>>,
)
    requires
        old(score).total == points_total(earned),
        texts(old(score).reasons@) == point_reasons(earned),
        old(score).total <= 24,
    ensures
        final(score).total == points_total(earned + inspection_points(*inspection)),
        texts(final(score).reasons@) == point_reasons(earned + inspection_points(*inspection)),
{
    let ghost mut acc = earned;
    match inspection {
        Some(inspection) => match &inspection.nix_evaluation {
            NixEvaluation::Success { outputs } => {
                let b = outputs.nixos_configurations.len() > 0;
                add_point(score, b, 20, "Nix evaluation found NixOS configurations", Ghost(acc));
                proof { acc = acc + point(b, 20, "Nix evaluation found NixOS configurations"@); }
                let b = inspection.environment_match.hostname_matches.len() > 0;
                add_point(score, b, 50, "hostname matches current system", Ghost(acc));
                proof { acc = acc + point(b, 50, "hostname matches current system"@); }
                let b = inspection.environment_match.system_matches.len() > 0;
                add_point(score, b, 20, "system matches current system", Ghost(acc));
                proof { acc = acc + point(b, 20, "system matches current system"@); }
                assert(acc =~= earned + inspection_points(Some(*inspection)));
            },
            _ => {
                assert(earned + inspection_points(Some(*inspection)) =~= earned);
            },
        },
        None => {
            assert(earned + inspection_points(None) =~= earned);
        },
    }
}

} // verus!

use vstd::prelude::*;

use super::candidate::FlakeCandidate;
use super::inspection::{EnvironmentMatch, FlakeOutputs, NixEvaluation, NixosConfiguration};
use super::result::{DiscoveryReport, DiscoveryResult, DiscoveryStatus, SelectionMethod};
use crate::text::{chars_of, decimal_string, decimal_text, lists_text, texts};

verus! {

/// The tests that narrow the candidates down.
#[derive(Debug, Clone, Copy, PartialEq, Eq, Structural)]
pub enum Criterion {
    /// Nix evaluated the candidate.
    Evaluated,
    /// Evaluated, and a configuration has the machine's host name.
    HostnameMatch,
    /// Evaluated, and a configuration has the machine's system.
    SystemMatch,
}

/// Nix evaluated the candidate successfully.
pub open spec fn is_evaluated(c: FlakeCandidate) -> bool {
    c.inspection matches Some(i) && i.nix_evaluation is Success
}

/// The candidate passes the test.
pub open spec fn meets(k: Criterion, c: FlakeCandidate) -> bool {
    is_evaluated(c) && match k {
        Criterion::Evaluated => true,
        Criterion::HostnameMatch => c.inspection->0.environment_match.hostname_matches@.len() > 0,
        Criterion::SystemMatch => c.inspection->0.environment_match.system_matches@.len() > 0,
    }
}

/// The indices of the candidates that pass the test, in order.
pub open spec fn indices_meeting(cs: Seq<FlakeCandidate>, k: Criterion) -> Seq<int>
    decreases cs.len(),
{
    if cs.len() == 0 {
        seq![]
    } else {
        indices_meeting(cs.drop_last(), k) + if meets(k, cs.last()) {
            seq![cs.len() - 1]
        } else {
            seq![]
        }
    }
}

/// The first configuration, from index `k` on, whose name is in `names`.
pub open spec fn first_listed_from(
    configs: Seq<NixosConfiguration>,
    names: Seq<Seq<char>>,
    k: int,
) -> Option<int>
    decreases configs.len() - k,
{
    if k < 0 || k >= configs.len() {
        None
    } else if names.contains(configs[k].name@) {
        Some(k)
    } else {
        first_listed_from(configs, names, k + 1)
    }
}

pub proof fn lemma_first_listed_from(
    configs: Seq<NixosConfiguration>,
    names: Seq<Seq<char>>,
    k: int,
)
    requires
        0 <= k,
    ensures
        match first_listed_from(configs, names, k) {
            Some(j) => k <= j < configs.len() && names.contains(configs[j].name@),
            None => true,
        },
    decreases configs.len() - k,
{
    if k < configs.len() && !names.contains(configs[k].name@) {
        lemma_first_listed_from(configs, names, k + 1);
    }
}

/// The configuration to use: the first that matches the host name, else
/// the first that matches the system, else the only one.
pub open spec fn matching_configuration(outputs: FlakeOutputs, m: EnvironmentMatch) -> Option<
    NixosConfiguration,
> {
    let cfgs = outputs.nixos_configurations@;
    match first_listed_from(cfgs, texts(m.hostname_matches@), 0) {
        Some(k) => Some(cfgs[k]),
        None => match first_listed_from(cfgs, texts(m.system_matches@), 0) {
            Some(k) => Some(cfgs[k]),
            None => if cfgs.len() == 1 {
                Some(cfgs[0])
            } else {
                None
            },
        },
    }
}

/// The status, the chosen result and the diagnostics of a selection.
pub type Outcome = (DiscoveryStatus, Option<DiscoveryResult>, Seq<Seq<char>>);

/// The outcome of choosing candidate `c` by `method`.
pub open spec fn success_outcome(c: FlakeCandidate, method: SelectionMethod) -> Outcome {
    match c.inspection {
        None => (
            DiscoveryStatus::EvaluationFailed,
            None,
            seq!["Selected candidate has no inspection result."@],
        ),
        Some(i) => {
            let found = match i.nix_evaluation {
                NixEvaluation::Success { outputs } => matching_configuration(
                    outputs,
                    i.environment_match,
                ),
                _ => None,
            };
            match found {
                None => (
                    DiscoveryStatus::EvaluationFailed,
                    None,
                    seq![
                        "Candidate '"@ + c.flake_root@
                            + "' was selected, but no matching NixOS configuration was found."@,
                    ],
                ),
                Some(conf) => (
                    DiscoveryStatus::Success,
                    Some(
                        DiscoveryResult {
                            flake_root: c.flake_root,
                            flake_file: c.flake_file,
                            selected_configuration: conf,
                            selection_method: method,
                            metadata: None,
                        },
                    ),
                    seq![],
                ),
            }
        },
    }
}

/// How discovery chooses among the candidates.
///
/// Only candidates that Nix evaluated count. A unique host-name match
/// wins; several are ambiguous. Failing that, a unique system match wins;
/// several are ambiguous. Failing that, a lone evaluated candidate wins.
/// The score plays no part.
pub open spec fn selection(cs: Seq<FlakeCandidate>) -> Outcome {
    let ev = indices_meeting(cs, Criterion::Evaluated);
    let hm = indices_meeting(cs, Criterion::HostnameMatch);
    let sm = indices_meeting(cs, Criterion::SystemMatch);
    if cs.len() == 0 {
        (DiscoveryStatus::NoCandidates, None, seq!["No flake candidates were found."@])
    } else if ev.len() == 0 {
        (
            DiscoveryStatus::EvaluationFailed,
            None,
            seq!["No candidates could be successfully evaluated by Nix."@],
        )
    } else if hm.len() == 1 {
        success_outcome(cs[hm[0]], SelectionMethod::HostnameMatch)
    } else if hm.len() > 1 {
        (
            DiscoveryStatus::MultipleCandidates,
            None,
            seq!["Multiple candidates match the current hostname."@],
        )
    } else if sm.len() == 1 {
        success_outcome(cs[sm[0]], SelectionMethod::SystemMatch)
    } else if sm.len() > 1 {
        (
            DiscoveryStatus::MultipleCandidates,
            None,
            seq!["Multiple candidates match the current system."@],
        )
    } else if ev.len() == 1 {
        success_outcome(cs[ev[0]], SelectionMethod::UniqueCandidate)
    } else {
        (
            DiscoveryStatus::MultipleCandidates,
            None,
            seq![
                decimal_text(ev.len())
                    + " evaluated NixOS candidates remain after environment matching."@,
            ],
        )
    }
}

/// Whether the candidate passes the test.
fn candidate_meets(k: Criterion, c: &FlakeCandidate) -> (b: bool)
    ensures
        b == meets(k, *c),
{
    match &c.inspection {
        Some(i) => match &i.nix_evaluation {
            NixEvaluation::Success { .. } => match k {
                Criterion::Evaluated => true,
                Criterion::HostnameMatch => i.environment_match.hostname_matches.len() > 0,
                Criterion::SystemMatch => i.environment_match.system_matches.len() > 0,
            },
            _ => false,
        },
        None => false,
    }
}

/// The indices of the candidates that pass the test, in order.
fn matching_candidates(cs: &Vec<FlakeCandidate>, k: Criterion) -> (r: Vec<usize>)
    ensures
        r@.len() == indices_meeting(cs@, k).len(),
        forall|j: int| 0 <= j < r@.len() ==> r@[j] as int == #[trigger] indices_meeting(cs@, k)[j],
{
    let mut r: Vec<usize> = Vec::new();
    let mut i: usize = 0;
    while i < cs.len()
        invariant
            i <= cs.len(),
            r@.len() == indices_meeting(cs@.take(i as int), k).len(),
            forall|j: int|
                0 <= j < r@.len() ==> r@[j] as int == #[trigger] indices_meeting(
                    cs@.take(i as int),
                    k,
                )[j],
        decreases cs.len() - i,
    {
        let ghost before = indices_meeting(cs@.take(i as int), k);
        assert(cs@.take(i + 1).drop_last() =~= cs@.take(i as int));
        assert(cs@.take(i + 1).last() == cs@[i as int]);
        if candidate_meets(k, &cs[i]) {
            r.push(i);
        }
        i = i + 1;
    }
    assert(cs@.take(cs@.len() as int) =~= cs@);
    r
}

/// The index of the first configuration whose name is in `names`.
fn first_listed(configs: &Vec<NixosConfiguration>, names: &Vec<String>) -> (r: Option<usize>)
    ensures
        match r {
            Some(k) => first_listed_from(configs@, texts(names@), 0) == Some(k as int) && k
                < configs@.len(),
            None => first_listed_from(configs@, texts(names@), 0) is None,
        },
{
    proof {
        lemma_first_listed_from(configs@, texts(names@), 0);
    }
    let mut k: usize = 0;
    while k < configs.len()
        invariant
            k <= configs.len(),
            first_listed_from(configs@, texts(names@), 0) == first_listed_from(
                configs@,
                texts(names@),
                k as int,
            ),
        decreases configs.len() - k,
    {
        let w = chars_of(configs[k].name.as_str());
        if lists_text(names, &w) {
            return Some(k);
        }
        k = k + 1;
    }
    None
}

/// The configuration to use (see `matching_configuration`).
fn find_matching_configuration(outputs: &FlakeOutputs, m: &EnvironmentMatch) -> (r: Option<
    NixosConfiguration,
>)
    ensures
        r == matching_configuration(*outputs, *m),
{
    let cfgs = &outputs.nixos_configurations;
    match first_listed(cfgs, &m.hostname_matches) {
        Some(k) => Some(cfgs[k].duplicate()),
        None => match first_listed(cfgs, &m.system_matches) {
            Some(k) => Some(cfgs[k].duplicate()),
            None => if cfgs.len() == 1 {
                Some(cfgs[0].duplicate())
            } else {
                None
            },
        },
    }
}

/// The report for choosing candidate `c` by `method`.
fn build_success_report(
    report: DiscoveryReport,
    c: &FlakeCandidate,
    selection_method: SelectionMethod,
) -> (r: DiscoveryReport)
    requires
        report.diagnostics@.len() == 0,
        report.selected is None,
    ensures
        (r.status, r.selected, texts(r.diagnostics@)) == success_outcome(*c, selection_method),
        r.candidates == report.candidates,
        r.search_locations == report.search_locations,
        r.generated_at == report.generated_at,
{
    let mut report = report;
    let inspection = match &c.inspection {
        Some(i) => i,
        None => {
            report.status = DiscoveryStatus::EvaluationFailed;
            report.diagnostics.push(
                String::from_str("Selected candidate has no inspection result."),
            );
            assert(texts(report.diagnostics@) =~= seq![
                "Selected candidate has no inspection result."@,
            ]);
            return report;
        },
    };
    let found = match &inspection.nix_evaluation {
        NixEvaluation::Success { outputs } => find_matching_configuration(
            outputs,
            &inspection.environment_match,
        ),
        _ => None,
    };
    match found {
        None => {
            report.status = DiscoveryStatus::EvaluationFailed;
            let mut message = String::from_str("Candidate '");
            message.append(c.flake_root.as_str());
            message.append("' was selected, but no matching NixOS configuration was found.");
            report.diagnostics.push(message);
            assert(texts(report.diagnostics@) =~= seq![message@]);
            report
        },
        Some(configuration) => {
            report.status = DiscoveryStatus::Success;
            report.selected = Some(
                DiscoveryResult {
                    flake_root: c.flake_root.clone(),
                    flake_file: c.flake_file.clone(),
                    selected_configuration: configuration,
                    selection_method,
                    metadata: None,
                },
            );
            assert(texts(report.diagnostics@) =~= seq![]);
            report
        },
    }
}

/// A report whose only diagnostic is `message`.
fn failed_report(report: DiscoveryReport, status: DiscoveryStatus, message: String) -> (r:
    DiscoveryReport)
    requires
        report.diagnostics@.len() == 0,
        report.selected is None,
    ensures
        r.status == status,
        r.selected is None,
        texts(r.diagnostics@) == seq![message@],
        r.candidates == report.candidates,
        r.search_locations == report.search_locations,
        r.generated_at == report.generated_at,
{
    let mut report = report;
    report.status = status;
    report.diagnostics.push(message);
    assert(texts(report.diagnostics@) =~= seq![message@]);
    report
}

/// Chooses the flake and NixOS configuration to use (see `selection`).
///
/// The report keeps every candidate, in the order given.
pub fn select_candidate(candidates: Vec<FlakeCandidate>) -> (r: DiscoveryReport)
    ensures
        r.candidates@ == candidates@,
        (r.status, r.selected, texts(r.diagnostics@)) == selection(candidates@),
        r.search_locations@.len() == 0,
        r.generated_at is None,
{
    let ghost cs = candidates@;
    let evaluated = matching_candidates(&candidates, Criterion::Evaluated);
    let hostname_matches = matching_candidates(&candidates, Criterion::HostnameMatch);
    let system_matches = matching_candidates(&candidates, Criterion::SystemMatch);
    let n = candidates.len();
    let report = DiscoveryReport::new(DiscoveryStatus::NoCandidates);
    proof {
        lemma_indices_in_range(cs, Criterion::Evaluated);
        lemma_indices_in_range(cs, Criterion::HostnameMatch);
        lemma_indices_in_range(cs, Criterion::SystemMatch);
    }
    let chosen: Option<(usize, SelectionMethod)> = if n == 0 || evaluated.len() == 0 {
        None
    } else if hostname_matches.len() == 1 {
        assert(hostname_matches@[0] as int == indices_meeting(cs, Criterion::HostnameMatch)[0]);
        Some((hostname_matches[0], SelectionMethod::HostnameMatch))
    } else if hostname_matches.len() > 1 {
        None
    } else if system_matches.len() == 1 {
        assert(system_matches@[0] as int == indices_meeting(cs, Criterion::SystemMatch)[0]);
        Some((system_matches[0], SelectionMethod::SystemMatch))
    } else if system_matches.len() > 1 {
        None
    } else if evaluated.len() == 1 {
        assert(evaluated@[0] as int == indices_meeting(cs, Criterion::Evaluated)[0]);
        Some((evaluated[0], SelectionMethod::UniqueCandidate))
    } else {
        None
    };
    match chosen {
        Some((index, method)) => {
            let mut r = build_success_report(report, &candidates[index], method);
            r.candidates = candidates;
            r
        },
        None => {
            let message = if n == 0 {
                String::from_str("No flake candidates were found.")
            } else if evaluated.len() == 0 {
                String::from_str("No candidates could be successfully evaluated by Nix.")
            } else if hostname_matches.len() > 1 {
                String::from_str("Multiple candidates match the current hostname.")
            } else if system_matches.len() > 1 {
                String::from_str("Multiple candidates match the current system.")
            } else {
                let mut m = decimal_string(evaluated.len());
                m.append(" evaluated NixOS candidates remain after environment matching.");
                m
            };
            let status = if n == 0 {
                DiscoveryStatus::NoCandidates
            } else if evaluated.len() == 0 {
                DiscoveryStatus::EvaluationFailed
            } else {
                DiscoveryStatus::MultipleCandidates
            };
            let mut r = failed_report(report, status, message);
            r.candidates = candidates;
            r
        },
    }
}

/// Every index that `indices_meeting` lists is a candidate's.
pub proof fn lemma_indices_in_range(cs: Seq<FlakeCandidate>, k: Criterion)
    ensures
        forall|j: int|
            0 <= j < indices_meeting(cs, k).len() ==> 0 <= #[trigger] indices_meeting(cs, k)[j]
                < cs.len(),
    decreases cs.len(),
{
    if cs.len() > 0 {
        let u = cs.drop_last();
        lemma_indices_in_range(u, k);
        let prev = indices_meeting(u, k);
        let tail = if meets(k, cs.last()) {
            seq![cs.len() - 1]
        } else {
            seq![]
        };
        assert(indices_meeting(cs, k) == prev + tail);
        assert forall|j: int| 0 <= j < indices_meeting(cs, k).len() implies 0
            <= #[trigger] indices_meeting(cs, k)[j] < cs.len() by {
            if j < prev.len() {
                assert(indices_meeting(cs, k)[j] == prev[j]);
            }
        }
    }
}

/// `a` and `b` are the same candidate but perhaps for their scores.
pub open spec fn alike_but_score(a: FlakeCandidate, b: FlakeCandidate) -> bool {
    &&& a.flake_root == b.flake_root
    &&& a.flake_file == b.flake_file
    &&& a.sources == b.sources
    &&& a.evidence == b.evidence
    &&& a.inspection == b.inspection
}

proof fn lemma_indices_ignore_score(cs: Seq<FlakeCandidate>, ds: Seq<FlakeCandidate>, k: Criterion)
    requires
        cs.len() == ds.len(),
        forall|i: int| 0 <= i < cs.len() ==> alike_but_score(#[trigger] cs[i], ds[i]),
    ensures
        indices_meeting(cs, k) == indices_meeting(ds, k),
    decreases cs.len(),
{
    if cs.len() > 0 {
        assert forall|i: int| 0 <= i < cs.drop_last().len() implies alike_but_score(
            #[trigger] cs.drop_last()[i],
            ds.drop_last()[i],
        ) by {
            assert(alike_but_score(cs[i], ds[i]));
        }
        lemma_indices_ignore_score(cs.drop_last(), ds.drop_last(), k);
        assert(alike_but_score(cs[cs.len() - 1], ds[ds.len() - 1]));
    }
}

/// The score never chooses: candidates that differ only in their scores
/// are chosen among alike.
pub proof fn law_selection_ignores_score(cs: Seq<FlakeCandidate>, ds: Seq<FlakeCandidate>)
    requires
        cs.len() == ds.len(),
        forall|i: int| 0 <= i < cs.len() ==> alike_but_score(#[trigger] cs[i], ds[i]),
    ensures
        selection(cs) == selection(ds),
{
    lemma_indices_ignore_score(cs, ds, Criterion::Evaluated);
    lemma_indices_ignore_score(cs, ds, Criterion::HostnameMatch);
    lemma_indices_ignore_score(cs, ds, Criterion::SystemMatch);
    let ev = indices_meeting(cs, Criterion::Evaluated);
    let hm = indices_meeting(cs, Criterion::HostnameMatch);
    let sm = indices_meeting(cs, Criterion::SystemMatch);
    lemma_indices_in_range(cs, Criterion::Evaluated);
    lemma_indices_in_range(cs, Criterion::HostnameMatch);
    lemma_indices_in_range(cs, Criterion::SystemMatch);
    if hm.len() > 0 {
        assert(alike_but_score(cs[hm[0]], ds[hm[0]]));
    }
    if sm.len() > 0 {
        assert(alike_but_score(cs[sm[0]], ds[sm[0]]));
    }
    if ev.len() > 0 {
        assert(alike_but_score(cs[ev[0]], ds[ev[0]]));
    }
}

/// The indices of the candidates that pass the test.
pub open spec fn meeting_set(cs: Seq<FlakeCandidate>, k: Criterion) -> Set<int> {
    Set::new(|j: int| 0 <= j < cs.len() && meets(k, cs[j]))
}

proof fn lemma_indices_sorted(cs: Seq<FlakeCandidate>, k: Criterion)
    ensures
        forall|a: int, b: int|
            0 <= a < b < indices_meeting(cs, k).len() ==> #[trigger] indices_meeting(cs, k)[a]
                < #[trigger] indices_meeting(cs, k)[b],
        forall|j: int|
            #[trigger] indices_meeting(cs, k).contains(j) <==> (0 <= j < cs.len() && meets(
                k,
                cs[j],
            )),
    decreases cs.len(),
{
    if cs.len() > 0 {
        let u = cs.drop_last();
        lemma_indices_sorted(u, k);
        lemma_indices_in_range(u, k);
        let prev = indices_meeting(u, k);
        let tail = if meets(k, cs.last()) {
            seq![cs.len() - 1]
        } else {
            seq![]
        };
        let ind = indices_meeting(cs, k);
        assert(ind == prev + tail);
        assert forall|a: int, b: int| 0 <= a < b < ind.len() implies #[trigger] ind[a]
            < #[trigger] ind[b] by {
            if b < prev.len() {
                assert(ind[a] == prev[a] && ind[b] == prev[b]);
            } else {
                assert(ind[a] == prev[a]);
            }
        }
        assert forall|j: int| #[trigger] ind.contains(j) <==> (0 <= j < cs.len() && meets(
            k,
            cs[j],
        )) by {
            if ind.contains(j) {
                let a = choose|a: int| 0 <= a < ind.len() && ind[a] == j;
                if a < prev.len() {
                    assert(prev[a] == j);
                    assert(prev.contains(j));
                    assert(u[j] == cs[j]);
                }
            }
            if 0 <= j < cs.len() && meets(k, cs[j]) {
                if j < cs.len() - 1 {
                    assert(u[j] == cs[j]);
                    assert(prev.contains(j));
                    let a = choose|a: int| 0 <= a < prev.len() && prev[a] == j;
                    assert(ind[a] == j);
                } else {
                    assert(ind[prev.len() as int] == j);
                }
            }
        }
    }
}

proof fn lemma_indices_count(cs: Seq<FlakeCandidate>, k: Criterion)
    ensures
        meeting_set(cs, k).finite(),
        indices_meeting(cs, k).len() == meeting_set(cs, k).len(),
{
    lemma_indices_sorted(cs, k);
    let ind = indices_meeting(cs, k);
    assert(ind.no_duplicates()) by {
        assert forall|a: int, b: int| 0 <= a < ind.len() && 0 <= b < ind.len() && a != b implies ind[a]
            != ind[b] by {
            if a < b {
                assert(ind[a] < ind[b]);
            } else {
                assert(ind[b] < ind[a]);
            }
        }
    }
    ind.unique_seq_to_set();
    vstd::seq_lib::seq_to_set_is_finite(ind);
    assert(ind.to_set() =~= meeting_set(cs, k));
}

/// `ds` holds the candidates of `cs` in another order, `ds[j]` being
/// `cs[p[j]]` but perhaps for its score; `q` undoes `p`.
pub open spec fn reordered(
    cs: Seq<FlakeCandidate>,
    ds: Seq<FlakeCandidate>,
    p: Seq<int>,
    q: Seq<int>,
) -> bool {
    &&& cs.len() == ds.len()
    &&& p.len() == ds.len()
    &&& q.len() == cs.len()
    &&& forall|j: int| 0 <= j < ds.len() ==> 0 <= #[trigger] p[j] < cs.len() && q[p[j]] == j
    &&& forall|i: int| 0 <= i < cs.len() ==> 0 <= #[trigger] q[i] < ds.len() && p[q[i]] == i
    &&& forall|j: int| 0 <= j < ds.len() ==> alike_but_score(cs[p[j]], #[trigger] ds[j])
}

proof fn lemma_reordered_counts(
    cs: Seq<FlakeCandidate>,
    ds: Seq<FlakeCandidate>,
    p: Seq<int>,
    q: Seq<int>,
    k: Criterion,
)
    requires
        reordered(cs, ds, p, q),
    ensures
        indices_meeting(cs, k).len() == indices_meeting(ds, k).len(),
{
    lemma_indices_count(cs, k);
    lemma_indices_count(ds, k);
    let x = meeting_set(ds, k);
    let y = meeting_set(cs, k);
    let f = |j: int| p[j];
    assert forall|j1: int, j2: int| x.contains(j1) && x.contains(j2) && #[trigger] f(j1) == #[trigger] f(
        j2,
    ) implies j1 == j2 by {
        assert(q[p[j1]] == j1 && q[p[j2]] == j2);
    }
    assert(vstd::relations::injective_on(f, x));
    assert forall|i: int| #[trigger] x.map(f).contains(i) <==> y.contains(i) by {
        if y.contains(i) {
            let j = q[i];
            assert(alike_but_score(cs[p[j]], ds[j]));
            assert(x.contains(j) && f(j) == i);
        }
        if x.map(f).contains(i) {
            let j = choose|j: int| x.contains(j) && i == f(j);
            assert(alike_but_score(cs[p[j]], ds[j]));
        }
    }
    assert(x.map(f) =~= y);
    vstd::set_lib::lemma_map_size(x, y, f);
}

/// The order of the candidates never chooses, nor do their scores: the
/// same candidates in another order, perhaps scored otherwise, are chosen
/// among alike.
pub proof fn law_selection_ignores_order_and_score(
    cs: Seq<FlakeCandidate>,
    ds: Seq<FlakeCandidate>,
    p: Seq<int>,
    q: Seq<int>,
)
    requires
        reordered(cs, ds, p, q),
    ensures
        selection(cs) == selection(ds),
{
    lemma_reordered_counts(cs, ds, p, q, Criterion::Evaluated);
    lemma_reordered_counts(cs, ds, p, q, Criterion::HostnameMatch);
    lemma_reordered_counts(cs, ds, p, q, Criterion::SystemMatch);
    lemma_first_match_moves(cs, ds, p, q, Criterion::Evaluated);
    lemma_first_match_moves(cs, ds, p, q, Criterion::HostnameMatch);
    lemma_first_match_moves(cs, ds, p, q, Criterion::SystemMatch);
}

/// When one candidate alone passes a test, it is the same candidate in
/// either order.
proof fn lemma_first_match_moves(
    cs: Seq<FlakeCandidate>,
    ds: Seq<FlakeCandidate>,
    p: Seq<int>,
    q: Seq<int>,
    k: Criterion,
)
    requires
        reordered(cs, ds, p, q),
    ensures
        indices_meeting(ds, k).len() == 1 ==> alike_but_score(
            cs[indices_meeting(cs, k)[0]],
            ds[indices_meeting(ds, k)[0]],
        ),
{
    lemma_reordered_counts(cs, ds, p, q, k);
    lemma_indices_sorted(cs, k);
    lemma_indices_sorted(ds, k);
    let a = indices_meeting(cs, k);
    let b = indices_meeting(ds, k);
    if b.len() == 1 {
        let j = b[0];
        assert(b.contains(j));
        assert(alike_but_score(cs[p[j]], ds[j]));
        assert(a.contains(p[j]));
        let i = choose|i: int| 0 <= i < a.len() && a[i] == p[j];
        assert(i == 0);
    }
}

proof fn lemma_first_listed_from_none(configs: Seq<NixosConfiguration>, names: Seq<Seq<char>>, k: int)
    requires
        0 <= k,
        first_listed_from(configs, names, k) is None,
    ensures
        forall|j: int| k <= j < configs.len() ==> !names.contains(#[trigger] configs[j].name@),
    decreases configs.len() - k,
{
    if k < configs.len() {
        lemma_first_listed_from_none(configs, names, k + 1);
    }
}

/// A configuration whose host name is the machine's is always preferred:
/// when one is among the host-name matches, the configuration chosen is
/// one of them; failing that, when one is among the system matches, the
/// one chosen is one of those.
pub proof fn law_hostname_match_preferred(outputs: FlakeOutputs, m: EnvironmentMatch)
    ensures
        (exists|k: int|
            0 <= k < outputs.nixos_configurations@.len() && texts(m.hostname_matches@).contains(
                #[trigger] outputs.nixos_configurations@[k].name@,
            )) ==> (matching_configuration(outputs, m) matches Some(c) && texts(
            m.hostname_matches@,
        ).contains(c.name@)),
        (forall|k: int|
            0 <= k < outputs.nixos_configurations@.len() ==> !texts(m.hostname_matches@).contains(
                #[trigger] outputs.nixos_configurations@[k].name@,
            )) && (exists|k: int|
            0 <= k < outputs.nixos_configurations@.len() && texts(m.system_matches@).contains(
                #[trigger] outputs.nixos_configurations@[k].name@,
            )) ==> (matching_configuration(outputs, m) matches Some(c) && texts(
            m.system_matches@,
        ).contains(c.name@)),
{
    let cfgs = outputs.nixos_configurations@;
    let hn = texts(m.hostname_matches@);
    let sn = texts(m.system_matches@);
    lemma_first_listed_from(cfgs, hn, 0);
    lemma_first_listed_from(cfgs, sn, 0);
    if first_listed_from(cfgs, hn, 0) is None {
        lemma_first_listed_from_none(cfgs, hn, 0);
    }
    if first_listed_from(cfgs, sn, 0) is None {
        lemma_first_listed_from_none(cfgs, sn, 0);
    }
}

/// When discovery chooses a candidate whose inspection found a
/// configuration with the machine's host name, the configuration it
/// records has the machine's host name.
pub proof fn law_chosen_configuration_matches_host(c: FlakeCandidate, method: SelectionMethod)
    requires
        c.inspection matches Some(i) && i.nix_evaluation matches NixEvaluation::Success { outputs }
            && exists|k: int|
            0 <= k < outputs.nixos_configurations@.len() && texts(
                i.environment_match.hostname_matches@,
            ).contains(#[trigger] outputs.nixos_configurations@[k].name@),
    ensures
        success_outcome(c, method).1 matches Some(r) && texts(
            c.inspection->0.environment_match.hostname_matches@,
        ).contains(r.selected_configuration.name@),
{
    let i = c.inspection->0;
    let outputs = i.nix_evaluation->outputs;
    law_hostname_match_preferred(outputs, i.environment_match);
}

} // verus!

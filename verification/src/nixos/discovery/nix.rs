//! What discovery makes of Nix's answers.
use vstd::prelude::*;

use super::inspection::{
    EnvironmentMatch, EvaluationErrorCategory, FilesystemInspection, FlakeOutputs,
    InspectionResult, NixEvaluation, NixEvaluationError, NixosConfiguration,
};
use crate::text::{
    append_range, chars_of, contains_seq, find_from, text_equal, texts, trim, trim_bounds,
};

verus! {

/// A failed Nix command, with what it said.
#[derive(Debug, Clone)]
pub struct NixCommandError {
    pub message: String,
}

/// An output of a flake, as `nix flake show --json` describes it.
#[derive(Debug, Clone)]
pub struct NixFlakeOutput {
    /// Its type, such as `nixos-configuration`.
    pub output_type: Option<String>,
}

/// What `nix flake show --json` says of a flake: its NixOS configurations,
/// each with its attribute name. No name occurs twice (see `names_distinct`).
#[derive(Debug, Clone)]
pub struct NixFlakeShow {
    pub nixos_configurations: Vec<(String, NixFlakeOutput)>,
}

/// No two entries of `es` have the same name.
pub open spec fn distinct_names(es: Seq<(String, NixFlakeOutput)>) -> bool {
    forall|i: int, j: int| 0 <= i < j < es.len() ==> #[trigger] es[i].0@ != #[trigger] es[j].0@
}

/// `es` without the entries named `name`, in order.
pub open spec fn without_name(es: Seq<(String, NixFlakeOutput)>, name: Seq<char>) -> Seq<
    (String, NixFlakeOutput),
>
    decreases es.len(),
{
    if es.len() == 0 {
        seq![]
    } else {
        without_name(es.drop_last(), name) + if es.last().0@ == name {
            seq![]
        } else {
            seq![es.last()]
        }
    }
}

/// The entries `es` read as a map: for a name given more than once, the
/// last entry with it stands, at the end.
pub open spec fn last_entries(es: Seq<(String, NixFlakeOutput)>) -> Seq<(String, NixFlakeOutput)>
    decreases es.len(),
{
    if es.len() == 0 {
        seq![]
    } else {
        without_name(last_entries(es.drop_last()), es.last().0@).push(es.last())
    }
}

proof fn lemma_without_name(es: Seq<(String, NixFlakeOutput)>, name: Seq<char>)
    ensures
        forall|k: int|
            #![trigger without_name(es, name)[k]]
            0 <= k < without_name(es, name).len() ==> without_name(es, name)[k].0@ != name
                && es.contains(without_name(es, name)[k]),
        distinct_names(es) ==> distinct_names(without_name(es, name)),
    decreases es.len(),
{
    if es.len() > 0 {
        let u = es.drop_last();
        lemma_without_name(u, name);
        let w = without_name(u, name);
        let r = without_name(es, name);
        assert forall|k: int| 0 <= k < r.len() implies #[trigger] r[k].0@ != name && es.contains(
            r[k],
        ) by {
            assert(r == without_name(es, name));
            if k < w.len() {
                assert(r[k] == w[k]);
                assert(w[k].0@ != name && u.contains(w[k]));
                let m = choose|m: int| 0 <= m < u.len() && u[m] == w[k];
                assert(es[m] == u[m]);
            } else {
                assert(r[k] == es.last());
                assert(es[es.len() - 1] == es.last());
            }
        }
        if distinct_names(es) {
            assert forall|i: int, j: int| 0 <= i < j < u.len() implies #[trigger] u[i].0@
                != #[trigger] u[j].0@ by {
                assert(u[i] == es[i] && u[j] == es[j]);
            }
            assert forall|i: int, j: int| 0 <= i < j < r.len() implies #[trigger] r[i].0@
                != #[trigger] r[j].0@ by {
                if j < w.len() {
                    assert(r[i] == w[i] && r[j] == w[j]);
                } else {
                    assert(r[i] == w[i]);
                    assert(r[j] == es.last());
                    assert(w[i].0@ != name && u.contains(w[i]));
                    let m = choose|m: int| 0 <= m < u.len() && u[m] == w[i];
                    assert(es[m] == u[m]);
                    assert(es[es.len() - 1] == es.last());
                }
            }
        }
    }
}

proof fn lemma_last_entries_distinct(es: Seq<(String, NixFlakeOutput)>)
    ensures
        distinct_names(last_entries(es)),
    decreases es.len(),
{
    if es.len() > 0 {
        lemma_last_entries_distinct(es.drop_last());
        let n = es.last().0@;
        let w = without_name(last_entries(es.drop_last()), n);
        lemma_without_name(last_entries(es.drop_last()), n);
        let r = w.push(es.last());
        assert forall|i: int, j: int| 0 <= i < j < r.len() implies #[trigger] r[i].0@
            != #[trigger] r[j].0@ by {
            assert(r[i] == w[i]);
            if j < w.len() {
                assert(r[j] == w[j]);
            }
        }
    }
}

/// `v` without the entries named `name`.
fn remove_named(v: Vec<(String, NixFlakeOutput)>, name: &str) -> (r: Vec<(String, NixFlakeOutput)>)
    ensures
        r@ == without_name(v@, name@),
{
    let ghost orig = v@;
    let mut pending = v;
    let mut kept: Vec<(String, NixFlakeOutput)> = Vec::new();
    let n = pending.len();
    let mut i: usize = 0;
    assert(pending@ =~= orig.skip(0));
    assert(orig.take(0) =~= Seq::<(String, NixFlakeOutput)>::empty());
    while i < n
        invariant
            orig == v@,
            n == orig.len(),
            i <= n,
            pending@ == orig.skip(i as int),
            kept@ == without_name(orig.take(i as int), name@),
        decreases n - i,
    {
        let e = pending.remove(0);
        assert(e == orig[i as int]);
        assert(pending@ =~= orig.skip(i + 1));
        assert(orig.take(i + 1).drop_last() =~= orig.take(i as int));
        assert(orig.take(i + 1).last() == orig[i as int]);
        if !text_equal(e.0.as_str(), name) {
            kept.push(e);
        } else {
            assert(kept@ + Seq::<(String, NixFlakeOutput)>::empty() =~= kept@);
        }
        i = i + 1;
    }
    assert(orig.take(n as int) =~= orig);
    kept
}

impl NixFlakeShow {
    /// No configuration name occurs twice.
    pub open spec fn names_distinct(self) -> bool {
        distinct_names(self.nixos_configurations@)
    }

    /// The configurations named by `entries`, read as a map: for a name
    /// given more than once, the last entry stands.
    pub fn from_entries(entries: Vec<(String, NixFlakeOutput)>) -> (show: Self)
        ensures
            show.nixos_configurations@ == last_entries(entries@),
            show.names_distinct(),
    {
        let ghost orig = entries@;
        let mut pending = entries;
        let mut kept: Vec<(String, NixFlakeOutput)> = Vec::new();
        let n = pending.len();
        let mut i: usize = 0;
        assert(pending@ =~= orig.skip(0));
        assert(orig.take(0) =~= Seq::<(String, NixFlakeOutput)>::empty());
        while i < n
            invariant
                orig == entries@,
                n == orig.len(),
                i <= n,
                pending@ == orig.skip(i as int),
                kept@ == last_entries(orig.take(i as int)),
            decreases n - i,
        {
            let e = pending.remove(0);
            assert(e == orig[i as int]);
            assert(pending@ =~= orig.skip(i + 1));
            assert(orig.take(i + 1).drop_last() =~= orig.take(i as int));
            assert(orig.take(i + 1).last() == orig[i as int]);
            let mut rest = remove_named(kept, e.0.as_str());
            rest.push(e);
            kept = rest;
            i = i + 1;
        }
        assert(orig.take(n as int) =~= orig);
        proof {
            lemma_last_entries_distinct(orig);
        }
        NixFlakeShow { nixos_configurations: kept }
    }

    /// The names of the configurations, in order; no name occurs twice when
    /// the configurations' names are distinct.
    pub fn configuration_names(&self) -> (names: Vec<String>)
        ensures
            names@.len() == self.nixos_configurations@.len(),
            forall|k: int|
                0 <= k < names@.len() ==> #[trigger] names@[k]@
                    == self.nixos_configurations@[k].0@,
            self.names_distinct() ==> forall|i: int, j: int|
                0 <= i < j < names@.len() ==> #[trigger] names@[i]@ != #[trigger] names@[j]@,
    {
        let mut names: Vec<String> = Vec::new();
        let mut i: usize = 0;
        while i < self.nixos_configurations.len()
            invariant
                i <= self.nixos_configurations@.len(),
                names@.len() == i,
                forall|k: int|
                    0 <= k < i ==> #[trigger] names@[k]@ == self.nixos_configurations@[k].0@,
            decreases self.nixos_configurations@.len() - i,
        {
            let name = self.nixos_configurations[i].0.clone();
            names.push(name);
            i = i + 1;
        }
        proof {
            if self.names_distinct() {
                assert forall|a: int, b: int| 0 <= a < b < names@.len() implies #[trigger] names@[a]@
                    != #[trigger] names@[b]@ by {
                    assert(names@[a]@ == self.nixos_configurations@[a].0@);
                    assert(names@[b]@ == self.nixos_configurations@[b].0@);
                }
            }
        }
        names
    }
}

/// What `nix flake metadata --json` says of a flake.
#[derive(Debug, Clone)]
pub struct NixFlakeMetadata {
    pub description: Option<String>,
    pub path: Option<String>,
    /// The time of the last change, in seconds since the UNIX epoch.
    pub last_modified: Option<u64>,
    pub last_modified_date: Option<String>,
    /// The locked reference, as JSON text.
    pub locked: Option<String>,
}

/// What the machine says of itself (its host name, its system), as read:
/// trimmed, and nothing when nothing is left.
pub open spec fn machine_text(raw: Option<String>) -> Option<Seq<char>> {
    match raw {
        None => None,
        Some(s) => if trim(s@).len() == 0 {
            None
        } else {
            Some(trim(s@))
        },
    }
}

/// Trims a value the machine gave and drops it when it is empty (see
/// `machine_text`).
pub fn machine_value(raw: Option<String>) -> (r: Option<String>)
    ensures
        match machine_text(raw) {
            None => r is None,
            Some(t) => r matches Some(v) && v@ == t,
        },
{
    match raw {
        None => None,
        Some(s) => {
            let v = chars_of(s.as_str());
            let (from, to) = trim_bounds(&v, 0, v.len());
            assert(v@.subrange(0, v@.len() as int) =~= v@);
            if from == to {
                None
            } else {
                let mut out = String::new();
                append_range(&mut out, s.as_str(), &v, from, to);
                Some(out)
            }
        },
    }
}

/// What `serde_json::from_slice::<String>` makes of `bytes`: the string, or
/// the error's message.
pub uninterp spec fn json_string(bytes: Seq<u8>) -> Result<Seq<char>, Seq<char>>;

/// Reads `bytes` as a JSON string with `serde_json::from_slice::<String>`.
///
/// Trusted: the result is the string that serde_json reads, or the
/// `Display` text of its error; both are a function of the bytes alone, and
/// the contract names them and says no more.
#[verifier::external_body]
fn parse_json_string(bytes: &[u8]) -> (r: Result<String, String>)
    ensures
        match r {
            Ok(s) => json_string(bytes@) == Ok::<Seq<char>, Seq<char>>(s@),
            Err(e) => json_string(bytes@) == Err::<Seq<char>, Seq<char>>(e@),
        },
{
    serde_json::from_slice::<String>(bytes).map_err(|e| e.to_string())
}

/// The answer of `nix eval --json` for the attribute `path`, from what it
/// printed: the JSON string it printed, or why it is not one.
pub fn evaluation_answer(path: &str, stdout: &[u8]) -> (r: Result<String, NixCommandError>)
    ensures
        match json_string(stdout@) {
            Ok(s) => r matches Ok(t) && t@ == s,
            Err(e) => r matches Err(x) && x.message@ == "failed to parse nix eval output for "@
                + path@ + ": "@ + e,
        },
{
    match parse_json_string(stdout) {
        Ok(s) => Ok(s),
        Err(e) => {
            let mut message = String::from_str("failed to parse nix eval output for ");
            message.append(path);
            message.append(": ");
            message.append(e.as_str());
            Err(NixCommandError { message })
        },
    }
}

/// The configuration to evaluate next, given the names of a flake's
/// configurations and the evaluations made so far, in order: none after a
/// failure, since the first failure decides the outcome, nor once every
/// name was evaluated.
pub fn next_configuration(
    names: &Vec<String>,
    evaluations: &Vec<Result<NixosConfiguration, NixCommandError>>,
) -> (r: Option<usize>)
    requires
        evaluations@.len() <= names@.len(),
    ensures
        r == if evaluations@.len() > 0 && evaluations@.last() is Err {
            None::<usize>
        } else if evaluations@.len() < names@.len() {
            Some(evaluations@.len() as usize)
        } else {
            None::<usize>
        },
{
    let n = evaluations.len();
    if n > 0 && evaluations[n - 1].is_err() {
        None
    } else if n < names.len() {
        Some(n)
    } else {
        None
    }
}

/// `e` is the first failure among `evaluations`.
pub open spec fn first_failure(
    evaluations: Seq<Result<NixosConfiguration, NixCommandError>>,
    e: NixCommandError,
) -> bool {
    exists|k: int|
        0 <= k < evaluations.len() && #[trigger] evaluations[k] == Err::<
            NixosConfiguration,
            NixCommandError,
        >(e) && forall|j: int| 0 <= j < k ==> #[trigger] evaluations[j] is Ok
}

/// The outputs of a flake from the evaluations of its configurations, made
/// in order: the first failure if one failed, else every configuration.
pub fn collect_outputs(evaluations: Vec<Result<NixosConfiguration, NixCommandError>>) -> (r: Result<
    FlakeOutputs,
    NixCommandError,
>)
    ensures
        match r {
            Ok(outputs) => {
                &&& forall|k: int| 0 <= k < evaluations@.len() ==> #[trigger] evaluations@[k] is Ok
                &&& outputs.nixos_configurations@.len() == evaluations@.len()
                &&& forall|k: int|
                    0 <= k < evaluations@.len() ==> #[trigger] evaluations@[k] == Ok::<
                        NixosConfiguration,
                        NixCommandError,
                    >(outputs.nixos_configurations@[k])
            },
            Err(e) => first_failure(evaluations@, e),
        },
{
    let ghost evs = evaluations@;
    let mut pending = evaluations;
    let mut configurations: Vec<NixosConfiguration> = Vec::new();
    let mut i: usize = 0;
    let n = pending.len();
    assert(pending@ =~= evs.skip(0));
    while i < n
        invariant
            evs == evaluations@,
            n == evs.len(),
            i <= n,
            pending@ == evs.skip(i as int),
            configurations@.len() == i,
            forall|k: int| 0 <= k < i ==> #[trigger] evs[k] is Ok,
            forall|k: int|
                0 <= k < i ==> #[trigger] evs[k] == Ok::<NixosConfiguration, NixCommandError>(
                    configurations@[k],
                ),
        decreases n - i,
    {
        let next = pending.remove(0);
        assert(next == evs[i as int]);
        assert(pending@ =~= evs.skip(i + 1));
        match next {
            Ok(c) => {
                configurations.push(c);
            },
            Err(e) => {
                assert(evs[i as int] == Err::<NixosConfiguration, NixCommandError>(e));
                assert(first_failure(evs, e));
                return Err(e);
            },
        }
        i = i + 1;
    }
    Ok(FlakeOutputs { nixos_configurations: configurations })
}

/// The failure of a Nix command that ran and exited badly:
/// `<command> failed for <subject>: <what it wrote, trimmed>`.
pub fn command_failure(command: &str, subject: &str, stderr: &str) -> (e: NixCommandError)
    ensures
        e.message@ == command@ + " failed for "@ + subject@ + ": "@ + trim(stderr@),
{
    let v = chars_of(stderr);
    let (from, to) = trim_bounds(&v, 0, v.len());
    assert(v@.subrange(0, v@.len() as int) =~= v@);
    let mut message = String::from_str(command);
    message.append(" failed for ");
    message.append(subject);
    message.append(": ");
    append_range(&mut message, stderr, &v, from, to);
    NixCommandError { message }
}

/// The attribute that `nix eval` is asked for:
/// `.#nixosConfigurations.<configuration>.<attribute>`.
pub open spec fn attribute_path_text(configuration: Seq<char>, attribute: Seq<char>) -> Seq<char> {
    ".#nixosConfigurations."@ + configuration + "."@ + attribute
}

/// The attribute that `nix eval` is asked for (see `attribute_path_text`).
pub fn attribute_path(configuration_name: &str, attribute: &str) -> (r: String)
    ensures
        r@ == attribute_path_text(configuration_name@, attribute@),
{
    let mut r = String::from_str(".#nixosConfigurations.");
    r.append(configuration_name);
    r.append(".");
    r.append(attribute);
    r
}

/// The configuration `configuration_name`, with the system and host name
/// that Nix evaluated for it.
pub fn evaluate_nixos_configuration(configuration_name: &str, system: String, hostname: String) -> (c:
    NixosConfiguration)
    ensures
        c.name@ == configuration_name@,
        c.system == Some(system),
        c.hostname == Some(hostname),
        c.platform is None,
{
    NixosConfiguration {
        name: String::from_str(configuration_name),
        system: Some(system),
        hostname: Some(hostname),
        platform: None,
    }
}

// ------------------------------------------------------------------
// Classifying failures
// ------------------------------------------------------------------

/// What `str::to_lowercase` returns for `s`.
pub uninterp spec fn lowercase_text(s: Seq<char>) -> Seq<char>;

/// `str::to_lowercase`.
///
/// Trusted: the result is what the standard library's Unicode lower-casing
/// makes of `s`, a function of `s` alone; the contract names it and says no
/// more.
#[verifier::external_body]
fn to_lowercase(s: &str) -> (r: String)
    ensures
        r@ == lowercase_text(s@),
{
    s.to_lowercase()
}

/// The kind of failure a lower-cased message tells of, by the first of
/// these that it mentions: permission, time-out, a missing command, the
/// flake, evaluation.
pub open spec fn category_of(message: Seq<char>) -> EvaluationErrorCategory {
    if contains_seq(message, "permission denied"@) {
        EvaluationErrorCategory::PermissionDenied
    } else if contains_seq(message, "timed out"@) || contains_seq(message, "timeout"@) {
        EvaluationErrorCategory::Timeout
    } else if contains_seq(message, "command not found"@) || contains_seq(
        message,
        "failed to execute nix"@,
    ) {
        EvaluationErrorCategory::CommandNotFound
    } else if contains_seq(message, "flake"@) {
        EvaluationErrorCategory::InvalidFlake
    } else if contains_seq(message, "eval"@) || contains_seq(message, "evaluation"@) {
        EvaluationErrorCategory::EvaluationFailed
    } else {
        EvaluationErrorCategory::Unknown
    }
}

/// Whether `v` holds the text `pat`.
fn mentions(v: &Vec<char>, pat: &str) -> (b: bool)
    ensures
        b == contains_seq(v@, pat@),
{
    let p = chars_of(pat);
    match find_from(v, &p, 0) {
        Some(_) => true,
        None => false,
    }
}

/// The kind of failure an already lower-cased message tells of.
pub fn classify_lowercase_message(message: &str) -> (c: EvaluationErrorCategory)
    ensures
        c == category_of(message@),
{
    let v = chars_of(message);
    if mentions(&v, "permission denied") {
        EvaluationErrorCategory::PermissionDenied
    } else if mentions(&v, "timed out") || mentions(&v, "timeout") {
        EvaluationErrorCategory::Timeout
    } else if mentions(&v, "command not found") || mentions(&v, "failed to execute nix") {
        EvaluationErrorCategory::CommandNotFound
    } else if mentions(&v, "flake") {
        EvaluationErrorCategory::InvalidFlake
    } else if mentions(&v, "eval") || mentions(&v, "evaluation") {
        EvaluationErrorCategory::EvaluationFailed
    } else {
        EvaluationErrorCategory::Unknown
    }
}

/// The kind of failure a Nix error tells of, its message read without
/// regard to case.
pub fn classify_error(error: &NixCommandError) -> (c: EvaluationErrorCategory)
    ensures
        c == category_of(lowercase_text(error.message@)),
{
    let lower = to_lowercase(error.message.as_str());
    classify_lowercase_message(lower.as_str())
}

// ------------------------------------------------------------------
// Matching the machine
// ------------------------------------------------------------------

/// The names of the configurations whose host name is `current`.
pub open spec fn hostname_match_names(
    cfgs: Seq<NixosConfiguration>,
    current: Option<String>,
) -> Seq<Seq<char>>
    decreases cfgs.len(),
{
    if cfgs.len() == 0 {
        seq![]
    } else {
        let c = cfgs.last();
        hostname_match_names(cfgs.drop_last(), current) + if current matches Some(h)
            && c.hostname matches Some(ch) && h@ == ch@ {
            seq![c.name@]
        } else {
            seq![]
        }
    }
}

/// The names of the configurations whose system is `current`.
pub open spec fn system_match_names(
    cfgs: Seq<NixosConfiguration>,
    current: Option<String>,
) -> Seq<Seq<char>>
    decreases cfgs.len(),
{
    if cfgs.len() == 0 {
        seq![]
    } else {
        let c = cfgs.last();
        system_match_names(cfgs.drop_last(), current) + if current matches Some(s)
            && c.system matches Some(cs) && s@ == cs@ {
            seq![c.name@]
        } else {
            seq![]
        }
    }
}

/// `a` and `b` are both known and the same.
fn same_known(a: &Option<String>, b: &Option<String>) -> (r: bool)
    ensures
        r == (a matches Some(x) && b matches Some(y) && x@ == y@),
{
    match (a, b) {
        (Some(x), Some(y)) => crate::text::text_equal(x.as_str(), y.as_str()),
        _ => false,
    }
}

/// How the configurations compare with the machine's host name and system.
pub fn match_environment(
    outputs: &FlakeOutputs,
    current_hostname: Option<String>,
    current_system: Option<String>,
) -> (m: EnvironmentMatch)
    ensures
        m.current_hostname == current_hostname,
        m.current_system == current_system,
        texts(m.hostname_matches@) == hostname_match_names(
            outputs.nixos_configurations@,
            current_hostname,
        ),
        texts(m.system_matches@) == system_match_names(
            outputs.nixos_configurations@,
            current_system,
        ),
{
    let cfgs = &outputs.nixos_configurations;
    let mut hostname_matches: Vec<String> = Vec::new();
    let mut system_matches: Vec<String> = Vec::new();
    let mut i: usize = 0;
    while i < cfgs.len()
        invariant
            i <= cfgs.len(),
            texts(hostname_matches@) == hostname_match_names(cfgs@.take(i as int), current_hostname),
            texts(system_matches@) == system_match_names(cfgs@.take(i as int), current_system),
        decreases cfgs.len() - i,
    {
        let ghost hm = hostname_matches@;
        let ghost sm = system_matches@;
        assert(cfgs@.take(i + 1).drop_last() =~= cfgs@.take(i as int));
        assert(cfgs@.take(i + 1).last() == cfgs@[i as int]);
        if same_known(&current_hostname, &cfgs[i].hostname) {
            hostname_matches.push(cfgs[i].name.clone());
            assert(texts(hostname_matches@) =~= texts(hm) + seq![cfgs@[i as int].name@]);
        }
        if same_known(&current_system, &cfgs[i].system) {
            system_matches.push(cfgs[i].name.clone());
            assert(texts(system_matches@) =~= texts(sm) + seq![cfgs@[i as int].name@]);
        }
        assert(texts(hostname_matches@) =~= hostname_match_names(
            cfgs@.take(i + 1),
            current_hostname,
        ));
        assert(texts(system_matches@) =~= system_match_names(cfgs@.take(i + 1), current_system));
        i = i + 1;
    }
    assert(cfgs@.take(cfgs@.len() as int) =~= cfgs@);
    EnvironmentMatch { current_hostname, current_system, hostname_matches, system_matches }
}

/// Everything learnt of a flake: what the file system showed, what Nix
/// evaluated (or why it failed, classified), and how the configurations
/// compare with the machine. A failed evaluation matches nothing.
pub fn inspect_flake(
    filesystem: FilesystemInspection,
    evaluation: Result<FlakeOutputs, NixCommandError>,
    current_hostname: Option<String>,
    current_system: Option<String>,
) -> (r: InspectionResult)
    ensures
        r.filesystem == filesystem,
        r.environment_match.current_hostname == current_hostname,
        r.environment_match.current_system == current_system,
        match evaluation {
            Ok(outputs) => {
                &&& r.nix_evaluation == NixEvaluation::Success { outputs }
                &&& texts(r.environment_match.hostname_matches@) == hostname_match_names(
                    outputs.nixos_configurations@,
                    current_hostname,
                )
                &&& texts(r.environment_match.system_matches@) == system_match_names(
                    outputs.nixos_configurations@,
                    current_system,
                )
            },
            Err(error) => {
                &&& r.nix_evaluation matches NixEvaluation::Failed { error: e } && e.category
                    == category_of(lowercase_text(error.message@)) && e.message == error.message
                &&& r.environment_match.hostname_matches@.len() == 0
                &&& r.environment_match.system_matches@.len() == 0
            },
        },
{
    match evaluation {
        Ok(outputs) => {
            let environment_match = match_environment(&outputs, current_hostname, current_system);
            InspectionResult {
                filesystem,
                nix_evaluation: NixEvaluation::Success { outputs },
                environment_match,
            }
        },
        Err(error) => {
            let category = classify_error(&error);
            InspectionResult {
                filesystem,
                nix_evaluation: NixEvaluation::Failed {
                    error: NixEvaluationError { category, message: error.message },
                },
                environment_match: EnvironmentMatch {
                    current_hostname,
                    current_system,
                    hostname_matches: Vec::new(),
                    system_matches: Vec::new(),
                },
            }
        },
    }
}

} // verus!

//! What the command line asks for, and what discovery reports to the user.
use vstd::prelude::*;

use crate::command::{Action, Command, Target};
use crate::nixos::discovery::candidate::FlakeCandidate;
use crate::nixos::discovery::inspection::{NixEvaluation, NixosConfiguration};
use crate::nixos::discovery::result::{DiscoveryReport, DiscoveryStatus, SelectionMethod};
use crate::planner::{ExecutionPlan, Planner};
use crate::resolver::resolver::{resolution, ResolvedTarget, Resolver};
use crate::text::{decimal_string, decimal_text, text_equal, texts};
use crate::validator::validator::{target_verdict, Validator};

verus! {

/// What a command line asks for.
#[derive(Debug)]
pub enum CliRequest {
    /// Show the usage.
    Help,
    /// Search for the NixOS flake and save what was found.
    Discover,
    /// Carry out a command.
    Run(Command),
}

/// The usage line, also the error for a command line of the wrong shape.
pub const USAGE: &'static str = "usage: nxc [i|r|e|d] <target>";

/// The error for an operation letter that is not one of `i`, `r`, `e`, `d`.
pub const UNKNOWN_OPERATION: &'static str = "unknown operation. use i, r, e, or d";

/// The action that an operation letter names.
pub open spec fn operation_action(op: Seq<char>) -> Option<Action> {
    if op == "i"@ {
        Some(Action::InstallPackage)
    } else if op == "r"@ {
        Some(Action::RemovePackage)
    } else if op == "e"@ {
        Some(Action::EnableService)
    } else if op == "d"@ {
        Some(Action::DisableService)
    } else {
        None
    }
}

/// `request` is a run of `action` on the target `target`.
pub open spec fn runs(request: CliRequest, action: Action, target: Seq<char>) -> bool {
    request matches CliRequest::Run(c) && c.action == action && c.target.raw@ == target
}

/// What the arguments (the program's name left out) ask for: the usage for
/// `--help` or `-h`, discovery for `discover`, an install for one other
/// word; an operation letter and a target for two; anything else is the
/// usage error.
pub open spec fn request_for(args: Seq<String>, r: Result<CliRequest, String>) -> bool {
    if args.len() == 1 {
        let a = args[0]@;
        if a == "--help"@ || a == "-h"@ {
            r matches Ok(CliRequest::Help)
        } else if a == "discover"@ {
            r matches Ok(CliRequest::Discover)
        } else {
            r matches Ok(q) && runs(q, Action::InstallPackage, a)
        }
    } else if args.len() == 2 {
        match operation_action(args[0]@) {
            Some(action) => r matches Ok(q) && runs(q, action, args[1]@),
            None => r matches Err(e) && e@ == UNKNOWN_OPERATION@,
        }
    } else {
        r matches Err(e) && e@ == USAGE@
    }
}

/// Reads the command line (the program's name left out).
pub fn interpret_arguments(args: &Vec<String>) -> (r: Result<CliRequest, String>)
    ensures
        request_for(args@, r),
{
    if args.len() == 1 {
        let a = args[0].as_str();
        if text_equal(a, "--help") || text_equal(a, "-h") {
            return Ok(CliRequest::Help);
        }
        if text_equal(a, "discover") {
            return Ok(CliRequest::Discover);
        }
        let target = Target { raw: args[0].clone() };
        return Ok(CliRequest::Run(Command { action: Action::InstallPackage, target }));
    }
    if args.len() == 2 {
        let op = args[0].as_str();
        let action = if text_equal(op, "i") {
            Action::InstallPackage
        } else if text_equal(op, "r") {
            Action::RemovePackage
        } else if text_equal(op, "e") {
            Action::EnableService
        } else if text_equal(op, "d") {
            Action::DisableService
        } else {
            return Err(String::from_str(UNKNOWN_OPERATION));
        };
        let target = Target { raw: args[1].clone() };
        return Ok(CliRequest::Run(Command { action, target }));
    }
    Err(String::from_str(USAGE))
}

/// The plan for a command read from the command line: its target checked
/// (a refusal is reported by the rule's name), then resolved, then planned.
pub fn plan_command(command: Command) -> (r: Result<ExecutionPlan, String>)
    ensures
        match target_verdict(command.target.raw@) {
            Err(v) => r matches Err(e) && e@ == v.name_text(),
            Ok(()) => match r {
                Ok(plan) => {
                    &&& plan.action == command.action
                    &&& !plan.dry_run
                    &&& resolution(
                        command.action,
                        command.target.raw@,
                        Ok::<ResolvedTarget, String>(plan.target),
                    )
                },
                Err(e) => resolution(command.action, command.target.raw@, Err::<ResolvedTarget, String>(e)),
            },
        },
{
    match Validator::validate(&command) {
        Err(v) => return Err(String::from_str(v.name())),
        Ok(()) => {},
    }
    let action = command.action;
    let target = match Resolver::resolve(action, command.target) {
        Ok(t) => t,
        Err(e) => return Err(e),
    };
    Ok(Planner::create(action, target))
}

/// How a selection method is named to the user.
pub open spec fn selection_method_text(method: SelectionMethod) -> Seq<char> {
    match method {
        SelectionMethod::ExplicitCli => "explicit CLI"@,
        SelectionMethod::ConfigFile => "config file"@,
        SelectionMethod::EnvironmentVariable => "environment variable"@,
        SelectionMethod::UniqueCandidate => "unique candidate"@,
        SelectionMethod::HostnameMatch => "hostname match"@,
        SelectionMethod::SystemMatch => "system match"@,
        SelectionMethod::UserSelection => "user selection"@,
    }
}

/// How a selection method is named to the user.
pub fn selection_method_name(method: &SelectionMethod) -> (s: &'static str)
    ensures
        s@ == selection_method_text(*method),
{
    match method {
        SelectionMethod::ExplicitCli => "explicit CLI",
        SelectionMethod::ConfigFile => "config file",
        SelectionMethod::EnvironmentVariable => "environment variable",
        SelectionMethod::UniqueCandidate => "unique candidate",
        SelectionMethod::HostnameMatch => "hostname match",
        SelectionMethod::SystemMatch => "system match",
        SelectionMethod::UserSelection => "user selection",
    }
}

/// The text of an optional value, `unknown` when there is none.
pub open spec fn or_unknown(value: Option<String>) -> Seq<char> {
    match value {
        Some(v) => v@,
        None => "unknown"@,
    }
}

/// The line that lists the candidate at `index` (counted from 0).
pub open spec fn candidate_line(index: nat, candidate: FlakeCandidate) -> Seq<char> {
    "["@ + decimal_text(index + 1) + "] "@ + candidate.flake_root@
}

/// The error when a report says success but chose nothing.
pub const NOTHING_SELECTED: &'static str = "discovery succeeded without a selected result";

/// What discovery says of its outcome; `candidates` are the inspected
/// candidates, listed when no one could be chosen.
pub open spec fn report_lines(report: DiscoveryReport, candidates: Seq<FlakeCandidate>) -> Result<
    Seq<Seq<char>>,
    Seq<char>,
> {
    match report.status {
        DiscoveryStatus::Success => match report.selected {
            None => Err(NOTHING_SELECTED@),
            Some(selected) => Ok(
                seq![
                    "Discovery successful."@,
                    ""@,
                    "Flake: "@ + selected.flake_root@,
                    "Configuration: "@ + selected.selected_configuration.name@,
                    "Hostname: "@ + or_unknown(selected.selected_configuration.hostname),
                    "System: "@ + or_unknown(selected.selected_configuration.system),
                    "Selection: "@ + selection_method_text(selected.selection_method),
                ],
            ),
        },
        DiscoveryStatus::MultipleCandidates => Ok(
            seq![
                "Multiple candidates found."@,
                ""@,
                "The target could not be selected automatically."@,
                ""@,
            ] + Seq::new(candidates.len(), |i: int| candidate_line(i as nat, candidates[i])),
        ),
        DiscoveryStatus::NoCandidates => Ok(seq!["No suitable NixOS flake candidates found."@]),
        DiscoveryStatus::EvaluationFailed => Ok(seq!["Flake evaluation failed."@]),
    }
}

fn labelled(label: &str, value: &str) -> (s: String)
    ensures
        s@ == label@ + value@,
{
    let mut s = String::from_str(label);
    s.append(value);
    s
}

fn optional_text(value: &Option<String>) -> (s: &str)
    ensures
        s@ == or_unknown(*value),
{
    match value {
        Some(v) => v.as_str(),
        None => "unknown",
    }
}

/// The lines that say how discovery ended (see `report_lines`).
fn report_summary(report: &DiscoveryReport, candidates: &Vec<FlakeCandidate>) -> (r: Result<
    Vec<String>,
    String,
>)
    ensures
        match report_lines(*report, candidates@) {
            Ok(lines) => r matches Ok(v) && texts(v@) == lines,
            Err(e) => r matches Err(m) && m@ == e,
        },
{
    let mut lines: Vec<String> = Vec::new();
    proof {
        reveal_strlit("");
    }
    match report.status {
        DiscoveryStatus::Success => {
            let selected = match &report.selected {
                Some(s) => s,
                None => return Err(String::from_str(NOTHING_SELECTED)),
            };
            let configuration = &selected.selected_configuration;
            lines.push(String::from_str("Discovery successful."));
            lines.push(String::new());
            lines.push(labelled("Flake: ", selected.flake_root.as_str()));
            lines.push(labelled("Configuration: ", configuration.name.as_str()));
            lines.push(labelled("Hostname: ", optional_text(&configuration.hostname)));
            lines.push(labelled("System: ", optional_text(&configuration.system)));
            lines.push(
                labelled("Selection: ", selection_method_name(&selected.selection_method)),
            );
            assert(lines@.len() == 7);
            assert(lines@[1]@ == ""@);
            assert(lines@[4]@ == "Hostname: "@ + or_unknown(configuration.hostname));
            assert(texts(lines@) =~= report_lines(*report, candidates@)->Ok_0);
        },
        DiscoveryStatus::MultipleCandidates => {
            lines.push(String::from_str("Multiple candidates found."));
            lines.push(String::new());
            lines.push(String::from_str("The target could not be selected automatically."));
            lines.push(String::new());
            let ghost head = texts(lines@);
            assert(lines@.len() == 4);
            assert(lines@[0]@ == "Multiple candidates found."@);
            assert(lines@[1]@ == ""@);
            assert(head[0] == lines@[0]@);
            assert(head =~= seq![
                "Multiple candidates found."@,
                ""@,
                "The target could not be selected automatically."@,
                ""@,
            ]);
            let mut i: usize = 0;
            while i < candidates.len()
                invariant
                    i <= candidates@.len(),
                    head.len() == 4,
                    texts(lines@) == head + Seq::new(
                        i as nat,
                        |k: int| candidate_line(k as nat, candidates@[k]),
                    ),
                decreases candidates@.len() - i,
            {
                let mut line = String::from_str("[");
                line.append(decimal_string(i + 1).as_str());
                line.append("] ");
                line.append(candidates[i].flake_root.as_str());
                assert(line@ == candidate_line(i as nat, candidates@[i as int]));
                let ghost before = lines@;
                lines.push(line);
                assert(texts(lines@) =~= texts(before).push(line@));
                assert(texts(lines@) =~= head + Seq::new(
                    (i + 1) as nat,
                    |k: int| candidate_line(k as nat, candidates@[k]),
                ));
                i = i + 1;
            }
        },
        DiscoveryStatus::NoCandidates => {
            lines.push(String::from_str("No suitable NixOS flake candidates found."));
        },
        DiscoveryStatus::EvaluationFailed => {
            lines.push(String::from_str("Flake evaluation failed."));
        },
    }
    Ok(lines)
}

/// The configurations that Nix evaluated for a candidate; none when it was
/// not evaluated or the evaluation failed.
pub open spec fn configurations_of(c: FlakeCandidate) -> Seq<NixosConfiguration> {
    match c.inspection {
        Some(i) => match i.nix_evaluation {
            NixEvaluation::Success { outputs } => outputs.nixos_configurations@,
            _ => seq![],
        },
        None => seq![],
    }
}

/// The line that shows a configuration: its name, host name and system.
pub open spec fn configuration_line(c: NixosConfiguration) -> Seq<char> {
    "      - "@ + c.name@ + " ("@ + or_unknown(c.hostname) + ", "@ + or_unknown(c.system) + ")"@
}

/// The lines that show the candidate ranked at `index` (counted from 0):
/// its root, its score, and its configurations, then an empty line.
pub open spec fn candidate_block(index: nat, c: FlakeCandidate) -> Seq<Seq<char>> {
    let confs = configurations_of(c);
    seq![
        candidate_line(index, c),
        "    score: "@ + decimal_text(c.score.total as nat),
        "    NixOS configurations: "@ + decimal_text(confs.len()),
    ] + Seq::new(confs.len(), |k: int| configuration_line(confs[k])) + seq![""@]
}

/// The blocks of the candidates, in their ranked order.
pub open spec fn ranking_blocks(candidates: Seq<FlakeCandidate>) -> Seq<Seq<char>>
    decreases candidates.len(),
{
    if candidates.len() == 0 {
        seq![]
    } else {
        ranking_blocks(candidates.drop_last()) + candidate_block(
            (candidates.len() - 1) as nat,
            candidates.last(),
        )
    }
}

/// The candidate ranking that discovery shows.
pub open spec fn ranking_lines(candidates: Seq<FlakeCandidate>) -> Seq<Seq<char>> {
    seq!["Candidate ranking:"@] + ranking_blocks(candidates)
}

/// What discovery shows the user after inspecting the candidates: their
/// ranking, then how it ended (see `report_lines`).
pub open spec fn summary_lines(report: DiscoveryReport, candidates: Seq<FlakeCandidate>) -> Result<
    Seq<Seq<char>>,
    Seq<char>,
> {
    match report_lines(report, candidates) {
        Ok(lines) => Ok(ranking_lines(candidates) + lines),
        Err(e) => Err(e),
    }
}

/// Appends the block of the candidate ranked at `index`.
fn push_candidate_block(lines: &mut Vec<String>, index: usize, c: &FlakeCandidate)
    requires
        index < usize::MAX,
    ensures
        texts(final(lines)@) == texts(old(lines)@) + candidate_block(index as nat, *c),
{
    proof {
        reveal_strlit("");
    }
    let ghost start = texts(lines@);
    let mut first = String::from_str("[");
    first.append(decimal_string(index + 1).as_str());
    first.append("] ");
    first.append(c.flake_root.as_str());
    lines.push(first);
    let score = decimal_string(c.score.total as usize);
    lines.push(labelled("    score: ", score.as_str()));
    let empty: Vec<NixosConfiguration> = Vec::new();
    let confs: &Vec<NixosConfiguration> = match &c.inspection {
        Some(i) => match &i.nix_evaluation {
            NixEvaluation::Success { outputs } => &outputs.nixos_configurations,
            _ => &empty,
        },
        None => &empty,
    };
    assert(confs@ == configurations_of(*c));
    let count = decimal_string(confs.len());
    lines.push(labelled("    NixOS configurations: ", count.as_str()));
    let ghost head = seq![
        candidate_line(index as nat, *c),
        "    score: "@ + decimal_text(c.score.total as nat),
        "    NixOS configurations: "@ + decimal_text(confs@.len()),
    ];
    assert(texts(lines@) =~= start + head);
    let mut k: usize = 0;
    while k < confs.len()
        invariant
            k <= confs@.len(),
            texts(lines@) == start + head + Seq::new(
                k as nat,
                |j: int| configuration_line(confs@[j]),
            ),
        decreases confs@.len() - k,
    {
        let conf = &confs[k];
        let mut line = String::from_str("      - ");
        line.append(conf.name.as_str());
        line.append(" (");
        line.append(optional_text(&conf.hostname));
        line.append(", ");
        line.append(optional_text(&conf.system));
        line.append(")");
        assert(line@ == configuration_line(confs@[k as int]));
        let ghost before = lines@;
        lines.push(line);
        assert(texts(lines@) =~= texts(before).push(configuration_line(confs@[k as int])));
        assert(texts(lines@) =~= start + head + Seq::new(
            (k + 1) as nat,
            |j: int| configuration_line(confs@[j]),
        ));
        k = k + 1;
    }
    let ghost before = lines@;
    let blank = String::new();
    assert(blank@ == ""@);
    lines.push(blank);
    assert(lines@ == before.push(blank));
    assert(texts(lines@) =~= texts(before).push(""@));
    assert(texts(lines@) =~= start + candidate_block(index as nat, *c));
}

/// The candidate ranking that discovery shows (see `ranking_lines`).
fn ranking_summary(candidates: &Vec<FlakeCandidate>) -> (lines: Vec<String>)
    ensures
        texts(lines@) == ranking_lines(candidates@),
{
    let mut lines: Vec<String> = Vec::new();
    lines.push(String::from_str("Candidate ranking:"));
    let ghost head = texts(lines@);
    assert(head =~= seq!["Candidate ranking:"@]);
    let mut i: usize = 0;
    while i < candidates.len()
        invariant
            i <= candidates@.len(),
            head == seq!["Candidate ranking:"@],
            texts(lines@) == head + ranking_blocks(candidates@.take(i as int)),
        decreases candidates@.len() - i,
    {
        let ghost before = texts(lines@);
        push_candidate_block(&mut lines, i, &candidates[i]);
        assert(candidates@.take(i + 1).drop_last() =~= candidates@.take(i as int));
        assert(candidates@.take(i + 1).last() == candidates@[i as int]);
        assert(texts(lines@) =~= head + ranking_blocks(candidates@.take(i + 1)));
        i = i + 1;
    }
    assert(candidates@.take(i as int) =~= candidates@);
    lines
}

/// The lines that discovery shows after inspecting the candidates (see
/// `summary_lines`): the ranking, then how it ended.
pub fn discovery_summary(report: &DiscoveryReport, candidates: &Vec<FlakeCandidate>) -> (r: Result<
    Vec<String>,
    String,
>)
    ensures
        match summary_lines(*report, candidates@) {
            Ok(lines) => r matches Ok(v) && texts(v@) == lines,
            Err(e) => r matches Err(m) && m@ == e,
        },
{
    let tail = match report_summary(report, candidates) {
        Ok(t) => t,
        Err(e) => return Err(e),
    };
    let mut lines = ranking_summary(candidates);
    let ghost first = texts(lines@);
    let mut k: usize = 0;
    while k < tail.len()
        invariant
            k <= tail@.len(),
            texts(lines@) == first + texts(tail@.take(k as int)),
        decreases tail@.len() - k,
    {
        let ghost before = lines@;
        lines.push(tail[k].clone());
        assert(texts(tail@.take(k + 1)) =~= texts(tail@.take(k as int)).push(tail@[k as int]@));
        assert(texts(lines@) =~= texts(before).push(tail@[k as int]@));
        k = k + 1;
    }
    assert(tail@.take(k as int) =~= tail@);
    Ok(lines)
}

} // verus!

//! How messages are delivered to the teams.

use crate::exec::CommandResult;
use crate::health::registrations::Registration;
use crate::health::DeliveryMode;
use crate::lines;
use crate::search;
use crate::search::{strip_prefix, trim};
use crate::strings::same_text;
use vstd::prelude::*;

verus! {

/// What a line says of the mode, if it says anything.
pub open spec fn line_mode(line: Seq<char>) -> Option<Seq<char>> {
    let text = search::trimmed(line);
    if "mode="@.is_prefix_of(text) {
        Some(search::trimmed(text.skip("mode="@.len() as int)))
    } else if "mode:"@.is_prefix_of(text) {
        Some(search::trimmed(text.skip("mode:"@.len() as int)))
    } else {
        None
    }
}

/// What the first line says that says anything of the mode.
pub open spec fn first_mode(rows: Seq<Seq<char>>) -> Option<Seq<char>>
    decreases rows.len(),
{
    if rows.len() == 0 {
        None
    } else {
        match line_mode(rows[0]) {
            Some(mode) => Some(mode),
            None => first_mode(rows.skip(1)),
        }
    }
}

/// The mode of a name; any other name is unknown.
pub open spec fn mode_of(name: Option<Seq<char>>) -> DeliveryMode {
    if name == Some("monitor"@) {
        DeliveryMode::Monitor
    } else if name == Some("both"@) {
        DeliveryMode::Both
    } else if name == Some("turn"@) {
        DeliveryMode::Turn
    } else if name == Some("off"@) {
        DeliveryMode::Off
    } else {
        DeliveryMode::Unknown
    }
}

fn read_line_mode(line: &str) -> (mode: Option<String>)
    ensures
        match mode {
            Some(mode) => line_mode(line@) == Some(mode@),
            None => line_mode(line@) is None,
        },
{
    let text = trim(line);
    match strip_prefix(text.as_str(), "mode=") {
        Some(rest) => Some(trim(rest.as_str())),
        None => match strip_prefix(text.as_str(), "mode:") {
            Some(rest) => Some(trim(rest.as_str())),
            None => None,
        },
    }
}

fn name_mode(name: &str) -> (mode: DeliveryMode)
    ensures
        mode == mode_of(Some(name@)),
{
    if same_text(name, "monitor") {
        DeliveryMode::Monitor
    } else if same_text(name, "both") {
        DeliveryMode::Both
    } else if same_text(name, "turn") {
        DeliveryMode::Turn
    } else if same_text(name, "off") {
        DeliveryMode::Off
    } else {
        DeliveryMode::Unknown
    }
}

/// Reads the mode out of what the delivery script printed.
pub fn parse_delivery_mode(stdout: &str) -> (mode: DeliveryMode)
    ensures
        mode == mode_of(first_mode(lines::lines_of(stdout@))),
{
    let rows = lines::lines(stdout);
    let ghost all = lines::lines_of(stdout@);
    let mut index: usize = 0;
    proof {
        assert(all.skip(0) =~= all);
    }
    while index < rows.len()
        invariant
            index <= rows@.len(),
            search::texts(rows@) == all,
            all == lines::lines_of(stdout@),
            first_mode(all.skip(index as int)) == first_mode(all),
        decreases rows@.len() - index,
    {
        proof {
            assert(all.skip(index as int)[0] == rows@[index as int]@);
            assert(all.skip(index as int).skip(1) =~= all.skip(index + 1));
        }
        if let Some(name) = read_line_mode(rows[index].as_str()) {
            return name_mode(name.as_str());
        }
        index += 1;
    }
    DeliveryMode::Unknown
}

/// The mode that a run of the delivery script shows; a run that failed shows none.
pub fn shown_mode(run: &Option<CommandResult>) -> (mode: DeliveryMode)
    ensures
        mode == match *run {
            Some(result) => if result.success {
                mode_of(first_mode(lines::lines_of(result.stdout@)))
            } else {
                DeliveryMode::Unknown
            },
            None => DeliveryMode::Unknown,
        },
{
    match run {
        Some(result) => if result.success {
            parse_delivery_mode(result.stdout.as_str())
        } else {
            DeliveryMode::Unknown
        },
        None => DeliveryMode::Unknown,
    }
}

/// A CLI type and a project that the delivery script is asked about.
#[derive(Debug, PartialEq, Eq)]
pub struct DeliveryQuery {
    pub agent_type: String,
    pub project: String,
}

/// The CLI type and the project are among the queries.
pub open spec fn asks(
    queries: Seq<DeliveryQuery>,
    agent_type: Seq<char>,
    project: Seq<char>,
) -> bool {
    exists|i: int|
        0 <= i < queries.len() && (#[trigger] queries[i]).agent_type@ == agent_type
            && queries[i].project@ == project
}

/// An agent is registered with the CLI type in the project.
pub open spec fn place_registered(
    registrations: Seq<Registration>,
    agent_type: Seq<char>,
    project: Seq<char>,
) -> bool {
    exists|i: int|
        0 <= i < registrations.len() && (#[trigger] registrations[i]).agent_type@ == agent_type
            && registrations[i].project@ == project
}

fn is_asked(queries: &Vec<DeliveryQuery>, agent_type: &str, project: &str) -> (asked: bool)
    ensures
        asked == asks(queries@, agent_type@, project@),
{
    let mut index: usize = 0;
    while index < queries.len()
        invariant
            index <= queries@.len(),
            forall|i: int|
                0 <= i < index ==> !((#[trigger] queries@[i]).agent_type@ == agent_type@
                    && queries@[i].project@ == project@),
        decreases queries@.len() - index,
    {
        if same_text(queries[index].agent_type.as_str(), agent_type) && same_text(
            queries[index].project.as_str(),
            project,
        ) {
            assert(queries@[index as int].agent_type@ == agent_type@);
            return true;
        }
        index += 1;
    }
    false
}

/// What the delivery script has to be asked: each CLI type with each of its projects, once.
pub fn delivery_queries(registrations: &Vec<Registration>) -> (queries: Vec<DeliveryQuery>)
    ensures
        forall|agent_type: Seq<char>, project: Seq<char>| #[trigger]
            asks(queries@, agent_type, project) <==> place_registered(
                registrations@,
                agent_type,
                project,
            ),
        forall|i: int, j: int|
            0 <= i < j < queries@.len() ==> (#[trigger] queries@[i]).agent_type@ != (
            #[trigger] queries@[j]).agent_type@ || queries@[i].project@ != queries@[j].project@,
{
    let mut queries: Vec<DeliveryQuery> = Vec::new();
    let mut index: usize = 0;
    while index < registrations.len()
        invariant
            index <= registrations@.len(),
            forall|i: int|
                0 <= i < queries@.len() ==> place_registered(
                    registrations@,
                    (#[trigger] queries@[i]).agent_type@,
                    queries@[i].project@,
                ),
            forall|i: int|
                0 <= i < index ==> asks(
                    queries@,
                    (#[trigger] registrations@[i]).agent_type@,
                    registrations@[i].project@,
                ),
            forall|i: int, j: int|
                0 <= i < j < queries@.len() ==> (#[trigger] queries@[i]).agent_type@ != (
                #[trigger] queries@[j]).agent_type@ || queries@[i].project@
                    != queries@[j].project@,
        decreases registrations@.len() - index,
    {
        let agent_type = registrations[index].agent_type.as_str();
        let project = registrations[index].project.as_str();
        let ghost before = queries@;
        proof {
            assert(registrations@[index as int].agent_type@ == agent_type@);
            assert(place_registered(registrations@, agent_type@, project@));
        }
        if !is_asked(&queries, agent_type, project) {
            queries.push(
                DeliveryQuery { agent_type: agent_type.to_owned(), project: project.to_owned() },
            );
            proof {
                assert(queries@[before.len() as int].agent_type@ == agent_type@);
                assert(asks(queries@, agent_type@, project@));
                assert forall|i: int| 0 <= i < index implies asks(
                    queries@,
                    (#[trigger] registrations@[i]).agent_type@,
                    registrations@[i].project@,
                ) by {
                    let k = choose|k: int|
                        0 <= k < before.len() && (#[trigger] before[k]).agent_type@
                            == registrations@[i].agent_type@ && before[k].project@
                            == registrations@[i].project@;
                    assert(queries@[k] == before[k]);
                }
            }
        }
        index += 1;
    }
    queries
}

/// The mode that was found for a CLI type and a project.
#[derive(Debug, PartialEq, Eq)]
pub struct DeliveryAnswer {
    pub agent_type: String,
    pub project: String,
    pub mode: DeliveryMode,
}

/// A team registers an agent of the CLI type in the project.
pub open spec fn concerns_team(
    registrations: Seq<Registration>,
    answer: DeliveryAnswer,
    team: Seq<char>,
) -> bool {
    exists|i: int|
        0 <= i < registrations.len() && (#[trigger] registrations[i]).team@ == team
            && registrations[i].agent_type@ == answer.agent_type@ && registrations[i].project@
            == answer.project@
}

/// Two modes together: an unknown one adds nothing, and two that differ are mixed.
pub open spec fn both_modes(left: DeliveryMode, right: DeliveryMode) -> DeliveryMode {
    if left == DeliveryMode::Unknown {
        right
    } else if right == DeliveryMode::Unknown || left == right {
        left
    } else {
        DeliveryMode::Mixed
    }
}

/// Some modes together.
pub open spec fn all_modes(modes: Seq<DeliveryMode>) -> DeliveryMode
    decreases modes.len(),
{
    if modes.len() == 0 {
        DeliveryMode::Unknown
    } else {
        both_modes(all_modes(modes.drop_last()), modes.last())
    }
}

/// Brings some modes together: unknown ones add nothing, and ones that differ are mixed.
pub fn aggregate_delivery_modes(modes: &Vec<DeliveryMode>) -> (mode: DeliveryMode)
    ensures
        mode == all_modes(modes@),
{
    let mut mode = DeliveryMode::Unknown;
    let mut index: usize = 0;
    proof {
        assert(modes@.take(0) =~= Seq::empty());
    }
    while index < modes.len()
        invariant
            index <= modes@.len(),
            mode == all_modes(modes@.take(index as int)),
        decreases modes@.len() - index,
    {
        let next = modes[index];
        proof {
            assert(modes@.take(index + 1).drop_last() =~= modes@.take(index as int));
        }
        if mode == DeliveryMode::Unknown {
            mode = next;
        } else if next != DeliveryMode::Unknown && mode != next {
            mode = DeliveryMode::Mixed;
        }
        index += 1;
    }
    proof {
        assert(modes@.take(index as int) =~= modes@);
    }
    mode
}

/// The modes that the answers give for a team.
pub open spec fn team_modes(
    registrations: Seq<Registration>,
    answers: Seq<DeliveryAnswer>,
    team: Seq<char>,
) -> Seq<DeliveryMode>
    decreases answers.len(),
{
    if answers.len() == 0 {
        Seq::empty()
    } else {
        let before = team_modes(registrations, answers.drop_last(), team);
        if concerns_team(registrations, answers.last(), team) {
            before.push(answers.last().mode)
        } else {
            before
        }
    }
}

fn is_concerned(
    registrations: &Vec<Registration>,
    answer: &DeliveryAnswer,
    team: &str,
) -> (concerned: bool)
    ensures
        concerned == concerns_team(registrations@, *answer, team@),
{
    let mut index: usize = 0;
    while index < registrations.len()
        invariant
            index <= registrations@.len(),
            forall|i: int|
                0 <= i < index ==> !((#[trigger] registrations@[i]).team@ == team@
                    && registrations@[i].agent_type@ == answer.agent_type@
                    && registrations@[i].project@ == answer.project@),
        decreases registrations@.len() - index,
    {
        let registration = &registrations[index];
        if same_text(registration.team.as_str(), team) && same_text(
            registration.agent_type.as_str(),
            answer.agent_type.as_str(),
        ) && same_text(registration.project.as_str(), answer.project.as_str()) {
            assert(registrations@[index as int].team@ == team@);
            return true;
        }
        index += 1;
    }
    false
}

/// How messages are delivered to a team, by the answers for the places where its agents are
/// registered.
pub fn team_delivery(
    registrations: &Vec<Registration>,
    answers: &Vec<DeliveryAnswer>,
    team: &str,
) -> (mode: DeliveryMode)
    ensures
        mode == all_modes(team_modes(registrations@, answers@, team@)),
{
    let mut modes: Vec<DeliveryMode> = Vec::new();
    let mut index: usize = 0;
    proof {
        assert(answers@.take(0) =~= Seq::empty());
    }
    while index < answers.len()
        invariant
            index <= answers@.len(),
            modes@ == team_modes(registrations@, answers@.take(index as int), team@),
        decreases answers@.len() - index,
    {
        proof {
            assert(answers@.take(index + 1).drop_last() =~= answers@.take(index as int));
        }
        if is_concerned(registrations, &answers[index], team) {
            modes.push(answers[index].mode);
        }
        index += 1;
    }
    proof {
        assert(answers@.take(index as int) =~= answers@);
    }
    aggregate_delivery_modes(&modes)
}

/// Modes together are unknown exactly if each of them is; they are one known mode exactly if that
/// is the only known one; and so neither order nor repetition matters.
pub proof fn modes_together(modes: Seq<DeliveryMode>, mode: DeliveryMode)
    requires
        mode != DeliveryMode::Unknown,
        mode != DeliveryMode::Mixed,
    ensures
        all_modes(modes) == DeliveryMode::Unknown <==> forall|i: int|
            0 <= i < modes.len() ==> #[trigger] modes[i] == DeliveryMode::Unknown,
        all_modes(modes) == mode <==> modes.contains(mode) && forall|i: int|
            0 <= i < modes.len() ==> #[trigger] modes[i] == mode || modes[i]
                == DeliveryMode::Unknown,
    decreases modes.len(),
{
    if modes.len() > 0 {
        let shorter = modes.drop_last();
        let last = modes.last();
        modes_together(shorter, mode);
        assert(modes[modes.len() - 1] == last);
        assert forall|i: int| 0 <= i < shorter.len() implies #[trigger] modes[i] == shorter[i] by {
        }
        if shorter.contains(mode) {
            let k = choose|k: int| 0 <= k < shorter.len() && shorter[k] == mode;
            assert(modes[k] == mode);
        }
        if modes.contains(mode) && last != mode {
            let k = choose|k: int| 0 <= k < modes.len() && modes[k] == mode;
            assert(shorter[k] == mode);
        }
        if forall|i: int| 0 <= i < modes.len() ==> #[trigger] modes[i] == DeliveryMode::Unknown {
            assert forall|i: int| 0 <= i < shorter.len() implies #[trigger] shorter[i]
                == DeliveryMode::Unknown by {
                assert(modes[i] == DeliveryMode::Unknown);
            }
        }
        if forall|i: int|
            0 <= i < modes.len() ==> #[trigger] modes[i] == mode || modes[i]
                == DeliveryMode::Unknown {
            assert forall|i: int| 0 <= i < shorter.len() implies #[trigger] shorter[i] == mode
                || shorter[i] == DeliveryMode::Unknown by {
                assert(modes[i] == mode || modes[i] == DeliveryMode::Unknown);
            }
            if !shorter.contains(mode) {
                assert forall|i: int| 0 <= i < shorter.len() implies #[trigger] shorter[i]
                    == DeliveryMode::Unknown by {
                    assert(shorter[i] == mode || shorter[i] == DeliveryMode::Unknown);
                }
            }
        }
        if all_modes(modes) == mode {
            if all_modes(shorter) == DeliveryMode::Unknown {
                assert(last == mode);
            }
            assert forall|i: int| 0 <= i < modes.len() implies #[trigger] modes[i] == mode
                || modes[i] == DeliveryMode::Unknown by {
                if i < shorter.len() {
                    assert(shorter[i] == mode || shorter[i] == DeliveryMode::Unknown);
                }
            }
        }
        if all_modes(modes) == DeliveryMode::Unknown {
            assert forall|i: int| 0 <= i < modes.len() implies #[trigger] modes[i]
                == DeliveryMode::Unknown by {
                if i < shorter.len() {
                    assert(shorter[i] == DeliveryMode::Unknown);
                }
            }
        }
    }
}

} // verus!

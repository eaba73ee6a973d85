//! Managing agents: what a dialog runs, which names it takes, and who is asked to shut down whom.

use crate::agents;
use crate::agents::{AgentFocus, AgentModal, AgentOperation, SpawnStep, CLI_TYPES};
use crate::app::agent_dialog;
use crate::app::agent_dialog::{AgentChoice, AgentDialogStep};
use crate::app::agents_screen::AgentsRequest;
use crate::app::model::AgentsScreen;
use crate::app::status::StatusLine;
use crate::db::AgentTeamSummary;
use crate::input::{KeyCode, KeyEvent};
use crate::strings;
use vstd::prelude::*;

verus! {

/// A dialog runs what it shows: a rename goes from the name of the agent that was chosen to the name
/// that was typed, in the agent's team; a reset, a leave and a forced join are about the very
/// agent that is shown; a spawn is of the typed name and the chosen type, in the typed team or the
/// chosen one.
pub proof fn dialogs_run_what_they_show(
    family: Seq<char>,
    modal: AgentModal,
    key: KeyEvent,
    teams: Seq<AgentTeamSummary>,
    step: AgentDialogStep,
)
    requires
        modal.wf(),
        agent_dialog::agent_dialog_post(family, modal, key, teams, step),
    ensures
        step.choice matches AgentChoice::Run(AgentOperation::Rename { team, old: from, new, self_rename }) ==> {
            &&& modal matches AgentModal::Rename { target, input, confirming, self_rename: own }
                && confirming && team@ == target.team@ && from@ == target.name@ && new@ == input@
                && self_rename == own
            &&& key.code == KeyCode::Char('y') || key.code == KeyCode::Char('Y')
        },
        step.choice matches AgentChoice::Run(AgentOperation::RenameTeam { old: from, new }) ==> {
            &&& modal matches AgentModal::RenameTeam { old: shown, input, confirming } && confirming
                && from@ == shown@ && new@ == input@
            &&& key.code == KeyCode::Char('y') || key.code == KeyCode::Char('Y')
        },
        step.choice matches AgentChoice::Run(AgentOperation::Reset { project, agent_type, agent }) ==> {
            &&& modal matches AgentModal::Reset { target, confirm, blocked } && !blocked && confirm@
                == "YES"@ && project@ == target.project@ && agent_type@ == target.agent_type@
                && agent@ == target.name@
            &&& key.code == KeyCode::Enter
        },
        step.choice matches AgentChoice::Run(AgentOperation::Leave { team, agent }) ==> {
            &&& modal matches AgentModal::Leave { team: shown, agent: name, confirm } && confirm@
                == "YES"@ && team@ == shown@ && agent@ == name@
            &&& key.code == KeyCode::Enter
        },
        step.choice matches AgentChoice::Run(
            AgentOperation::JoinForce { team, agent, agent_type, project },
        ) ==> {
            &&& modal matches AgentModal::JoinForce { team: t, agent: a, agent_type: k, project: p }
                && team@ == t@ && agent@ == a@ && agent_type@ == k@ && project@ == p@
            &&& key.code == KeyCode::Char('y') || key.code == KeyCode::Char('Y')
        },
        step.choice matches AgentChoice::Run(AgentOperation::Spawn { team, agent_type, name }) ==> {
            &&& modal matches AgentModal::Spawn(state) && state.step == SpawnStep::Name && name@
                == state.name@ && (state.new_team ==> team@ == state.team_input@) && (
            !state.new_team && state.team_index < teams.len() ==> team@
                == teams[state.team_index as int].name@) && (state.type_index == 0 ==> agent_type@
                == family + "-code"@) && (state.type_index > 0 ==> agent_type@
                == CLI_TYPES@[state.type_index - 1]@)
            &&& key.code == KeyCode::Enter
        },
        !(step.choice matches AgentChoice::Run(AgentOperation::Join { .. })),
        key.code == KeyCode::Esc ==> step.choice is Nothing,
{
}

/// A confirmed dialog does run: `y` renames, `YES` and Enter reset or leave.
pub proof fn confirmed_dialogs_run(
    family: Seq<char>,
    modal: AgentModal,
    key: KeyEvent,
    teams: Seq<AgentTeamSummary>,
    step: AgentDialogStep,
)
    requires
        agent_dialog::agent_dialog_post(family, modal, key, teams, step),
    ensures
        (modal matches AgentModal::Rename { confirming, .. } && confirming) && (key.code
            == KeyCode::Char('y') || key.code == KeyCode::Char('Y')) ==> step.choice
            matches AgentChoice::Run(AgentOperation::Rename { .. }),
        (modal matches AgentModal::RenameTeam { confirming, .. } && confirming) && (key.code
            == KeyCode::Char('y') || key.code == KeyCode::Char('Y')) ==> step.choice
            matches AgentChoice::Run(AgentOperation::RenameTeam { .. }),
        (modal matches AgentModal::JoinForce { .. }) && (key.code == KeyCode::Char('y') || key.code
            == KeyCode::Char('Y')) ==> step.choice matches AgentChoice::Run(
            AgentOperation::JoinForce { .. },
        ),
        (modal matches AgentModal::Reset { confirm, blocked, .. } && !blocked && confirm@
            == "YES"@) && key.code == KeyCode::Enter ==> step.choice matches AgentChoice::Run(
            AgentOperation::Reset { .. },
        ),
        (modal matches AgentModal::Leave { confirm, .. } && confirm@ == "YES"@) && key.code
            == KeyCode::Enter ==> step.choice matches AgentChoice::Run(AgentOperation::Leave { .. }),
        (modal matches AgentModal::Reset { confirm, .. } && confirm@ != "YES"@) || (
        modal matches AgentModal::Leave { confirm, .. } && confirm@ != "YES"@) ==> step.choice
            is Nothing,
        (modal matches AgentModal::Rename { confirming, .. } && !confirming) || (
        modal matches AgentModal::RenameTeam { confirming, .. } && !confirming) ==> step.choice
            is Nothing,
{
}

/// A name is only put up for confirmation if it is one that an agent, or a team, may have; what was
/// chosen stays chosen while the name is typed.
pub proof fn only_proper_names_are_confirmed(
    family: Seq<char>,
    modal: AgentModal,
    key: KeyEvent,
    teams: Seq<AgentTeamSummary>,
    step: AgentDialogStep,
)
    requires
        agent_dialog::agent_dialog_post(family, modal, key, teams, step),
    ensures
        modal matches AgentModal::Rename { target, input, confirming, self_rename } ==> !confirming
            ==> (step.modal matches Some(
            AgentModal::Rename { target: t, input: i, confirming: c, self_rename: r },
        ) ==> t == target && r == self_rename && (c ==> i == input && key.code == KeyCode::Enter
            && agents::agent_name_error(input@, target.agent_type@) is None)),
        modal matches AgentModal::RenameTeam { old: shown, input, confirming } ==> !confirming ==> (
        step.modal matches Some(AgentModal::RenameTeam { old: o, input: i, confirming: c }) ==> o
            == shown && (c ==> i == input && key.code == KeyCode::Enter && agents::team_name_error(
            input@,
        ) is None)),
        modal matches AgentModal::Spawn(state) && (step.choice is Run || step.choice is JoinHere)
            ==> agents::agent_name_error(
            modal->Spawn_0.name@,
            agents::cli_type(family, modal->Spawn_0.type_position()),
        ) is None,
{
}

/// An agent's name is its CLI type, or its CLI type with a role behind a hyphen: small letters,
/// digits and hyphens that do not begin with a hyphen and are not digits alone. Nothing else is a
/// name.
pub proof fn agent_names_are_type_and_role(name: Seq<char>, agent_type: Seq<char>)
    ensures
        agents::agent_name_error(name, agent_type) is None <==> {
            &&& name.len() > 0
            &&& name != "."@
            &&& name != ".."@
            &&& name[0] != '-'
            &&& forall|i: int|
                0 <= i < name.len() ==> !strings::is_control_char(#[trigger] name[i]) && name[i]
                    != '.' && name[i] != '\\' && name[i] != '/' && name[i] != '"' && name[i] != '['
                    && name[i] != ']'
            &&& name == agent_type || (name.len() > agent_type.len() + 1 && name.take(
                agent_type.len() as int,
            ) == agent_type && name[agent_type.len() as int] == '-' && name[agent_type.len() as int
                + 1] != '-' && (forall|i: int|
                agent_type.len() < i < name.len() ==> 'a' <= (#[trigger] name[i]) <= 'z' || '0'
                    <= name[i] <= '9' || name[i] == '-') && exists|i: int|
                agent_type.len() < i < name.len() && !('0' <= (#[trigger] name[i]) <= '9'))
        },
{
    let start = agent_type.len() as int;
    let role = agents::role_of(name, agent_type);
    if agents::has_role_form(name, agent_type) {
        assert(name.take(start) =~= agent_type) by {
            assert forall|i: int| 0 <= i < start implies name[i] == agent_type[i] by {
                assert(agent_type.push('-')[i] == name[i]);
            }
        }
        assert(agent_type.push('-')[start] == name[start]);
        assert forall|i: int| start < i < name.len() implies role[i - start - 1] == #[trigger] name[i] by {
        }
    }
    if name.len() > start && name.take(start) == agent_type && name[start] == '-' {
        assert forall|i: int| 0 <= i < start + 1 implies name[i] == agent_type.push('-')[i] by {
            if i < start {
                assert(name.take(start)[i] == name[i]);
            }
        }
        assert(agents::has_role_form(name, agent_type));
        assert forall|k: int| 0 <= k < role.len() implies #[trigger] role[k] == name[start + 1 + k] by {
        }
    }
    if name == agent_type {
        assert(name.take(start) =~= agent_type);
    }
    assert forall|i: int| 0 <= i < name.len() implies (agents::is_forbidden_char(
        #[trigger] name[i],
    ) <==> strings::is_control_char(name[i]) || name[i] == '.' || name[i] == '\\' || name[i] == '/'
        || name[i] == '"' || name[i] == '[' || name[i] == ']') by {
    }
}

/// A team's name is not empty, is neither `.` nor `..`, does not begin with a hyphen, and holds no
/// slash of either kind and no control character. Every other text is one.
pub proof fn team_names_are_plain(name: Seq<char>)
    ensures
        agents::team_name_error(name) is None <==> {
            &&& name.len() > 0
            &&& name != "."@
            &&& name != ".."@
            &&& name[0] != '-'
            &&& forall|i: int|
                0 <= i < name.len() ==> (#[trigger] name[i]) != '/' && name[i] != '\\'
                    && !strings::is_control_char(name[i])
        },
{
}

/// Somebody else asks an agent to shut down, if there is anybody else in its team: oneself if one is
/// in the team and is not the agent, or else the first other agent of the team.
pub proof fn agents_are_shut_down_by_others(
    screen: AgentsScreen,
    identity: Option<String>,
    line: Option<StatusLine>,
    request: AgentsRequest,
)
    requires
        screen.despawn_key_post(identity, line, request),
    ensures
        request is Despawn ==> screen.focus == AgentFocus::Identities && screen.team_index
            < screen.teams@.len() && screen.identity_index
            < screen.teams@[screen.team_index as int].identities@.len(),
        request matches AgentsRequest::Despawn { team, from, name } ==> {
            let identities = screen.teams@[screen.team_index as int].identities@;
            let agent = identities[screen.identity_index as int];
            &&& team@ == agent.team@
            &&& name@ == agent.name@
            &&& (exists|i: int| 0 <= i < identities.len() && (#[trigger] identities[i]).name@
                != agent.name@) ==> from@ != name@ && exists|i: int|
                0 <= i < identities.len() && (#[trigger] identities[i]).name@ == from@
            &&& (identity matches Some(own) && own@ != agent.name@ && exists|i: int|
                0 <= i < identities.len() && (#[trigger] identities[i]).name@ == own@) ==> (
            identity matches Some(own) && from@ == own@)
        },
        !(request is Despawn) ==> request is Nothing && line is Some,
{
}

/// On the screen of agents each key is about the agent or the team under the cursor.
pub proof fn keys_are_about_the_cursor(
    before: AgentsScreen,
    key: KeyEvent,
    identity: Option<String>,
    after: AgentsScreen,
    line: Option<StatusLine>,
    request: AgentsRequest,
)
    requires
        before.plain_key_post(key, identity, after, line, request),
        before.modal is None,
        before.team_index < before.teams@.len(),
        before.identity_index < before.teams@[before.team_index as int].identities@.len(),
    ensures
        after.teams == before.teams,
        after.modal matches Some(AgentModal::Rename { target, input, confirming, self_rename }) ==> {
            &&& key.code == KeyCode::Char('R')
            &&& target
                == before.teams@[before.team_index as int].identities@[before.identity_index as int]
            &&& input@.len() == 0
            &&& !confirming
            &&& self_rename <==> (identity matches Some(own) && own@ == target.name@)
        },
        after.modal matches Some(AgentModal::RenameTeam { old: from, input, confirming }) ==> {
            &&& key.code == KeyCode::Char('T')
            &&& from@ == before.teams@[before.team_index as int].name@
            &&& input@.len() == 0
            &&& !confirming
        },
        after.modal matches Some(AgentModal::Reset { target, confirm, blocked }) ==> {
            &&& key.code == KeyCode::Char('X') || key.code == KeyCode::Delete
            &&& before.focus == AgentFocus::Identities
            &&& target
                == before.teams@[before.team_index as int].identities@[before.identity_index as int]
            &&& confirm@.len() == 0
            &&& blocked <==> (identity matches Some(own) && own@ == target.name@)
        },
        after.modal matches Some(AgentModal::Leave { team, agent, confirm }) ==> {
            let shown = before.teams@[before.team_index as int];
            &&& key.code == KeyCode::Char('L')
            &&& team@ == shown.name@
            &&& confirm@.len() == 0
            &&& before.focus == AgentFocus::Identities ==> agent@
                == shown.identities@[before.identity_index as int].name@
            &&& before.focus == AgentFocus::Teams && (identity matches Some(own) && exists|i: int|
                0 <= i < shown.identities@.len() && (#[trigger] shown.identities@[i]).name@ == own@)
                ==> (identity matches Some(own) && agent@ == own@)
            &&& exists|i: int|
                0 <= i < shown.identities@.len() && (#[trigger] shown.identities@[i]).name@ == agent@
        },
        after.modal matches Some(AgentModal::Spawn(state)) ==> key.code == KeyCode::Char('n')
            && state.team_index == before.team_index && !state.new_team && state.step
            == SpawnStep::Team,
        key.code == KeyCode::Char('R') ==> after.modal matches Some(AgentModal::Rename { .. }),
        key.code == KeyCode::Char('T') ==> after.modal matches Some(AgentModal::RenameTeam { .. }),
        key.code == KeyCode::Char('X') && before.focus == AgentFocus::Identities ==> after.modal
            matches Some(AgentModal::Reset { .. }),
        key.code == KeyCode::Char('L') ==> after.modal matches Some(AgentModal::Leave { .. }),
        key.code == KeyCode::Char('n') ==> after.modal matches Some(AgentModal::Spawn(_)),
        request matches AgentsRequest::IdentityInfo { team, agent } ==> {
            let shown =
                before.teams@[before.team_index as int].identities@[before.identity_index as int];
            key.code == KeyCode::Enter && before.focus == AgentFocus::Identities && team@
                == shown.team@ && agent@ == shown.name@
        },
        key.code == KeyCode::Char('j') && before.focus == AgentFocus::Identities
            && before.identity_index + 1 < before.teams@[before.team_index as int].identities@.len()
            ==> after.identity_index == before.identity_index + 1 && after.team_index
            == before.team_index,
        key.code == KeyCode::Char('k') && before.focus == AgentFocus::Identities
            && before.identity_index > 0 ==> after.identity_index == before.identity_index - 1
            && after.team_index == before.team_index,
        key.code == KeyCode::Char('j') && before.focus == AgentFocus::Teams && before.team_index + 1
            < before.teams@.len() ==> after.team_index == before.team_index + 1
            && after.identity_index == 0,
        key.code == KeyCode::Char('k') && before.focus == AgentFocus::Teams && before.team_index > 0
            ==> after.team_index == before.team_index - 1 && after.identity_index == 0,
{
    let shown = before.teams@[before.team_index as int];
    assert(shown.identities@.len() == shown.identities.len());
    assert(before.teams@.len() == before.teams.len());
    if before.focus == AgentFocus::Teams {
        assert(shown.identities@[0].name@ == shown.identities@[0].name@);
    }
}

} // verus!

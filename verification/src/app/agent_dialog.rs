//! The dialogs of the agents screen: what each key does to the dialog that is open.

use crate::agents;
use crate::agents::{
    validate_agent_name, validate_team_name, AgentModal, AgentOperation, SpawnModalState, SpawnStep,
    CLI_TYPE_COUNT,
};
use crate::app::status;
use crate::app::status::{move_bounded, validation_status, StatusLine};
use crate::db;
use crate::db::{is_agent_registered, AgentIdentitySummary, AgentTeamSummary};
use crate::input::{KeyCode, KeyEvent};
use crate::strings::same_text;
use vstd::prelude::*;

verus! {

/// What a dialog asks for when it closes with an answer.
#[derive(Debug, PartialEq, Eq)]
pub enum AgentChoice {
    Nothing,
    Run(AgentOperation),
    /// Let an agent that exists already join a new team, from the current directory.
    JoinHere { team: String, agent: String, agent_type: String },
}

/// What one key does: the dialog that stays open, a new status line, and what was asked for.
#[derive(Debug)]
pub struct AgentDialogStep {
    pub modal: Option<AgentModal>,
    pub status: Option<StatusLine>,
    pub choice: AgentChoice,
}

impl AgentModal {
    /// The position in the list of CLI types is one of the list's.
    pub open spec fn wf(self) -> bool {
        self matches AgentModal::Spawn(state) ==> state.type_index < CLI_TYPE_COUNT
    }
}

impl AgentDialogStep {
    /// The dialog stays open as `modal` and nothing else happens.
    pub open spec fn stays(self, modal: AgentModal) -> bool {
        self.modal == Some(modal) && self.status is None && self.choice is Nothing
    }

    /// The dialog closes and nothing else happens.
    pub open spec fn closes(self) -> bool {
        self.modal is None && self.status is None && self.choice is Nothing
    }

    /// The dialog stays open unchanged and the input is refused with `text`.
    pub open spec fn refuses(self, modal: AgentModal, text: Seq<char>) -> bool {
        &&& self.modal == Some(modal)
        &&& self.status matches Some(line) && line.is_failure(text)
        &&& self.choice is Nothing
    }

    /// The dialog closes and asks for an operation.
    pub open spec fn runs(self) -> bool {
        self.modal is None && self.status is None && self.choice is Run
    }
}

/// The rows of the team list in the spawn dialog: every team, and a new one.
pub open spec fn team_choices(count: int) -> int {
    if count < usize::MAX {
        count + 1
    } else {
        count
    }
}

/// The team that the spawn dialog has settled on.
pub open spec fn spawn_team(state: SpawnModalState, teams: Seq<AgentTeamSummary>) -> Seq<char> {
    if state.new_team {
        state.team_input@
    } else if state.team_index < teams.len() {
        teams[state.team_index as int].name@
    } else {
        Seq::empty()
    }
}

/// Enter on the name of the agent: an unknown name is spawned; a known one can only join a new
/// team.
pub open spec fn spawn_confirmed(
    family: Seq<char>,
    state: SpawnModalState,
    teams: Seq<AgentTeamSummary>,
    step: AgentDialogStep,
) -> bool {
    let agent_type = agents::cli_type(family, state.type_position());
    match agents::agent_name_error(state.name@, agent_type) {
        Some(text) => step.refuses(AgentModal::Spawn(state), text),
        None => if !db::agent_registered(teams, state.name@) {
            &&& step.runs()
            &&& step.choice matches AgentChoice::Run(
                AgentOperation::Spawn { team, agent_type: kind, name },
            ) && team@ == spawn_team(state, teams) && kind@ == agent_type && name@ == state.name@
        } else if !state.new_team {
            step.refuses(AgentModal::Spawn(state), "existing agent can only join a new team"@)
        } else {
            &&& step.modal is None
            &&& step.status is None
            &&& step.choice matches AgentChoice::JoinHere { team, agent, agent_type: kind }
                && team@ == spawn_team(state, teams) && kind@ == agent_type && agent@ == state.name@
        },
    }
}

/// What a key does to the spawn dialog.
pub open spec fn spawn_post(
    family: Seq<char>,
    state: SpawnModalState,
    key: KeyEvent,
    teams: Seq<AgentTeamSummary>,
    step: AgentDialogStep,
) -> bool {
    match state.step {
        SpawnStep::Team => match key.code {
            KeyCode::Esc => step.closes(),
            KeyCode::Char('j') | KeyCode::Down => step.stays(
                AgentModal::Spawn(
                    SpawnModalState {
                        team_index: status::bounded_move(
                            state.team_index as int,
                            team_choices(teams.len() as int),
                            1,
                        ) as usize,
                        ..state
                    },
                ),
            ),
            KeyCode::Char('k') | KeyCode::Up => step.stays(
                AgentModal::Spawn(
                    SpawnModalState {
                        team_index: status::bounded_move(
                            state.team_index as int,
                            team_choices(teams.len() as int),
                            -1,
                        ) as usize,
                        ..state
                    },
                ),
            ),
            KeyCode::Enter => step.stays(
                AgentModal::Spawn(
                    if state.team_index == teams.len() {
                        SpawnModalState { new_team: true, step: SpawnStep::NewTeam, ..state }
                    } else {
                        SpawnModalState { new_team: false, step: SpawnStep::CliType, ..state }
                    },
                ),
            ),
            _ => step.stays(AgentModal::Spawn(state)),
        },
        SpawnStep::NewTeam => match key.code {
            KeyCode::Esc => step.stays(
                AgentModal::Spawn(
                    SpawnModalState { step: SpawnStep::Team, new_team: false, ..state },
                ),
            ),
            KeyCode::Enter => match agents::team_name_error(state.team_input@) {
                Some(text) => step.refuses(AgentModal::Spawn(state), text),
                None => step.stays(
                    AgentModal::Spawn(SpawnModalState { step: SpawnStep::CliType, ..state }),
                ),
            },
            _ => {
                &&& step.modal matches Some(AgentModal::Spawn(new)) && new == (SpawnModalState {
                    team_input: new.team_input,
                    ..state
                }) && new.team_input@ == status::edited(state.team_input@, key)
                &&& step.status is None
                &&& step.choice is Nothing
            },
        },
        SpawnStep::CliType => match key.code {
            KeyCode::Esc => step.stays(
                AgentModal::Spawn(
                    SpawnModalState {
                        step: if state.new_team {
                            SpawnStep::NewTeam
                        } else {
                            SpawnStep::Team
                        },
                        ..state
                    },
                ),
            ),
            KeyCode::Char('j') | KeyCode::Right | KeyCode::Down => step.stays(
                AgentModal::Spawn(
                    SpawnModalState {
                        type_index: ((state.type_index + 1) % CLI_TYPE_COUNT as int) as usize,
                        ..state
                    },
                ),
            ),
            KeyCode::Char('k') | KeyCode::Left | KeyCode::Up => step.stays(
                AgentModal::Spawn(
                    SpawnModalState {
                        type_index: if state.type_index == 0 {
                            (CLI_TYPE_COUNT - 1) as usize
                        } else {
                            (state.type_index - 1) as usize
                        },
                        ..state
                    },
                ),
            ),
            KeyCode::Enter => step.stays(
                AgentModal::Spawn(SpawnModalState { step: SpawnStep::Name, ..state }),
            ),
            _ => step.stays(AgentModal::Spawn(state)),
        },
        SpawnStep::Name => match key.code {
            KeyCode::Esc => step.stays(
                AgentModal::Spawn(SpawnModalState { step: SpawnStep::CliType, ..state }),
            ),
            KeyCode::Enter => spawn_confirmed(family, state, teams, step),
            _ => {
                &&& step.modal matches Some(AgentModal::Spawn(new)) && new == (SpawnModalState {
                    name: new.name,
                    ..state
                }) && new.name@ == status::edited(state.name@, key)
                &&& step.status is None
                &&& step.choice is Nothing
            },
        },
    }
}

/// What a key does to the dialog that renames an agent.
pub open spec fn rename_post(
    target: AgentIdentitySummary,
    input: String,
    confirming: bool,
    self_rename: bool,
    key: KeyEvent,
    step: AgentDialogStep,
) -> bool {
    let modal = AgentModal::Rename { target, input, confirming, self_rename };
    if confirming {
        match key.code {
            KeyCode::Char('y') | KeyCode::Char('Y') => {
                &&& step.runs()
                &&& step.choice matches AgentChoice::Run(
                    AgentOperation::Rename { team, old, new, self_rename: own },
                ) && team@ == target.team@ && old@ == target.name@ && new@ == input@ && own
                    == self_rename
            },
            KeyCode::Char('n') | KeyCode::Char('N') => step.stays(
                AgentModal::Rename { target, input, confirming: false, self_rename },
            ),
            KeyCode::Esc => step.closes(),
            _ => step.stays(modal),
        }
    } else {
        match key.code {
            KeyCode::Esc => step.closes(),
            KeyCode::Enter => match agents::agent_name_error(input@, target.agent_type@) {
                Some(text) => step.refuses(modal, text),
                None => step.stays(
                    AgentModal::Rename { target, input, confirming: true, self_rename },
                ),
            },
            _ => {
                &&& step.modal matches Some(
                    AgentModal::Rename { target: t, input: i, confirming: c, self_rename: r },
                ) && t == target && i@ == status::edited(input@, key) && !c && r == self_rename
                &&& step.status is None
                &&& step.choice is Nothing
            },
        }
    }
}

/// What a key does to the dialog that renames a team.
pub open spec fn rename_team_post(
    old: String,
    input: String,
    confirming: bool,
    key: KeyEvent,
    step: AgentDialogStep,
) -> bool {
    let modal = AgentModal::RenameTeam { old, input, confirming };
    if confirming {
        match key.code {
            KeyCode::Char('y') | KeyCode::Char('Y') => {
                &&& step.runs()
                &&& step.choice matches AgentChoice::Run(
                    AgentOperation::RenameTeam { old: from, new },
                ) && from@ == old@ && new@ == input@
            },
            KeyCode::Char('n') | KeyCode::Char('N') => step.stays(
                AgentModal::RenameTeam { old, input, confirming: false },
            ),
            KeyCode::Esc => step.closes(),
            _ => step.stays(modal),
        }
    } else {
        match key.code {
            KeyCode::Esc => step.closes(),
            KeyCode::Enter => match agents::team_name_error(input@) {
                Some(text) => step.refuses(modal, text),
                None => step.stays(AgentModal::RenameTeam { old, input, confirming: true }),
            },
            _ => {
                &&& step.modal matches Some(
                    AgentModal::RenameTeam { old: o, input: i, confirming: c },
                ) && o == old && i@ == status::edited(input@, key) && !c
                &&& step.status is None
                &&& step.choice is Nothing
            },
        }
    }
}

/// What a key does to the dialog that resets an identity: nothing runs unless the confirmation is
/// exactly `YES`, and a blocked dialog can only be closed.
pub open spec fn reset_post(
    target: AgentIdentitySummary,
    confirm: String,
    blocked: bool,
    key: KeyEvent,
    step: AgentDialogStep,
) -> bool {
    let modal = AgentModal::Reset { target, confirm, blocked };
    if blocked {
        if key.code == KeyCode::Esc {
            step.closes()
        } else {
            step.stays(modal)
        }
    } else {
        match key.code {
            KeyCode::Esc => step.closes(),
            KeyCode::Enter => if confirm@ == "YES"@ {
                &&& step.runs()
                &&& step.choice matches AgentChoice::Run(
                    AgentOperation::Reset { project, agent_type, agent },
                ) && project@ == target.project@ && agent_type@ == target.agent_type@ && agent@
                    == target.name@
            } else {
                step.refuses(modal, "type YES exactly"@)
            },
            _ => {
                &&& step.modal matches Some(
                    AgentModal::Reset { target: t, confirm: c, blocked: b },
                ) && t == target && c@ == status::edited(confirm@, key) && !b
                &&& step.status is None
                &&& step.choice is Nothing
            },
        }
    }
}

/// What a key does to the dialog that lets an agent leave a team.
pub open spec fn leave_post(
    team: String,
    agent: String,
    confirm: String,
    key: KeyEvent,
    step: AgentDialogStep,
) -> bool {
    let modal = AgentModal::Leave { team, agent, confirm };
    match key.code {
        KeyCode::Esc => step.closes(),
        KeyCode::Enter => if confirm@ == "YES"@ {
            &&& step.runs()
            &&& step.choice matches AgentChoice::Run(AgentOperation::Leave { team: t, agent: a })
                && t@ == team@ && a@ == agent@
        } else {
            step.refuses(modal, "type YES exactly"@)
        },
        _ => {
            &&& step.modal matches Some(AgentModal::Leave { team: t, agent: a, confirm: c }) && t
                == team && a == agent && c@ == status::edited(confirm@, key)
            &&& step.status is None
            &&& step.choice is Nothing
        },
    }
}

/// What a key does to the dialog that asks whether to join under a name that was renamed.
pub open spec fn join_force_post(
    team: String,
    agent: String,
    agent_type: String,
    project: String,
    key: KeyEvent,
    step: AgentDialogStep,
) -> bool {
    match key.code {
        KeyCode::Char('y') | KeyCode::Char('Y') => {
            &&& step.runs()
            &&& step.choice matches AgentChoice::Run(
                AgentOperation::JoinForce { team: t, agent: a, agent_type: k, project: p },
            ) && t@ == team@ && a@ == agent@ && k@ == agent_type@ && p@ == project@
        },
        KeyCode::Char('n') | KeyCode::Char('N') | KeyCode::Esc => step.closes(),
        _ => step.stays(AgentModal::JoinForce { team, agent, agent_type, project }),
    }
}

/// What a key does to the dialog that is open.
pub open spec fn agent_dialog_post(
    family: Seq<char>,
    modal: AgentModal,
    key: KeyEvent,
    teams: Seq<AgentTeamSummary>,
    step: AgentDialogStep,
) -> bool {
    match modal {
        AgentModal::Spawn(state) => spawn_post(family, state, key, teams, step),
        AgentModal::Rename { target, input, confirming, self_rename } => rename_post(
            target,
            input,
            confirming,
            self_rename,
            key,
            step,
        ),
        AgentModal::RenameTeam { old, input, confirming } => rename_team_post(
            old,
            input,
            confirming,
            key,
            step,
        ),
        AgentModal::Reset { target, confirm, blocked } => reset_post(
            target,
            confirm,
            blocked,
            key,
            step,
        ),
        AgentModal::Leave { team, agent, confirm } => leave_post(team, agent, confirm, key, step),
        AgentModal::JoinForce { team, agent, agent_type, project } => join_force_post(
            team,
            agent,
            agent_type,
            project,
            key,
            step,
        ),
    }
}

fn stay(modal: AgentModal) -> (step: AgentDialogStep)
    ensures
        step.stays(modal),
{
    AgentDialogStep { modal: Some(modal), status: None, choice: AgentChoice::Nothing }
}

fn close() -> (step: AgentDialogStep)
    ensures
        step.closes(),
{
    AgentDialogStep { modal: None, status: None, choice: AgentChoice::Nothing }
}

fn refuse(modal: AgentModal, text: String) -> (step: AgentDialogStep)
    ensures
        step.refuses(modal, text@),
{
    AgentDialogStep {
        modal: Some(modal),
        status: Some(validation_status(text)),
        choice: AgentChoice::Nothing,
    }
}

fn run(operation: AgentOperation) -> (step: AgentDialogStep)
    ensures
        step.runs(),
        step.choice == AgentChoice::Run(operation),
{
    AgentDialogStep { modal: None, status: None, choice: AgentChoice::Run(operation) }
}

/// Applies an editing key to a text field.
pub(crate) fn edit(text: &mut String, key: KeyEvent)
    ensures
        final(text)@ == status::edited(old(text)@, key),
{
    match key.code {
        KeyCode::Backspace => {
            let _ = text.pop();
        },
        KeyCode::Char(character) => {
            if key.plain_text() {
                text.push(character);
            }
        },
        _ => {},
    }
}

fn confirm_spawn(
    family: &str,
    state: SpawnModalState,
    teams: &Vec<AgentTeamSummary>,
) -> (step: AgentDialogStep)
    ensures
        spawn_confirmed(family@, state, teams@, step),
{
    let agent_type = state.agent_type(family);
    match validate_agent_name(state.name.as_str(), agent_type.as_str()) {
        Err(text) => refuse(AgentModal::Spawn(state), text),
        Ok(()) => {
            let team = if state.new_team {
                state.team_input.clone()
            } else if state.team_index < teams.len() {
                teams[state.team_index].name.clone()
            } else {
                String::new()
            };
            if !is_agent_registered(teams, state.name.as_str()) {
                run(
                    AgentOperation::Spawn {
                        team,
                        agent_type,
                        name: state.name.clone(),
                    },
                )
            } else if !state.new_team {
                refuse(
                    AgentModal::Spawn(state),
                    "existing agent can only join a new team".to_owned(),
                )
            } else {
                AgentDialogStep {
                    modal: None,
                    status: None,
                    choice: AgentChoice::JoinHere {
                        team,
                        agent: state.name.clone(),
                        agent_type,
                    },
                }
            }
        },
    }
}

fn spawn_step(
    family: &str,
    initial: SpawnModalState,
    key: KeyEvent,
    teams: &Vec<AgentTeamSummary>,
) -> (step: AgentDialogStep)
    requires
        initial.type_index < CLI_TYPE_COUNT,
    ensures
        spawn_post(family@, initial, key, teams@, step),
{
    let mut state = initial;
    match state.step {
        SpawnStep::Team => match key.code {
            KeyCode::Esc => {
                return close();
            },
            KeyCode::Char('j') | KeyCode::Down => {
                state.team_index = move_bounded(
                    state.team_index,
                    teams.len().saturating_add(1),
                    1,
                );
            },
            KeyCode::Char('k') | KeyCode::Up => {
                state.team_index = move_bounded(
                    state.team_index,
                    teams.len().saturating_add(1),
                    -1,
                );
            },
            KeyCode::Enter => {
                state.new_team = state.team_index == teams.len();
                state.step = if state.new_team {
                    SpawnStep::NewTeam
                } else {
                    SpawnStep::CliType
                };
            },
            _ => {},
        },
        SpawnStep::NewTeam => match key.code {
            KeyCode::Esc => {
                state.step = SpawnStep::Team;
                state.new_team = false;
            },
            KeyCode::Enter => match validate_team_name(state.team_input.as_str()) {
                Ok(()) => {
                    state.step = SpawnStep::CliType;
                },
                Err(text) => {
                    return refuse(AgentModal::Spawn(state), text);
                },
            },
            _ => {
                edit(&mut state.team_input, key);
            },
        },
        SpawnStep::CliType => match key.code {
            KeyCode::Esc => {
                state.step = if state.new_team {
                    SpawnStep::NewTeam
                } else {
                    SpawnStep::Team
                };
            },
            KeyCode::Char('j') | KeyCode::Right | KeyCode::Down => {
                state.type_index = (state.type_index + 1) % CLI_TYPE_COUNT;
            },
            KeyCode::Char('k') | KeyCode::Left | KeyCode::Up => {
                state.type_index = if state.type_index == 0 {
                    CLI_TYPE_COUNT - 1
                } else {
                    state.type_index - 1
                };
            },
            KeyCode::Enter => {
                state.step = SpawnStep::Name;
            },
            _ => {},
        },
        SpawnStep::Name => match key.code {
            KeyCode::Esc => {
                state.step = SpawnStep::CliType;
            },
            KeyCode::Enter => {
                return confirm_spawn(family, state, teams);
            },
            _ => {
                edit(&mut state.name, key);
            },
        },
    }
    stay(AgentModal::Spawn(state))
}

fn rename_step(
    target: AgentIdentitySummary,
    input: String,
    confirming: bool,
    self_rename: bool,
    key: KeyEvent,
) -> (step: AgentDialogStep)
    ensures
        rename_post(target, input, confirming, self_rename, key, step),
{
    if confirming {
        match key.code {
            KeyCode::Char('y') | KeyCode::Char('Y') => run(
                AgentOperation::Rename {
                    team: target.team,
                    old: target.name,
                    new: input,
                    self_rename,
                },
            ),
            KeyCode::Char('n') | KeyCode::Char('N') => stay(
                AgentModal::Rename { target, input, confirming: false, self_rename },
            ),
            KeyCode::Esc => close(),
            _ => stay(AgentModal::Rename { target, input, confirming, self_rename }),
        }
    } else {
        match key.code {
            KeyCode::Esc => close(),
            KeyCode::Enter => match validate_agent_name(
                input.as_str(),
                target.agent_type.as_str(),
            ) {
                Ok(()) => stay(AgentModal::Rename { target, input, confirming: true, self_rename }),
                Err(text) => refuse(
                    AgentModal::Rename { target, input, confirming, self_rename },
                    text,
                ),
            },
            _ => {
                let mut field = input;
                edit(&mut field, key);
                stay(AgentModal::Rename { target, input: field, confirming, self_rename })
            },
        }
    }
}

fn rename_team_step(old: String, input: String, confirming: bool, key: KeyEvent) -> (step:
    AgentDialogStep)
    ensures
        rename_team_post(old, input, confirming, key, step),
{
    if confirming {
        match key.code {
            KeyCode::Char('y') | KeyCode::Char('Y') => run(
                AgentOperation::RenameTeam { old, new: input },
            ),
            KeyCode::Char('n') | KeyCode::Char('N') => stay(
                AgentModal::RenameTeam { old, input, confirming: false },
            ),
            KeyCode::Esc => close(),
            _ => stay(AgentModal::RenameTeam { old, input, confirming }),
        }
    } else {
        match key.code {
            KeyCode::Esc => close(),
            KeyCode::Enter => match validate_team_name(input.as_str()) {
                Ok(()) => stay(AgentModal::RenameTeam { old, input, confirming: true }),
                Err(text) => refuse(AgentModal::RenameTeam { old, input, confirming }, text),
            },
            _ => {
                let mut field = input;
                edit(&mut field, key);
                stay(AgentModal::RenameTeam { old, input: field, confirming })
            },
        }
    }
}

fn reset_step(target: AgentIdentitySummary, confirm: String, blocked: bool, key: KeyEvent) -> (step:
    AgentDialogStep)
    ensures
        reset_post(target, confirm, blocked, key, step),
{
    if blocked {
        if key.code == KeyCode::Esc {
            return close();
        }
        return stay(AgentModal::Reset { target, confirm, blocked });
    }
    match key.code {
        KeyCode::Esc => close(),
        KeyCode::Enter => {
            if same_text(confirm.as_str(), "YES") {
                run(
                    AgentOperation::Reset {
                        project: target.project,
                        agent_type: target.agent_type,
                        agent: target.name,
                    },
                )
            } else {
                refuse(
                    AgentModal::Reset { target, confirm, blocked },
                    "type YES exactly".to_owned(),
                )
            }
        },
        _ => {
            let mut field = confirm;
            edit(&mut field, key);
            stay(AgentModal::Reset { target, confirm: field, blocked })
        },
    }
}

fn leave_step(team: String, agent: String, confirm: String, key: KeyEvent) -> (step:
    AgentDialogStep)
    ensures
        leave_post(team, agent, confirm, key, step),
{
    match key.code {
        KeyCode::Esc => close(),
        KeyCode::Enter => {
            if same_text(confirm.as_str(), "YES") {
                run(AgentOperation::Leave { team, agent })
            } else {
                refuse(AgentModal::Leave { team, agent, confirm }, "type YES exactly".to_owned())
            }
        },
        _ => {
            let mut field = confirm;
            edit(&mut field, key);
            stay(AgentModal::Leave { team, agent, confirm: field })
        },
    }
}

/// Applies a key to the dialog that is open on the agents screen.
pub fn agent_dialog_key(
    family: &str,
    modal: AgentModal,
    key: KeyEvent,
    teams: &Vec<AgentTeamSummary>,
) -> (step: AgentDialogStep)
    requires
        modal.wf(),
    ensures
        agent_dialog_post(family@, modal, key, teams@, step),
        step.modal matches Some(open) ==> open.wf(),
{
    match modal {
        AgentModal::Spawn(state) => spawn_step(family, state, key, teams),
        AgentModal::Rename { target, input, confirming, self_rename } => rename_step(
            target,
            input,
            confirming,
            self_rename,
            key,
        ),
        AgentModal::RenameTeam { old, input, confirming } => rename_team_step(
            old,
            input,
            confirming,
            key,
        ),
        AgentModal::Reset { target, confirm, blocked } => reset_step(target, confirm, blocked, key),
        AgentModal::Leave { team, agent, confirm } => leave_step(team, agent, confirm, key),
        AgentModal::JoinForce { team, agent, agent_type, project } => match key.code {
            KeyCode::Char('y') | KeyCode::Char('Y') => run(
                AgentOperation::JoinForce { team, agent, agent_type, project },
            ),
            KeyCode::Char('n') | KeyCode::Char('N') | KeyCode::Esc => close(),
            _ => stay(AgentModal::JoinForce { team, agent, agent_type, project }),
        },
    }
}

/// A reset or a leave runs only after the confirmation was typed as exactly `YES`, and a reset of
/// one's own identity, which the dialog blocks, never runs.
pub proof fn destructive_operations_need_yes(
    family: Seq<char>,
    modal: AgentModal,
    key: KeyEvent,
    teams: Seq<AgentTeamSummary>,
    step: AgentDialogStep,
)
    requires
        agent_dialog_post(family, modal, key, teams, step),
    ensures
        step.choice matches AgentChoice::Run(AgentOperation::Reset { .. }) ==> modal matches AgentModal::Reset {
            confirm,
            blocked,
            ..
        } && confirm@ == "YES"@ && !blocked && key.code == KeyCode::Enter,
        step.choice matches AgentChoice::Run(AgentOperation::Leave { .. }) ==> modal matches AgentModal::Leave {
            confirm,
            ..
        } && confirm@ == "YES"@ && key.code == KeyCode::Enter,
{
}

/// Nothing runs while the dialog stays open: an operation and its dialog never overlap.
pub proof fn dialog_closes_when_it_runs(
    family: Seq<char>,
    modal: AgentModal,
    key: KeyEvent,
    teams: Seq<AgentTeamSummary>,
    step: AgentDialogStep,
)
    requires
        agent_dialog_post(family, modal, key, teams, step),
    ensures
        !(step.choice is Nothing) ==> step.modal is None && step.status is None,
{
}

} // verus!

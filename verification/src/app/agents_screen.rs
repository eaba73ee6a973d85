//! The agents screen: its cursors, and what each key does.

use crate::agents::{AgentFocus, AgentModal, AgentOperation, SpawnModalState, SpawnStep};
use crate::app::agent_dialog;
use crate::app::agent_dialog::{agent_dialog_key, AgentChoice, AgentDialogStep};
use crate::app::model::AgentsScreen;
use crate::app::status;
use crate::app::status::{
    clamp_index, error_status, last_position, move_bounded, validation_status, StatusLine,
};
use crate::bulk::LockStatus;
use crate::db;
use crate::db::{identity_position, team_position, AgentIdentitySummary, AgentTeamSummary};
use crate::input::{KeyCode, KeyEvent};
use crate::strings;
use crate::strings::{concat2, decimal_usize, option_is, same_text};
use vstd::prelude::*;

verus! {

/// What a key asks for beyond the agents screen.
#[derive(Debug)]
pub enum AgentsRequest {
    Nothing,
    LeaveScreen,
    Help,
    Reload,
    /// Show what is known about the selected identity.
    IdentityInfo { team: String, agent: String },
    Despawn { team: String, from: String, name: String },
    Run(AgentOperation),
    JoinHere { team: String, agent: String, agent_type: String },
}

/// The name is the own one.
pub open spec fn is_own(identity: Option<String>, name: Seq<char>) -> bool {
    identity matches Some(own) && own@ == name
}

/// The dialog that spawns an agent has just been opened, on the team at `index`.
pub open spec fn opens_spawn(modal: Option<AgentModal>, index: usize) -> bool {
    modal matches Some(AgentModal::Spawn(state)) && state.step == SpawnStep::Team
        && state.team_index == index && !state.new_team && state.team_input@.len() == 0
        && state.type_index == 0 && state.name@.len() == 0
}

/// The dialog that renames an agent has just been opened.
pub open spec fn opens_rename(
    modal: Option<AgentModal>,
    identity: Option<String>,
    agent: AgentIdentitySummary,
) -> bool {
    modal matches Some(AgentModal::Rename { target, input, confirming, self_rename }) && target
        == agent && input@.len() == 0 && !confirming && self_rename == is_own(identity, agent.name@)
}

/// The dialog that renames a team has just been opened.
pub open spec fn opens_rename_team(modal: Option<AgentModal>, team: Seq<char>) -> bool {
    modal matches Some(AgentModal::RenameTeam { old, input, confirming }) && old@ == team
        && input@.len() == 0 && !confirming
}

/// The dialog that resets an agent has just been opened; it is blocked for the own one.
pub open spec fn opens_reset(
    modal: Option<AgentModal>,
    identity: Option<String>,
    agent: AgentIdentitySummary,
) -> bool {
    modal matches Some(AgentModal::Reset { target, confirm, blocked }) && target == agent
        && confirm@.len() == 0 && blocked == is_own(identity, agent.name@)
}

/// The dialog that lets an agent leave a team has just been opened.
pub open spec fn opens_leave(modal: Option<AgentModal>, team: Seq<char>, agent: Seq<char>) -> bool {
    modal matches Some(AgentModal::Leave { team: t, agent: a, confirm }) && t@ == team && a@
        == agent && confirm@.len() == 0
}

/// What the dialog asked for.
pub open spec fn choice_of(request: AgentsRequest) -> AgentChoice {
    match request {
        AgentsRequest::Run(operation) => AgentChoice::Run(operation),
        AgentsRequest::JoinHere { team, agent, agent_type } => AgentChoice::JoinHere {
            team,
            agent,
            agent_type,
        },
        _ => AgentChoice::Nothing,
    }
}

/// The two are the same registration.
pub open spec fn same_registration(
    left: AgentIdentitySummary,
    right: AgentIdentitySummary,
) -> bool {
    left.name@ == right.name@ && left.agent_type@ == right.agent_type@ && left.project@
        == right.project@
}

/// The list holds the registration.
pub open spec fn has_registration(
    identities: Seq<AgentIdentitySummary>,
    identity: AgentIdentitySummary,
) -> bool {
    exists|i: int| 0 <= i < identities.len() && same_registration(#[trigger] identities[i], identity)
}

/// The registration stands at `index` first.
pub open spec fn first_registration(
    identities: Seq<AgentIdentitySummary>,
    identity: AgentIdentitySummary,
    index: int,
) -> bool {
    &&& 0 <= index < identities.len()
    &&& same_registration(identities[index], identity)
    &&& forall|i: int| 0 <= i < index ==> !same_registration(#[trigger] identities[i], identity)
}

fn registration_position(
    identities: &Vec<AgentIdentitySummary>,
    identity: &AgentIdentitySummary,
) -> (found: Option<usize>)
    ensures
        match found {
            Some(index) => first_registration(identities@, *identity, index as int),
            None => !has_registration(identities@, *identity),
        },
{
    let mut index: usize = 0;
    while index < identities.len()
        invariant
            index <= identities@.len(),
            forall|i: int|
                0 <= i < index ==> !same_registration(#[trigger] identities@[i], *identity),
        decreases identities@.len() - index,
    {
        let other = &identities[index];
        if same_text(other.name.as_str(), identity.name.as_str()) && same_text(
            other.agent_type.as_str(),
            identity.agent_type.as_str(),
        ) && same_text(other.project.as_str(), identity.project.as_str()) {
            return Some(index);
        }
        index += 1;
    }
    None
}

/// An identity other than the named one stands at `index` first.
pub open spec fn first_other(
    identities: Seq<AgentIdentitySummary>,
    name: Seq<char>,
    index: int,
) -> bool {
    &&& 0 <= index < identities.len()
    &&& identities[index].name@ != name
    &&& forall|i: int| 0 <= i < index ==> #[trigger] identities[i].name@ == name
}

/// Who asks an agent to shut down: the own identity if it is another one of the team, else the
/// first other one of the team, else the agent itself.
pub open spec fn despawn_sender(
    identity: Option<String>,
    identities: Seq<AgentIdentitySummary>,
    name: Seq<char>,
    from: Seq<char>,
) -> bool {
    if identity matches Some(own) && own@ != name && db::has_identity(identities, own@) {
        is_own(identity, from)
    } else if exists|i: int| 0 <= i < identities.len() && #[trigger] identities[i].name@ != name {
        exists|i: int| #[trigger] first_other(identities, name, i) && identities[i].name@ == from
    } else {
        from == name
    }
}

fn choose_sender(
    identity: &Option<String>,
    identities: &Vec<AgentIdentitySummary>,
    name: &str,
) -> (from: String)
    ensures
        despawn_sender(*identity, identities@, name@, from@),
{
    if let Some(own) = identity {
        if !same_text(own.as_str(), name) && identity_position(identities, own.as_str()).is_some() {
            return own.clone();
        }
    }
    let mut index: usize = 0;
    while index < identities.len()
        invariant
            index <= identities@.len(),
            !(*identity matches Some(own) && own@ != name@ && db::has_identity(
                identities@,
                own@,
            )),
            forall|i: int| 0 <= i < index ==> #[trigger] identities@[i].name@ == name@,
        decreases identities@.len() - index,
    {
        if !same_text(identities[index].name.as_str(), name) {
            assert(first_other(identities@, name@, index as int));
            return identities[index].name.clone();
        }
        index += 1;
    }
    name.to_owned()
}

/// How a lock is shown.
pub open spec fn lock_text(lock: LockStatus) -> Seq<char> {
    match lock {
        LockStatus::Unlocked => "unlocked"@,
        LockStatus::Owned(owner) => owner@,
        LockStatus::ParseError => "lock parse error"@,
    }
}

/// A text, or a hyphen in its place.
pub open spec fn or_dash(text: Option<String>) -> Seq<char> {
    match text {
        Some(text) => text@,
        None => "-"@,
    }
}

/// A text, or a hyphen in its place.
pub fn text_or_dash(text: &Option<String>) -> (shown: String)
    ensures
        shown@ == or_dash(*text),
{
    match text {
        Some(text) => text.clone(),
        None => "-".to_owned(),
    }
}

/// What is shown about an identity.
pub open spec fn identity_text(identity: AgentIdentitySummary, lock: LockStatus) -> Seq<char> {
    "Agent: "@ + identity.name@ + "\nTeam: "@ + identity.team@ + "\nCli-type: "@
        + identity.agent_type@ + "\nProject: "@ + identity.project@ + "\nActas lock: "@ + lock_text(
        lock,
    ) + "\nLast seen: "@ + or_dash(identity.last_seen_at) + "\nSent (30d): "@ + strings::decimal(
        identity.sent_30d as nat,
    ) + "\nReceived (30d): "@ + strings::decimal(identity.received_30d as nat)
}

/// What is shown about an identity.
pub fn describe_identity(identity: &AgentIdentitySummary, lock: &LockStatus) -> (text: String)
    ensures
        text@ == identity_text(*identity, *lock),
{
    let owner = match lock {
        LockStatus::Unlocked => "unlocked".to_owned(),
        LockStatus::Owned(owner) => owner.clone(),
        LockStatus::ParseError => "lock parse error".to_owned(),
    };
    let seen = text_or_dash(&identity.last_seen_at);
    let sent = decimal_usize(identity.sent_30d);
    let received = decimal_usize(identity.received_30d);
    let mut text = "Agent: ".to_owned();
    text.append(identity.name.as_str());
    text.append("\nTeam: ");
    text.append(identity.team.as_str());
    text.append("\nCli-type: ");
    text.append(identity.agent_type.as_str());
    text.append("\nProject: ");
    text.append(identity.project.as_str());
    text.append("\nActas lock: ");
    text.append(owner.as_str());
    text.append("\nLast seen: ");
    text.append(seen.as_str());
    text.append("\nSent (30d): ");
    text.append(sent.as_str());
    text.append("\nReceived (30d): ");
    text.append(received.as_str());
    text
}

impl AgentsScreen {
    /// The team under the cursor.
    pub open spec fn team(self) -> Option<AgentTeamSummary> {
        if self.team_index < self.teams@.len() {
            Some(self.teams@[self.team_index as int])
        } else {
            None
        }
    }

    /// The identity under the cursor.
    pub open spec fn identity(self) -> Option<AgentIdentitySummary> {
        match self.team() {
            Some(team) => if self.identity_index < team.identities@.len() {
                Some(team.identities@[self.identity_index as int])
            } else {
                None
            },
            None => None,
        }
    }

    /// How many identities the team under the cursor has.
    pub open spec fn identity_count(self) -> int {
        match self.team() {
            Some(team) => team.identities@.len() as int,
            None => 0,
        }
    }

    /// The team under the cursor.
    pub fn selected_agent_team(&self) -> (team: Option<&AgentTeamSummary>)
        ensures
            match team {
                Some(team) => self.team() == Some(*team),
                None => self.team() is None,
            },
    {
        if self.team_index < self.teams.len() {
            Some(&self.teams[self.team_index])
        } else {
            None
        }
    }

    /// The identity under the cursor.
    pub fn selected_agent_identity(&self) -> (identity: Option<&AgentIdentitySummary>)
        ensures
            match identity {
                Some(identity) => self.identity() == Some(*identity),
                None => self.identity() is None,
            },
    {
        match self.selected_agent_team() {
            Some(team) => if self.identity_index < team.identities.len() {
                Some(&team.identities[self.identity_index])
            } else {
                None
            },
            None => None,
        }
    }

    fn count_identities(&self) -> (count: usize)
        ensures
            count == self.identity_count(),
    {
        match self.selected_agent_team() {
            Some(team) => team.identities.len(),
            None => 0,
        }
    }

    /// The screen after its cursor moved by one.
    pub open spec fn moved(self, forward: bool) -> AgentsScreen {
        let step: int = if forward {
            1
        } else {
            -1
        };
        match self.focus {
            AgentFocus::Teams => AgentsScreen {
                team_index: status::bounded_move(
                    self.team_index as int,
                    self.teams@.len() as int,
                    step,
                ) as usize,
                identity_index: 0,
                ..self
            },
            AgentFocus::Identities => AgentsScreen {
                identity_index: status::bounded_move(
                    self.identity_index as int,
                    self.identity_count(),
                    step,
                ) as usize,
                ..self
            },
        }
    }

    /// Moves the cursor by one.
    pub fn move_agent_cursor(&mut self, forward: bool)
        ensures
            *final(self) == old(self).moved(forward),
    {
        let step: isize = if forward {
            1
        } else {
            -1
        };
        match self.focus {
            AgentFocus::Teams => {
                self.team_index = move_bounded(self.team_index, self.teams.len(), step);
                self.identity_index = 0;
            },
            AgentFocus::Identities => {
                let count = self.count_identities();
                self.identity_index = move_bounded(self.identity_index, count, step);
            },
        }
    }

    /// The screen after its cursor moved to the first or the last row.
    pub open spec fn moved_to_edge(self, last: bool) -> AgentsScreen {
        match self.focus {
            AgentFocus::Teams => AgentsScreen {
                team_index: if last {
                    status::last_index(self.teams@.len() as int) as usize
                } else {
                    0
                },
                identity_index: 0,
                ..self
            },
            AgentFocus::Identities => AgentsScreen {
                identity_index: if last {
                    status::last_index(self.identity_count()) as usize
                } else {
                    0
                },
                ..self
            },
        }
    }

    /// Moves the cursor to the first or the last row.
    pub fn move_agent_edge(&mut self, last: bool)
        ensures
            *final(self) == old(self).moved_to_edge(last),
    {
        match self.focus {
            AgentFocus::Teams => {
                self.team_index = if last {
                    last_position(self.teams.len())
                } else {
                    0
                };
                self.identity_index = 0;
            },
            AgentFocus::Identities => {
                let count = self.count_identities();
                self.identity_index = if last {
                    last_position(count)
                } else {
                    0
                };
            },
        }
    }

    /// The cursor stays on its team if that is still there.
    pub open spec fn team_reselected(self, teams: Seq<AgentTeamSummary>, index: int) -> bool {
        if self.team() matches Some(team) && db::has_team(teams, team.name@) {
            db::first_team(teams, self.team()->Some_0.name@, index)
        } else {
            index == status::clamped_index(self.team_index as int, teams.len() as int)
        }
    }

    /// The cursor stays on its registration if that is still there.
    pub open spec fn identity_reselected(self, after: AgentsScreen) -> bool {
        if self.identity() is Some && after.team() is Some && has_registration(
            after.team()->Some_0.identities@,
            self.identity()->Some_0,
        ) {
            first_registration(
                after.team()->Some_0.identities@,
                self.identity()->Some_0,
                after.identity_index as int,
            )
        } else {
            after.identity_index == status::clamped_index(
                self.identity_index as int,
                after.identity_count(),
            )
        }
    }

    /// What new lists do to the screen.
    pub open spec fn reload_post(self, teams: Vec<AgentTeamSummary>, after: AgentsScreen) -> bool {
        &&& after == (AgentsScreen {
            teams,
            team_index: after.team_index,
            identity_index: after.identity_index,
            ..self
        })
        &&& self.team_reselected(teams@, after.team_index as int)
        &&& self.identity_reselected(after)
    }

    /// Takes new lists and keeps the cursors on what they were on, as far as it is still there.
    pub fn reload_agents(&mut self, teams: Vec<AgentTeamSummary>)
        ensures
            old(self).reload_post(teams, *final(self)),
    {
        let team_index: usize = match self.selected_agent_team() {
            Some(team) => match team_position(&teams, team.name.as_str()) {
                Some(index) => {
                    assert(teams@[index as int].name@ == team.name@);
                    index
                },
                None => clamp_index(self.team_index, teams.len()),
            },
            None => clamp_index(self.team_index, teams.len()),
        };
        let selected = match self.selected_agent_identity() {
            Some(identity) => Some(identity.clone()),
            None => None,
        };
        self.teams = teams;
        self.team_index = team_index;
        let count = self.count_identities();
        let identity_index: usize = match (&selected, self.selected_agent_team()) {
            (Some(identity), Some(team)) => match registration_position(
                &team.identities,
                identity,
            ) {
                Some(index) => {
                    assert(same_registration(team.identities@[index as int], *identity));
                    index
                },
                None => clamp_index(self.identity_index, count),
            },
            _ => clamp_index(self.identity_index, count),
        };
        self.identity_index = identity_index;
    }

    /// Opens the dialog that spawns an agent.
    pub fn open_spawn_modal(&mut self, team_index: usize)
        ensures
            *final(self) == (AgentsScreen { modal: final(self).modal, ..*old(self) }),
            opens_spawn(final(self).modal, team_index),
            final(self).wf(),
    {
        self.modal = Some(AgentModal::Spawn(SpawnModalState::new(team_index)));
    }

    /// Opens the dialog that renames an agent.
    pub fn open_rename_modal(&mut self, target: AgentIdentitySummary, identity: &Option<String>)
        ensures
            *final(self) == (AgentsScreen { modal: final(self).modal, ..*old(self) }),
            opens_rename(final(self).modal, *identity, target),
            final(self).wf(),
    {
        let self_rename = option_is(identity, target.name.as_str());
        self.modal = Some(
            AgentModal::Rename { target, input: String::new(), confirming: false, self_rename },
        );
    }

    /// What the key for renaming an agent does: with the focus on the teams it takes the identity
    /// under the other cursor, or else the first one.
    pub open spec fn rename_key_post(
        self,
        identity: Option<String>,
        after: AgentsScreen,
        line: Option<StatusLine>,
    ) -> bool {
        let target = if self.identity() is None && self.focus == AgentFocus::Teams
            && self.identity_count() > 0 {
            Some(self.team()->Some_0.identities@[0])
        } else {
            self.identity()
        };
        match target {
            Some(agent) => {
                &&& after == (AgentsScreen { modal: after.modal, ..self })
                &&& opens_rename(after.modal, identity, agent)
                &&& line is None
            },
            None => {
                &&& after == self
                &&& status::objects(
                    line,
                    match self.focus {
                        AgentFocus::Identities => "no identity selected"@,
                        AgentFocus::Teams => "no identities to rename in "@ + match self.team() {
                            Some(team) => team.name@,
                            None => Seq::empty(),
                        },
                    },
                )
            },
        }
    }

    fn rename_key(&mut self, identity: &Option<String>) -> (line: Option<StatusLine>)
        requires
            old(self).wf(),
        ensures
            old(self).rename_key_post(*identity, *final(self), line),
            final(self).wf(),
    {
        let target = match self.selected_agent_identity() {
            Some(agent) => Some(agent.clone()),
            None => match (self.focus, self.selected_agent_team()) {
                (AgentFocus::Teams, Some(team)) => if team.identities.len() > 0 {
                    Some(team.identities[0].clone())
                } else {
                    None
                },
                _ => None,
            },
        };
        match target {
            Some(agent) => {
                self.open_rename_modal(agent, identity);
                None
            },
            None => {
                let text = match self.focus {
                    AgentFocus::Identities => "no identity selected".to_owned(),
                    AgentFocus::Teams => match self.selected_agent_team() {
                        Some(team) => concat2("no identities to rename in ", team.name.as_str()),
                        None => concat2("no identities to rename in ", ""),
                    },
                };
                proof {
                    reveal_strlit("");
                    assert(""@ =~= Seq::<char>::empty());
                }
                Some(validation_status(text))
            },
        }
    }

    /// What the key for renaming a team does.
    pub open spec fn rename_team_key_post(
        self,
        after: AgentsScreen,
        line: Option<StatusLine>,
    ) -> bool {
        match self.team() {
            Some(team) => {
                &&& after == (AgentsScreen { modal: after.modal, ..self })
                &&& opens_rename_team(after.modal, team.name@)
                &&& line is None
            },
            None => after == self && status::objects(line, "no team selected"@),
        }
    }

    fn rename_team_key(&mut self) -> (line: Option<StatusLine>)
        requires
            old(self).wf(),
        ensures
            old(self).rename_team_key_post(*final(self), line),
            final(self).wf(),
    {
        match self.selected_agent_team() {
            Some(team) => {
                let old = team.name.clone();
                self.modal = Some(
                    AgentModal::RenameTeam { old, input: String::new(), confirming: false },
                );
                None
            },
            None => Some(error_status("no team selected")),
        }
    }

    /// What the key for resetting an identity does: it needs the focus on the identities, and the
    /// dialog for the own identity is blocked.
    pub open spec fn reset_key_post(
        self,
        identity: Option<String>,
        after: AgentsScreen,
        line: Option<StatusLine>,
    ) -> bool {
        if self.focus == AgentFocus::Teams {
            after == self && status::objects(
                line,
                "X: switch to identity focus (Tab) and select a target"@,
            )
        } else {
            match self.identity() {
                Some(agent) => {
                    &&& after == (AgentsScreen { modal: after.modal, ..self })
                    &&& opens_reset(after.modal, identity, agent)
                    &&& if is_own(identity, agent.name@) {
                        status::objects(
                            line,
                            "self-reset refused; use the session-side drop command"@,
                        )
                    } else {
                        line is None
                    }
                },
                None => after == self && line is None,
            }
        }
    }

    fn reset_key(&mut self, identity: &Option<String>) -> (line: Option<StatusLine>)
        requires
            old(self).wf(),
        ensures
            old(self).reset_key_post(*identity, *final(self), line),
            final(self).wf(),
    {
        if self.focus == AgentFocus::Teams {
            return Some(error_status("X: switch to identity focus (Tab) and select a target"));
        }
        match self.selected_agent_identity() {
            Some(agent) => {
                let target = agent.clone();
                let blocked = option_is(identity, target.name.as_str());
                self.modal = Some(AgentModal::Reset { target, confirm: String::new(), blocked });
                if blocked {
                    Some(error_status("self-reset refused; use the session-side drop command"))
                } else {
                    None
                }
            },
            None => None,
        }
    }

    /// The agent that leaves with the focus on the teams: the own identity if it is known and the
    /// team registers it, else the first one of the team.
    pub open spec fn leaving_agent(team: AgentTeamSummary, identity: Option<String>) -> Option<
        Seq<char>,
    > {
        if identity is Some && db::has_identity(team.identities@, identity->Some_0@) {
            Some(identity->Some_0@)
        } else if team.identities@.len() > 0 {
            Some(team.identities@[0].name@)
        } else {
            None
        }
    }

    /// What the key for leaving a team does with the focus on the teams: the dialog opens for the
    /// own identity if the team registers it, else for the first one of the team.
    pub open spec fn leave_team_post(
        self,
        identity: Option<String>,
        after: AgentsScreen,
        line: Option<StatusLine>,
    ) -> bool {
        match self.team() {
            None => after == self && line is None,
            Some(team) => match AgentsScreen::leaving_agent(team, identity) {
                Some(agent) => {
                    &&& after == (AgentsScreen { modal: after.modal, ..self })
                    &&& opens_leave(after.modal, team.name@, agent)
                    &&& line is None
                },
                None => after == self && status::objects(
                    line,
                    team.name@ + " has no identities to leave"@,
                ),
            },
        }
    }

    fn open_leave_modal_from_team_focus(&mut self, identity: &Option<String>) -> (line: Option<
        StatusLine,
    >)
        requires
            old(self).wf(),
        ensures
            old(self).leave_team_post(*identity, *final(self), line),
            final(self).wf(),
    {
        let leaving = match self.selected_agent_team() {
            None => {
                return None;
            },
            Some(team) => {
                let registered = match identity {
                    Some(own) => identity_position(&team.identities, own.as_str()).is_some(),
                    None => false,
                };
                match identity {
                    Some(own) if registered => (team.name.clone(), own.clone()),
                    _ => {
                        if team.identities.len() == 0 {
                            return Some(
                                validation_status(
                                    concat2(team.name.as_str(), " has no identities to leave"),
                                ),
                            );
                        }
                        (team.name.clone(), team.identities[0].name.clone())
                    },
                }
            },
        };
        self.modal = Some(
            AgentModal::Leave { team: leaving.0, agent: leaving.1, confirm: String::new() },
        );
        None
    }

    /// What the key for leaving a team does with the focus on the identities.
    pub open spec fn leave_identity_post(
        self,
        after: AgentsScreen,
        line: Option<StatusLine>,
    ) -> bool {
        match self.team() {
            None => after == self && line is None,
            Some(team) => match self.identity() {
                Some(agent) => {
                    &&& after == (AgentsScreen { modal: after.modal, ..self })
                    &&& opens_leave(after.modal, team.name@, agent.name@)
                    &&& line is None
                },
                None => after == self && status::objects(
                    line,
                    "select an identity row to leave, or focus a team"@,
                ),
            },
        }
    }

    fn open_leave_modal_from_identity_focus(&mut self) -> (line: Option<StatusLine>)
        requires
            old(self).wf(),
        ensures
            old(self).leave_identity_post(*final(self), line),
            final(self).wf(),
    {
        let leaving = match (self.selected_agent_team(), self.selected_agent_identity()) {
            (Some(team), Some(agent)) => (team.name.clone(), agent.name.clone()),
            (Some(_), None) => {
                return Some(error_status("select an identity row to leave, or focus a team"));
            },
            _ => {
                return None;
            },
        };
        self.modal = Some(
            AgentModal::Leave { team: leaving.0, agent: leaving.1, confirm: String::new() },
        );
        None
    }

    /// What the key for shutting an agent down does.
    pub open spec fn despawn_key_post(
        self,
        identity: Option<String>,
        line: Option<StatusLine>,
        request: AgentsRequest,
    ) -> bool {
        if self.focus != AgentFocus::Identities {
            request is Nothing && status::objects(
                line,
                "D: switch to identity focus (Tab) and select a target"@,
            )
        } else {
            match self.identity() {
                None => request is Nothing && status::objects(line, "no identity selected"@),
                Some(agent) => {
                    &&& line is None
                    &&& request matches AgentsRequest::Despawn { team, from, name } && team@
                        == agent.team@ && name@ == agent.name@ && despawn_sender(
                        identity,
                        self.team()->Some_0.identities@,
                        agent.name@,
                        from@,
                    )
                },
            }
        }
    }

    fn despawn_key(&self, identity: &Option<String>) -> (result: (
        Option<StatusLine>,
        AgentsRequest,
    ))
        ensures
            self.despawn_key_post(*identity, result.0, result.1),
    {
        if self.focus != AgentFocus::Identities {
            return (
                Some(error_status("D: switch to identity focus (Tab) and select a target")),
                AgentsRequest::Nothing,
            );
        }
        match (self.selected_agent_team(), self.selected_agent_identity()) {
            (Some(team), Some(agent)) => {
                let from = choose_sender(identity, &team.identities, agent.name.as_str());
                (
                    None,
                    AgentsRequest::Despawn {
                        team: agent.team.clone(),
                        from,
                        name: agent.name.clone(),
                    },
                )
            },
            _ => (Some(error_status("no identity selected")), AgentsRequest::Nothing),
        }
    }

    /// What Enter does.
    pub open spec fn enter_post(
        self,
        after: AgentsScreen,
        line: Option<StatusLine>,
        request: AgentsRequest,
    ) -> bool {
        match self.focus {
            AgentFocus::Teams => {
                &&& after == (AgentsScreen { focus: AgentFocus::Identities, ..self })
                &&& line is None
                &&& request is Nothing
            },
            AgentFocus::Identities => {
                &&& after == self
                &&& match self.identity() {
                    Some(identity) => {
                        &&& line is None
                        &&& request matches AgentsRequest::IdentityInfo { team, agent } && team@
                            == identity.team@ && agent@ == identity.name@
                    },
                    None => status::objects(line, "no identity selected"@) && request is Nothing,
                }
            },
        }
    }

    fn enter_key(&mut self) -> (result: (Option<StatusLine>, AgentsRequest))
        requires
            old(self).wf(),
        ensures
            old(self).enter_post(*final(self), result.0, result.1),
            final(self).wf(),
    {
        match self.focus {
            AgentFocus::Teams => {
                self.focus = AgentFocus::Identities;
                (None, AgentsRequest::Nothing)
            },
            AgentFocus::Identities => match self.selected_agent_identity() {
                Some(identity) => (
                    None,
                    AgentsRequest::IdentityInfo {
                        team: identity.team.clone(),
                        agent: identity.name.clone(),
                    },
                ),
                None => (Some(error_status("no identity selected")), AgentsRequest::Nothing),
            },
        }
    }

    /// The screen with the focus on a list.
    pub open spec fn focused(self, focus: AgentFocus) -> AgentsScreen {
        AgentsScreen { focus, ..self }
    }

    /// What a key does while neither a dialog nor a popup is open.
    pub open spec fn plain_key_post(
        self,
        key: KeyEvent,
        identity: Option<String>,
        after: AgentsScreen,
        line: Option<StatusLine>,
        request: AgentsRequest,
    ) -> bool {
        let quiet = line is None && request is Nothing;
        match key.code {
            KeyCode::Esc | KeyCode::Char('q') | KeyCode::Char('A') => after == self && line is None
                && request is LeaveScreen,
            KeyCode::Tab => quiet && after == self.focused(
                match self.focus {
                    AgentFocus::Teams => AgentFocus::Identities,
                    AgentFocus::Identities => AgentFocus::Teams,
                },
            ),
            KeyCode::Char('t') => quiet && after == self.focused(AgentFocus::Teams),
            KeyCode::Enter => self.enter_post(after, line, request),
            KeyCode::Char('j') | KeyCode::Down => quiet && after == self.moved(true),
            KeyCode::Char('k') | KeyCode::Up => quiet && after == self.moved(false),
            KeyCode::Char('g') => quiet && after == self.moved_to_edge(false),
            KeyCode::Char('G') => quiet && after == self.moved_to_edge(true),
            KeyCode::Char('r') => after == self && line is None && request is Reload,
            KeyCode::Char('n') => quiet && after == (AgentsScreen { modal: after.modal, ..self })
                && opens_spawn(after.modal, self.team_index),
            KeyCode::Char('R') => self.rename_key_post(identity, after, line) && request is Nothing,
            KeyCode::Char('T') => self.rename_team_key_post(after, line) && request is Nothing,
            KeyCode::Char('X') | KeyCode::Delete => self.reset_key_post(identity, after, line)
                && request is Nothing,
            KeyCode::Char('D') => after == self && self.despawn_key_post(identity, line, request),
            KeyCode::Char('L') => request is Nothing && match self.focus {
                AgentFocus::Teams => self.leave_team_post(identity, after, line),
                AgentFocus::Identities => self.leave_identity_post(after, line),
            },
            KeyCode::Char('?') => after == self && line is None && request is Help,
            _ => quiet && after == self,
        }
    }

    #[verifier::rlimit(30)]
    fn plain_key(&mut self, key: KeyEvent, identity: &Option<String>) -> (result: (
        Option<StatusLine>,
        AgentsRequest,
    ))
        requires
            old(self).wf(),
        ensures
            old(self).plain_key_post(key, *identity, *final(self), result.0, result.1),
            final(self).wf(),
    {
        match key.code {
            KeyCode::Esc | KeyCode::Char('q') | KeyCode::Char('A') => {
                (None, AgentsRequest::LeaveScreen)
            },
            KeyCode::Tab => {
                self.focus = match self.focus {
                    AgentFocus::Teams => AgentFocus::Identities,
                    AgentFocus::Identities => AgentFocus::Teams,
                };
                (None, AgentsRequest::Nothing)
            },
            KeyCode::Char('t') => {
                self.focus = AgentFocus::Teams;
                (None, AgentsRequest::Nothing)
            },
            KeyCode::Enter => self.enter_key(),
            KeyCode::Char('j') | KeyCode::Down => {
                self.move_agent_cursor(true);
                (None, AgentsRequest::Nothing)
            },
            KeyCode::Char('k') | KeyCode::Up => {
                self.move_agent_cursor(false);
                (None, AgentsRequest::Nothing)
            },
            KeyCode::Char('g') => {
                self.move_agent_edge(false);
                (None, AgentsRequest::Nothing)
            },
            KeyCode::Char('G') => {
                self.move_agent_edge(true);
                (None, AgentsRequest::Nothing)
            },
            KeyCode::Char('r') => (None, AgentsRequest::Reload),
            KeyCode::Char('n') => {
                let index = self.team_index;
                self.open_spawn_modal(index);
                (None, AgentsRequest::Nothing)
            },
            KeyCode::Char('R') => (self.rename_key(identity), AgentsRequest::Nothing),
            KeyCode::Char('T') => (self.rename_team_key(), AgentsRequest::Nothing),
            KeyCode::Char('X') | KeyCode::Delete => {
                (self.reset_key(identity), AgentsRequest::Nothing)
            },
            KeyCode::Char('D') => self.despawn_key(identity),
            KeyCode::Char('L') => match self.focus {
                AgentFocus::Teams => {
                    (self.open_leave_modal_from_team_focus(identity), AgentsRequest::Nothing)
                },
                AgentFocus::Identities => {
                    (self.open_leave_modal_from_identity_focus(), AgentsRequest::Nothing)
                },
            },
            KeyCode::Char('?') => (None, AgentsRequest::Help),
            _ => (None, AgentsRequest::Nothing),
        }
    }

    /// What a key does to the dialog that is open.
    pub open spec fn modal_key_post(
        self,
        modal: AgentModal,
        key: KeyEvent,
        after: AgentsScreen,
        line: Option<StatusLine>,
        request: AgentsRequest,
    ) -> bool {
        &&& after == (AgentsScreen { modal: after.modal, ..self })
        &&& request is Nothing || request is Run || request is JoinHere
        &&& agent_dialog::agent_dialog_post(
            self.cli_family@,
            modal,
            key,
            self.teams@,
            AgentDialogStep { modal: after.modal, status: line, choice: choice_of(request) },
        )
    }

    /// What a key does: a dialog that is open takes it, else a popup, else the screen.
    pub open spec fn key_post(
        self,
        key: KeyEvent,
        identity: Option<String>,
        after: AgentsScreen,
        line: Option<StatusLine>,
        request: AgentsRequest,
    ) -> bool {
        match self.modal {
            Some(modal) => self.modal_key_post(modal, key, after, line, request),
            None => if self.identity_info is Some {
                &&& line is None
                &&& request is Nothing
                &&& after == if key.code == KeyCode::Esc || key.code == KeyCode::Enter || key.code
                    == KeyCode::Char('q') {
                    AgentsScreen { identity_info: None, ..self }
                } else {
                    self
                }
            } else {
                self.plain_key_post(key, identity, after, line, request)
            },
        }
    }

    /// Applies a key to the screen.
    pub fn key(&mut self, key: KeyEvent, identity: &Option<String>) -> (result: (
        Option<StatusLine>,
        AgentsRequest,
    ))
        requires
            old(self).wf(),
        ensures
            old(self).key_post(key, *identity, *final(self), result.0, result.1),
            final(self).wf(),
    {
        match self.modal.take() {
            Some(modal) => {
                let step = agent_dialog_key(self.cli_family.as_str(), modal, key, &self.teams);
                self.modal = step.modal;
                let request = match step.choice {
                    AgentChoice::Nothing => AgentsRequest::Nothing,
                    AgentChoice::Run(operation) => AgentsRequest::Run(operation),
                    AgentChoice::JoinHere { team, agent, agent_type } => AgentsRequest::JoinHere {
                        team,
                        agent,
                        agent_type,
                    },
                };
                (step.status, request)
            },
            None => {
                if self.identity_info.is_some() {
                    if key.code == KeyCode::Esc || key.code == KeyCode::Enter || key.code
                        == KeyCode::Char('q') {
                        self.identity_info = None;
                    }
                    return (None, AgentsRequest::Nothing);
                }
                self.plain_key(key, identity)
            },
        }
    }

    /// What opening the spawn dialog for a team of the main screen does.
    pub open spec fn spawn_from_members_post(
        self,
        team: Option<String>,
        after: AgentsScreen,
    ) -> bool {
        &&& after == (AgentsScreen {
            focus: AgentFocus::Teams,
            team_index: after.team_index,
            modal: after.modal,
            ..self
        })
        &&& if team matches Some(name) && db::has_team(self.teams@, name@) {
            db::first_team(self.teams@, team->Some_0@, after.team_index as int)
        } else {
            after.team_index == self.team_index
        }
        &&& opens_spawn(after.modal, after.team_index)
    }

    /// Opens the spawn dialog on the team of the main screen.
    pub fn open_spawn_from_members(&mut self, team: &Option<String>)
        ensures
            old(self).spawn_from_members_post(*team, *final(self)),
            final(self).wf(),
    {
        self.focus = AgentFocus::Teams;
        if let Some(name) = team {
            if let Some(index) = team_position(&self.teams, name.as_str()) {
                assert(self.teams@[index as int].name@ == name@);
                self.team_index = index;
            }
        }
        let index = self.team_index;
        self.open_spawn_modal(index);
    }

    /// What opening the rename dialog for a member of the main screen does.
    pub open spec fn rename_from_members_post(
        self,
        identity: Option<String>,
        team: Option<String>,
        member: Seq<char>,
        after: AgentsScreen,
        line: Option<StatusLine>,
    ) -> bool {
        match team {
            None => after == self && line is None,
            Some(name) => if !db::has_team(self.teams@, name@) {
                after == self && status::objects(line, "team情報が見つかりません"@)
            } else {
                let index = after.team_index as int;
                let identities = self.teams@[index].identities@;
                &&& db::first_team(self.teams@, name@, index)
                &&& if db::has_identity(identities, member) {
                    &&& after == (AgentsScreen {
                        team_index: after.team_index,
                        focus: AgentFocus::Identities,
                        identity_index: after.identity_index,
                        modal: after.modal,
                        ..self
                    })
                    &&& db::first_identity(identities, member, after.identity_index as int)
                    &&& opens_rename(
                        after.modal,
                        identity,
                        identities[after.identity_index as int],
                    )
                    &&& line is None
                } else {
                    &&& after == (AgentsScreen {
                        team_index: after.team_index,
                        focus: AgentFocus::Identities,
                        ..self
                    })
                    &&& status::objects(line, member + " はagent identityとして未登録です"@)
                }
            },
        }
    }

    /// Opens the rename dialog for a member of the main screen.
    pub fn open_rename_from_members(
        &mut self,
        identity: &Option<String>,
        team: &Option<String>,
        member: &str,
    ) -> (line: Option<StatusLine>)
        requires
            old(self).wf(),
        ensures
            old(self).rename_from_members_post(*identity, *team, member@, *final(self), line),
            final(self).wf(),
    {
        let name = match team {
            Some(name) => name,
            None => {
                return None;
            },
        };
        let index: usize = match team_position(&self.teams, name.as_str()) {
            Some(index) => index,
            None => {
                return Some(error_status("team情報が見つかりません"));
            },
        };
        assert(self.teams@[index as int].name@ == name@);
        self.team_index = index;
        self.focus = AgentFocus::Identities;
        match identity_position(&self.teams[index].identities, member) {
            None => Some(
                validation_status(concat2(member, " はagent identityとして未登録です")),
            ),
            Some(place) => {
                assert(self.teams@[index as int].identities@[place as int].name@ == member@);
                self.identity_index = place;
                let target = self.teams[index].identities[place].clone();
                self.open_rename_modal(target, identity);
                None
            },
        }
    }

    /// What learning who holds the lock on the selected identity does.
    pub open spec fn identity_info_post(self, lock: LockStatus, after: AgentsScreen) -> bool {
        match self.identity() {
            Some(identity) => {
                &&& after == (AgentsScreen { identity_info: after.identity_info, ..self })
                &&& after.identity_info matches Some(text) && text@ == identity_text(
                    identity,
                    lock,
                )
            },
            None => after == self,
        }
    }

    /// Shows what is known about the selected identity.
    pub fn show_identity_info(&mut self, lock: &LockStatus)
        ensures
            old(self).identity_info_post(*lock, *final(self)),
            old(self).wf() ==> final(self).wf(),
    {
        let text = match self.selected_agent_identity() {
            Some(identity) => describe_identity(identity, lock),
            None => {
                return ;
            },
        };
        self.identity_info = Some(text);
    }
}

/// The dialog that resets the own identity is always blocked, so that it can only be closed.
pub proof fn own_identity_cannot_be_reset(
    before: AgentsScreen,
    identity: Option<String>,
    after: AgentsScreen,
    line: Option<StatusLine>,
)
    requires
        before.reset_key_post(identity, after, line),
        before.focus == AgentFocus::Identities,
        before.identity() matches Some(agent) && is_own(identity, agent.name@),
    ensures
        after.modal matches Some(AgentModal::Reset { blocked, .. }) && blocked,
        status::objects(line, "self-reset refused; use the session-side drop command"@),
{
}

/// Taking the same lists again leaves the cursors where they are, if they were on something and
/// no team and no registration is listed twice.
pub proof fn reload_keeps_the_cursors(before: AgentsScreen, after: AgentsScreen)
    requires
        before.reload_post(before.teams, after),
        before.identity() is Some,
        forall|i: int, j: int|
            0 <= i < j < before.teams@.len() ==> (#[trigger] before.teams@[i]).name@ != (
            #[trigger] before.teams@[j]).name@,
        forall|i: int, j: int|
            0 <= i < j < before.identity_count() ==> !same_registration(
                #[trigger] before.team()->Some_0.identities@[i],
                #[trigger] before.team()->Some_0.identities@[j],
            ),
    ensures
        after == before,
{
    let team = before.team()->Some_0;
    assert(before.teams@[before.team_index as int].name@ == team.name@);
    assert(db::has_team(before.teams@, team.name@));
    if after.team_index < before.team_index {
        assert(before.teams@[after.team_index as int].name@ == before.teams@[before.team_index as int].name@);
    }
    assert(after.team_index == before.team_index);
    let identities = team.identities@;
    assert(same_registration(
        identities[before.identity_index as int],
        before.identity()->Some_0,
    ));
    assert(has_registration(identities, before.identity()->Some_0));
    assert(after.identity_index == before.identity_index);
}

} // verus!

//! The registrations of agents that the health of the teams goes by.

use crate::json;
use crate::json::{field, items, keys, read_string};
use crate::search;
use crate::strings;
use vstd::prelude::*;

verus! {

/// One registration of an agent in a team.
#[derive(Debug, PartialEq, Eq)]
pub struct Registration {
    pub team: String,
    pub agent: String,
    pub agent_type: String,
    pub project: String,
}

/// What a registration says.
#[verifier::ext_equal]
pub struct RegistrationView {
    pub team: Seq<char>,
    pub agent: Seq<char>,
    pub agent_type: Seq<char>,
    pub project: Seq<char>,
}

impl View for Registration {
    type V = RegistrationView;

    open spec fn view(&self) -> RegistrationView {
        RegistrationView {
            team: self.team@,
            agent: self.agent@,
            agent_type: self.agent_type@,
            project: self.project@,
        }
    }
}

/// What some registrations say.
pub open spec fn registration_views(registrations: Seq<Registration>) -> Seq<RegistrationView> {
    Seq::new(registrations.len(), |i: int| registrations[i]@)
}

/// A team and its configuration, if it can be read.
#[derive(Debug, PartialEq, Eq)]
pub struct TeamConfig {
    pub team: String,
    pub config: Option<String>,
}

/// The registration that the type and the project of an item make; an item that lacks one of them
/// is passed over.
pub open spec fn item_registration(
    team: Seq<char>,
    agent: Seq<char>,
    agent_type: Option<Seq<char>>,
    project: Option<Seq<char>>,
) -> Option<RegistrationView> {
    match (agent_type, project) {
        (Some(agent_type), Some(project)) => Some(
            RegistrationView { team, agent, agent_type, project },
        ),
        _ => None,
    }
}

/// Makes a registration of the type and the project of an item.
pub fn make_registration(
    team: &str,
    agent: &str,
    agent_type: Option<String>,
    project: Option<String>,
) -> (registration: Option<Registration>)
    ensures
        match registration {
            Some(registration) => item_registration(
                team@,
                agent@,
                strings::held(agent_type),
                strings::held(project),
            ) == Some(registration@),
            None => item_registration(
                team@,
                agent@,
                strings::held(agent_type),
                strings::held(project),
            ) is None,
        },
{
    match (agent_type, project) {
        (Some(agent_type), Some(project)) => Some(
            Registration {
                team: team.to_owned(),
                agent: agent.to_owned(),
                agent_type,
                project,
            },
        ),
        _ => None,
    }
}

/// The registrations of some items.
pub open spec fn item_registrations(
    team: Seq<char>,
    agent: Seq<char>,
    list: Seq<Seq<char>>,
) -> Seq<RegistrationView>
    decreases list.len(),
{
    if list.len() == 0 {
        Seq::empty()
    } else {
        let before = item_registrations(team, agent, list.drop_last());
        match item_registration(
            team,
            agent,
            json::string_field(list.last(), "type"@),
            json::string_field(list.last(), "project"@),
        ) {
            Some(registration) => before.push(registration),
            None => before,
        }
    }
}

/// The registrations of an agent of the JSON object `agents`.
pub open spec fn agent_registrations(
    team: Seq<char>,
    agents: Seq<char>,
    agent: Seq<char>,
) -> Seq<RegistrationView> {
    match json::field_text(agents, agent) {
        Some(entry) => match json::field_text(entry, "registrations"@) {
            Some(list) => match json::item_texts(list) {
                Some(list) => item_registrations(team, agent, list),
                None => Seq::empty(),
            },
            None => Seq::empty(),
        },
        None => Seq::empty(),
    }
}

/// The registrations of some agents of the JSON object `agents`.
pub open spec fn agents_registrations(
    team: Seq<char>,
    agents: Seq<char>,
    names: Seq<Seq<char>>,
) -> Seq<RegistrationView>
    decreases names.len(),
{
    if names.len() == 0 {
        Seq::empty()
    } else {
        agents_registrations(team, agents, names.drop_last()) + agent_registrations(
            team,
            agents,
            names.last(),
        )
    }
}

/// The registrations of a team; a configuration that cannot be used registers nobody.
pub open spec fn team_registrations(team: Seq<char>, config: Option<Seq<char>>) -> Seq<
    RegistrationView,
> {
    match config {
        Some(text) => match json::field_text(text, "agents"@) {
            Some(agents) => match json::key_texts(agents) {
                Some(names) => agents_registrations(team, agents, names),
                None => Seq::empty(),
            },
            None => Seq::empty(),
        },
        None => Seq::empty(),
    }
}

/// The registrations of some teams.
pub open spec fn all_registrations(teams: Seq<TeamConfig>) -> Seq<RegistrationView>
    decreases teams.len(),
{
    if teams.len() == 0 {
        Seq::empty()
    } else {
        all_registrations(teams.drop_last()) + team_registrations(
            teams.last().team@,
            strings::held(teams.last().config),
        )
    }
}

fn push_items(
    registrations: &mut Vec<Registration>,
    team: &str,
    agent: &str,
    list: &Vec<String>,
)
    ensures
        registration_views(final(registrations)@) == registration_views(old(registrations)@)
            + item_registrations(team@, agent@, search::texts(list@)),
{
    let ghost texts = search::texts(list@);
    let ghost before = registration_views(registrations@);
    let mut index: usize = 0;
    proof {
        assert(texts.take(0) =~= Seq::empty());
        assert(before + item_registrations(team@, agent@, texts.take(0)) =~= before);
    }
    while index < list.len()
        invariant
            index <= list@.len(),
            texts == search::texts(list@),
            registration_views(registrations@) == before + item_registrations(
                team@,
                agent@,
                texts.take(index as int),
            ),
        decreases list@.len() - index,
    {
        let item = list[index].as_str();
        proof {
            assert(texts.take(index + 1).drop_last() =~= texts.take(index as int));
            assert(texts.take(index + 1).last() == item@);
        }
        let ghost sofar = registrations@;
        match make_registration(
            team,
            agent,
            read_string(item, "type"),
            read_string(item, "project"),
        ) {
            Some(registration) => {
                registrations.push(registration);
                proof {
                    assert(registration_views(registrations@) =~= registration_views(sofar).push(
                        registration@,
                    ));
                    assert(registration_views(registrations@) =~= before + item_registrations(
                        team@,
                        agent@,
                        texts.take(index + 1),
                    ));
                }
            },
            None => {},
        }
        index += 1;
    }
    proof {
        assert(texts.take(index as int) =~= texts);
    }
}

fn push_agent(registrations: &mut Vec<Registration>, team: &str, agents: &str, agent: &str)
    ensures
        registration_views(final(registrations)@) == registration_views(old(registrations)@)
            + agent_registrations(team@, agents@, agent@),
{
    proof {
        let views = registration_views(registrations@);
        assert(views + Seq::<RegistrationView>::empty() =~= views);
    }
    if let Some(entry) = field(agents, agent) {
        if let Some(list) = field(entry.as_str(), "registrations") {
            if let Some(list) = items(list.as_str()) {
                push_items(registrations, team, agent, &list);
            }
        }
    }
}

fn push_team(registrations: &mut Vec<Registration>, team: &TeamConfig)
    ensures
        registration_views(final(registrations)@) == registration_views(old(registrations)@)
            + team_registrations(team.team@, strings::held(team.config)),
{
    let ghost before = registration_views(registrations@);
    proof {
        assert(before + Seq::<RegistrationView>::empty() =~= before);
    }
    let config = match &team.config {
        Some(config) => config,
        None => {
            return ;
        },
    };
    let agents = match field(config.as_str(), "agents") {
        Some(agents) => agents,
        None => {
            return ;
        },
    };
    let names = match keys(agents.as_str()) {
        Some(names) => names,
        None => {
            return ;
        },
    };
    let ghost texts = search::texts(names@);
    let mut index: usize = 0;
    proof {
        assert(texts.take(0) =~= Seq::empty());
    }
    while index < names.len()
        invariant
            index <= names@.len(),
            texts == search::texts(names@),
            registration_views(registrations@) == before + agents_registrations(
                team.team@,
                agents@,
                texts.take(index as int),
            ),
        decreases names@.len() - index,
    {
        let name = names[index].as_str();
        proof {
            assert(texts.take(index + 1).drop_last() =~= texts.take(index as int));
            assert(texts.take(index + 1).last() == name@);
            assert((before + agents_registrations(
                team.team@,
                agents@,
                texts.take(index as int),
            )) + agent_registrations(team.team@, agents@, name@) =~= before + (
            agents_registrations(team.team@, agents@, texts.take(index as int))
                + agent_registrations(team.team@, agents@, name@)));
        }
        push_agent(registrations, team.team.as_str(), agents.as_str(), name);
        index += 1;
    }
    proof {
        assert(texts.take(index as int) =~= texts);
    }
}

/// Reads the registrations of all teams out of their configurations.
pub fn load_registrations(teams: &Vec<TeamConfig>) -> (registrations: Vec<Registration>)
    ensures
        registration_views(registrations@) == all_registrations(teams@),
{
    let mut registrations: Vec<Registration> = Vec::new();
    let mut index: usize = 0;
    proof {
        assert(teams@.take(0) =~= Seq::empty());
        assert(registration_views(registrations@) =~= Seq::empty());
    }
    while index < teams.len()
        invariant
            index <= teams@.len(),
            registration_views(registrations@) == all_registrations(teams@.take(index as int)),
        decreases teams@.len() - index,
    {
        proof {
            assert(teams@.take(index + 1).drop_last() =~= teams@.take(index as int));
        }
        push_team(&mut registrations, &teams[index]);
        index += 1;
    }
    proof {
        assert(teams@.take(index as int) =~= teams@);
    }
    registrations
}

} // verus!

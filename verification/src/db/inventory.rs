//! The agents that the teams' configurations register.

use crate::db::traffic;
use crate::db::traffic::row_count;
use crate::db::{clone_option, AgentIdentitySummary, AgentRegistration, AgentTeamSummary, Database};
use crate::json;
use crate::json::{field, items, keys, parses, read_string};
use crate::order;
use crate::order::{compare_text, insert_sorted, Order};
use crate::search;
use crate::sorting;
use crate::sorting::{sort, Ranked};
use crate::strings;
use crate::strings::concat2;
use vstd::prelude::*;

verus! {

/// What a registration says of the agent's CLI type and project.
#[derive(Debug, PartialEq, Eq)]
pub struct RegistrationFields {
    pub agent_type: Option<String>,
    pub project: Option<String>,
}

/// A CLI type and a project.
pub ghost struct RegistrationView {
    pub agent_type: Seq<char>,
    pub project: Seq<char>,
}

/// A text, or a dash where there is none.
pub open spec fn or_dash(text: Option<Seq<char>>) -> Seq<char> {
    match text {
        Some(text) => text,
        None => "-"@,
    }
}

/// The registration that some fields stand for.
pub open spec fn registration_of(
    agent_type: Option<Seq<char>>,
    project: Option<Seq<char>>,
) -> RegistrationView {
    RegistrationView { agent_type: or_dash(agent_type), project: or_dash(project) }
}

/// A registration's type and project.
pub open spec fn shown(registration: AgentRegistration) -> RegistrationView {
    RegistrationView { agent_type: registration.agent_type@, project: registration.project@ }
}

fn text_or_dash(text: &Option<String>) -> (result: String)
    ensures
        result@ == or_dash(strings::held(*text)),
{
    match text {
        Some(text) => text.clone(),
        None => "-".to_owned(),
    }
}

/// Makes a registration of its fields.
pub fn make_registration(fields: &RegistrationFields) -> (registration: AgentRegistration)
    ensures
        shown(registration) == registration_of(
            strings::held(fields.agent_type),
            strings::held(fields.project),
        ),
{
    AgentRegistration {
        agent_type: text_or_dash(&fields.agent_type),
        project: text_or_dash(&fields.project),
    }
}

/// The registration that a JSON object stands for.
pub open spec fn object_registration(text: Seq<char>) -> RegistrationView {
    registration_of(json::string_field(text, "type"@), json::string_field(text, "project"@))
}

fn read_fields(text: &str) -> (fields: RegistrationFields)
    ensures
        strings::held(fields.agent_type) == json::string_field(text@, "type"@),
        strings::held(fields.project) == json::string_field(text@, "project"@),
{
    RegistrationFields {
        agent_type: read_string(text, "type"),
        project: read_string(text, "project"),
    }
}

/// The field of a field of a JSON object.
pub open spec fn inner_field(text: Option<Seq<char>>, name: Seq<char>) -> Option<Seq<char>> {
    match text {
        Some(text) => json::field_text(text, name),
        None => None,
    }
}

/// The items of a JSON array that may be missing.
pub open spec fn inner_items(text: Option<Seq<char>>) -> Seq<Seq<char>> {
    match text {
        Some(text) => match json::item_texts(text) {
            Some(items) => items,
            None => Seq::empty(),
        },
        None => Seq::empty(),
    }
}

/// The registrations that a configuration lists for an agent.
pub open spec fn listed_registrations(config: Seq<char>, agent: Seq<char>) -> Seq<Seq<char>> {
    inner_items(
        inner_field(inner_field(json::field_text(config, "agents"@), agent), "registrations"@),
    )
}

fn read_items(entry: &Option<String>) -> (values: Vec<String>)
    ensures
        search::texts(values@) == inner_items(inner_field(strings::held(*entry), "registrations"@)),
{
    let none: Vec<String> = Vec::new();
    proof {
        assert(search::texts(none@) =~= Seq::empty());
    }
    match entry {
        Some(entry) => match field(entry.as_str(), "registrations") {
            Some(list) => match items(list.as_str()) {
                Some(values) => values,
                None => none,
            },
            None => none,
        },
        None => none,
    }
}

impl Database {
    /// Reads the first registration of an agent out of a team's configuration; a team without a
    /// configuration registers nobody.
    pub fn agent_registration(config: &Option<String>, path: &str, agent: &str) -> (result: Result<
        Option<AgentRegistration>,
        String,
    >)
        ensures
            match *config {
                None => result matches Ok(registration) && registration is None,
                Some(text) => if !json::is_json(text@) {
                    result matches Err(error) && error@ == "roster JSONが不正です: "@ + path@
                } else {
                    let listed = listed_registrations(text@, agent@);
                    result matches Ok(registration) && match registration {
                        Some(registration) => listed.len() > 0 && shown(registration)
                            == object_registration(listed[0]),
                        None => listed.len() == 0,
                    }
                },
            },
    {
        let text = match config {
            Some(text) => text,
            None => {
                return Ok(None);
            },
        };
        if !parses(text.as_str()) {
            return Err(concat2("roster JSONが不正です: ", path));
        }
        let entry = match field(text.as_str(), "agents") {
            Some(agents) => field(agents.as_str(), agent),
            None => None,
        };
        let listed = read_items(&entry);
        assert(search::texts(listed@) == listed_registrations(text@, agent@));
        if listed.len() == 0 {
            return Ok(None);
        }
        assert(listed_registrations(text@, agent@)[0] == listed@[0]@);
        Ok(Some(make_registration(&read_fields(listed[0].as_str()))))
    }
}

/// What some fields say, one after the other.
pub open spec fn field_views(fields: Seq<RegistrationFields>) -> Seq<RegistrationView> {
    Seq::new(
        fields.len(),
        |i: int| registration_of(strings::held(fields[i].agent_type), strings::held(fields[i].project)),
    )
}

/// The registrations of an agent: those that are listed; if none is, what the agent itself says, if
/// it says anything; else one that says nothing.
pub open spec fn effective(
    listed: Seq<RegistrationView>,
    says_something: bool,
    own: RegistrationView,
) -> Seq<RegistrationView> {
    if listed.len() > 0 {
        listed
    } else if says_something {
        seq![own]
    } else {
        seq![RegistrationView { agent_type: "-"@, project: "-"@ }]
    }
}

/// The types and projects of some registrations.
pub open spec fn shown_all(registrations: Seq<AgentRegistration>) -> Seq<RegistrationView> {
    Seq::new(registrations.len(), |i: int| shown(registrations[i]))
}

/// Chooses the registrations of an agent.
pub fn effective_registrations(
    listed: &Vec<RegistrationFields>,
    says_something: bool,
    own: &RegistrationFields,
) -> (registrations: Vec<AgentRegistration>)
    ensures
        shown_all(registrations@) == effective(
            field_views(listed@),
            says_something,
            registration_of(strings::held(own.agent_type), strings::held(own.project)),
        ),
{
    let mut registrations: Vec<AgentRegistration> = Vec::new();
    let mut index: usize = 0;
    while index < listed.len()
        invariant
            index <= listed@.len(),
            registrations@.len() == index,
            forall|i: int|
                0 <= i < index ==> shown(#[trigger] registrations@[i]) == field_views(listed@)[i],
        decreases listed@.len() - index,
    {
        registrations.push(make_registration(&listed[index]));
        index += 1;
    }
    if registrations.len() == 0 {
        if says_something {
            registrations.push(make_registration(own));
        } else {
            registrations.push(
                AgentRegistration { agent_type: "-".to_owned(), project: "-".to_owned() },
            );
        }
    }
    proof {
        assert(shown_all(registrations@) =~= effective(
            field_views(listed@),
            says_something,
            registration_of(strings::held(own.agent_type), strings::held(own.project)),
        ));
    }
    registrations
}

/// The registrations that an agent's entry in a configuration stands for.
pub open spec fn entry_registrations(entry: Option<Seq<char>>) -> Seq<RegistrationView> {
    let list = inner_items(inner_field(entry, "registrations"@));
    effective(
        Seq::new(list.len(), |i: int| object_registration(list[i])),
        inner_field(entry, "type"@) is Some || inner_field(entry, "project"@) is Some,
        match entry {
            Some(text) => object_registration(text),
            None => registration_of(None, None),
        },
    )
}

fn read_registrations(entry: &Option<String>) -> (registrations: Vec<AgentRegistration>)
    ensures
        shown_all(registrations@) == entry_registrations(strings::held(*entry)),
{
    let list = read_items(entry);
    let ghost texts = inner_items(inner_field(strings::held(*entry), "registrations"@));
    let mut listed: Vec<RegistrationFields> = Vec::new();
    let mut index: usize = 0;
    while index < list.len()
        invariant
            index <= list@.len(),
            search::texts(list@) == texts,
            listed@.len() == index,
            forall|i: int|
                0 <= i < index ==> #[trigger] field_views(listed@)[i] == object_registration(
                    texts[i],
                ),
        decreases list@.len() - index,
    {
        let ghost before = listed@;
        listed.push(read_fields(list[index].as_str()));
        proof {
            assert(texts[index as int] == list@[index as int]@);
            assert forall|i: int| 0 <= i < index + 1 implies #[trigger] field_views(listed@)[i]
                == object_registration(texts[i]) by {
                if i < index {
                    assert(field_views(listed@)[i] == field_views(before)[i]);
                }
            }
        }
        index += 1;
    }
    proof {
        assert(field_views(listed@) =~= Seq::new(
            texts.len(),
            |i: int| object_registration(texts[i]),
        ));
    }
    match entry {
        Some(text) => {
            let says_something = field(text.as_str(), "type").is_some() || field(
                text.as_str(),
                "project",
            ).is_some();
            effective_registrations(&listed, says_something, &read_fields(text.as_str()))
        },
        None => {
            effective_registrations(
                &listed,
                false,
                &RegistrationFields { agent_type: None, project: None },
            )
        },
    }
}

/// An agent of a configuration, with its registrations.
#[derive(Debug, PartialEq, Eq)]
pub struct ConfiguredAgent {
    pub name: String,
    pub registrations: Vec<AgentRegistration>,
}

/// One of the agents has the name.
pub open spec fn has_agent(agents: Seq<ConfiguredAgent>, name: Seq<char>) -> bool {
    exists|i: int| 0 <= i < agents.len() && (#[trigger] agents[i]).name@ == name
}

/// The agents are those of the JSON object `agents`, in the order of their names, each with its
/// registrations.
pub open spec fn agents_of(object: Seq<char>, agents: Seq<ConfiguredAgent>) -> bool {
    &&& json::key_texts(object) is Some
    &&& forall|i: int, j: int|
        0 <= i < j < agents.len() ==> order::text_less(
            (#[trigger] agents[i]).name@,
            (#[trigger] agents[j]).name@,
        )
    &&& forall|i: int|
        0 <= i < agents.len() ==> json::key_texts(object)->Some_0.contains(
            (#[trigger] agents[i]).name@,
        )
    &&& forall|k: int|
        0 <= k < json::key_texts(object)->Some_0.len() ==> #[trigger] has_agent(
            agents,
            json::key_texts(object)->Some_0[k],
        )
    &&& forall|i: int|
        0 <= i < agents.len() ==> shown_all((#[trigger] agents[i]).registrations@)
            == entry_registrations(json::field_text(object, agents[i].name@))
}

/// What is wrong with a configuration that cannot be used.
pub open spec fn config_fault(config: Option<Seq<char>>, path: Seq<char>) -> Option<Seq<char>> {
    match config {
        None => Some("configを読めません: "@ + path),
        Some(text) => if !json::is_json(text) {
            Some("config JSONが不正です: "@ + path)
        } else if (match json::field_text(text, "agents"@) {
            Some(object) => json::key_texts(object) is None,
            None => true,
        }) {
            Some("config.json: agents object is missing"@)
        } else {
            None
        },
    }
}

fn sorted_names(names: &Vec<String>) -> (sorted: Vec<String>)
    ensures
        order::strictly_sorted(sorted@),
        forall|name: Seq<char>| #[trigger]
            search::lists(sorted@, name) <==> search::lists(names@, name),
{
    let mut sorted: Vec<String> = Vec::new();
    let mut index: usize = 0;
    while index < names.len()
        invariant
            index <= names@.len(),
            order::strictly_sorted(sorted@),
            forall|name: Seq<char>| #[trigger]
                search::lists(sorted@, name) ==> search::lists(names@, name),
            forall|i: int| 0 <= i < index ==> search::lists(sorted@, #[trigger] names@[i]@),
        decreases names@.len() - index,
    {
        let ghost before = sorted@;
        insert_sorted(&mut sorted, names[index].clone());
        proof {
            assert(search::lists(names@, names@[index as int]@));
            assert forall|i: int| 0 <= i < index implies search::lists(
                sorted@,
                #[trigger] names@[i]@,
            ) by {
                assert(search::lists(before, names@[i]@));
            }
        }
        index += 1;
    }
    sorted
}

/// Reads the agents of a team's configuration, or says what is wrong with it.
pub fn read_config(config: &Option<String>, path: &str) -> (result: Result<
    Vec<ConfiguredAgent>,
    String,
>)
    ensures
        match result {
            Ok(agents) => {
                &&& config_fault(strings::held(*config), path@) is None
                &&& agents_of(
                    json::field_text(config->Some_0@, "agents"@)->Some_0,
                    agents@,
                )
            },
            Err(error) => config_fault(strings::held(*config), path@) == Some(error@),
        },
{
    let text = match config {
        Some(text) => text,
        None => {
            return Err(concat2("configを読めません: ", path));
        },
    };
    if !parses(text.as_str()) {
        return Err(concat2("config JSONが不正です: ", path));
    }
    let object = match field(text.as_str(), "agents") {
        Some(object) => object,
        None => {
            return Err("config.json: agents object is missing".to_owned());
        },
    };
    let names = match keys(object.as_str()) {
        Some(names) => names,
        None => {
            return Err("config.json: agents object is missing".to_owned());
        },
    };
    let sorted = sorted_names(&names);
    let ghost listed = search::texts(names@);
    let mut agents: Vec<ConfiguredAgent> = Vec::new();
    let mut index: usize = 0;
    while index < sorted.len()
        invariant
            index <= sorted@.len(),
            agents@.len() == index,
            forall|i: int| 0 <= i < index ==> (#[trigger] agents@[i]).name@ == sorted@[i]@,
            forall|i: int|
                0 <= i < index ==> shown_all((#[trigger] agents@[i]).registrations@)
                    == entry_registrations(json::field_text(object@, agents@[i].name@)),
        decreases sorted@.len() - index,
    {
        let entry = field(object.as_str(), sorted[index].as_str());
        let registrations = read_registrations(&entry);
        agents.push(ConfiguredAgent { name: sorted[index].clone(), registrations });
        index += 1;
    }
    proof {
        assert forall|i: int, j: int| 0 <= i < j < agents@.len() implies order::text_less(
            (#[trigger] agents@[i]).name@,
            (#[trigger] agents@[j]).name@,
        ) by {
            assert(order::text_less(sorted@[i]@, sorted@[j]@));
        }
        assert forall|i: int| 0 <= i < agents@.len() implies listed.contains(
            (#[trigger] agents@[i]).name@,
        ) by {
            assert(search::lists(sorted@, sorted@[i]@));
            let k = choose|k: int| 0 <= k < names@.len() && #[trigger] names@[k]@ == sorted@[i]@;
            assert(listed[k] == agents@[i].name@);
        }
        assert forall|k: int| 0 <= k < listed.len() implies #[trigger] has_agent(
            agents@,
            listed[k],
        ) by {
            assert(search::lists(names@, names@[k]@));
            assert(search::lists(sorted@, names@[k]@));
            let i = choose|i: int|
                0 <= i < sorted@.len() && #[trigger] sorted@[i]@ == names@[k]@;
            assert(agents@[i].name@ == listed[k]);
        }
        assert(json::key_texts(object@) == Some(listed));
        assert(agents_of(object@, agents@));
    }
    Ok(agents)
}

/// The names are those that a configuration registers, in order; a configuration without a list of
/// agents registers nobody.
pub open spec fn is_roster(config: Seq<char>, names: Seq<String>) -> bool {
    &&& order::strictly_sorted(names)
    &&& forall|name: Seq<char>| #[trigger]
        search::lists(names, name) <==> match json::field_text(config, "agents"@) {
            Some(object) => json::key_texts(object)->Some_0.contains(name),
            None => false,
        }
}

/// The configuration is no JSON object, or its list of agents is none.
pub open spec fn is_broken_roster(config: Seq<char>) -> bool {
    ||| !json::is_json(config)
    ||| json::key_texts(config) is None
    ||| json::field_text(config, "agents"@) matches Some(object) && json::key_texts(object) is None
}

impl Database {
    /// Reads the names of the agents that a team's configuration registers; a team without a
    /// configuration registers nobody.
    pub fn load_roster(config: &Option<String>, path: &str) -> (result: Result<Vec<String>, String>)
        ensures
            match *config {
                None => result matches Ok(names) && names@.len() == 0,
                Some(text) => if is_broken_roster(text@) {
                    result matches Err(error) && error@ == "roster JSONが不正です: "@ + path@
                } else {
                    result matches Ok(names) && is_roster(text@, names@)
                },
            },
    {
        let text = match config {
            Some(text) => text,
            None => {
                return Ok(Vec::new());
            },
        };
        if !parses(text.as_str()) || keys(text.as_str()).is_none() {
            return Err(concat2("roster JSONが不正です: ", path));
        }
        let object = match field(text.as_str(), "agents") {
            Some(object) => object,
            None => {
                return Ok(Vec::new());
            },
        };
        let names = match keys(object.as_str()) {
            Some(names) => names,
            None => {
                return Err(concat2("roster JSONが不正です: ", path));
            },
        };
        let sorted = sorted_names(&names);
        proof {
            let listed = search::texts(names@);
            assert forall|name: Seq<char>| #[trigger]
                search::lists(sorted@, name) <==> listed.contains(name) by {
                if search::lists(names@, name) {
                    let k = choose|k: int| 0 <= k < names@.len() && #[trigger] names@[k]@ == name;
                    assert(listed[k] == name);
                }
                if listed.contains(name) {
                    let k = choose|k: int| 0 <= k < listed.len() && listed[k] == name;
                    assert(names@[k]@ == name);
                }
            }
        }
        Ok(sorted)
    }
}

/// What the store counts for one agent of a team.
#[derive(Debug, PartialEq, Eq)]
pub struct AgentStats {
    pub name: String,
    pub last_seen_at: Option<String>,
    pub sent: i64,
    pub received: i64,
}

/// One row of the list of agents.
pub ghost struct IdentityView {
    pub team: Seq<char>,
    pub name: Seq<char>,
    pub registration: RegistrationView,
    pub last_seen_at: Option<Seq<char>>,
    pub sent_30d: usize,
    pub received_30d: usize,
}

/// What a row of the list of agents shows.
pub open spec fn identity_view(row: AgentIdentitySummary) -> IdentityView {
    IdentityView {
        team: row.team@,
        name: row.name@,
        registration: RegistrationView { agent_type: row.agent_type@, project: row.project@ },
        last_seen_at: strings::held(row.last_seen_at),
        sent_30d: row.sent_30d,
        received_30d: row.received_30d,
    }
}

/// The rows of one agent: one for each registration, all with the agent's figures.
pub open spec fn agent_rows(
    team: Seq<char>,
    registrations: Seq<RegistrationView>,
    stats: AgentStats,
) -> Seq<IdentityView> {
    Seq::new(
        registrations.len(),
        |i: int|
            IdentityView {
                team,
                name: stats.name@,
                registration: registrations[i],
                last_seen_at: strings::held(stats.last_seen_at),
                sent_30d: traffic::counted_rows(stats.sent),
                received_30d: traffic::counted_rows(stats.received),
            },
    )
}

/// The rows of some agents, one after the other.
pub open spec fn team_rows(
    team: Seq<char>,
    agents: Seq<ConfiguredAgent>,
    stats: Seq<AgentStats>,
) -> Seq<IdentityView>
    decreases agents.len(),
{
    if agents.len() == 0 || stats.len() != agents.len() {
        Seq::empty()
    } else {
        team_rows(team, agents.drop_last(), stats.drop_last()) + agent_rows(
            team,
            shown_all(agents.last().registrations@),
            stats.last(),
        )
    }
}

/// What some rows show.
pub open spec fn identity_views(rows: Seq<AgentIdentitySummary>) -> Seq<IdentityView> {
    Seq::new(rows.len(), |i: int| identity_view(rows[i]))
}

fn push_agent(
    rows: &mut Vec<AgentIdentitySummary>,
    team: &str,
    agent: &ConfiguredAgent,
    stats: &AgentStats,
)
    ensures
        identity_views(final(rows)@) == identity_views(old(rows)@) + agent_rows(
            team@,
            shown_all(agent.registrations@),
            *stats,
        ),
{
    let ghost added = agent_rows(team@, shown_all(agent.registrations@), *stats);
    let mut index: usize = 0;
    proof {
        assert(identity_views(rows@) =~= identity_views(old(rows)@) + added.take(0));
    }
    while index < agent.registrations.len()
        invariant
            index <= agent.registrations@.len(),
            added == agent_rows(team@, shown_all(agent.registrations@), *stats),
            identity_views(rows@) == identity_views(old(rows)@) + added.take(index as int),
        decreases agent.registrations@.len() - index,
    {
        let registration = &agent.registrations[index];
        let ghost before = rows@;
        rows.push(
            AgentIdentitySummary {
                team: team.to_owned(),
                name: stats.name.clone(),
                agent_type: registration.agent_type.clone(),
                project: registration.project.clone(),
                last_seen_at: clone_option(&stats.last_seen_at),
                sent_30d: row_count(stats.sent),
                received_30d: row_count(stats.received),
            },
        );
        proof {
            assert(identity_views(rows@) =~= identity_views(before).push(added[index as int]));
            assert(added.take(index + 1) =~= added.take(index as int).push(added[index as int]));
            assert(identity_views(rows@) =~= identity_views(old(rows)@) + added.take(index + 1));
        }
        index += 1;
    }
    proof {
        assert(added.take(index as int) =~= added);
    }
}

/// The figures are those of the agents, one after the other.
pub open spec fn stats_match(agents: Seq<ConfiguredAgent>, stats: Seq<AgentStats>) -> bool {
    &&& stats.len() == agents.len()
    &&& forall|i: int| 0 <= i < agents.len() ==> (#[trigger] stats[i]).name@ == agents[i].name@
}

/// What is listed of a team: the rows of its agents, or else what is wrong with its configuration.
pub open spec fn team_entry(
    team: Seq<char>,
    config: Result<Vec<ConfiguredAgent>, String>,
    stats: Seq<AgentStats>,
    summary: AgentTeamSummary,
) -> bool {
    &&& summary.name@ == team
    &&& match config {
        Ok(agents) => {
            &&& identity_views(summary.identities@) == team_rows(team, agents@, stats)
            &&& summary.broken_config is None
        },
        Err(error) => {
            &&& summary.identities@.len() == 0
            &&& strings::held(summary.broken_config) == Some(error@)
        },
    }
}

/// Joins a team's agents with what the store counts for each of them. A team whose configuration
/// cannot be used is listed without agents, with what is wrong.
pub fn team_inventory(
    team: &str,
    config: Result<Vec<ConfiguredAgent>, String>,
    stats: &Vec<AgentStats>,
) -> (summary: AgentTeamSummary)
    requires
        config matches Ok(agents) ==> stats_match(agents@, stats@),
    ensures
        team_entry(team@, config, stats@, summary),
{
    let agents = match config {
        Ok(agents) => agents,
        Err(error) => {
            return AgentTeamSummary {
                name: team.to_owned(),
                identities: Vec::new(),
                broken_config: Some(error),
            };
        },
    };
    let mut identities: Vec<AgentIdentitySummary> = Vec::new();
    let mut index: usize = 0;
    proof {
        assert(identity_views(identities@) =~= team_rows(team@, agents@.take(0), stats@.take(0)));
    }
    while index < agents.len()
        invariant
            index <= agents@.len(),
            stats@.len() == agents@.len(),
            identity_views(identities@) == team_rows(
                team@,
                agents@.take(index as int),
                stats@.take(index as int),
            ),
        decreases agents@.len() - index,
    {
        proof {
            assert(agents@.take(index + 1).drop_last() =~= agents@.take(index as int));
            assert(stats@.take(index + 1).drop_last() =~= stats@.take(index as int));
        }
        push_agent(&mut identities, team, &agents[index], &stats[index]);
        index += 1;
    }
    proof {
        assert(agents@.take(index as int) =~= agents@);
        assert(stats@.take(index as int) =~= stats@);
    }
    AgentTeamSummary { name: team.to_owned(), identities, broken_config: None }
}

/// A team, what its configuration says, and what the store counts for its agents.
#[derive(Debug, PartialEq, Eq)]
pub struct TeamInput {
    pub team: String,
    pub config: Result<Vec<ConfiguredAgent>, String>,
    pub stats: Vec<AgentStats>,
}

impl TeamInput {
    /// The figures are those of the team's agents.
    pub open spec fn wf(self) -> bool {
        self.config matches Ok(agents) ==> stats_match(agents@, self.stats@)
    }

    /// What is listed of the team.
    pub open spec fn entry(self, summary: AgentTeamSummary) -> bool {
        team_entry(self.team@, self.config, self.stats@, summary)
    }
}

/// Teams rank by name.
impl Ranked for TeamInput {
    open spec fn at_most(self, other: Self) -> bool {
        !order::text_less(other.team@, self.team@)
    }

    fn is_at_most(&self, other: &Self) -> (result: bool) {
        proof {
            order::text_less_irreflexive(self.team@);
            if order::text_less(self.team@, other.team@) && order::text_less(
                other.team@,
                self.team@,
            ) {
                order::text_less_transitive(self.team@, other.team@, self.team@);
            }
        }
        match compare_text(self.team.as_str(), other.team.as_str()) {
            Order::After => false,
            _ => true,
        }
    }

    proof fn ranks_chain(a: Self, b: Self, c: Self) {
        order::text_less_total(a.team@, b.team@);
        order::text_less_total(b.team@, c.team@);
        if order::text_less(c.team@, a.team@) && a.team@ != b.team@ {
            order::text_less_transitive(c.team@, a.team@, b.team@);
        }
    }

    proof fn ranks_compare(a: Self, b: Self) {
        if order::text_less(b.team@, a.team@) && order::text_less(a.team@, b.team@) {
            order::text_less_transitive(a.team@, b.team@, a.team@);
            order::text_less_irreflexive(a.team@);
        }
    }
}

/// No two teams have the same name.
pub open spec fn teams_apart(teams: Seq<TeamInput>) -> bool {
    forall|i: int, j: int|
        0 <= i < j < teams.len() ==> (#[trigger] teams[i]).team@ != (#[trigger] teams[j]).team@
}

/// The list has one entry for each team, in the order of their names; each entry is what is listed
/// of its own team, whatever the others are.
pub open spec fn is_inventory(teams: Seq<TeamInput>, list: Seq<AgentTeamSummary>) -> bool {
    &&& list.len() == teams.len()
    &&& forall|i: int, j: int|
        0 <= i < j < list.len() ==> order::text_less(
            (#[trigger] list[i]).name@,
            (#[trigger] list[j]).name@,
        )
    &&& forall|k: int|
        0 <= k < teams.len() ==> exists|i: int|
            0 <= i < list.len() && (#[trigger] teams[k]).entry(#[trigger] list[i])
    &&& forall|i: int|
        0 <= i < list.len() ==> exists|k: int|
            0 <= k < teams.len() && (#[trigger] teams[k]).entry(#[trigger] list[i])
}

impl Database {
    /// Lists the teams in the order of their names, each with its agents and what the store counts
    /// for them, or with what is wrong with its configuration.
    pub fn agent_inventory(teams: Vec<TeamInput>) -> (list: Vec<AgentTeamSummary>)
        requires
            teams_apart(teams@),
            forall|k: int| 0 <= k < teams@.len() ==> (#[trigger] teams@[k]).wf(),
        ensures
            is_inventory(teams@, list@),
    {
        let ghost all = teams@;
        let sorted = sort(teams);
        let ghost ordered = sorted@;
        proof {
            sorting::sorting_is_a_permutation(all);
            sorted_teams(all, ordered);
        }
        let mut list: Vec<AgentTeamSummary> = Vec::new();
        for input in it: sorted
            invariant
                it.seq() == ordered,
                forall|i: int| 0 <= i < ordered.len() ==> (#[trigger] ordered[i]).wf(),
                list@.len() == it.index(),
                forall|i: int| 0 <= i < it.index() ==> (#[trigger] ordered[i]).entry(list@[i]),
        {
            list.push(team_inventory(input.team.as_str(), input.config, &input.stats));
        }
        proof {
            assert forall|i: int, j: int| 0 <= i < j < list@.len() implies order::text_less(
                (#[trigger] list@[i]).name@,
                (#[trigger] list@[j]).name@,
            ) by {
                assert(ordered[i].entry(list@[i]) && ordered[j].entry(list@[j]));
            }
            assert forall|k: int| 0 <= k < all.len() implies exists|i: int|
                0 <= i < list@.len() && (#[trigger] all[k]).entry(#[trigger] list@[i]) by {
                let i = choose|i: int| 0 <= i < ordered.len() && ordered[i] == all[k];
                assert(ordered[i].entry(list@[i]));
            }
            assert forall|i: int| 0 <= i < list@.len() implies exists|k: int|
                0 <= k < all.len() && (#[trigger] all[k]).entry(#[trigger] list@[i]) by {
                assert(ordered[i].entry(list@[i]));
                let k = choose|k: int| 0 <= k < all.len() && all[k] == ordered[i];
                assert(all[k].entry(list@[i]));
            }
        }
        list
    }
}

proof fn sorted_teams(teams: Seq<TeamInput>, ordered: Seq<TeamInput>)
    requires
        teams_apart(teams),
        sorting::in_order(ordered),
        ordered.to_multiset() == teams.to_multiset(),
    ensures
        forall|i: int| 0 <= i < ordered.len() ==> teams.contains(#[trigger] ordered[i]),
        forall|k: int| 0 <= k < teams.len() ==> ordered.contains(#[trigger] teams[k]),
        forall|i: int, j: int|
            0 <= i < j < ordered.len() ==> order::text_less(
                (#[trigger] ordered[i]).team@,
                (#[trigger] ordered[j]).team@,
            ),
{
    broadcast use vstd::seq_lib::group_to_multiset_ensures;

    assert forall|i: int| 0 <= i < ordered.len() implies teams.contains(#[trigger] ordered[i]) by {
        assert(ordered.contains(ordered[i]));
        assert(ordered.to_multiset().count(ordered[i]) > 0);
    }
    assert forall|k: int| 0 <= k < teams.len() implies ordered.contains(#[trigger] teams[k]) by {
        assert(teams.contains(teams[k]));
        assert(teams.to_multiset().count(teams[k]) > 0);
    }
    assert forall|i: int, j: int| 0 <= i < j < ordered.len() implies order::text_less(
        (#[trigger] ordered[i]).team@,
        (#[trigger] ordered[j]).team@,
    ) by {
        assert(ordered[i].at_most(ordered[j]));
        order::text_less_total(ordered[i].team@, ordered[j].team@);
        names_stay_apart(teams, ordered, i, j);
    }
}

proof fn names_stay_apart(teams: Seq<TeamInput>, ordered: Seq<TeamInput>, i: int, j: int)
    requires
        teams_apart(teams),
        ordered.to_multiset() == teams.to_multiset(),
        0 <= i < j < ordered.len(),
    ensures
        ordered[i].team@ != ordered[j].team@,
{
    broadcast use vstd::seq_lib::group_to_multiset_ensures;

    if ordered[i].team@ == ordered[j].team@ {
        assert(ordered.contains(ordered[i]) && ordered.contains(ordered[j]));
        assert(teams.to_multiset().count(ordered[i]) > 0);
        assert(teams.to_multiset().count(ordered[j]) > 0);
        let k = choose|k: int| 0 <= k < teams.len() && teams[k] == ordered[i];
        let l = choose|l: int| 0 <= l < teams.len() && teams[l] == ordered[j];
        assert(k == l);
        assert(teams.no_duplicates());
        teams.lemma_multiset_has_no_duplicates();
        let rest = ordered.remove(j);
        assert(ordered.to_multiset() =~= rest.to_multiset().insert(ordered[j]));
        assert(rest[i] == ordered[i]);
        assert(rest.contains(ordered[i]));
        assert(rest.to_multiset().count(ordered[i]) > 0);
        assert(ordered.to_multiset().count(ordered[i]) >= 2);
    }
}

/// An agent of a configuration is always listed, with at least one row.
pub proof fn every_agent_is_listed(
    team: Seq<char>,
    agents: Seq<ConfiguredAgent>,
    stats: Seq<AgentStats>,
    index: int,
)
    requires
        0 <= index < agents.len(),
        stats.len() == agents.len(),
        agents[index].registrations@.len() > 0,
    ensures
        exists|row: int|
            0 <= row < team_rows(team, agents, stats).len() && (#[trigger] team_rows(
                team,
                agents,
                stats,
            )[row]).name == stats[index].name@,
    decreases agents.len(),
{
    let last = agent_rows(team, shown_all(agents.last().registrations@), stats.last());
    let before = team_rows(team, agents.drop_last(), stats.drop_last());
    let rows = team_rows(team, agents, stats);
    if index == agents.len() - 1 {
        assert(rows[before.len() as int] == last[0]);
    } else {
        every_agent_is_listed(team, agents.drop_last(), stats.drop_last(), index);
        let row = choose|row: int|
            0 <= row < before.len() && (#[trigger] before[row]).name == stats.drop_last()[index].name@;
        assert(rows[row] == before[row]);
    }
}

} // verus!

//! The rows that the message store hands out, and what is computed from them.

pub mod inventory;
pub mod pairs;
pub mod traffic;

use crate::sorting::Ranked;
use crate::strings::same_text;
use vstd::prelude::*;

verus! {

/// Days that the analytics look back.
pub const ANALYTICS_WINDOW_DAYS: u32 = 30;

/// Days after which an unread message counts as stale.
pub const STALE_UNREAD_DAYS: u32 = 3;

/// Messages a day above which a day counts as a burst.
pub const DEFAULT_BURST_THRESHOLD: usize = 150;

/// The name by which the messages of this machine are known among those of other hosts.
pub const LOCAL_HOST: &'static str = "local";

/// One message.
#[derive(Debug, PartialEq, Eq)]
pub struct Message {
    pub id: i64,
    pub team: String,
    pub from_agent: String,
    pub to_agent: String,
    pub body: String,
    pub created_at: String,
    pub read_at: Option<String>,
}

impl Clone for Message {
    fn clone(&self) -> (copy: Self)
        ensures
            copy == *self,
    {
        Message {
            id: self.id,
            team: self.team.clone(),
            from_agent: self.from_agent.clone(),
            to_agent: self.to_agent.clone(),
            body: self.body.clone(),
            created_at: self.created_at.clone(),
            read_at: clone_option(&self.read_at),
        }
    }
}

/// Messages rank by number.
impl Ranked for Message {
    open spec fn at_most(self, other: Self) -> bool {
        self.id <= other.id
    }

    fn is_at_most(&self, other: &Self) -> (result: bool) {
        self.id <= other.id
    }

    proof fn ranks_chain(a: Self, b: Self, c: Self) {
    }

    proof fn ranks_compare(a: Self, b: Self) {
    }
}

/// The file that holds the messages.
#[derive(Debug, PartialEq, Eq)]
pub struct Database {
    pub path: String,
}

impl Database {
    /// The messages in a file.
    pub fn new(path: String) -> (database: Self)
        ensures
            database.path == path,
    {
        Database { path }
    }
}

/// A copy of an optional text.
pub fn clone_option(text: &Option<String>) -> (copy: Option<String>)
    ensures
        copy == *text,
{
    match text {
        Some(text) => Some(text.clone()),
        None => None,
    }
}

/// One team and how many unread messages it has.
#[derive(Debug, PartialEq, Eq)]
pub struct TeamSummary {
    pub name: String,
    pub unread_count: usize,
}

/// One member of a team.
#[derive(Debug, PartialEq, Eq)]
pub struct MemberSummary {
    pub name: String,
    pub last_message_at: Option<String>,
    pub unread_count: usize,
}

impl Clone for MemberSummary {
    fn clone(&self) -> (copy: Self)
        ensures
            copy == *self,
    {
        MemberSummary {
            name: self.name.clone(),
            last_message_at: clone_option(&self.last_message_at),
            unread_count: self.unread_count,
        }
    }
}

/// One page of a team's history, oldest message first.
#[derive(Debug, PartialEq, Eq)]
pub struct HistoryPage {
    pub messages: Vec<Message>,
    pub has_more: bool,
}

/// How many messages of one day there are.
#[derive(Debug, PartialEq, Eq)]
pub struct DailyTraffic {
    pub date: String,
    pub count: usize,
    pub burst: bool,
}

/// How many messages an agent sent and received.
#[derive(Debug, PartialEq, Eq)]
pub struct AgentTraffic {
    pub agent: String,
    pub sent: usize,
    pub received: usize,
}

/// How many messages went from one agent to another.
#[derive(Debug, PartialEq, Eq)]
pub struct PairCount {
    pub from: String,
    pub to: String,
    pub count: usize,
}

/// Who wrote how many messages to whom in a team.
#[derive(Debug, PartialEq, Eq)]
pub struct PairMatrix {
    pub team: String,
    pub agents: Vec<String>,
    pub counts: Vec<PairCount>,
}

/// A registered identity without recent traffic.
#[derive(Debug, PartialEq, Eq)]
pub struct ZombieIdentity {
    pub team: String,
    pub agent: String,
}

/// A message that has stayed unread for days.
#[derive(Debug, PartialEq, Eq)]
pub struct StaleUnread {
    pub id: i64,
    pub team: String,
    pub from_agent: String,
    pub to_agent: String,
    pub body: String,
    pub created_at: String,
}

/// The CLI type and the project that an agent is registered with.
#[derive(Debug, PartialEq, Eq)]
pub struct AgentRegistration {
    pub agent_type: String,
    pub project: String,
}

impl Clone for AgentRegistration {
    fn clone(&self) -> (copy: Self)
        ensures
            copy == *self,
    {
        AgentRegistration { agent_type: self.agent_type.clone(), project: self.project.clone() }
    }
}

/// One registration of an agent in a team, with its recent traffic.
#[derive(Debug, PartialEq, Eq)]
pub struct AgentIdentitySummary {
    pub team: String,
    pub name: String,
    pub agent_type: String,
    pub project: String,
    pub last_seen_at: Option<String>,
    pub sent_30d: usize,
    pub received_30d: usize,
}

impl Clone for AgentIdentitySummary {
    fn clone(&self) -> (copy: Self)
        ensures
            copy == *self,
    {
        AgentIdentitySummary {
            team: self.team.clone(),
            name: self.name.clone(),
            agent_type: self.agent_type.clone(),
            project: self.project.clone(),
            last_seen_at: clone_option(&self.last_seen_at),
            sent_30d: self.sent_30d,
            received_30d: self.received_30d,
        }
    }
}

/// One team with the agents that its configuration registers.
#[derive(Debug, PartialEq, Eq)]
pub struct AgentTeamSummary {
    pub name: String,
    pub identities: Vec<AgentIdentitySummary>,
    pub broken_config: Option<String>,
}

/// One of the identities has the name.
pub open spec fn has_identity(identities: Seq<AgentIdentitySummary>, name: Seq<char>) -> bool {
    exists|i: int| 0 <= i < identities.len() && #[trigger] identities[i].name@ == name
}

/// The identity at `index` is the first one with the name.
pub open spec fn first_identity(
    identities: Seq<AgentIdentitySummary>,
    name: Seq<char>,
    index: int,
) -> bool {
    &&& 0 <= index < identities.len()
    &&& identities[index].name@ == name
    &&& forall|i: int| 0 <= i < index ==> #[trigger] identities[i].name@ != name
}

/// Finds the first identity with the name.
pub fn identity_position(identities: &Vec<AgentIdentitySummary>, name: &str) -> (found: Option<
    usize,
>)
    ensures
        match found {
            Some(index) => first_identity(identities@, name@, index as int),
            None => !has_identity(identities@, name@),
        },
{
    let mut index: usize = 0;
    while index < identities.len()
        invariant
            index <= identities@.len(),
            forall|i: int| 0 <= i < index ==> #[trigger] identities@[i].name@ != name@,
        decreases identities@.len() - index,
    {
        if same_text(identities[index].name.as_str(), name) {
            return Some(index);
        }
        index += 1;
    }
    None
}

/// One of the teams has the name.
pub open spec fn has_team(teams: Seq<AgentTeamSummary>, name: Seq<char>) -> bool {
    exists|i: int| 0 <= i < teams.len() && #[trigger] teams[i].name@ == name
}

/// The team at `index` is the first one with the name.
pub open spec fn first_team(teams: Seq<AgentTeamSummary>, name: Seq<char>, index: int) -> bool {
    &&& 0 <= index < teams.len()
    &&& teams[index].name@ == name
    &&& forall|i: int| 0 <= i < index ==> #[trigger] teams[i].name@ != name
}

/// Finds the first team with the name.
pub fn team_position(teams: &Vec<AgentTeamSummary>, name: &str) -> (found: Option<usize>)
    ensures
        match found {
            Some(index) => first_team(teams@, name@, index as int),
            None => !has_team(teams@, name@),
        },
{
    let mut index: usize = 0;
    while index < teams.len()
        invariant
            index <= teams@.len(),
            forall|i: int| 0 <= i < index ==> #[trigger] teams@[i].name@ != name@,
        decreases teams@.len() - index,
    {
        if same_text(teams[index].name.as_str(), name) {
            return Some(index);
        }
        index += 1;
    }
    None
}

/// Some team registers an agent of the name.
pub open spec fn agent_registered(teams: Seq<AgentTeamSummary>, name: Seq<char>) -> bool {
    exists|t: int| 0 <= t < teams.len() && has_identity(#[trigger] teams[t].identities@, name)
}

/// Whether some team registers an agent of the name.
pub fn is_agent_registered(teams: &Vec<AgentTeamSummary>, name: &str) -> (found: bool)
    ensures
        found == agent_registered(teams@, name@),
{
    let mut index: usize = 0;
    while index < teams.len()
        invariant
            index <= teams@.len(),
            forall|t: int| 0 <= t < index ==> !has_identity(#[trigger] teams@[t].identities@, name@),
        decreases teams@.len() - index,
    {
        if identity_position(&teams[index].identities, name).is_some() {
            assert(has_identity(teams@[index as int].identities@, name@));
            return true;
        }
        index += 1;
    }
    false
}

} // verus!

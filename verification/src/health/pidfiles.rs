//! The files in the run directory that tell which bridges run.

use crate::agents;
use crate::agents::lead_cli_type;
use crate::lines;
use crate::lines::{parse_u32, rsplit_once, split_once, strip_suffix, take_before};
use crate::order;
use crate::order::{compare_text, Order};
use crate::search;
use crate::search::{starts_with, strip_prefix, trim};
use crate::sorting;
use crate::sorting::{sort, Ranked};
use crate::strings;
use crate::strings::{concat2, concat3, decimal_u64, option_is, same_text};
use vstd::prelude::*;

verus! {

/// A file of the run directory, with its text if it can be read.
#[derive(Debug, PartialEq, Eq)]
pub struct RunFile {
    pub name: String,
    pub content: Option<String>,
}

/// Files rank by name.
impl Ranked for RunFile {
    open spec fn at_most(self, other: Self) -> bool {
        !order::text_less(other.name@, self.name@)
    }

    fn is_at_most(&self, other: &Self) -> (result: bool) {
        proof {
            order::text_less_irreflexive(self.name@);
            if order::text_less(self.name@, other.name@) && order::text_less(
                other.name@,
                self.name@,
            ) {
                order::text_less_transitive(self.name@, other.name@, self.name@);
            }
        }
        match compare_text(self.name.as_str(), other.name.as_str()) {
            Order::After => false,
            _ => true,
        }
    }

    proof fn ranks_chain(a: Self, b: Self, c: Self) {
        order::text_less_total(a.name@, b.name@);
        order::text_less_total(b.name@, c.name@);
        if order::text_less(c.name@, a.name@) {
            if a.name@ != b.name@ {
                order::text_less_transitive(c.name@, a.name@, b.name@);
            }
        }
    }

    proof fn ranks_compare(a: Self, b: Self) {
        if order::text_less(b.name@, a.name@) && order::text_less(a.name@, b.name@) {
            order::text_less_transitive(a.name@, b.name@, a.name@);
            order::text_less_irreflexive(a.name@);
        }
    }
}

/// A bridge, and what is known of whom it serves.
#[derive(Debug, PartialEq, Eq)]
pub struct RawBridge {
    pub label: String,
    pub pid: u32,
    pub team_hint: Option<String>,
    pub agent_hint: Option<String>,
    pub project_hint: Option<String>,
}

/// What is known of a bridge.
#[verifier::ext_equal]
pub struct BridgeView {
    pub label: Seq<char>,
    pub pid: u32,
    pub team_hint: Option<Seq<char>>,
    pub agent_hint: Option<Seq<char>>,
    pub project_hint: Option<Seq<char>>,
}

impl View for RawBridge {
    type V = BridgeView;

    open spec fn view(&self) -> BridgeView {
        BridgeView {
            label: self.label@,
            pid: self.pid,
            team_hint: strings::held(self.team_hint),
            agent_hint: strings::held(self.agent_hint),
            project_hint: strings::held(self.project_hint),
        }
    }
}

/// The text of the file of a name.
pub open spec fn content_of(files: Seq<RunFile>, name: Seq<char>) -> Option<Seq<char>>
    decreases files.len(),
{
    if files.len() == 0 {
        None
    } else if files.last().name@ == name {
        strings::held(files.last().content)
    } else {
        content_of(files.drop_last(), name)
    }
}

fn find_content<'a>(files: &'a Vec<RunFile>, name: &str) -> (content: Option<&'a String>)
    ensures
        match content {
            Some(content) => content_of(files@, name@) == Some(content@),
            None => content_of(files@, name@) is None,
        },
{
    let mut end: usize = files.len();
    proof {
        assert(files@.take(end as int) =~= files@);
    }
    while end > 0
        invariant
            end <= files@.len(),
            content_of(files@.take(end as int), name@) == content_of(files@, name@),
        decreases end,
    {
        proof {
            assert(files@.take(end as int).drop_last() =~= files@.take(end - 1));
        }
        if same_text(files[end - 1].name.as_str(), name) {
            return match &files[end - 1].content {
                Some(content) => Some(content),
                None => None,
            };
        }
        end -= 1;
    }
    None
}

/// The value that the lines `key=value` give a key last.
pub open spec fn last_value(rows: Seq<Seq<char>>, key: Seq<char>) -> Option<Seq<char>>
    decreases rows.len(),
{
    if rows.len() == 0 {
        None
    } else {
        match lines::cut_once(rows.last(), "="@) {
            Some((name, value)) => if name == key {
                Some(value)
            } else {
                last_value(rows.drop_last(), key)
            },
            None => last_value(rows.drop_last(), key),
        }
    }
}

/// The value that a text of lines `key=value` gives a key.
pub open spec fn value_of(content: Option<Seq<char>>, key: Seq<char>) -> Option<Seq<char>> {
    match content {
        Some(text) => last_value(lines::lines_of(text), key),
        None => None,
    }
}

fn read_value(content: Option<&String>, key: &str) -> (value: Option<String>)
    ensures
        strings::held(value) == value_of(
            match content {
                Some(text) => Some(text@),
                None => None,
            },
            key@,
        ),
{
    let text = match content {
        Some(text) => text,
        None => {
            return None;
        },
    };
    let rows = lines::lines(text.as_str());
    let ghost all = lines::lines_of(text@);
    let mut end: usize = rows.len();
    proof {
        assert(all.take(end as int) =~= all);
    }
    while end > 0
        invariant
            end <= rows@.len(),
            search::texts(rows@) == all,
            content == Some(text),
            all == lines::lines_of(text@),
            last_value(all.take(end as int), key@) == last_value(all, key@),
        decreases end,
    {
        proof {
            assert(all.take(end as int).drop_last() =~= all.take(end - 1));
            assert(all.take(end as int).last() == rows@[end - 1]@);
        }
        if let Some((name, value)) = split_once(rows[end - 1].as_str(), "=") {
            if same_text(name.as_str(), key) {
                return Some(value);
            }
        }
        end -= 1;
    }
    None
}

/// The project that the marker of a process names.
pub open spec fn marked_project(files: Seq<RunFile>, pid: u32) -> Option<Seq<char>> {
    match content_of(files, "proj."@ + strings::decimal(pid as nat) + ".project"@) {
        Some(text) => if search::trimmed(text).len() > 0 {
            Some(search::trimmed(text))
        } else {
            None
        },
        None => None,
    }
}

fn read_project_marker(files: &Vec<RunFile>, pid: u32) -> (project: Option<String>)
    ensures
        strings::held(project) == marked_project(files@, pid),
{
    let number = decimal_u64(pid as u64);
    let name = concat3("proj.", number.as_str(), ".project");
    match find_content(files, name.as_str()) {
        Some(text) => {
            let project = trim(text.as_str());
            if project.as_str().is_empty() {
                None
            } else {
                Some(project)
            }
        },
        None => None,
    }
}

/// The project that a line of a log names.
pub open spec fn line_project(line: Seq<char>) -> Option<Seq<char>> {
    match lines::cut_once(line, "project="@) {
        Some((_, rest)) => {
            let project = search::trimmed(lines::before_first(rest, " session_id="@));
            if project.len() > 0 {
                Some(project)
            } else {
                None
            }
        },
        None => None,
    }
}

/// The project that the first of some lines names that names one.
pub open spec fn first_project(rows: Seq<Seq<char>>) -> Option<Seq<char>>
    decreases rows.len(),
{
    if rows.len() == 0 {
        None
    } else {
        match line_project(rows[0]) {
            Some(project) => Some(project),
            None => first_project(rows.skip(1)),
        }
    }
}

/// How many lines of a log are looked at.
pub const LOG_LINES: usize = 20;

/// The project that the first lines of a log name.
pub open spec fn logged_project(content: Option<Seq<char>>) -> Option<Seq<char>> {
    match content {
        Some(text) => {
            let rows = lines::lines_of(text);
            first_project(
                if rows.len() > LOG_LINES {
                    rows.take(LOG_LINES as int)
                } else {
                    rows
                },
            )
        },
        None => None,
    }
}

fn read_line_project(line: &str) -> (project: Option<String>)
    ensures
        strings::held(project) == line_project(line@),
{
    match split_once(line, "project=") {
        Some((_, rest)) => {
            let before = take_before(rest.as_str(), " session_id=");
            let project = trim(before.as_str());
            if project.as_str().is_empty() {
                None
            } else {
                Some(project)
            }
        },
        None => None,
    }
}

fn read_project_from_log(content: Option<&String>) -> (project: Option<String>)
    ensures
        strings::held(project) == logged_project(
            match content {
                Some(text) => Some(text@),
                None => None,
            },
        ),
{
    let text = match content {
        Some(text) => text,
        None => {
            return None;
        },
    };
    let rows = lines::lines(text.as_str());
    let ghost all = lines::lines_of(text@);
    let count: usize = if rows.len() > LOG_LINES {
        LOG_LINES
    } else {
        rows.len()
    };
    let ghost read = all.take(count as int);
    let mut index: usize = 0;
    proof {
        assert(all.len() == rows@.len());
        assert(all.take(rows@.len() as int) =~= all);
        assert(read.skip(0) =~= read);
    }
    while index < count
        invariant
            index <= count <= rows@.len(),
            search::texts(rows@) == all,
            read == all.take(count as int),
            content == Some(text),
            logged_project(Some(text@)) == first_project(read),
            first_project(read.skip(index as int)) == first_project(read),
        decreases count - index,
    {
        proof {
            assert(read.skip(index as int)[0] == rows@[index as int]@);
            assert(read.skip(index as int).skip(1) =~= read.skip(index + 1));
        }
        let project = read_line_project(rows[index].as_str());
        if project.is_some() {
            return project;
        }
        index += 1;
    }
    None
}

/// The CLI type that a bridge of a label serves.
pub open spec fn label_type(family: Seq<char>, label: Seq<char>) -> Option<Seq<char>> {
    if agents::lead_type(family).is_prefix_of(label) {
        Some(agents::lead_type(family))
    } else if "cursor-bridge"@.is_prefix_of(label) {
        Some("cursor"@)
    } else if "kimi-bridge"@.is_prefix_of(label) {
        Some("kimi"@)
    } else if "codex"@.is_prefix_of(label) {
        Some("codex"@)
    } else {
        None
    }
}

/// The CLI type that a bridge of a label serves.
pub fn bridge_agent_type(family: &str, label: &str) -> (agent_type: Option<String>)
    ensures
        match agent_type {
            Some(agent_type) => label_type(family@, label@) == Some(agent_type@),
            None => label_type(family@, label@) is None,
        },
{
    let lead = lead_cli_type(family);
    if starts_with(label, lead.as_str()) {
        Some(lead)
    } else if starts_with(label, "cursor-bridge") {
        Some("cursor".to_owned())
    } else if starts_with(label, "kimi-bridge") {
        Some("kimi".to_owned())
    } else if starts_with(label, "codex") {
        Some("codex".to_owned())
    } else {
        None
    }
}

/// The file marks the session of a role that fits the team, the type and, if one is known, the
/// project.
pub open spec fn marks_session(
    file: RunFile,
    team: Seq<char>,
    agent_type: Seq<char>,
    project: Option<Seq<char>>,
) -> bool {
    let content = strings::held(file.content);
    &&& "role-session."@.is_prefix_of(file.name@)
    &&& value_of(content, "team"@) == Some(team)
    &&& value_of(content, "type"@) == Some(agent_type)
    &&& project is Some ==> value_of(content, "project"@) == project
}

/// The agents that the fitting session files name.
pub open spec fn session_agents(
    files: Seq<RunFile>,
    team: Seq<char>,
    agent_type: Seq<char>,
    project: Option<Seq<char>>,
) -> Seq<Seq<char>>
    decreases files.len(),
{
    if files.len() == 0 {
        Seq::empty()
    } else {
        let before = session_agents(files.drop_last(), team, agent_type, project);
        let agent = value_of(strings::held(files.last().content), "agent"@);
        if marks_session(files.last(), team, agent_type, project) && agent is Some {
            before.push(agent->Some_0)
        } else {
            before
        }
    }
}

/// The one name that a list names, if it names just one.
pub open spec fn only_name(names: Seq<Seq<char>>) -> Option<Seq<char>> {
    if names.len() > 0 && forall|i: int| 0 <= i < names.len() ==> #[trigger] names[i] == names[0] {
        Some(names[0])
    } else {
        None
    }
}

/// The agent that the session files name for a bridge, if they name just one.
pub open spec fn session_agent(
    files: Seq<RunFile>,
    team: Option<Seq<char>>,
    agent_type: Option<Seq<char>>,
    project: Option<Seq<char>>,
) -> Option<Seq<char>> {
    match (team, agent_type) {
        (Some(team), Some(agent_type)) => only_name(
            session_agents(files, team, agent_type, project),
        ),
        _ => None,
    }
}

fn is_session(
    file: &RunFile,
    team: &str,
    agent_type: &str,
    project: &Option<String>,
) -> (result: bool)
    ensures
        result == marks_session(*file, team@, agent_type@, strings::held(*project)),
{
    if !starts_with(file.name.as_str(), "role-session.") {
        return false;
    }
    let content: Option<&String> = match &file.content {
        Some(content) => Some(content),
        None => None,
    };
    if !option_is(&read_value(content, "team"), team) || !option_is(
        &read_value(content, "type"),
        agent_type,
    ) {
        return false;
    }
    match project {
        Some(project) => option_is(&read_value(content, "project"), project.as_str()),
        None => true,
    }
}

fn role_session_agent_hint(
    files: &Vec<RunFile>,
    team_hint: &Option<String>,
    agent_type: &Option<String>,
    project: &Option<String>,
) -> (agent: Option<String>)
    ensures
        strings::held(agent) == session_agent(
            files@,
            strings::held(*team_hint),
            strings::held(*agent_type),
            strings::held(*project),
        ),
{
    let team = match team_hint {
        Some(team) => team.as_str(),
        None => {
            return None;
        },
    };
    let kind = match agent_type {
        Some(kind) => kind.as_str(),
        None => {
            return None;
        },
    };
    let mut only: Option<String> = None;
    let mut several = false;
    let mut index: usize = 0;
    proof {
        assert(files@.take(0) =~= Seq::empty());
    }
    while index < files.len()
        invariant
            index <= files@.len(),
            ({
                let names = session_agents(
                    files@.take(index as int),
                    team@,
                    kind@,
                    strings::held(*project),
                );
                &&& strings::held(only) == (if names.len() > 0 {
                    Some(names[0])
                } else {
                    None
                })
                &&& several == !(forall|i: int| 0 <= i < names.len() ==> #[trigger] names[i] == names[0])
            }),
        decreases files@.len() - index,
    {
        let file = &files[index];
        let ghost before = session_agents(
            files@.take(index as int),
            team@,
            kind@,
            strings::held(*project),
        );
        proof {
            assert(files@.take(index + 1).drop_last() =~= files@.take(index as int));
        }
        if is_session(file, team, kind, project) {
            let content: Option<&String> = match &file.content {
                Some(content) => Some(content),
                None => None,
            };
            if let Some(agent) = read_value(content, "agent") {
                let ghost after = before.push(agent@);
                proof {
                    assert(forall|i: int| 0 <= i < before.len() ==> after[i] == before[i]);
                    assert(after[before.len() as int] == agent@);
                }
                match &only {
                    Some(first) => {
                        if !same_text(first.as_str(), agent.as_str()) {
                            several = true;
                        }
                    },
                    None => {
                        only = Some(agent);
                    },
                }
            }
        }
        index += 1;
    }
    proof {
        assert(files@.take(index as int) =~= files@);
    }
    if several {
        None
    } else {
        only
    }
}

/// The first of two texts that is there.
pub open spec fn or_else(first: Option<Seq<char>>, second: Option<Seq<char>>) -> Option<Seq<char>> {
    if first is Some {
        first
    } else {
        second
    }
}

fn choose_text(first: Option<String>, second: Option<String>) -> (chosen: Option<String>)
    ensures
        strings::held(chosen) == or_else(strings::held(first), strings::held(second)),
{
    if first.is_some() {
        first
    } else {
        second
    }
}

/// The team and the agent that the name of a codex bridge holds.
pub open spec fn codex_identity(stem: Seq<char>) -> Option<(Seq<char>, Seq<char>)> {
    if "codex-bridge."@.is_prefix_of(stem) {
        lines::cut_last(stem.skip("codex-bridge."@.len() as int), "."@)
    } else {
        None
    }
}

/// The process that a watcher belongs to.
pub open spec fn watch_owner(stem: Seq<char>) -> Option<u32> {
    if "watch."@.is_prefix_of(stem) {
        match lines::cut_last(stem.skip("watch."@.len() as int), "."@) {
            Some((_, pid)) => match lines::parsed_number(pid, u32::MAX as nat) {
                Some(pid) => Some(pid as u32),
                None => None,
            },
            None => None,
        }
    } else {
        None
    }
}

/// The bridge that a file `stem.pid` stands for.
pub open spec fn pidfile_bridge(
    family: Seq<char>,
    files: Seq<RunFile>,
    stem: Seq<char>,
    pid: u32,
) -> BridgeView {
    let identity = codex_identity(stem);
    let meta = content_of(files, stem + ".meta"@);
    let team = or_else(
        value_of(meta, "team"@),
        match identity {
            Some((team, _)) => Some(team),
            None => None,
        },
    );
    let named = or_else(
        value_of(meta, "agent"@),
        match identity {
            Some((_, agent)) => Some(agent),
            None => None,
        },
    );
    let project = or_else(
        or_else(
            value_of(meta, "project"@),
            match watch_owner(stem) {
                Some(owner) => marked_project(files, owner),
                None => None,
            },
        ),
        logged_project(content_of(files, stem + ".log"@)),
    );
    let plain = match identity {
        Some((_, agent)) => "codex/"@ + agent,
        None => lines::before_first(stem, "."@),
    };
    let label = match value_of(meta, "name"@) {
        Some(name) => plain + "/"@ + name,
        None => plain,
    };
    BridgeView {
        label,
        pid,
        team_hint: team,
        agent_hint: or_else(session_agent(files, team, label_type(family, label), project), named),
        project_hint: project,
    }
}

fn find_codex_identity(stem: &str) -> (identity: Option<(String, String)>)
    ensures
        match identity {
            Some((team, agent)) => codex_identity(stem@) == Some((team@, agent@)),
            None => codex_identity(stem@) is None,
        },
{
    match strip_prefix(stem, "codex-bridge.") {
        Some(rest) => rsplit_once(rest.as_str(), "."),
        None => None,
    }
}

fn find_watch_owner(stem: &str) -> (owner: Option<u32>)
    ensures
        owner == watch_owner(stem@),
{
    match strip_prefix(stem, "watch.") {
        Some(rest) => match rsplit_once(rest.as_str(), ".") {
            Some((_, pid)) => parse_u32(pid.as_str()),
            None => None,
        },
        None => None,
    }
}

/// Makes the bridge that a file `stem.pid` stands for.
pub fn raw_bridge_from_pidfile(
    family: &str,
    files: &Vec<RunFile>,
    stem: &str,
    pid: u32,
) -> (bridge: RawBridge)
    ensures
        bridge@ == pidfile_bridge(family@, files@, stem@, pid),
{
    let mut identity_team: Option<String> = None;
    let mut identity_agent: Option<String> = None;
    let mut label = take_before(stem, ".");
    if let Some((team, agent)) = find_codex_identity(stem) {
        label = concat2("codex/", agent.as_str());
        identity_team = Some(team);
        identity_agent = Some(agent);
    }
    let mut watched: Option<String> = None;
    if let Some(owner) = find_watch_owner(stem) {
        watched = read_project_marker(files, owner);
    }
    let meta_name = concat2(stem, ".meta");
    let meta = find_content(files, meta_name.as_str());
    let team_hint = choose_text(read_value(meta, "team"), identity_team);
    let named = choose_text(read_value(meta, "agent"), identity_agent);
    let mut project_hint = choose_text(read_value(meta, "project"), watched);
    if let Some(name) = read_value(meta, "name") {
        label = concat3(label.as_str(), "/", name.as_str());
    }
    if project_hint.is_none() {
        let log_name = concat2(stem, ".log");
        project_hint = read_project_from_log(find_content(files, log_name.as_str()));
    }
    let kind = bridge_agent_type(family, label.as_str());
    let session = role_session_agent_hint(files, &team_hint, &kind, &project_hint);
    let agent_hint = choose_text(session, named);
    RawBridge { label, pid, team_hint, agent_hint, project_hint }
}

/// The bridge that a file of the run directory stands for, if any.
pub open spec fn file_bridge(
    family: Seq<char>,
    files: Seq<RunFile>,
    file: RunFile,
) -> Option<BridgeView> {
    let instance = if "cc-instance."@.is_prefix_of(file.name@) {
        lines::parsed_number(
            file.name@.skip("cc-instance."@.len() as int),
            u32::MAX as nat,
        )
    } else {
        None
    };
    match instance {
        Some(pid) => Some(
            BridgeView {
                label: agents::lead_type(family),
                pid: pid as u32,
                team_hint: None,
                agent_hint: None,
                project_hint: marked_project(files, pid as u32),
            },
        ),
        None => match lines::without_suffix(file.name@, ".pid"@) {
            Some(stem) => match strings::held(file.content) {
                Some(text) => match lines::parsed_number(search::trimmed(text), u32::MAX as nat) {
                    Some(pid) => Some(pidfile_bridge(family, files, stem, pid as u32)),
                    None => None,
                },
                None => None,
            },
            None => None,
        },
    }
}

fn find_instance(name: &str) -> (pid: Option<u32>)
    ensures
        match pid {
            Some(pid) => "cc-instance."@.is_prefix_of(name@) && lines::parsed_number(
                name@.skip("cc-instance."@.len() as int),
                u32::MAX as nat,
            ) == Some(pid as nat),
            None => !"cc-instance."@.is_prefix_of(name@) || lines::parsed_number(
                name@.skip("cc-instance."@.len() as int),
                u32::MAX as nat,
            ) is None,
        },
{
    match strip_prefix(name, "cc-instance.") {
        Some(rest) => parse_u32(rest.as_str()),
        None => None,
    }
}

fn read_bridge(family: &str, files: &Vec<RunFile>, file: &RunFile) -> (bridge: Option<RawBridge>)
    ensures
        match bridge {
            Some(bridge) => file_bridge(family@, files@, *file) == Some(bridge@),
            None => file_bridge(family@, files@, *file) is None,
        },
{
    if let Some(pid) = find_instance(file.name.as_str()) {
        return Some(
            RawBridge {
                label: lead_cli_type(family),
                pid,
                team_hint: None,
                agent_hint: None,
                project_hint: read_project_marker(files, pid),
            },
        );
    }
    let stem = match strip_suffix(file.name.as_str(), ".pid") {
        Some(stem) => stem,
        None => {
            return None;
        },
    };
    match &file.content {
        Some(text) => match parse_u32(trim(text.as_str()).as_str()) {
            Some(pid) => Some(raw_bridge_from_pidfile(family, files, stem.as_str(), pid)),
            None => None,
        },
        None => None,
    }
}

/// What is known of a bridge together with what another file says of the same process.
pub open spec fn merged(bridge: BridgeView, other: BridgeView) -> BridgeView {
    BridgeView {
        label: if bridge.label == "bridge"@ {
            other.label
        } else {
            bridge.label
        },
        pid: bridge.pid,
        team_hint: or_else(bridge.team_hint, other.team_hint),
        agent_hint: or_else(bridge.agent_hint, other.agent_hint),
        project_hint: or_else(bridge.project_hint, other.project_hint),
    }
}

/// The bridges with one more, in the order of their processes.
pub open spec fn with_bridge(bridges: Seq<BridgeView>, bridge: BridgeView) -> Seq<BridgeView>
    decreases bridges.len(),
{
    if bridges.len() == 0 || bridges.last().pid < bridge.pid {
        bridges.push(bridge)
    } else if bridges.last().pid == bridge.pid {
        bridges.drop_last().push(merged(bridges.last(), bridge))
    } else {
        with_bridge(bridges.drop_last(), bridge).push(bridges.last())
    }
}

/// The bridges that some files of the run directory stand for.
pub open spec fn gathered(
    family: Seq<char>,
    files: Seq<RunFile>,
    read: Seq<RunFile>,
) -> Seq<BridgeView>
    decreases read.len(),
{
    if read.len() == 0 {
        Seq::empty()
    } else {
        let before = gathered(family, files, read.drop_last());
        match file_bridge(family, files, read.last()) {
            Some(bridge) => with_bridge(before, bridge),
            None => before,
        }
    }
}

/// The bridges that the files of the run directory stand for, read in the order of their names.
pub open spec fn run_bridges(family: Seq<char>, files: Seq<RunFile>) -> Seq<BridgeView> {
    gathered(family, sorting::sorted(files), sorting::sorted(files))
}

/// What is known of some bridges.
pub open spec fn bridge_views(bridges: Seq<RawBridge>) -> Seq<BridgeView> {
    Seq::new(bridges.len(), |i: int| bridges[i]@)
}

fn merge_bridge_hints(bridge: RawBridge, other: RawBridge) -> (result: RawBridge)
    ensures
        result@ == merged(bridge@, other@),
{
    let label = if same_text(bridge.label.as_str(), "bridge") {
        other.label
    } else {
        bridge.label
    };
    RawBridge {
        label,
        pid: bridge.pid,
        team_hint: choose_text(bridge.team_hint, other.team_hint),
        agent_hint: choose_text(bridge.agent_hint, other.agent_hint),
        project_hint: choose_text(bridge.project_hint, other.project_hint),
    }
}

fn put_bridge(bridges: &mut Vec<RawBridge>, bridge: RawBridge)
    ensures
        bridge_views(final(bridges)@) == with_bridge(bridge_views(old(bridges)@), bridge@),
    decreases old(bridges)@.len(),
{
    let ghost before = bridge_views(bridges@);
    match bridges.pop() {
        None => {
            bridges.push(bridge);
            proof {
                assert(bridge_views(bridges@) =~= before.push(bridge@));
            }
        },
        Some(last) => {
            let ghost shorter = bridges@;
            proof {
                assert(bridge_views(shorter) =~= before.drop_last());
                assert(before.last() == last@);
            }
            if last.pid < bridge.pid {
                bridges.push(last);
                bridges.push(bridge);
                proof {
                    assert(bridge_views(bridges@) =~= before.push(bridge@));
                }
            } else if last.pid == bridge.pid {
                let ghost together = merged(last@, bridge@);
                bridges.push(merge_bridge_hints(last, bridge));
                proof {
                    assert(bridge_views(bridges@) =~= before.drop_last().push(together));
                }
            } else {
                put_bridge(bridges, bridge);
                let ghost inner = bridge_views(bridges@);
                bridges.push(last);
                proof {
                    assert(bridge_views(bridges@) =~= inner.push(last@));
                }
            }
        },
    }
}

/// Finds the bridges that the files of the run directory stand for.
pub fn discover_bridges(family: &str, files: Vec<RunFile>) -> (bridges: Vec<RawBridge>)
    ensures
        bridge_views(bridges@) == run_bridges(family@, files@),
{
    let sorted = sort(files);
    let mut bridges: Vec<RawBridge> = Vec::new();
    let mut index: usize = 0;
    proof {
        assert(sorted@.take(0) =~= Seq::empty());
        assert(bridge_views(bridges@) =~= Seq::empty());
    }
    while index < sorted.len()
        invariant
            index <= sorted@.len(),
            bridge_views(bridges@) == gathered(family@, sorted@, sorted@.take(index as int)),
        decreases sorted@.len() - index,
    {
        proof {
            assert(sorted@.take(index + 1).drop_last() =~= sorted@.take(index as int));
        }
        if let Some(bridge) = read_bridge(family, &sorted, &sorted[index]) {
            put_bridge(&mut bridges, bridge);
        }
        index += 1;
    }
    proof {
        assert(sorted@.take(index as int) =~= sorted@);
    }
    bridges
}

/// The processes go up, so no process is listed twice.
pub open spec fn pids_ascend(bridges: Seq<BridgeView>) -> bool {
    forall|i: int, j: int|
        0 <= i < j < bridges.len() ==> (#[trigger] bridges[i]).pid < (#[trigger] bridges[j]).pid
}

proof fn adding_keeps_pids_apart(bridges: Seq<BridgeView>, bridge: BridgeView)
    requires
        pids_ascend(bridges),
    ensures
        pids_ascend(with_bridge(bridges, bridge)),
        forall|i: int|
            0 <= i < with_bridge(bridges, bridge).len() ==> (#[trigger] with_bridge(
                bridges,
                bridge,
            )[i]).pid == bridge.pid || exists|k: int|
                0 <= k < bridges.len() && (#[trigger] bridges[k]).pid == with_bridge(
                    bridges,
                    bridge,
                )[i].pid,
    decreases bridges.len(),
{
    let all = with_bridge(bridges, bridge);
    if bridges.len() == 0 || bridges.last().pid < bridge.pid {
        assert forall|i: int| 0 <= i < bridges.len() implies (#[trigger] bridges[i]).pid
            < bridge.pid by {
            if i < bridges.len() - 1 {
                assert(bridges[i].pid < bridges[bridges.len() - 1].pid);
            }
        }
        assert forall|i: int| 0 <= i < all.len() implies (#[trigger] all[i]).pid == bridge.pid
            || exists|k: int| 0 <= k < bridges.len() && (#[trigger] bridges[k]).pid == all[i].pid by {
            if i < bridges.len() {
                assert(bridges[i].pid == all[i].pid);
            }
        }
    } else if bridges.last().pid == bridge.pid {
        assert forall|i: int| 0 <= i < all.len() implies (#[trigger] all[i]).pid == bridges[i].pid by {
        }
        assert forall|i: int, j: int| 0 <= i < j < all.len() implies (#[trigger] all[i]).pid < (
        #[trigger] all[j]).pid by {
            assert(bridges[i].pid < bridges[j].pid);
        }
    } else {
        let shorter = bridges.drop_last();
        adding_keeps_pids_apart(shorter, bridge);
        let inner = with_bridge(shorter, bridge);
        assert forall|i: int| 0 <= i < inner.len() implies (#[trigger] inner[i]).pid
            < bridges.last().pid && (inner[i].pid == bridge.pid || exists|k: int|
            0 <= k < bridges.len() && (#[trigger] bridges[k]).pid == inner[i].pid) by {
            if inner[i].pid != bridge.pid {
                let k = choose|k: int|
                    0 <= k < shorter.len() && (#[trigger] shorter[k]).pid == inner[i].pid;
                assert(bridges[k].pid == inner[i].pid);
                assert(bridges[k].pid < bridges[bridges.len() - 1].pid);
            }
        }
        assert(bridges[bridges.len() - 1] == bridges.last());
        assert forall|i: int| 0 <= i < all.len() implies (#[trigger] all[i]).pid == bridge.pid
            || exists|k: int| 0 <= k < bridges.len() && (#[trigger] bridges[k]).pid == all[i].pid by {
            if i < inner.len() {
                assert(all[i] == inner[i]);
            }
        }
    }
}

proof fn gathering_keeps_pids_apart(family: Seq<char>, files: Seq<RunFile>, read: Seq<RunFile>)
    ensures
        pids_ascend(gathered(family, files, read)),
    decreases read.len(),
{
    if read.len() > 0 {
        gathering_keeps_pids_apart(family, files, read.drop_last());
        if let Some(bridge) = file_bridge(family, files, read.last()) {
            adding_keeps_pids_apart(gathered(family, files, read.drop_last()), bridge);
        }
    }
}

/// Each process is found once, and the processes come in order.
pub proof fn bridges_are_found_once(family: Seq<char>, files: Seq<RunFile>)
    ensures
        pids_ascend(run_bridges(family, files)),
{
    gathering_keeps_pids_apart(family, sorting::sorted(files), sorting::sorted(files));
}

} // verus!

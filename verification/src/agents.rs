//! Agent names, the dialogs that manage agents, and the operations they start.

use crate::db::AgentIdentitySummary;
use crate::lines;
use crate::lines::strip_suffix;
use crate::search::{contains_char, strip_prefix};
use crate::strings;
use crate::strings::{
    char_is_control, char_is_digit, char_is_lower, chars_of, concat2, concat3, same_text,
};
use vstd::prelude::*;

verus! {

/// How many CLI types an agent can run on: that of the lead family, and the others.
pub const CLI_TYPE_COUNT: usize = 10;

/// The CLI types that are offered after that of the lead family, in this order. The name of the
/// lead family comes with the installation.
pub const CLI_TYPES: [&'static str; 9] = [
    "codex",
    "cursor",
    "gemini",
    "copilot",
    "opencode",
    "kimi",
    "hermes",
    "antigravity",
    "grok-build",
];

/// The CLI type of the lead family.
pub open spec fn lead_type(family: Seq<char>) -> Seq<char> {
    family + "-code"@
}

/// What a number follows in the names of the lead family's helpers.
pub open spec fn lead_helper(family: Seq<char>) -> Seq<char> {
    family + "-sub"@
}

/// The CLI type at a position of the list that is offered.
pub open spec fn cli_type(family: Seq<char>, position: int) -> Seq<char> {
    if position == 0 {
        lead_type(family)
    } else {
        CLI_TYPES@[position - 1]@
    }
}

/// Makes the CLI type of the lead family.
pub fn lead_cli_type(family: &str) -> (name: String)
    ensures
        name@ == lead_type(family@),
{
    concat2(family, "-code")
}

/// The lead family that a CLI type belongs to, if its name tells: what stands before `-code`.
pub open spec fn family_of(agent_type: Seq<char>) -> Option<Seq<char>> {
    match lines::without_suffix(agent_type, "-code"@) {
        Some(family) => if family.len() > 0 {
            Some(family)
        } else {
            None
        },
        None => None,
    }
}

/// The lead family by the registered agents: that of the first one whose CLI type tells.
pub fn registered_family(identities: &Vec<AgentIdentitySummary>) -> (family: Option<String>)
    ensures
        match family {
            Some(family) => exists|i: int|
                0 <= i < identities@.len() && family_of((#[trigger] identities@[i]).agent_type@)
                    == Some(family@) && forall|j: int|
                    0 <= j < i ==> family_of((#[trigger] identities@[j]).agent_type@) is None,
            None => forall|i: int|
                0 <= i < identities@.len() ==> family_of((#[trigger] identities@[i]).agent_type@)
                    is None,
        },
{
    let mut index: usize = 0;
    while index < identities.len()
        invariant
            index <= identities@.len(),
            forall|j: int|
                0 <= j < index ==> family_of((#[trigger] identities@[j]).agent_type@) is None,
        decreases identities@.len() - index,
    {
        if let Some(family) = strip_suffix(identities[index].agent_type.as_str(), "-code") {
            if !family.as_str().is_empty() {
                assert(family_of(identities@[index as int].agent_type@) == Some(family@));
                return Some(family);
            }
        }
        index += 1;
    }
    None
}

/// The list that the cursor of the agents screen moves in.
#[derive(Clone, Copy, Debug, PartialEq, Eq, Structural)]
pub enum AgentFocus {
    Teams,
    Identities,
}

/// The step that the spawn dialog is at.
#[derive(Clone, Copy, Debug, PartialEq, Eq, Structural)]
pub enum SpawnStep {
    Team,
    NewTeam,
    CliType,
    Name,
}

/// What has been entered in the spawn dialog so far.
#[derive(Debug, PartialEq, Eq)]
pub struct SpawnModalState {
    pub step: SpawnStep,
    pub team_index: usize,
    pub new_team: bool,
    pub team_input: String,
    pub type_index: usize,
    pub name: String,
}

impl SpawnModalState {
    /// The dialog as it opens, with the cursor on a team.
    pub fn new(team_index: usize) -> (state: Self)
        ensures
            state.step == SpawnStep::Team,
            state.team_index == team_index,
            !state.new_team,
            state.team_input@ == Seq::<char>::empty(),
            state.type_index == 0,
            state.name@ == Seq::<char>::empty(),
    {
        SpawnModalState {
            step: SpawnStep::Team,
            team_index,
            new_team: false,
            team_input: String::new(),
            type_index: 0,
            name: String::new(),
        }
    }

    /// The position in the list of CLI types; past its end, the last one.
    pub open spec fn type_position(self) -> int {
        if self.type_index < CLI_TYPE_COUNT {
            self.type_index as int
        } else {
            CLI_TYPE_COUNT - 1
        }
    }

    /// The selected CLI type.
    pub fn agent_type(&self, family: &str) -> (name: String)
        ensures
            name@ == cli_type(family@, self.type_position()),
    {
        if self.type_index == 0 {
            lead_cli_type(family)
        } else if self.type_index < CLI_TYPE_COUNT {
            CLI_TYPES[self.type_index - 1].to_owned()
        } else {
            CLI_TYPES[CLI_TYPE_COUNT - 2].to_owned()
        }
    }
}

/// The dialog that is open on the agents screen.
#[derive(Debug, PartialEq, Eq)]
pub enum AgentModal {
    Spawn(SpawnModalState),
    Rename { target: AgentIdentitySummary, input: String, confirming: bool, self_rename: bool },
    RenameTeam { old: String, input: String, confirming: bool },
    Reset { target: AgentIdentitySummary, confirm: String, blocked: bool },
    Leave { team: String, agent: String, confirm: String },
    JoinForce { team: String, agent: String, agent_type: String, project: String },
}

/// An operation on agents, delegated to a script.
#[derive(Debug, PartialEq, Eq)]
pub enum AgentOperation {
    Spawn { team: String, agent_type: String, name: String },
    Join { team: String, agent: String, agent_type: String, project: String },
    JoinForce { team: String, agent: String, agent_type: String, project: String },
    Rename { team: String, old: String, new: String, self_rename: bool },
    RenameTeam { old: String, new: String },
    Reset { project: String, agent_type: String, agent: String },
    Leave { team: String, agent: String },
}

/// The name is one of the two that stand for directories.
pub open spec fn is_dot_name(name: Seq<char>) -> bool {
    name == "."@ || name == ".."@
}

/// Some character of the text is a control character.
pub open spec fn has_control(text: Seq<char>) -> bool {
    exists|i: int| 0 <= i < text.len() && strings::is_control_char(#[trigger] text[i])
}

fn any_control(text: &str) -> (found: bool)
    ensures
        found == has_control(text@),
{
    let chars = chars_of(text);
    let mut index: usize = 0;
    while index < chars.len()
        invariant
            index <= chars@.len(),
            chars@ == text@,
            forall|i: int| 0 <= i < index ==> !strings::is_control_char(#[trigger] chars@[i]),
        decreases chars@.len() - index,
    {
        if char_is_control(chars[index]) {
            assert(strings::is_control_char(text@[index as int]));
            return true;
        }
        index += 1;
    }
    false
}

/// Why a team name is refused; `None` if it is accepted.
pub open spec fn team_name_error(name: Seq<char>) -> Option<Seq<char>> {
    if name.len() == 0 {
        Some("team name is required"@)
    } else if is_dot_name(name) {
        Some("'.' and '..' are forbidden"@)
    } else if name[0] == '-' {
        Some("team name cannot start with '-'"@)
    } else if name.contains('/') || name.contains('\\') {
        Some("team name cannot contain '/' or '\\'"@)
    } else if has_control(name) {
        Some("team name cannot contain control characters"@)
    } else {
        None
    }
}

/// The outcome of a validation is the given error, or success if there is none.
pub open spec fn validates_as(result: Result<(), String>, error: Option<Seq<char>>) -> bool {
    match result {
        Ok(()) => error is None,
        Err(text) => error == Some(text@),
    }
}

/// Checks the name of a team that is to be created or renamed to.
pub fn validate_team_name(name: &str) -> (result: Result<(), String>)
    ensures
        validates_as(result, team_name_error(name@)),
{
    if name.is_empty() {
        return Err("team name is required".to_owned());
    }
    if same_text(name, ".") || same_text(name, "..") {
        return Err("'.' and '..' are forbidden".to_owned());
    }
    if name.get_char(0) == '-' {
        return Err("team name cannot start with '-'".to_owned());
    }
    if contains_char(name, '/') || contains_char(name, '\\') {
        return Err("team name cannot contain '/' or '\\'".to_owned());
    }
    if any_control(name) {
        return Err("team name cannot contain control characters".to_owned());
    }
    Ok(())
}

/// A character that no agent name may hold.
pub open spec fn is_forbidden_char(character: char) -> bool {
    strings::is_control_char(character) || character == '.' || character == '\\' || character == '/'
        || character == '"' || character == '[' || character == ']'
}

fn any_forbidden(text: &str) -> (found: bool)
    ensures
        found == exists|i: int| 0 <= i < text@.len() && is_forbidden_char(#[trigger] text@[i]),
{
    let chars = chars_of(text);
    let mut index: usize = 0;
    while index < chars.len()
        invariant
            index <= chars@.len(),
            chars@ == text@,
            forall|i: int| 0 <= i < index ==> !is_forbidden_char(#[trigger] chars@[i]),
        decreases chars@.len() - index,
    {
        let character = chars[index];
        if char_is_control(character) || character == '.' || character == '\\' || character == '/'
            || character == '"' || character == '[' || character == ']' {
            assert(is_forbidden_char(text@[index as int]));
            return true;
        }
        index += 1;
    }
    false
}

/// Every character is an ASCII digit.
pub open spec fn all_digits(text: Seq<char>) -> bool {
    forall|i: int| 0 <= i < text.len() ==> strings::is_digit(#[trigger] text[i])
}

/// Whether every character is an ASCII digit.
pub fn is_all_digits(text: &str) -> (all: bool)
    ensures
        all == all_digits(text@),
{
    let chars = chars_of(text);
    let mut index: usize = 0;
    while index < chars.len()
        invariant
            index <= chars@.len(),
            chars@ == text@,
            forall|i: int| 0 <= i < index ==> strings::is_digit(#[trigger] chars@[i]),
        decreases chars@.len() - index,
    {
        if !char_is_digit(chars[index]) {
            assert(!strings::is_digit(text@[index as int]));
            return false;
        }
        index += 1;
    }
    true
}

pub open spec fn is_role_char(character: char) -> bool {
    strings::is_lower(character) || strings::is_digit(character) || character == '-'
}

/// A role: lowercase letters, digits and hyphens, beginning with a letter or a digit.
pub open spec fn is_role(role: Seq<char>) -> bool {
    &&& role.len() > 0
    &&& role[0] != '-'
    &&& forall|i: int| 0 <= i < role.len() ==> is_role_char(#[trigger] role[i])
}

fn check_role(role: &str) -> (valid: bool)
    ensures
        valid == is_role(role@),
{
    let chars = chars_of(role);
    if chars.len() == 0 || chars[0] == '-' {
        return false;
    }
    let mut index: usize = 0;
    while index < chars.len()
        invariant
            index <= chars@.len(),
            chars@ == role@,
            forall|i: int| 0 <= i < index ==> is_role_char(#[trigger] chars@[i]),
        decreases chars@.len() - index,
    {
        let character = chars[index];
        if !char_is_lower(character) && !char_is_digit(character) && character != '-' {
            assert(!is_role_char(role@[index as int]));
            return false;
        }
        index += 1;
    }
    true
}

/// The name is the agent type, a hyphen and a role.
pub open spec fn has_role_form(name: Seq<char>, agent_type: Seq<char>) -> bool {
    agent_type.push('-').is_prefix_of(name)
}

/// What follows the agent type and the hyphen.
pub open spec fn role_of(name: Seq<char>, agent_type: Seq<char>) -> Seq<char> {
    name.skip(agent_type.len() as int + 1)
}

/// Why an agent name is refused for an agent type; `None` if it is accepted.
pub open spec fn agent_name_error(name: Seq<char>, agent_type: Seq<char>) -> Option<Seq<char>> {
    if name.len() == 0 {
        Some("agent name is required"@)
    } else if is_dot_name(name) {
        Some("'.' and '..' are forbidden"@)
    } else if name[0] == '-' {
        Some("agent name cannot start with '-'"@)
    } else if exists|i: int| 0 <= i < name.len() && is_forbidden_char(#[trigger] name[i]) {
        Some("agent name contains a forbidden character"@)
    } else if name == agent_type {
        None
    } else if !has_role_form(name, agent_type) {
        Some("use "@ + agent_type + "[-role]"@)
    } else if !is_role(role_of(name, agent_type)) {
        Some("use "@ + agent_type + "[-role] with lowercase letters"@)
    } else if all_digits(role_of(name, agent_type)) {
        Some("numbered roles are forbidden; use a role such as -review"@)
    } else {
        None
    }
}

/// Checks the name of an agent that is to be spawned or renamed to: the agent type itself, or the
/// agent type, a hyphen and a role that is not a number.
pub fn validate_agent_name(name: &str, agent_type: &str) -> (result: Result<(), String>)
    ensures
        validates_as(result, agent_name_error(name@, agent_type@)),
{
    if name.is_empty() {
        return Err("agent name is required".to_owned());
    }
    if same_text(name, ".") || same_text(name, "..") {
        return Err("'.' and '..' are forbidden".to_owned());
    }
    if name.get_char(0) == '-' {
        return Err("agent name cannot start with '-'".to_owned());
    }
    if any_forbidden(name) {
        return Err("agent name contains a forbidden character".to_owned());
    }
    if same_text(name, agent_type) {
        return Ok(());
    }
    let mut prefix = agent_type.to_owned();
    prefix.push('-');
    let role = match strip_prefix(name, prefix.as_str()) {
        Some(role) => role,
        None => {
            return Err(concat3("use ", agent_type, "[-role]"));
        },
    };
    if !check_role(role.as_str()) {
        return Err(concat3("use ", agent_type, "[-role] with lowercase letters"));
    }
    if is_all_digits(role.as_str()) {
        return Err("numbered roles are forbidden; use a role such as -review".to_owned());
    }
    Ok(())
}

} // verus!

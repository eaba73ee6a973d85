//! The keys that open screens, and how a file can change them.
//!
//! Only the keys that act everywhere or open a screen can be changed. The default bindings are the
//! single source of both the default key map and the file that shows it.

pub mod chord;
pub mod map;

use crate::strings::same_text;
use vstd::prelude::*;

verus! {

/// What a key can be bound to.
#[derive(Clone, Copy, Debug, PartialEq, Eq, Hash, Structural)]
pub enum Action {
    Quit,
    Help,
    Compose,
    Audit,
    Agents,
    Health,
    Bulk,
    Filter,
    NotifSettings,
    Split,
    Replay,
    NavUp,
    NavDown,
    TabNext,
    LaunchagentToggle,
}

/// The name of an action in the file.
pub open spec fn action_name(action: Action) -> Seq<char> {
    match action {
        Action::Quit => "quit"@,
        Action::Help => "help"@,
        Action::Compose => "compose"@,
        Action::Audit => "audit"@,
        Action::Agents => "agents"@,
        Action::Health => "health"@,
        Action::Bulk => "bulk"@,
        Action::Filter => "filter"@,
        Action::NotifSettings => "notif_settings"@,
        Action::Split => "split"@,
        Action::Replay => "replay"@,
        Action::NavUp => "nav_up"@,
        Action::NavDown => "nav_down"@,
        Action::TabNext => "tab_next"@,
        Action::LaunchagentToggle => "launchagent_toggle"@,
    }
}

/// The action of a name.
pub open spec fn action_named(name: Seq<char>) -> Option<Action> {
    if name == "quit"@ {
        Some(Action::Quit)
    } else if name == "help"@ {
        Some(Action::Help)
    } else if name == "compose"@ {
        Some(Action::Compose)
    } else if name == "audit"@ {
        Some(Action::Audit)
    } else if name == "agents"@ {
        Some(Action::Agents)
    } else if name == "health"@ {
        Some(Action::Health)
    } else if name == "bulk"@ {
        Some(Action::Bulk)
    } else if name == "filter"@ {
        Some(Action::Filter)
    } else if name == "notif_settings"@ {
        Some(Action::NotifSettings)
    } else if name == "split"@ {
        Some(Action::Split)
    } else if name == "replay"@ {
        Some(Action::Replay)
    } else if name == "nav_up"@ {
        Some(Action::NavUp)
    } else if name == "nav_down"@ {
        Some(Action::NavDown)
    } else if name == "tab_next"@ {
        Some(Action::TabNext)
    } else if name == "launchagent_toggle"@ {
        Some(Action::LaunchagentToggle)
    } else {
        None
    }
}

impl Action {
    /// The name of the action in the file.
    pub fn name(self) -> (name: &'static str)
        ensures
            name@ == action_name(self),
    {
        match self {
            Action::Quit => "quit",
            Action::Help => "help",
            Action::Compose => "compose",
            Action::Audit => "audit",
            Action::Agents => "agents",
            Action::Health => "health",
            Action::Bulk => "bulk",
            Action::Filter => "filter",
            Action::NotifSettings => "notif_settings",
            Action::Split => "split",
            Action::Replay => "replay",
            Action::NavUp => "nav_up",
            Action::NavDown => "nav_down",
            Action::TabNext => "tab_next",
            Action::LaunchagentToggle => "launchagent_toggle",
        }
    }

    /// The action of a name.
    pub fn from_name(name: &str) -> (action: Option<Action>)
        ensures
            action == action_named(name@),
    {
        if same_text(name, "quit") {
            Some(Action::Quit)
        } else if same_text(name, "help") {
            Some(Action::Help)
        } else if same_text(name, "compose") {
            Some(Action::Compose)
        } else if same_text(name, "audit") {
            Some(Action::Audit)
        } else if same_text(name, "agents") {
            Some(Action::Agents)
        } else if same_text(name, "health") {
            Some(Action::Health)
        } else if same_text(name, "bulk") {
            Some(Action::Bulk)
        } else if same_text(name, "filter") {
            Some(Action::Filter)
        } else if same_text(name, "notif_settings") {
            Some(Action::NotifSettings)
        } else if same_text(name, "split") {
            Some(Action::Split)
        } else if same_text(name, "replay") {
            Some(Action::Replay)
        } else if same_text(name, "nav_up") {
            Some(Action::NavUp)
        } else if same_text(name, "nav_down") {
            Some(Action::NavDown)
        } else if same_text(name, "tab_next") {
            Some(Action::TabNext)
        } else if same_text(name, "launchagent_toggle") {
            Some(Action::LaunchagentToggle)
        } else {
            None
        }
    }
}

/// An action is found under its name.
pub proof fn actions_are_found_by_name(action: Action)
    ensures
        action_named(action_name(action)) == Some(action),
{
    reveal_strlit("quit");
    reveal_strlit("help");
    reveal_strlit("compose");
    reveal_strlit("audit");
    reveal_strlit("agents");
    reveal_strlit("health");
    reveal_strlit("bulk");
    reveal_strlit("filter");
    reveal_strlit("notif_settings");
    reveal_strlit("split");
    reveal_strlit("replay");
    reveal_strlit("nav_up");
    reveal_strlit("nav_down");
    reveal_strlit("tab_next");
    reveal_strlit("launchagent_toggle");
    assert("quit"@.len() == 4 && "quit"@[0] == 'q');
    assert("help"@.len() == 4 && "help"@[0] == 'h');
    assert("compose"@.len() == 7 && "compose"@[0] == 'c');
    assert("audit"@.len() == 5 && "audit"@[0] == 'a');
    assert("agents"@.len() == 6 && "agents"@[0] == 'a');
    assert("health"@.len() == 6 && "health"@[0] == 'h');
    assert("bulk"@.len() == 4 && "bulk"@[0] == 'b');
    assert("filter"@.len() == 6 && "filter"@[0] == 'f');
    assert("notif_settings"@.len() == 14 && "notif_settings"@[0] == 'n');
    assert("split"@.len() == 5 && "split"@[0] == 's');
    assert("replay"@.len() == 6 && "replay"@[0] == 'r');
    assert("nav_up"@.len() == 6 && "nav_up"@[0] == 'n');
    assert("nav_down"@.len() == 8 && "nav_down"@[0] == 'n');
    assert("tab_next"@.len() == 8 && "tab_next"@[0] == 't');
    assert("launchagent_toggle"@.len() == 18 && "launchagent_toggle"@[0] == 'l');
}

} // verus!

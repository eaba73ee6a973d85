//! The health screen.

use crate::app::model::HealthScreen;
use crate::app::status;
use crate::app::status::{clamp_index, step_down};
use crate::health::{HealthSnapshot, TeamHealth};
use crate::input::{KeyCode, KeyEvent};
use vstd::prelude::*;

verus! {

/// What a key asks for beyond the health screen.
#[derive(Clone, Copy, Debug, PartialEq, Eq, Structural)]
pub enum HealthRequest {
    Nothing,
    Quit,
    LeaveScreen,
    Refresh,
    Help,
}

impl HealthScreen {
    /// How many teams are listed.
    pub open spec fn team_count(self) -> int {
        match self.snapshot {
            Some(snapshot) => snapshot.teams@.len() as int,
            None => 0,
        }
    }

    /// The team under the cursor.
    pub open spec fn team(self) -> Option<TeamHealth> {
        match self.snapshot {
            Some(snapshot) => if self.team_index < snapshot.teams@.len() {
                Some(snapshot.teams@[self.team_index as int])
            } else {
                None
            },
            None => None,
        }
    }

    /// The team under the cursor.
    pub fn current_health_team(&self) -> (team: Option<&TeamHealth>)
        ensures
            match team {
                Some(team) => self.team() == Some(*team),
                None => self.team() is None,
            },
    {
        match &self.snapshot {
            Some(snapshot) => if self.team_index < snapshot.teams.len() {
                Some(&snapshot.teams[self.team_index])
            } else {
                None
            },
            None => None,
        }
    }

    /// What a key does to the screen.
    pub open spec fn after_key(self, key: KeyEvent) -> HealthScreen {
        match key.code {
            KeyCode::Char('j') | KeyCode::Down => HealthScreen {
                team_index: status::stepped_down(
                    self.team_index as int,
                    self.team_count(),
                ) as usize,
                ..self
            },
            KeyCode::Char('k') | KeyCode::Up => HealthScreen {
                team_index: if self.team_index == 0 {
                    0
                } else {
                    (self.team_index - 1) as usize
                },
                ..self
            },
            KeyCode::Char('t') => HealthScreen {
                window_days: if self.window_days == 7 {
                    30
                } else {
                    7
                },
                ..self
            },
            _ => self,
        }
    }

    /// What a key asks for.
    pub open spec fn request_of(key: KeyEvent) -> HealthRequest {
        match key.code {
            KeyCode::Char('q') => HealthRequest::Quit,
            KeyCode::Esc | KeyCode::Char('H') => HealthRequest::LeaveScreen,
            KeyCode::Char('R') => HealthRequest::Refresh,
            KeyCode::Char('?') => HealthRequest::Help,
            _ => HealthRequest::Nothing,
        }
    }

    /// Applies a key to the screen.
    pub fn key(&mut self, key: KeyEvent) -> (request: HealthRequest)
        ensures
            *final(self) == old(self).after_key(key),
            request == HealthScreen::request_of(key),
    {
        match key.code {
            KeyCode::Char('q') => HealthRequest::Quit,
            KeyCode::Esc | KeyCode::Char('H') => HealthRequest::LeaveScreen,
            KeyCode::Char('j') | KeyCode::Down => {
                let count: usize = match &self.snapshot {
                    Some(snapshot) => snapshot.teams.len(),
                    None => 0,
                };
                self.team_index = step_down(self.team_index, count);
                HealthRequest::Nothing
            },
            KeyCode::Char('k') | KeyCode::Up => {
                if self.team_index > 0 {
                    self.team_index = self.team_index - 1;
                }
                HealthRequest::Nothing
            },
            KeyCode::Char('t') => {
                self.window_days = if self.window_days == 7 {
                    30
                } else {
                    7
                };
                HealthRequest::Nothing
            },
            KeyCode::Char('R') => HealthRequest::Refresh,
            KeyCode::Char('?') => HealthRequest::Help,
            _ => HealthRequest::Nothing,
        }
    }

    /// The screen with a new snapshot.
    pub open spec fn refreshed(self, snapshot: HealthSnapshot) -> HealthScreen {
        HealthScreen {
            loading: false,
            team_index: status::clamped_index(
                self.team_index as int,
                snapshot.teams@.len() as int,
            ) as usize,
            snapshot: Some(snapshot),
            ..self
        }
    }

    /// Takes a new snapshot and keeps the cursor within it.
    pub fn take_snapshot(&mut self, snapshot: HealthSnapshot)
        ensures
            *final(self) == old(self).refreshed(snapshot),
    {
        self.loading = false;
        self.team_index = clamp_index(self.team_index, snapshot.teams.len());
        self.snapshot = Some(snapshot);
    }
}

} // verus!

//! What each key does on the main screen.

use crate::app::model::{Focus, InputMode, Room};
use crate::app::room_search::SearchStep;
use crate::app::status;
use crate::app::status::{error_status, info_status, next_index, StatusLine};
use crate::input::{KeyCode, KeyEvent};
use vstd::prelude::*;

verus! {

/// What a key asks for beyond the lists of the main screen.
#[derive(Debug)]
pub enum MainRequest {
    Nothing,
    Quit,
    Help,
    /// Read the team under the cursor.
    ReloadTeam,
    OlderHistory,
    HalfPageUp,
    /// Search the store for what was typed.
    Find,
    OpenComposer,
    OpenMemberComposer,
    MarkSelected,
    MarkTeam,
    MarkMember,
    MemberInfo,
    SpawnFromMembers,
    RenameFromMembers,
    OpenAudit,
    OpenAgents,
    OpenHealth,
    OpenBulkFilter,
    ToggleBell,
    NotifyPopup,
    Yank(String),
}

impl Room {
    /// The screen after its cursor moved down by one.
    pub open spec fn moved_down(self) -> Room {
        match self.focus {
            Focus::Teams => Room {
                selected_team: status::stepped_down(
                    self.selected_team as int,
                    self.teams@.len() as int,
                ) as usize,
                ..self
            },
            Focus::Members => Room {
                selected_member: status::stepped_down(
                    self.selected_member as int,
                    self.members@.len() as int,
                ) as usize,
                ..self
            },
            Focus::Room => Room {
                selected_message: match crate::app::filters::next_visible(
                    self.messages@,
                    self.member_filter,
                    self.search_query,
                    self.selected_message as int,
                ) {
                    Some(next) => next as usize,
                    None => self.selected_message,
                },
                ..self
            },
        }
    }

    /// The screen after its cursor moved to the first row.
    pub open spec fn moved_first(self) -> Room {
        match self.focus {
            Focus::Teams => Room { selected_team: 0, ..self },
            Focus::Members => Room { selected_member: 0, ..self },
            Focus::Room => Room {
                selected_message: match crate::app::filters::next_visible(
                    self.messages@,
                    self.member_filter,
                    self.search_query,
                    -1,
                ) {
                    Some(first) => first as usize,
                    None => self.selected_message,
                },
                ..self
            },
        }
    }

    /// The screen after its cursor moved to the last row.
    pub open spec fn moved_last(self) -> Room {
        match self.focus {
            Focus::Teams => Room {
                selected_team: status::last_index(self.teams@.len() as int) as usize,
                ..self
            },
            Focus::Members => Room {
                selected_member: status::last_index(self.members@.len() as int) as usize,
                ..self
            },
            Focus::Room => Room {
                selected_message: match crate::app::filters::previous_visible(
                    self.messages@,
                    self.member_filter,
                    self.search_query,
                    self.messages@.len() as int,
                ) {
                    Some(last) => last as usize,
                    None => self.selected_message,
                },
                ..self
            },
        }
    }

    /// What going to the next or the previous team does.
    pub open spec fn cycle_team_post(self, forward: bool, after: Room, request: MainRequest) -> bool {
        let count = self.teams@.len() as int;
        if count == 0 {
            after == self && request is Nothing
        } else {
            &&& request is ReloadTeam
            &&& after == (Room {
                selected_team: if forward {
                    status::ring_next(self.selected_team as int, count) as usize
                } else if self.selected_team == 0 {
                    (count - 1) as usize
                } else {
                    (self.selected_team - 1) as usize
                },
                ..self
            })
        }
    }

    fn cycle_team(&mut self, forward: bool) -> (request: MainRequest)
        ensures
            old(self).cycle_team_post(forward, *final(self), request),
    {
        let count: usize = self.teams.len();
        if count == 0 {
            return MainRequest::Nothing;
        }
        self.selected_team = if forward {
            next_index(self.selected_team, count)
        } else if self.selected_team == 0 {
            count - 1
        } else {
            self.selected_team - 1
        };
        MainRequest::ReloadTeam
    }

    /// What Escape does: it ends the search, or else the filter.
    pub open spec fn escape_post(self, after: Room, line: Option<StatusLine>) -> bool {
        if self.search_query is Some {
            self.clear_search_post(after, line)
        } else if self.member_filter is Some {
            after == (Room { member_filter: None, ..self }) && status::tells(
                line,
                "filter cleared"@,
            )
        } else {
            after == self && line is None
        }
    }

    fn escape(&mut self) -> (line: Option<StatusLine>)
        ensures
            old(self).escape_post(*final(self), line),
    {
        if self.search_query.is_some() {
            return self.clear_search();
        }
        if self.member_filter.is_some() {
            self.member_filter = None;
            return Some(info_status("filter cleared"));
        }
        None
    }

    /// What a key with Control does.
    pub open spec fn control_key_post(
        self,
        character: char,
        after: Room,
        request: MainRequest,
    ) -> bool {
        match character {
            'f' => after == self && request is OpenBulkFilter,
            'a' => after == self && request is OpenAudit,
            'b' => after == self && request is ToggleBell,
            'n' => after == self && request is NotifyPopup,
            'd' => request is Nothing && after == if self.focus == Focus::Room {
                self.half_page(true)
            } else {
                self
            },
            _ => after == self && if self.focus == Focus::Room {
                request is HalfPageUp
            } else {
                request is Nothing
            },
        }
    }

    fn control_key(&mut self, character: char) -> (request: MainRequest)
        ensures
            old(self).control_key_post(character, *final(self), request),
    {
        match character {
            'f' => MainRequest::OpenBulkFilter,
            'a' => MainRequest::OpenAudit,
            'b' => MainRequest::ToggleBell,
            'n' => MainRequest::NotifyPopup,
            'd' => {
                if self.focus == Focus::Room {
                    self.move_half_page_loaded(true);
                }
                MainRequest::Nothing
            },
            _ => {
                if self.focus == Focus::Room {
                    MainRequest::HalfPageUp
                } else {
                    MainRequest::Nothing
                }
            },
        }
    }

    /// The key is one of those that mean something else with Control.
    pub open spec fn control_of(key: KeyEvent) -> Option<char> {
        match key.code {
            KeyCode::Char(character) => if key.modifiers.control && (character == 'f' || character
                == 'a' || character == 'b' || character == 'n' || character == 'd' || character
                == 'u') {
                Some(character)
            } else {
                None
            },
            _ => None,
        }
    }

    fn find_control(key: KeyEvent) -> (found: Option<char>)
        ensures
            found == Room::control_of(key),
    {
        match key.code {
            KeyCode::Char(character) => if key.modifiers.control && (character == 'f' || character
                == 'a' || character == 'b' || character == 'n' || character == 'd' || character
                == 'u') {
                Some(character)
            } else {
                None
            },
            _ => None,
        }
    }

    /// What the keys that move the cursor do.
    pub open spec fn motion_post(self, key: KeyEvent, after: Room, request: MainRequest) -> bool {
        match key.code {
            KeyCode::Tab => request is Nothing && after == (Room {
                focus: self.focus.following(),
                ..self
            }),
            KeyCode::BackTab => request is Nothing && after == (Room {
                focus: self.focus.preceding(),
                ..self
            }),
            KeyCode::Char('j') | KeyCode::Down => request is Nothing && after == self.moved_down(),
            KeyCode::Char('k') | KeyCode::Up => if self.focus == Focus::Room
                && self.selected_message == 0 && self.has_more_history {
                after == self && request is OlderHistory
            } else {
                after == self.moved_up() && request is Nothing
            },
            KeyCode::Char('g') => request is Nothing && after == self.moved_first(),
            KeyCode::Char('G') => request is Nothing && after == self.moved_last(),
            KeyCode::Char('[') => self.cycle_team_post(false, after, request),
            _ => self.cycle_team_post(true, after, request),
        }
    }

    fn motion(&mut self, key: KeyEvent) -> (request: MainRequest)
        ensures
            old(self).motion_post(key, *final(self), request),
    {
        match key.code {
            KeyCode::Tab => {
                self.focus = self.focus.next();
                MainRequest::Nothing
            },
            KeyCode::BackTab => {
                self.focus = self.focus.previous();
                MainRequest::Nothing
            },
            KeyCode::Char('j') | KeyCode::Down => {
                self.move_down();
                MainRequest::Nothing
            },
            KeyCode::Char('k') | KeyCode::Up => {
                if self.focus == Focus::Room && self.selected_message == 0
                    && self.has_more_history {
                    return MainRequest::OlderHistory;
                }
                self.move_up_loaded();
                MainRequest::Nothing
            },
            KeyCode::Char('g') => {
                self.move_first();
                MainRequest::Nothing
            },
            KeyCode::Char('G') => {
                self.move_last();
                MainRequest::Nothing
            },
            KeyCode::Char('[') => self.cycle_team(false),
            _ => self.cycle_team(true),
        }
    }

    /// What the keys that act on messages do.
    pub open spec fn message_key_post(
        self,
        key: KeyEvent,
        after: Room,
        line: Option<StatusLine>,
        request: MainRequest,
    ) -> bool {
        match key.code {
            KeyCode::Char('u') => self.next_unread_post(after, line) && request is Nothing,
            KeyCode::Char('x') | KeyCode::Char('X') => self.fold_post(after, line)
                && request is Nothing,
            KeyCode::Char('f') => self.fold_all_post(after, line) && request is Nothing,
            KeyCode::Char('s') => self.jump_post(after, line) && request is Nothing,
            KeyCode::Char('F') => self.member_filter_post(after, line) && request is Nothing,
            KeyCode::Char('/') => self.begin_search_post(after, line) && request is Nothing,
            KeyCode::Char('n') => self.cycle_match_post(true, after, line) && request is Nothing,
            KeyCode::Char('N') => self.cycle_match_post(false, after, line) && request is Nothing,
            _ => {
                &&& after == self
                &&& match self.current_message() {
                    Some(message) => line is None && (request matches MainRequest::Yank(body)
                        && body@ == message.body@),
                    None => status::objects(line, "no message selected"@) && request is Nothing,
                }
            },
        }
    }

    fn message_key(&mut self, key: KeyEvent) -> (result: (Option<StatusLine>, MainRequest))
        ensures
            old(self).message_key_post(key, *final(self), result.0, result.1),
    {
        match key.code {
            KeyCode::Char('u') => (self.move_to_next_unread(), MainRequest::Nothing),
            KeyCode::Char('x') | KeyCode::Char('X') => {
                (self.toggle_message_fold(), MainRequest::Nothing)
            },
            KeyCode::Char('f') => (self.toggle_fold_all(), MainRequest::Nothing),
            KeyCode::Char('s') => (self.jump_to_sender(), MainRequest::Nothing),
            KeyCode::Char('F') => (self.toggle_member_filter(), MainRequest::Nothing),
            KeyCode::Char('/') => (self.begin_search(), MainRequest::Nothing),
            KeyCode::Char('n') => (self.cycle_search_match(true), MainRequest::Nothing),
            KeyCode::Char('N') => (self.cycle_search_match(false), MainRequest::Nothing),
            _ => match self.selected_message_body() {
                Some(body) => (None, MainRequest::Yank(body.to_owned())),
                None => (Some(error_status("no message selected")), MainRequest::Nothing),
            },
        }
    }

    /// What a key asks for without changing the lists.
    pub open spec fn errand_of(self, key: KeyEvent) -> Option<MainRequest> {
        match key.code {
            KeyCode::Char('q') => Some(MainRequest::Quit),
            KeyCode::Char('c') => Some(MainRequest::OpenComposer),
            KeyCode::Char('r') => Some(MainRequest::MarkSelected),
            KeyCode::Char('n') => if self.focus == Focus::Members {
                Some(MainRequest::SpawnFromMembers)
            } else {
                None
            },
            KeyCode::Char('R') => Some(
                if self.focus == Focus::Members {
                    MainRequest::RenameFromMembers
                } else {
                    MainRequest::MarkTeam
                },
            ),
            KeyCode::Char('a') => Some(MainRequest::OpenAudit),
            KeyCode::Char('A') => Some(MainRequest::OpenAgents),
            KeyCode::Char('H') => Some(MainRequest::OpenHealth),
            KeyCode::Char('I') => Some(MainRequest::MemberInfo),
            KeyCode::Char('M') => Some(MainRequest::MarkMember),
            KeyCode::Char('?') => Some(MainRequest::Help),
            KeyCode::Enter => match self.focus {
                Focus::Teams => Some(MainRequest::ReloadTeam),
                Focus::Members => Some(MainRequest::OpenMemberComposer),
                Focus::Room => None,
            },
            _ => None,
        }
    }

    fn find_errand(&self, key: KeyEvent) -> (request: Option<MainRequest>)
        ensures
            request == self.errand_of(key),
    {
        match key.code {
            KeyCode::Char('q') => Some(MainRequest::Quit),
            KeyCode::Char('c') => Some(MainRequest::OpenComposer),
            KeyCode::Char('r') => Some(MainRequest::MarkSelected),
            KeyCode::Char('n') => if self.focus == Focus::Members {
                Some(MainRequest::SpawnFromMembers)
            } else {
                None
            },
            KeyCode::Char('R') => Some(
                if self.focus == Focus::Members {
                    MainRequest::RenameFromMembers
                } else {
                    MainRequest::MarkTeam
                },
            ),
            KeyCode::Char('a') => Some(MainRequest::OpenAudit),
            KeyCode::Char('A') => Some(MainRequest::OpenAgents),
            KeyCode::Char('H') => Some(MainRequest::OpenHealth),
            KeyCode::Char('I') => Some(MainRequest::MemberInfo),
            KeyCode::Char('M') => Some(MainRequest::MarkMember),
            KeyCode::Char('?') => Some(MainRequest::Help),
            KeyCode::Enter => match self.focus {
                Focus::Teams => Some(MainRequest::ReloadTeam),
                Focus::Members => Some(MainRequest::OpenMemberComposer),
                Focus::Room => None,
            },
            _ => None,
        }
    }

    /// What a key does while keys are commands.
    pub open spec fn command_post(
        self,
        key: KeyEvent,
        after: Room,
        line: Option<StatusLine>,
        request: MainRequest,
    ) -> bool {
        if Room::control_of(key) is Some {
            self.control_key_post(Room::control_of(key)->Some_0, after, request) && line is None
        } else if key.code == KeyCode::Esc {
            self.escape_post(after, line) && request is Nothing
        } else if self.errand_of(key) is Some {
            after == self && line is None && Some(request) == self.errand_of(key)
        } else {
            match key.code {
                KeyCode::Tab | KeyCode::BackTab | KeyCode::Char('j') | KeyCode::Down
                | KeyCode::Char('k') | KeyCode::Up | KeyCode::Char('g') | KeyCode::Char('G')
                | KeyCode::Char('[') | KeyCode::Char(']') => self.motion_post(key, after, request)
                    && line is None,
                KeyCode::Char('u') | KeyCode::Char('x') | KeyCode::Char('X') | KeyCode::Char('f')
                | KeyCode::Char('s') | KeyCode::Char('F') | KeyCode::Char('/') | KeyCode::Char('n')
                | KeyCode::Char('N') | KeyCode::Char('y') => self.message_key_post(
                    key,
                    after,
                    line,
                    request,
                ),
                KeyCode::Enter => self.fold_post(after, line) && request is Nothing,
                _ => after == self && line is None && request is Nothing,
            }
        }
    }

    /// What a key does: a search that is being typed takes it first.
    pub open spec fn key_post(
        self,
        key: KeyEvent,
        after: Room,
        line: Option<StatusLine>,
        request: MainRequest,
    ) -> bool {
        if self.input_mode == InputMode::Search {
            match request {
                MainRequest::Find => self.search_key_post(key, after, line, SearchStep::Find),
                MainRequest::Nothing => self.search_key_post(key, after, line, SearchStep::Done),
                _ => false,
            }
        } else {
            self.command_post(key, after, line, request)
        }
    }

    #[verifier::rlimit(40)]
    fn command(&mut self, key: KeyEvent) -> (result: (Option<StatusLine>, MainRequest))
        ensures
            old(self).command_post(key, *final(self), result.0, result.1),
    {
        if let Some(character) = Room::find_control(key) {
            return (None, self.control_key(character));
        }
        if key.code == KeyCode::Esc {
            return (self.escape(), MainRequest::Nothing);
        }
        if let Some(errand) = self.find_errand(key) {
            return (None, errand);
        }
        match key.code {
            KeyCode::Tab | KeyCode::BackTab | KeyCode::Char('j') | KeyCode::Down | KeyCode::Char(
                'k',
            )
            | KeyCode::Up | KeyCode::Char('g') | KeyCode::Char('G') | KeyCode::Char('[')
            | KeyCode::Char(']') => (None, self.motion(key)),
            KeyCode::Char('u') | KeyCode::Char('x') | KeyCode::Char('X') | KeyCode::Char('f')
            | KeyCode::Char('s') | KeyCode::Char('F') | KeyCode::Char('/') | KeyCode::Char('n')
            | KeyCode::Char('N') | KeyCode::Char('y') => self.message_key(key),
            KeyCode::Enter => (self.toggle_message_fold(), MainRequest::Nothing),
            _ => (None, MainRequest::Nothing),
        }
    }

    /// Applies a key to the main screen.
    pub fn key(&mut self, key: KeyEvent) -> (result: (Option<StatusLine>, MainRequest))
        ensures
            old(self).key_post(key, *final(self), result.0, result.1),
    {
        if self.input_mode == InputMode::Search {
            let (line, step) = self.search_key(key);
            return match step {
                SearchStep::Find => (line, MainRequest::Find),
                SearchStep::Done => (line, MainRequest::Nothing),
            };
        }
        self.command(key)
    }
}

} // verus!

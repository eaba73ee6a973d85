//! Searching the room.

use crate::app::agent_dialog::edit;
use crate::app::filters;
use crate::app::filters::{find_first_visible, list_visible, partition_below};
use crate::app::model::{InputMode, Room};
use crate::app::room_actions;
use crate::app::status;
use crate::app::status::{info_status, notice, validation_status, StatusLine};
use crate::db::clone_option;
use crate::input::{KeyCode, KeyEvent};
use crate::strings;
use crate::strings::{concat2, concat3, decimal_usize};
use vstd::prelude::*;

verus! {

/// The text that is searched for; empty if there is none.
pub open spec fn query_text(query: Option<String>) -> Seq<char> {
    match query {
        Some(query) => query@,
        None => Seq::empty(),
    }
}

/// The place of the selected message among the matches; the first one if it is none of them.
pub open spec fn match_place(positions: Seq<usize>, selected: usize) -> int {
    if positions.contains(selected) {
        filters::count_below(positions, selected)
    } else {
        0
    }
}

/// The match that comes after the selected message, or before it, around the end.
pub open spec fn cycled_place(positions: Seq<usize>, selected: usize, forward: bool) -> int {
    let place = filters::count_below(positions, selected);
    if positions.contains(selected) {
        if forward {
            (place + 1) % positions.len() as int
        } else if place == 0 {
            positions.len() - 1
        } else {
            place - 1
        }
    } else if forward {
        0
    } else {
        positions.len() - 1
    }
}

/// What Enter in the search line leads to.
#[derive(Clone, Copy, Debug, PartialEq, Eq, Structural)]
pub enum SearchStep {
    /// Nothing more is to be done.
    Done,
    /// The store is to be searched.
    Find,
}

impl Room {
    /// Some message is shown.
    pub open spec fn any_shown(self) -> bool {
        filters::next_visible(self.messages@, self.member_filter, self.search_query, -1) is Some
    }

    /// The line that shows what is searched for.
    pub open spec fn search_line(self, line: Option<StatusLine>) -> bool {
        let query = query_text(self.search_query);
        if query.len() == 0 || self.any_shown() {
            status::tells(line, "search: "@ + query + "_"@)
        } else {
            status::objects(line, "no match: "@ + query)
        }
    }

    /// Shows what is searched for.
    pub fn search_status(&self) -> (line: StatusLine)
        ensures
            self.search_line(Some(line)),
    {
        let query = match &self.search_query {
            Some(query) => query.clone(),
            None => String::new(),
        };
        let found = query.as_str().is_empty() || find_first_visible(
            &self.messages,
            &self.member_filter,
            &self.search_query,
        ).is_some();
        proof {
            assert(query@ =~= query_text(self.search_query));
        }
        if found {
            notice(concat3("search: ", query.as_str(), "_"))
        } else {
            validation_status(concat2("no match: ", query.as_str()))
        }
    }

    /// The line that shows which match is selected.
    pub open spec fn match_line(self, line: Option<StatusLine>) -> bool {
        let positions = self.shown_positions();
        match self.search_query {
            None => line is None,
            Some(query) => status::tells(
                line,
                "match "@ + strings::decimal(
                    (match_place(positions, self.selected_message) + 1) as nat,
                ) + "/"@ + strings::decimal(positions.len()) + ": "@ + query@,
            ),
        }
    }

    /// Shows which match is selected.
    pub fn match_status(&self) -> (line: Option<StatusLine>)
        ensures
            self.match_line(line),
    {
        match &self.search_query {
            None => None,
            Some(query) => {
                let positions = list_visible(
                    &self.messages,
                    &self.member_filter,
                    &self.search_query,
                );
                let count: usize = self.messages.len();
                proof {
                    filters::visible_positions_are_sound(
                        self.messages@,
                        self.member_filter,
                        self.search_query,
                    );
                    room_actions::ascending_place(positions@, self.selected_message);
                }
                let below: usize = partition_below(&positions, self.selected_message);
                let place: usize = if below < positions.len() && positions[below]
                    == self.selected_message {
                    below
                } else {
                    0
                };
                let number = strings::decimal_u128(place as u128 + 1);
                let total = decimal_usize(positions.len());
                let mut text = "match ".to_owned();
                text.append(number.as_str());
                text.append("/");
                text.append(total.as_str());
                text.append(": ");
                text.append(query.as_str());
                Some(notice(text))
            },
        }
    }

    /// What opening the search line does.
    pub open spec fn begin_search_post(self, after: Room, line: Option<StatusLine>) -> bool {
        &&& after == (Room {
            input_mode: InputMode::Search,
            search_query: after.search_query,
            ..self
        })
        &&& after.search_query is Some
        &&& self.search_query is Some ==> after.search_query == self.search_query
        &&& query_text(after.search_query) == query_text(self.search_query)
        &&& after.search_line(line)
    }

    /// Opens the search line.
    pub fn begin_search(&mut self) -> (line: Option<StatusLine>)
        ensures
            old(self).begin_search_post(*final(self), line),
    {
        self.input_mode = InputMode::Search;
        if self.search_query.is_none() {
            self.search_query = Some(String::new());
        }
        Some(self.search_status())
    }

    /// What ending the search does.
    pub open spec fn clear_search_post(self, after: Room, line: Option<StatusLine>) -> bool {
        &&& after == (Room { input_mode: InputMode::Normal, search_query: None, ..self })
        &&& status::tells(line, "search cleared"@)
    }

    /// Ends the search.
    pub fn clear_search(&mut self) -> (line: Option<StatusLine>)
        ensures
            old(self).clear_search_post(*final(self), line),
    {
        self.input_mode = InputMode::Normal;
        self.search_query = None;
        Some(info_status("search cleared"))
    }

    /// What a key in the search line does.
    pub open spec fn search_key_post(
        self,
        key: KeyEvent,
        after: Room,
        line: Option<StatusLine>,
        step: SearchStep,
    ) -> bool {
        match key.code {
            KeyCode::Esc => self.clear_search_post(after, line) && step == SearchStep::Done,
            KeyCode::Enter => if query_text(self.search_query).len() == 0 {
                self.clear_search_post(after, line) && step == SearchStep::Done
            } else {
                &&& after == (Room { input_mode: InputMode::Normal, ..self })
                &&& line is None
                &&& step == SearchStep::Find
            },
            KeyCode::Backspace => {
                &&& after == (Room { search_query: after.search_query, ..self })
                &&& after.search_query is Some <==> self.search_query is Some
                &&& query_text(after.search_query) == status::edited(
                    query_text(self.search_query),
                    key,
                )
                &&& after.search_line(line)
                &&& step == SearchStep::Done
            },
            KeyCode::Char(_) => if key.is_plain_text() {
                &&& after == (Room { search_query: after.search_query, ..self })
                &&& after.search_query is Some
                &&& query_text(after.search_query) == status::edited(
                    query_text(self.search_query),
                    key,
                )
                &&& after.search_line(line)
                &&& step == SearchStep::Done
            } else {
                after == self && line is None && step == SearchStep::Done
            },
            _ => after == self && line is None && step == SearchStep::Done,
        }
    }

    /// Applies a key to the search line.
    pub fn search_key(&mut self, key: KeyEvent) -> (result: (Option<StatusLine>, SearchStep))
        ensures
            old(self).search_key_post(key, *final(self), result.0, result.1),
    {
        match key.code {
            KeyCode::Esc => (self.clear_search(), SearchStep::Done),
            KeyCode::Enter => {
                let empty = match &self.search_query {
                    Some(query) => query.as_str().is_empty(),
                    None => true,
                };
                if empty {
                    return (self.clear_search(), SearchStep::Done);
                }
                self.input_mode = InputMode::Normal;
                (None, SearchStep::Find)
            },
            KeyCode::Backspace => {
                if let Some(query) = clone_option(&self.search_query) {
                    let mut field = query;
                    edit(&mut field, key);
                    self.search_query = Some(field);
                }
                (Some(self.search_status()), SearchStep::Done)
            },
            KeyCode::Char(_) => {
                if !key.plain_text() {
                    return (None, SearchStep::Done);
                }
                let mut field = match clone_option(&self.search_query) {
                    Some(query) => query,
                    None => String::new(),
                };
                proof {
                    assert(field@ =~= query_text(self.search_query));
                }
                edit(&mut field, key);
                self.search_query = Some(field);
                (Some(self.search_status()), SearchStep::Done)
            },
            _ => (None, SearchStep::Done),
        }
    }

    /// What selecting the first match does.
    pub open spec fn first_match_post(self, after: Room, line: Option<StatusLine>) -> bool {
        match filters::next_visible(self.messages@, self.member_filter, self.search_query, -1) {
            Some(first) => {
                &&& after == (Room { selected_message: first as usize, ..self })
                &&& after.match_line(line)
            },
            None => after == self && self.search_line(line),
        }
    }

    /// Selects the first match.
    pub fn select_first_match(&mut self) -> (line: Option<StatusLine>)
        ensures
            old(self).first_match_post(*final(self), line),
    {
        match find_first_visible(&self.messages, &self.member_filter, &self.search_query) {
            Some(first) => {
                self.selected_message = first;
                self.match_status()
            },
            None => Some(self.search_status()),
        }
    }

    /// What selecting the next or the previous match does.
    pub open spec fn cycle_match_post(
        self,
        forward: bool,
        after: Room,
        line: Option<StatusLine>,
    ) -> bool {
        let positions = self.shown_positions();
        if query_text(self.search_query).len() == 0 {
            after == self && status::tells(line, "no active search (press /)"@)
        } else if positions.len() == 0 {
            after == self && self.search_line(line)
        } else {
            &&& after == (Room {
                selected_message: positions[cycled_place(
                    positions,
                    self.selected_message,
                    forward,
                )],
                ..self
            })
            &&& after.match_line(line)
        }
    }

    /// Selects the next or the previous match.
    pub fn cycle_search_match(&mut self, forward: bool) -> (line: Option<StatusLine>)
        ensures
            old(self).cycle_match_post(forward, *final(self), line),
    {
        let empty = match &self.search_query {
            Some(query) => query.as_str().is_empty(),
            None => true,
        };
        if empty {
            return Some(info_status("no active search (press /)"));
        }
        let positions = list_visible(&self.messages, &self.member_filter, &self.search_query);
        let total: usize = positions.len();
        if total == 0 {
            return Some(self.search_status());
        }
        let count: usize = self.messages.len();
        proof {
            filters::visible_positions_are_sound(
                self.messages@,
                self.member_filter,
                self.search_query,
            );
            room_actions::ascending_place(positions@, self.selected_message);
        }
        let below: usize = partition_below(&positions, self.selected_message);
        let next: usize = if below < total && positions[below] == self.selected_message {
            if forward {
                status::next_index(below, total)
            } else if below == 0 {
                total - 1
            } else {
                below - 1
            }
        } else if forward {
            0
        } else {
            total - 1
        };
        self.selected_message = positions[next];
        self.match_status()
    }
}

/// Going to the next match and back again comes to the same match.
pub proof fn match_cycle_inverse(positions: Seq<usize>, place: int)
    requires
        0 <= place < positions.len(),
        forall|k: int, l: int|
            0 <= k < l < positions.len() ==> (#[trigger] positions[k]) < (#[trigger] positions[l]),
    ensures
        ({
            let next = cycled_place(positions, positions[place], true);
            &&& 0 <= next < positions.len()
            &&& cycled_place(positions, positions[next], false) == place
        }),
{
    ascending_index(positions, place);
    let total = positions.len() as int;
    assert(positions.contains(positions[place]));
    let next = cycled_place(positions, positions[place], true);
    if place + 1 == total {
        vstd::arithmetic::div_mod::lemma_mod_self_0(total);
    } else {
        vstd::arithmetic::div_mod::lemma_small_mod((place + 1) as nat, total as nat);
    }
    assert(0 <= next < total);
    ascending_index(positions, next);
    assert(positions.contains(positions[next]));
}

proof fn ascending_index(positions: Seq<usize>, place: int)
    requires
        0 <= place < positions.len(),
        forall|k: int, l: int|
            0 <= k < l < positions.len() ==> (#[trigger] positions[k]) < (#[trigger] positions[l]),
    ensures
        filters::count_below(positions, positions[place]) == place,
{
    room_actions::ascending_place(positions, positions[place]);
    assert(positions.contains(positions[place]));
    let found = filters::count_below(positions, positions[place]);
    if found < place {
        assert(positions[found] < positions[place]);
    } else if place < found {
        assert(positions[place] < positions[found]);
    }
}

} // verus!

//! The filter screen: what each key does to the filter.

use crate::app::agent_dialog::edit;
use crate::app::model::BulkScreen;
use crate::app::status;
use crate::app::status::{error_status, info_status, last_position, step_down, StatusLine};
use crate::bulk::filter;
use crate::bulk::unread;
use crate::bulk::{
    mark_read_targets, BulkFilterFocus, BulkFilterState, BulkKind, BulkModal, BulkTarget,
    ExportFormat, FilterPeriod, MarkReadTarget,
};
use crate::clock::Timestamp;
use crate::db::Message;
use crate::input::{KeyCode, KeyEvent};
use vstd::prelude::*;

verus! {

/// What a key on the filter asks for.
#[derive(Clone, Copy, Debug, PartialEq, Eq, Structural)]
pub enum FilterRequest {
    Nothing,
    LeaveScreen,
    Quit,
    Help,
    MarkRead,
    Export,
}

/// What a key asks for that no field takes.
pub open spec fn common_request(key: KeyEvent) -> FilterRequest {
    match key.code {
        KeyCode::Char('M') => FilterRequest::MarkRead,
        KeyCode::Char('E') => FilterRequest::Export,
        KeyCode::Char('?') => FilterRequest::Help,
        _ => FilterRequest::Nothing,
    }
}

fn find_common_request(key: KeyEvent) -> (request: FilterRequest)
    ensures
        request == common_request(key),
{
    match key.code {
        KeyCode::Char('M') => FilterRequest::MarkRead,
        KeyCode::Char('E') => FilterRequest::Export,
        KeyCode::Char('?') => FilterRequest::Help,
        _ => FilterRequest::Nothing,
    }
}

/// The key changes the text of a field.
pub open spec fn types_text(key: KeyEvent) -> bool {
    match key.code {
        KeyCode::Backspace => true,
        KeyCode::Char(character) => key.is_plain_text() && character != 'M' && character != 'E'
            && character != '?',
        _ => false,
    }
}

fn is_typing(key: KeyEvent) -> (typing: bool)
    ensures
        typing == types_text(key),
{
    match key.code {
        KeyCode::Backspace => true,
        KeyCode::Char(character) => key.plain_text() && character != 'M' && character != 'E'
            && character != '?',
        _ => false,
    }
}

/// The period that a key chooses.
pub open spec fn chosen_period(period: FilterPeriod, key: KeyEvent) -> Option<FilterPeriod> {
    match key.code {
        KeyCode::Left => Some(period.preceding()),
        KeyCode::Right | KeyCode::Char(' ') => Some(period.following()),
        KeyCode::Char('7') => Some(FilterPeriod::SevenDays),
        KeyCode::Char('3') => Some(FilterPeriod::ThirtyDays),
        KeyCode::Char('a') => Some(FilterPeriod::All),
        _ => None,
    }
}

fn choose_period(period: FilterPeriod, key: KeyEvent) -> (chosen: Option<FilterPeriod>)
    ensures
        chosen == chosen_period(period, key),
{
    match key.code {
        KeyCode::Left => Some(period.cycle(-1)),
        KeyCode::Right | KeyCode::Char(' ') => Some(period.cycle(1)),
        KeyCode::Char('7') => Some(FilterPeriod::SevenDays),
        KeyCode::Char('3') => Some(FilterPeriod::ThirtyDays),
        KeyCode::Char('a') => Some(FilterPeriod::All),
        _ => None,
    }
}

/// The results are those of the filter at the time `now`, with the cursor within them.
pub open spec fn found_anew(before: BulkFilterState, now: Timestamp, after: BulkFilterState) -> bool {
    &&& after.results@ == after.matching(now)
    &&& after.selected == status::clamped_index(
        before.selected as int,
        after.results@.len() as int,
    )
}

/// What a key does in the list of results.
pub open spec fn results_key_post(
    before: BulkFilterState,
    key: KeyEvent,
    after: BulkFilterState,
    request: FilterRequest,
) -> bool {
    let count = before.results@.len() as int;
    match key.code {
        KeyCode::Char('q') => after == before && request == FilterRequest::Quit,
        KeyCode::Char('j') | KeyCode::Down => request == FilterRequest::Nothing && after == (
        BulkFilterState {
            selected: status::stepped_down(before.selected as int, count) as usize,
            ..before
        }),
        KeyCode::Char('k') | KeyCode::Up => request == FilterRequest::Nothing && after == (
        BulkFilterState {
            selected: if before.selected == 0 {
                0
            } else {
                (before.selected - 1) as usize
            },
            ..before
        }),
        KeyCode::Char('g') => request == FilterRequest::Nothing && after == (BulkFilterState {
            selected: 0,
            ..before
        }),
        KeyCode::Char('G') => request == FilterRequest::Nothing && after == (BulkFilterState {
            selected: status::last_index(count) as usize,
            ..before
        }),
        _ => after == before && request == common_request(key),
    }
}

/// What a key does to the filter.
pub open spec fn filter_key_post(
    before: BulkFilterState,
    key: KeyEvent,
    now: Timestamp,
    after: BulkFilterState,
    request: FilterRequest,
) -> bool {
    match key.code {
        KeyCode::Esc => after == before && request == FilterRequest::LeaveScreen,
        KeyCode::Tab => request == FilterRequest::Nothing && after == (BulkFilterState {
            focus: before.focus.neighbour(false),
            ..before
        }),
        KeyCode::BackTab => request == FilterRequest::Nothing && after == (BulkFilterState {
            focus: before.focus.neighbour(true),
            ..before
        }),
        _ => match before.focus {
            BulkFilterFocus::Results => results_key_post(before, key, after, request),
            BulkFilterFocus::Period => match chosen_period(before.period, key) {
                Some(period) => {
                    &&& request == FilterRequest::Nothing
                    &&& after == (BulkFilterState {
                        period,
                        results: after.results,
                        selected: after.selected,
                        ..before
                    })
                    &&& found_anew(before, now, after)
                },
                None => after == before && request == common_request(key),
            },
            BulkFilterFocus::Agent => if types_text(key) {
                &&& request == FilterRequest::Nothing
                &&& after == (BulkFilterState {
                    agent: after.agent,
                    results: after.results,
                    selected: after.selected,
                    ..before
                })
                &&& after.agent@ == status::edited(before.agent@, key)
                &&& found_anew(before, now, after)
            } else {
                after == before && request == common_request(key)
            },
            BulkFilterFocus::Body => if types_text(key) {
                &&& request == FilterRequest::Nothing
                &&& after == (BulkFilterState {
                    body: after.body,
                    results: after.results,
                    selected: after.selected,
                    ..before
                })
                &&& after.body@ == status::edited(before.body@, key)
                &&& found_anew(before, now, after)
            } else {
                after == before && request == common_request(key)
            },
        },
    }
}

fn results_key(state: &mut BulkFilterState, key: KeyEvent) -> (request: FilterRequest)
    ensures
        results_key_post(*old(state), key, *final(state), request),
{
    match key.code {
        KeyCode::Char('q') => FilterRequest::Quit,
        KeyCode::Char('j') | KeyCode::Down => {
            state.selected = step_down(state.selected, state.results.len());
            FilterRequest::Nothing
        },
        KeyCode::Char('k') | KeyCode::Up => {
            if state.selected > 0 {
                state.selected = state.selected - 1;
            }
            FilterRequest::Nothing
        },
        KeyCode::Char('g') => {
            state.selected = 0;
            FilterRequest::Nothing
        },
        KeyCode::Char('G') => {
            state.selected = last_position(state.results.len());
            FilterRequest::Nothing
        },
        _ => find_common_request(key),
    }
}

/// Applies a key to the filter.
pub fn filter_key(state: &mut BulkFilterState, key: KeyEvent, now: Timestamp) -> (request:
    FilterRequest)
    requires
        filter::month_reachable(now),
    ensures
        filter_key_post(*old(state), key, now, *final(state), request),
{
    match key.code {
        KeyCode::Esc => FilterRequest::LeaveScreen,
        KeyCode::Tab => {
            state.focus = state.focus.next(false);
            FilterRequest::Nothing
        },
        KeyCode::BackTab => {
            state.focus = state.focus.next(true);
            FilterRequest::Nothing
        },
        _ => match state.focus {
            BulkFilterFocus::Results => results_key(state, key),
            BulkFilterFocus::Period => match choose_period(state.period, key) {
                Some(period) => {
                    state.period = period;
                    state.recompute(now);
                    FilterRequest::Nothing
                },
                None => find_common_request(key),
            },
            BulkFilterFocus::Agent => {
                if is_typing(key) {
                    edit(&mut state.agent, key);
                    state.recompute(now);
                    FilterRequest::Nothing
                } else {
                    find_common_request(key)
                }
            },
            BulkFilterFocus::Body => {
                if is_typing(key) {
                    edit(&mut state.body, key);
                    state.recompute(now);
                    FilterRequest::Nothing
                } else {
                    find_common_request(key)
                }
            },
        },
    }
}

/// The targets are the recipients of the unread messages, each with how many it has.
pub open spec fn marks_unread(targets: Seq<BulkTarget>, messages: Seq<Message>) -> bool {
    exists|groups: Seq<MarkReadTarget>|
        #![trigger unread::wraps_groups(targets, groups)]
        unread::wraps_groups(targets, groups) && unread::groups_count(groups, messages)
}

impl BulkScreen {
    /// What asking to mark the found messages read does.
    pub open spec fn mark_found_post(
        self,
        state: BulkFilterState,
        after: BulkScreen,
        line: Option<StatusLine>,
    ) -> bool {
        let messages = filter::picked(state.all_messages@, state.results@);
        ||| {
            &&& marks_unread(Seq::empty(), messages)
            &&& after == self
            &&& status::tells(line, "filter has no unread messages"@)
        }
        ||| {
            &&& after == (BulkScreen { modal: after.modal, ..self })
            &&& after.modal matches Some(BulkModal::Preview { kind, targets, confirm, scroll })
                && kind == BulkKind::MarkRead && targets@.len() > 0 && marks_unread(
                targets@,
                messages,
            ) && confirm@.len() == 0 && scroll == 0
            &&& line is None
        }
    }

    /// What asking to export the found messages does.
    pub open spec fn export_found_post(
        self,
        state: BulkFilterState,
        after: BulkScreen,
        line: Option<StatusLine>,
    ) -> bool {
        if state.results@.len() == 0 {
            after == self && status::objects(line, "filter has no results"@)
        } else {
            &&& after == (BulkScreen {
                modal: Some(BulkModal::ExportFormat { selected: ExportFormat::Markdown }),
                ..self
            })
            &&& line is None
        }
    }

    /// What a key does on the filter screen once its messages are loaded.
    pub open spec fn filter_post(
        self,
        state: BulkFilterState,
        key: KeyEvent,
        now: Timestamp,
        after: BulkScreen,
        line: Option<StatusLine>,
        request: FilterRequest,
    ) -> bool {
        &&& after.filter matches Some(new) && filter_key_post(state, key, now, new, request)
        &&& match request {
            FilterRequest::MarkRead => (BulkScreen {
                filter: after.filter,
                ..self
            }).mark_found_post(state, after, line),
            FilterRequest::Export => (BulkScreen {
                filter: after.filter,
                ..self
            }).export_found_post(state, after, line),
            _ => after == (BulkScreen { filter: after.filter, ..self }) && line is None,
        }
    }

    fn mark_found(&mut self, messages: &Vec<Message>) -> (line: Option<StatusLine>)
        requires
            old(self).wf(),
        ensures
            ({
                ||| {
                    &&& marks_unread(Seq::empty(), messages@)
                    &&& *final(self) == *old(self)
                    &&& status::tells(line, "filter has no unread messages"@)
                }
                ||| {
                    &&& *final(self) == (BulkScreen { modal: final(self).modal, ..*old(self) })
                    &&& final(self).modal matches Some(
                        BulkModal::Preview { kind, targets, confirm, scroll },
                    ) && kind == BulkKind::MarkRead && targets@.len() > 0 && marks_unread(
                        targets@,
                        messages@,
                    ) && confirm@.len() == 0 && scroll == 0
                    &&& line is None
                }
            }),
            final(self).wf(),
    {
        let targets = mark_read_targets(messages);
        if targets.len() == 0 {
            proof {
                assert(targets@ =~= Seq::empty());
            }
            return Some(info_status("filter has no unread messages"));
        }
        self.modal = Some(
            BulkModal::Preview {
                kind: BulkKind::MarkRead,
                targets,
                confirm: String::new(),
                scroll: 0,
            },
        );
        None
    }

    /// Applies a key to the filter screen; `None` asks for the messages to be loaded first.
    pub fn filter_key(&mut self, key: KeyEvent, now: Timestamp) -> (result: Option<
        (Option<StatusLine>, FilterRequest),
    >)
        requires
            old(self).wf(),
            filter::month_reachable(now),
        ensures
            match old(self).filter {
                None => result is None && *final(self) == *old(self),
                Some(state) => result matches Some((line, request)) && old(self).filter_post(
                    state,
                    key,
                    now,
                    *final(self),
                    line,
                    request,
                ),
            },
            final(self).wf(),
    {
        let state = match self.filter.take() {
            None => {
                return None;
            },
            Some(state) => state,
        };
        let mut state = state;
        let request = filter_key(&mut state, key, now);
        match request {
            FilterRequest::MarkRead => {
                let messages = state.messages();
                self.filter = Some(state);
                let line = self.mark_found(&messages);
                Some((line, request))
            },
            FilterRequest::Export => {
                let empty = state.results.len() == 0;
                self.filter = Some(state);
                if empty {
                    Some((Some(error_status("filter has no results")), request))
                } else {
                    self.modal = Some(
                        BulkModal::ExportFormat { selected: ExportFormat::Markdown },
                    );
                    Some((None, request))
                }
            },
            _ => {
                self.filter = Some(state);
                Some((None, request))
            },
        }
    }
}

} // verus!

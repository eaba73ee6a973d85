//! Scripts that run in the background, the state that waits to be saved, and the status line.

use crate::app::drafts;
use crate::app::drafts::{clone_drafts, insert_draft};
use crate::app::model;
use crate::app::model::{App, Background, InFlightOperation, Notices, STATE_DEBOUNCE};
use crate::app::status;
use crate::app::status::{error_status, info_status, notice, validation_status, StatusLine};
use crate::clock;
use crate::db::clone_option;
use crate::exec;
use crate::exec::join_path;
use crate::state;
use crate::state::{PersistentState, SavedView, STATE_SCHEMA_VERSION};
use crate::strings;
use crate::strings::{concat2, concat3, decimal_usize};
use vstd::prelude::*;

verus! {

impl InFlightOperation {
    /// What the status line says while the operation runs.
    pub open spec fn label_text(self) -> Seq<char> {
        match self {
            InFlightOperation::Send => "sending"@,
            InFlightOperation::MarkRead => "marking read"@,
            InFlightOperation::Agent => "running agent op"@,
            InFlightOperation::Bulk => "running bulk op"@,
        }
    }

    /// What the status line says while the operation runs.
    pub fn status_label(self) -> (label: &'static str)
        ensures
            label@ == self.label_text(),
    {
        match self {
            InFlightOperation::Send => "sending",
            InFlightOperation::MarkRead => "marking read",
            InFlightOperation::Agent => "running agent op",
            InFlightOperation::Bulk => "running bulk op",
        }
    }
}

/// The frame of the spinner at a position.
pub open spec fn frame_text(frame: int) -> Seq<char> {
    if frame == 0 {
        "|"@
    } else if frame == 1 {
        "/"@
    } else if frame == 2 {
        "-"@
    } else {
        "\\"@
    }
}

/// The status line while an operation runs.
pub open spec fn spinner_text(operation: InFlightOperation, frame: int) -> Seq<char> {
    operation.label_text() + "... "@ + frame_text(frame)
}

impl Background {
    /// The line that shows what runs; none if nothing does.
    pub open spec fn spins(self, line: Option<StatusLine>) -> bool {
        match self.in_flight {
            Some(operation) => status::tells(
                line,
                spinner_text(operation, self.spinner_frame as int),
            ),
            None => line is None,
        }
    }

    /// The line that shows what runs.
    pub fn spinner_status(&self) -> (line: Option<StatusLine>)
        ensures
            self.spins(line),
    {
        match self.in_flight {
            Some(operation) => {
                let frame = if self.spinner_frame == 0 {
                    "|"
                } else if self.spinner_frame == 1 {
                    "/"
                } else if self.spinner_frame == 2 {
                    "-"
                } else {
                    "\\"
                };
                Some(notice(concat3(operation.status_label(), "... ", frame)))
            },
            None => None,
        }
    }

    /// The saved state is out of date for long enough.
    pub open spec fn save_due(self, now: u64) -> bool {
        self.state_dirty_since matches Some(since) && clock::nanos_since(now, since)
            >= STATE_DEBOUNCE
    }
}

impl App {
    /// The state with a new status line, if one is given.
    pub open spec fn showing(self, line: Option<StatusLine>) -> App {
        App {
            status: match line {
                Some(line) => line,
                None => self.status,
            },
            ..self
        }
    }

    /// Shows a new status line, if one is given.
    pub fn show(&mut self, line: Option<StatusLine>)
        ensures
            *final(self) == old(self).showing(line),
    {
        if let Some(line) = line {
            self.status = line;
        }
    }

    /// Shows what runs in the background; nothing changes if nothing does.
    pub open spec fn spinner_shown(self, after: App) -> bool {
        match self.background.in_flight {
            Some(operation) => self.says(
                after,
                spinner_text(operation, self.background.spinner_frame as int),
            ),
            None => after == self,
        }
    }

    /// Shows what runs in the background.
    pub fn update_spinner_status(&mut self)
        ensures
            old(self).spinner_shown(*final(self)),
    {
        let line = self.background.spinner_status();
        self.show(line);
    }

    /// What starting an operation does: at most one runs at a time.
    pub open spec fn start_post(
        self,
        operation: InFlightOperation,
        after: App,
        started: bool,
    ) -> bool {
        if self.background.in_flight is Some {
            !started && after == self
        } else {
            &&& started
            &&& after == (App {
                background: Background {
                    in_flight: Some(operation),
                    spinner_frame: 0,
                    ..self.background
                },
                status: after.status,
                ..self
            })
            &&& after.status.is_info(spinner_text(operation, 0))
        }
    }

    /// Notes that an operation runs, unless one does already.
    pub fn start_operation(&mut self, operation: InFlightOperation) -> (started: bool)
        ensures
            old(self).start_post(operation, *final(self), started),
            old(self).wf() ==> final(self).wf(),
    {
        if self.background.in_flight.is_some() {
            return false;
        }
        self.background.in_flight = Some(operation);
        self.background.spinner_frame = 0;
        self.update_spinner_status();
        true
    }

    /// Notes that no operation runs any more.
    pub fn finish_operation(&mut self)
        ensures
            *final(self) == (App {
                background: Background {
                    in_flight: None,
                    spinner_frame: 0,
                    ..old(self).background
                },
                ..*old(self)
            }),
            old(self).wf() ==> final(self).wf(),
    {
        self.background.in_flight = None;
        self.background.spinner_frame = 0;
    }

    /// What a tick of the spinner does.
    pub open spec fn spinner_post(self, after: App, advanced: bool) -> bool {
        match self.background.in_flight {
            None => !advanced && after == self,
            Some(operation) => {
                let frame = (self.background.spinner_frame + 1) % 4;
                &&& advanced
                &&& after == (App {
                    background: Background { spinner_frame: frame as usize, ..self.background },
                    status: after.status,
                    ..self
                })
                &&& after.status.is_info(spinner_text(operation, frame))
            },
        }
    }

    /// Shows the next frame of the spinner, if an operation runs.
    pub fn advance_spinner(&mut self) -> (advanced: bool)
        requires
            old(self).wf(),
        ensures
            old(self).spinner_post(*final(self), advanced),
            final(self).wf(),
    {
        if self.background.in_flight.is_none() {
            return false;
        }
        self.background.spinner_frame = (self.background.spinner_frame + 1) % 4;
        self.update_spinner_status();
        true
    }

    /// What would be saved now.
    pub open spec fn saved_view(self) -> SavedView {
        SavedView {
            schema_version: STATE_SCHEMA_VERSION,
            sidebar_pct: self.display.sidebar_pct,
            last_team: strings::held(self.room.active_team),
            drafts: match (self.room.active_team, self.writing.composer) {
                (Some(team), Some(composer)) => drafts::draft_map(self.writing.drafts@).insert(
                    team@,
                    composer@,
                ),
                _ => drafts::draft_map(self.writing.drafts@),
            },
            notify_settings: self.notices.settings,
        }
    }

    /// What would be saved now: the message being written counts as a draft.
    pub fn persistence_snapshot(&self) -> (saved: PersistentState)
        requires
            self.wf(),
        ensures
            saved@ == self.saved_view(),
            model::drafts_wf(saved.drafts@),
    {
        let mut drafts = clone_drafts(&self.writing.drafts);
        if let (Some(team), Some(composer)) = (&self.room.active_team, &self.writing.composer) {
            let copy = composer.clone();
            proof {
                assert(copy@ == composer@);
            }
            insert_draft(&mut drafts, team.as_str(), copy);
        }
        PersistentState {
            schema_version: STATE_SCHEMA_VERSION,
            sidebar_pct: self.display.sidebar_pct,
            last_team: clone_option(&self.room.active_team),
            drafts,
            notify_settings: self.notices.settings,
        }
    }

    /// The state to be saved, once it has been out of date for long enough.
    pub fn persist_state_if_due(&self, now: u64) -> (due: Option<PersistentState>)
        requires
            self.wf(),
        ensures
            match due {
                Some(saved) => self.background.save_due(now) && saved@ == self.saved_view(),
                None => !self.background.save_due(now),
            },
    {
        match self.background.state_dirty_since {
            Some(since) => if now >= since && now - since >= STATE_DEBOUNCE {
                Some(self.persistence_snapshot())
            } else {
                None
            },
            None => None,
        }
    }

    /// The state after an attempt to save it: what could not be saved is due again later.
    pub open spec fn after_saving(self, saved: bool, now: u64) -> App {
        App {
            background: Background {
                state_dirty_since: if saved {
                    None
                } else {
                    Some(now)
                },
                ..self.background
            },
            ..self
        }
    }

    /// Notes that the state was saved, or, if it could not be, that it is to be tried again later.
    pub fn save_state(&mut self, saved: bool, now: u64)
        ensures
            *final(self) == old(self).after_saving(saved, now),
            old(self).wf() ==> final(self).wf(),
    {
        self.background.state_dirty_since = if saved {
            None
        } else {
            Some(now)
        };
    }

    /// Notes that the saved state is out of date from now on.
    pub fn mark_state_changed(&mut self, now: u64)
        ensures
            *final(self) == (App {
                background: Background {
                    state_dirty_since: Some(now),
                    ..old(self).background
                },
                ..*old(self)
            }),
            old(self).wf() ==> final(self).wf(),
    {
        self.background.state_dirty_since = Some(now);
    }

    /// Shows an error.
    pub fn set_error(&mut self, error: &str)
        ensures
            old(self).objects(*final(self), error@),
            old(self).wf() ==> final(self).wf(),
    {
        self.status = error_status(error);
    }

    /// Shows that new messages could not be asked for.
    pub fn set_poll_error(&mut self, error: &str)
        ensures
            *final(self) == (App {
                background: Background { poll_offline: true, ..old(self).background },
                status: final(self).status,
                ..*old(self)
            }),
            final(self).status.is_failure("poll offline: "@ + error@),
            old(self).wf() ==> final(self).wf(),
    {
        self.background.poll_offline = true;
        self.status = validation_status(concat2("poll offline: ", error));
    }

    /// Shows that new messages can be asked for again.
    pub fn set_poll_recovered(&mut self)
        ensures
            *final(self) == (App {
                background: Background { poll_offline: false, ..old(self).background },
                status: final(self).status,
                ..*old(self)
            }),
            final(self).status.is_info("poll recovered"@),
            old(self).wf() ==> final(self).wf(),
    {
        self.background.poll_offline = false;
        self.status = info_status("poll recovered");
    }

    /// Shows, once a session, that a notification could not be written.
    pub fn warn_notify_failure_once(&mut self)
        ensures
            old(self).notices.delivery_warned ==> *final(self) == *old(self),
            !old(self).notices.delivery_warned ==> *final(self) == (App {
                notices: Notices { delivery_warned: true, ..old(self).notices },
                status: final(self).status,
                ..*old(self)
            }) && final(self).status.is_info("⚠ notification unavailable"@),
            old(self).wf() ==> final(self).wf(),
    {
        if self.notices.delivery_warned {
            return;
        }
        self.notices.delivery_warned = true;
        self.status = info_status("⚠ notification unavailable");
    }

    /// Shows that a body was copied.
    pub fn complete_yank(&mut self, body: &str)
        ensures
            old(self).says(*final(self), "yanked "@ + strings::decimal(body@.len()) + " chars"@),
            old(self).wf() ==> final(self).wf(),
    {
        let count = decimal_usize(strings::char_count(body));
        self.status = notice(concat3("yanked ", count.as_str(), " chars"));
    }

    /// The file that a body is written to when it cannot be copied.
    pub fn yank_fallback_path(&self) -> (path: String)
        ensures
            path@ == exec::path_in(
                self.paths.report_dir@,
                "agmsg-tui-clipboard-fallback.txt"@,
            ),
    {
        join_path(self.paths.report_dir.as_str(), "agmsg-tui-clipboard-fallback.txt")
    }

    /// Shows that a body could not be copied, and whether it was written to a file instead.
    pub fn complete_yank_fallback(&mut self, written: Result<(), String>)
        ensures
            match written {
                Ok(()) => old(self).says(
                    *final(self),
                    "clipboard unavailable, message logged to "@ + exec::path_in(
                        old(self).paths.report_dir@,
                        "agmsg-tui-clipboard-fallback.txt"@,
                    ),
                ),
                Err(error) => old(self).objects(
                    *final(self),
                    "clipboard unavailable and fallback log failed: "@ + error@,
                ),
            },
            old(self).wf() ==> final(self).wf(),
    {
        match written {
            Ok(()) => {
                let path = self.yank_fallback_path();
                self.status = notice(
                    concat2("clipboard unavailable, message logged to ", path.as_str()),
                );
            },
            Err(error) => {
                self.status = validation_status(
                    concat2("clipboard unavailable and fallback log failed: ", error.as_str()),
                );
            },
        }
    }
}

/// While an operation runs no other one starts, and finishing it makes room for the next one.
pub proof fn one_operation_at_a_time(
    before: App,
    first: InFlightOperation,
    running: App,
    second: InFlightOperation,
    after: App,
    started: bool,
)
    requires
        before.background.in_flight is None,
        before.start_post(first, running, true),
        running.start_post(second, after, started),
    ensures
        running.background.in_flight == Some(first),
        !started,
        after == running,
{
}

} // verus!

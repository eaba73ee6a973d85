//! Notifications of arrivals, and the popup in which they are switched.

use crate::app::model::{BurstAlert, Notices};
use crate::app::status;
use crate::app::status::{info_status, StatusLine};
use crate::db::Message;
use crate::input::{KeyCode, KeyEvent};
use crate::notify;
use crate::notify::{
    NotifySettings, PendingNotification, BURST_ALERT_DURATION, BURST_THRESHOLD,
    NOTIFY_SETTING_COUNT,
};
use crate::strings;
use crate::strings::{concat3, decimal_usize};
use vstd::prelude::*;

verus! {

/// What the banner of a burst says.
pub open spec fn burst_text(total: nat) -> Seq<char> {
    "⚠ burst: "@ + strings::decimal(total) + " msgs/1min"@
}

impl Notices {
    /// The banner of a burst is still shown.
    pub open spec fn burst_active(self, now: u64) -> bool {
        self.burst_alert matches Some(alert) && now < alert.until
    }

    /// Whether the banner of a burst is still shown.
    pub fn is_burst_active(&self, now: u64) -> (active: bool)
        ensures
            active == self.burst_active(now),
    {
        match &self.burst_alert {
            Some(alert) => now < alert.until,
            None => false,
        }
    }

    /// Takes the banner of a burst away once its time is over.
    pub fn expire_burst_alert(&mut self, now: u64) -> (expired: bool)
        ensures
            expired == (old(self).burst_alert is Some && !old(self).burst_active(now)),
            *final(self) == if expired {
                Notices { burst_alert: None, ..*old(self) }
            } else {
                *old(self)
            },
    {
        if self.burst_alert.is_some() && !self.is_burst_active(now) {
            self.burst_alert = None;
            true
        } else {
            false
        }
    }

    /// Hands the notifications that wait to be given over.
    pub fn drain_pending_notifications(&mut self) -> (pending: Vec<PendingNotification>)
        ensures
            pending@ == old(self).pending@,
            *final(self) == (Notices { pending: final(self).pending, ..*old(self) }),
            final(self).pending@.len() == 0,
    {
        let mut pending: Vec<PendingNotification> = Vec::new();
        std::mem::swap(&mut pending, &mut self.pending);
        pending
    }

    /// What arrivals do to the count of recent ones and to the banner.
    pub open spec fn burst_post(self, count: nat, now: u64, after: Notices) -> bool {
        let events = notify::recorded(self.burst_tracker.events@, count, now);
        &&& after == (Notices {
            burst_tracker: after.burst_tracker,
            burst_alert: after.burst_alert,
            ..self
        })
        &&& if !self.settings.burst_alert {
            after == self
        } else {
            &&& after.burst_tracker.events@ == events
            &&& if events.len() > BURST_THRESHOLD {
                after.burst_alert matches Some(alert) && alert.text@ == burst_text(events.len())
                    && alert.until == now + BURST_ALERT_DURATION
            } else {
                after.burst_alert == self.burst_alert
            }
        }
    }

    fn record_burst(&mut self, count: usize, now: u64)
        requires
            now <= u64::MAX - BURST_ALERT_DURATION,
        ensures
            old(self).burst_post(count as nat, now, *final(self)),
    {
        if self.settings.burst_alert {
            let burst = self.burst_tracker.record(count, now);
            let kept: usize = self.burst_tracker.events.len();
            if let Some(total) = burst {
                assert(total == kept);
                let number = decimal_usize(total);
                self.burst_alert = Some(
                    BurstAlert {
                        text: concat3("⚠ burst: ", number.as_str(), " msgs/1min"),
                        until: now + BURST_ALERT_DURATION,
                    },
                );
            }
        }
    }

    /// The notification is a desktop one for the message.
    pub open spec fn announces(notification: PendingNotification, message: Message) -> bool {
        notification matches PendingNotification::Desktop { from, body } && from@
            == message.from_agent@ && body@ == message.body@
    }

    /// What arrivals queue: nothing during a burst, else a bell and a desktop notification for the
    /// latest one, as far as they are switched on.
    pub open spec fn queue_post(
        self,
        latest: Option<Message>,
        now: u64,
        pending: Seq<PendingNotification>,
    ) -> bool {
        let rings = self.settings.bell && !self.burst_active(now);
        let pops = self.settings.desktop && latest is Some && !self.burst_active(now);
        let rung = if rings {
            self.pending@.push(PendingNotification::Bell)
        } else {
            self.pending@
        };
        if pops {
            &&& pending.len() == rung.len() + 1
            &&& pending.drop_last() == rung
            &&& Notices::announces(pending.last(), latest->Some_0)
        } else {
            pending == rung
        }
    }

    /// What arrivals do: those that are not relevant do nothing.
    pub open spec fn arrivals_post(
        self,
        count: nat,
        latest: Option<Message>,
        now: u64,
        after: Notices,
    ) -> bool {
        if count == 0 {
            after == self
        } else {
            let counted = Notices { pending: self.pending, ..after };
            &&& self.burst_post(count, now, counted)
            &&& counted.queue_post(latest, now, after.pending@)
        }
    }

    /// Notes arrivals.
    pub fn notify_for_arrivals(&mut self, count: usize, latest: Option<Message>, now: u64)
        requires
            now <= u64::MAX - BURST_ALERT_DURATION,
        ensures
            old(self).arrivals_post(count as nat, latest, now, *final(self)),
    {
        if count == 0 {
            return;
        }
        self.record_burst(count, now);
        let ghost counted = *self;
        if self.is_burst_active(now) {
            return;
        }
        if self.settings.bell {
            self.pending.push(PendingNotification::Bell);
        }
        let ghost rung = self.pending@;
        if self.settings.desktop {
            if let Some(message) = latest {
                self.pending.push(
                    PendingNotification::Desktop { from: message.from_agent, body: message.body },
                );
                proof {
                    assert(self.pending@.drop_last() =~= rung);
                }
            }
        }
    }

    /// What a key does to the popup that is open.
    pub open spec fn after_popup_key(self, key: KeyEvent) -> Notices {
        match self.popup {
            None => self,
            Some(selected) => match key.code {
                KeyCode::Esc | KeyCode::Char('q') => Notices { popup: None, ..self },
                KeyCode::Char('j') | KeyCode::Down => Notices {
                    popup: Some(
                        status::stepped_down(selected as int, NOTIFY_SETTING_COUNT as int) as usize,
                    ),
                    ..self
                },
                KeyCode::Char('k') | KeyCode::Up => Notices {
                    popup: Some(
                        if selected == 0 {
                            0
                        } else {
                            (selected - 1) as usize
                        },
                    ),
                    ..self
                },
                KeyCode::Enter | KeyCode::Char(' ') => Notices {
                    settings: self.settings.toggled(selected as int),
                    ..self
                },
                _ => self,
            },
        }
    }

    /// Applies a key to the popup.
    pub fn popup_key(&mut self, key: KeyEvent)
        ensures
            *final(self) == old(self).after_popup_key(key),
    {
        if let Some(selected) = self.popup {
            match key.code {
                KeyCode::Esc | KeyCode::Char('q') => {
                    self.popup = None;
                },
                KeyCode::Char('j') | KeyCode::Down => {
                    self.popup = Some(status::step_down(selected, NOTIFY_SETTING_COUNT));
                },
                KeyCode::Char('k') | KeyCode::Up => {
                    let previous: usize = if selected == 0 {
                        0
                    } else {
                        selected - 1
                    };
                    self.popup = Some(previous);
                },
                KeyCode::Enter | KeyCode::Char(' ') => {
                    self.settings.toggle(selected);
                },
                _ => {},
            }
        }
    }

    /// What the key for the bell does.
    pub open spec fn bell_post(self, after: Notices, line: Option<StatusLine>) -> bool {
        &&& after == (Notices {
            settings: NotifySettings { bell: !self.settings.bell, ..self.settings },
            ..self
        })
        &&& status::tells(
            line,
            if after.settings.bell {
                "terminal bell unmuted"@
            } else {
                "terminal bell muted"@
            },
        )
    }

    /// Mutes the bell, or unmutes it.
    pub fn toggle_bell(&mut self) -> (line: Option<StatusLine>)
        ensures
            old(self).bell_post(*final(self), line),
    {
        self.settings.bell = !self.settings.bell;
        Some(
            if self.settings.bell {
                info_status("terminal bell unmuted")
            } else {
                info_status("terminal bell muted")
            },
        )
    }
}

/// While the banner of a burst is shown, no single notification is queued.
pub proof fn bursts_silence_notifications(
    before: Notices,
    count: nat,
    latest: Option<Message>,
    now: u64,
    after: Notices,
)
    requires
        before.arrivals_post(count, latest, now, after),
        after.burst_active(now),
    ensures
        after.pending@ == before.pending@,
{
}

/// With every switch off, arrivals change nothing.
pub proof fn switched_off_notifications_are_silent(
    before: Notices,
    count: nat,
    latest: Option<Message>,
    now: u64,
    after: Notices,
)
    requires
        before.arrivals_post(count, latest, now, after),
        !before.settings.bell,
        !before.settings.desktop,
        !before.settings.burst_alert,
    ensures
        after.pending@ == before.pending@,
        after.burst_alert == before.burst_alert,
        after.burst_tracker == before.burst_tracker,
{
}

} // verus!

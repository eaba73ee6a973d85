//! When the store is read for new messages. Instants and delays are nanoseconds.

use crate::db::Message;
use vstd::prelude::*;

verus! {

/// The time between two reads.
pub const NORMAL_POLL_INTERVAL: u64 = 1_000_000_000;

/// The longest time to the next read after a failure.
pub const MAX_RETRY_INTERVAL: u64 = 30_000_000_000;

/// When the store is read next, and what came of the last reads.
#[derive(Debug)]
pub struct LivePoller {
    pub next_due: u64,
    pub last_seen_id: i64,
    pub next_retry: u64,
    pub offline: bool,
    pub recovered: bool,
}

/// The delay after a failure that follows one with the given delay.
pub open spec fn doubled(delay: int) -> int {
    if delay * 2 < MAX_RETRY_INTERVAL {
        delay * 2
    } else {
        MAX_RETRY_INTERVAL as int
    }
}

/// The delay after the n-th failure in a row, counted from zero.
pub open spec fn backoff(failures: nat) -> int
    decreases failures,
{
    if failures == 0 {
        NORMAL_POLL_INTERVAL as int
    } else {
        doubled(backoff((failures - 1) as nat))
    }
}

/// The instant some time later; the clock does not wrap around.
pub open spec fn later(now: u64, delay: int) -> int {
    if now + delay <= u64::MAX {
        now + delay
    } else {
        u64::MAX as int
    }
}

impl LivePoller {
    /// The delay of the next failure is one of the backoff's.
    pub open spec fn wf(self) -> bool {
        NORMAL_POLL_INTERVAL <= self.next_retry <= MAX_RETRY_INTERVAL
    }

    /// The state after a read that worked.
    pub open spec fn succeeded(self, now: u64) -> LivePoller {
        LivePoller {
            next_due: later(now, NORMAL_POLL_INTERVAL as int) as u64,
            next_retry: NORMAL_POLL_INTERVAL,
            recovered: self.offline,
            offline: false,
            ..self
        }
    }

    /// The state after a read that found these messages.
    pub open spec fn accepted(self, messages: Seq<Message>, now: u64) -> LivePoller {
        LivePoller {
            last_seen_id: if messages.len() > 0 {
                messages.last().id
            } else {
                self.last_seen_id
            },
            ..self.succeeded(now)
        }
    }

    /// The state after a read that failed.
    pub open spec fn failed(self, now: u64) -> LivePoller {
        LivePoller {
            next_due: later(now, self.next_retry as int) as u64,
            next_retry: doubled(self.next_retry as int) as u64,
            offline: true,
            recovered: false,
            ..self
        }
    }

    /// The first read is due after one interval.
    pub fn new(last_seen_id: i64, now: u64) -> (poller: Self)
        ensures
            poller.wf(),
            poller == (LivePoller {
                next_due: later(now, NORMAL_POLL_INTERVAL as int) as u64,
                last_seen_id,
                next_retry: NORMAL_POLL_INTERVAL,
                offline: false,
                recovered: false,
            }),
    {
        LivePoller {
            next_due: now.saturating_add(NORMAL_POLL_INTERVAL),
            last_seen_id,
            next_retry: NORMAL_POLL_INTERVAL,
            offline: false,
            recovered: false,
        }
    }

    /// Whether a read is due.
    pub fn is_due(&self, now: u64) -> (due: bool)
        ensures
            due == (now >= self.next_due),
    {
        now >= self.next_due
    }

    /// Takes in the messages that a read found, in order of their numbers.
    pub fn accept(&mut self, messages: &Vec<Message>, now: u64)
        ensures
            *final(self) == old(self).accepted(messages@, now),
    {
        if messages.len() > 0 {
            self.last_seen_id = messages[messages.len() - 1].id;
        }
        self.record_success(now);
    }

    /// Tells once that reading works again.
    pub fn take_recovered(&mut self) -> (recovered: bool)
        ensures
            recovered == old(self).recovered,
            *final(self) == (LivePoller { recovered: false, ..*old(self) }),
    {
        let recovered = self.recovered;
        self.recovered = false;
        recovered
    }

    /// A read failed: the next one is due after a delay that doubles with each failure.
    pub fn record_failure(&mut self, now: u64) -> (delay: u64)
        requires
            old(self).wf(),
        ensures
            final(self).wf(),
            delay == old(self).next_retry,
            *final(self) == old(self).failed(now),
    {
        let scheduled = self.next_retry;
        self.next_due = now.saturating_add(scheduled);
        self.next_retry = if self.next_retry * 2 < MAX_RETRY_INTERVAL {
            self.next_retry * 2
        } else {
            MAX_RETRY_INTERVAL
        };
        self.offline = true;
        self.recovered = false;
        scheduled
    }

    /// A read worked: the next one is due after one interval.
    pub fn record_success(&mut self, now: u64)
        ensures
            *final(self) == old(self).succeeded(now),
    {
        self.next_due = now.saturating_add(NORMAL_POLL_INTERVAL);
        self.next_retry = NORMAL_POLL_INTERVAL;
        self.recovered = self.offline;
        self.offline = false;
    }
}

/// Failures in a row are answered with delays of one, two, four, eight and sixteen seconds, and
/// of thirty seconds from then on.
pub proof fn backoff_doubles_up_to_the_limit(failures: nat)
    ensures
        backoff(0) == 1_000_000_000,
        backoff(1) == 2_000_000_000,
        backoff(2) == 4_000_000_000,
        backoff(3) == 8_000_000_000,
        backoff(4) == 16_000_000_000,
        failures >= 5 ==> backoff(failures) == 30_000_000_000,
        NORMAL_POLL_INTERVAL <= backoff(failures) <= MAX_RETRY_INTERVAL,
        backoff(failures) <= backoff(failures + 1),
    decreases failures,
{
    reveal_with_fuel(backoff, 6);
    if failures > 0 {
        backoff_doubles_up_to_the_limit((failures - 1) as nat);
    }
}

} // verus!

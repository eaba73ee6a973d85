//! Notifications: the terminal bell, desktop notifications, the terminal title, and bursts of
//! messages. Instants are nanoseconds on the monotonic clock.

use crate::clock;
use crate::search;
use crate::search::replace_char;
use crate::strings;
use crate::strings::{char_is_control, chars_of, concat3, concat5, decimal_usize, string_of};
use vstd::prelude::*;

verus! {

/// The time over which arrivals are counted.
pub const BURST_WINDOW: u64 = 60_000_000_000;

/// More arrivals than this within the window are a burst.
pub const BURST_THRESHOLD: usize = 20;

/// How long the banner of a burst is shown.
pub const BURST_ALERT_DURATION: u64 = 3_000_000_000;

/// The shortest time between two desktop notifications.
pub const OSC9_THROTTLE: u64 = 5_000_000_000;

/// The longest part of a body that a desktop notification shows.
pub const OSC9_PREVIEW_CHARS: usize = 60;

/// How many kinds of notification can be switched.
pub const NOTIFY_SETTING_COUNT: usize = 4;

/// The labels of the switches.
pub const NOTIFY_SETTING_LABELS: [&'static str; 4] = [
    "Terminal bell on unread",
    "Desktop notification (OSC 9)",
    "Terminal title unread count",
    "Burst alert",
];

/// Which notifications are on.
#[derive(Clone, Copy, Debug, PartialEq, Eq, Structural)]
pub struct NotifySettings {
    pub bell: bool,
    pub desktop: bool,
    pub title: bool,
    pub burst_alert: bool,
}

impl Default for NotifySettings {
    fn default() -> (settings: Self)
        ensures
            settings == (NotifySettings {
                bell: true,
                desktop: true,
                title: true,
                burst_alert: true,
            }),
    {
        NotifySettings { bell: true, desktop: true, title: true, burst_alert: true }
    }
}

impl NotifySettings {
    /// The switch at a position is on.
    pub open spec fn enabled(self, index: int) -> bool {
        if index == 0 {
            self.bell
        } else if index == 1 {
            self.desktop
        } else if index == 2 {
            self.title
        } else if index == 3 {
            self.burst_alert
        } else {
            false
        }
    }

    /// The settings after the switch at a position was pressed.
    pub open spec fn toggled(self, index: int) -> NotifySettings {
        if index == 0 {
            NotifySettings { bell: !self.bell, ..self }
        } else if index == 1 {
            NotifySettings { desktop: !self.desktop, ..self }
        } else if index == 2 {
            NotifySettings { title: !self.title, ..self }
        } else if index == 3 {
            NotifySettings { burst_alert: !self.burst_alert, ..self }
        } else {
            self
        }
    }

    /// Whether the switch at a position is on.
    pub fn is_enabled(&self, index: usize) -> (on: bool)
        ensures
            on == self.enabled(index as int),
    {
        if index == 0 {
            self.bell
        } else if index == 1 {
            self.desktop
        } else if index == 2 {
            self.title
        } else if index == 3 {
            self.burst_alert
        } else {
            false
        }
    }

    /// Presses the switch at a position.
    pub fn toggle(&mut self, index: usize)
        ensures
            *final(self) == old(self).toggled(index as int),
    {
        if index == 0 {
            self.bell = !self.bell;
        } else if index == 1 {
            self.desktop = !self.desktop;
        } else if index == 2 {
            self.title = !self.title;
        } else if index == 3 {
            self.burst_alert = !self.burst_alert;
        }
    }
}

/// Pressing a switch changes that switch alone, and pressing it again restores the settings.
pub proof fn toggle_changes_one_switch(settings: NotifySettings, index: int, other: int)
    requires
        0 <= index < NOTIFY_SETTING_COUNT,
    ensures
        settings.toggled(index).enabled(index) == !settings.enabled(index),
        other != index ==> settings.toggled(index).enabled(other) == settings.enabled(other),
        settings.toggled(index).toggled(index) == settings,
{
}

/// A notification that is to be given.
#[derive(Debug, PartialEq, Eq)]
pub enum PendingNotification {
    Bell,
    Desktop { from: String, body: String },
}

/// The instants of recent arrivals, oldest first.
#[derive(Debug)]
pub struct BurstTracker {
    pub events: Vec<u64>,
}

/// The arrivals without those at the front that have left the window.
pub open spec fn pruned(events: Seq<u64>, now: u64) -> Seq<u64>
    decreases events.len(),
{
    if events.len() > 0 && clock::nanos_since(now, events[0]) > BURST_WINDOW {
        pruned(events.skip(1), now)
    } else {
        events
    }
}

/// The arrivals after `count` more at the instant `now`.
pub open spec fn recorded(events: Seq<u64>, count: nat, now: u64) -> Seq<u64> {
    pruned(events + Seq::new(count, |i: int| now), now)
}

/// How many arrivals a burst has, if they are one.
pub open spec fn burst_of(arrivals: nat) -> Option<usize> {
    if arrivals > BURST_THRESHOLD {
        Some(arrivals as usize)
    } else {
        None
    }
}

impl BurstTracker {
    /// No arrivals yet.
    pub fn new() -> (tracker: Self)
        ensures
            tracker.events@ == Seq::<u64>::empty(),
    {
        BurstTracker { events: Vec::new() }
    }

    /// Counts `count` arrivals at the instant `now`; tells how many there are in the window if
    /// they are a burst.
    pub fn record(&mut self, count: usize, now: u64) -> (burst: Option<usize>)
        ensures
            final(self).events@ == recorded(old(self).events@, count as nat, now),
            burst == burst_of(final(self).events@.len()),
    {
        let ghost before = self.events@;
        let mut added: usize = 0;
        proof {
            assert(before + Seq::new(0, |i: int| now) =~= before);
        }
        while added < count
            invariant
                added <= count,
                self.events@ == before + Seq::new(added as nat, |i: int| now),
            decreases count - added,
        {
            self.events.push(now);
            added += 1;
            proof {
                assert(self.events@ =~= before + Seq::new(added as nat, |i: int| now));
            }
        }
        self.prune(now);
        if self.events.len() > BURST_THRESHOLD {
            Some(self.events.len())
        } else {
            None
        }
    }

    fn prune(&mut self, now: u64)
        ensures
            final(self).events@ == pruned(old(self).events@, now),
    {
        let ghost all = self.events@;
        let mut start: usize = 0;
        proof {
            assert(all.skip(0) =~= all);
        }
        while start < self.events.len() && now > self.events[start] && now - self.events[start]
            > BURST_WINDOW
            invariant
                start <= all.len(),
                self.events@ == all,
                pruned(all, now) == pruned(all.skip(start as int), now),
            decreases all.len() - start,
        {
            proof {
                assert(all.skip(start as int)[0] == all[start as int]);
                assert(all.skip(start as int).skip(1) =~= all.skip(start + 1));
            }
            start += 1;
        }
        proof {
            if start < all.len() {
                assert(all.skip(start as int)[0] == all[start as int]);
            }
        }
        self.events = self.events.split_off(start);
        proof {
            assert(self.events@ =~= all.skip(start as int));
        }
    }
}

/// The instants are in order and none is later than `now`.
pub open spec fn in_order(events: Seq<u64>, now: u64) -> bool {
    &&& forall|i: int, j: int| 0 <= i <= j < events.len() ==> events[i] <= events[j]
    &&& forall|i: int| 0 <= i < events.len() ==> events[i] <= now
}

/// The arrival lies within the window.
pub open spec fn is_recent(event: u64, now: u64) -> bool {
    clock::nanos_since(now, event) <= BURST_WINDOW
}

/// While the clock does not run backwards, the arrivals that are kept are exactly those that lie
/// within the window, the new ones among them.
pub proof fn burst_window_is_exact(events: Seq<u64>, count: nat, now: u64)
    requires
        in_order(events, now),
    ensures
        in_order(recorded(events, count, now), now),
        forall|i: int|
            0 <= i < recorded(events, count, now).len() ==> clock::nanos_since(
                now,
                #[trigger] recorded(events, count, now)[i],
            ) <= BURST_WINDOW,
        recorded(events, count, now) == (events + Seq::new(count, |i: int| now)).filter(
            |event: u64| is_recent(event, now),
        ),
        recorded(events, count, now).len() >= count,
{
    let all = events + Seq::new(count, |i: int| now);
    assert(in_order(all, now));
    prune_keeps_recent(all, now);
    prune_keeps_suffix(all, count, now);
    prune_drops_only_old(all, now);
}

/// Arrivals that were counted together.
pub ghost struct Arrivals {
    pub count: nat,
    pub at: u64,
}

/// What a tracker that began with no arrivals keeps after some calls.
pub open spec fn kept_after(calls: Seq<Arrivals>) -> Seq<u64>
    decreases calls.len(),
{
    if calls.len() == 0 {
        Seq::empty()
    } else {
        recorded(kept_after(calls.drop_last()), calls.last().count, calls.last().at)
    }
}

/// How many of the arrivals lie within the window.
pub open spec fn recent_arrivals(calls: Seq<Arrivals>, now: u64) -> nat
    decreases calls.len(),
{
    if calls.len() == 0 {
        0
    } else {
        recent_arrivals(calls.drop_last(), now) + if is_recent(calls.last().at, now) {
            calls.last().count
        } else {
            0
        }
    }
}

/// The calls were made one after the other, none later than `now`.
pub open spec fn calls_in_order(calls: Seq<Arrivals>, now: u64) -> bool {
    &&& forall|i: int, j: int| 0 <= i <= j < calls.len() ==> calls[i].at <= calls[j].at
    &&& forall|i: int| 0 <= i < calls.len() ==> (#[trigger] calls[i]).at <= now
}

/// While the clock does not run backwards, a tracker that began with no arrivals tells of a burst
/// exactly when more than the threshold have come within the window, those of this call and of
/// every call before it counted together, and it tells how many. An arrival as old as the window
/// is long still counts.
pub proof fn bursts_are_told_exactly(calls: Seq<Arrivals>, count: nat, now: u64)
    requires
        calls_in_order(calls, now),
    ensures
        recorded(kept_after(calls), count, now).len() == recent_arrivals(calls, now) + count,
        burst_of(recorded(kept_after(calls), count, now).len()) == burst_of(
            recent_arrivals(calls, now) + count,
        ),
{
    let fresh = Seq::new(count, |i: int| now);
    let recent = |event: u64| is_recent(event, now);
    tracker_keeps_the_recent(calls, now);
    burst_window_is_exact(kept_after(calls), count, now);
    Seq::filter_distributes_over_add(kept_after(calls), fresh, recent);
    equal_arrivals_are_kept_together(count, now, now);
}

proof fn tracker_keeps_the_recent(calls: Seq<Arrivals>, now: u64)
    requires
        calls_in_order(calls, now),
    ensures
        in_order(kept_after(calls), now),
        kept_after(calls).filter(|event: u64| is_recent(event, now)).len() == recent_arrivals(
            calls,
            now,
        ),
    decreases calls.len(),
{
    let recent = |event: u64| is_recent(event, now);
    if calls.len() == 0 {
        reveal(Seq::filter);
    } else {
        let before = calls.drop_last();
        let last = calls.last();
        let fresh = Seq::new(last.count, |i: int| last.at);
        assert forall|i: int| 0 <= i < before.len() implies (#[trigger] before[i]).at <= last.at by {
            assert(calls[i].at <= calls[calls.len() - 1].at);
        }
        assert(calls_in_order(before, last.at));
        assert(calls_in_order(before, now));
        tracker_keeps_the_recent(before, last.at);
        tracker_keeps_the_recent(before, now);
        burst_window_is_exact(kept_after(before), last.count, last.at);
        later_window_is_narrower(kept_after(before) + fresh, last.at, now);
        Seq::filter_distributes_over_add(kept_after(before), fresh, recent);
        equal_arrivals_are_kept_together(last.count, last.at, now);
    }
}

proof fn later_window_is_narrower(events: Seq<u64>, then: u64, now: u64)
    requires
        then <= now,
    ensures
        events.filter(|event: u64| is_recent(event, then)).filter(
            |event: u64| is_recent(event, now),
        ) == events.filter(|event: u64| is_recent(event, now)),
    decreases events.len(),
{
    let recent_then = |event: u64| is_recent(event, then);
    let recent = |event: u64| is_recent(event, now);
    reveal(Seq::filter);
    if events.len() > 0 {
        let shorter = events.drop_last();
        let last = events.last();
        later_window_is_narrower(shorter, then, now);
        if is_recent(last, then) {
            let kept = shorter.filter(recent_then).push(last);
            assert(kept.drop_last() =~= shorter.filter(recent_then));
        }
    }
}

proof fn equal_arrivals_are_kept_together(count: nat, at: u64, now: u64)
    ensures
        Seq::new(count, |i: int| at).filter(|event: u64| is_recent(event, now)).len() == (
        if is_recent(at, now) {
            count
        } else {
            0
        }),
    decreases count,
{
    reveal(Seq::filter);
    if count > 0 {
        let fewer = (count - 1) as nat;
        equal_arrivals_are_kept_together(fewer, at, now);
        assert(Seq::new(count, |i: int| at).drop_last() =~= Seq::new(fewer, |i: int| at));
    }
}

proof fn all_recent(events: Seq<u64>, now: u64)
    requires
        forall|i: int| 0 <= i < events.len() ==> is_recent(#[trigger] events[i], now),
    ensures
        events.filter(|event: u64| is_recent(event, now)) == events,
    decreases events.len(),
{
    reveal(Seq::filter);
    if events.len() > 0 {
        let shorter = events.drop_last();
        assert forall|i: int| 0 <= i < shorter.len() implies is_recent(
            #[trigger] shorter[i],
            now,
        ) by {
            assert(is_recent(events[i], now));
        }
        all_recent(shorter, now);
        assert(is_recent(events[events.len() - 1], now));
        assert(shorter.push(events.last()) =~= events);
    } else {
        assert(events.filter(|event: u64| is_recent(event, now)) =~= events);
    }
}

proof fn prune_drops_only_old(events: Seq<u64>, now: u64)
    requires
        in_order(events, now),
    ensures
        pruned(events, now) == events.filter(|event: u64| is_recent(event, now)),
    decreases events.len(),
{
    let recent = |event: u64| is_recent(event, now);
    if events.len() > 0 && clock::nanos_since(now, events[0]) > BURST_WINDOW {
        let first = seq![events[0]];
        let rest = events.skip(1);
        assert(in_order(rest, now));
        prune_drops_only_old(rest, now);
        assert(events =~= first + rest);
        Seq::filter_distributes_over_add(first, rest, recent);
        assert(first.filter(recent) =~= Seq::empty()) by {
            reveal(Seq::filter);
            reveal_with_fuel(Seq::filter, 2);
            assert(first.drop_last() =~= Seq::empty());
            assert(first.last() == events[0]);
        }
        assert(Seq::<u64>::empty() + rest.filter(recent) =~= rest.filter(recent));
    } else {
        assert forall|i: int| 0 <= i < events.len() implies is_recent(
            #[trigger] events[i],
            now,
        ) by {
            assert(events[0] <= events[i]);
        }
        all_recent(events, now);
    }
}

proof fn prune_keeps_recent(events: Seq<u64>, now: u64)
    requires
        in_order(events, now),
    ensures
        in_order(pruned(events, now), now),
        forall|i: int|
            0 <= i < pruned(events, now).len() ==> clock::nanos_since(
                now,
                #[trigger] pruned(events, now)[i],
            ) <= BURST_WINDOW,
    decreases events.len(),
{
    if events.len() > 0 && clock::nanos_since(now, events[0]) > BURST_WINDOW {
        assert(in_order(events.skip(1), now));
        prune_keeps_recent(events.skip(1), now);
    } else {
        assert forall|i: int| 0 <= i < events.len() implies clock::nanos_since(
            now,
            #[trigger] events[i],
        ) <= BURST_WINDOW by {
            assert(events[0] <= events[i]);
        }
    }
}

proof fn prune_keeps_suffix(events: Seq<u64>, count: nat, now: u64)
    requires
        events.len() >= count,
        forall|i: int| events.len() - count <= i < events.len() ==> events[i] == now,
    ensures
        pruned(events, now).len() >= count,
    decreases events.len(),
{
    if events.len() > 0 && clock::nanos_since(now, events[0]) > BURST_WINDOW {
        if events.len() == count {
            assert(events[0] == now);
        }
        prune_keeps_suffix(events.skip(1), count, now);
    }
}

/// What was written to the terminal last.
#[derive(Debug)]
pub struct NotificationSink {
    pub last_osc9: Option<u64>,
    pub last_title: Option<usize>,
}

impl NotificationSink {
    /// Nothing was written yet.
    pub fn new() -> (sink: Self)
        ensures
            sink == (NotificationSink { last_osc9: None, last_title: None }),
    {
        NotificationSink { last_osc9: None, last_title: None }
    }

    /// Enough time has passed since the last desktop notification.
    pub open spec fn osc9_allowed(self, now: u64) -> bool {
        self.last_osc9 matches Some(last) ==> clock::nanos_since(now, last) >= OSC9_THROTTLE
    }

    /// Whether enough time has passed since the last desktop notification.
    pub fn should_emit_osc9(&self, now: u64) -> (allowed: bool)
        ensures
            allowed == self.osc9_allowed(now),
    {
        match self.last_osc9 {
            None => true,
            Some(last) => now > last && now - last >= OSC9_THROTTLE,
        }
    }

    /// What is to be written for a desktop notification; nothing if the last one was too recent.
    pub fn emit_osc9(&mut self, from: &str, body: &str, now: u64) -> (sequence: Option<String>)
        ensures
            old(self).osc9_allowed(now) ==> *final(self) == (NotificationSink {
                last_osc9: Some(now),
                ..*old(self)
            }),
            !old(self).osc9_allowed(now) ==> *final(self) == *old(self),
            match sequence {
                Some(text) => old(self).osc9_allowed(now) && text@ == osc9_text(from@, body@),
                None => !old(self).osc9_allowed(now),
            },
    {
        if !self.should_emit_osc9(now) {
            return None;
        }
        self.last_osc9 = Some(now);
        Some(osc9_sequence(from, body))
    }

    /// What is to be written for the title; nothing if the number of unread messages is the same
    /// as before.
    pub fn set_title_if_changed(&mut self, unread: usize) -> (sequence: Option<String>)
        ensures
            *final(self) == (NotificationSink { last_title: Some(unread), ..*old(self) }),
            match sequence {
                Some(text) => old(self).last_title != Some(unread) && text@ == title_text(
                    unread as nat,
                ),
                None => old(self).last_title == Some(unread),
            },
    {
        if let Some(last) = self.last_title {
            if last == unread {
                return None;
            }
        }
        self.last_title = Some(unread);
        Some(title_sequence(unread))
    }
}

/// The escape sequence that sets the terminal title.
pub open spec fn title_text(unread: nat) -> Seq<char> {
    if unread == 0 {
        "\x1b]0;agmsg-tui\x07"@
    } else {
        "\x1b]0;agmsg-tui ["@ + strings::decimal(unread) + "]\x07"@
    }
}

/// The escape sequence that sets the terminal title; the number of unread messages is left out if
/// there are none.
pub fn title_sequence(unread: usize) -> (text: String)
    ensures
        text@ == title_text(unread as nat),
{
    if unread == 0 {
        "\x1b]0;agmsg-tui\x07".to_owned()
    } else {
        let count = decimal_usize(unread);
        concat3("\x1b]0;agmsg-tui [", count.as_str(), "]\x07")
    }
}

/// The text without its control characters.
pub open spec fn without_controls(text: Seq<char>) -> Seq<char>
    decreases text.len(),
{
    if text.len() == 0 {
        text
    } else if strings::is_control_char(text.last()) {
        without_controls(text.drop_last())
    } else {
        without_controls(text.drop_last()).push(text.last())
    }
}

/// The beginning of a body on one line, with an ellipsis if something is left out.
pub open spec fn preview(body: Seq<char>, limit: int) -> Seq<char> {
    let line = search::replaced(body, '\n', " "@);
    if line.len() <= limit {
        line
    } else {
        line.take(limit).push('…')
    }
}

/// The escape sequence of a desktop notification.
pub open spec fn osc9_text(from: Seq<char>, body: Seq<char>) -> Seq<char> {
    "\x1b]9;"@ + without_controls(from) + ": "@ + without_controls(
        preview(body, OSC9_PREVIEW_CHARS as int),
    ) + "\x07"@
}

fn truncate_preview(body: &str, limit: usize) -> (text: String)
    ensures
        text@ == preview(body@, limit as int),
{
    let line = replace_char(body, '\n', " ");
    let chars = chars_of(line.as_str());
    if chars.len() <= limit {
        return line;
    }
    let mut text = string_of(&chars, 0, limit);
    proof {
        assert(chars@.subrange(0, limit as int) =~= chars@.take(limit as int));
    }
    text.push('…');
    text
}

fn sanitize(text: &str) -> (clean: String)
    ensures
        clean@ == without_controls(text@),
{
    let chars = chars_of(text);
    let mut clean: String = String::new();
    let mut index: usize = 0;
    proof {
        assert(chars@.take(0) =~= Seq::empty());
        assert(clean@ =~= without_controls(chars@.take(0)));
    }
    while index < chars.len()
        invariant
            index <= chars@.len(),
            chars@ == text@,
            clean@ == without_controls(chars@.take(index as int)),
        decreases chars@.len() - index,
    {
        proof {
            assert(chars@.take(index + 1).drop_last() =~= chars@.take(index as int));
        }
        if !char_is_control(chars[index]) {
            clean.push(chars[index]);
        }
        index += 1;
    }
    proof {
        assert(chars@.take(index as int) =~= text@);
    }
    clean
}

/// The escape sequence of a desktop notification. Sender and body come from other agents, so their
/// control characters are left out.
pub fn osc9_sequence(from: &str, body: &str) -> (text: String)
    ensures
        text@ == osc9_text(from@, body@),
{
    let sender = sanitize(from);
    let shortened = truncate_preview(body, OSC9_PREVIEW_CHARS);
    let shown = sanitize(shortened.as_str());
    concat5("\x1b]9;", sender.as_str(), ": ", shown.as_str(), "\x07")
}

/// How often a character occurs.
pub open spec fn occurrences(text: Seq<char>, character: char) -> nat
    decreases text.len(),
{
    if text.len() == 0 {
        0
    } else {
        occurrences(text.drop_last(), character) + if text.last() == character {
            1nat
        } else {
            0
        }
    }
}

proof fn occurrences_concat(a: Seq<char>, b: Seq<char>, character: char)
    ensures
        occurrences(a + b, character) == occurrences(a, character) + occurrences(b, character),
    decreases b.len(),
{
    if b.len() == 0 {
        assert(a + b =~= a);
    } else {
        occurrences_concat(a, b.drop_last(), character);
        assert((a + b).drop_last() =~= a + b.drop_last());
    }
}

proof fn clean_text_has_no_controls(text: Seq<char>, character: char)
    requires
        strings::is_control_char(character),
    ensures
        occurrences(without_controls(text), character) == 0,
    decreases text.len(),
{
    if text.len() > 0 {
        clean_text_has_no_controls(text.drop_last(), character);
        let before = without_controls(text.drop_last());
        if !strings::is_control_char(text.last()) {
            assert(before.push(text.last()).drop_last() =~= before);
        }
    }
}

/// Whatever the sender and the body hold, the notification holds one escape character and one
/// bell, its own: a message cannot smuggle a sequence of its own into it.
pub proof fn osc9_cannot_be_injected(from: Seq<char>, body: Seq<char>)
    ensures
        occurrences(osc9_text(from, body), '\x1b') == 1,
        occurrences(osc9_text(from, body), '\x07') == 1,
{
    reveal_strlit("\x1b]9;");
    reveal_strlit(": ");
    reveal_strlit("\x07");
    let head = "\x1b]9;"@;
    let sender = without_controls(from);
    let shown = without_controls(preview(body, OSC9_PREVIEW_CHARS as int));
    osc9_count(head, sender, ": "@, shown, "\x07"@, '\x1b');
    osc9_count(head, sender, ": "@, shown, "\x07"@, '\x07');
    clean_text_has_no_controls(from, '\x1b');
    clean_text_has_no_controls(from, '\x07');
    clean_text_has_no_controls(preview(body, OSC9_PREVIEW_CHARS as int), '\x1b');
    clean_text_has_no_controls(preview(body, OSC9_PREVIEW_CHARS as int), '\x07');
    reveal_with_fuel(occurrences, 5);
}

proof fn osc9_count(
    a: Seq<char>,
    b: Seq<char>,
    c: Seq<char>,
    d: Seq<char>,
    e: Seq<char>,
    character: char,
)
    ensures
        occurrences(a + b + c + d + e, character) == occurrences(a, character) + occurrences(
            b,
            character,
        ) + occurrences(c, character) + occurrences(d, character) + occurrences(e, character),
{
    occurrences_concat(a, b, character);
    occurrences_concat(a + b, c, character);
    occurrences_concat(a + b + c, d, character);
    occurrences_concat(a + b + c + d, e, character);
}

} // verus!

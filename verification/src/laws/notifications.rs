//! Notifications: who is announced, when it is quiet, and what the terminal is sent.

use crate::app::model::Notices;
use crate::app::status::StatusLine;
use crate::db::Message;
use crate::input::{KeyCode, KeyEvent};
use crate::notify;
use crate::notify::{NotificationSink, PendingNotification};
use crate::search;
use crate::strings;
use vstd::prelude::*;

verus! {

/// Outside a burst, arrivals ring the bell exactly if it is switched on, and announce sender and body
/// of the latest message exactly if desktop notifications are; what waited already waits on, before
/// them.
pub proof fn the_latest_arrival_is_announced(
    before: Notices,
    count: nat,
    latest: Option<Message>,
    now: u64,
    after: Notices,
)
    requires
        before.arrivals_post(count, latest, now, after),
        count > 0,
        !after.burst_active(now),
    ensures
        before.pending@.is_prefix_of(after.pending@),
        before.settings.bell <==> after.pending@.len() > before.pending@.len()
            && after.pending@[before.pending@.len() as int] is Bell,
        before.settings.desktop && latest is Some <==> after.pending@.len() > before.pending@.len()
            && after.pending@.last() is Desktop,
        before.settings.desktop && latest is Some ==> after.pending@.last()->from@
            == latest->Some_0.from_agent@ && after.pending@.last()->body@
            == latest->Some_0.body@,
        after.pending@.len() <= before.pending@.len() + 2,
        after.settings == before.settings,
        after.popup == before.popup,
{
    let counted = Notices { pending: before.pending, ..after };
    let rung = if before.settings.bell {
        before.pending@.push(PendingNotification::Bell)
    } else {
        before.pending@
    };
    if before.settings.desktop && latest is Some {
        assert(after.pending@ =~= rung.push(after.pending@.last()));
    }
    assert(before.pending@ =~= after.pending@.subrange(0, before.pending@.len() as int));
}

/// Arrivals count for a minute. More than twenty of them in it raise the banner, for three seconds;
/// fewer leave it as it is.
pub proof fn bursts_raise_the_banner(
    before: Notices,
    count: nat,
    latest: Option<Message>,
    now: u64,
    after: Notices,
    later: u64,
)
    requires
        before.arrivals_post(count, latest, now, after),
        count > 0,
        before.settings.burst_alert,
        notify::in_order(before.burst_tracker.events@, now),
    ensures
        after.burst_tracker.events@ == (before.burst_tracker.events@ + Seq::new(
            count,
            |i: int| now,
        )).filter(|event: u64| now - event <= 60_000_000_000),
        after.burst_tracker.events@.len() > 20 ==> {
            &&& after.burst_alert is Some
            &&& after.burst_alert->Some_0.until == now + 3_000_000_000
            &&& after.burst_active(later) <==> later < now + 3_000_000_000
            &&& after.burst_alert->Some_0.text@ == "⚠ burst: "@ + strings::decimal(
                after.burst_tracker.events@.len(),
            ) + " msgs/1min"@
        },
        after.burst_tracker.events@.len() <= 20 ==> after.burst_alert == before.burst_alert,
{
    let events = before.burst_tracker.events@ + Seq::new(count, |i: int| now);
    notify::burst_window_is_exact(before.burst_tracker.events@, count, now);
    same_filter(
        events,
        |event: u64| notify::is_recent(event, now),
        |event: u64| now - event <= 60_000_000_000,
    );
}

proof fn same_filter(events: Seq<u64>, one: spec_fn(u64) -> bool, other: spec_fn(u64) -> bool)
    requires
        forall|i: int| 0 <= i < events.len() ==> one(#[trigger] events[i]) == other(events[i]),
    ensures
        events.filter(one) == events.filter(other),
    decreases events.len(),
{
    reveal(Seq::filter);
    if events.len() > 0 {
        let shorter = events.drop_last();
        assert forall|i: int| 0 <= i < shorter.len() implies one(#[trigger] shorter[i]) == other(
            shorter[i],
        ) by {
            assert(shorter[i] == events[i]);
        }
        same_filter(shorter, one, other);
        assert(events[events.len() - 1] == events.last());
    }
}

/// In the popup the cursor goes through the four switches and stops at both ends; Enter and the
/// space bar turn the switch under the cursor, and no other; Escape and `q` close the popup.
pub proof fn popup_turns_the_chosen_switch(before: Notices, key: KeyEvent, selected: usize)
    requires
        before.popup == Some(selected),
        selected < 4,
    ensures
        ({
            let after = before.after_popup_key(key);
            let was = before.settings;
            let turns = key.code == KeyCode::Enter || key.code == KeyCode::Char(' ');
            &&& after.settings.bell == if turns && selected == 0 {
                !was.bell
            } else {
                was.bell
            }
            &&& after.settings.desktop == if turns && selected == 1 {
                !was.desktop
            } else {
                was.desktop
            }
            &&& after.settings.title == if turns && selected == 2 {
                !was.title
            } else {
                was.title
            }
            &&& after.settings.burst_alert == if turns && selected == 3 {
                !was.burst_alert
            } else {
                was.burst_alert
            }
            &&& after.popup is None <==> key.code == KeyCode::Esc || key.code == KeyCode::Char('q')
            &&& key.code == KeyCode::Down || key.code == KeyCode::Char('j') ==> after.popup == Some(
                if selected < 3 {
                    (selected + 1) as usize
                } else {
                    3
                },
            )
            &&& key.code == KeyCode::Up || key.code == KeyCode::Char('k') ==> after.popup == Some(
                if selected > 0 {
                    (selected - 1) as usize
                } else {
                    0
                },
            )
            &&& turns ==> after.popup == Some(selected)
            &&& after.pending == before.pending
            &&& after.burst_alert == before.burst_alert
            &&& after.burst_tracker == before.burst_tracker
        }),
{
}

/// The key for the bell turns the bell alone, and says whether it is muted now.
pub proof fn bell_key_turns_the_bell(before: Notices, after: Notices, line: Option<StatusLine>)
    requires
        before.bell_post(after, line),
    ensures
        after.settings.bell != before.settings.bell,
        after.settings.desktop == before.settings.desktop,
        after.settings.title == before.settings.title,
        after.settings.burst_alert == before.settings.burst_alert,
        line matches Some(line) && !line.is_error && (after.settings.bell <==> line.text@
            == "terminal bell unmuted"@) && (!after.settings.bell <==> line.text@
            == "terminal bell muted"@),
{
    reveal_strlit("terminal bell unmuted");
    reveal_strlit("terminal bell muted");
    assert("terminal bell unmuted"@.len() != "terminal bell muted"@.len());
}

/// After one desktop notification the next one is sent five seconds later at the earliest; the first
/// one is sent at once.
pub proof fn desktop_notifications_keep_their_distance(sink: NotificationSink, now: u64)
    ensures
        sink.last_osc9 is None ==> sink.osc9_allowed(now),
        sink.last_osc9 is Some && sink.last_osc9->Some_0 <= now ==> (sink.osc9_allowed(now) <==> now
            - sink.last_osc9->Some_0 >= 5_000_000_000),
{
}

proof fn replaced_one_by_one(text: Seq<char>)
    ensures
        search::replaced(text, '\n', " "@).len() == text.len(),
        forall|i: int|
            0 <= i < text.len() ==> #[trigger] search::replaced(text, '\n', " "@)[i] == if text[i]
                == '\n' {
                ' '
            } else {
                text[i]
            },
    decreases text.len(),
{
    reveal_strlit(" ");
    if text.len() > 0 {
        replaced_one_by_one(text.drop_last());
    }
}

/// The preview of a body is its beginning on one line: each of its first characters stays where it
/// is, ends of lines become spaces, and an ellipsis tells that something was left out.
pub proof fn previews_are_the_beginning(body: Seq<char>, limit: int)
    requires
        limit >= 0,
    ensures
        body.len() <= limit ==> notify::preview(body, limit).len() == body.len(),
        body.len() > limit ==> notify::preview(body, limit).len() == limit + 1 && notify::preview(
            body,
            limit,
        ).last() == '…',
        forall|i: int|
            0 <= i < body.len() && i < limit ==> #[trigger] notify::preview(body, limit)[i]
                == if body[i] == '\n' {
                ' '
            } else {
                body[i]
            },
{
    replaced_one_by_one(body);
}

/// What is announced keeps every character but the control characters, in their order.
pub proof fn only_controls_are_left_out(text: Seq<char>)
    ensures
        notify::without_controls(text) == text.filter(
            |c: char| !((c as u32) < 0x20 || 0x7f <= (c as u32) < 0xa0),
        ),
    decreases text.len(),
{
    reveal(Seq::filter);
    if text.len() > 0 {
        only_controls_are_left_out(text.drop_last());
    }
}

/// An announcement is the sender, a colon, and at most the first sixty characters of the body with
/// an ellipsis behind them.
pub proof fn announcements_name_the_sender(from: Seq<char>, body: Seq<char>)
    ensures
        notify::osc9_text(from, body) == "\x1b]9;"@ + from.filter(
            |c: char| !((c as u32) < 0x20 || 0x7f <= (c as u32) < 0xa0),
        ) + ": "@ + notify::preview(body, 60).filter(
            |c: char| !((c as u32) < 0x20 || 0x7f <= (c as u32) < 0xa0),
        ) + "\x07"@,
{
    only_controls_are_left_out(from);
    only_controls_are_left_out(notify::preview(body, 60));
}

/// The title tells how many messages are unread: two counts have two titles, and the number stands
/// in brackets exactly if something is unread.
pub proof fn titles_tell_the_count(unread: nat, other: nat)
    ensures
        notify::title_text(unread) == notify::title_text(other) ==> unread == other,
        unread > 0 ==> notify::title_text(unread).subrange(
            15,
            15 + strings::decimal(unread).len() as int,
        ) == strings::decimal(unread) && notify::title_text(unread)[14] == '[',
        unread == 0 ==> notify::title_text(unread).len() == 14,
{
    reveal_strlit("\x1b]0;agmsg-tui [");
    reveal_strlit("\x1b]0;agmsg-tui\x07");
    reveal_strlit("]\x07");
    if unread > 0 {
        assert(notify::title_text(unread).subrange(15, 15 + strings::decimal(unread).len() as int)
            =~= strings::decimal(unread));
    }
    if other > 0 {
        assert(notify::title_text(other).subrange(15, 15 + strings::decimal(other).len() as int)
            =~= strings::decimal(other));
    }
    if notify::title_text(unread) == notify::title_text(other) {
        if unread > 0 && other > 0 {
            assert(notify::title_text(unread).len() == strings::decimal(unread).len() + 17);
            assert(notify::title_text(other).len() == strings::decimal(other).len() + 17);
            strings::decimal_injective(unread, other);
        } else if unread > 0 || other > 0 {
            assert(notify::title_text(0).len() == 14);
            assert(false);
        }
    }
}

} // verus!

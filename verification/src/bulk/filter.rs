//! Bulk operations: filtering messages, and working through a list of targets one by one.

use crate::clock;
use crate::clock::{parse_rfc3339, Timestamp};
use crate::db::Message;
use crate::search;
use crate::search::contains;
use crate::strings;
use crate::strings::to_lowercase;
use vstd::prelude::*;

verus! {

/// How far back the filter looks.
#[derive(Clone, Copy, Debug, PartialEq, Eq, Structural)]
pub enum FilterPeriod {
    SevenDays,
    ThirtyDays,
    All,
}

impl FilterPeriod {
    /// The label of the period.
    pub fn label(self) -> (label: &'static str)
        ensures
            label@ == match self {
                FilterPeriod::SevenDays => "7d"@,
                FilterPeriod::ThirtyDays => "30d"@,
                FilterPeriod::All => "all"@,
            },
    {
        match self {
            FilterPeriod::SevenDays => "7d",
            FilterPeriod::ThirtyDays => "30d",
            FilterPeriod::All => "all",
        }
    }

    /// The period after this one.
    pub open spec fn following(self) -> FilterPeriod {
        match self {
            FilterPeriod::SevenDays => FilterPeriod::ThirtyDays,
            FilterPeriod::ThirtyDays => FilterPeriod::All,
            FilterPeriod::All => FilterPeriod::SevenDays,
        }
    }

    /// The period before this one.
    pub open spec fn preceding(self) -> FilterPeriod {
        match self {
            FilterPeriod::SevenDays => FilterPeriod::All,
            FilterPeriod::ThirtyDays => FilterPeriod::SevenDays,
            FilterPeriod::All => FilterPeriod::ThirtyDays,
        }
    }

    /// The next period, or the previous one if `step` is negative.
    pub fn cycle(self, step: isize) -> (period: Self)
        ensures
            period == if step < 0 {
                self.preceding()
            } else {
                self.following()
            },
    {
        if step < 0 {
            match self {
                FilterPeriod::SevenDays => FilterPeriod::All,
                FilterPeriod::ThirtyDays => FilterPeriod::SevenDays,
                FilterPeriod::All => FilterPeriod::ThirtyDays,
            }
        } else {
            match self {
                FilterPeriod::SevenDays => FilterPeriod::ThirtyDays,
                FilterPeriod::ThirtyDays => FilterPeriod::All,
                FilterPeriod::All => FilterPeriod::SevenDays,
            }
        }
    }

    /// The earliest time that the period reaches back to.
    pub open spec fn earliest(self, now: Timestamp) -> Option<Timestamp> {
        match self {
            FilterPeriod::SevenDays => Some(now.days_earlier(7)),
            FilterPeriod::ThirtyDays => Some(now.days_earlier(30)),
            FilterPeriod::All => None,
        }
    }

    /// What the period looks back to is still within the calendar.
    pub open spec fn reachable(self, now: Timestamp) -> bool {
        now.wf() && match self {
            FilterPeriod::SevenDays => now.secs - 7 * clock::DAY_SECS >= clock::MIN_SECS,
            FilterPeriod::ThirtyDays => now.secs - 30 * clock::DAY_SECS >= clock::MIN_SECS,
            FilterPeriod::All => true,
        }
    }

    fn cutoff(self, now: Timestamp) -> (cutoff: Option<Timestamp>)
        requires
            self.reachable(now),
        ensures
            cutoff == self.earliest(now),
    {
        match self {
            FilterPeriod::SevenDays => Some(now.minus_days(7)),
            FilterPeriod::ThirtyDays => Some(now.minus_days(30)),
            FilterPeriod::All => None,
        }
    }
}

/// Thirty days before the time are still within the calendar.
pub open spec fn month_reachable(now: Timestamp) -> bool {
    now.wf() && now.secs - 30 * clock::DAY_SECS >= clock::MIN_SECS
}

/// Cycling forward and back again returns to the same period.
pub proof fn period_cycle_inverse(period: FilterPeriod)
    ensures
        period.following().preceding() == period,
        period.preceding().following() == period,
        period.following().following().following() == period,
{
}

/// The field of the filter screen that has the focus.
#[derive(Clone, Copy, Debug, PartialEq, Eq, Structural)]
pub enum BulkFilterFocus {
    Agent,
    Period,
    Body,
    Results,
}

impl BulkFilterFocus {
    /// The field after this one, or before it.
    pub open spec fn neighbour(self, backwards: bool) -> BulkFilterFocus {
        match (self, backwards) {
            (BulkFilterFocus::Agent, false) => BulkFilterFocus::Period,
            (BulkFilterFocus::Period, false) => BulkFilterFocus::Body,
            (BulkFilterFocus::Body, false) => BulkFilterFocus::Results,
            (BulkFilterFocus::Results, false) => BulkFilterFocus::Agent,
            (BulkFilterFocus::Agent, true) => BulkFilterFocus::Results,
            (BulkFilterFocus::Period, true) => BulkFilterFocus::Agent,
            (BulkFilterFocus::Body, true) => BulkFilterFocus::Period,
            (BulkFilterFocus::Results, true) => BulkFilterFocus::Body,
        }
    }

    /// The field after this one, or before it.
    pub fn next(self, backwards: bool) -> (field: Self)
        ensures
            field == self.neighbour(backwards),
    {
        match (self, backwards) {
            (BulkFilterFocus::Agent, false) => BulkFilterFocus::Period,
            (BulkFilterFocus::Period, false) => BulkFilterFocus::Body,
            (BulkFilterFocus::Body, false) => BulkFilterFocus::Results,
            (BulkFilterFocus::Results, false) => BulkFilterFocus::Agent,
            (BulkFilterFocus::Agent, true) => BulkFilterFocus::Results,
            (BulkFilterFocus::Period, true) => BulkFilterFocus::Agent,
            (BulkFilterFocus::Body, true) => BulkFilterFocus::Period,
            (BulkFilterFocus::Results, true) => BulkFilterFocus::Body,
        }
    }
}

/// Tab and Shift-Tab undo each other, and four Tabs come back to the same field.
pub proof fn filter_focus_cycle(focus: BulkFilterFocus)
    ensures
        focus.neighbour(false).neighbour(true) == focus,
        focus.neighbour(true).neighbour(false) == focus,
        focus.neighbour(false).neighbour(false).neighbour(false).neighbour(false) == focus,
{
}

/// The filter screen: the messages of all teams, what is asked for, and which messages match.
#[derive(Debug)]
pub struct BulkFilterState {
    pub agent: String,
    pub period: FilterPeriod,
    pub body: String,
    pub focus: BulkFilterFocus,
    pub all_messages: Vec<Message>,
    pub results: Vec<usize>,
    pub selected: usize,
}

/// The message was created at a readable time that is not before the cutoff.
pub open spec fn is_after(message: Message, cutoff: Timestamp) -> bool {
    match clock::parsed_time(message.created_at@) {
        Some(time) => time.not_before(cutoff),
        None => false,
    }
}

/// The message passes the filter: some part of its sender or recipient, some part of its body,
/// letters compared in lowercase, and its age.
pub open spec fn passes_filter(
    message: Message,
    agent: Seq<char>,
    body: Seq<char>,
    cutoff: Option<Timestamp>,
) -> bool {
    &&& agent.len() == 0 || search::contains_text(
        strings::lowercase(message.from_agent@),
        strings::lowercase(agent),
    ) || search::contains_text(
        strings::lowercase(message.to_agent@),
        strings::lowercase(agent),
    )
    &&& body.len() == 0 || search::contains_text(
        strings::lowercase(message.body@),
        strings::lowercase(body),
    )
    &&& cutoff matches Some(cutoff) ==> is_after(message, cutoff)
}

/// The positions of the messages that pass the filter, in order.
pub open spec fn filter_results(
    messages: Seq<Message>,
    agent: Seq<char>,
    body: Seq<char>,
    cutoff: Option<Timestamp>,
) -> Seq<usize>
    decreases messages.len(),
{
    if messages.len() == 0 {
        Seq::empty()
    } else {
        let before = filter_results(messages.drop_last(), agent, body, cutoff);
        if passes_filter(messages.last(), agent, body, cutoff) {
            before.push((messages.len() - 1) as usize)
        } else {
            before
        }
    }
}

fn message_is_after(message: &Message, cutoff: Timestamp) -> (after: bool)
    ensures
        after == is_after(*message, cutoff),
{
    match parse_rfc3339(message.created_at.as_str()) {
        Some(time) => time.is_not_before(cutoff),
        None => false,
    }
}

/// The messages at the given positions; a position past the end is left out.
pub open spec fn picked(messages: Seq<Message>, positions: Seq<usize>) -> Seq<Message>
    decreases positions.len(),
{
    if positions.len() == 0 {
        Seq::empty()
    } else {
        let before = picked(messages, positions.drop_last());
        if positions.last() < messages.len() {
            before.push(messages[positions.last() as int])
        } else {
            before
        }
    }
}

impl BulkFilterState {
    /// The positions that match what is asked for at the time `now`.
    pub open spec fn matching(self, now: Timestamp) -> Seq<usize> {
        filter_results(self.all_messages@, self.agent@, self.body@, self.period.earliest(now))
    }

    /// The filter as it opens: the last seven days, nothing else asked for.
    pub fn new(all_messages: Vec<Message>, now: Timestamp) -> (state: Self)
        requires
            FilterPeriod::SevenDays.reachable(now),
        ensures
            state.agent@ == Seq::<char>::empty(),
            state.period == FilterPeriod::SevenDays,
            state.body@ == Seq::<char>::empty(),
            state.focus == BulkFilterFocus::Agent,
            state.all_messages == all_messages,
            state.results@ == state.matching(now),
            state.selected == 0,
    {
        let mut state = BulkFilterState {
            agent: String::new(),
            period: FilterPeriod::SevenDays,
            body: String::new(),
            focus: BulkFilterFocus::Agent,
            all_messages,
            results: Vec::new(),
            selected: 0,
        };
        state.recompute(now);
        state
    }

    /// Finds the matching messages anew and keeps the cursor within them.
    pub fn recompute(&mut self, now: Timestamp)
        requires
            old(self).period.reachable(now),
        ensures
            *final(self) == (BulkFilterState {
                results: final(self).results,
                selected: final(self).selected,
                ..*old(self)
            }),
            final(self).results@ == old(self).matching(now),
            final(self).selected == crate::app::status::clamped_index(
                old(self).selected as int,
                final(self).results@.len() as int,
            ),
    {
        let agent = to_lowercase(self.agent.as_str());
        let body = to_lowercase(self.body.as_str());
        let cutoff = self.period.cutoff(now);
        let ghost messages = self.all_messages@;
        let mut results: Vec<usize> = Vec::new();
        let mut index: usize = 0;
        proof {
            assert(messages.take(0) =~= Seq::empty());
            assert(results@ =~= filter_results(messages.take(0), self.agent@, self.body@, cutoff));
        }
        while index < self.all_messages.len()
            invariant
                index <= messages.len(),
                messages == self.all_messages@,
                *self == *old(self),
                agent@ == strings::lowercase(self.agent@),
                body@ == strings::lowercase(self.body@),
                results@ == filter_results(
                    messages.take(index as int),
                    self.agent@,
                    self.body@,
                    cutoff,
                ),
            decreases messages.len() - index,
        {
            proof {
                assert(messages.take(index + 1).drop_last() =~= messages.take(index as int));
                assert(messages.take(index + 1).last() == messages[index as int]);
            }
            let message = &self.all_messages[index];
            let agent_matches = self.agent.as_str().is_empty() || contains(
                to_lowercase(message.from_agent.as_str()).as_str(),
                agent.as_str(),
            ) || contains(to_lowercase(message.to_agent.as_str()).as_str(), agent.as_str());
            let body_matches = self.body.as_str().is_empty() || contains(
                to_lowercase(message.body.as_str()).as_str(),
                body.as_str(),
            );
            let time_matches = match cutoff {
                Some(cutoff) => message_is_after(message, cutoff),
                None => true,
            };
            assert((agent_matches && body_matches && time_matches) == passes_filter(
                *message,
                self.agent@,
                self.body@,
                cutoff,
            ));
            if agent_matches && body_matches && time_matches {
                results.push(index);
            }
            index += 1;
        }
        proof {
            assert(messages.take(index as int) =~= messages);
        }
        self.selected = crate::app::status::clamp_index(self.selected, results.len());
        self.results = results;
    }

    /// The matching messages, in order.
    pub fn messages(&self) -> (messages: Vec<Message>)
        ensures
            messages@ == picked(self.all_messages@, self.results@),
    {
        let mut messages: Vec<Message> = Vec::new();
        let mut index: usize = 0;
        proof {
            assert(self.results@.take(0) =~= Seq::empty());
            assert(messages@ =~= picked(self.all_messages@, self.results@.take(0)));
        }
        while index < self.results.len()
            invariant
                index <= self.results@.len(),
                messages@ == picked(self.all_messages@, self.results@.take(index as int)),
            decreases self.results@.len() - index,
        {
            proof {
                assert(self.results@.take(index + 1).drop_last() =~= self.results@.take(
                    index as int,
                ));
            }
            let position: usize = self.results[index];
            if position < self.all_messages.len() {
                messages.push(self.all_messages[position].clone());
            }
            index += 1;
        }
        proof {
            assert(self.results@.take(index as int) =~= self.results@);
        }
        messages
    }

    /// The matching message under the cursor.
    pub fn selected_message(&self) -> (message: Option<&Message>)
        ensures
            match message {
                Some(message) => self.selected < self.results@.len() && (
                self.results@[self.selected as int] as int) < self.all_messages@.len() && *message
                    == self.all_messages@[self.results@[self.selected as int] as int],
                None => self.selected >= self.results@.len()
                    || self.results@[self.selected as int] >= self.all_messages@.len(),
            },
    {
        if self.selected < self.results.len() {
            let position: usize = self.results[self.selected];
            if position < self.all_messages.len() {
                return Some(&self.all_messages[position]);
            }
        }
        None
    }
}

/// The filter finds the positions of exactly the messages that pass it, each one once and in
/// order.
pub proof fn filter_finds_exactly_the_matches(
    messages: Seq<Message>,
    agent: Seq<char>,
    body: Seq<char>,
    cutoff: Option<Timestamp>,
)
    requires
        messages.len() <= usize::MAX,
    ensures
        forall|k: int|
            #![trigger filter_results(messages, agent, body, cutoff)[k]]
            0 <= k < filter_results(messages, agent, body, cutoff).len() ==> filter_results(
                messages,
                agent,
                body,
                cutoff,
            )[k] < messages.len() && passes_filter(
                messages[filter_results(messages, agent, body, cutoff)[k] as int],
                agent,
                body,
                cutoff,
            ),
        forall|i: int|
            0 <= i < messages.len() && passes_filter(#[trigger] messages[i], agent, body, cutoff)
                ==> filter_results(messages, agent, body, cutoff).contains(i as usize),
        forall|k: int, l: int|
            0 <= k < l < filter_results(messages, agent, body, cutoff).len() ==> (
            #[trigger] filter_results(messages, agent, body, cutoff)[k]) < (
            #[trigger] filter_results(messages, agent, body, cutoff)[l]),
    decreases messages.len(),
{
    let results = filter_results(messages, agent, body, cutoff);
    if messages.len() > 0 {
        let shorter = messages.drop_last();
        let before = filter_results(shorter, agent, body, cutoff);
        filter_finds_exactly_the_matches(shorter, agent, body, cutoff);
        assert forall|k: int| 0 <= k < results.len() implies #[trigger] results[k] < messages.len()
            && passes_filter(messages[results[k] as int], agent, body, cutoff) by {
            if k < before.len() {
                assert(results[k] == before[k]);
                assert(shorter[before[k] as int] == messages[before[k] as int]);
            }
        }
        assert forall|i: int|
            0 <= i < messages.len() && passes_filter(
                #[trigger] messages[i],
                agent,
                body,
                cutoff,
            ) implies results.contains(i as usize) by {
            if i < shorter.len() {
                assert(shorter[i] == messages[i]);
                let k = choose|k: int| 0 <= k < before.len() && before[k] == i as usize;
                assert(results[k] == i as usize);
            } else {
                assert(results[results.len() - 1] == i as usize);
            }
        }
        assert forall|k: int, l: int| 0 <= k < l < results.len() implies #[trigger] results[k]
            < #[trigger] results[l] by {
            assert(results[k] == before[k]);
            if l < before.len() {
                assert(results[l] == before[l]);
            }
        }
    }
}

proof fn picking_stays_in_front(messages: Seq<Message>, positions: Seq<usize>)
    requires
        messages.len() > 0,
        forall|k: int|
            0 <= k < positions.len() ==> (#[trigger] positions[k]) < messages.len() - 1,
    ensures
        picked(messages, positions) == picked(messages.drop_last(), positions),
    decreases positions.len(),
{
    if positions.len() > 0 {
        let before = positions.drop_last();
        assert forall|k: int| 0 <= k < before.len() implies (#[trigger] before[k])
            < messages.len() - 1 by {
            assert(positions[k] < messages.len() - 1);
        }
        picking_stays_in_front(messages, before);
        assert(positions[positions.len() - 1] < messages.len() - 1);
    }
}

/// The messages that the filter finds are exactly those that pass it, in their order.
pub proof fn found_messages_are_those_that_pass(
    messages: Seq<Message>,
    agent: Seq<char>,
    body: Seq<char>,
    cutoff: Option<Timestamp>,
)
    requires
        messages.len() <= usize::MAX,
    ensures
        picked(messages, filter_results(messages, agent, body, cutoff)) == messages.filter(
            |message: Message| passes_filter(message, agent, body, cutoff),
        ),
    decreases messages.len(),
{
    reveal(Seq::filter);
    if messages.len() > 0 {
        let shorter = messages.drop_last();
        let before = filter_results(shorter, agent, body, cutoff);
        let results = filter_results(messages, agent, body, cutoff);
        found_messages_are_those_that_pass(shorter, agent, body, cutoff);
        filter_finds_exactly_the_matches(shorter, agent, body, cutoff);
        picking_stays_in_front(messages, before);
        if passes_filter(messages.last(), agent, body, cutoff) {
            assert(results.drop_last() =~= before);
        }
    } else {
        assert(picked(messages, filter_results(messages, agent, body, cutoff))
            =~= messages.filter(|message: Message| passes_filter(message, agent, body, cutoff)));
    }
}

} // verus!

//! What is made of the rows and counts of the store.

use crate::clock;
use crate::clock::{format_time, Timestamp};
use crate::db::{DailyTraffic, Database, HistoryPage, Message, TeamSummary, DEFAULT_BURST_THRESHOLD};
use crate::lines;
use crate::lines::parse_usize;
use crate::order;
use crate::order::insert_sorted;
use crate::search;
use crate::search::{position_of, replace_char};
use crate::strings;
use crate::strings::{concat3, decimal_u64, same_text};
use vstd::prelude::*;

verus! {

/// A count of the store; one that makes no sense is zero.
pub open spec fn counted_rows(count: i64) -> usize {
    if 0 <= count <= usize::MAX {
        count as usize
    } else {
        0
    }
}

/// A count of the store; one that makes no sense is zero.
pub fn row_count(count: i64) -> (result: usize)
    ensures
        result == counted_rows(count),
{
    if count >= 0 && count as u64 <= usize::MAX as u64 {
        count as usize
    } else {
        0
    }
}

/// How many messages of a team the store counts.
#[derive(Debug, PartialEq, Eq)]
pub struct TeamCount {
    pub team: String,
    pub count: i64,
}

/// What the store counts for a team; zero if it counts nothing.
pub open spec fn team_count(counts: Seq<TeamCount>, team: Seq<char>) -> usize
    decreases counts.len(),
{
    if counts.len() == 0 {
        0
    } else if counts.last().team@ == team {
        counted_rows(counts.last().count)
    } else {
        team_count(counts.drop_last(), team)
    }
}

/// Looks up what the store counts for a team.
pub fn count_of_team(counts: &Vec<TeamCount>, team: &str) -> (count: usize)
    ensures
        count == team_count(counts@, team@),
{
    let mut end: usize = counts.len();
    proof {
        assert(counts@.take(end as int) =~= counts@);
    }
    while end > 0
        invariant
            end <= counts@.len(),
            team_count(counts@.take(end as int), team@) == team_count(counts@, team@),
        decreases end,
    {
        let row = &counts[end - 1];
        proof {
            assert(counts@.take(end as int).drop_last() =~= counts@.take(end - 1));
        }
        if same_text(row.team.as_str(), team) {
            return row_count(row.count);
        }
        end -= 1;
    }
    0
}

/// The columns that the table of messages must have.
pub open spec fn expected_columns() -> Seq<Seq<char>> {
    seq![
        "id"@,
        "team"@,
        "from_agent"@,
        "to_agent"@,
        "body"@,
        "created_at"@,
        "read_at"@,
    ]
}

/// All the columns are there.
pub open spec fn schema_fits(columns: Seq<String>) -> bool {
    forall|i: int|
        0 <= i < expected_columns().len() ==> search::lists(columns, #[trigger] expected_columns()[i])
}

impl Database {
    /// Refuses a table of messages that lacks a column.
    pub fn validate_schema(columns: &Vec<String>) -> (result: Result<(), String>)
        ensures
            match result {
                Ok(_) => schema_fits(columns@),
                Err(error) => !schema_fits(columns@) && error@
                    == "messages テーブルのスキーマが要件と一致しません"@,
            },
    {
        let fits = position_of(columns, "id").is_some() && position_of(columns, "team").is_some()
            && position_of(columns, "from_agent").is_some() && position_of(
            columns,
            "to_agent",
        ).is_some() && position_of(columns, "body").is_some() && position_of(
            columns,
            "created_at",
        ).is_some() && position_of(columns, "read_at").is_some();
        proof {
            let names = expected_columns();
            if schema_fits(columns@) {
                assert(search::lists(columns@, names[0]));
                assert(search::lists(columns@, names[1]));
                assert(search::lists(columns@, names[2]));
                assert(search::lists(columns@, names[3]));
                assert(search::lists(columns@, names[4]));
                assert(search::lists(columns@, names[5]));
                assert(search::lists(columns@, names[6]));
            }
        }
        if fits {
            Ok(())
        } else {
            Err("messages テーブルのスキーマが要件と一致しません".to_owned())
        }
    }
}

/// The names are those of the directories and those in the store, each once, in order.
pub open spec fn all_names(
    directories: Seq<String>,
    stored: Seq<String>,
    names: Seq<String>,
) -> bool {
    &&& order::strictly_sorted(names)
    &&& forall|name: Seq<char>| #[trigger]
        search::lists(names, name) <==> search::lists(directories, name) || search::lists(
            stored,
            name,
        )
}

fn insert_all(names: &mut Vec<String>, more: &Vec<String>)
    requires
        order::strictly_sorted(old(names)@),
    ensures
        order::strictly_sorted(final(names)@),
        forall|name: Seq<char>| #[trigger]
            search::lists(final(names)@, name) <==> search::lists(old(names)@, name)
                || search::lists(more@, name),
{
    let mut index: usize = 0;
    while index < more.len()
        invariant
            index <= more@.len(),
            order::strictly_sorted(names@),
            forall|name: Seq<char>| #[trigger]
                search::lists(names@, name) <==> search::lists(old(names)@, name) || search::lists(
                    more@.take(index as int),
                    name,
                ),
        decreases more@.len() - index,
    {
        let ghost before = more@.take(index as int);
        let ghost after = more@.take(index + 1);
        insert_sorted(names, more[index].clone());
        proof {
            assert forall|name: Seq<char>| #[trigger]
                search::lists(after, name) <==> search::lists(before, name) || name
                    == more@[index as int]@ by {
                if search::lists(before, name) {
                    let i = choose|i: int| 0 <= i < before.len() && #[trigger] before[i]@ == name;
                    assert(after[i]@ == name);
                }
                if name == more@[index as int]@ {
                    assert(after[index as int]@ == name);
                }
                if search::lists(after, name) {
                    let i = choose|i: int| 0 <= i < after.len() && #[trigger] after[i]@ == name;
                    if i < index {
                        assert(before[i]@ == name);
                    }
                }
            }
        }
        index += 1;
    }
    proof {
        assert(more@.take(index as int) =~= more@);
    }
}

impl Database {
    /// The names of all teams: those with a directory and those with a message.
    pub fn team_names(directories: &Vec<String>, stored: &Vec<String>) -> (names: Vec<String>)
        ensures
            all_names(directories@, stored@, names@),
    {
        let mut names: Vec<String> = Vec::new();
        insert_all(&mut names, directories);
        insert_all(&mut names, stored);
        names
    }
}

impl Database {
    /// Joins each team with its unread messages.
    pub fn team_summaries(names: Vec<String>, unread: &Vec<TeamCount>) -> (teams: Vec<TeamSummary>)
        ensures
            teams@.len() == names@.len(),
            forall|i: int|
                0 <= i < names@.len() ==> (#[trigger] teams@[i]).name@ == names@[i]@
                    && teams@[i].unread_count == team_count(unread@, names@[i]@),
    {
        let mut teams: Vec<TeamSummary> = Vec::new();
        let mut index: usize = 0;
        while index < names.len()
            invariant
                index <= names@.len(),
                teams@.len() == index,
                forall|i: int|
                    0 <= i < index ==> (#[trigger] teams@[i]).name@ == names@[i]@
                        && teams@[i].unread_count == team_count(unread@, names@[i]@),
            decreases names@.len() - index,
        {
            let count = count_of_team(unread, names[index].as_str());
            teams.push(TeamSummary { name: names[index].clone(), unread_count: count });
            index += 1;
        }
        teams
    }
}

/// How many rows are fetched for a page: one more than are shown, so that it is known whether there
/// are more.
pub fn fetch_limit(limit: usize) -> (rows: Result<i64, String>)
    ensures
        match rows {
            Ok(rows) => rows == limit + 1 || (limit == usize::MAX && rows == limit),
            Err(error) => limit + 1 > i64::MAX && error@ == "履歴件数が大きすぎます"@,
        },
{
    let rows: u128 = if limit == usize::MAX {
        limit as u128
    } else {
        limit as u128 + 1
    };
    if rows <= i64::MAX as u128 {
        Ok(rows as i64)
    } else {
        Err("履歴件数が大きすぎます".to_owned())
    }
}

/// The page that newest-first rows make: at most `limit` messages, the newest ones, oldest first.
pub open spec fn page_of(rows: Seq<Message>, limit: nat) -> Seq<Message> {
    if rows.len() > limit {
        rows.take(limit as int).reverse()
    } else {
        rows.reverse()
    }
}

impl Database {
    /// Makes a page of newest-first rows.
    pub fn history(rows: &Vec<Message>, limit: usize) -> (page: HistoryPage)
        ensures
            page.messages@ == page_of(rows@, limit as nat),
            page.has_more == (rows@.len() > limit),
    {
        let count: usize = if rows.len() > limit {
            limit
        } else {
            rows.len()
        };
        let mut messages: Vec<Message> = Vec::new();
        let mut left: usize = count;
        while left > 0
            invariant
                left <= count <= rows@.len(),
                messages@.len() == count - left,
                forall|i: int| 0 <= i < messages@.len() ==> #[trigger] messages@[i] == rows@[count - 1 - i],
            decreases left,
        {
            messages.push(rows[left - 1].clone());
            left -= 1;
        }
        proof {
            assert(messages@ =~= page_of(rows@, limit as nat));
        }
        HistoryPage { messages, has_more: rows.len() > limit }
    }
}

/// How many messages of one day the store counts.
#[derive(Debug, PartialEq, Eq)]
pub struct DayCount {
    pub date: String,
    pub count: i64,
}

/// What the store counts for a day; zero if it counts nothing.
pub open spec fn day_count(counts: Seq<DayCount>, date: Seq<char>) -> usize
    decreases counts.len(),
{
    if counts.len() == 0 {
        0
    } else if counts.last().date@ == date {
        counted_rows(counts.last().count)
    } else {
        day_count(counts.drop_last(), date)
    }
}

fn count_of_day(counts: &Vec<DayCount>, date: &str) -> (count: usize)
    ensures
        count == day_count(counts@, date@),
{
    let mut end: usize = counts.len();
    proof {
        assert(counts@.take(end as int) =~= counts@);
    }
    while end > 0
        invariant
            end <= counts@.len(),
            day_count(counts@.take(end as int), date@) == day_count(counts@, date@),
        decreases end,
    {
        let row = &counts[end - 1];
        proof {
            assert(counts@.take(end as int).drop_last() =~= counts@.take(end - 1));
        }
        if same_text(row.date.as_str(), date) {
            return row_count(row.count);
        }
        end -= 1;
    }
    0
}

/// The date some days before a point in time.
pub open spec fn date_before(now: Timestamp, days: int) -> Seq<char> {
    clock::pattern_text((now.secs - days * clock::DAY_SECS) as i64, 0, "%Y-%m-%d"@)
}

/// The traffic of a day.
pub open spec fn is_day(
    day: DailyTraffic,
    counts: Seq<DayCount>,
    date: Seq<char>,
    threshold: usize,
) -> bool {
    &&& day.date@ == date
    &&& day.count == day_count(counts, date)
    &&& day.burst == (day.count > threshold)
}

impl Database {
    /// The traffic of the last days, today last; days without messages count zero.
    pub fn daily_traffic(
        counts: &Vec<DayCount>,
        days: u32,
        now: Timestamp,
        threshold: usize,
    ) -> (traffic: Vec<DailyTraffic>)
        requires
            now.wf(),
            now.secs - days * clock::DAY_SECS >= clock::MIN_SECS,
        ensures
            traffic@.len() == days,
            forall|i: int|
                0 <= i < days ==> is_day(
                    #[trigger] traffic@[i],
                    counts@,
                    date_before(now, days - 1 - i),
                    threshold,
                ),
    {
        let mut traffic: Vec<DailyTraffic> = Vec::new();
        let mut left: u32 = days;
        while left > 0
            invariant
                left <= days,
                now.wf(),
                now.secs - days * clock::DAY_SECS >= clock::MIN_SECS,
                traffic@.len() == days - left,
                forall|i: int|
                    0 <= i < days - left ==> is_day(
                        #[trigger] traffic@[i],
                        counts@,
                        date_before(now, days - 1 - i),
                        threshold,
                    ),
            decreases left,
        {
            left -= 1;
            let start = Timestamp { secs: now.secs - left as i64 * 86_400, nanos: 0 };
            let date = format_time(start, "%Y-%m-%d");
            let count = count_of_day(counts, date.as_str());
            traffic.push(DailyTraffic { date, count, burst: count > threshold });
        }
        traffic
    }
}

/// The number that the setting gives, or the usual one.
pub open spec fn threshold_of(setting: Option<String>) -> usize {
    match setting {
        Some(text) => match lines::parsed_number(text@, usize::MAX as nat) {
            Some(value) => value as usize,
            None => DEFAULT_BURST_THRESHOLD,
        },
        None => DEFAULT_BURST_THRESHOLD,
    }
}

/// From how many messages a day on a day counts as a burst: what the setting says, if it is a
/// number.
pub fn burst_threshold(setting: &Option<String>) -> (threshold: usize)
    ensures
        threshold == threshold_of(*setting),
{
    match setting {
        Some(text) => match parse_usize(text.as_str()) {
            Some(value) => value,
            None => DEFAULT_BURST_THRESHOLD,
        },
        None => DEFAULT_BURST_THRESHOLD,
    }
}

/// A text in which nothing stands for anything else in a pattern of the store.
pub open spec fn literal_pattern(text: Seq<char>) -> Seq<char> {
    search::replaced(
        search::replaced(search::replaced(text, '\\', "\\\\"@), '%', "\\%"@),
        '_',
        "\\_"@,
    )
}

/// The pattern of the texts that hold a query.
pub open spec fn pattern_of(query: Seq<char>) -> Seq<char> {
    "%"@ + literal_pattern(query) + "%"@
}

/// The pattern of the texts that hold a query.
pub fn search_pattern(query: &str) -> (pattern: String)
    ensures
        pattern@ == pattern_of(query@),
{
    let slashes = replace_char(query, '\\', "\\\\");
    let percents = replace_char(slashes.as_str(), '%', "\\%");
    let literal = replace_char(percents.as_str(), '_', "\\_");
    concat3("%", literal.as_str(), "%")
}

/// The start of the last days, as the store takes it.
pub fn window_text(days: u32) -> (window: String)
    ensures
        window@ == "-"@ + strings::decimal(days as nat) + " days"@,
{
    let number = decimal_u64(days as u64);
    concat3("-", number.as_str(), " days")
}

} // verus!

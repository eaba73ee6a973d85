//! The scheduled daily audit: whether it is loaded, when it runs next, and switching it.

use crate::clock;
use crate::clock::Timestamp;
use crate::exec;
use crate::exec::join_path;
use crate::json;
use crate::json::{field, items, keys, read_signed};
use crate::lines;
use crate::lines::parse_number;
use crate::search;
use crate::search::{strip_prefix, trim};
use crate::strings;
use crate::strings::{chars_of, concat2, concat3, concat4, decimal_u64, string_of};
use chrono::{Datelike, Local, NaiveDate, TimeZone, Timelike};
use vstd::prelude::*;

verus! {

/// The agent that is controlled.
pub const AUDIT_DAILY_LABEL: &'static str = "com.remma.agmsg-audit-daily";

/// How many days are searched for the next run.
pub const SEARCHED_DAYS: i64 = 366;

/// A point in time on the local calendar.
#[derive(Clone, Copy, Debug, PartialEq, Eq, Structural)]
pub struct LocalTime {
    pub instant: Timestamp,
    pub month: u32,
    pub day: u32,
    pub hour: u32,
    pub minute: u32,
    /// Days since Sunday.
    pub weekday: u32,
}

/// Whether the agent is loaded.
#[derive(Clone, Copy, Debug, PartialEq, Eq, Structural)]
pub enum LaState {
    Loaded { pid: Option<i32> },
    Unloaded,
    Missing,
    Unsupported,
}

/// What is known of the agent.
#[derive(Debug, PartialEq, Eq)]
pub struct LaunchAgentStatus {
    pub label: String,
    pub plist: Option<String>,
    pub state: LaState,
    pub next_run: Option<LocalTime>,
}

fn pad_number(number: u32) -> (text: String)
    ensures
        text@ == strings::two_digits(number as nat),
{
    let digits = decimal_u64(number as u64);
    if number < 10 {
        concat2("0", digits.as_str())
    } else {
        digits
    }
}

/// The month, day, hour and minute of a point in time.
pub open spec fn run_label(time: LocalTime) -> Seq<char> {
    strings::two_digits(time.month as nat) + "-"@ + strings::two_digits(time.day as nat) + " "@ + (strings::two_digits(
        time.hour as nat,
    ) + ":"@ + strings::two_digits(time.minute as nat))
}

impl LaunchAgentStatus {
    /// Whether the agent is loaded.
    pub fn is_loaded(&self) -> (loaded: bool)
        ensures
            loaded == (self.state is Loaded),
    {
        match self.state {
            LaState::Loaded { .. } => true,
            _ => false,
        }
    }

    /// When the agent runs next; a dash if that is not known.
    pub fn next_run_label(&self) -> (label: String)
        ensures
            label@ == match self.next_run {
                Some(time) => run_label(time),
                None => "-"@,
            },
    {
        match self.next_run {
            Some(time) => {
                let clock = concat3(
                    pad_number(time.hour).as_str(),
                    ":",
                    pad_number(time.minute).as_str(),
                );
                let date = concat4(
                    pad_number(time.month).as_str(),
                    "-",
                    pad_number(time.day).as_str(),
                    " ",
                );
                concat2(date.as_str(), clock.as_str())
            },
            None => "-".to_owned(),
        }
    }
}

/// What a program printed, and whether it succeeded.
#[derive(Debug, PartialEq, Eq)]
pub struct RunOutput {
    pub success: bool,
    pub stdout: String,
    pub stderr: String,
}

/// What runs programs.
pub trait CommandRunner {
    /// Runs a program.
    fn run(&self, program: &str, args: &Vec<String>) -> RunOutput;
}

/// The path of an agent's file below the home directory; without one, below the root.
pub fn default_plist_path(home: &Option<String>, label: &str) -> (path: String)
    ensures
        path@ == exec::path_in(
            exec::path_in(
                match *home {
                    Some(home) => home@,
                    None => "/"@,
                },
                "Library/LaunchAgents"@,
            ),
            label@ + ".plist"@,
        ),
{
    let base = match home {
        Some(home) => home.as_str(),
        None => "/",
    };
    let directory = join_path(base, "Library/LaunchAgents");
    let name = concat2(label, ".plist");
    join_path(directory.as_str(), name.as_str())
}

/// The text behind the characters of a kind at its beginning.
pub open spec fn without_leading(text: Seq<char>, character: char) -> Seq<char>
    decreases text.len(),
{
    if text.len() > 0 && text[0] == character {
        without_leading(text.skip(1), character)
    } else {
        text
    }
}

/// The text before the characters of a kind at its end.
pub open spec fn without_trailing(text: Seq<char>, character: char) -> Seq<char>
    decreases text.len(),
{
    if text.len() > 0 && text.last() == character {
        without_trailing(text.drop_last(), character)
    } else {
        text
    }
}

fn cut_leading(text: &str, character: char) -> (rest: String)
    ensures
        rest@ == without_leading(text@, character),
{
    let chars = chars_of(text);
    let mut start: usize = 0;
    proof {
        assert(chars@.skip(0) =~= text@);
    }
    while start < chars.len() && chars[start] == character
        invariant
            start <= chars@.len(),
            without_leading(chars@.skip(start as int), character) == without_leading(
                text@,
                character,
            ),
        decreases chars@.len() - start,
    {
        proof {
            assert(chars@.skip(start as int).skip(1) =~= chars@.skip(start + 1));
        }
        start += 1;
    }
    let rest = string_of(&chars, start, chars.len());
    proof {
        assert(rest@ =~= chars@.skip(start as int));
    }
    rest
}

fn cut_trailing(text: &str, character: char) -> (rest: String)
    ensures
        rest@ == without_trailing(text@, character),
{
    let chars = chars_of(text);
    let mut end: usize = chars.len();
    proof {
        assert(chars@.take(end as int) =~= text@);
    }
    while end > 0 && chars[end - 1] == character
        invariant
            end <= chars@.len(),
            without_trailing(chars@.take(end as int), character) == without_trailing(
                text@,
                character,
            ),
        decreases end,
    {
        proof {
            assert(chars@.take(end as int).drop_last() =~= chars@.take(end - 1));
        }
        end -= 1;
    }
    let rest = string_of(&chars, 0, end);
    proof {
        assert(rest@ =~= chars@.take(end as int));
    }
    rest
}

/// The signed 32-bit number that a text stands for: digits behind a sign or none.
pub open spec fn signed_number(text: Seq<char>) -> Option<int> {
    if text.len() > 0 && text[0] == '-' {
        if text.len() > 1 && text[1] == '+' {
            None
        } else {
            match lines::parsed_number(text.skip(1), 0x8000_0000) {
                Some(number) => Some(-(number as int)),
                None => None,
            }
        }
    } else {
        match lines::parsed_number(text, 0x7fff_ffff) {
            Some(number) => Some(number as int),
            None => None,
        }
    }
}

fn parse_signed(text: &str) -> (number: Option<i32>)
    ensures
        match number {
            Some(value) => signed_number(text@) == Some(value as int),
            None => signed_number(text@) is None,
        },
{
    let chars = chars_of(text);
    if chars.len() > 0 && chars[0] == '-' {
        if chars.len() > 1 && chars[1] == '+' {
            return None;
        }
        let digits = string_of(&chars, 1, chars.len());
        proof {
            assert(digits@ =~= text@.skip(1));
        }
        match parse_number(digits.as_str(), 0x8000_0000) {
            Some(number) => Some((0 - number as i64) as i32),
            None => None,
        }
    } else {
        match parse_number(text, 0x7fff_ffff) {
            Some(number) => Some(number as i32),
            None => None,
        }
    }
}

/// The process that a line of the form `"PID" = 123;` gives.
pub open spec fn line_pid(line: Seq<char>) -> Option<int> {
    let text = search::trimmed(without_trailing(search::trimmed(line), ';'));
    if "\"PID\""@.is_prefix_of(text) {
        signed_number(
            search::trimmed(
                without_leading(search::trimmed(text.skip("\"PID\""@.len() as int)), '='),
            ),
        )
    } else {
        None
    }
}

/// The process that the first line gives that gives one.
pub open spec fn first_pid(rows: Seq<Seq<char>>) -> Option<int>
    decreases rows.len(),
{
    if rows.len() == 0 {
        None
    } else {
        match line_pid(rows[0]) {
            Some(pid) => Some(pid),
            None => first_pid(rows.skip(1)),
        }
    }
}

fn parse_line_pid(line: &str) -> (pid: Option<i32>)
    ensures
        match pid {
            Some(pid) => line_pid(line@) == Some(pid as int),
            None => line_pid(line@) is None,
        },
{
    let bare = cut_trailing(trim(line).as_str(), ';');
    let text = trim(bare.as_str());
    match strip_prefix(text.as_str(), "\"PID\"") {
        Some(rest) => {
            let value = cut_leading(trim(rest.as_str()).as_str(), '=');
            parse_signed(trim(value.as_str()).as_str())
        },
        None => None,
    }
}

/// Reads the process of a loaded agent out of what was printed about it. An agent that waits for
/// its time has none.
pub fn parse_launchctl_pid(stdout: &str) -> (pid: Option<i32>)
    ensures
        match pid {
            Some(pid) => first_pid(lines::lines_of(stdout@)) == Some(pid as int),
            None => first_pid(lines::lines_of(stdout@)) is None,
        },
{
    let rows = lines::lines(stdout);
    let ghost all = lines::lines_of(stdout@);
    let mut index: usize = 0;
    proof {
        assert(all.skip(0) =~= all);
    }
    while index < rows.len()
        invariant
            index <= rows@.len(),
            search::texts(rows@) == all,
            all == lines::lines_of(stdout@),
            first_pid(all.skip(index as int)) == first_pid(all),
        decreases rows@.len() - index,
    {
        proof {
            assert(all.skip(index as int)[0] == rows@[index as int]@);
            assert(all.skip(index as int).skip(1) =~= all.skip(index + 1));
        }
        let pid = parse_line_pid(rows[index].as_str());
        if pid.is_some() {
            return pid;
        }
        index += 1;
    }
    None
}

/// The state that the program's list shows: success means loaded.
pub open spec fn listed_state(output: RunOutput, state: LaState) -> bool {
    if output.success {
        match state {
            LaState::Loaded { pid } => match pid {
                Some(pid) => first_pid(lines::lines_of(output.stdout@)) == Some(pid as int),
                None => first_pid(lines::lines_of(output.stdout@)) is None,
            },
            _ => false,
        }
    } else {
        state is Unloaded
    }
}

/// The state that the program's list shows.
pub fn loaded_state(output: &RunOutput) -> (state: LaState)
    ensures
        listed_state(*output, state),
{
    if output.success {
        LaState::Loaded { pid: parse_launchctl_pid(output.stdout.as_str()) }
    } else {
        LaState::Unloaded
    }
}

/// When an agent runs: at a time of day, on the days that fit.
#[derive(Clone, Copy, Debug, PartialEq, Eq, Structural)]
pub struct Schedule {
    pub hour: u32,
    pub minute: u32,
    pub weekday: Option<i64>,
    pub day: Option<i64>,
    pub month: Option<i64>,
}

/// The schedule that the fields of an interval make: midnight unless a time is given, and nothing
/// if there is no such time.
pub open spec fn schedule_from(
    hour: Option<i64>,
    minute: Option<i64>,
    weekday: Option<i64>,
    day: Option<i64>,
    month: Option<i64>,
) -> Option<Schedule> {
    let h = match hour {
        Some(hour) => hour as int,
        None => 0,
    };
    let m = match minute {
        Some(minute) => minute as int,
        None => 0,
    };
    if 0 <= h <= 23 && 0 <= m <= 59 {
        Some(Schedule { hour: h as u32, minute: m as u32, weekday, day, month })
    } else {
        None
    }
}

/// Makes a schedule of the fields of an interval.
pub fn make_schedule(
    hour: Option<i64>,
    minute: Option<i64>,
    weekday: Option<i64>,
    day: Option<i64>,
    month: Option<i64>,
) -> (schedule: Option<Schedule>)
    ensures
        schedule == schedule_from(hour, minute, weekday, day, month),
{
    let h: i64 = match hour {
        Some(hour) => hour,
        None => 0,
    };
    let m: i64 = match minute {
        Some(minute) => minute,
        None => 0,
    };
    if 0 <= h && h <= 23 && 0 <= m && m <= 59 {
        Some(Schedule { hour: h as u32, minute: m as u32, weekday, day, month })
    } else {
        None
    }
}

/// The schedule that an interval of the agent's file stands for.
pub open spec fn interval_schedule(interval: Seq<char>) -> Option<Schedule> {
    if json::key_texts(interval) is None {
        None
    } else {
        schedule_from(
            json::signed_field(interval, "Hour"@),
            json::signed_field(interval, "Minute"@),
            json::signed_field(interval, "Weekday"@),
            json::signed_field(interval, "Day"@),
            json::signed_field(interval, "Month"@),
        )
    }
}

fn read_schedule(interval: &str) -> (schedule: Option<Schedule>)
    ensures
        schedule == interval_schedule(interval@),
{
    if keys(interval).is_none() {
        return None;
    }
    make_schedule(
        read_signed(interval, "Hour"),
        read_signed(interval, "Minute"),
        read_signed(interval, "Weekday"),
        read_signed(interval, "Day"),
        read_signed(interval, "Month"),
    )
}

/// The schedules of some intervals.
pub open spec fn interval_schedules(intervals: Seq<Seq<char>>) -> Seq<Schedule>
    decreases intervals.len(),
{
    if intervals.len() == 0 {
        Seq::empty()
    } else {
        let before = interval_schedules(intervals.drop_last());
        match interval_schedule(intervals.last()) {
            Some(schedule) => before.push(schedule),
            None => before,
        }
    }
}

/// The schedules of an agent's file: one interval, or a list of them.
pub open spec fn file_schedules(file: Seq<char>) -> Seq<Schedule> {
    match json::field_text(file, "StartCalendarInterval"@) {
        Some(value) => match json::item_texts(value) {
            Some(intervals) => interval_schedules(intervals),
            None => interval_schedules(seq![value]),
        },
        None => Seq::empty(),
    }
}

/// Reads the schedules of an agent's file.
pub fn read_schedules(file: &str) -> (schedules: Vec<Schedule>)
    ensures
        schedules@ == file_schedules(file@),
{
    let mut schedules: Vec<Schedule> = Vec::new();
    let value = match field(file, "StartCalendarInterval") {
        Some(value) => value,
        None => {
            return schedules;
        },
    };
    match items(value.as_str()) {
        Some(intervals) => {
            let ghost texts = search::texts(intervals@);
            let mut index: usize = 0;
            proof {
                assert(texts.take(0) =~= Seq::empty());
            }
            while index < intervals.len()
                invariant
                    index <= intervals@.len(),
                    texts == search::texts(intervals@),
                    schedules@ == interval_schedules(texts.take(index as int)),
                decreases intervals@.len() - index,
            {
                proof {
                    assert(texts.take(index + 1).drop_last() =~= texts.take(index as int));
                    assert(texts.take(index + 1).last() == intervals@[index as int]@);
                }
                if let Some(schedule) = read_schedule(intervals[index].as_str()) {
                    schedules.push(schedule);
                }
                index += 1;
            }
            proof {
                assert(texts.take(index as int) =~= texts);
            }
        },
        None => {
            proof {
                assert(seq![value@].drop_last() =~= Seq::empty());
                assert(seq![value@].last() == value@);
                assert(interval_schedules(seq![value@].drop_last()) =~= Seq::empty());
            }
            if let Some(schedule) = read_schedule(value.as_str()) {
                schedules.push(schedule);
            }
        },
    }
    schedules
}

/// A day fits a schedule: where the schedule names the day of the week, of the month, or the month,
/// it is that.
pub open spec fn fits(schedule: Schedule, time: LocalTime) -> bool {
    &&& schedule.weekday matches Some(weekday) ==> weekday as int % 7 == time.weekday
    &&& schedule.day matches Some(day) ==> day == time.day
    &&& schedule.month matches Some(month) ==> month == time.month
}

fn week_day(weekday: i64) -> (day: u32)
    ensures
        day == weekday as int % 7,
{
    if weekday >= 0 {
        (weekday as u64 % 7) as u32
    } else {
        let behind: u64 = (-(weekday + 1)) as u64 % 7;
        (6 - behind) as u32
    }
}

fn is_fitting(schedule: &Schedule, time: &LocalTime) -> (result: bool)
    ensures
        result == fits(*schedule, *time),
{
    let weekday_fits = match schedule.weekday {
        Some(weekday) => week_day(weekday) == time.weekday,
        None => true,
    };
    let day_fits = match schedule.day {
        Some(day) => day == time.day as i64,
        None => true,
    };
    let month_fits = match schedule.month {
        Some(month) => month == time.month as i64,
        None => true,
    };
    weekday_fits && day_fits && month_fits
}

/// The time comes after another.
pub open spec fn comes_after(time: LocalTime, now: Timestamp) -> bool {
    !now.not_before(time.instant)
}

/// The first day's time that lies ahead and fits. A day may lack the time, when clocks are put
/// forward, or have it twice; behind the end of the calendar there is none.
pub open spec fn first_fitting(
    schedule: Schedule,
    now: Timestamp,
    days: Seq<Option<Option<LocalTime>>>,
) -> Option<LocalTime>
    decreases days.len(),
{
    if days.len() == 0 {
        None
    } else {
        match days[0] {
            None => None,
            Some(None) => first_fitting(schedule, now, days.skip(1)),
            Some(Some(time)) => if comes_after(time, now) && fits(schedule, time) {
                Some(time)
            } else {
                first_fitting(schedule, now, days.skip(1))
            },
        }
    }
}

/// Finds the first day's time that lies ahead and fits.
pub fn find_fitting(
    schedule: &Schedule,
    now: Timestamp,
    days: &Vec<Option<Option<LocalTime>>>,
) -> (time: Option<LocalTime>)
    ensures
        time == first_fitting(*schedule, now, days@),
        time matches Some(time) ==> comes_after(time, now) && fits(*schedule, time),
{
    let mut index: usize = 0;
    proof {
        assert(days@.skip(0) =~= days@);
    }
    while index < days.len()
        invariant
            index <= days@.len(),
            first_fitting(*schedule, now, days@.skip(index as int)) == first_fitting(
                *schedule,
                now,
                days@,
            ),
        decreases days@.len() - index,
    {
        proof {
            assert(days@.skip(index as int)[0] == days@[index as int]);
            assert(days@.skip(index as int).skip(1) =~= days@.skip(index + 1));
        }
        match days[index] {
            None => {
                return None;
            },
            Some(None) => {},
            Some(Some(time)) => {
                if !now.is_not_before(time.instant) && is_fitting(schedule, &time) {
                    return Some(time);
                }
            },
        }
        index += 1;
    }
    None
}

/// Two days from the ends of the calendar, so that a local time is on it too.
pub open spec fn within_local(now: Timestamp) -> bool {
    &&& now.wf()
    &&& clock::MIN_SECS + 2 * clock::DAY_SECS <= now.secs <= clock::MAX_SECS - 2 * clock::DAY_SECS
}

/// The number of 1970-01-01, where the first day of the year 1 has the number 1.
pub const EPOCH_DAY: i32 = 719_163;

/// The year has a 29th of February.
pub open spec fn is_leap_year(year: int) -> bool {
    year % 4 == 0 && (year % 100 != 0 || year % 400 == 0)
}

/// The days of a month of the Gregorian calendar.
pub open spec fn month_days(year: int, month: int) -> int {
    if month == 2 {
        if is_leap_year(year) {
            29
        } else {
            28
        }
    } else if month == 4 || month == 6 || month == 9 || month == 11 {
        30
    } else {
        31
    }
}

/// The days of a year that come before a month.
pub open spec fn days_before_month(year: int, month: int) -> int
    decreases month,
{
    if month <= 1 {
        0
    } else {
        days_before_month(year, month - 1) + month_days(year, month - 1)
    }
}

/// The days that come before a year, from the first day of the year 1.
pub open spec fn days_before_year(year: int) -> int {
    365 * (year - 1) + (year - 1) / 4 - (year - 1) / 100 + (year - 1) / 400
}

/// The day of a number is that day of that month, in some year.
pub open spec fn is_date(number: int, month: int, day: int) -> bool {
    exists|year: int|
        1 <= month <= 12 && 1 <= day <= month_days(year, month) && number
            == #[trigger] days_before_year(year) + days_before_month(year, month) + day
}

/// The seconds from 1970 to a time of day, both on the same calendar.
pub open spec fn day_secs(number: int, hour: int, minute: int) -> int {
    (number - EPOCH_DAY) * clock::DAY_SECS + hour * 3600 + minute * 60
}

/// The calendar has a day of the number.
pub open spec fn on_calendar(number: int) -> bool {
    clock::MIN_SECS <= day_secs(number, 0, 0) <= clock::MAX_SECS
}

/// What can be found of a time of day on the day of a number: nothing behind the end of the
/// calendar, no time or several where the clocks are changed, and else the time on that day of the
/// calendar, less than a day from where it would be in UTC.
pub open spec fn possible_time(
    number: int,
    hour: u32,
    minute: u32,
    found: Option<Option<LocalTime>>,
) -> bool {
    &&& found is Some <==> on_calendar(number)
    &&& found matches Some(Some(time)) ==> {
        &&& time.instant.wf()
        &&& time.instant.nanos == 0
        &&& -clock::DAY_SECS < time.instant.secs - day_secs(number, hour as int, minute as int)
            < clock::DAY_SECS
        &&& is_date(number, time.month as int, time.day as int)
        &&& time.hour == hour
        &&& time.minute == minute
        &&& time.weekday == number % 7
    }
}

/// The number of the day that it can be on a local calendar: that of UTC, or one next to it.
pub open spec fn possible_today(now: Timestamp, number: int) -> bool {
    let utc = now.secs as int / clock::DAY_SECS as int + EPOCH_DAY;
    utc - 1 <= number <= utc + 1
}

/// What can be found of a time of day on the searched days, one after the other from the day of a
/// number on.
pub open spec fn possible_days(
    today: int,
    hour: u32,
    minute: u32,
    days: Seq<Option<Option<LocalTime>>>,
) -> bool {
    &&& days.len() == SEARCHED_DAYS
    &&& forall|i: int|
        0 <= i < days.len() ==> possible_time(today + i, hour, minute, #[trigger] days[i])
}

/// What can be found of the time of day of a schedule on the searched days, from the local day of
/// `now` on.
pub open spec fn possible_calendar(
    schedule: Schedule,
    now: Timestamp,
    days: Seq<Option<Option<LocalTime>>>,
) -> bool {
    exists|today: int| #[trigger]
        possible_today(now, today) && possible_days(today, schedule.hour, schedule.minute, days)
}

/// The number of the day that a point in time is on, on the local calendar:
/// `TimeZone::timestamp_opt` of `chrono::Local`, `DateTime::date_naive` and
/// `Datelike::num_days_from_ce`. The result depends on the machine's time zone, so it has no name;
/// a time zone is less than a day from UTC, so the day is that of UTC or one next to it.
#[verifier::external_body]
fn local_today(now: Timestamp) -> (number: i32)
    requires
        within_local(now),
    ensures
        possible_today(now, number as int),
{
    Local.timestamp_opt(now.secs, now.nanos).unwrap().date_naive().num_days_from_ce()
}

/// The time of day on the day of a number, by `chrono`: `NaiveDate::from_num_days_from_ce_opt` and
/// `NaiveDate::and_hms_opt` for the day and the time, and `TimeZone::from_local_datetime` of
/// `Local` for the point in time that it is. The result depends on the machine's time zone, so it
/// has no name: whether the time is there once, and which offset from UTC it has, is left open. The
/// date, the day of the week and the time of day are those that were asked for.
#[verifier::external_body]
fn local_time(number: i32, hour: u32, minute: u32) -> (found: Option<Option<LocalTime>>)
    requires
        hour < 24,
        minute < 60,
    ensures
        possible_time(number as int, hour, minute, found),
{
    let naive = NaiveDate::from_num_days_from_ce_opt(number)?.and_hms_opt(hour, minute, 0)?;
    let found = Local.from_local_datetime(&naive).single();
    Some(found.map(|time| LocalTime {
        instant: Timestamp { secs: time.timestamp(), nanos: time.timestamp_subsec_nanos() },
        month: time.month(),
        day: time.day(),
        hour: time.hour(),
        minute: time.minute(),
        weekday: time.weekday().num_days_from_sunday(),
    }))
}

proof fn fitting_is_listed(
    schedule: Schedule,
    now: Timestamp,
    days: Seq<Option<Option<LocalTime>>>,
)
    ensures
        first_fitting(schedule, now, days) matches Some(time) ==> days.contains(Some(Some(time))),
    decreases days.len(),
{
    if days.len() > 0 {
        let rest = days.skip(1);
        fitting_is_listed(schedule, now, rest);
        assert(days[0] == days.first());
        if let Some(time) = first_fitting(schedule, now, rest) {
            let k = choose|k: int| 0 <= k < rest.len() && rest[k] == Some(Some(time));
            assert(days[k + 1] == Some(Some(time)));
        }
    }
}

/// When a schedule comes next on the local calendar: the first time ahead on a day that fits, over
/// a year from today. Whether a day has the schedule's time of day just once depends on the
/// machine's time zone; [`find_fitting`] says what comes next whatever the days have.
pub fn next_occurrence(schedule: &Schedule, now: Timestamp) -> (time: Option<LocalTime>)
    requires
        within_local(now),
        schedule.hour < 24,
        schedule.minute < 60,
    ensures
        exists|days: Seq<Option<Option<LocalTime>>>| #[trigger]
            possible_calendar(*schedule, now, days) && time == first_fitting(*schedule, now, days),
        time matches Some(time) ==> {
            &&& comes_after(time, now)
            &&& fits(*schedule, time)
            &&& time.hour == schedule.hour
            &&& time.minute == schedule.minute
        },
{
    let today = local_today(now);
    let mut days: Vec<Option<Option<LocalTime>>> = Vec::new();
    let mut offset: i64 = 0;
    while offset < SEARCHED_DAYS
        invariant
            0 <= offset <= SEARCHED_DAYS,
            within_local(now),
            possible_today(now, today as int),
            schedule.hour < 24,
            schedule.minute < 60,
            days@.len() == offset,
            forall|i: int|
                0 <= i < offset ==> possible_time(
                    today + i,
                    schedule.hour,
                    schedule.minute,
                    #[trigger] days@[i],
                ),
        decreases SEARCHED_DAYS - offset,
    {
        days.push(local_time(today + offset as i32, schedule.hour, schedule.minute));
        offset += 1;
    }
    proof {
        assert(possible_days(today as int, schedule.hour, schedule.minute, days@));
        assert(possible_calendar(*schedule, now, days@));
        fitting_is_listed(*schedule, now, days@);
    }
    find_fitting(schedule, now, &days)
}

/// The earlier of two times; of two that are the same, the first.
pub open spec fn sooner(left: Option<LocalTime>, right: Option<LocalTime>) -> Option<LocalTime> {
    match (left, right) {
        (Some(first), Some(second)) => if first.instant.not_before(second.instant) && first.instant
            != second.instant {
            right
        } else {
            left
        },
        (Some(_), None) => left,
        (None, _) => right,
    }
}

/// The earliest of some times.
pub open spec fn soonest(times: Seq<Option<LocalTime>>) -> Option<LocalTime>
    decreases times.len(),
{
    if times.len() == 0 {
        None
    } else {
        sooner(soonest(times.drop_last()), times.last())
    }
}

/// Finds the earliest of some times.
pub fn find_soonest(times: &Vec<Option<LocalTime>>) -> (time: Option<LocalTime>)
    ensures
        time == soonest(times@),
{
    let mut best: Option<LocalTime> = None;
    let mut index: usize = 0;
    proof {
        assert(times@.take(0) =~= Seq::empty());
    }
    while index < times.len()
        invariant
            index <= times@.len(),
            best == soonest(times@.take(index as int)),
        decreases times@.len() - index,
    {
        proof {
            assert(times@.take(index + 1).drop_last() =~= times@.take(index as int));
        }
        match (best, times[index]) {
            (Some(first), Some(second)) => {
                if first.instant.is_not_before(second.instant) && first.instant != second.instant {
                    best = times[index];
                }
            },
            (None, _) => {
                best = times[index];
            },
            _ => {},
        }
        index += 1;
    }
    proof {
        assert(times@.take(index as int) =~= times@);
    }
    best
}

/// The earliest of some times is one of them, and none of them is earlier.
pub proof fn soonest_is_earliest(times: Seq<Option<LocalTime>>, index: int)
    requires
        0 <= index < times.len(),
        times[index] is Some,
    ensures
        soonest(times) is Some,
        times.contains(soonest(times)),
        times[index]->Some_0.instant.not_before(soonest(times)->Some_0.instant),
    decreases times.len(),
{
    let shorter = times.drop_last();
    assert(times[times.len() - 1] == times.last());
    if index < times.len() - 1 {
        soonest_is_earliest(shorter, index);
        let k = choose|k: int| 0 <= k < shorter.len() && shorter[k] == soonest(shorter);
        assert(times[k] == soonest(shorter));
    } else {
        if soonest(shorter) is Some {
            soonest_is_listed(shorter);
            let k = choose|k: int| 0 <= k < shorter.len() && shorter[k] == soonest(shorter);
            assert(times[k] == soonest(shorter));
        }
    }
}

proof fn soonest_is_listed(times: Seq<Option<LocalTime>>)
    ensures
        soonest(times) is Some ==> times.contains(soonest(times)),
    decreases times.len(),
{
    if times.len() > 0 {
        let shorter = times.drop_last();
        soonest_is_listed(shorter);
        assert(times[times.len() - 1] == times.last());
        if soonest(shorter) is Some {
            let k = choose|k: int| 0 <= k < shorter.len() && shorter[k] == soonest(shorter);
            assert(times[k] == soonest(shorter));
        }
    }
}

proof fn schedules_have_times(intervals: Seq<Seq<char>>)
    ensures
        forall|i: int|
            0 <= i < interval_schedules(intervals).len() ==> (#[trigger] interval_schedules(
                intervals,
            )[i]).hour < 24 && interval_schedules(intervals)[i].minute < 60,
    decreases intervals.len(),
{
    if intervals.len() > 0 {
        schedules_have_times(intervals.drop_last());
    }
}

/// When each of some schedules comes next, given what was found of its time of day on the searched
/// days.
pub open spec fn occurrences(
    schedules: Seq<Schedule>,
    now: Timestamp,
    calendars: Seq<Seq<Option<Option<LocalTime>>>>,
) -> Seq<Option<LocalTime>> {
    Seq::new(schedules.len(), |i: int| first_fitting(schedules[i], now, calendars[i]))
}

/// What can be found of the times of day of some schedules on the searched days.
pub open spec fn possible_calendars(
    schedules: Seq<Schedule>,
    now: Timestamp,
    calendars: Seq<Seq<Option<Option<LocalTime>>>>,
) -> bool {
    &&& calendars.len() == schedules.len()
    &&& forall|i: int|
        0 <= i < schedules.len() ==> #[trigger] possible_calendar(schedules[i], now, calendars[i])
}

/// The time is when the file has the agent run next: the earliest over all its schedules, given what
/// was found of their times of day on the searched days. It fits one of them and has its hour and
/// minute; a file without schedules has none.
pub open spec fn is_next_run(file: Seq<char>, now: Timestamp, time: Option<LocalTime>) -> bool {
    let schedules = file_schedules(file);
    &&& exists|calendars: Seq<Seq<Option<Option<LocalTime>>>>| #[trigger]
        possible_calendars(schedules, now, calendars) && time == soonest(
            occurrences(schedules, now, calendars),
        )
    &&& schedules.len() == 0 ==> time is None
    &&& time matches Some(time) ==> comes_after(time, now) && exists|i: int|
        0 <= i < schedules.len() && fits(#[trigger] schedules[i], time) && time.hour
            == schedules[i].hour && time.minute == schedules[i].minute
}

/// When an agent's file has it run next: the earliest time over all its schedules, each of which
/// comes next as [`next_occurrence`] says.
pub fn next_run_from_plist_json(file: &str, now: Timestamp) -> (time: Option<LocalTime>)
    requires
        within_local(now),
    ensures
        is_next_run(file@, now, time),
{
    let schedules = read_schedules(file);
    proof {
        match json::field_text(file@, "StartCalendarInterval"@) {
            Some(value) => {
                match json::item_texts(value) {
                    Some(intervals) => schedules_have_times(intervals),
                    None => schedules_have_times(seq![value]),
                }
            },
            None => {},
        }
    }
    let mut times: Vec<Option<LocalTime>> = Vec::new();
    let ghost mut calendars: Seq<Seq<Option<Option<LocalTime>>>> = Seq::empty();
    let mut index: usize = 0;
    while index < schedules.len()
        invariant
            index <= schedules@.len(),
            within_local(now),
            forall|i: int|
                0 <= i < schedules@.len() ==> (#[trigger] schedules@[i]).hour < 24
                    && schedules@[i].minute < 60,
            times@.len() == index,
            calendars.len() == index,
            forall|i: int|
                0 <= i < index ==> #[trigger] possible_calendar(
                    schedules@[i],
                    now,
                    calendars[i],
                ),
            forall|i: int|
                0 <= i < index ==> #[trigger] times@[i] == first_fitting(
                    schedules@[i],
                    now,
                    calendars[i],
                ),
            forall|i: int|
                0 <= i < index && (#[trigger] times@[i]) is Some ==> comes_after(
                    times@[i]->Some_0,
                    now,
                ) && fits(schedules@[i], times@[i]->Some_0) && times@[i]->Some_0.hour
                    == schedules@[i].hour && times@[i]->Some_0.minute == schedules@[i].minute,
        decreases schedules@.len() - index,
    {
        let time = next_occurrence(&schedules[index], now);
        proof {
            let days = choose|days: Seq<Option<Option<LocalTime>>>| #[trigger]
                possible_calendar(schedules@[index as int], now, days) && time == first_fitting(
                    schedules@[index as int],
                    now,
                    days,
                );
            calendars = calendars.push(days);
        }
        times.push(time);
        index += 1;
    }
    proof {
        assert(times@ =~= occurrences(schedules@, now, calendars));
        assert(possible_calendars(schedules@, now, calendars));
        soonest_is_listed(times@);
        if soonest(times@) is Some {
            let k = choose|k: int| 0 <= k < times@.len() && times@[k] == soonest(times@);
            assert(fits(schedules@[k], times@[k]->Some_0));
        }
    }
    find_soonest(&times)
}

fn texts_of(words: Vec<&str>) -> (list: Vec<String>)
    ensures
        list@.len() == words@.len(),
        forall|i: int| 0 <= i < list@.len() ==> #[trigger] list@[i]@ == words@[i]@,
{
    let mut list: Vec<String> = Vec::new();
    let mut index: usize = 0;
    while index < words.len()
        invariant
            index <= words@.len(),
            list@.len() == index,
            forall|i: int| 0 <= i < index ==> #[trigger] list@[i]@ == words@[i]@,
        decreases words@.len() - index,
    {
        list.push(words[index].to_owned());
        index += 1;
    }
    list
}

/// The words that have the program list an agent.
pub open spec fn list_words(label: Seq<char>) -> Seq<Seq<char>> {
    seq!["list"@, label]
}

/// The words that have the program show an agent's file as JSON.
pub open spec fn convert_words(path: Seq<char>) -> Seq<Seq<char>> {
    seq!["-convert"@, "json"@, "-o"@, "-"@, path]
}

/// The words that have the program load an agent that is not loaded, or unload one that is.
pub open spec fn toggle_words(path: Seq<char>, currently_loaded: bool) -> Seq<Seq<char>> {
    seq![
        if currently_loaded {
            "unload"@
        } else {
            "load"@
        },
        "-w"@,
        path,
    ]
}

/// The words that have the program list an agent.
pub fn list_args(label: &str) -> (args: Vec<String>)
    ensures
        search::texts(args@) == list_words(label@),
{
    let args = texts_of(vec!["list", label]);
    proof {
        assert(search::texts(args@) =~= list_words(label@));
    }
    args
}

/// The words that have the program show an agent's file as JSON.
pub fn convert_args(path: &str) -> (args: Vec<String>)
    ensures
        search::texts(args@) == convert_words(path@),
{
    let args = texts_of(vec!["-convert", "json", "-o", "-", path]);
    proof {
        assert(search::texts(args@) =~= convert_words(path@));
    }
    args
}

/// The words that have the program load an agent that is not loaded, or unload one that is.
pub fn toggle_args(path: &str, currently_loaded: bool) -> (args: Vec<String>)
    ensures
        search::texts(args@) == toggle_words(path@, currently_loaded),
{
    let verb = if currently_loaded {
        "unload"
    } else {
        "load"
    };
    let args = texts_of(vec![verb, "-w", path]);
    proof {
        assert(search::texts(args@) =~= toggle_words(path@, currently_loaded));
    }
    args
}

/// The next run is that of the shown file; none if the file could not be shown.
pub open spec fn shown_run(shown: RunOutput, now: Timestamp, next_run: Option<LocalTime>) -> bool {
    if shown.success {
        is_next_run(shown.stdout@, now, next_run)
    } else {
        next_run is None
    }
}

/// The program was run with the arguments and gave the output.
pub open spec fn was_run<R: CommandRunner>(
    runner: R,
    program: &str,
    words: Seq<Seq<char>>,
    output: RunOutput,
) -> bool {
    exists|args: Vec<String>|
        search::texts(args@) == words && #[trigger] call_ensures(
            R::run,
            (&runner, program, &args),
            output,
        )
}

/// Finds out about an agent. Nothing is run where agents are not supported or where the agent's
/// file is missing.
pub fn probe_with_os<R: CommandRunner>(
    is_macos: bool,
    runner: &R,
    label: &str,
    plist_path: &str,
    has_plist: bool,
    now: Timestamp,
) -> (status: LaunchAgentStatus)
    requires
        within_local(now),
    ensures
        status.label@ == label@,
        if !is_macos {
            status.state == LaState::Unsupported && status.plist is None && status.next_run is None
        } else if !has_plist {
            status.state == LaState::Missing && status.plist is None && status.next_run is None
        } else {
            &&& strings::held(status.plist) == Some(plist_path@)
            &&& exists|output: RunOutput|
                #[trigger] was_run(*runner, "launchctl", list_words(label@), output)
                    && listed_state(output, status.state)
            &&& exists|shown: RunOutput|
                #[trigger] was_run(*runner, "plutil", convert_words(plist_path@), shown)
                    && shown_run(shown, now, status.next_run)
        },
{
    if !is_macos {
        return LaunchAgentStatus {
            label: label.to_owned(),
            plist: None,
            state: LaState::Unsupported,
            next_run: None,
        };
    }
    if !has_plist {
        return LaunchAgentStatus {
            label: label.to_owned(),
            plist: None,
            state: LaState::Missing,
            next_run: None,
        };
    }
    let args = list_args(label);
    let listed = runner.run("launchctl", &args);
    proof {
        assert(call_ensures(R::run, (runner, "launchctl", &args), listed));
        assert(was_run(*runner, "launchctl", list_words(label@), listed));
    }
    let state = loaded_state(&listed);
    let words = convert_args(plist_path);
    let shown = runner.run("plutil", &words);
    proof {
        assert(call_ensures(R::run, (runner, "plutil", &words), shown));
        assert(was_run(*runner, "plutil", convert_words(plist_path@), shown));
    }
    let next_run = if shown.success {
        next_run_from_plist_json(shown.stdout.as_str(), now)
    } else {
        None
    };
    LaunchAgentStatus {
        label: label.to_owned(),
        plist: Some(plist_path.to_owned()),
        state,
        next_run,
    }
}

/// Loads an agent that is not loaded, or unloads one that is. A path that is no text is refused.
pub fn toggle<R: CommandRunner>(
    runner: &R,
    plist_path: Option<&str>,
    currently_loaded: bool,
) -> (result: Result<RunOutput, String>)
    ensures
        match plist_path {
            Some(path) => result matches Ok(output) && was_run(
                *runner,
                "launchctl",
                toggle_words(path@, currently_loaded),
                output,
            ),
            None => result matches Err(error) && error@
                == "invalid plist path (not valid UTF-8)"@,
        },
{
    match plist_path {
        Some(path) => {
            let args = toggle_args(path, currently_loaded);
            let output = runner.run("launchctl", &args);
            proof {
                assert(call_ensures(R::run, (runner, "launchctl", &args), output));
            }
            Ok(output)
        },
        None => Err("invalid plist path (not valid UTF-8)".to_owned()),
    }
}

} // verus!

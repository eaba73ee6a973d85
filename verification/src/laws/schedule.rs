//! The daily audit: when it runs next, whether it is loaded, and how it is switched.

use crate::clock::Timestamp;
use crate::json;
use crate::launchagent;
use crate::launchagent::{LaState, LocalTime, RunOutput, Schedule};
use crate::lines;
use crate::search;
use crate::strings;
use vstd::prelude::*;

verus! {

/// A loaded job is unloaded and one that is not loaded is loaded, for good, from its own file; it is
/// listed by its label, and its file is read as JSON without being changed.
pub proof fn jobs_are_switched_over(path: Seq<char>, label: Seq<char>, loaded: bool)
    ensures
        launchagent::toggle_words(path, loaded).len() == 3,
        launchagent::toggle_words(path, loaded)[0] == "unload"@ <==> loaded,
        launchagent::toggle_words(path, loaded)[0] == "load"@ <==> !loaded,
        launchagent::toggle_words(path, loaded)[1] == "-w"@,
        launchagent::toggle_words(path, loaded)[2] == path,
        launchagent::list_words(label).len() == 2,
        launchagent::list_words(label)[0] == "list"@,
        launchagent::list_words(label)[1] == label,
        launchagent::convert_words(path).len() == 5,
        launchagent::convert_words(path)[0] == "-convert"@,
        launchagent::convert_words(path)[1] == "json"@,
        launchagent::convert_words(path)[2] == "-o"@,
        launchagent::convert_words(path)[3] == "-"@,
        launchagent::convert_words(path)[4] == path,
{
    reveal_strlit("unload");
    reveal_strlit("load");
    assert("unload"@.len() != "load"@.len());
}

/// A job that can be listed is loaded, and one that cannot is not.
pub proof fn listed_jobs_are_loaded(output: RunOutput, state: LaState)
    requires
        launchagent::listed_state(output, state),
    ensures
        state is Loaded <==> output.success,
        state is Unloaded <==> !output.success,
{
}

/// The process number of a job is the one in the first line that gives one.
pub proof fn first_number_counts(rows: Seq<Seq<char>>, k: int)
    requires
        0 <= k < rows.len(),
        launchagent::line_pid(rows[k]) is Some,
        forall|i: int| 0 <= i < k ==> launchagent::line_pid(#[trigger] rows[i]) is None,
    ensures
        launchagent::first_pid(rows) == launchagent::line_pid(rows[k]),
    decreases rows.len(),
{
    if k > 0 {
        let rest = rows.skip(1);
        assert(rows[0] == rows[0int]);
        assert(launchagent::line_pid(rows[0]) is None);
        assert(rest[k - 1] == rows[k]);
        assert forall|i: int| 0 <= i < k - 1 implies launchagent::line_pid(
            #[trigger] rest[i],
        ) is None by {
            assert(rest[i] == rows[i + 1]);
        }
        first_number_counts(rest, k - 1);
    }
}

proof fn framed_text_is_trimmed(text: Seq<char>)
    requires
        text.len() > 0,
        !strings::is_white_space(text[0]),
        !strings::is_white_space(text.last()),
    ensures
        search::trimmed(text) == text,
{
}

/// A line that gives a process number gives exactly that number.
pub proof fn process_numbers_are_read(number: nat)
    requires
        number <= 0x7fff_ffff,
    ensures
        launchagent::line_pid("\"PID\" = "@ + strings::decimal(number) + ";"@) == Some(
            number as int,
        ),
{
    reveal_strlit("\"PID\" = ");
    reveal_strlit("\"PID\"");
    reveal_strlit(";");
    let digits = strings::decimal(number);
    lines::decimal_is_digits(number);
    lines::written_numbers_are_read_back(number, 0x7fff_ffff);
    let head = "\"PID\" = "@;
    let line = head + digits + ";"@;
    let rest = head + digits;
    assert(strings::is_digit(digits[digits.len() - 1]));
    assert(strings::is_digit(digits[0]));
    assert(line[0] == '"' && line.last() == ';');
    framed_text_is_trimmed(line);
    assert(line.drop_last() =~= rest);
    assert(rest.last() == digits[digits.len() - 1]);
    assert(rest[0] == '"');
    assert(launchagent::without_trailing(rest, ';') == rest);
    assert(launchagent::without_trailing(line, ';') == rest);
    framed_text_is_trimmed(rest);
    assert("\"PID\""@ =~= rest.subrange(0, "\"PID\""@.len() as int));
    let value = rest.skip("\"PID\""@.len() as int);
    assert(value.len() == 3 + digits.len());
    assert(value[0] == ' ' && value[1] == '=' && value[2] == ' ');
    let bare = value.skip(1);
    assert(bare[0] == '=');
    assert(bare.last() == rest.last());
    assert(search::trimmed_start(value) == search::trimmed_start(bare));
    framed_text_is_trimmed(bare);
    assert(search::trimmed(value) == bare);
    let spaced = bare.skip(1);
    assert(spaced[0] == ' ');
    assert(launchagent::without_leading(spaced, '=') == spaced);
    assert(launchagent::without_leading(bare, '=') == spaced);
    assert(spaced.skip(1) =~= digits);
    assert(search::trimmed_start(spaced) == search::trimmed_start(digits));
    framed_text_is_trimmed(digits);
    assert(search::trimmed(spaced) == digits);
}

/// A schedule is taken exactly if its time of day is one, with zero for what is not given; the days
/// that it names are kept as they are.
pub proof fn schedules_have_a_time_of_day(
    hour: Option<i64>,
    minute: Option<i64>,
    weekday: Option<i64>,
    day: Option<i64>,
    month: Option<i64>,
)
    ensures
        launchagent::schedule_from(hour, minute, weekday, day, month) is Some <==> (hour is Some
            ==> 0 <= hour->Some_0 < 24) && (minute is Some ==> 0 <= minute->Some_0 < 60),
        launchagent::schedule_from(hour, minute, weekday, day, month) matches Some(schedule) ==> {
            &&& hour is Some ==> schedule.hour == hour->Some_0
            &&& hour is None ==> schedule.hour == 0
            &&& minute is Some ==> schedule.minute == minute->Some_0
            &&& minute is None ==> schedule.minute == 0
            &&& schedule.weekday == weekday
            &&& schedule.day == day
            &&& schedule.month == month
        },
{
}

/// What an interval gives is read from the key of the same name.
pub proof fn intervals_are_read_by_key(interval: Seq<char>)
    ensures
        launchagent::interval_schedule(interval) matches Some(schedule) ==> {
            &&& schedule.hour == match json::signed_field(interval, "Hour"@) {
                Some(hour) => hour as int,
                None => 0,
            }
            &&& schedule.minute == match json::signed_field(interval, "Minute"@) {
                Some(minute) => minute as int,
                None => 0,
            }
            &&& schedule.weekday == json::signed_field(interval, "Weekday"@)
            &&& schedule.day == json::signed_field(interval, "Day"@)
            &&& schedule.month == json::signed_field(interval, "Month"@)
        },
{
}

/// Every readable interval of the file is a schedule, in the order of the file, and nothing else is.
pub proof fn every_interval_counts(intervals: Seq<Seq<char>>, last: Seq<char>)
    ensures
        launchagent::interval_schedules(Seq::empty()).len() == 0,
        launchagent::interval_schedules(intervals.push(last))
            == launchagent::interval_schedules(intervals) + match launchagent::interval_schedule(
            last,
        ) {
            Some(schedule) => seq![schedule],
            None => Seq::empty(),
        },
{
    assert(intervals.push(last).drop_last() =~= intervals);
    assert(launchagent::interval_schedules(intervals.push(last))
        =~= launchagent::interval_schedules(intervals) + match launchagent::interval_schedule(
        last,
    ) {
        Some(schedule) => seq![schedule],
        None => Seq::empty(),
    });
}

/// A day fits a schedule exactly if it is the day of the week, of the month, and the month that the
/// schedule names; Sunday is the day zero and the day seven.
pub proof fn days_fit_by_what_is_named(schedule: Schedule, time: LocalTime)
    requires
        time.weekday < 7,
    ensures
        schedule.weekday is None && schedule.day is None && schedule.month is None
            ==> launchagent::fits(schedule, time),
        launchagent::fits(schedule, time) ==> (schedule.day is Some ==> schedule.day->Some_0
            == time.day) && (schedule.month is Some ==> schedule.month->Some_0 == time.month) && (
        schedule.weekday is Some && 0 <= schedule.weekday->Some_0 < 7 ==> schedule.weekday->Some_0
            == time.weekday) && (schedule.weekday == Some(7i64) ==> time.weekday == 0),
        (schedule.day is None || schedule.day->Some_0 == time.day) && (schedule.month is None
            || schedule.month->Some_0 == time.month) && (schedule.weekday is None
            || schedule.weekday->Some_0 == time.weekday || (schedule.weekday->Some_0 == 7
            && time.weekday == 0)) ==> launchagent::fits(schedule, time),
{
}

/// The next run is on the first day, from today on, that fits and is yet to come; there is none
/// exactly if no such day comes before the calendar ends.
pub proof fn first_fitting_day_is_next(
    schedule: Schedule,
    now: Timestamp,
    days: Seq<Option<Option<LocalTime>>>,
)
    ensures
        match launchagent::first_fitting(schedule, now, days) {
            Some(time) => exists|k: int|
                0 <= k < days.len() && (#[trigger] days[k]) == Some(Some(time)) && is_due(
                    schedule,
                    now,
                    days[k],
                ) && forall|i: int|
                    0 <= i < k ==> (#[trigger] days[i]) is Some && !is_due(schedule, now, days[i]),
            None => forall|k: int|
                0 <= k < days.len() && is_due(schedule, now, #[trigger] days[k]) ==> exists|i: int|
                    0 <= i < k && (#[trigger] days[i]) is None,
        },
    decreases days.len(),
{
    if days.len() > 0 {
        let rest = days.skip(1);
        first_fitting_day_is_next(schedule, now, rest);
        assert forall|i: int| 0 <= i < rest.len() implies #[trigger] rest[i] == days[i + 1] by {
        }
        if days[0] is Some && !is_due(schedule, now, days[0]) {
            match launchagent::first_fitting(schedule, now, rest) {
                Some(time) => {
                    let k = choose|k: int|
                        0 <= k < rest.len() && (#[trigger] rest[k]) == Some(Some(time)) && is_due(
                            schedule,
                            now,
                            rest[k],
                        ) && forall|i: int|
                            0 <= i < k ==> (#[trigger] rest[i]) is Some && !is_due(
                                schedule,
                                now,
                                rest[i],
                            );
                    assert(days[k + 1] == rest[k]);
                    assert forall|i: int| 0 <= i < k + 1 implies (#[trigger] days[i]) is Some
                        && !is_due(schedule, now, days[i]) by {
                        if i > 0 {
                            assert(rest[i - 1] == days[i]);
                        }
                    }
                },
                None => {
                    assert forall|k: int|
                        0 <= k < days.len() && is_due(
                            schedule,
                            now,
                            #[trigger] days[k],
                        ) implies exists|i: int| 0 <= i < k && (#[trigger] days[i]) is None by {
                        assert(rest[k - 1] == days[k]);
                        let i = choose|i: int| 0 <= i < k - 1 && (#[trigger] rest[i]) is None;
                        assert(days[i + 1] is None);
                    }
                },
            }
        } else if days[0] is None {
            assert forall|k: int|
                0 <= k < days.len() && is_due(schedule, now, #[trigger] days[k]) implies exists|
                i: int,
            | 0 <= i < k && (#[trigger] days[i]) is None by {
                assert(days[0] is None);
            }
        } else {
            assert(days[0] == Some(Some(days[0]->Some_0->Some_0)));
        }
    }
}

/// The day has a time that is later than now and fits the schedule.
pub open spec fn is_due(schedule: Schedule, now: Timestamp, day: Option<Option<LocalTime>>) -> bool {
    day matches Some(Some(time)) && (now.secs < time.instant.secs || (now.secs == time.instant.secs
        && now.nanos < time.instant.nanos)) && launchagent::fits(schedule, time)
}

/// A time is shown as month and day, hour and minute, in this order and with two digits each.
pub proof fn runs_are_shown_in_order(time: LocalTime)
    requires
        10 <= time.month < 100,
        10 <= time.day < 100,
        10 <= time.hour < 100,
        10 <= time.minute < 100,
    ensures
        launchagent::run_label(time) == strings::decimal(time.month as nat) + "-"@
            + strings::decimal(time.day as nat) + " "@ + (strings::decimal(time.hour as nat) + ":"@
            + strings::decimal(time.minute as nat)),
        strings::two_digits(7) == "07"@,
{
    reveal_strlit("0");
    reveal_strlit("07");
    reveal_with_fuel(strings::decimal, 2);
    assert(strings::two_digits(7) =~= "07"@);
}

/// A number with a minus sign before it is read as the number below zero, down to the smallest one.
pub proof fn signs_are_read(number: nat)
    ensures
        number <= 0x7fff_ffff ==> launchagent::signed_number(strings::decimal(number)) == Some(
            number as int,
        ),
        number <= 0x8000_0000 ==> launchagent::signed_number(seq!['-'] + strings::decimal(number))
            == Some(-(number as int)),
        number > 0x7fff_ffff ==> launchagent::signed_number(strings::decimal(number)) is None,
{
    let digits = strings::decimal(number);
    lines::decimal_is_digits(number);
    assert(strings::is_digit(digits[0]));
    if number <= 0x7fff_ffff {
        lines::written_numbers_are_read_back(number, 0x7fff_ffff);
    }
    if number <= 0x8000_0000 {
        lines::written_numbers_are_read_back(number, 0x8000_0000);
    }
    let signed = seq!['-'] + digits;
    assert(signed.skip(1) =~= digits);
    assert(signed[0] == '-');
    assert(signed[1] == digits[0]);
}

} // verus!

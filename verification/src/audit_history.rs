//! The audits of the last weeks.
//!
//! The history holds one JSON object a line. Lines of older versions name some figures otherwise,
//! and a line that cannot be read is passed over.

use crate::clock;
use crate::clock::{parse_rfc3339, Timestamp};
use crate::json;
use crate::json::{read_number, read_string};
use crate::lines;
use crate::search;
use crate::sorting;
use crate::sorting::{sort, Ranked};
use vstd::prelude::*;

verus! {

/// How many audits are kept at most.
pub const AUDIT_HISTORY_MAX_SAMPLES: usize = 30;

/// Days that the history looks back.
pub const AUDIT_HISTORY_DAYS: i64 = 30;

/// Days over which the one-sided pairs are watched.
pub const CHATTER_TREND_DAYS: i64 = 7;

/// The figures of one audit, as far as it recorded them.
#[derive(Clone, Copy, Debug, PartialEq, Eq)]
pub struct AuditHistorySample {
    pub timestamp: Timestamp,
    pub score: Option<usize>,
    pub total_msg: Option<usize>,
    pub unread: Option<usize>,
    pub body_p95: Option<usize>,
    pub asymmetric_pairs: Option<usize>,
    pub zombie_identities: Option<usize>,
}

/// Audits rank by time.
impl Ranked for AuditHistorySample {
    open spec fn at_most(self, other: Self) -> bool {
        other.timestamp.not_before(self.timestamp)
    }

    fn is_at_most(&self, other: &Self) -> (result: bool) {
        other.timestamp.is_not_before(self.timestamp)
    }

    proof fn ranks_chain(a: Self, b: Self, c: Self) {
    }

    proof fn ranks_compare(a: Self, b: Self) {
    }
}

/// The numbers of one line, each under its name and, for some, under an older one.
#[derive(Clone, Copy, Debug, PartialEq, Eq)]
pub struct HistoryNumbers {
    pub score: Option<u64>,
    pub total: Option<u64>,
    pub total_msg: Option<u64>,
    pub msg: Option<u64>,
    pub unread: Option<u64>,
    pub body_p95: Option<u64>,
    pub asymmetric_pairs: Option<u64>,
    pub asym: Option<u64>,
    pub zombie_identities: Option<u64>,
    pub zombies: Option<u64>,
}

/// A number, if a machine word can hold it.
pub open spec fn word(number: Option<u64>) -> Option<usize> {
    match number {
        Some(value) => if value <= usize::MAX {
            Some(value as usize)
        } else {
            None
        },
        None => None,
    }
}

fn to_word(number: Option<u64>) -> (result: Option<usize>)
    ensures
        result == word(number),
{
    match number {
        Some(value) => if value <= usize::MAX as u64 {
            Some(value as usize)
        } else {
            None
        },
        None => None,
    }
}

/// The number under the first name, or else that under the second.
pub open spec fn either(first: Option<u64>, second: Option<u64>) -> Option<usize> {
    if word(first) is Some {
        word(first)
    } else {
        word(second)
    }
}

fn choose_number(first: Option<u64>, second: Option<u64>) -> (result: Option<usize>)
    ensures
        result == either(first, second),
{
    let number = to_word(first);
    if number.is_some() {
        number
    } else {
        to_word(second)
    }
}

/// The audit that the numbers of a line stand for.
pub open spec fn sample_of(timestamp: Timestamp, numbers: HistoryNumbers) -> AuditHistorySample {
    AuditHistorySample {
        timestamp,
        score: either(numbers.score, numbers.total),
        total_msg: either(numbers.total_msg, numbers.msg),
        unread: word(numbers.unread),
        body_p95: word(numbers.body_p95),
        asymmetric_pairs: either(numbers.asymmetric_pairs, numbers.asym),
        zombie_identities: either(numbers.zombie_identities, numbers.zombies),
    }
}

/// Makes an audit of the time and the numbers of a line.
pub fn make_sample(timestamp: Timestamp, numbers: HistoryNumbers) -> (sample: AuditHistorySample)
    ensures
        sample == sample_of(timestamp, numbers),
{
    AuditHistorySample {
        timestamp,
        score: choose_number(numbers.score, numbers.total),
        total_msg: choose_number(numbers.total_msg, numbers.msg),
        unread: to_word(numbers.unread),
        body_p95: to_word(numbers.body_p95),
        asymmetric_pairs: choose_number(numbers.asymmetric_pairs, numbers.asym),
        zombie_identities: choose_number(numbers.zombie_identities, numbers.zombies),
    }
}

/// The numbers that a line holds.
pub open spec fn numbers_of(line: Seq<char>) -> HistoryNumbers {
    HistoryNumbers {
        score: json::number_field(line, "score"@),
        total: json::number_field(line, "total"@),
        total_msg: json::number_field(line, "total_msg"@),
        msg: json::number_field(line, "msg"@),
        unread: json::number_field(line, "unread"@),
        body_p95: json::number_field(line, "body_p95"@),
        asymmetric_pairs: json::number_field(line, "asymmetric_pairs"@),
        asym: json::number_field(line, "asym"@),
        zombie_identities: json::number_field(line, "zombie_identities"@),
        zombies: json::number_field(line, "zombies"@),
    }
}

/// The time that a line holds, as text: under its name, or else under an older one.
pub open spec fn stamp_of(line: Seq<char>) -> Option<Seq<char>> {
    if json::string_field(line, "ts"@) is Some {
        json::string_field(line, "ts"@)
    } else {
        json::string_field(line, "timestamp"@)
    }
}

/// The audit that a line of the history stands for.
pub open spec fn line_sample(line: Seq<char>) -> Option<AuditHistorySample> {
    match stamp_of(line) {
        Some(stamp) => match clock::parsed_time(stamp) {
            Some(timestamp) => Some(sample_of(timestamp, numbers_of(line))),
            None => None,
        },
        None => None,
    }
}

/// Reads one line of the history.
pub fn parse_history_line(line: &str) -> (sample: Option<AuditHistorySample>)
    ensures
        sample == line_sample(line@),
{
    let stamp = match read_string(line, "ts") {
        Some(stamp) => stamp,
        None => match read_string(line, "timestamp") {
            Some(stamp) => stamp,
            None => {
                return None;
            },
        },
    };
    let timestamp = match parse_rfc3339(stamp.as_str()) {
        Some(timestamp) => timestamp,
        None => {
            return None;
        },
    };
    let numbers = HistoryNumbers {
        score: read_number(line, "score"),
        total: read_number(line, "total"),
        total_msg: read_number(line, "total_msg"),
        msg: read_number(line, "msg"),
        unread: read_number(line, "unread"),
        body_p95: read_number(line, "body_p95"),
        asymmetric_pairs: read_number(line, "asymmetric_pairs"),
        asym: read_number(line, "asym"),
        zombie_identities: read_number(line, "zombie_identities"),
        zombies: read_number(line, "zombies"),
    };
    Some(make_sample(timestamp, numbers))
}

/// The audits of some lines; lines that cannot be read are passed over.
pub open spec fn line_samples(lines: Seq<Seq<char>>) -> Seq<AuditHistorySample>
    decreases lines.len(),
{
    if lines.len() == 0 {
        Seq::empty()
    } else {
        let before = line_samples(lines.drop_last());
        match line_sample(lines.last()) {
            Some(sample) => before.push(sample),
            None => before,
        }
    }
}

/// The audit lies between two points in time.
pub open spec fn lies_within(sample: AuditHistorySample, from: Timestamp, to: Timestamp) -> bool {
    sample.timestamp.not_before(from) && to.not_before(sample.timestamp)
}

/// The audits between two points in time.
pub open spec fn samples_within(
    samples: Seq<AuditHistorySample>,
    from: Timestamp,
    to: Timestamp,
) -> Seq<AuditHistorySample>
    decreases samples.len(),
{
    if samples.len() == 0 {
        samples
    } else {
        let before = samples_within(samples.drop_last(), from, to);
        if lies_within(samples.last(), from, to) {
            before.push(samples.last())
        } else {
            before
        }
    }
}

/// The last audits, as many as are kept.
pub open spec fn latest_samples(samples: Seq<AuditHistorySample>) -> Seq<AuditHistorySample> {
    if samples.len() > AUDIT_HISTORY_MAX_SAMPLES {
        samples.skip(samples.len() - AUDIT_HISTORY_MAX_SAMPLES)
    } else {
        samples
    }
}

/// What is kept of the audits: the latest ones of the last thirty days, in the order of their
/// times.
pub open spec fn kept_samples(samples: Seq<AuditHistorySample>, now: Timestamp) -> Seq<
    AuditHistorySample,
> {
    latest_samples(
        samples_within(sorting::sorted(samples), now.days_earlier(AUDIT_HISTORY_DAYS as int), now),
    )
}

fn keep_within(samples: &Vec<AuditHistorySample>, from: Timestamp, to: Timestamp) -> (kept: Vec<
    AuditHistorySample,
>)
    ensures
        kept@ == samples_within(samples@, from, to),
{
    let mut kept: Vec<AuditHistorySample> = Vec::new();
    let mut index: usize = 0;
    proof {
        assert(samples@.take(0) =~= Seq::empty());
    }
    while index < samples.len()
        invariant
            index <= samples@.len(),
            kept@ == samples_within(samples@.take(index as int), from, to),
        decreases samples@.len() - index,
    {
        let sample = samples[index];
        proof {
            assert(samples@.take(index + 1).drop_last() =~= samples@.take(index as int));
        }
        if sample.timestamp.is_not_before(from) && to.is_not_before(sample.timestamp) {
            kept.push(sample);
        }
        index += 1;
    }
    proof {
        assert(samples@.take(index as int) =~= samples@);
    }
    kept
}

/// Keeps the latest audits of the last thirty days, in the order of their times.
pub fn keep_samples(samples: Vec<AuditHistorySample>, now: Timestamp) -> (kept: Vec<
    AuditHistorySample,
>)
    requires
        now.wf(),
        now.secs - AUDIT_HISTORY_DAYS * clock::DAY_SECS >= clock::MIN_SECS,
    ensures
        kept@ == kept_samples(samples@, now),
{
    let ordered = sort(samples);
    let recent = keep_within(&ordered, now.minus_days(AUDIT_HISTORY_DAYS), now);
    if recent.len() <= AUDIT_HISTORY_MAX_SAMPLES {
        return recent;
    }
    let first: usize = recent.len() - AUDIT_HISTORY_MAX_SAMPLES;
    let mut kept: Vec<AuditHistorySample> = Vec::new();
    let mut index: usize = first;
    while index < recent.len()
        invariant
            first <= index <= recent@.len(),
            kept@ == recent@.subrange(first as int, index as int),
        decreases recent@.len() - index,
    {
        kept.push(recent[index]);
        index += 1;
        proof {
            assert(kept@ =~= recent@.subrange(first as int, index as int));
        }
    }
    proof {
        assert(kept@ =~= recent@.skip(first as int));
    }
    kept
}

/// Reads the history; where there is none, it is empty.
pub fn read_audit_history(content: &Option<String>, now: Timestamp) -> (samples: Vec<
    AuditHistorySample,
>)
    requires
        now.wf(),
        now.secs - AUDIT_HISTORY_DAYS * clock::DAY_SECS >= clock::MIN_SECS,
    ensures
        samples@ == match *content {
            Some(text) => kept_samples(line_samples(lines::lines_of(text@)), now),
            None => Seq::empty(),
        },
{
    let text = match content {
        Some(text) => text,
        None => {
            return Vec::new();
        },
    };
    let rows = lines::lines(text.as_str());
    let ghost all = lines::lines_of(text@);
    let mut samples: Vec<AuditHistorySample> = Vec::new();
    let mut index: usize = 0;
    proof {
        assert(all.take(0) =~= Seq::empty());
    }
    while index < rows.len()
        invariant
            index <= rows@.len(),
            search::texts(rows@) == all,
            samples@ == line_samples(all.take(index as int)),
        decreases rows@.len() - index,
    {
        proof {
            assert(all.take(index + 1).drop_last() =~= all.take(index as int));
            assert(all[index as int] == rows@[index as int]@);
        }
        match parse_history_line(rows[index].as_str()) {
            Some(sample) => samples.push(sample),
            None => {},
        }
        index += 1;
    }
    proof {
        assert(all.take(index as int) =~= all);
    }
    keep_samples(samples, now)
}

proof fn within_keeps_order(samples: Seq<AuditHistorySample>, from: Timestamp, to: Timestamp)
    requires
        sorting::in_order(samples),
    ensures
        sorting::in_order(samples_within(samples, from, to)),
        forall|i: int|
            0 <= i < samples_within(samples, from, to).len() ==> lies_within(
                #[trigger] samples_within(samples, from, to)[i],
                from,
                to,
            ) && samples.contains(samples_within(samples, from, to)[i]),
    decreases samples.len(),
{
    if samples.len() > 0 {
        let shorter = samples.drop_last();
        let before = samples_within(shorter, from, to);
        let all = samples_within(samples, from, to);
        within_keeps_order(shorter, from, to);
        assert forall|i: int| 0 <= i < before.len() implies (#[trigger] before[i]).at_most(
            samples.last(),
        ) && samples.contains(before[i]) by {
            let k = choose|k: int| 0 <= k < shorter.len() && shorter[k] == before[i];
            assert(samples[k] == before[i]);
            assert(samples[k].at_most(samples[samples.len() - 1]));
        }
        assert(samples[samples.len() - 1] == samples.last());
    }
}

/// What is kept of the history is no longer than allowed, runs forward in time, and lies within
/// the last thirty days.
pub proof fn history_is_bounded(samples: Seq<AuditHistorySample>, now: Timestamp)
    ensures
        kept_samples(samples, now).len() <= AUDIT_HISTORY_MAX_SAMPLES,
        sorting::in_order(kept_samples(samples, now)),
        forall|i: int|
            0 <= i < kept_samples(samples, now).len() ==> lies_within(
                #[trigger] kept_samples(samples, now)[i],
                now.days_earlier(AUDIT_HISTORY_DAYS as int),
                now,
            ),
{
    sorting::sorting_is_a_permutation(samples);
    within_keeps_order(
        sorting::sorted(samples),
        now.days_earlier(AUDIT_HISTORY_DAYS as int),
        now,
    );
}

/// How the one-sided pairs went up.
#[derive(Clone, Copy, Debug, PartialEq, Eq, Structural)]
pub struct ChatterTrend {
    pub start: usize,
    pub end: usize,
}

/// The one-sided pairs of the audits that recorded them.
pub open spec fn pair_counts(samples: Seq<AuditHistorySample>) -> Seq<usize>
    decreases samples.len(),
{
    if samples.len() == 0 {
        Seq::empty()
    } else {
        let before = pair_counts(samples.drop_last());
        match samples.last().asymmetric_pairs {
            Some(count) => before.push(count),
            None => before,
        }
    }
}

/// The sum of some counts.
pub open spec fn total(counts: Seq<usize>) -> int
    decreases counts.len(),
{
    if counts.len() == 0 {
        0
    } else {
        total(counts.drop_last()) + counts.last()
    }
}

/// The average of some counts, rounded to the nearest whole number.
pub open spec fn average(counts: Seq<usize>) -> int {
    (total(counts) + counts.len() / 2) / counts.len() as int
}

/// The counts never go down, and end higher than they began.
pub open spec fn climbs(counts: Seq<usize>) -> bool {
    &&& counts.last() > counts[0]
    &&& forall|i: int, j: int| 0 <= i && j == i + 1 && j < counts.len() ==> #[trigger] counts[i]
        <= #[trigger] counts[j]
}

/// The average of the later counts is more than half as high again as that of the earlier ones.
pub open spec fn swells(early: Seq<usize>, late: Seq<usize>) -> bool {
    if total(early) == 0 {
        total(late) > 0
    } else {
        total(late) * early.len() * 2 > total(early) * late.len() * 3
    }
}

/// How some counts went up: three of them at least, which never go down or whose second half is
/// well above the first.
pub open spec fn trend_of(counts: Seq<usize>) -> Option<ChatterTrend> {
    let middle = counts.len() as int / 2;
    let early = counts.take(middle);
    let late = counts.skip(middle);
    if counts.len() < 3 {
        None
    } else if climbs(counts) {
        Some(ChatterTrend { start: counts[0], end: counts.last() })
    } else if swells(early, late) {
        Some(ChatterTrend { start: average(early) as usize, end: average(late) as usize })
    } else {
        None
    }
}

proof fn total_bound(counts: Seq<usize>)
    ensures
        0 <= total(counts) <= counts.len() * usize::MAX,
    decreases counts.len(),
{
    if counts.len() > 0 {
        let shorter = counts.drop_last();
        total_bound(shorter);
        assert(shorter.len() * usize::MAX + usize::MAX == counts.len() * usize::MAX)
            by (nonlinear_arith)
            requires
                counts.len() == shorter.len() + 1,
        ;
    }
}

proof fn average_bound(counts: Seq<usize>)
    requires
        counts.len() > 0,
    ensures
        0 <= average(counts) <= usize::MAX,
{
    total_bound(counts);
    let sum = total(counts);
    let count = counts.len() as int;
    let most = usize::MAX as int;
    assert(0 <= (sum + count / 2) / count <= most) by (nonlinear_arith)
        requires
            0 <= sum <= count * most,
            count > 0,
    ;
}

/// Adds up the counts `from..to`.
fn add_up(counts: &Vec<usize>, from: usize, to: usize) -> (sum: u128)
    requires
        from <= to <= counts@.len(),
    ensures
        sum == total(counts@.subrange(from as int, to as int)),
{
    let mut sum: u128 = 0;
    let mut index: usize = from;
    proof {
        assert(counts@.subrange(from as int, from as int) =~= Seq::empty());
    }
    while index < to
        invariant
            from <= index <= to <= counts@.len(),
            sum == total(counts@.subrange(from as int, index as int)),
        decreases to - index,
    {
        let ghost part = counts@.subrange(from as int, index as int);
        proof {
            let longer = counts@.subrange(from as int, index + 1);
            assert(longer.drop_last() =~= part);
            total_bound(longer);
            assert(longer.len() * usize::MAX <= u64::MAX * u64::MAX) by (nonlinear_arith)
                requires
                    longer.len() <= u64::MAX,
                    usize::MAX <= u64::MAX,
            ;
        }
        sum = sum + counts[index] as u128;
        index += 1;
    }
    sum
}

fn rounded_average(sum: u128, count: usize, Ghost(counts): Ghost<Seq<usize>>) -> (result: usize)
    requires
        counts.len() > 0,
        counts.len() == count,
        sum == total(counts),
    ensures
        result == average(counts),
{
    proof {
        total_bound(counts);
        average_bound(counts);
        assert(counts.len() * usize::MAX + counts.len() <= u64::MAX * u64::MAX + u64::MAX)
            by (nonlinear_arith)
            requires
                counts.len() <= u64::MAX,
                usize::MAX <= u64::MAX,
        ;
    }
    ((sum + (count / 2) as u128) / count as u128) as usize
}

fn never_goes_down(counts: &Vec<usize>) -> (result: bool)
    ensures
        result == forall|i: int, j: int|
            0 <= i && j == i + 1 && j < counts@.len() ==> #[trigger] counts@[i]
                <= #[trigger] counts@[j],
{
    let mut index: usize = 1;
    while index < counts.len()
        invariant
            1 <= index,
            forall|i: int, j: int|
                0 <= i && j == i + 1 && j < counts@.len() && j < index ==> #[trigger] counts@[i]
                    <= #[trigger] counts@[j],
        decreases counts@.len() - index,
    {
        if counts[index - 1] > counts[index] {
            assert(counts@[index - 1] > counts@[index as int]);
            return false;
        }
        index += 1;
    }
    true
}

/// A number that is too large for one word: `high` times two to the 64th, and `low`.
#[derive(Clone, Copy, Debug)]
struct WideNumber {
    high: u128,
    low: u128,
}

impl WideNumber {
    spec fn value(self) -> int {
        self.high * 0x1_0000_0000_0000_0000 + self.low
    }

    spec fn wf(self) -> bool {
        self.low < 0x1_0000_0000_0000_0000
    }
}

proof fn sum_bound(counts: Seq<usize>)
    requires
        counts.len() <= 0x8000_0000_0000_0000,
    ensures
        0 <= total(counts) < 0x8000_0000_0000_0000_0000_0000_0000_0000,
{
    total_bound(counts);
    assert(counts.len() * usize::MAX < 0x8000_0000_0000_0000_0000_0000_0000_0000)
        by (nonlinear_arith)
        requires
            counts.len() <= 0x8000_0000_0000_0000,
            0 <= usize::MAX <= 0xffff_ffff_ffff_ffff,
    ;
}

/// Multiplies a sum, a count and a small factor.
fn multiply(sum: u128, count: usize, factor: u128) -> (product: WideNumber)
    requires
        sum < 0x8000_0000_0000_0000_0000_0000_0000_0000,
        count <= 0x8000_0000_0000_0000,
        factor <= 3,
    ensures
        product.wf(),
        product.value() == sum * count * factor,
{
    let word: u128 = 0x1_0000_0000_0000_0000;
    let times = count as u128;
    let high: u128 = sum / word;
    let low: u128 = sum % word;
    assert(high < 0x8000_0000_0000_0000 && low < word);
    assert(sum == high * word + low);
    assert(0 <= high * times <= 0x8000_0000_0000_0000 * 0x8000_0000_0000_0000) by (nonlinear_arith)
        requires
            0 <= high <= 0x8000_0000_0000_0000,
            0 <= times <= 0x8000_0000_0000_0000,
    ;
    assert(0 <= low * times <= 0xffff_ffff_ffff_ffff * 0x8000_0000_0000_0000) by (nonlinear_arith)
        requires
            0 <= low <= 0xffff_ffff_ffff_ffff,
            0 <= times <= 0x8000_0000_0000_0000,
    ;
    let upper: u128 = high * times;
    let lower: u128 = low * times;
    let carry: u128 = lower / word;
    let rest: u128 = lower % word;
    assert(lower == carry * word + rest && carry <= 0x8000_0000_0000_0000);
    let middle: u128 = upper + carry;
    assert(rest * factor < 4 * word && middle * factor <= 3 * middle) by (nonlinear_arith)
        requires
            0 <= factor <= 3,
            0 <= rest < word,
            0 <= middle,
    ;
    assert(0 <= rest * factor && 0 <= middle * factor) by (nonlinear_arith)
        requires
            0 <= factor,
            0 <= rest,
            0 <= middle,
    ;
    let last: u128 = rest * factor;
    let product = WideNumber { high: middle * factor + last / word, low: last % word };
    proof {
        assert(last == (last / word) * word + last % word);
        assert((upper + carry) * word + rest == sum * times) by (nonlinear_arith)
            requires
                upper == high * times,
                low * times == carry * word + rest,
                sum == high * word + low,
        ;
        assert((middle * factor) * word + last == (middle * word + rest) * factor)
            by (nonlinear_arith)
            requires
                last == rest * factor,
        ;
        assert((middle * factor + last / word) * word == (middle * factor) * word + (last / word)
            * word) by (nonlinear_arith);
    }
    product
}

fn is_larger(left: WideNumber, right: WideNumber) -> (larger: bool)
    requires
        left.wf(),
        right.wf(),
    ensures
        larger == (left.value() > right.value()),
{
    left.high > right.high || (left.high == right.high && left.low > right.low)
}

/// Finds out how some counts went up.
pub fn find_trend(counts: &Vec<usize>) -> (trend: Option<ChatterTrend>)
    ensures
        trend == trend_of(counts@),
{
    let length: usize = counts.len();
    if length < 3 {
        return None;
    }
    let start: usize = counts[0];
    let end: usize = counts[length - 1];
    if end > start && never_goes_down(counts) {
        return Some(ChatterTrend { start, end });
    }
    let middle: usize = length / 2;
    let ghost early = counts@.take(middle as int);
    let ghost late = counts@.skip(middle as int);
    proof {
        assert(counts@.subrange(0, middle as int) =~= early);
        assert(counts@.subrange(middle as int, length as int) =~= late);
        total_bound(early);
        total_bound(late);
    }
    let early_sum = add_up(counts, 0, middle);
    let late_sum = add_up(counts, middle, length);
    let swollen = if early_sum == 0 {
        late_sum > 0
    } else {
        let rest: usize = length - middle;
        proof {
            sum_bound(early);
            sum_bound(late);
        }
        let left = multiply(late_sum, middle, 2);
        let right = multiply(early_sum, rest, 3);
        proof {
            assert(late_sum * middle * 2 == late_sum * early.len() * 2);
            assert(early_sum * rest * 3 == early_sum * late.len() * 3);
        }
        is_larger(left, right)
    };
    if swollen {
        let first = rounded_average(early_sum, middle, Ghost(early));
        let second = rounded_average(late_sum, length - middle, Ghost(late));
        Some(ChatterTrend { start: first, end: second })
    } else {
        None
    }
}

/// How the one-sided pairs of the last seven days went up.
pub open spec fn chatter_trend(samples: Seq<AuditHistorySample>, now: Timestamp) -> Option<
    ChatterTrend,
> {
    trend_of(
        pair_counts(samples_within(samples, now.days_earlier(CHATTER_TREND_DAYS as int), now)),
    )
}

/// Finds out how the one-sided pairs of the last seven days went up.
pub fn detect_chatter_trend(samples: &Vec<AuditHistorySample>, now: Timestamp) -> (trend: Option<
    ChatterTrend,
>)
    requires
        now.wf(),
        now.secs - CHATTER_TREND_DAYS * clock::DAY_SECS >= clock::MIN_SECS,
    ensures
        trend == chatter_trend(samples@, now),
{
    let from = now.minus_days(CHATTER_TREND_DAYS);
    let recent = keep_within(samples, from, now);
    let mut counts: Vec<usize> = Vec::new();
    let mut index: usize = 0;
    proof {
        assert(recent@.take(0) =~= Seq::empty());
    }
    while index < recent.len()
        invariant
            index <= recent@.len(),
            counts@ == pair_counts(recent@.take(index as int)),
        decreases recent@.len() - index,
    {
        proof {
            assert(recent@.take(index + 1).drop_last() =~= recent@.take(index as int));
        }
        match recent[index].asymmetric_pairs {
            Some(count) => counts.push(count),
            None => {},
        }
        index += 1;
    }
    proof {
        assert(recent@.take(index as int) =~= recent@);
    }
    find_trend(&counts)
}

proof fn total_of_constant(counts: Seq<usize>, value: usize)
    requires
        forall|i: int| 0 <= i < counts.len() ==> counts[i] == value,
    ensures
        total(counts) == counts.len() * value,
    decreases counts.len(),
{
    if counts.len() > 0 {
        let shorter = counts.drop_last();
        total_of_constant(shorter, value);
        assert(shorter.len() * value + value == counts.len() * value) by (nonlinear_arith)
            requires
                counts.len() == shorter.len() + 1,
        ;
    }
}

/// Counts that stay the same are no trend.
pub proof fn steady_counts_are_no_trend(counts: Seq<usize>, value: usize)
    requires
        forall|i: int| 0 <= i < counts.len() ==> counts[i] == value,
    ensures
        trend_of(counts) is None,
{
    let middle = counts.len() as int / 2;
    let early = counts.take(middle);
    let late = counts.skip(middle);
    total_of_constant(early, value);
    total_of_constant(late, value);
    if counts.len() >= 3 {
        let (e, l, v) = (early.len() as int, late.len() as int, value as int);
        assert(e * v == 0 ==> l * v == 0) by (nonlinear_arith)
            requires
                e > 0,
        ;
        assert((l * v) * e * 2 <= (e * v) * l * 3) by (nonlinear_arith)
            requires
                e > 0,
                l > 0,
                v >= 0,
        ;
    }
}

} // verus!

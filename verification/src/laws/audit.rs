//! The audit: what is read from it, what is written down, and what is watched over time.

use crate::app::audit_screen::AuditRequest;
use crate::app::model::{AuditScreen, AuditTab};
use crate::app::status::StatusLine;
use crate::audit;
use crate::audit::{AuditReport, NamedAxis, AXIS_ORDER};
use crate::audit_history;
use crate::audit_history::{AuditHistorySample, ChatterTrend};
use crate::bulk::export;
use crate::clock::Timestamp;
use crate::db::pairs;
use crate::db::{PairMatrix, StaleUnread, ZombieIdentity};
use crate::input::{KeyCode, KeyEvent};
use crate::json;
use crate::search;
use crate::sorting;
use crate::strings;
use vstd::prelude::*;

verus! {

/// What counts of the audit's output is its last line that is an object in braces.
pub proof fn last_object_counts(rows: Seq<Seq<char>>)
    ensures
        match audit::last_object(rows) {
            Some(text) => exists|k: int|
                0 <= k < rows.len() && text == search::trimmed(#[trigger] rows[k]) && text.len() > 0
                    && text[0] == '{' && text.last() == '}' && forall|j: int|
                    k < j < rows.len() ==> !(search::trimmed(#[trigger] rows[j]).len() > 0
                        && search::trimmed(rows[j])[0] == '{' && search::trimmed(rows[j]).last()
                        == '}'),
            None => forall|j: int|
                0 <= j < rows.len() ==> !(search::trimmed(#[trigger] rows[j]).len() > 0
                    && search::trimmed(rows[j])[0] == '{' && search::trimmed(rows[j]).last()
                    == '}'),
        },
    decreases rows.len(),
{
    if rows.len() > 0 {
        let shorter = rows.drop_last();
        let last = search::trimmed(rows.last());
        last_object_counts(shorter);
        assert(rows[rows.len() - 1] == rows.last());
        braces_make_objects(last);
        assert forall|j: int| 0 <= j < shorter.len() implies #[trigger] shorter[j] == rows[j] by {
        }
        if !audit::looks_like_object(last) {
            if let Some(text) = audit::last_object(shorter) {
                let k = choose|k: int|
                    0 <= k < shorter.len() && text == search::trimmed(#[trigger] shorter[k])
                        && text.len() > 0 && text[0] == '{' && text.last() == '}' && forall|j: int|
                        k < j < shorter.len() ==> !(search::trimmed(#[trigger] shorter[j]).len() > 0
                            && search::trimmed(shorter[j])[0] == '{' && search::trimmed(
                            shorter[j],
                        ).last() == '}');
                assert(text == search::trimmed(rows[k]));
                assert forall|j: int| k < j < rows.len() implies !(search::trimmed(
                    #[trigger] rows[j],
                ).len() > 0 && search::trimmed(rows[j])[0] == '{' && search::trimmed(rows[j]).last()
                    == '}') by {
                    if j < shorter.len() {
                        assert(shorter[j] == rows[j]);
                    }
                }
                assert(audit::last_object(rows) == Some(text));
            } else {
                assert forall|j: int| 0 <= j < rows.len() implies !(search::trimmed(
                    #[trigger] rows[j],
                ).len() > 0 && search::trimmed(rows[j])[0] == '{' && search::trimmed(rows[j]).last()
                    == '}') by {
                    if j < shorter.len() {
                        assert(shorter[j] == rows[j]);
                    }
                }
            }
        } else {
            assert(last == search::trimmed(rows[rows.len() - 1]));
            assert(audit::last_object(rows) == Some(last));
        }
    }
}

proof fn braces_make_objects(text: Seq<char>)
    ensures
        audit::looks_like_object(text) <==> text.len() > 0 && text[0] == '{' && text.last() == '}',
{
    reveal_strlit("{");
    reveal_strlit("}");
    let open = "{"@;
    let shut = "}"@;
    assert(open.len() == 1 && open[0] == '{');
    assert(shut.len() == 1 && shut[0] == '}');
    if text.len() > 0 {
        let head = text.subrange(0, open.len() as int);
        let tail = text.subrange((text.len() - shut.len()) as int, text.len() as int);
        assert(head.len() == 1 && head[0] == text[0]);
        assert(tail.len() == 1 && tail[0] == text.last());
        if text[0] == '{' {
            assert(open =~= head);
        }
        if text.last() == '}' {
            assert(shut =~= tail);
        }
    }
}

/// A report is taken over exactly if it has the ten axes and no other; the score and the note of an
/// axis are those that the report gives under its name.
pub proof fn axes_are_found_by_name(axes: Seq<NamedAxis>, name: Seq<char>, k: int)
    requires
        0 <= k < axes.len(),
        axes[k].name@ == name,
        forall|i: int| k < i < axes.len() ==> (#[trigger] axes[i]).name@ != name,
    ensures
        audit::axis_of(axes, name) == Some(axes[k].axis),
        audit::axis_row(axes, name) == "| "@ + name + " | "@ + strings::decimal(
            axes[k].axis.score as nat,
        ) + "/10 | "@ + export::escaped(axes[k].axis.note@) + " |\n"@,
    decreases axes.len(),
{
    assert(axes[axes.len() - 1] == axes.last());
    if k < axes.len() - 1 {
        let shorter = axes.drop_last();
        assert forall|i: int| k < i < shorter.len() implies (#[trigger] shorter[i]).name@ != name by {
            assert(shorter[i] == axes[i]);
        }
        axes_are_found_by_name(shorter, name, k);
    }
}

/// An axis that the report does not give has no row.
pub proof fn missing_axes_have_no_row(axes: Seq<NamedAxis>, name: Seq<char>)
    requires
        forall|i: int| 0 <= i < axes.len() ==> (#[trigger] axes[i]).name@ != name,
    ensures
        audit::axis_of(axes, name) is None,
        audit::axis_row(axes, name).len() == 0,
    decreases axes.len(),
{
    if axes.len() > 0 {
        let shorter = axes.drop_last();
        assert(axes[axes.len() - 1] == axes.last());
        assert forall|i: int| 0 <= i < shorter.len() implies (#[trigger] shorter[i]).name@ != name by {
            assert(shorter[i] == axes[i]);
        }
        missing_axes_have_no_row(shorter, name);
    }
}

/// The document of an audit gives, one after the other: when and over how many days it was made and
/// its score, the axes in their fixed order, every figure under its own name, the matrices, the
/// identities without traffic, and the messages that have stayed unread, each with its number,
/// team, sender, recipient and time.
pub proof fn documents_hold_the_audit(
    report: AuditReport,
    matrices: Seq<PairMatrix>,
    zombies: Seq<ZombieIdentity>,
    stales: Seq<StaleUnread>,
    days: nat,
)
    ensures
        audit::report_document(report, matrices, zombies, stales, days) == (
        "# agmsg audit report\n\n- Generated: "@ + report.ts@ + "\n- Window: "@ + strings::decimal(
            report.window_days as nat,
        ) + " days\n- Total score: **"@ + strings::decimal(report.score as nat) + "/100**\n\n"@) + (
        "## Audit axes\n\n| Axis | Score | Note |\n|---|---:|---|\n"@ + Seq::new(
            10,
            |i: int| audit::axis_row(report.axes@, AXIS_ORDER@[i]@),
        ).flatten()) + ("\n## Summary stats\n\n- Messages: "@ + strings::decimal(
            report.total_msg as nat,
        ) + "\n- Teams: "@ + strings::decimal(report.total_teams as nat) + "\n- Agents: "@
            + strings::decimal(report.total_agents as nat) + "\n- Unread: "@ + strings::decimal(
            report.unread as nat,
        ) + " (stale: "@ + strings::decimal(report.unread_stale as nat) + ")\n- Body p95: "@
            + strings::decimal(report.body_p95 as nat) + "B\n- Burst days: "@ + strings::decimal(
            report.burst_days as nat,
        ) + "\n- Asymmetric pairs: "@ + strings::decimal(report.asymmetric_pairs as nat)
            + "\n- Zombie identities: "@ + strings::decimal(report.zombie_identities as nat)
            + "\n- Stale run files: "@ + strings::decimal(report.stale_run_files as nat)
            + "\n- Largest team share: "@ + strings::decimal(report.max_team_pct as nat) + "%\n"@)
            + ("\n## Pair matrices ("@ + strings::decimal(days) + " days)\n"@ + if matrices.len()
            == 0 {
            "\nNo pair traffic.\n"@
        } else {
            Seq::new(matrices.len(), |i: int| audit::matrix_section(matrices[i])).flatten()
        }) + ("\n## Zombie identities\n"@ + if zombies.len() == 0 {
            "\nNone.\n"@
        } else {
            Seq::new(
                zombies.len(),
                |i: int|
                    "\n- `"@ + zombies[i].team@ + "/"@ + zombies[i].agent@
                        + "` (no traffic in 30 days)"@,
            ).flatten() + "\n"@
        }) + ("\n## Stale unread messages\n"@ + if stales.len() == 0 {
            "\nNone.\n"@
        } else {
            Seq::new(
                stales.len(),
                |i: int|
                    "\n- #"@ + strings::signed_decimal(stales[i].id as int) + " `"@
                        + stales[i].team@ + "` "@ + stales[i].from_agent@ + " -> "@
                        + stales[i].to_agent@ + " at "@ + stales[i].created_at@ + ": "@
                        + export::escaped(audit::on_one_line(stales[i].body@, 120)),
            ).flatten() + "\n"@
        }),
{
    axis_rows_one_by_one(report.axes@, 10);
    matrices_one_by_one(matrices);
    zombies_one_by_one(zombies);
    stales_one_by_one(stales);
}

proof fn flat_push(pieces: Seq<Seq<char>>, piece: Seq<char>)
    ensures
        pieces.push(piece).flatten() == pieces.flatten() + piece,
{
    let longer = pieces.push(piece);
    longer.lemma_flatten_and_flatten_alt_are_equivalent();
    pieces.lemma_flatten_and_flatten_alt_are_equivalent();
    assert(longer.drop_last() =~= pieces);
}

proof fn axis_rows_one_by_one(axes: Seq<NamedAxis>, count: nat)
    ensures
        audit::axis_rows(axes, count) == Seq::new(
            count,
            |i: int| audit::axis_row(axes, AXIS_ORDER@[i]@),
        ).flatten(),
    decreases count,
{
    let pieces = Seq::new(count, |i: int| audit::axis_row(axes, AXIS_ORDER@[i]@));
    if count > 0 {
        let fewer = Seq::new((count - 1) as nat, |i: int| audit::axis_row(axes, AXIS_ORDER@[i]@));
        axis_rows_one_by_one(axes, (count - 1) as nat);
        assert(pieces =~= fewer.push(pieces.last()));
        flat_push(fewer, pieces.last());
    } else {
        assert(pieces.flatten() =~= Seq::empty());
    }
}

proof fn matrices_one_by_one(matrices: Seq<PairMatrix>)
    ensures
        audit::matrix_sections(matrices) == Seq::new(
            matrices.len(),
            |i: int| audit::matrix_section(matrices[i]),
        ).flatten(),
    decreases matrices.len(),
{
    let pieces = Seq::new(matrices.len(), |i: int| audit::matrix_section(matrices[i]));
    if matrices.len() > 0 {
        let shorter = matrices.drop_last();
        let fewer = Seq::new(shorter.len(), |i: int| audit::matrix_section(shorter[i]));
        matrices_one_by_one(shorter);
        assert(pieces =~= fewer.push(pieces.last()));
        flat_push(fewer, pieces.last());
    } else {
        assert(pieces.flatten() =~= Seq::empty());
    }
}

proof fn zombies_one_by_one(zombies: Seq<ZombieIdentity>)
    ensures
        audit::zombie_entries(zombies) == Seq::new(
            zombies.len(),
            |i: int|
                "\n- `"@ + zombies[i].team@ + "/"@ + zombies[i].agent@
                    + "` (no traffic in 30 days)"@,
        ).flatten(),
    decreases zombies.len(),
{
    let pieces = Seq::new(
        zombies.len(),
        |i: int|
            "\n- `"@ + zombies[i].team@ + "/"@ + zombies[i].agent@ + "` (no traffic in 30 days)"@,
    );
    if zombies.len() > 0 {
        let shorter = zombies.drop_last();
        let fewer = Seq::new(
            shorter.len(),
            |i: int|
                "\n- `"@ + shorter[i].team@ + "/"@ + shorter[i].agent@
                    + "` (no traffic in 30 days)"@,
        );
        zombies_one_by_one(shorter);
        assert(pieces =~= fewer.push(pieces.last()));
        flat_push(fewer, pieces.last());
        assert(audit::zombie_entries(zombies) =~= fewer.flatten() + pieces.last());
    } else {
        assert(pieces.flatten() =~= Seq::empty());
    }
}

proof fn stales_one_by_one(stales: Seq<StaleUnread>)
    ensures
        audit::stale_entries(stales) == Seq::new(
            stales.len(),
            |i: int|
                "\n- #"@ + strings::signed_decimal(stales[i].id as int) + " `"@ + stales[i].team@
                    + "` "@ + stales[i].from_agent@ + " -> "@ + stales[i].to_agent@ + " at "@
                    + stales[i].created_at@ + ": "@ + export::escaped(
                    audit::on_one_line(stales[i].body@, 120),
                ),
        ).flatten(),
    decreases stales.len(),
{
    let pieces = Seq::new(
        stales.len(),
        |i: int|
            "\n- #"@ + strings::signed_decimal(stales[i].id as int) + " `"@ + stales[i].team@
                + "` "@ + stales[i].from_agent@ + " -> "@ + stales[i].to_agent@ + " at "@
                + stales[i].created_at@ + ": "@ + export::escaped(
                audit::on_one_line(stales[i].body@, 120),
            ),
    );
    if stales.len() > 0 {
        let shorter = stales.drop_last();
        let fewer = Seq::new(
            shorter.len(),
            |i: int|
                "\n- #"@ + strings::signed_decimal(shorter[i].id as int) + " `"@ + shorter[i].team@
                    + "` "@ + shorter[i].from_agent@ + " -> "@ + shorter[i].to_agent@ + " at "@
                    + shorter[i].created_at@ + ": "@ + export::escaped(
                    audit::on_one_line(shorter[i].body@, 120),
                ),
        );
        stales_one_by_one(shorter);
        assert(pieces =~= fewer.push(pieces.last()));
        flat_push(fewer, pieces.last());
    } else {
        assert(pieces.flatten() =~= Seq::empty());
    }
}

/// The digits of a time are all of them, in their order, and nothing else.
pub proof fn digits_are_kept_in_order(text: Seq<char>)
    ensures
        audit::digits_in(text) == text.filter(|c: char| '0' <= c <= '9'),
    decreases text.len(),
{
    reveal(Seq::filter);
    if text.len() > 0 {
        digits_are_kept_in_order(text.drop_last());
    }
}

/// Two agents write to each other in unequal measure if the larger of the two counts is more than a
/// quarter above the smaller one.
pub proof fn unequal_is_more_than_a_fifth(forward: nat, reverse: nat)
    ensures
        pairs::lopsided(forward as int, reverse as int) <==> 4 * forward > 5 * reverse || 4 * reverse
            > 5 * forward,
{
}

/// A sample of the history has the numbers that its line gives, an older name of a number counting
/// where the newer one is missing.
pub proof fn samples_have_their_numbers(line: Seq<char>)
    ensures
        audit_history::line_sample(line) matches Some(sample) ==> {
            &&& json::number_field(line, "score"@) matches Some(n) ==> n <= usize::MAX
                ==> sample.score == Some(n as usize)
            &&& json::number_field(line, "score"@) is None ==> (json::number_field(line, "total"@)
                matches Some(n) ==> n <= usize::MAX ==> sample.score == Some(n as usize))
            &&& json::number_field(line, "score"@) is None && json::number_field(
                line,
                "total"@,
            ) is None ==> sample.score is None
            &&& json::number_field(line, "total_msg"@) matches Some(n) ==> n <= usize::MAX
                ==> sample.total_msg == Some(n as usize)
            &&& json::number_field(line, "total_msg"@) is None ==> (json::number_field(line, "msg"@)
                matches Some(n) ==> n <= usize::MAX ==> sample.total_msg == Some(n as usize))
            &&& json::number_field(line, "unread"@) matches Some(n) ==> n <= usize::MAX
                ==> sample.unread == Some(n as usize)
            &&& json::number_field(line, "unread"@) is None ==> sample.unread is None
            &&& json::number_field(line, "body_p95"@) matches Some(n) ==> n <= usize::MAX
                ==> sample.body_p95 == Some(n as usize)
            &&& json::number_field(line, "asymmetric_pairs"@) matches Some(n) ==> n <= usize::MAX
                ==> sample.asymmetric_pairs == Some(n as usize)
            &&& json::number_field(line, "asymmetric_pairs"@) is None ==> (json::number_field(
                line,
                "asym"@,
            ) matches Some(n) ==> n <= usize::MAX ==> sample.asymmetric_pairs == Some(n as usize))
            &&& json::number_field(line, "zombie_identities"@) matches Some(n) ==> n <= usize::MAX
                ==> sample.zombie_identities == Some(n as usize)
            &&& json::number_field(line, "zombie_identities"@) is None ==> (json::number_field(
                line,
                "zombies"@,
            ) matches Some(n) ==> n <= usize::MAX ==> sample.zombie_identities == Some(n as usize))
            &&& json::string_field(line, "ts"@) matches Some(stamp) ==> crate::clock::parsed_time(
                stamp,
            ) == Some(sample.timestamp)
            &&& json::string_field(line, "ts"@) is None ==> (json::string_field(
                line,
                "timestamp"@,
            ) matches Some(stamp) && crate::clock::parsed_time(stamp) == Some(sample.timestamp))
        },
{
}

/// A sample lies within a span of time if it is neither before its beginning nor behind its end.
pub proof fn spans_hold_their_ends(sample: AuditHistorySample, from: Timestamp, to: Timestamp)
    requires
        sample.timestamp.nanos < 1_000_000_000,
        from.nanos < 1_000_000_000,
        to.nanos < 1_000_000_000,
    ensures
        audit_history::lies_within(sample, from, to) <==> from.secs * 1_000_000_000 + from.nanos
            <= sample.timestamp.secs * 1_000_000_000 + sample.timestamp.nanos <= to.secs
            * 1_000_000_000 + to.nanos,
{
}

/// The samples that are kept are those of the last thirty days, all of them if they are thirty or
/// fewer, or else the thirty latest; the oldest comes first.
pub proof fn latest_samples_are_kept(
    samples: Seq<AuditHistorySample>,
    now: Timestamp,
    sample: AuditHistorySample,
)
    requires
        samples.contains(sample),
        audit_history::lies_within(sample, now.days_earlier(30), now),
    ensures
        ({
            let kept = audit_history::kept_samples(samples, now);
            kept.contains(sample) || (kept.len() == 30 && forall|k: int|
                0 <= k < kept.len() ==> (#[trigger] kept[k]).timestamp.not_before(sample.timestamp))
        }),
{
    broadcast use vstd::seq_lib::group_to_multiset_ensures;

    let ordered = sorting::sorted(samples);
    let from = now.days_earlier(30);
    let within = audit_history::samples_within(ordered, from, now);
    sorting::sorting_is_a_permutation(samples);
    assert(samples.to_multiset().contains(sample));
    assert(ordered.to_multiset().contains(sample));
    assert(ordered.contains(sample));
    within_is_exact(ordered, from, now);
    assert(within.contains(sample));
    let place = choose|place: int| 0 <= place < within.len() && within[place] == sample;
    let kept = audit_history::kept_samples(samples, now);
    if within.len() > 30 {
        let cut = within.len() - 30;
        if place >= cut {
            assert(kept[place - cut] == sample);
        } else {
            assert forall|k: int| 0 <= k < kept.len() implies (
            #[trigger] kept[k]).timestamp.not_before(sample.timestamp) by {
                assert(kept[k] == within[k + cut]);
                assert(sorting::Ranked::at_most(within[place], within[k + cut]));
            }
        }
    } else {
        assert(kept == within);
    }
}

proof fn within_is_exact(samples: Seq<AuditHistorySample>, from: Timestamp, to: Timestamp)
    requires
        sorting::in_order(samples),
    ensures
        forall|s: AuditHistorySample| #[trigger]
            audit_history::samples_within(samples, from, to).contains(s) <==> samples.contains(s)
                && audit_history::lies_within(s, from, to),
        sorting::in_order(audit_history::samples_within(samples, from, to)),
    decreases samples.len(),
{
    if samples.len() > 0 {
        let shorter = samples.drop_last();
        let last = samples.last();
        let before = audit_history::samples_within(shorter, from, to);
        let after = audit_history::samples_within(samples, from, to);
        assert(sorting::in_order(shorter)) by {
            assert forall|i: int, j: int| 0 <= i < j < shorter.len() implies sorting::Ranked::at_most(
                #[trigger] shorter[i],
                #[trigger] shorter[j],
            ) by {
                assert(sorting::Ranked::at_most(samples[i], samples[j]));
            }
        }
        within_is_exact(shorter, from, to);
        assert(samples[samples.len() - 1] == last);
        assert forall|s: AuditHistorySample| #[trigger] after.contains(s) <==> samples.contains(s)
            && audit_history::lies_within(s, from, to) by {
            if before.contains(s) {
                let k = choose|k: int| 0 <= k < before.len() && before[k] == s;
                assert(after[k] == s);
                let m = choose|m: int| 0 <= m < shorter.len() && shorter[m] == s;
                assert(samples[m] == s);
            }
            if after.contains(s) && !before.contains(s) {
                let k = choose|k: int| 0 <= k < after.len() && after[k] == s;
                assert(k == before.len());
            }
            if samples.contains(s) && audit_history::lies_within(s, from, to) {
                let m = choose|m: int| 0 <= m < samples.len() && samples[m] == s;
                if m < shorter.len() {
                    assert(shorter[m] == s);
                    assert(shorter.contains(s));
                } else {
                    assert(after[before.len() as int] == s);
                }
            }
        }
        assert forall|i: int, j: int| 0 <= i < j < after.len() implies sorting::Ranked::at_most(
            #[trigger] after[i],
            #[trigger] after[j],
        ) by {
            assert(before[i] == after[i]);
            if j < before.len() {
                assert(before[j] == after[j]);
            } else {
                assert(before.contains(before[i]));
                let m = choose|m: int| 0 <= m < shorter.len() && shorter[m] == before[i];
                assert(sorting::Ranked::at_most(samples[m], samples[samples.len() - 1]));
            }
        }
    }
}

/// Counts that never go down and end above where they began are a trend, from the first to the last
/// of them; fewer than three counts are none.
pub proof fn climbing_counts_are_a_trend(counts: Seq<usize>)
    ensures
        counts.len() < 3 ==> audit_history::trend_of(counts) is None,
        counts.len() >= 3 && counts.last() > counts[0] && (forall|i: int, j: int|
            0 <= i < j < counts.len() ==> (#[trigger] counts[i]) <= (#[trigger] counts[j]))
            ==> audit_history::trend_of(counts) == Some(
            ChatterTrend { start: counts[0], end: counts.last() },
        ),
        audit_history::trend_of(counts) matches Some(trend) ==> (trend.start == counts[0]
            && trend.end == counts.last() && counts.last() > counts[0]) || (audit_history::total(
            counts.take(counts.len() as int / 2),
        ) == 0 && audit_history::total(counts.skip(counts.len() as int / 2)) > 0) || 2
            * audit_history::total(counts.skip(counts.len() as int / 2)) * (counts.len() as int / 2)
            > 3 * audit_history::total(counts.take(counts.len() as int / 2)) * (counts.len()
            - counts.len() as int / 2),
{
    let middle = counts.len() as int / 2;
    let early = audit_history::total(counts.take(middle));
    let late = audit_history::total(counts.skip(middle));
    let rest = counts.len() - middle;
    if counts.len() >= 3 {
        assert(counts.take(middle).len() == middle);
        assert(counts.skip(middle).len() == rest);
        assert(late * middle * 2 == 2 * late * middle) by (nonlinear_arith);
        assert(early * rest * 3 == 3 * early * rest) by (nonlinear_arith);
    }
}

/// What is counted for the trend is every count of unequal pairs that a sample has, in the order of
/// the samples.
pub proof fn trends_count_unequal_pairs(samples: Seq<AuditHistorySample>)
    ensures
        audit_history::pair_counts(samples) == samples.filter(
            |s: AuditHistorySample| s.asymmetric_pairs is Some,
        ).map_values(|s: AuditHistorySample| s.asymmetric_pairs->Some_0),
    decreases samples.len(),
{
    let given = |s: AuditHistorySample| s.asymmetric_pairs is Some;
    let count = |s: AuditHistorySample| s.asymmetric_pairs->Some_0;
    reveal(Seq::filter);
    if samples.len() > 0 {
        let shorter = samples.drop_last();
        trends_count_unequal_pairs(shorter);
        if samples.last().asymmetric_pairs is Some {
            assert(shorter.filter(given).push(samples.last()).map_values(count)
                =~= shorter.filter(given).map_values(count).push(count(samples.last())));
        }
    } else {
        assert(samples.filter(given).map_values(count) =~= Seq::empty());
    }
}

/// On the dashboard the cursor goes through the identities without traffic and then through the
/// messages that have stayed unread; what a key asks for is about the entry under it.
pub proof fn dashboard_keys_are_about_the_cursor(
    before: AuditScreen,
    key: KeyEvent,
    after: AuditScreen,
    line: Option<StatusLine>,
    request: AuditRequest,
)
    requires
        before.dashboard_key_post(key, after, line, request),
        before.selected < before.zombies@.len() + before.stale_unreads@.len(),
        before.zombies@.len() + before.stale_unreads@.len() <= usize::MAX,
    ensures
        before.selected < before.zombies@.len() ==> before.zombie() == Some(
            before.zombies@[before.selected as int],
        ),
        before.selected >= before.zombies@.len() ==> before.zombie() is None && before.stale()
            == Some(before.stale_unreads@[before.selected - before.zombies@.len()]),
        request matches AuditRequest::ResetCommand { team, agent } ==> key.code == KeyCode::Char(
            'D',
        ) && before.selected < before.zombies@.len() && team@
            == before.zombies@[before.selected as int].team@ && agent@
            == before.zombies@[before.selected as int].agent@,
        key.code == KeyCode::Char('D') && before.selected < before.zombies@.len() ==> request
            is ResetCommand,
        key.code == KeyCode::Char('j') && before.selected + 1 < before.zombies@.len()
            + before.stale_unreads@.len() ==> after.selected == before.selected + 1,
        key.code == KeyCode::Char('k') && before.selected > 0 ==> after.selected == before.selected
            - 1,
        key.code == KeyCode::Char('g') ==> after.selected == 0,
        key.code == KeyCode::Char('t') ==> request is PairWindow && (before.pair_window_days == 7
            ==> after.pair_window_days == 30) && (before.pair_window_days == 30
            ==> after.pair_window_days == 90) && (before.pair_window_days == 90
            ==> after.pair_window_days == 7),
        key.code != KeyCode::Char('t') ==> after.pair_window_days == before.pair_window_days,
        request is Refresh <==> key.code == KeyCode::Char('R') || key.code == KeyCode::Char('a'),
        request is Export <==> key.code == KeyCode::Char('E') || key.code == KeyCode::Char('x'),
        request is BulkReset <==> key.code == KeyCode::Char('B'),
        request is BulkRename <==> key.code == KeyCode::Char('W'),
        request is MarkStale <==> key.code == KeyCode::Char('M'),
        request is LeaveScreen <==> key.code == KeyCode::Esc || key.code == KeyCode::Char('q')
            || key.code == KeyCode::Tab,
        key.code == KeyCode::Char('l') && before.team_index + 1 < before.pair_matrices@.len()
            ==> after.team_index == before.team_index + 1,
        key.code == KeyCode::Char('l') && before.team_index + 1 == before.pair_matrices@.len()
            ==> after.team_index == 0,
        key.code == KeyCode::Char('h') && 0 < before.team_index < before.pair_matrices@.len()
            ==> after.team_index == before.team_index - 1,
        key.code == KeyCode::Char('h') && before.team_index == 0 && before.pair_matrices@.len() > 0
            ==> after.team_index + 1 == before.pair_matrices@.len(),
        after.zombies == before.zombies,
        after.stale_unreads == before.stale_unreads,
        after.pair_matrices == before.pair_matrices,
        after.report == before.report,
{
    let count = before.pair_matrices@.len() as int;
    assert(count == before.pair_matrices.len());
    if count > 0 {
        if before.team_index + 1 < count {
            vstd::arithmetic::div_mod::lemma_small_mod(
                (before.team_index + 1) as nat,
                count as nat,
            );
        } else if before.team_index + 1 == count {
            vstd::arithmetic::div_mod::lemma_mod_self_0(count);
        }
    }
}

/// `H` shows the history of the audit and `D` goes back to the dashboard.
pub proof fn history_is_one_key_away(
    before: AuditScreen,
    key: KeyEvent,
    after: AuditScreen,
    line: Option<StatusLine>,
    request: AuditRequest,
)
    requires
        before.key_post(key, after, line, request),
        before.detail is None,
        !key.modifiers.control,
    ensures
        key.code == KeyCode::Char('H') ==> after.tab == AuditTab::History && request is Nothing,
        before.tab == AuditTab::History && key.code == KeyCode::Char('D') ==> after.tab
            == AuditTab::Dashboard,
        before.tab == AuditTab::History && key.code != KeyCode::Char('D') ==> after.tab
            == AuditTab::History,
        before.tab == AuditTab::Dashboard && key.code != KeyCode::Char('H') ==> after.tab
            == AuditTab::Dashboard,
{
}

} // verus!

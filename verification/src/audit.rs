//! The audit report: reading it, and writing it down as a document.

use crate::bulk::export;
use crate::bulk::export::escape_markdown;
use crate::db::{PairMatrix, StaleUnread, ZombieIdentity, ANALYTICS_WINDOW_DAYS};
use crate::lines;
use crate::search;
use crate::search::{ends_with, replace_char, starts_with, trim};
use crate::strings;
use crate::strings::{
    char_is_digit, chars_of, concat2, concat3, concat4, concat5, decimal_i64, decimal_u64,
    decimal_usize, same_text, string_of,
};
use vstd::prelude::*;

verus! {

/// The score of one axis of the audit.
#[derive(Debug, PartialEq, Eq)]
pub struct AuditAxis {
    pub score: u16,
    pub note: String,
}

/// One axis of the audit with its name.
#[derive(Debug, PartialEq, Eq)]
pub struct NamedAxis {
    pub name: String,
    pub axis: AuditAxis,
}

/// What the audit found.
#[derive(Debug, PartialEq, Eq)]
pub struct AuditReport {
    pub ts: String,
    pub window_days: u32,
    pub score: u16,
    pub total_msg: usize,
    pub total_teams: usize,
    pub total_agents: usize,
    pub unread: usize,
    pub unread_stale: usize,
    pub body_p95: usize,
    pub burst_days: usize,
    pub asymmetric_pairs: usize,
    pub zombie_identities: usize,
    pub stale_run_files: usize,
    pub max_team_pct: usize,
    pub axes: Vec<NamedAxis>,
}

/// The names of the axes, in the order in which they are shown.
pub const AXIS_ORDER: [&'static str; 10] = [
    "team_naming",
    "agent_naming",
    "body_size",
    "burst_control",
    "loop_prevention",
    "unread_hygiene",
    "zombie_cleanup",
    "state_hygiene",
    "traffic_spread",
    "activity",
];

/// The line looks like a JSON object.
pub open spec fn looks_like_object(line: Seq<char>) -> bool {
    "{"@.is_prefix_of(line) && "}"@.is_suffix_of(line)
}

/// The last line that looks like a JSON object, without the white space around it.
pub open spec fn last_object(rows: Seq<Seq<char>>) -> Option<Seq<char>>
    decreases rows.len(),
{
    if rows.len() == 0 {
        None
    } else if looks_like_object(search::trimmed(rows.last())) {
        Some(search::trimmed(rows.last()))
    } else {
        last_object(rows.drop_last())
    }
}

/// Finds the JSON object in what the audit printed.
pub fn audit_json(stdout: &str) -> (json: Option<String>)
    ensures
        match json {
            Some(json) => last_object(lines::lines_of(stdout@)) == Some(json@),
            None => last_object(lines::lines_of(stdout@)) is None,
        },
{
    let rows = lines::lines(stdout);
    let ghost all = lines::lines_of(stdout@);
    let mut end: usize = rows.len();
    proof {
        assert(all.take(end as int) =~= all);
    }
    while end > 0
        invariant
            end <= rows@.len(),
            search::texts(rows@) == all,
            all == lines::lines_of(stdout@),
            last_object(all.take(end as int)) == last_object(all),
        decreases end,
    {
        let line = trim(rows[end - 1].as_str());
        proof {
            assert(all.take(end as int).drop_last() =~= all.take(end - 1));
            assert(all.take(end as int).last() == rows@[end - 1]@);
        }
        if starts_with(line.as_str(), "{") && ends_with(line.as_str(), "}") {
            return Some(line);
        }
        end -= 1;
    }
    None
}

/// The axis of a name.
pub open spec fn axis_of(axes: Seq<NamedAxis>, name: Seq<char>) -> Option<AuditAxis>
    decreases axes.len(),
{
    if axes.len() == 0 {
        None
    } else if axes.last().name@ == name {
        Some(axes.last().axis)
    } else {
        axis_of(axes.drop_last(), name)
    }
}

/// Every axis is there, and no other.
pub open spec fn axes_complete(axes: Seq<NamedAxis>) -> bool {
    &&& axes.len() == AXIS_ORDER@.len()
    &&& forall|i: int|
        0 <= i < AXIS_ORDER@.len() ==> axis_of(axes, #[trigger] AXIS_ORDER@[i]@) is Some
}

/// Finds the axis of a name.
pub fn find_axis<'a>(axes: &'a Vec<NamedAxis>, name: &str) -> (axis: Option<&'a AuditAxis>)
    ensures
        match axis {
            Some(axis) => axis_of(axes@, name@) == Some(*axis),
            None => axis_of(axes@, name@) is None,
        },
{
    let mut end: usize = axes.len();
    proof {
        assert(axes@.take(end as int) =~= axes@);
    }
    while end > 0
        invariant
            end <= axes@.len(),
            axis_of(axes@.take(end as int), name@) == axis_of(axes@, name@),
        decreases end,
    {
        proof {
            assert(axes@.take(end as int).drop_last() =~= axes@.take(end - 1));
        }
        if same_text(axes[end - 1].name.as_str(), name) {
            return Some(&axes[end - 1].axis);
        }
        end -= 1;
    }
    None
}

fn has_all_axes(axes: &Vec<NamedAxis>) -> (complete: bool)
    ensures
        complete == axes_complete(axes@),
{
    let names: [&'static str; 10] = AXIS_ORDER;
    if axes.len() != 10 {
        return false;
    }
    let mut index: usize = 0;
    while index < 10
        invariant
            index <= 10,
            names == AXIS_ORDER,
            forall|i: int|
                0 <= i < index ==> axis_of(axes@, #[trigger] AXIS_ORDER@[i]@) is Some,
        decreases 10 - index,
    {
        if find_axis(axes, names[index]).is_none() {
            return false;
        }
        index += 1;
    }
    true
}

/// Takes over what the audit printed, given the report that its JSON object stands for, if it is
/// one.
pub fn parse_audit_stdout(stdout: &str, parsed: Option<AuditReport>) -> (result: Result<
    AuditReport,
    String,
>)
    ensures
        match result {
            Ok(report) => {
                &&& last_object(lines::lines_of(stdout@)) is Some
                &&& parsed == Some(report)
                &&& axes_complete(report.axes@)
            },
            Err(error) => error@ == (if last_object(lines::lines_of(stdout@)) is None {
                "agmsg-audit のJSON出力が見つかりません"@
            } else if parsed is None {
                "agmsg-audit のJSONを解析できません"@
            } else {
                "agmsg-audit の10軸が揃っていません"@
            }) && !(last_object(lines::lines_of(stdout@)) is Some && parsed is Some
                && axes_complete(parsed->Some_0.axes@)),
        },
{
    if audit_json(stdout).is_none() {
        return Err("agmsg-audit のJSON出力が見つかりません".to_owned());
    }
    match parsed {
        Some(report) => if has_all_axes(&report.axes) {
            Ok(report)
        } else {
            Err("agmsg-audit の10軸が揃っていません".to_owned())
        },
        None => Err("agmsg-audit のJSONを解析できません".to_owned()),
    }
}

/// The digits of a text.
pub open spec fn digits_in(text: Seq<char>) -> Seq<char>
    decreases text.len(),
{
    if text.len() == 0 {
        text
    } else if strings::is_digit(text.last()) {
        digits_in(text.drop_last()).push(text.last())
    } else {
        digits_in(text.drop_last())
    }
}

/// The stamp in the name of a report: the first eight digits of the time, a hyphen and the next
/// four. A time with fewer digits is refused.
pub fn report_stamp(timestamp: &str) -> (stamp: Result<String, String>)
    ensures
        match stamp {
            Ok(stamp) => digits_in(timestamp@).len() >= 12 && stamp@ == digits_in(
                timestamp@,
            ).subrange(0, 8) + "-"@ + digits_in(timestamp@).subrange(8, 12),
            Err(error) => digits_in(timestamp@).len() < 12 && error@
                == "audit timestamp が不正です: "@ + timestamp@,
        },
{
    let chars = chars_of(timestamp);
    let mut digits: Vec<char> = Vec::new();
    let mut index: usize = 0;
    proof {
        assert(chars@.take(0) =~= Seq::empty());
    }
    while index < chars.len()
        invariant
            index <= chars@.len(),
            digits@ == digits_in(chars@.take(index as int)),
        decreases chars@.len() - index,
    {
        proof {
            assert(chars@.take(index + 1).drop_last() =~= chars@.take(index as int));
        }
        if char_is_digit(chars[index]) {
            digits.push(chars[index]);
        }
        index += 1;
    }
    proof {
        assert(chars@.take(index as int) =~= timestamp@);
    }
    if digits.len() < 12 {
        return Err(concat2("audit timestamp が不正です: ", timestamp));
    }
    let day = string_of(&digits, 0, 8);
    let minute = string_of(&digits, 8, 12);
    Ok(concat3(day.as_str(), "-", minute.as_str()))
}

/// A text on one line, cut off after some characters.
pub open spec fn on_one_line(text: Seq<char>, limit: nat) -> Seq<char> {
    let flat = search::replaced(search::replaced(text, '\n', " "@), '\r', " "@);
    if flat.len() > limit {
        flat.take(limit as int) + "..."@
    } else {
        flat
    }
}

fn single_line(text: &str, limit: usize) -> (result: String)
    ensures
        result@ == on_one_line(text@, limit as nat),
{
    let feeds = replace_char(text, '\n', " ");
    let flat = replace_char(feeds.as_str(), '\r', " ");
    let chars = chars_of(flat.as_str());
    if chars.len() > limit {
        let preview = string_of(&chars, 0, limit);
        proof {
            assert(preview@ =~= flat@.take(limit as int));
        }
        concat2(preview.as_str(), "...")
    } else {
        flat
    }
}

/// The heading of the document.
pub open spec fn heading(report: AuditReport) -> Seq<char> {
    "# agmsg audit report\n\n- Generated: "@ + report.ts@ + "\n- Window: "@ + strings::decimal(
        report.window_days as nat,
    ) + " days\n- Total score: **"@ + strings::decimal(report.score as nat) + "/100**\n\n"@
}

fn heading_text(report: &AuditReport) -> (text: String)
    ensures
        text@ == heading(*report),
{
    let mut text = concat2("# agmsg audit report\n\n- Generated: ", report.ts.as_str());
    text.append("\n- Window: ");
    text.append(decimal_u64(report.window_days as u64).as_str());
    text.append(" days\n- Total score: **");
    text.append(decimal_u64(report.score as u64).as_str());
    text.append("/100**\n\n");
    text
}

/// The row of one axis; nothing if the report lacks it.
pub open spec fn axis_row(axes: Seq<NamedAxis>, name: Seq<char>) -> Seq<char> {
    match axis_of(axes, name) {
        Some(axis) => "| "@ + name + " | "@ + strings::decimal(axis.score as nat) + "/10 | "@
            + export::escaped(axis.note@) + " |\n"@,
        None => Seq::empty(),
    }
}

/// The rows of the first axes.
pub open spec fn axis_rows(axes: Seq<NamedAxis>, count: nat) -> Seq<char>
    decreases count,
{
    if count == 0 {
        Seq::empty()
    } else {
        axis_rows(axes, (count - 1) as nat) + axis_row(axes, AXIS_ORDER@[count - 1]@)
    }
}

/// The table of the axes.
pub open spec fn axes_section(axes: Seq<NamedAxis>) -> Seq<char> {
    "## Audit axes\n\n| Axis | Score | Note |\n|---|---:|---|\n"@ + axis_rows(
        axes,
        AXIS_ORDER@.len(),
    )
}

fn axis_row_text(axes: &Vec<NamedAxis>, name: &str) -> (text: String)
    ensures
        text@ == axis_row(axes@, name@),
{
    match find_axis(axes, name) {
        Some(axis) => {
            let mut text = concat3("| ", name, " | ");
            text.append(decimal_u64(axis.score as u64).as_str());
            text.append("/10 | ");
            text.append(escape_markdown(axis.note.as_str()).as_str());
            text.append(" |\n");
            text
        },
        None => String::new(),
    }
}

fn axes_text(axes: &Vec<NamedAxis>) -> (text: String)
    ensures
        text@ == axes_section(axes@),
{
    let names: [&'static str; 10] = AXIS_ORDER;
    let mut rows: String = String::new();
    let mut index: usize = 0;
    while index < 10
        invariant
            index <= 10,
            names == AXIS_ORDER,
            rows@ == axis_rows(axes@, index as nat),
        decreases 10 - index,
    {
        rows.append(axis_row_text(axes, names[index]).as_str());
        index += 1;
    }
    concat2("## Audit axes\n\n| Axis | Score | Note |\n|---|---:|---|\n", rows.as_str())
}

/// The figures of the audit.
pub open spec fn stats_section(report: AuditReport) -> Seq<char> {
    "\n## Summary stats\n\n- Messages: "@ + strings::decimal(report.total_msg as nat)
        + "\n- Teams: "@ + strings::decimal(report.total_teams as nat) + "\n- Agents: "@
        + strings::decimal(report.total_agents as nat) + "\n- Unread: "@ + strings::decimal(
        report.unread as nat,
    ) + " (stale: "@ + strings::decimal(report.unread_stale as nat) + ")\n- Body p95: "@
        + strings::decimal(report.body_p95 as nat) + "B\n- Burst days: "@ + strings::decimal(
        report.burst_days as nat,
    ) + "\n- Asymmetric pairs: "@ + strings::decimal(report.asymmetric_pairs as nat)
        + "\n- Zombie identities: "@ + strings::decimal(report.zombie_identities as nat)
        + "\n- Stale run files: "@ + strings::decimal(report.stale_run_files as nat)
        + "\n- Largest team share: "@ + strings::decimal(report.max_team_pct as nat) + "%\n"@
}

fn stats_text(report: &AuditReport) -> (text: String)
    ensures
        text@ == stats_section(*report),
{
    let mut text = concat2(
        "\n## Summary stats\n\n- Messages: ",
        decimal_usize(report.total_msg).as_str(),
    );
    text.append("\n- Teams: ");
    text.append(decimal_usize(report.total_teams).as_str());
    text.append("\n- Agents: ");
    text.append(decimal_usize(report.total_agents).as_str());
    text.append("\n- Unread: ");
    text.append(decimal_usize(report.unread).as_str());
    text.append(" (stale: ");
    text.append(decimal_usize(report.unread_stale).as_str());
    text.append(")\n- Body p95: ");
    text.append(decimal_usize(report.body_p95).as_str());
    text.append("B\n- Burst days: ");
    text.append(decimal_usize(report.burst_days).as_str());
    text.append("\n- Asymmetric pairs: ");
    text.append(decimal_usize(report.asymmetric_pairs).as_str());
    text.append("\n- Zombie identities: ");
    text.append(decimal_usize(report.zombie_identities).as_str());
    text.append("\n- Stale run files: ");
    text.append(decimal_usize(report.stale_run_files).as_str());
    text.append("\n- Largest team share: ");
    text.append(decimal_usize(report.max_team_pct).as_str());
    text.append("%\n");
    text
}

/// The headings of the columns of a matrix.
pub open spec fn column_heads(agents: Seq<String>) -> Seq<char>
    decreases agents.len(),
{
    if agents.len() == 0 {
        Seq::empty()
    } else {
        column_heads(agents.drop_last()) + " "@ + export::escaped(agents.last()@) + " |"@
    }
}

/// The rule below the headings of some columns.
pub open spec fn column_rules(count: nat) -> Seq<char>
    decreases count,
{
    if count == 0 {
        Seq::empty()
    } else {
        column_rules((count - 1) as nat) + "---:|"@
    }
}

/// The counts from one agent to some others.
pub open spec fn count_cells(matrix: PairMatrix, from: Seq<char>, agents: Seq<String>) -> Seq<char>
    decreases agents.len(),
{
    if agents.len() == 0 {
        Seq::empty()
    } else {
        count_cells(matrix, from, agents.drop_last()) + " "@ + strings::decimal(
            matrix.pair(from, agents.last()@) as nat,
        ) + " |"@
    }
}

/// The rows of some agents of a matrix.
pub open spec fn matrix_rows(matrix: PairMatrix, agents: Seq<String>) -> Seq<char>
    decreases agents.len(),
{
    if agents.len() == 0 {
        Seq::empty()
    } else {
        matrix_rows(matrix, agents.drop_last()) + "| "@ + export::escaped(agents.last()@) + " |"@
            + count_cells(matrix, agents.last()@, matrix.agents@) + "\n"@
    }
}

/// The table of one matrix.
pub open spec fn matrix_section(matrix: PairMatrix) -> Seq<char> {
    "\n### "@ + export::escaped(matrix.team@) + "\n\n| from \\ to |"@ + column_heads(
        matrix.agents@,
    ) + "\n|---|"@ + column_rules(matrix.agents@.len()) + "\n"@ + matrix_rows(
        matrix,
        matrix.agents@,
    )
}

fn heads_text(agents: &Vec<String>) -> (text: String)
    ensures
        text@ == column_heads(agents@),
{
    let mut text: String = String::new();
    let mut index: usize = 0;
    proof {
        assert(agents@.take(0) =~= Seq::empty());
    }
    while index < agents.len()
        invariant
            index <= agents@.len(),
            text@ == column_heads(agents@.take(index as int)),
        decreases agents@.len() - index,
    {
        proof {
            assert(agents@.take(index + 1).drop_last() =~= agents@.take(index as int));
        }
        text.append(" ");
        text.append(escape_markdown(agents[index].as_str()).as_str());
        text.append(" |");
        index += 1;
    }
    proof {
        assert(agents@.take(index as int) =~= agents@);
    }
    text
}

fn rules_text(count: usize) -> (text: String)
    ensures
        text@ == column_rules(count as nat),
{
    let mut text: String = String::new();
    let mut index: usize = 0;
    while index < count
        invariant
            index <= count,
            text@ == column_rules(index as nat),
        decreases count - index,
    {
        text.append("---:|");
        index += 1;
    }
    text
}

fn cells_text(matrix: &PairMatrix, from: &str) -> (text: String)
    ensures
        text@ == count_cells(*matrix, from@, matrix.agents@),
{
    let mut text: String = String::new();
    let mut index: usize = 0;
    let ghost agents = matrix.agents@;
    proof {
        assert(agents.take(0) =~= Seq::empty());
    }
    while index < matrix.agents.len()
        invariant
            index <= agents.len(),
            agents == matrix.agents@,
            text@ == count_cells(*matrix, from@, agents.take(index as int)),
        decreases agents.len() - index,
    {
        proof {
            assert(agents.take(index + 1).drop_last() =~= agents.take(index as int));
        }
        text.append(" ");
        text.append(decimal_usize(matrix.count(from, matrix.agents[index].as_str())).as_str());
        text.append(" |");
        index += 1;
    }
    proof {
        assert(agents.take(index as int) =~= agents);
    }
    text
}

fn matrix_text(matrix: &PairMatrix) -> (text: String)
    ensures
        text@ == matrix_section(*matrix),
{
    let mut rows: String = String::new();
    let mut index: usize = 0;
    let ghost agents = matrix.agents@;
    proof {
        assert(agents.take(0) =~= Seq::empty());
    }
    while index < matrix.agents.len()
        invariant
            index <= agents.len(),
            agents == matrix.agents@,
            rows@ == matrix_rows(*matrix, agents.take(index as int)),
        decreases agents.len() - index,
    {
        proof {
            assert(agents.take(index + 1).drop_last() =~= agents.take(index as int));
        }
        let from = matrix.agents[index].as_str();
        rows.append("| ");
        rows.append(escape_markdown(from).as_str());
        rows.append(" |");
        rows.append(cells_text(matrix, from).as_str());
        rows.append("\n");
        index += 1;
    }
    proof {
        assert(agents.take(index as int) =~= agents);
    }
    let team = escape_markdown(matrix.team.as_str());
    let mut text = concat4(
        "\n### ",
        team.as_str(),
        "\n\n| from \\ to |",
        heads_text(&matrix.agents).as_str(),
    );
    text.append("\n|---|");
    text.append(rules_text(matrix.agents.len()).as_str());
    text.append("\n");
    text.append(rows.as_str());
    text
}

/// The tables of some matrices, one after the other.
pub open spec fn matrix_sections(matrices: Seq<PairMatrix>) -> Seq<char>
    decreases matrices.len(),
{
    if matrices.len() == 0 {
        Seq::empty()
    } else {
        matrix_sections(matrices.drop_last()) + matrix_section(matrices.last())
    }
}

/// Who wrote to whom over some days.
pub open spec fn pairs_section(matrices: Seq<PairMatrix>, days: nat) -> Seq<char> {
    "\n## Pair matrices ("@ + strings::decimal(days) + " days)\n"@ + (if matrices.len() == 0 {
        "\nNo pair traffic.\n"@
    } else {
        matrix_sections(matrices)
    })
}

fn pairs_text(matrices: &Vec<PairMatrix>, days: u32) -> (text: String)
    ensures
        text@ == pairs_section(matrices@, days as nat),
{
    let mut tables: String = String::new();
    let mut index: usize = 0;
    proof {
        assert(matrices@.take(0) =~= Seq::empty());
    }
    while index < matrices.len()
        invariant
            index <= matrices@.len(),
            tables@ == matrix_sections(matrices@.take(index as int)),
        decreases matrices@.len() - index,
    {
        proof {
            assert(matrices@.take(index + 1).drop_last() =~= matrices@.take(index as int));
        }
        tables.append(matrix_text(&matrices[index]).as_str());
        index += 1;
    }
    proof {
        assert(matrices@.take(index as int) =~= matrices@);
    }
    let number = decimal_u64(days as u64);
    if matrices.len() == 0 {
        concat4("\n## Pair matrices (", number.as_str(), " days)\n", "\nNo pair traffic.\n")
    } else {
        concat4("\n## Pair matrices (", number.as_str(), " days)\n", tables.as_str())
    }
}

/// The entries of some identities without traffic.
pub open spec fn zombie_entries(zombies: Seq<ZombieIdentity>) -> Seq<char>
    decreases zombies.len(),
{
    if zombies.len() == 0 {
        Seq::empty()
    } else {
        zombie_entries(zombies.drop_last()) + "\n- `"@ + zombies.last().team@ + "/"@
            + zombies.last().agent@ + "` (no traffic in 30 days)"@
    }
}

/// The identities without traffic.
pub open spec fn zombies_section(zombies: Seq<ZombieIdentity>) -> Seq<char> {
    "\n## Zombie identities\n"@ + (if zombies.len() == 0 {
        "\nNone.\n"@
    } else {
        zombie_entries(zombies) + "\n"@
    })
}

fn zombies_text(zombies: &Vec<ZombieIdentity>) -> (text: String)
    ensures
        text@ == zombies_section(zombies@),
{
    if zombies.len() == 0 {
        return concat2("\n## Zombie identities\n", "\nNone.\n");
    }
    let mut entries: String = String::new();
    let mut index: usize = 0;
    proof {
        assert(zombies@.take(0) =~= Seq::empty());
    }
    while index < zombies.len()
        invariant
            index <= zombies@.len(),
            entries@ == zombie_entries(zombies@.take(index as int)),
        decreases zombies@.len() - index,
    {
        proof {
            assert(zombies@.take(index + 1).drop_last() =~= zombies@.take(index as int));
        }
        entries.append("\n- `");
        entries.append(zombies[index].team.as_str());
        entries.append("/");
        entries.append(zombies[index].agent.as_str());
        entries.append("` (no traffic in 30 days)");
        index += 1;
    }
    proof {
        assert(zombies@.take(index as int) =~= zombies@);
    }
    entries.append("\n");
    concat2("\n## Zombie identities\n", entries.as_str())
}

/// The entry of one message that has stayed unread.
pub open spec fn stale_entry(stale: StaleUnread) -> Seq<char> {
    "\n- #"@ + strings::signed_decimal(stale.id as int) + " `"@ + stale.team@ + "` "@
        + stale.from_agent@ + " -> "@ + stale.to_agent@ + " at "@ + stale.created_at@ + ": "@
        + export::escaped(on_one_line(stale.body@, 120))
}

/// The entries of some messages that have stayed unread.
pub open spec fn stale_entries(stales: Seq<StaleUnread>) -> Seq<char>
    decreases stales.len(),
{
    if stales.len() == 0 {
        Seq::empty()
    } else {
        stale_entries(stales.drop_last()) + stale_entry(stales.last())
    }
}

/// The messages that have stayed unread.
pub open spec fn stale_section(stales: Seq<StaleUnread>) -> Seq<char> {
    "\n## Stale unread messages\n"@ + (if stales.len() == 0 {
        "\nNone.\n"@
    } else {
        stale_entries(stales) + "\n"@
    })
}

fn stale_entry_text(stale: &StaleUnread) -> (text: String)
    ensures
        text@ == stale_entry(*stale),
{
    let mut text = concat2("\n- #", decimal_i64(stale.id).as_str());
    text.append(" `");
    text.append(stale.team.as_str());
    text.append("` ");
    text.append(stale.from_agent.as_str());
    text.append(" -> ");
    text.append(stale.to_agent.as_str());
    text.append(" at ");
    text.append(stale.created_at.as_str());
    text.append(": ");
    text.append(escape_markdown(single_line(stale.body.as_str(), 120).as_str()).as_str());
    text
}

fn stale_text(stales: &Vec<StaleUnread>) -> (text: String)
    ensures
        text@ == stale_section(stales@),
{
    if stales.len() == 0 {
        return concat2("\n## Stale unread messages\n", "\nNone.\n");
    }
    let mut entries: String = String::new();
    let mut index: usize = 0;
    proof {
        assert(stales@.take(0) =~= Seq::empty());
    }
    while index < stales.len()
        invariant
            index <= stales@.len(),
            entries@ == stale_entries(stales@.take(index as int)),
        decreases stales@.len() - index,
    {
        proof {
            assert(stales@.take(index + 1).drop_last() =~= stales@.take(index as int));
        }
        entries.append(stale_entry_text(&stales[index]).as_str());
        index += 1;
    }
    proof {
        assert(stales@.take(index as int) =~= stales@);
    }
    entries.append("\n");
    concat2("\n## Stale unread messages\n", entries.as_str())
}

/// The document that an audit is written down as.
pub open spec fn report_document(
    report: AuditReport,
    matrices: Seq<PairMatrix>,
    zombies: Seq<ZombieIdentity>,
    stales: Seq<StaleUnread>,
    days: nat,
) -> Seq<char> {
    heading(report) + axes_section(report.axes@) + stats_section(report) + pairs_section(
        matrices,
        days,
    ) + zombies_section(zombies) + stale_section(stales)
}

/// Writes an audit down, with the pairs of the given days.
pub fn build_markdown_for_window(
    report: &AuditReport,
    matrices: &Vec<PairMatrix>,
    zombies: &Vec<ZombieIdentity>,
    stales: &Vec<StaleUnread>,
    days: u32,
) -> (document: String)
    ensures
        document@ == report_document(*report, matrices@, zombies@, stales@, days as nat),
{
    let mut document = concat5(
        heading_text(report).as_str(),
        axes_text(&report.axes).as_str(),
        stats_text(report).as_str(),
        pairs_text(matrices, days).as_str(),
        zombies_text(zombies).as_str(),
    );
    document.append(stale_text(stales).as_str());
    document
}

/// Writes an audit down, with the pairs of thirty days.
pub fn build_markdown(
    report: &AuditReport,
    matrices: &Vec<PairMatrix>,
    zombies: &Vec<ZombieIdentity>,
    stales: &Vec<StaleUnread>,
) -> (document: String)
    ensures
        document@ == report_document(*report, matrices@, zombies@, stales@, 30),
{
    build_markdown_for_window(report, matrices, zombies, stales, ANALYTICS_WINDOW_DAYS)
}

/// The table of a matrix has one column for each agent in their order, under the agent's name, and
/// one row for each agent in the same order. The cell in the row of one agent and the column of
/// another is the number of messages that went from the agent of the row to the agent of the
/// column.
pub proof fn matrix_rows_are_senders(matrix: PairMatrix)
    ensures
        matrix_section(matrix) == "\n### "@ + export::escaped(matrix.team@)
            + "\n\n| from \\ to |"@ + Seq::new(
            matrix.agents@.len(),
            |c: int| " "@ + export::escaped(matrix.agents@[c]@) + " |"@,
        ).flatten() + "\n|---|"@ + Seq::new(matrix.agents@.len(), |c: int| "---:|"@).flatten()
            + "\n"@ + Seq::new(
            matrix.agents@.len(),
            |r: int|
                "| "@ + export::escaped(matrix.agents@[r]@) + " |"@ + Seq::new(
                    matrix.agents@.len(),
                    |c: int|
                        " "@ + strings::decimal(
                            matrix.pair(matrix.agents@[r]@, matrix.agents@[c]@) as nat,
                        ) + " |"@,
                ).flatten() + "\n"@,
        ).flatten(),
{
    let agents = matrix.agents@;
    heads_one_by_one(agents);
    rules_one_by_one(agents.len());
    rows_one_by_one(matrix, agents);
}

proof fn flat_push(pieces: Seq<Seq<char>>, piece: Seq<char>)
    ensures
        pieces.push(piece).flatten() == pieces.flatten() + piece,
{
    let longer = pieces.push(piece);
    longer.lemma_flatten_and_flatten_alt_are_equivalent();
    pieces.lemma_flatten_and_flatten_alt_are_equivalent();
    assert(longer.drop_last() =~= pieces);
}

proof fn heads_one_by_one(agents: Seq<String>)
    ensures
        column_heads(agents) == Seq::new(
            agents.len(),
            |c: int| " "@ + export::escaped(agents[c]@) + " |"@,
        ).flatten(),
    decreases agents.len(),
{
    let pieces = Seq::new(agents.len(), |c: int| " "@ + export::escaped(agents[c]@) + " |"@);
    if agents.len() > 0 {
        let shorter = agents.drop_last();
        let fewer = Seq::new(shorter.len(), |c: int| " "@ + export::escaped(shorter[c]@) + " |"@);
        heads_one_by_one(shorter);
        let last = " "@ + export::escaped(agents.last()@) + " |"@;
        assert(pieces =~= fewer.push(last));
        flat_push(fewer, last);
        assert(column_heads(agents) =~= fewer.flatten() + last);
    } else {
        assert(pieces.flatten() =~= Seq::empty());
    }
}

proof fn rules_one_by_one(count: nat)
    ensures
        column_rules(count) == Seq::new(count, |c: int| "---:|"@).flatten(),
    decreases count,
{
    let pieces = Seq::new(count, |c: int| "---:|"@);
    if count > 0 {
        let fewer = Seq::new((count - 1) as nat, |c: int| "---:|"@);
        rules_one_by_one((count - 1) as nat);
        assert(pieces =~= fewer.push("---:|"@));
        flat_push(fewer, "---:|"@);
    } else {
        assert(pieces.flatten() =~= Seq::empty());
    }
}

proof fn cells_one_by_one(matrix: PairMatrix, from: Seq<char>, agents: Seq<String>)
    ensures
        count_cells(matrix, from, agents) == Seq::new(
            agents.len(),
            |c: int| " "@ + strings::decimal(matrix.pair(from, agents[c]@) as nat) + " |"@,
        ).flatten(),
    decreases agents.len(),
{
    let pieces = Seq::new(
        agents.len(),
        |c: int| " "@ + strings::decimal(matrix.pair(from, agents[c]@) as nat) + " |"@,
    );
    if agents.len() > 0 {
        let shorter = agents.drop_last();
        let fewer = Seq::new(
            shorter.len(),
            |c: int| " "@ + strings::decimal(matrix.pair(from, shorter[c]@) as nat) + " |"@,
        );
        cells_one_by_one(matrix, from, shorter);
        let last = " "@ + strings::decimal(matrix.pair(from, agents.last()@) as nat) + " |"@;
        assert(pieces =~= fewer.push(last));
        flat_push(fewer, last);
        assert(count_cells(matrix, from, agents) =~= fewer.flatten() + last);
    } else {
        assert(pieces.flatten() =~= Seq::empty());
    }
}

proof fn rows_one_by_one(matrix: PairMatrix, agents: Seq<String>)
    ensures
        matrix_rows(matrix, agents) == Seq::new(
            agents.len(),
            |r: int|
                "| "@ + export::escaped(agents[r]@) + " |"@ + Seq::new(
                    matrix.agents@.len(),
                    |c: int|
                        " "@ + strings::decimal(
                            matrix.pair(agents[r]@, matrix.agents@[c]@) as nat,
                        ) + " |"@,
                ).flatten() + "\n"@,
        ).flatten(),
    decreases agents.len(),
{
    let pieces = Seq::new(
        agents.len(),
        |r: int|
            "| "@ + export::escaped(agents[r]@) + " |"@ + Seq::new(
                matrix.agents@.len(),
                |c: int|
                    " "@ + strings::decimal(matrix.pair(agents[r]@, matrix.agents@[c]@) as nat)
                        + " |"@,
            ).flatten() + "\n"@,
    );
    if agents.len() > 0 {
        let shorter = agents.drop_last();
        let fewer = Seq::new(
            shorter.len(),
            |r: int|
                "| "@ + export::escaped(shorter[r]@) + " |"@ + Seq::new(
                    matrix.agents@.len(),
                    |c: int|
                        " "@ + strings::decimal(
                            matrix.pair(shorter[r]@, matrix.agents@[c]@) as nat,
                        ) + " |"@,
                ).flatten() + "\n"@,
        );
        rows_one_by_one(matrix, shorter);
        cells_one_by_one(matrix, agents.last()@, matrix.agents@);
        let last = pieces.last();
        assert(agents[agents.len() - 1] == agents.last());
        assert(last == "| "@ + export::escaped(agents.last()@) + " |"@ + count_cells(
            matrix,
            agents.last()@,
            matrix.agents@,
        ) + "\n"@);
        assert forall|r: int| 0 <= r < fewer.len() implies #[trigger] pieces[r] == fewer[r] by {
            assert(agents[r] == shorter[r]);
        }
        assert(pieces =~= fewer.push(last));
        flat_push(fewer, last);
        assert(matrix_rows(matrix, agents) =~= fewer.flatten() + last);
    } else {
        assert(pieces.flatten() =~= Seq::empty());
    }
}

} // verus!

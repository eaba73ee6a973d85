//! The inventory: which agents a team has, what they are registered for, and what is counted.

use crate::db::inventory;
use crate::db::inventory::{AgentStats, ConfiguredAgent, IdentityView, RegistrationView};
use crate::db::traffic;
use crate::db::traffic::TeamCount;
use crate::health::registrations;
use crate::health::registrations::TeamConfig;
use crate::json;
use crate::search;
use vstd::prelude::*;

verus! {

/// Each registration of each agent is a row of its team, with the agent's name, the type and the
/// project of the registration, when the agent was last seen, and how many messages it sent and
/// received, each in its place.
pub proof fn every_registration_is_a_row(
    team: Seq<char>,
    agents: Seq<ConfiguredAgent>,
    stats: Seq<AgentStats>,
    agent: int,
    registration: int,
)
    requires
        stats.len() == agents.len(),
        0 <= agent < agents.len(),
        0 <= registration < agents[agent].registrations@.len(),
        0 <= stats[agent].sent <= usize::MAX,
        0 <= stats[agent].received <= usize::MAX,
    ensures
        inventory::team_rows(team, agents, stats).contains(
            IdentityView {
                team,
                name: stats[agent].name@,
                registration: RegistrationView {
                    agent_type: agents[agent].registrations@[registration].agent_type@,
                    project: agents[agent].registrations@[registration].project@,
                },
                last_seen_at: match stats[agent].last_seen_at {
                    Some(seen) => Some(seen@),
                    None => None,
                },
                sent_30d: stats[agent].sent as usize,
                received_30d: stats[agent].received as usize,
            },
        ),
    decreases agents.len(),
{
    let row = IdentityView {
        team,
        name: stats[agent].name@,
        registration: RegistrationView {
            agent_type: agents[agent].registrations@[registration].agent_type@,
            project: agents[agent].registrations@[registration].project@,
        },
        last_seen_at: match stats[agent].last_seen_at {
            Some(seen) => Some(seen@),
            None => None,
        },
        sent_30d: stats[agent].sent as usize,
        received_30d: stats[agent].received as usize,
    };
    let before = inventory::team_rows(team, agents.drop_last(), stats.drop_last());
    let rows = inventory::team_rows(team, agents, stats);
    if agent < agents.len() - 1 {
        assert(agents.drop_last()[agent] == agents[agent]);
        assert(stats.drop_last()[agent] == stats[agent]);
        every_registration_is_a_row(
            team,
            agents.drop_last(),
            stats.drop_last(),
            agent,
            registration,
        );
        let i = choose|i: int| 0 <= i < before.len() && before[i] == row;
        assert(rows[i] == row);
    } else {
        assert(agents.last() == agents[agent]);
        assert(stats.last() == stats[agent]);
        let last = inventory::agent_rows(
            team,
            inventory::shown_all(agents.last().registrations@),
            stats.last(),
        );
        assert(last[registration] == row);
        assert(rows[before.len() + registration] == row);
    }
}

/// The rows of a team are of that team, and each is of one of its agents.
pub proof fn rows_are_of_the_team(
    team: Seq<char>,
    agents: Seq<ConfiguredAgent>,
    stats: Seq<AgentStats>,
    row: int,
)
    requires
        stats.len() == agents.len(),
        0 <= row < inventory::team_rows(team, agents, stats).len(),
    ensures
        inventory::team_rows(team, agents, stats)[row].team == team,
        exists|agent: int|
            0 <= agent < stats.len() && (#[trigger] stats[agent]).name@ == inventory::team_rows(
                team,
                agents,
                stats,
            )[row].name,
    decreases agents.len(),
{
    if agents.len() > 0 {
        let before = inventory::team_rows(team, agents.drop_last(), stats.drop_last());
        if row < before.len() {
            rows_are_of_the_team(team, agents.drop_last(), stats.drop_last(), row);
            let agent = choose|agent: int|
                0 <= agent < stats.drop_last().len() && (#[trigger] stats.drop_last()[agent]).name@
                    == before[row].name;
            assert(stats[agent] == stats.drop_last()[agent]);
        } else {
            assert(stats[stats.len() - 1] == stats.last());
        }
    }
}

/// An agent has the registrations that are listed for it; without any it has what it says of itself,
/// and a hyphen stands for what it does not say.
pub proof fn listed_registrations_go_first(
    listed: Seq<RegistrationView>,
    says_something: bool,
    own: RegistrationView,
    agent_type: Option<Seq<char>>,
    project: Option<Seq<char>>,
)
    ensures
        listed.len() > 0 ==> inventory::effective(listed, says_something, own) == listed,
        listed.len() == 0 && says_something ==> inventory::effective(listed, says_something, own)
            == seq![own],
        listed.len() == 0 && !says_something ==> inventory::effective(listed, says_something, own)
            == seq![RegistrationView { agent_type: "-"@, project: "-"@ }],
        agent_type is Some ==> inventory::registration_of(agent_type, project).agent_type
            == agent_type->Some_0,
        agent_type is None ==> inventory::registration_of(agent_type, project).agent_type == "-"@,
        project is Some ==> inventory::registration_of(agent_type, project).project
            == project->Some_0,
        project is None ==> inventory::registration_of(agent_type, project).project == "-"@,
{
}

/// Type and project of a registration are read from the keys of these names.
pub proof fn registrations_are_read_by_key(text: Seq<char>)
    ensures
        json::string_field(text, "type"@) is Some ==> inventory::object_registration(
            text,
        ).agent_type == json::string_field(text, "type"@)->Some_0,
        json::string_field(text, "project"@) is Some ==> inventory::object_registration(
            text,
        ).project == json::string_field(text, "project"@)->Some_0,
{
}

/// A team has the count that was given for it, and none if none was; a count below zero is none.
pub proof fn teams_have_their_own_count(counts: Seq<TeamCount>, team: Seq<char>, k: int)
    requires
        0 <= k < counts.len(),
        counts[k].team@ == team,
        forall|i: int| k < i < counts.len() ==> (#[trigger] counts[i]).team@ != team,
    ensures
        0 <= counts[k].count <= usize::MAX ==> traffic::team_count(counts, team) == counts[k].count,
        counts[k].count < 0 ==> traffic::team_count(counts, team) == 0,
    decreases counts.len(),
{
    assert(counts[counts.len() - 1] == counts.last());
    if k < counts.len() - 1 {
        let shorter = counts.drop_last();
        assert forall|i: int| k < i < shorter.len() implies (#[trigger] shorter[i]).team@
            != team by {
            assert(shorter[i] == counts[i]);
        }
        teams_have_their_own_count(shorter, team, k);
    }
}

/// A team that is not among the counts has none.
pub proof fn uncounted_teams_have_none(counts: Seq<TeamCount>, team: Seq<char>)
    requires
        forall|i: int| 0 <= i < counts.len() ==> (#[trigger] counts[i]).team@ != team,
    ensures
        traffic::team_count(counts, team) == 0,
    decreases counts.len(),
{
    if counts.len() > 0 {
        let shorter = counts.drop_last();
        assert(counts[counts.len() - 1] == counts.last());
        assert forall|i: int| 0 <= i < shorter.len() implies (#[trigger] shorter[i]).team@
            != team by {
            assert(shorter[i] == counts[i]);
        }
        uncounted_teams_have_none(shorter, team);
    }
}

/// A search pattern stands for exactly what was typed: each of the characters that mean something in
/// a pattern gets a backslash, and every other one stays.
pub proof fn patterns_are_taken_literally(text: Seq<char>, last: char)
    ensures
        traffic::literal_pattern(Seq::empty()) == Seq::<char>::empty(),
        traffic::literal_pattern(text.push(last)) == traffic::literal_pattern(text) + if last == '\\'
            || last == '%' || last == '_' {
            seq!['\\', last]
        } else {
            seq![last]
        },
{
    reveal_strlit("\\\\");
    reveal_strlit("\\%");
    reveal_strlit("\\_");
    let longer = text.push(last);
    assert(longer.drop_last() =~= text);
    let slashes = search::replaced(text, '\\', "\\\\"@);
    let percents = search::replaced(slashes, '%', "\\%"@);
    let more_slashes = search::replaced(longer, '\\', "\\\\"@);
    let more_percents = search::replaced(more_slashes, '%', "\\%"@);
    if last == '\\' {
        assert(more_slashes =~= slashes.push('\\').push('\\'));
        assert(slashes.push('\\').push('\\').drop_last() =~= slashes.push('\\'));
        assert(slashes.push('\\').drop_last() =~= slashes);
        assert(search::replaced(slashes.push('\\'), '%', "\\%"@) == percents.push('\\'));
        assert(more_percents == percents.push('\\').push('\\'));
        assert(percents.push('\\').push('\\').drop_last() =~= percents.push('\\'));
        assert(percents.push('\\').drop_last() =~= percents);
        assert(search::replaced(percents.push('\\'), '_', "\\_"@) == traffic::literal_pattern(
            text,
        ).push('\\'));
        assert(traffic::literal_pattern(longer) =~= traffic::literal_pattern(text) + seq![
            '\\',
            last,
        ]);
    } else {
        assert(more_slashes == slashes.push(last));
        assert(slashes.push(last).drop_last() =~= slashes);
        if last == '%' {
            assert(more_percents =~= percents.push('\\').push('%'));
            assert(percents.push('\\').push('%').drop_last() =~= percents.push('\\'));
            assert(percents.push('\\').drop_last() =~= percents);
            assert(search::replaced(percents.push('\\'), '_', "\\_"@) == traffic::literal_pattern(
                text,
            ).push('\\'));
            assert(traffic::literal_pattern(longer) =~= traffic::literal_pattern(text) + seq![
                '\\',
                last,
            ]);
        } else {
            assert(more_percents == percents.push(last));
            assert(percents.push(last).drop_last() =~= percents);
            if last == '_' {
                assert(traffic::literal_pattern(longer) =~= traffic::literal_pattern(text) + seq![
                    '\\',
                    last,
                ]);
            } else {
                assert(traffic::literal_pattern(longer) =~= traffic::literal_pattern(text) + seq![
                    last,
                ]);
            }
        }
    }
}

/// A table fits exactly if it has all of the seven columns of a message.
pub proof fn messages_need_their_columns(columns: Seq<String>)
    ensures
        traffic::schema_fits(columns) <==> search::lists(columns, "id"@) && search::lists(
            columns,
            "team"@,
        ) && search::lists(columns, "from_agent"@) && search::lists(columns, "to_agent"@)
            && search::lists(columns, "body"@) && search::lists(columns, "created_at"@)
            && search::lists(columns, "read_at"@),
{
    let expected = traffic::expected_columns();
    assert(expected.len() == 7);
    assert(expected[0] == "id"@);
    assert(expected[1] == "team"@);
    assert(expected[2] == "from_agent"@);
    assert(expected[3] == "to_agent"@);
    assert(expected[4] == "body"@);
    assert(expected[5] == "created_at"@);
    assert(expected[6] == "read_at"@);
    if traffic::schema_fits(columns) {
        assert(search::lists(columns, expected[0]));
        assert(search::lists(columns, expected[1]));
        assert(search::lists(columns, expected[2]));
        assert(search::lists(columns, expected[3]));
        assert(search::lists(columns, expected[4]));
        assert(search::lists(columns, expected[5]));
        assert(search::lists(columns, expected[6]));
    }
}

/// A registration that a file lists counts exactly if it says both its type and its project; it is
/// then one of the agent in the team whose file it is.
pub proof fn whole_registrations_count(team: Seq<char>, agent: Seq<char>, list: Seq<Seq<char>>)
    ensures
        forall|k: int|
            0 <= k < registrations::item_registrations(team, agent, list).len() ==> (
            #[trigger] registrations::item_registrations(team, agent, list)[k]).team == team
                && registrations::item_registrations(team, agent, list)[k].agent == agent && exists|
                i: int,
            |
                0 <= i < list.len() && json::string_field(#[trigger] list[i], "type"@) == Some(
                    registrations::item_registrations(team, agent, list)[k].agent_type,
                ) && json::string_field(list[i], "project"@) == Some(
                    registrations::item_registrations(team, agent, list)[k].project,
                ),
        forall|i: int|
            0 <= i < list.len() && json::string_field(#[trigger] list[i], "type"@) is Some
                && json::string_field(list[i], "project"@) is Some
                ==> registrations::item_registrations(team, agent, list).contains(
                registrations::RegistrationView {
                    team,
                    agent,
                    agent_type: json::string_field(list[i], "type"@)->Some_0,
                    project: json::string_field(list[i], "project"@)->Some_0,
                },
            ),
    decreases list.len(),
{
    if list.len() > 0 {
        let shorter = list.drop_last();
        let before = registrations::item_registrations(team, agent, shorter);
        let all = registrations::item_registrations(team, agent, list);
        whole_registrations_count(team, agent, shorter);
        assert(list[list.len() - 1] == list.last());
        assert forall|k: int| 0 <= k < all.len() implies (#[trigger] all[k]).team == team
            && all[k].agent == agent && exists|i: int|
            0 <= i < list.len() && json::string_field(#[trigger] list[i], "type"@) == Some(
                all[k].agent_type,
            ) && json::string_field(list[i], "project"@) == Some(all[k].project) by {
            if k < before.len() {
                assert(all[k] == before[k]);
                let i = choose|i: int|
                    0 <= i < shorter.len() && json::string_field(#[trigger] shorter[i], "type"@)
                        == Some(before[k].agent_type) && json::string_field(
                        shorter[i],
                        "project"@,
                    ) == Some(before[k].project);
                assert(list[i] == shorter[i]);
            } else {
                assert(json::string_field(list[list.len() - 1], "type"@) == Some(
                    all[k].agent_type,
                ));
            }
        }
        assert forall|i: int|
            0 <= i < list.len() && json::string_field(#[trigger] list[i], "type"@) is Some
                && json::string_field(list[i], "project"@) is Some implies all.contains(
            registrations::RegistrationView {
                team,
                agent,
                agent_type: json::string_field(list[i], "type"@)->Some_0,
                project: json::string_field(list[i], "project"@)->Some_0,
            },
        ) by {
            let view = registrations::RegistrationView {
                team,
                agent,
                agent_type: json::string_field(list[i], "type"@)->Some_0,
                project: json::string_field(list[i], "project"@)->Some_0,
            };
            if i < shorter.len() {
                assert(shorter[i] == list[i]);
                let k = choose|k: int| 0 <= k < before.len() && before[k] == view;
                assert(all[k] == view);
            } else {
                assert(all[all.len() - 1] == view);
            }
        }
    }
}

/// The registrations of all teams are those of each team, one team after the other.
pub proof fn teams_are_read_one_by_one(teams: Seq<TeamConfig>, last: TeamConfig)
    ensures
        registrations::all_registrations(Seq::empty()).len() == 0,
        registrations::all_registrations(teams.push(last)) == registrations::all_registrations(teams)
            + registrations::team_registrations(
            last.team@,
            match last.config {
                Some(text) => Some(text@),
                None => None,
            },
        ),
        registrations::team_registrations(last.team@, None).len() == 0,
{
    assert(teams.push(last).drop_last() =~= teams);
}

/// The registrations of an agent are those listed under its own name in the file.
pub proof fn agents_are_read_under_their_names(
    team: Seq<char>,
    config: Seq<char>,
    agents: Seq<char>,
    names: Seq<Seq<char>>,
    k: int,
    list: Seq<char>,
    entry: Seq<char>,
    items: Seq<Seq<char>>,
    i: int,
)
    requires
        json::field_text(config, "agents"@) == Some(agents),
        json::key_texts(agents) == Some(names),
        0 <= k < names.len(),
        json::field_text(agents, names[k]) == Some(entry),
        json::field_text(entry, "registrations"@) == Some(list),
        json::item_texts(list) == Some(items),
        0 <= i < items.len(),
        json::string_field(items[i], "type"@) is Some,
        json::string_field(items[i], "project"@) is Some,
    ensures
        registrations::team_registrations(team, Some(config)).contains(
            registrations::RegistrationView {
                team,
                agent: names[k],
                agent_type: json::string_field(items[i], "type"@)->Some_0,
                project: json::string_field(items[i], "project"@)->Some_0,
            },
        ),
{
    whole_registrations_count(team, names[k], items);
    named_agents_are_read(
        team,
        agents,
        names,
        k,
        registrations::RegistrationView {
            team,
            agent: names[k],
            agent_type: json::string_field(items[i], "type"@)->Some_0,
            project: json::string_field(items[i], "project"@)->Some_0,
        },
    );
}

proof fn named_agents_are_read(
    team: Seq<char>,
    agents: Seq<char>,
    names: Seq<Seq<char>>,
    k: int,
    view: registrations::RegistrationView,
)
    requires
        0 <= k < names.len(),
        registrations::agent_registrations(team, agents, names[k]).contains(view),
    ensures
        registrations::agents_registrations(team, agents, names).contains(view),
    decreases names.len(),
{
    let before = registrations::agents_registrations(team, agents, names.drop_last());
    let all = registrations::agents_registrations(team, agents, names);
    if k < names.len() - 1 {
        assert(names.drop_last()[k] == names[k]);
        named_agents_are_read(team, agents, names.drop_last(), k, view);
        let i = choose|i: int| 0 <= i < before.len() && before[i] == view;
        assert(all[i] == view);
    } else {
        let own = registrations::agent_registrations(team, agents, names.last());
        let i = choose|i: int| 0 <= i < own.len() && own[i] == view;
        assert(all[before.len() + i] == view);
    }
}

/// A team whose file cannot be read is listed without identities and with the error; any other one
/// is listed with its rows and without one.
pub proof fn broken_teams_are_listed_with_their_error(
    team: Seq<char>,
    config: Result<Vec<ConfiguredAgent>, String>,
    stats: Seq<AgentStats>,
    summary: crate::db::AgentTeamSummary,
)
    requires
        inventory::team_entry(team, config, stats, summary),
    ensures
        summary.name@ == team,
        summary.broken_config is Some <==> config is Err,
        config is Err ==> summary.identities@.len() == 0 && summary.broken_config->Some_0@
            == config->Err_0@,
        config is Ok ==> summary.identities@.len() == inventory::team_rows(
            team,
            config->Ok_0@,
            stats,
        ).len(),
        forall|i: int|
            0 <= i < summary.identities@.len() && config is Ok ==> inventory::team_rows(
                team,
                config->Ok_0@,
                stats,
            )[i].name == (#[trigger] summary.identities@[i]).name@,
{
    if config is Ok {
        let views = inventory::identity_views(summary.identities@);
        assert(views.len() == summary.identities@.len());
        assert forall|i: int| 0 <= i < summary.identities@.len() implies views[i].name == (
        #[trigger] summary.identities@[i]).name@ by {
        }
    }
}

/// A query is looked for anywhere in a text: between two signs that stand for anything.
pub proof fn queries_are_looked_for_anywhere(query: Seq<char>)
    ensures
        traffic::pattern_of(query).len() == traffic::literal_pattern(query).len() + 2,
        traffic::pattern_of(query)[0] == '%',
        traffic::pattern_of(query).last() == '%',
        traffic::pattern_of(query).subrange(1, traffic::pattern_of(query).len() - 1)
            == traffic::literal_pattern(query),
{
    reveal_strlit("%");
    assert(traffic::pattern_of(query).subrange(1, traffic::pattern_of(query).len() - 1)
        =~= traffic::literal_pattern(query));
}

/// The number in the setting says what a burst is; without a number it is the usual one.
pub proof fn settings_say_what_a_burst_is(setting: String, number: nat)
    requires
        number <= usize::MAX,
    ensures
        setting@ == crate::strings::decimal(number) ==> traffic::threshold_of(Some(setting))
            == number,
        setting@.len() == 0 ==> traffic::threshold_of(Some(setting)) == 150,
        traffic::threshold_of(None) == 150,
{
    crate::lines::written_numbers_are_read_back(number, usize::MAX as nat);
}

} // verus!

//! Bridges: what the files of a running bridge say, and whom a bridge keeps alive.

use crate::health::bridges;
use crate::health::bridges::IdentityAlive;
use crate::health::delivery;
use crate::health::pidfiles;
use crate::health::pidfiles::{BridgeView, RawBridge, RunFile};
use crate::health::registrations::Registration;
use crate::laws::texts;
use crate::lines;
use crate::search;
use crate::strings;
use vstd::prelude::*;

verus! {

/// The process of a bridge is the number in its pid file, and that of an instance the number in the
/// name of its file; an instance is of the lead type.
pub proof fn files_name_their_process(
    family: Seq<char>,
    files: Seq<RunFile>,
    file: RunFile,
    stem: Seq<char>,
    pid: u32,
)
    ensures
        file.name@ == "cc-instance."@ + strings::decimal(pid as nat) ==> (pidfiles::file_bridge(
            family,
            files,
            file,
        ) matches Some(bridge) && bridge.pid == pid && bridge.label == family + "-code"@
            && bridge.agent_hint is None && bridge.team_hint is None),
        file.name@ == stem + ".pid"@ && !"cc-instance."@.is_prefix_of(file.name@) && (file.content
            matches Some(text) && search::trimmed(text@) == strings::decimal(pid as nat)) ==> (
        pidfiles::file_bridge(family, files, file) matches Some(bridge) && bridge.pid == pid),
        !"cc-instance."@.is_prefix_of(file.name@) && !".pid"@.is_suffix_of(file.name@)
            ==> pidfiles::file_bridge(family, files, file) is None,
        !"cc-instance."@.is_prefix_of(file.name@) && file.content is None ==> pidfiles::file_bridge(
            family,
            files,
            file,
        ) is None,
{
    lines::written_numbers_are_read_back(pid as nat, u32::MAX as nat);
    let head = "cc-instance."@;
    let digits = strings::decimal(pid as nat);
    if file.name@ == head + digits {
        assert(head =~= file.name@.subrange(0, head.len() as int));
        assert(file.name@.skip(head.len() as int) =~= digits);
    }
    if file.name@ == stem + ".pid"@ {
        texts::suffixes_are_cut_off(file.name@, ".pid"@, stem);
    }
}

/// One more bridge is listed beside the others, or put together with the one of its process; no
/// other bridge changes.
pub proof fn bridges_join_the_list(list: Seq<BridgeView>, bridge: BridgeView, other: BridgeView)
    requires
        pidfiles::pids_ascend(list),
        other.pid != bridge.pid,
    ensures
        pidfiles::with_bridge(list, bridge).contains(other) <==> list.contains(other),
        (forall|i: int| 0 <= i < list.len() ==> (#[trigger] list[i]).pid != bridge.pid)
            ==> pidfiles::with_bridge(list, bridge).contains(bridge),
        forall|i: int|
            0 <= i < list.len() && (#[trigger] list[i]).pid == bridge.pid ==> pidfiles::with_bridge(
                list,
                bridge,
            ).contains(pidfiles::merged(list[i], bridge)),
    decreases list.len(),
{
    let longer = pidfiles::with_bridge(list, bridge);
    if list.len() == 0 || list.last().pid < bridge.pid {
        assert(longer[list.len() as int] == bridge);
        if list.contains(other) {
            let i = choose|i: int| 0 <= i < list.len() && list[i] == other;
            assert(longer[i] == other);
        }
        if longer.contains(other) {
            let i = choose|i: int| 0 <= i < longer.len() && longer[i] == other;
            assert(list[i] == other);
        }
        assert forall|i: int| 0 <= i < list.len() && (#[trigger] list[i]).pid
            == bridge.pid implies longer.contains(pidfiles::merged(list[i], bridge)) by {
            if i < list.len() - 1 {
                assert(list[i].pid < list[list.len() - 1].pid);
            }
        }
    } else if list.last().pid == bridge.pid {
        let last = pidfiles::merged(list.last(), bridge);
        assert(longer[list.len() - 1] == last);
        if list.contains(other) {
            let i = choose|i: int| 0 <= i < list.len() && list[i] == other;
            assert(longer[i] == other);
        }
        if longer.contains(other) {
            let i = choose|i: int| 0 <= i < longer.len() && longer[i] == other;
            assert(last.pid == bridge.pid);
            assert(list[i] == other);
        }
        assert forall|i: int| 0 <= i < list.len() && (#[trigger] list[i]).pid
            == bridge.pid implies longer.contains(pidfiles::merged(list[i], bridge)) by {
            if i < list.len() - 1 {
                assert(list[i].pid < list[list.len() - 1].pid);
            }
        }
        assert(list[list.len() - 1].pid == bridge.pid);
    } else {
        let shorter = list.drop_last();
        assert forall|i: int, j: int| 0 <= i < j < shorter.len() implies (
        #[trigger] shorter[i]).pid < (#[trigger] shorter[j]).pid by {
            assert(shorter[i] == list[i] && shorter[j] == list[j]);
        }
        bridges_join_the_list(shorter, bridge, other);
        let before = pidfiles::with_bridge(shorter, bridge);
        assert(longer[before.len() as int] == list.last());
        assert forall|item: BridgeView| before.contains(item) implies #[trigger] longer.contains(
            item,
        ) by {
            let i = choose|i: int| 0 <= i < before.len() && before[i] == item;
            assert(longer[i] == item);
        }
        if list.contains(other) {
            let i = choose|i: int| 0 <= i < list.len() && list[i] == other;
            if i < shorter.len() {
                assert(shorter[i] == other);
                assert(shorter.contains(other));
            }
        }
        if longer.contains(other) {
            let i = choose|i: int| 0 <= i < longer.len() && longer[i] == other;
            if i < before.len() {
                assert(before.contains(other));
                let j = choose|j: int| 0 <= j < shorter.len() && shorter[j] == other;
                assert(list[j] == other);
            } else {
                assert(list[list.len() - 1] == other);
            }
        }
        if forall|i: int| 0 <= i < list.len() ==> (#[trigger] list[i]).pid != bridge.pid {
            assert forall|i: int| 0 <= i < shorter.len() implies (#[trigger] shorter[i]).pid
                != bridge.pid by {
                assert(shorter[i] == list[i]);
            }
        }
        assert forall|i: int| 0 <= i < list.len() && (#[trigger] list[i]).pid
            == bridge.pid implies longer.contains(pidfiles::merged(list[i], bridge)) by {
            if i < list.len() - 1 {
                assert(shorter[i] == list[i]);
            } else {
                assert(list[i] == list.last());
            }
        }
    }
}

/// A bridge shows an identity alive only if its process runs and it is of the identity's type, and
/// names the identity, or else serves a project where nobody else of the type is registered.
pub proof fn running_bridges_show_life(
    family: Seq<char>,
    bridge: RawBridge,
    registrations: Seq<Registration>,
    registration: Registration,
    alive: Set<u32>,
)
    ensures
        bridges::shows_alive(family, bridge@, registrations, registration, alive) ==> alive.contains(
            bridge.pid,
        ) && bridges::kind_fits(family, bridge.label@, registration.agent_type@),
        alive.contains(bridge.pid) && bridges::kind_fits(
            family,
            bridge.label@,
            registration.agent_type@,
        ) && bridge.team_hint is None && (bridge.agent_hint matches Some(agent) && agent@
            == registration.agent@) ==> bridges::shows_alive(
            family,
            bridge@,
            registrations,
            registration,
            alive,
        ),
        bridge.agent_hint is None && bridge.project_hint is None ==> !bridges::shows_alive(
            family,
            bridge@,
            registrations,
            registration,
            alive,
        ),
        bridge.agent_hint is None && (bridge.project_hint matches Some(project) && project@
            == registration.project@) && bridge.team_hint is None && alive.contains(bridge.pid)
            && bridges::kind_fits(family, bridge.label@, registration.agent_type@) && (forall|i: int|
            0 <= i < registrations.len() && (#[trigger] registrations[i]).agent_type@
                == registration.agent_type@ && registrations[i].project@ == registration.project@
                ==> registrations[i].team@ == registration.team@ && registrations[i].agent@
                == registration.agent@) ==> bridges::shows_alive(
            family,
            bridge@,
            registrations,
            registration,
            alive,
        ),
{
}

/// An identity is listed once: as alive if some bridge shows one of its registrations alive, and only
/// if the process of some bridge runs.
pub proof fn every_identity_is_listed_once(
    family: Seq<char>,
    found: Seq<RawBridge>,
    registrations: Seq<Registration>,
    alive: Set<u32>,
    entries: Seq<IdentityAlive>,
    r: int,
    b: int,
    e: int,
)
    requires
        bridges::alive_map_of(family, found, registrations, alive, entries),
        0 <= r < registrations.len(),
        0 <= b < found.len(),
        0 <= e < entries.len(),
        entries[e].team@ == registrations[r].team@,
        entries[e].agent@ == registrations[r].agent@,
    ensures
        forall|i: int|
            0 <= i < entries.len() && i != e ==> !((#[trigger] entries[i]).team@ == entries[e].team@
                && entries[i].agent@ == entries[e].agent@),
        bridges::shows_alive(family, found[b]@, registrations, registrations[r], alive)
            ==> entries[e].alive,
        entries[e].alive ==> exists|i: int, j: int|
            0 <= i < registrations.len() && 0 <= j < found.len() && (
            #[trigger] registrations[i]).team@ == entries[e].team@ && registrations[i].agent@
                == entries[e].agent@ && alive.contains((#[trigger] found[j]).pid),
{
    assert forall|i: int| 0 <= i < entries.len() && i != e implies !((
    #[trigger] entries[i]).team@ == entries[e].team@ && entries[i].agent@ == entries[e].agent@) by {
        if i < e {
            assert(entries[i].team@ != entries[e].team@ || entries[i].agent@ != entries[e].agent@);
        }
    }
    if bridges::shows_alive(family, found[b]@, registrations, registrations[r], alive) {
        assert(bridges::registration_alive(family, found, registrations, registrations[r], alive));
    }
    if entries[e].alive {
        let i = choose|i: int|
            0 <= i < registrations.len() && (#[trigger] registrations[i]).team@ == entries[e].team@
                && registrations[i].agent@ == entries[e].agent@ && bridges::registration_alive(
                family,
                found,
                registrations,
                registrations[i],
                alive,
            );
        let j = choose|j: int|
            0 <= j < found.len() && bridges::shows_alive(
                family,
                (#[trigger] found[j])@,
                registrations,
                registrations[i],
                alive,
            );
        assert(found[j]@.pid == found[j].pid);
    }
}

/// What a description says under a key is the text behind the equals sign, in the last line that has
/// the key.
pub proof fn last_line_of_a_key_counts(
    rows: Seq<Seq<char>>,
    key: Seq<char>,
    value: Seq<char>,
    last: Seq<char>,
)
    ensures
        lines::cut_once(last, "="@) == Some((key, value)) ==> pidfiles::last_value(
            rows.push(last),
            key,
        ) == Some(value),
        lines::cut_once(last, "="@) is None || lines::cut_once(last, "="@)->Some_0.0 != key
            ==> pidfiles::last_value(rows.push(last), key) == pidfiles::last_value(rows, key),
        pidfiles::last_value(Seq::empty(), key) is None,
{
    assert(rows.push(last).drop_last() =~= rows);
}

/// A bridge for Codex is named for its team and, behind the last dot, its agent; a watcher for the
/// process behind the last dot.
pub proof fn names_tell_team_and_agent(stem: Seq<char>, team: Seq<char>, agent: Seq<char>, pid: u32)
    requires
        !agent.contains('.'),
    ensures
        stem == "codex-bridge."@ + team + "."@ + agent ==> pidfiles::codex_identity(stem) == Some(
            (team, agent),
        ),
        stem == "watch."@ + team + "."@ + strings::decimal(pid as nat) ==> pidfiles::watch_owner(stem)
            == Some(pid),
        !"codex-bridge."@.is_prefix_of(stem) ==> pidfiles::codex_identity(stem) is None,
{
    reveal_strlit(".");
    let digits = strings::decimal(pid as nat);
    lines::decimal_is_digits(pid as nat);
    lines::written_numbers_are_read_back(pid as nat, u32::MAX as nat);
    if stem == "codex-bridge."@ + team + "."@ + agent {
        let head = "codex-bridge."@;
        assert(head =~= stem.subrange(0, head.len() as int));
        assert(stem.skip(head.len() as int) =~= team + "."@ + agent);
        last_dot_cuts(team, agent);
    }
    if stem == "watch."@ + team + "."@ + digits {
        let head = "watch."@;
        assert(head =~= stem.subrange(0, head.len() as int));
        assert(stem.skip(head.len() as int) =~= team + "."@ + digits);
        assert(!digits.contains('.')) by {
            if digits.contains('.') {
                let i = choose|i: int| 0 <= i < digits.len() && digits[i] == '.';
                assert(strings::is_digit(digits[i]));
            }
        }
        last_dot_cuts(team, digits);
    }
}

proof fn last_dot_cuts(left: Seq<char>, right: Seq<char>)
    requires
        !right.contains('.'),
    ensures
        lines::cut_last(left + "."@ + right, "."@) == Some((left, right)),
{
    reveal_strlit(".");
    let text = left + "."@ + right;
    let place = left.len() as int;
    assert(text.subrange(place, place + 1) =~= "."@);
    assert(search::occurs_at(text, "."@, place));
    texts::texts_are_cut_at_the_separator(text, "."@, place);
    let (first, second) = lines::cut_last(text, "."@)->Some_0;
    if first.len() > place {
        assert(text[first.len() as int] == '.') by {
            assert(text == first + "."@ + second);
        }
        assert(right[first.len() - place - 1] == '.');
    }
    assert(first.len() == place);
    assert(first =~= left) by {
        assert(text == first + "."@ + second);
        assert forall|i: int| 0 <= i < place implies first[i] == left[i] by {
            assert(text[i] == (first + "."@ + second)[i]);
        }
    }
    assert(second =~= right) by {
        assert(text == first + "."@ + second);
        assert(second.len() == right.len());
        assert forall|i: int| 0 <= i < right.len() implies second[i] == right[i] by {
            assert(text[place + 1 + i] == (first + "."@ + second)[place + 1 + i]);
        }
    }
}

/// The agent of a session is known only if all files that mark the session name the same one.
pub proof fn sessions_name_one_agent(names: Seq<Seq<char>>, k: int)
    requires
        0 <= k < names.len(),
    ensures
        pidfiles::only_name(names) is Some ==> pidfiles::only_name(names) == Some(names[k]),
        pidfiles::only_name(names) is None ==> exists|i: int, j: int|
            0 <= i < names.len() && 0 <= j < names.len() && #[trigger] names[i] != #[trigger] names[j],
        pidfiles::only_name(Seq::empty()) is None,
{
}

/// A session is marked for a team, a type and, where one is known, a project, by a file of its own
/// kind.
pub proof fn marks_are_for_team_and_type(
    file: RunFile,
    team: Seq<char>,
    agent_type: Seq<char>,
    project: Option<Seq<char>>,
)
    requires
        pidfiles::marks_session(file, team, agent_type, project),
    ensures
        "role-session."@.is_prefix_of(file.name@),
        file.content is Some,
        pidfiles::value_of(Some(file.content->Some_0@), "team"@) == Some(team),
        pidfiles::value_of(Some(file.content->Some_0@), "type"@) == Some(agent_type),
        project is Some ==> pidfiles::value_of(Some(file.content->Some_0@), "project"@) == project,
{
}

/// The project of a process is the text of its own file, without the white space around it.
pub proof fn projects_are_marked_by_process(files: Seq<RunFile>, pid: u32, text: Seq<char>)
    requires
        pidfiles::content_of(files, "proj."@ + strings::decimal(pid as nat) + ".project"@) == Some(
            text,
        ),
    ensures
        search::trimmed(text).len() > 0 ==> pidfiles::marked_project(files, pid) == Some(
            search::trimmed(text),
        ),
        search::trimmed(text).len() == 0 ==> pidfiles::marked_project(files, pid) is None,
{
}

/// The mode stands behind `mode=` or `mode:`, without the white space around it.
pub proof fn modes_stand_behind_their_word(line: Seq<char>)
    ensures
        "mode="@.is_prefix_of(search::trimmed(line)) ==> delivery::line_mode(line) == Some(
            search::trimmed(search::trimmed(line).skip(5)),
        ),
        "mode:"@.is_prefix_of(search::trimmed(line)) ==> delivery::line_mode(line) == Some(
            search::trimmed(search::trimmed(line).skip(5)),
        ),
        !"mode="@.is_prefix_of(search::trimmed(line)) && !"mode:"@.is_prefix_of(
            search::trimmed(line),
        ) ==> delivery::line_mode(line) is None,
{
    reveal_strlit("mode=");
    reveal_strlit("mode:");
}

} // verus!

//! Hosts: which entries count, how they are asked, and what becomes of the answers.

use crate::clock::Timestamp;
use crate::exec;
use crate::remote;
use crate::remote::{FetchRun, HostConfig, HostFetchOutcome, HostRuntime, HostStatus};
use crate::search;
use vstd::prelude::*;

verus! {

/// Hosts are asked once a minute at most: a longer interval is taken as it is, a shorter one is
/// raised and warned of, and without one it is five minutes.
pub proof fn hosts_are_not_asked_too_often(requested: Option<u64>)
    ensures
        remote::refresh_of(requested) >= 60,
        requested matches Some(secs) ==> remote::refresh_of(requested) >= secs && (secs >= 60
            ==> remote::refresh_of(requested) == secs) && (secs < 60 ==> remote::refresh_of(requested)
            == 60),
        requested is None ==> remote::refresh_of(requested) == 300,
        remote::refresh_warnings(requested).len() == if requested is Some && requested->Some_0 < 60 {
            1nat
        } else {
            0
        },
{
}

/// An entry that names a host other than the local one and says how to reach it.
pub open spec fn is_usable(host: HostConfig) -> bool {
    &&& search::trimmed(host.name@).len() > 0
    &&& search::trimmed(host.ssh@).len() > 0
    &&& search::trimmed(host.name@) != "local"@
}

/// An entry is kept exactly if it is usable and the first usable one of its name; the kept ones keep
/// their order, and each of the others is warned of.
pub proof fn first_entry_of_each_name_counts(hosts: Seq<HostConfig>, warnings: Seq<Seq<char>>)
    ensures
        remote::sifted(hosts, warnings).kept.len() + remote::sifted(hosts, warnings).warnings.len()
            == hosts.len() + warnings.len(),
        forall|k: int|
            0 <= k < hosts.len() && is_usable(#[trigger] hosts[k]) ==> remote::sifted(
                hosts,
                warnings,
            ).names.contains(search::trimmed(hosts[k].name@)),
        remote::sifted(hosts, warnings).kept == firsts(hosts),
        warnings.is_prefix_of(remote::sifted(hosts, warnings).warnings),
    decreases hosts.len(),
{
    if hosts.len() > 0 {
        let shorter = hosts.drop_last();
        let last = hosts.last();
        let before = remote::sifted(shorter, warnings);
        let after = remote::sifted(hosts, warnings);
        first_entry_of_each_name_counts(shorter, warnings);
        names_are_of_the_usable(shorter, warnings);
        assert(hosts[hosts.len() - 1] == last);
        assert forall|k: int| 0 <= k < hosts.len() && is_usable(#[trigger] hosts[k]) implies after.names.contains(
            search::trimmed(hosts[k].name@),
        ) by {
            let name = search::trimmed(hosts[k].name@);
            if k < shorter.len() {
                assert(shorter[k] == hosts[k]);
                assert(before.names.contains(name));
                let j = choose|j: int| 0 <= j < before.names.len() && before.names[j] == name;
                assert(after.names[j] == name);
            } else if !before.names.contains(name) {
                assert(after.names[after.names.len() - 1] == name);
            } else {
                assert(after.names == before.names);
            }
        }
        if is_usable(last) {
            assert(before.names.contains(search::trimmed(last.name@)) <==> is_named(
                shorter,
                search::trimmed(last.name@),
            ));
        }
        assert(warnings =~= after.warnings.subrange(0, warnings.len() as int));
    } else {
        assert(warnings =~= warnings.subrange(0, warnings.len() as int));
    }
}

/// Some usable entry has the name.
pub open spec fn is_named(hosts: Seq<HostConfig>, name: Seq<char>) -> bool {
    exists|i: int|
        0 <= i < hosts.len() && is_usable(#[trigger] hosts[i]) && search::trimmed(hosts[i].name@)
            == name
}

/// The usable entries that no usable one of the same name stands before.
pub open spec fn firsts(hosts: Seq<HostConfig>) -> Seq<HostConfig>
    decreases hosts.len(),
{
    if hosts.len() == 0 {
        hosts
    } else if is_usable(hosts.last()) && !is_named(
        hosts.drop_last(),
        search::trimmed(hosts.last().name@),
    ) {
        firsts(hosts.drop_last()).push(hosts.last())
    } else {
        firsts(hosts.drop_last())
    }
}

proof fn names_are_of_the_usable(hosts: Seq<HostConfig>, warnings: Seq<Seq<char>>)
    ensures
        forall|name: Seq<char>| #[trigger]
            remote::sifted(hosts, warnings).names.contains(name) <==> is_named(hosts, name),
    decreases hosts.len(),
{
    if hosts.len() > 0 {
        let shorter = hosts.drop_last();
        let last = hosts.last();
        let own = search::trimmed(last.name@);
        let before = remote::sifted(shorter, warnings);
        let after = remote::sifted(hosts, warnings);
        names_are_of_the_usable(shorter, warnings);
        assert(hosts[hosts.len() - 1] == last);
        assert forall|name: Seq<char>| #[trigger]
            after.names.contains(name) <==> is_named(hosts, name) by {
            if is_named(hosts, name) {
                let i = choose|i: int|
                    0 <= i < hosts.len() && is_usable(#[trigger] hosts[i]) && search::trimmed(
                        hosts[i].name@,
                    ) == name;
                if i < shorter.len() {
                    assert(shorter[i] == hosts[i]);
                    assert(is_named(shorter, name));
                    assert(before.names.contains(name));
                    let j = choose|j: int| 0 <= j < before.names.len() && before.names[j] == name;
                    assert(after.names[j] == name);
                } else if before.names.contains(name) {
                    assert(after.names == before.names);
                } else {
                    assert(after.names[after.names.len() - 1] == name);
                }
            }
            if after.names.contains(name) {
                if before.names.contains(name) {
                    let i = choose|i: int|
                        0 <= i < shorter.len() && is_usable(#[trigger] shorter[i])
                            && search::trimmed(shorter[i].name@) == name;
                    assert(hosts[i] == shorter[i]);
                } else {
                    let j = choose|j: int| 0 <= j < after.names.len() && after.names[j] == name;
                    assert(after.names != before.names);
                    if j < before.names.len() {
                        assert(before.names[j] == name);
                    }
                    assert(name == own);
                    assert(is_usable(hosts[hosts.len() - 1]));
                }
            }
        }
    } else {
        assert forall|name: Seq<char>| #[trigger]
            remote::sifted(hosts, warnings).names.contains(name) <==> is_named(hosts, name) by {
        }
    }
}

/// A host is asked where its entry says that it is reached, for the file that its entry names; it is
/// never asked for a password, and has five seconds to answer.
pub proof fn hosts_are_asked_for_their_own_file(host: HostConfig)
    ensures
        remote::fetch_words(host).len() == 6,
        remote::fetch_words(host)[4] == host.ssh@,
        remote::fetch_words(host)[5] == "cat "@ + exec::single_quoted(host.db_path@),
        remote::fetch_words(host)[0] == "-o"@,
        remote::fetch_words(host)[1] == "ConnectTimeout=5"@,
        remote::fetch_words(host)[2] == "-o"@,
        remote::fetch_words(host)[3] == "BatchMode=yes"@,
{
    reveal_strlit("ConnectTimeout=5");
    reveal_strlit("ConnectTimeout=");
    reveal_with_fuel(crate::strings::decimal, 2);
    assert(remote::fetch_words(host)[1] =~= "ConnectTimeout=5"@);
}

/// An answer is taken over exactly if the command ran to its end, succeeded, and wrote something.
pub proof fn only_full_answers_are_taken(name: Seq<char>, run: FetchRun)
    ensures
        remote::run_fault(name, run) is None <==> (run matches FetchRun::Exited {
            success,
            has_output,
            ..
        } && success && has_output),
{
}

/// What is said of a host begins with how it stands, and holds the error as it was given.
pub proof fn status_is_told_as_it_stands(status: HostStatus)
    ensures
        status is Online <==> "online "@.is_prefix_of(remote::status_text(status)),
        status is Degraded <==> "degraded: "@.is_prefix_of(remote::status_text(status)),
        status is Offline <==> "offline since "@.is_prefix_of(remote::status_text(status)),
        status matches HostStatus::Degraded { reason } ==> reason@.is_suffix_of(
            remote::status_text(status),
        ),
        status matches HostStatus::Offline { since, last_err } ==> (last_err@ + ")"@).is_suffix_of(
            remote::status_text(status),
        ),
{
    reveal_strlit("online ");
    reveal_strlit("degraded: ");
    reveal_strlit("offline since ");
    reveal_strlit("online (last fetch ");
    reveal_strlit(")");
    reveal_strlit(" (");
    let text = remote::status_text(status);
    match status {
        HostStatus::Online { .. } => {
            assert("online "@ =~= text.subrange(0, 7));
            assert(text[0] == 'o' && text[1] == 'n');
            if "offline since "@.is_prefix_of(text) {
                assert("offline since "@[1] == text.subrange(0, 14)[1]);
            }
            if "degraded: "@.is_prefix_of(text) {
                assert("degraded: "@[0] == text.subrange(0, 10)[0]);
            }
        },
        HostStatus::Degraded { reason } => {
            assert("degraded: "@ =~= text.subrange(0, 10));
            assert(text[0] == 'd');
            if "offline since "@.is_prefix_of(text) {
                assert("offline since "@[0] == text.subrange(0, 14)[0]);
            }
            if "online "@.is_prefix_of(text) {
                assert("online "@[0] == text.subrange(0, 7)[0]);
            }
            assert(reason@ =~= text.subrange(text.len() - reason@.len(), text.len() as int));
        },
        HostStatus::Offline { last_err, .. } => {
            assert("offline since "@ =~= text.subrange(0, 14));
            assert(text[0] == 'o' && text[1] == 'f');
            if "online "@.is_prefix_of(text) {
                assert("online "@[1] == text.subrange(0, 7)[1]);
            }
            if "degraded: "@.is_prefix_of(text) {
                assert("degraded: "@[0] == text.subrange(0, 10)[0]);
            }
            let tail = last_err@ + ")"@;
            assert(tail =~= text.subrange(text.len() - tail.len(), text.len() as int));
        },
    }
}

/// A snapshot of an earlier session is used until the next fetch, if it is usable; without one the
/// host counts as offline, and nothing has failed yet.
pub proof fn earlier_snapshots_are_used(
    host: HostRuntime,
    config: HostConfig,
    remote_dir: Seq<char>,
    usable: bool,
    now: Timestamp,
)
    requires
        host.starts_with(config, remote_dir, usable, now),
    ensures
        host.config == config,
        host.consecutive_failures == 0,
        host.db is Some <==> usable,
        host.status is Degraded <==> usable,
        host.status is Offline <==> !usable,
        usable ==> host.db->Some_0.path@ == exec::path_in(remote_dir, config.name@ + ".db"@),
{
}

/// The outcome of a fetch carries the name of the host and the error exactly if there was one.
pub proof fn outcomes_are_of_their_host(
    outcome: HostFetchOutcome,
    host: HostConfig,
    result: Result<(), String>,
    ts: Timestamp,
)
    requires
        remote::tells_of(outcome, host, result, ts),
    ensures
        outcome.name@ == host.name@,
        outcome.ok <==> result is Ok,
        outcome.err is Some <==> result is Err,
        result is Err ==> outcome.err->Some_0@ == result->Err_0@,
        outcome.ts == ts,
{
}

} // verus!

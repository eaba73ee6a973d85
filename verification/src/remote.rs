//! Messages of other hosts: which hosts there are, and how fetching their messages went.

use crate::clock;
use crate::clock::{to_rfc3339, Timestamp};
use crate::db::Database;
use crate::exec;
use crate::exec::{exit_code_label, join_path, quote_single};
use crate::search;
use crate::search::{position_of, trim};
use crate::strings;
use crate::strings::{concat2, concat3, concat4, concat5, decimal_u64, same_text};
use vstd::prelude::*;

verus! {

/// The name that is kept for this machine.
pub const LOCAL_HOST_ID: &'static str = "local";

/// Seconds between two fetches, if nothing else is said.
pub const DEFAULT_REFRESH_SECS: u64 = 300;

/// The fewest seconds between two fetches.
pub const MIN_REFRESH_SECS: u64 = 60;

/// Seconds in which a connection must be made.
pub const SSH_CONNECT_TIMEOUT_SECS: u64 = 5;

/// Seconds that a fetch may take.
pub const FETCH_TIMEOUT_SECS: u64 = 30;

/// From how many failures in a row on a host counts as offline.
pub const OFFLINE_FAILURE_THRESHOLD: u32 = 3;

/// A host, as the file lists it.
#[derive(Debug, PartialEq, Eq)]
pub struct HostConfig {
    pub name: String,
    pub ssh: String,
    pub db_path: String,
}

/// Where a host keeps its messages, if nothing else is said.
pub fn default_db_path() -> (path: String)
    ensures
        path@ == "~/.agents/agmsg.db"@,
{
    "~/.agents/agmsg.db".to_owned()
}

/// What a file of hosts says.
#[derive(Debug, PartialEq, Eq)]
pub struct RawHosts {
    pub refresh_secs: Option<u64>,
    pub hosts: Vec<HostConfig>,
}

/// The hosts, and how often their messages are fetched.
#[derive(Debug, PartialEq, Eq)]
pub struct HostsFile {
    pub refresh_secs: u64,
    pub hosts: Vec<HostConfig>,
}

/// Where a file of hosts stands: it is missing, cannot be read, or says something.
#[derive(Debug, PartialEq, Eq)]
pub enum HostsRead {
    Missing,
    Broken(String),
    Parsed(RawHosts),
}

/// The seconds between two fetches.
pub open spec fn refresh_of(requested: Option<u64>) -> u64 {
    match requested {
        Some(secs) => if secs < MIN_REFRESH_SECS {
            MIN_REFRESH_SECS
        } else {
            secs
        },
        None => DEFAULT_REFRESH_SECS,
    }
}

/// What is said of the seconds between two fetches.
pub open spec fn refresh_warnings(requested: Option<u64>) -> Seq<Seq<char>> {
    match requested {
        Some(secs) => if secs < MIN_REFRESH_SECS {
            seq![
                "hosts.toml: refresh_secs="@ + strings::decimal(secs as nat)
                    + " below minimum 60, clamped"@,
            ]
        } else {
            Seq::empty()
        },
        None => Seq::empty(),
    }
}

/// The hosts that are kept, with their trimmed names, and what is said of the others.
pub ghost struct Sifted {
    pub kept: Seq<HostConfig>,
    pub names: Seq<Seq<char>>,
    pub warnings: Seq<Seq<char>>,
}

/// What one more host does: it is passed over if it lacks a name or an address, if its name is kept
/// for this machine, or if the name was there before.
pub open spec fn sifted_host(before: Sifted, host: HostConfig) -> Sifted {
    let name = search::trimmed(host.name@);
    if name.len() == 0 || search::trimmed(host.ssh@).len() == 0 {
        Sifted {
            warnings: before.warnings.push(
                "hosts.toml: skipping host entry with empty name/ssh"@,
            ),
            ..before
        }
    } else if name == LOCAL_HOST_ID@ {
        Sifted {
            warnings: before.warnings.push(
                "hosts.toml: host name 'local' is reserved for the local DB, skipping"@,
            ),
            ..before
        }
    } else if before.names.contains(name) {
        Sifted {
            warnings: before.warnings.push(
                "hosts.toml: duplicate host '"@ + name + "', keeping first"@,
            ),
            ..before
        }
    } else {
        Sifted {
            kept: before.kept.push(host),
            names: before.names.push(name),
            warnings: before.warnings,
        }
    }
}

/// What some hosts do, one after the other.
pub open spec fn sifted(hosts: Seq<HostConfig>, warnings: Seq<Seq<char>>) -> Sifted
    decreases hosts.len(),
{
    if hosts.len() == 0 {
        Sifted { kept: Seq::empty(), names: Seq::empty(), warnings }
    } else {
        sifted_host(sifted(hosts.drop_last(), warnings), hosts.last())
    }
}

fn push_warning(warnings: &mut Vec<String>, text: String)
    ensures
        search::texts(final(warnings)@) == search::texts(old(warnings)@).push(text@),
{
    let ghost before = warnings@;
    warnings.push(text);
    proof {
        assert(search::texts(warnings@) =~= search::texts(before).push(text@));
    }
}

fn is_known(names: &Vec<String>, name: &str) -> (known: bool)
    ensures
        known == search::texts(names@).contains(name@),
{
    let found = position_of(names, name);
    proof {
        let texts = search::texts(names@);
        if texts.contains(name@) {
            let i = choose|i: int| 0 <= i < texts.len() && texts[i] == name@;
            assert(names@[i]@ == name@);
        }
        if let Some(index) = found {
            assert(texts[index as int] == name@);
        }
    }
    found.is_some()
}

impl HostsFile {
    fn empty() -> (file: Self)
        ensures
            file.refresh_secs == DEFAULT_REFRESH_SECS,
            file.hosts@.len() == 0,
    {
        HostsFile { refresh_secs: DEFAULT_REFRESH_SECS, hosts: Vec::new() }
    }

    /// The hosts that a file lists, and what there is to say about the file. Without a file there
    /// are none, silently; what cannot be used is passed over.
    pub fn load(read: HostsRead, path: &str) -> (loaded: (HostsFile, Vec<String>))
        ensures
            match read {
                HostsRead::Missing => {
                    &&& loaded.0.refresh_secs == DEFAULT_REFRESH_SECS
                    &&& loaded.0.hosts@.len() == 0
                    &&& loaded.1@.len() == 0
                },
                HostsRead::Broken(error) => {
                    &&& loaded.0.refresh_secs == DEFAULT_REFRESH_SECS
                    &&& loaded.0.hosts@.len() == 0
                    &&& search::texts(loaded.1@) == seq![
                        "hosts.toml: could not parse "@ + path@ + " ("@ + error@
                            + "); local-only mode"@,
                    ]
                },
                HostsRead::Parsed(raw) => {
                    let all = sifted(raw.hosts@, refresh_warnings(raw.refresh_secs));
                    &&& loaded.0.refresh_secs == refresh_of(raw.refresh_secs)
                    &&& loaded.0.hosts@ == all.kept
                    &&& search::texts(loaded.1@) == all.warnings
                },
            },
    {
        let mut warnings: Vec<String> = Vec::new();
        proof {
            assert(search::texts(warnings@) =~= Seq::empty());
        }
        let raw = match read {
            HostsRead::Missing => {
                return (HostsFile::empty(), warnings);
            },
            HostsRead::Broken(error) => {
                push_warning(
                    &mut warnings,
                    concat5(
                        "hosts.toml: could not parse ",
                        path,
                        " (",
                        error.as_str(),
                        "); local-only mode",
                    ),
                );
                proof {
                    assert(search::texts(warnings@) =~= seq![
                        "hosts.toml: could not parse "@ + path@ + " ("@ + error@
                            + "); local-only mode"@,
                    ]);
                }
                return (HostsFile::empty(), warnings);
            },
            HostsRead::Parsed(raw) => raw,
        };
        let refresh_secs: u64 = match raw.refresh_secs {
            Some(secs) => if secs < MIN_REFRESH_SECS {
                let number = decimal_u64(secs);
                push_warning(
                    &mut warnings,
                    concat3(
                        "hosts.toml: refresh_secs=",
                        number.as_str(),
                        " below minimum 60, clamped",
                    ),
                );
                MIN_REFRESH_SECS
            } else {
                secs
            },
            None => DEFAULT_REFRESH_SECS,
        };
        let ghost first = refresh_warnings(raw.refresh_secs);
        proof {
            assert(search::texts(warnings@) =~= first);
        }
        let ghost all = raw.hosts@;
        let mut hosts: Vec<HostConfig> = Vec::new();
        let mut names: Vec<String> = Vec::new();
        proof {
            assert(all.take(0) =~= Seq::empty());
            assert(search::texts(names@) =~= Seq::empty());
        }
        for host in it: raw.hosts
            invariant
                it.seq() == all,
                ({
                    let before = sifted(all.take(it.index() as int), first);
                    &&& hosts@ == before.kept
                    &&& search::texts(names@) == before.names
                    &&& search::texts(warnings@) == before.warnings
                }),
        {
            proof {
                assert(all.take(it.index() + 1).drop_last() =~= all.take(it.index() as int));
            }
            let name = trim(host.name.as_str());
            if name.as_str().is_empty() || trim(host.ssh.as_str()).as_str().is_empty() {
                push_warning(
                    &mut warnings,
                    "hosts.toml: skipping host entry with empty name/ssh".to_owned(),
                );
            } else if same_text(name.as_str(), LOCAL_HOST_ID) {
                push_warning(
                    &mut warnings,
                    "hosts.toml: host name 'local' is reserved for the local DB, skipping".to_owned(),
                );
            } else if is_known(&names, name.as_str()) {
                push_warning(
                    &mut warnings,
                    concat3("hosts.toml: duplicate host '", name.as_str(), "', keeping first"),
                );
            } else {
                push_warning(&mut names, name);
                hosts.push(host);
            }
        }
        proof {
            assert(all.take(all.len() as int) =~= all);
        }
        (HostsFile { refresh_secs, hosts }, warnings)
    }
}

/// The names are those of the hosts, no name occurs twice, and none is empty or kept for this
/// machine.
pub open spec fn names_are_sound(hosts: Seq<HostConfig>, names: Seq<Seq<char>>) -> bool {
    &&& names.len() == hosts.len()
    &&& forall|i: int|
        0 <= i < hosts.len() ==> search::trimmed((#[trigger] hosts[i]).name@) == names[i]
    &&& names.no_duplicates()
    &&& forall|i: int|
        0 <= i < names.len() ==> (#[trigger] names[i]).len() > 0 && names[i] != LOCAL_HOST_ID@
}

/// The hosts that are kept have names that tell them apart from each other and from this machine.
pub proof fn hosts_are_told_apart(hosts: Seq<HostConfig>, warnings: Seq<Seq<char>>)
    ensures
        names_are_sound(sifted(hosts, warnings).kept, sifted(hosts, warnings).names),
    decreases hosts.len(),
{
    if hosts.len() > 0 {
        hosts_are_told_apart(hosts.drop_last(), warnings);
        let before = sifted(hosts.drop_last(), warnings);
        let after = sifted(hosts, warnings);
        let name = search::trimmed(hosts.last().name@);
        if after.names == before.names.push(name) && !before.names.contains(name) {
            assert forall|i: int, j: int|
                0 <= i < after.names.len() && 0 <= j < after.names.len() && i
                    != j implies after.names[i] != after.names[j] by {
                if i < before.names.len() && j == before.names.len() {
                    assert(before.names.contains(before.names[i]));
                }
                if j < before.names.len() && i == before.names.len() {
                    assert(before.names.contains(before.names[j]));
                }
            }
        }
    }
}

/// How fetching from a host goes.
#[derive(Debug, PartialEq, Eq)]
pub enum HostStatus {
    Online { fetched_at: Timestamp },
    Degraded { reason: String },
    Offline { since: Timestamp, last_err: String },
}

impl HostStatus {
    /// Whether the host is offline.
    pub fn is_offline(&self) -> (offline: bool)
        ensures
            offline == (*self is Offline),
    {
        match self {
            HostStatus::Offline { .. } => true,
            _ => false,
        }
    }
}

/// How one fetch went.
#[derive(Debug, PartialEq, Eq)]
pub struct HostFetchOutcome {
    pub name: String,
    pub ok: bool,
    pub err: Option<String>,
    pub ts: Timestamp,
}

/// A host, how fetching from it goes, and the messages that were fetched last.
#[derive(Debug, PartialEq, Eq)]
pub struct HostRuntime {
    pub config: HostConfig,
    pub status: HostStatus,
    pub db: Option<Database>,
    pub consecutive_failures: u32,
}

/// Where the messages of a host are kept.
pub open spec fn snapshot_place(remote_dir: Seq<char>, name: Seq<char>) -> Seq<char> {
    exec::path_in(remote_dir, name + ".db"@)
}

/// Where the messages of a host are kept.
pub fn snapshot_path(remote_dir: &str, name: &str) -> (path: String)
    ensures
        path@ == snapshot_place(remote_dir@, name@),
{
    let file = concat2(name, ".db");
    join_path(remote_dir, file.as_str())
}

/// Where the messages of a host are put until they are checked.
pub fn snapshot_tmp_path(remote_dir: &str, name: &str) -> (path: String)
    ensures
        path@ == exec::path_in(remote_dir@, name@ + ".db.tmp"@),
{
    let file = concat2(name, ".db.tmp");
    join_path(remote_dir, file.as_str())
}

/// A directory that does not exist: other hosts have no team directories here.
pub fn empty_teams_dir() -> (path: String)
    ensures
        path@ == "/nonexistent/agmsg-tui-remote-teams-dir"@,
{
    "/nonexistent/agmsg-tui-remote-teams-dir".to_owned()
}

/// Where the fetched messages are, if there are any.
pub open spec fn kept_place(db: Option<Database>) -> Option<Seq<char>> {
    match db {
        Some(database) => Some(database.path@),
        None => None,
    }
}

/// The status after a fetch failed for the n-th time in a row.
pub open spec fn failed_status(
    failures: u32,
    err: Option<String>,
    ts: Timestamp,
    status: HostStatus,
) -> bool {
    let text = match err {
        Some(err) => err@,
        None => "unknown error"@,
    };
    if failures >= OFFLINE_FAILURE_THRESHOLD {
        status matches HostStatus::Offline { since, last_err } && since == ts && last_err@ == text
    } else {
        status matches HostStatus::Degraded { reason } && reason@ == text
    }
}

/// What noting how a fetch went makes of a host: a failure leaves the messages that were fetched
/// before.
pub open spec fn outcome_noted(
    before: HostRuntime,
    outcome: HostFetchOutcome,
    remote_dir: Seq<char>,
    after: HostRuntime,
) -> bool {
    &&& after.config == before.config
    &&& if outcome.ok {
        &&& after.consecutive_failures == 0
        &&& after.status == (HostStatus::Online { fetched_at: outcome.ts })
        &&& kept_place(after.db) == Some(snapshot_place(remote_dir, before.config.name@))
    } else {
        &&& after.consecutive_failures == more_failures(before.consecutive_failures)
        &&& failed_status(after.consecutive_failures, outcome.err, outcome.ts, after.status)
        &&& after.db == before.db
    }
}

impl HostRuntime {
    /// A host from which nothing was fetched yet.
    pub open spec fn is_new(self, config: HostConfig, now: Timestamp) -> bool {
        self.starts_with(config, Seq::empty(), false, now)
    }

    /// The host at the beginning of a session: with the snapshot of an earlier one if that is usable,
    /// and without any otherwise.
    pub open spec fn starts_with(
        self,
        config: HostConfig,
        remote_dir: Seq<char>,
        usable: bool,
        now: Timestamp,
    ) -> bool {
        &&& self.config == config
        &&& self.consecutive_failures == 0
        &&& usable ==> {
            &&& self.status matches HostStatus::Degraded { reason } && reason@
                == "snapshot from previous session, awaiting refresh"@
            &&& kept_place(self.db) == Some(snapshot_place(remote_dir, config.name@))
        }
        &&& !usable ==> {
            &&& self.status matches HostStatus::Offline { since, last_err } && since == now
                && last_err@ == "not fetched yet"@
            &&& self.db is None
        }
    }

    /// A host from which nothing was fetched yet.
    pub fn new(config: HostConfig, now: Timestamp) -> (host: Self)
        ensures
            host.is_new(config, now),
    {
        HostRuntime {
            config,
            status: HostStatus::Offline { since: now, last_err: "not fetched yet".to_owned() },
            db: None,
            consecutive_failures: 0,
        }
    }

    /// A host whose messages may have been fetched before: if they are there and pass the check,
    /// they are shown until the next fetch.
    pub fn from_existing_snapshot(
        config: HostConfig,
        remote_dir: &str,
        usable: bool,
        now: Timestamp,
    ) -> (host: Self)
        ensures
            host.starts_with(config, remote_dir@, usable, now),
    {
        let mut host = HostRuntime::new(config, now);
        if usable {
            let path = snapshot_path(remote_dir, host.config.name.as_str());
            host.status =
            HostStatus::Degraded {
                reason: "snapshot from previous session, awaiting refresh".to_owned(),
            };
            host.db = Some(Database::new(path));
        }
        host
    }

    /// Notes how a fetch went. A failure leaves the messages that were fetched before; enough of
    /// them in a row take the host offline, and a success brings it back at once.
    pub fn apply_outcome(&mut self, outcome: &HostFetchOutcome, remote_dir: &str)
        ensures
            outcome_noted(*old(self), *outcome, remote_dir@, *final(self)),
    {
        if outcome.ok {
            self.consecutive_failures = 0;
            self.status = HostStatus::Online { fetched_at: outcome.ts };
            let path = snapshot_path(remote_dir, self.config.name.as_str());
            self.db = Some(Database::new(path));
            return ;
        }
        if self.consecutive_failures < u32::MAX {
            self.consecutive_failures = self.consecutive_failures + 1;
        }
        let text = match &outcome.err {
            Some(err) => err.clone(),
            None => "unknown error".to_owned(),
        };
        if self.consecutive_failures >= OFFLINE_FAILURE_THRESHOLD {
            self.status = HostStatus::Offline { since: outcome.ts, last_err: text };
        } else {
            self.status = HostStatus::Degraded { reason: text };
        }
    }
}

/// One failure more.
pub open spec fn more_failures(failures: u32) -> u32 {
    if failures < u32::MAX {
        (failures + 1) as u32
    } else {
        failures
    }
}

/// The failures in a row after some outcomes.
pub open spec fn failures_after(failures: u32, outcomes: Seq<bool>) -> u32
    decreases outcomes.len(),
{
    if outcomes.len() == 0 {
        failures
    } else if outcomes.last() {
        0
    } else {
        more_failures(failures_after(failures, outcomes.drop_last()))
    }
}

/// Three failures in a row take a host offline whatever came before, and a success brings it back
/// at once.
pub proof fn three_failures_take_a_host_offline(failures: u32, outcomes: Seq<bool>)
    ensures
        failures_after(failures, outcomes.push(false).push(false).push(false))
            >= OFFLINE_FAILURE_THRESHOLD,
        failures_after(failures, outcomes.push(true)) == 0,
        failures_after(failures, outcomes.push(true).push(false)) < OFFLINE_FAILURE_THRESHOLD,
        failures_after(failures, outcomes.push(true).push(false).push(false))
            < OFFLINE_FAILURE_THRESHOLD,
{
    let one = outcomes.push(false);
    let two = one.push(false);
    assert(one.drop_last() =~= outcomes);
    assert(two.drop_last() =~= one);
    assert(two.push(false).drop_last() =~= two);
    assert(failures_after(failures, one) == more_failures(failures_after(failures, outcomes)));
    assert(failures_after(failures, two) == more_failures(failures_after(failures, one)));
    let good = outcomes.push(true);
    assert(good.push(false).drop_last() =~= good);
    assert(good.push(false).push(false).drop_last() =~= good.push(false));
}

/// The host passed through the states as the outcomes were noted one after the other.
pub open spec fn outcomes_noted(
    states: Seq<HostRuntime>,
    outcomes: Seq<HostFetchOutcome>,
    remote_dir: Seq<char>,
) -> bool {
    &&& states.len() == outcomes.len() + 1
    &&& forall|i: int|
        0 <= i < outcomes.len() ==> outcome_noted(
            states[i],
            #[trigger] outcomes[i],
            remote_dir,
            states[i + 1],
        )
}

/// The failures since the last success.
pub open spec fn failures_at_end(outcomes: Seq<HostFetchOutcome>) -> nat
    decreases outcomes.len(),
{
    if outcomes.len() == 0 || outcomes.last().ok {
        0
    } else {
        failures_at_end(outcomes.drop_last()) + 1
    }
}

/// The host as the outcomes so far leave it, the last one decided by how many failures there were
/// since the last success.
pub open spec fn follows_outcomes(
    host: HostRuntime,
    config: HostConfig,
    outcomes: Seq<HostFetchOutcome>,
    remote_dir: Seq<char>,
) -> bool {
    let last = outcomes.last();
    let failures = failures_at_end(outcomes);
    let text = match last.err {
        Some(err) => err@,
        None => "unknown error"@,
    };
    &&& host.config == config
    &&& failures == 0 ==> host.status == (HostStatus::Online { fetched_at: last.ts })
    &&& 0 < failures < 3 ==> (host.status matches HostStatus::Degraded { reason } && reason@
        == text)
    &&& failures >= 3 ==> (host.status matches HostStatus::Offline { since, last_err } && since
        == last.ts && last_err@ == text)
    &&& kept_place(host.db) == if exists|i: int|
        0 <= i < outcomes.len() && (#[trigger] outcomes[i]).ok {
        Some(snapshot_place(remote_dir, config.name@))
    } else {
        None
    }
}

/// A host that began with nothing fetched is online after a success, degraded after one failure or
/// two since the last success, and offline from the third on; its messages are there as soon as
/// one fetch has succeeded, and stay.
pub proof fn status_follows_the_outcomes(
    states: Seq<HostRuntime>,
    outcomes: Seq<HostFetchOutcome>,
    remote_dir: Seq<char>,
    config: HostConfig,
    now: Timestamp,
)
    requires
        outcomes.len() >= 1,
        outcomes_noted(states, outcomes, remote_dir),
        states[0].is_new(config, now),
    ensures
        follows_outcomes(states.last(), config, outcomes, remote_dir),
        states.last().db is Some <==> exists|i: int|
            0 <= i < outcomes.len() && (#[trigger] outcomes[i]).ok,
{
    state_after_outcomes(states, outcomes, remote_dir, config, now);
}

proof fn state_after_outcomes(
    states: Seq<HostRuntime>,
    outcomes: Seq<HostFetchOutcome>,
    remote_dir: Seq<char>,
    config: HostConfig,
    now: Timestamp,
)
    requires
        outcomes_noted(states, outcomes, remote_dir),
        states[0].is_new(config, now),
    ensures
        states.last().config == config,
        states.last().consecutive_failures == if failures_at_end(outcomes) < u32::MAX {
            failures_at_end(outcomes)
        } else {
            u32::MAX as nat
        },
        outcomes.len() > 0 ==> follows_outcomes(states.last(), config, outcomes, remote_dir),
        outcomes.len() == 0 ==> states.last().db is None,
    decreases outcomes.len(),
{
    if outcomes.len() > 0 {
        let earlier = outcomes.drop_last();
        let passed = states.drop_last();
        let last = outcomes.last();
        assert forall|i: int| 0 <= i < earlier.len() implies outcome_noted(
            passed[i],
            #[trigger] earlier[i],
            remote_dir,
            passed[i + 1],
        ) by {
            assert(outcomes[i] == earlier[i]);
        }
        state_after_outcomes(passed, earlier, remote_dir, config, now);
        let end = outcomes.len() - 1;
        assert(outcome_noted(states[end], outcomes[end], remote_dir, states[end + 1]));
        if last.ok {
            assert(outcomes[end].ok);
        } else {
            if exists|i: int| 0 <= i < earlier.len() && (#[trigger] earlier[i]).ok {
                let i = choose|i: int| 0 <= i < earlier.len() && (#[trigger] earlier[i]).ok;
                assert(outcomes[i].ok);
            }
            if exists|i: int| 0 <= i < outcomes.len() && (#[trigger] outcomes[i]).ok {
                let i = choose|i: int| 0 <= i < outcomes.len() && (#[trigger] outcomes[i]).ok;
                assert(earlier[i].ok);
            }
        }
    }
}

/// The words of the call that prints the messages of a host.
pub open spec fn fetch_words(host: HostConfig) -> Seq<Seq<char>> {
    seq![
        "-o"@,
        "ConnectTimeout="@ + strings::decimal(SSH_CONNECT_TIMEOUT_SECS as nat),
        "-o"@,
        "BatchMode=yes"@,
        host.ssh@,
        "cat "@ + exec::single_quoted(host.db_path@),
    ]
}

/// The words of the call that prints the messages of a host.
pub fn fetch_args(host: &HostConfig) -> (args: Vec<String>)
    ensures
        search::texts(args@) == fetch_words(*host),
{
    let seconds = decimal_u64(SSH_CONNECT_TIMEOUT_SECS);
    let path = quote_single(host.db_path.as_str());
    let mut args: Vec<String> = Vec::new();
    args.push("-o".to_owned());
    args.push(concat2("ConnectTimeout=", seconds.as_str()));
    args.push("-o".to_owned());
    args.push("BatchMode=yes".to_owned());
    args.push(host.ssh.clone());
    args.push(concat2("cat ", path.as_str()));
    proof {
        assert(search::texts(args@) =~= fetch_words(*host));
    }
    args
}

/// What came of running the call that prints the messages of a host.
#[derive(Debug, PartialEq, Eq)]
pub enum FetchRun {
    NotRun,
    TimedOut,
    Exited { success: bool, code: Option<i32>, has_output: bool, stderr: String },
}

/// What is wrong with a run, if anything is.
pub open spec fn run_fault(name: Seq<char>, run: FetchRun) -> Option<Seq<char>> {
    match run {
        FetchRun::NotRun => Some("host '"@ + name + "' の fetch を実行できません"@),
        FetchRun::TimedOut => Some("timeout: host '"@ + name + "' snapshot fetch (30s)"@),
        FetchRun::Exited { success, code, has_output, stderr } => if !success {
            Some("ssh/fetch exited "@ + exec::exit_code_text(code) + ": "@ + search::trimmed(stderr@))
        } else if !has_output {
            Some(
                "empty snapshot for host '"@ + name + "' (remote db missing or unreadable)"@,
            )
        } else {
            None
        },
    }
}

/// Decides whether what a run printed may be put aside to be checked.
pub fn accept_run(name: &str, run: &FetchRun) -> (result: Result<(), String>)
    ensures
        match result {
            Ok(_) => run_fault(name@, *run) is None,
            Err(error) => run_fault(name@, *run) == Some(error@),
        },
{
    match run {
        FetchRun::NotRun => Err(concat3("host '", name, "' の fetch を実行できません")),
        FetchRun::TimedOut => Err(concat3("timeout: host '", name, "' snapshot fetch (30s)")),
        FetchRun::Exited { success, code, has_output, stderr } => {
            if !*success {
                let shown = exit_code_label(*code);
                let said = trim(stderr.as_str());
                Err(concat4("ssh/fetch exited ", shown.as_str(), ": ", said.as_str()))
            } else if !*has_output {
                Err(
                    concat3(
                        "empty snapshot for host '",
                        name,
                        "' (remote db missing or unreadable)",
                    ),
                )
            } else {
                Ok(())
            }
        },
    }
}

/// Whether the store found its file sound.
pub fn quick_check(answer: &str) -> (result: Result<(), String>)
    ensures
        match result {
            Ok(_) => answer@ == "ok"@,
            Err(error) => answer@ != "ok"@ && error@ == "quick_check returned '"@ + answer@ + "'"@,
        },
{
    if same_text(answer, "ok") {
        Ok(())
    } else {
        Err(concat3("quick_check returned '", answer, "'"))
    }
}

/// Decides whether checked messages take the place of those that were fetched before.
pub fn promote_snapshot(name: &str, check: Result<(), String>) -> (result: Result<(), String>)
    ensures
        match check {
            Ok(_) => result is Ok,
            Err(error) => result matches Err(text) && text@ == "quick_check failed for host '"@
                + name@ + "': "@ + error@ + "; keeping previous snapshot"@,
        },
{
    match check {
        Ok(_) => Ok(()),
        Err(error) => Err(
            concat5(
                "quick_check failed for host '",
                name,
                "': ",
                error.as_str(),
                "; keeping previous snapshot",
            ),
        ),
    }
}

/// The outcome tells of a host what came of its fetch, and when.
pub open spec fn tells_of(
    outcome: HostFetchOutcome,
    host: HostConfig,
    result: Result<(), String>,
    ts: Timestamp,
) -> bool {
    &&& outcome.name@ == host.name@
    &&& outcome.ok == (result is Ok)
    &&& strings::held(outcome.err) == match result {
        Ok(_) => None,
        Err(error) => Some(error@),
    }
    &&& outcome.ts == ts
}

/// How a fetch went.
pub fn fetch_outcome(host: &HostConfig, result: Result<(), String>, ts: Timestamp) -> (outcome:
    HostFetchOutcome)
    ensures
        tells_of(outcome, *host, result, ts),
{
    let name = host.name.clone();
    match result {
        Ok(_) => HostFetchOutcome { name, ok: true, err: None, ts },
        Err(error) => HostFetchOutcome { name, ok: false, err: Some(error), ts },
    }
}

/// The seconds between two fetches in the background.
pub fn fetch_interval(refresh_secs: u64) -> (secs: u64)
    ensures
        secs == refresh_of(Some(refresh_secs)),
{
    if refresh_secs < MIN_REFRESH_SECS {
        MIN_REFRESH_SECS
    } else {
        refresh_secs
    }
}

/// A status can be shown: its time is on the calendar.
pub open spec fn status_wf(status: HostStatus) -> bool {
    match status {
        HostStatus::Online { fetched_at } => fetched_at.wf(),
        HostStatus::Degraded { .. } => true,
        HostStatus::Offline { since, .. } => since.wf(),
    }
}

/// How a status is shown.
pub open spec fn status_text(status: HostStatus) -> Seq<char> {
    match status {
        HostStatus::Online { fetched_at } => "online (last fetch "@ + clock::rfc3339_text(
            fetched_at.secs,
            fetched_at.nanos,
        ) + ")"@,
        HostStatus::Degraded { reason } => "degraded: "@ + reason@,
        HostStatus::Offline { since, last_err } => "offline since "@ + clock::rfc3339_text(
            since.secs,
            since.nanos,
        ) + " ("@ + last_err@ + ")"@,
    }
}

/// How a status is shown.
pub fn status_label(status: &HostStatus) -> (label: String)
    requires
        status_wf(*status),
    ensures
        label@ == status_text(*status),
{
    match status {
        HostStatus::Online { fetched_at } => {
            let time = to_rfc3339(*fetched_at);
            concat3("online (last fetch ", time.as_str(), ")")
        },
        HostStatus::Degraded { reason } => concat2("degraded: ", reason.as_str()),
        HostStatus::Offline { since, last_err } => {
            let time = to_rfc3339(*since);
            concat5("offline since ", time.as_str(), " (", last_err.as_str(), ")")
        },
    }
}

/// The name and the status of each host.
pub fn host_status_rows(hosts: &Vec<HostRuntime>) -> (rows: Vec<(String, String)>)
    requires
        forall|i: int| 0 <= i < hosts@.len() ==> status_wf((#[trigger] hosts@[i]).status),
    ensures
        rows@.len() == hosts@.len(),
        forall|i: int|
            0 <= i < rows@.len() ==> (#[trigger] rows@[i]).0@ == hosts@[i].config.name@
                && rows@[i].1@ == status_text(hosts@[i].status),
{
    let mut rows: Vec<(String, String)> = Vec::new();
    let mut index: usize = 0;
    while index < hosts.len()
        invariant
            index <= hosts@.len(),
            forall|i: int| 0 <= i < hosts@.len() ==> status_wf((#[trigger] hosts@[i]).status),
            rows@.len() == index,
            forall|i: int|
                0 <= i < index ==> (#[trigger] rows@[i]).0@ == hosts@[i].config.name@
                    && rows@[i].1@ == status_text(hosts@[i].status),
        decreases hosts@.len() - index,
    {
        let label = status_label(&hosts[index].status);
        rows.push((hosts[index].config.name.clone(), label));
        index += 1;
    }
    rows
}

} // verus!

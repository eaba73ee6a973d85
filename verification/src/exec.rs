//! The scripts that do all writing: how each one is called, and what its outcome means.

use crate::search;
use crate::search::{join, replace_char, trim};
use crate::strings;
use crate::strings::{chars_of, concat3, concat5, decimal_u64};
use vstd::prelude::*;

verus! {

/// How long a script may run, in nanoseconds.
pub const SCRIPT_TIMEOUT: u64 = 10_000_000_000;

/// How long the despawn script may run: it waits for the remote watcher to release its lock.
pub const DESPAWN_TIMEOUT: u64 = 30_000_000_000;

/// The outcome of a command that ran to its end.
#[derive(Debug, PartialEq, Eq)]
pub struct CommandResult {
    pub success: bool,
    pub exit_code: Option<i32>,
    pub stdout: String,
    pub stderr: String,
}

impl Clone for CommandResult {
    fn clone(&self) -> (copy: Self)
        ensures
            copy == *self,
    {
        CommandResult {
            success: self.success,
            exit_code: self.exit_code,
            stdout: self.stdout.clone(),
            stderr: self.stderr.clone(),
        }
    }
}

impl CommandResult {
    /// The outcome of a command from its exit status and what it wrote; the white space around its
    /// output is dropped.
    pub fn from_output(success: bool, exit_code: Option<i32>, stdout: &str, stderr: &str) -> (result:
        Self)
        ensures
            result.success == success,
            result.exit_code == exit_code,
            result.stdout@ == search::trimmed(stdout@),
            result.stderr@ == search::trimmed(stderr@),
    {
        CommandResult { success, exit_code, stdout: trim(stdout), stderr: trim(stderr) }
    }
}

/// The exit code in the form `Some(1)` or `None`.
pub open spec fn exit_code_text(code: Option<i32>) -> Seq<char> {
    match code {
        Some(code) => "Some("@ + strings::signed_decimal(code as int) + ")"@,
        None => "None"@,
    }
}

/// The exit code in the form `Some(1)` or `None`.
pub fn exit_code_label(code: Option<i32>) -> (text: String)
    ensures
        text@ == exit_code_text(code),
{
    match code {
        Some(code) => {
            let digits = strings::decimal_i64(code as i64);
            concat3("Some(", digits.as_str(), ")")
        },
        None => "None".to_owned(),
    }
}

/// One call of a script: the path of the script, its arguments, the variables added to its
/// environment, and how long it may run.
#[derive(Debug, PartialEq, Eq)]
pub struct ScriptCall {
    pub path: String,
    pub name: String,
    pub args: Vec<String>,
    pub envs: Vec<(String, String)>,
    pub timeout: u64,
}

/// A file as seen from a directory: one that begins with `/` stands for itself.
pub open spec fn path_in(directory: Seq<char>, file: Seq<char>) -> Seq<char> {
    if directory.len() == 0 || (file.len() > 0 && file[0] == '/') {
        file
    } else if directory.last() == '/' {
        directory + file
    } else {
        directory.push('/') + file
    }
}

/// The path of a file as seen from a directory.
pub fn join_path(directory: &str, file: &str) -> (path: String)
    ensures
        path@ == path_in(directory@, file@),
{
    let chars = chars_of(directory);
    let tail = chars_of(file);
    if tail.len() > 0 && tail[0] == '/' {
        return file.to_owned();
    }
    let mut path = directory.to_owned();
    if chars.len() > 0 && chars[chars.len() - 1] != '/' {
        path.push('/');
    }
    path.append(file);
    proof {
        if directory@.len() == 0 {
            assert(directory@ + file@ =~= file@);
        }
    }
    path
}

/// The call is of the script `name` in the directory, with the arguments, no added variables and
/// the given time limit.
pub open spec fn plain_call(
    call: ScriptCall,
    directory: Seq<char>,
    name: Seq<char>,
    args: Seq<Seq<char>>,
    timeout: u64,
) -> bool {
    &&& call.path@ == path_in(directory, name)
    &&& call.name@ == name
    &&& search::texts(call.args@) == args
    &&& call.envs@.len() == 0
    &&& call.timeout == timeout
}

fn args1(a: &str) -> (args: Vec<String>)
    ensures
        search::texts(args@) == seq![a@],
{
    let mut args: Vec<String> = Vec::new();
    args.push(a.to_owned());
    proof {
        assert(search::texts(args@) =~= seq![a@]);
    }
    args
}

fn args2(a: &str, b: &str) -> (args: Vec<String>)
    ensures
        search::texts(args@) == seq![a@, b@],
{
    let mut args = args1(a);
    add_arg(&mut args, b);
    proof {
        assert(seq![a@].push(b@) =~= seq![a@, b@]);
    }
    args
}

fn args3(a: &str, b: &str, c: &str) -> (args: Vec<String>)
    ensures
        search::texts(args@) == seq![a@, b@, c@],
{
    let mut args = args2(a, b);
    add_arg(&mut args, c);
    proof {
        assert(seq![a@, b@].push(c@) =~= seq![a@, b@, c@]);
    }
    args
}

fn add_arg(args: &mut Vec<String>, arg: &str)
    ensures
        search::texts(final(args)@) == search::texts(old(args)@).push(arg@),
{
    let ghost before = args@;
    args.push(arg.to_owned());
    proof {
        assert(search::texts(args@) =~= search::texts(before).push(arg@));
    }
}

/// Where the scripts are and how long they may run.
#[derive(Debug, PartialEq, Eq)]
pub struct ScriptRunner {
    pub scripts_dir: String,
    pub audit_script: String,
    pub timeout: u64,
}

impl Clone for ScriptRunner {
    fn clone(&self) -> (copy: Self)
        ensures
            copy == *self,
    {
        ScriptRunner {
            scripts_dir: self.scripts_dir.clone(),
            audit_script: self.audit_script.clone(),
            timeout: self.timeout,
        }
    }
}

impl ScriptRunner {
    /// The scripts of a directory, and the audit script, with the usual time limit.
    pub fn new(scripts_dir: String, audit_script: String) -> (runner: Self)
        ensures
            runner.scripts_dir == scripts_dir,
            runner.audit_script == audit_script,
            runner.timeout == SCRIPT_TIMEOUT,
    {
        ScriptRunner { scripts_dir, audit_script, timeout: SCRIPT_TIMEOUT }
    }

    /// The same scripts with another time limit.
    pub fn with_timeout(self, timeout: u64) -> (runner: Self)
        ensures
            runner == (ScriptRunner { timeout, ..self }),
    {
        ScriptRunner { timeout, ..self }
    }

    fn call(&self, name: &str, args: Vec<String>) -> (call: ScriptCall)
        ensures
            plain_call(
                call,
                self.scripts_dir@,
                name@,
                search::texts(args@),
                self.timeout,
            ),
    {
        ScriptCall {
            path: join_path(self.scripts_dir.as_str(), name),
            name: name.to_owned(),
            args,
            envs: Vec::new(),
            timeout: self.timeout,
        }
    }

    /// Runs the audit: its report as JSON, with proposals for what it finds.
    pub fn audit(&self) -> (call: ScriptCall)
        ensures
            audit_call(*self, call),
    {
        ScriptCall {
            path: self.audit_script.clone(),
            name: file_name(self.audit_script.as_str()),
            args: args2("--json", "--fix"),
            envs: Vec::new(),
            timeout: self.timeout,
        }
    }

    /// Asks for the delivery mode of an agent type in a project.
    pub fn delivery_status(&self, agent_type: &str, project: &str) -> (call: ScriptCall)
        ensures
            status_call(*self, agent_type@, project@, call),
    {
        self.call("delivery.sh", args3("status", agent_type, project))
    }

    /// Asks which of some processes are alive; there is nothing to ask of an empty list.
    pub fn process_status(&self, pids: &Vec<u32>) -> (call: Option<ScriptCall>)
        ensures
            call is None <==> pids@.len() == 0,
            call matches Some(call) ==> process_call(*self, pids@, call),
    {
        if pids.len() == 0 {
            return None;
        }
        let mut parts: Vec<String> = Vec::new();
        let mut index: usize = 0;
        proof {
            assert(search::texts(parts@) =~= pid_texts(pids@.take(0)));
        }
        while index < pids.len()
            invariant
                index <= pids@.len(),
                search::texts(parts@) == pid_texts(pids@.take(index as int)),
            decreases pids@.len() - index,
        {
            let ghost before = parts@;
            let digits = decimal_u64(pids[index] as u64);
            parts.push(digits);
            index += 1;
            proof {
                assert(search::texts(parts@) =~= search::texts(before).push(
                    strings::decimal(pids@[index - 1] as nat),
                ));
                assert(pid_texts(pids@.take(index as int)) =~= pid_texts(
                    pids@.take(index - 1),
                ).push(strings::decimal(pids@[index - 1] as nat)));
            }
        }
        proof {
            assert(pids@.take(index as int) =~= pids@);
        }
        let list = join(&parts, ",");
        let mut args = args3("-p", list.as_str(), "-o");
        add_arg(&mut args, "pid=");
        proof {
            assert(search::texts(args@) =~= seq!["-p"@, list@, "-o"@, "pid="@]);
        }
        Some(
            ScriptCall {
                path: "/bin/ps".to_owned(),
                name: "ps".to_owned(),
                args,
                envs: Vec::new(),
                timeout: self.timeout,
            },
        )
    }

    /// Sends a message.
    pub fn send(&self, team: &str, from: &str, to: &str, body: &str) -> (call: ScriptCall)
        ensures
            plain_call(
                call,
                self.scripts_dir@,
                "send.sh"@,
                seq![team@, from@, to@, body@],
                self.timeout,
            ),
    {
        let mut args = args3(team, from, to);
        add_arg(&mut args, body);
        proof {
            assert(search::texts(args@) =~= seq![team@, from@, to@, body@]);
        }
        self.call("send.sh", args)
    }

    /// Marks everything read that is addressed to a recipient.
    pub fn mark_recipient_read(&self, team: &str, recipient: &str) -> (call: ScriptCall)
        ensures
            plain_call(
                call,
                self.scripts_dir@,
                "inbox.sh"@,
                seq![team@, recipient@, "--quiet"@],
                self.timeout,
            ),
    {
        self.call("inbox.sh", args3(team, recipient, "--quiet"))
    }

    /// Spawns an agent, never waiting for it to be ready.
    pub fn spawn(&self, team: &str, agent_type: &str, name: &str, options: &Vec<String>) -> (call:
        ScriptCall)
        ensures
            plain_call(
                call,
                self.scripts_dir@,
                "spawn.sh"@,
                seq![agent_type@, name@, "--team"@, team@] + search::texts(options@)
                    + seq!["--no-wait"@],
                self.timeout,
            ),
    {
        let mut args = args3(agent_type, name, "--team");
        add_arg(&mut args, team);
        let ghost fixed = seq![agent_type@, name@, "--team"@, team@];
        proof {
            assert(search::texts(args@) =~= fixed + search::texts(options@).take(0));
        }
        let mut index: usize = 0;
        while index < options.len()
            invariant
                index <= options@.len(),
                search::texts(args@) == fixed + search::texts(options@).take(index as int),
            decreases options@.len() - index,
        {
            add_arg(&mut args, options[index].as_str());
            index += 1;
            proof {
                assert(search::texts(args@) =~= fixed + search::texts(options@).take(
                    index as int,
                ));
            }
        }
        add_arg(&mut args, "--no-wait");
        proof {
            assert(search::texts(options@).take(index as int) =~= search::texts(options@));
            assert(search::texts(args@) =~= fixed + search::texts(options@) + seq!["--no-wait"@]);
        }
        self.call("spawn.sh", args)
    }

    /// Lets an agent join a team.
    pub fn join(&self, team: &str, agent: &str, agent_type: &str, project: &str) -> (call:
        ScriptCall)
        ensures
            plain_call(
                call,
                self.scripts_dir@,
                "join.sh"@,
                seq![team@, agent@, agent_type@, project@],
                self.timeout,
            ),
    {
        let mut args = args3(team, agent, agent_type);
        add_arg(&mut args, project);
        proof {
            assert(search::texts(args@) =~= seq![team@, agent@, agent_type@, project@]);
        }
        self.call("join.sh", args)
    }

    /// Lets an agent join a team under a name that was renamed before.
    pub fn join_force(&self, team: &str, agent: &str, agent_type: &str, project: &str) -> (call:
        ScriptCall)
        ensures
            plain_call(
                call,
                self.scripts_dir@,
                "join.sh"@,
                seq![team@, agent@, agent_type@, project@, "--force"@],
                self.timeout,
            ),
    {
        let mut args = args3(team, agent, agent_type);
        add_arg(&mut args, project);
        add_arg(&mut args, "--force");
        proof {
            assert(search::texts(args@) =~= seq![
                team@,
                agent@,
                agent_type@,
                project@,
                "--force"@,
            ]);
        }
        self.call("join.sh", args)
    }

    /// Renames an agent in a team.
    pub fn rename(&self, team: &str, old: &str, new: &str) -> (call: ScriptCall)
        ensures
            plain_call(
                call,
                self.scripts_dir@,
                "rename.sh"@,
                seq![team@, old@, new@],
                self.timeout,
            ),
    {
        self.call("rename.sh", args3(team, old, new))
    }

    /// Renames a team.
    pub fn rename_team(&self, old: &str, new: &str) -> (call: ScriptCall)
        ensures
            plain_call(
                call,
                self.scripts_dir@,
                "rename-team.sh"@,
                seq![old@, new@],
                self.timeout,
            ),
    {
        self.call("rename-team.sh", args2(old, new))
    }

    /// Resets an identity. The script must not resolve the project anew, so the variable that
    /// forbids it is always set.
    pub fn reset(&self, project: &str, agent_type: &str, agent: &str) -> (call: ScriptCall)
        ensures
            reset_call(*self, project@, agent_type@, agent@, call),
    {
        let mut envs: Vec<(String, String)> = Vec::new();
        envs.push(("AGMSG_RESOLVE_PROJECT".to_owned(), "0".to_owned()));
        let mut call = self.call("reset.sh", args3(project, agent_type, agent));
        call.envs = envs;
        call
    }

    /// Lets an agent leave a team.
    pub fn leave(&self, team: &str, agent: &str) -> (call: ScriptCall)
        ensures
            plain_call(
                call,
                self.scripts_dir@,
                "leave.sh"@,
                seq![team@, agent@],
                self.timeout,
            ),
    {
        self.call("leave.sh", args2(team, agent))
    }

    /// Shuts an agent down.
    pub fn despawn(&self, team: &str, from: &str, name: &str, force: bool) -> (call: ScriptCall)
        ensures
            plain_call(
                call,
                self.scripts_dir@,
                "despawn.sh"@,
                despawn_args(team@, from@, name@, force),
                DESPAWN_TIMEOUT,
            ),
    {
        let mut args = args3(team, from, name);
        if force {
            add_arg(&mut args, "--force");
        }
        proof {
            assert(search::texts(args@) =~= despawn_args(team@, from@, name@, force));
        }
        let mut call = self.call("despawn.sh", args);
        call.timeout = DESPAWN_TIMEOUT;
        call
    }
}

/// The call asks how messages are delivered to a type in a project.
pub open spec fn status_call(
    scripts: ScriptRunner,
    agent_type: Seq<char>,
    project: Seq<char>,
    call: ScriptCall,
) -> bool {
    plain_call(
        call,
        scripts.scripts_dir@,
        "delivery.sh"@,
        seq!["status"@, agent_type, project],
        scripts.timeout,
    )
}

/// The call lists those of the processes that run.
pub open spec fn process_call(scripts: ScriptRunner, pids: Seq<u32>, call: ScriptCall) -> bool {
    &&& call.path@ == "/bin/ps"@
    &&& call.name@ == "ps"@
    &&& search::texts(call.args@) == seq![
        "-p"@,
        search::joined(pid_texts(pids), ","@),
        "-o"@,
        "pid="@,
    ]
    &&& call.envs@.len() == 0
    &&& call.timeout == scripts.timeout
}

/// The call sets the variable that keeps the script from resolving the project anew.
pub open spec fn keeps_project(call: ScriptCall) -> bool {
    &&& call.envs@.len() == 1
    &&& call.envs@[0].0@ == "AGMSG_RESOLVE_PROJECT"@
    &&& call.envs@[0].1@ == "0"@
}

/// The call runs the audit.
pub open spec fn audit_call(scripts: ScriptRunner, call: ScriptCall) -> bool {
    &&& call.path == scripts.audit_script
    &&& call.name@ == file_name_of(scripts.audit_script@)
    &&& search::texts(call.args@) == seq!["--json"@, "--fix"@]
    &&& call.envs@.len() == 0
    &&& call.timeout == scripts.timeout
}

/// The call resets an identity.
pub open spec fn reset_call(
    scripts: ScriptRunner,
    project: Seq<char>,
    agent_type: Seq<char>,
    agent: Seq<char>,
    call: ScriptCall,
) -> bool {
    &&& call.path@ == path_in(scripts.scripts_dir@, "reset.sh"@)
    &&& call.name@ == "reset.sh"@
    &&& search::texts(call.args@) == seq![project, agent_type, agent]
    &&& keeps_project(call)
    &&& call.timeout == scripts.timeout
}

/// Process numbers in decimal.
pub open spec fn pid_texts(pids: Seq<u32>) -> Seq<Seq<char>> {
    Seq::new(pids.len(), |i: int| strings::decimal(pids[i] as nat))
}

/// The arguments of the despawn script.
pub open spec fn despawn_args(team: Seq<char>, from: Seq<char>, name: Seq<char>, force: bool) -> Seq<
    Seq<char>,
> {
    if force {
        seq![team, from, name, "--force"@]
    } else {
        seq![team, from, name]
    }
}

/// What follows the last slash of a path.
pub open spec fn file_name_of(path: Seq<char>) -> Seq<char>
    decreases path.len(),
{
    if path.len() == 0 || path.last() == '/' {
        Seq::empty()
    } else {
        file_name_of(path.drop_last()).push(path.last())
    }
}

fn file_name(path: &str) -> (name: String)
    ensures
        name@ == file_name_of(path@),
{
    let chars = chars_of(path);
    let mut name: String = String::new();
    let mut index: usize = 0;
    proof {
        assert(chars@.take(0) =~= Seq::empty());
        assert(name@ =~= file_name_of(chars@.take(0)));
    }
    while index < chars.len()
        invariant
            index <= chars@.len(),
            chars@ == path@,
            name@ == file_name_of(chars@.take(index as int)),
        decreases chars@.len() - index,
    {
        proof {
            assert(chars@.take(index + 1).drop_last() =~= chars@.take(index as int));
        }
        if chars[index] == '/' {
            name = String::new();
        } else {
            name.push(chars[index]);
        }
        index += 1;
    }
    proof {
        assert(chars@.take(index as int) =~= path@);
    }
    name
}

/// The three arguments of the reset script.
pub fn reset_arguments(project: &str, agent_type: &str, agent: &str) -> (args: [String; 3])
    ensures
        args@[0]@ == project@,
        args@[1]@ == agent_type@,
        args@[2]@ == agent@,
{
    [project.to_owned(), agent_type.to_owned(), agent.to_owned()]
}

/// A character that the shell takes as it is.
pub open spec fn is_shell_safe(character: char) -> bool {
    strings::is_lower(character) || strings::is_upper(character) || strings::is_digit(character)
        || character == '/' || character == '.' || character == '_' || character == '-'
}

/// A word as the shell has to be given it: as it is if all its characters are safe, else in single
/// quotes.
pub open spec fn shell_quoted(word: Seq<char>) -> Seq<char> {
    if word.len() > 0 && forall|i: int| 0 <= i < word.len() ==> is_shell_safe(#[trigger] word[i]) {
        word
    } else {
        single_quoted(word)
    }
}

/// A text in single quotes for the shell; a quote in it is put in double quotes.
pub open spec fn single_quoted(text: Seq<char>) -> Seq<char> {
    "'"@ + search::replaced(text, '\'', "'\"'\"'"@) + "'"@
}

/// Puts a text in single quotes for the shell.
pub fn quote_single(text: &str) -> (quoted: String)
    ensures
        quoted@ == single_quoted(text@),
{
    let inner = replace_char(text, '\'', "'\"'\"'");
    concat3("'", inner.as_str(), "'")
}

/// Quotes a word for the shell.
pub fn shell_quote(word: &str) -> (quoted: String)
    ensures
        quoted@ == shell_quoted(word@),
{
    let chars = chars_of(word);
    let mut safe = chars.len() > 0;
    let mut index: usize = 0;
    while index < chars.len() && safe
        invariant
            index <= chars@.len(),
            chars@ == word@,
            safe ==> chars@.len() > 0 && forall|i: int|
                0 <= i < index ==> is_shell_safe(#[trigger] chars@[i]),
            !safe ==> !(chars@.len() > 0 && forall|i: int|
                0 <= i < chars@.len() ==> is_shell_safe(#[trigger] chars@[i])),
        decreases chars@.len() - index,
    {
        let c = chars[index];
        if !(strings::char_is_lower(c) || ('A' <= c && c <= 'Z') || strings::char_is_digit(c) || c
            == '/' || c == '.' || c == '_' || c == '-') {
            assert(!is_shell_safe(chars@[index as int]));
            safe = false;
        }
        index += 1;
    }
    if safe {
        return word.to_owned();
    }
    quote_single(word)
}

/// The shell command that resets an identity, for display.
pub fn reset_command_display(
    scripts_dir: &str,
    project: &str,
    agent_type: &str,
    agent: &str,
) -> (command: String)
    ensures
        command@ == shown_reset(scripts_dir@, project@, agent_type@, agent@),
        shell_words(command@) == Some(
            reset_words(scripts_dir@, project@, agent_type@, agent@),
        ),
{
    let path = join_path(scripts_dir, "reset.sh");
    let args = reset_arguments(project, agent_type, agent);
    let mut command = "AGMSG_RESOLVE_PROJECT=0 ".to_owned();
    command.append(shell_quote(path.as_str()).as_str());
    command.append(" ");
    command.append(shell_quote(args[0].as_str()).as_str());
    command.append(" ");
    command.append(shell_quote(args[1].as_str()).as_str());
    command.append(" ");
    command.append(shell_quote(args[2].as_str()).as_str());
    proof {
        shown_reset_is_read_back(scripts_dir@, project@, agent_type@, agent@);
    }
    command
}

/// The shell command that shuts an agent down, for display.
pub fn despawn_command_display(
    scripts_dir: &str,
    team: &str,
    from: &str,
    name: &str,
    force: bool,
) -> (command: String)
    ensures
        command@ == shown_despawn(scripts_dir@, team@, from@, name@, force),
        shell_words(command@) == Some(
            seq![path_in(scripts_dir@, "despawn.sh"@)] + despawn_args(
                team@,
                from@,
                name@,
                force,
            ),
        ),
{
    let path = join_path(scripts_dir, "despawn.sh");
    let mut command = shell_quote(path.as_str());
    command.append(" ");
    command.append(shell_quote(team).as_str());
    command.append(" ");
    command.append(shell_quote(from).as_str());
    command.append(" ");
    command.append(shell_quote(name).as_str());
    let ghost bare = command@;
    if force {
        command.append(" --force");
    } else {
        assert(bare + Seq::<char>::empty() =~= bare);
    }
    proof {
        shown_despawn_is_read_back(scripts_dir@, team@, from@, name@, force);
    }
    command
}

/// A time limit as it is shown: in seconds if it is a whole number of them, else in milliseconds.
pub open spec fn timeout_text(timeout: u64) -> Seq<char> {
    if timeout % 1_000_000_000 == 0 {
        strings::decimal((timeout / 1_000_000_000) as nat) + "s"@
    } else {
        strings::decimal((timeout / 1_000_000) as nat) + "ms"@
    }
}

/// A time limit as it is shown.
pub fn timeout_label(timeout: u64) -> (text: String)
    ensures
        text@ == timeout_text(timeout),
{
    if timeout % 1_000_000_000 == 0 {
        let digits = decimal_u64(timeout / 1_000_000_000);
        strings::concat2(digits.as_str(), "s")
    } else {
        let digits = decimal_u64(timeout / 1_000_000);
        strings::concat2(digits.as_str(), "ms")
    }
}

impl ScriptCall {
    /// The error of a call that ran out of time.
    pub fn timeout_error(&self) -> (text: String)
        ensures
            text@ == "timeout: "@ + self.name@ + " ("@ + timeout_text(self.timeout) + ")"@,
    {
        let label = timeout_label(self.timeout);
        concat5("timeout: ", self.name.as_str(), " (", label.as_str(), ")")
    }

    /// The error of a call that was cancelled.
    pub fn cancelled_error(&self) -> (text: String)
        ensures
            text@ == "cancelled: "@ + self.name@,
    {
        strings::concat2("cancelled: ", self.name.as_str())
    }
}

/// Marking a whole team read: the recipients one after the other, up to the first failure.
#[derive(Debug)]
pub struct TeamReadRun {
    pub team: String,
    pub recipients: Vec<String>,
    pub next: usize,
    pub stdout: String,
    pub stderr: String,
}

/// What comes next while a whole team is marked read.
#[derive(Debug)]
pub enum TeamReadStep {
    Call(ScriptCall),
    Done(CommandResult),
}

impl TeamReadRun {
    /// The next script, for the recipient whose turn it is, or the outcome after the last one.
    pub open spec fn is_step(self, scripts: ScriptRunner, step: TeamReadStep) -> bool {
        match step {
            TeamReadStep::Call(call) => self.next < self.recipients@.len() && plain_call(
                call,
                scripts.scripts_dir@,
                "inbox.sh"@,
                seq![self.team@, self.recipients@[self.next as int]@, "--quiet"@],
                scripts.timeout,
            ),
            TeamReadStep::Done(result) => {
                &&& self.next >= self.recipients@.len()
                &&& result.success
                &&& result.exit_code == Some(0i32)
                &&& result.stdout == self.stdout
                &&& result.stderr == self.stderr
            },
        }
    }

    /// What the outcome of a script does: its output is kept, and a failure ends the run.
    pub open spec fn advance_post(
        self,
        result: CommandResult,
        after: TeamReadRun,
        failed: Option<CommandResult>,
    ) -> bool {
        &&& after.team == self.team
        &&& after.recipients == self.recipients
        &&& after.next == self.next + 1
        &&& after.stdout@ == self.stdout@ + result.stdout@
        &&& after.stderr@ == self.stderr@ + result.stderr@
        &&& match failed {
            None => result.success,
            Some(outcome) => {
                &&& !result.success
                &&& !outcome.success
                &&& outcome.exit_code == result.exit_code
                &&& outcome.stdout@ == after.stdout@
                &&& outcome.stderr@ == after.stderr@
            },
        }
    }

    /// Begins with the first recipient.
    pub fn new(team: String, recipients: Vec<String>) -> (run: Self)
        ensures
            run.team == team,
            run.recipients == recipients,
            run.next == 0,
            run.stdout@ == Seq::<char>::empty(),
            run.stderr@ == Seq::<char>::empty(),
    {
        TeamReadRun { team, recipients, next: 0, stdout: String::new(), stderr: String::new() }
    }

    /// The next call, or the outcome once every recipient has been served.
    pub fn current(&self, scripts: &ScriptRunner) -> (step: TeamReadStep)
        ensures
            self.is_step(*scripts, step),
    {
        if self.next < self.recipients.len() {
            TeamReadStep::Call(
                scripts.mark_recipient_read(
                    self.team.as_str(),
                    self.recipients[self.next].as_str(),
                ),
            )
        } else {
            TeamReadStep::Done(
                CommandResult {
                    success: true,
                    exit_code: Some(0),
                    stdout: self.stdout.clone(),
                    stderr: self.stderr.clone(),
                },
            )
        }
    }

    /// Takes in the outcome of one call: its output is collected, and a failure ends the run.
    pub fn advance(&mut self, result: &CommandResult) -> (failed: Option<CommandResult>)
        requires
            old(self).next < old(self).recipients@.len(),
        ensures
            old(self).advance_post(*result, *final(self), failed),
    {
        let total: usize = self.recipients.len();
        self.stdout.append(result.stdout.as_str());
        self.stderr.append(result.stderr.as_str());
        assert(self.next < total);
        self.next += 1;
        if result.success {
            None
        } else {
            Some(
                CommandResult {
                    success: false,
                    exit_code: result.exit_code,
                    stdout: self.stdout.clone(),
                    stderr: self.stderr.clone(),
                },
            )
        }
    }
}

/// Where the shell is in a line: outside quotes, in single or in double ones, or past a character
/// that means something else to it.
pub enum Quotes {
    Outside,
    Single,
    Double,
    Special,
}

/// What the shell has read of a line: the words that are done, and the one that has begun.
pub ghost struct ShellState {
    pub quotes: Quotes,
    pub words: Seq<Seq<char>>,
    pub word: Option<Seq<char>>,
}

/// The word that has begun; empty if none has.
pub open spec fn begun(word: Option<Seq<char>>) -> Seq<char> {
    match word {
        Some(word) => word,
        None => Seq::empty(),
    }
}

/// What one more character of a line does: a blank outside quotes ends a word, quotes take
/// everything up to their end into the word, and what has another meaning is not followed.
pub open spec fn shell_step(before: ShellState, character: char) -> ShellState {
    let longer = ShellState { word: Some(begun(before.word).push(character)), ..before };
    let quoted = ShellState { word: Some(begun(before.word)), ..before };
    let special = ShellState { quotes: Quotes::Special, ..before };
    match before.quotes {
        Quotes::Outside => if character == ' ' {
            match before.word {
                Some(word) => ShellState {
                    words: before.words.push(word),
                    word: None,
                    ..before
                },
                None => before,
            }
        } else if character == '\'' {
            ShellState { quotes: Quotes::Single, ..quoted }
        } else if character == '"' {
            ShellState { quotes: Quotes::Double, ..quoted }
        } else if is_shell_safe(character) || character == '=' {
            longer
        } else {
            special
        },
        Quotes::Single => if character == '\'' {
            ShellState { quotes: Quotes::Outside, ..before }
        } else {
            longer
        },
        Quotes::Double => if character == '"' {
            ShellState { quotes: Quotes::Outside, ..before }
        } else if character == '$' || character == '`' || character == '\\' || character == '!' {
            special
        } else {
            longer
        },
        Quotes::Special => before,
    }
}

/// What the shell has read after some more of a line.
pub open spec fn shell_reads(before: ShellState, text: Seq<char>) -> ShellState
    decreases text.len(),
{
    if text.len() == 0 {
        before
    } else {
        shell_step(shell_reads(before, text.drop_last()), text.last())
    }
}

/// The shell before a line.
pub open spec fn shell_start() -> ShellState {
    ShellState { quotes: Quotes::Outside, words: Seq::empty(), word: None }
}

/// The words of a line, if the shell finds nothing in it but words and quotes.
pub open spec fn shell_words(line: Seq<char>) -> Option<Seq<Seq<char>>> {
    let read = shell_reads(shell_start(), line);
    match read.quotes {
        Quotes::Outside => match read.word {
            Some(word) => Some(read.words.push(word)),
            None => Some(read.words),
        },
        _ => None,
    }
}

proof fn one_more_character(before: ShellState, text: Seq<char>, character: char)
    ensures
        shell_reads(before, text.push(character)) == shell_step(
            shell_reads(before, text),
            character,
        ),
{
    assert(text.push(character).drop_last() =~= text);
}

proof fn reading_goes_on(before: ShellState, first: Seq<char>, second: Seq<char>)
    ensures
        shell_reads(before, first + second) == shell_reads(shell_reads(before, first), second),
    decreases second.len(),
{
    if second.len() > 0 {
        reading_goes_on(before, first, second.drop_last());
        assert((first + second).drop_last() =~= first + second.drop_last());
    } else {
        assert(first + second =~= first);
    }
}

proof fn quoted_so_far(before: ShellState, text: Seq<char>)
    requires
        before.quotes is Outside,
        before.word is None,
    ensures
        shell_reads(before, "'"@ + search::replaced(text, '\'', "'\"'\"'"@)) == (ShellState {
            quotes: Quotes::Single,
            word: Some(text),
            ..before
        }),
    decreases text.len(),
{
    reveal_strlit("'");
    reveal_strlit("'\"'\"'");
    let line = "'"@ + search::replaced(text, '\'', "'\"'\"'"@);
    if text.len() == 0 {
        assert(line =~= Seq::<char>::empty().push('\''));
        one_more_character(before, Seq::empty(), '\'');
        assert(text =~= Seq::empty());
    } else {
        let shorter = text.drop_last();
        let read = "'"@ + search::replaced(shorter, '\'', "'\"'\"'"@);
        quoted_so_far(before, shorter);
        if text.last() == '\'' {
            let a = read.push('\'');
            let b = a.push('"');
            let c = b.push('\'');
            let d = c.push('"');
            one_more_character(before, read, '\'');
            one_more_character(before, a, '"');
            one_more_character(before, b, '\'');
            one_more_character(before, c, '"');
            one_more_character(before, d, '\'');
            assert(line =~= d.push('\''));
        } else {
            one_more_character(before, read, text.last());
            assert(line =~= read.push(text.last()));
        }
        assert(shorter.push(text.last()) =~= text);
    }
}

proof fn quotes_are_read_back(before: ShellState, text: Seq<char>)
    requires
        before.quotes is Outside,
        before.word is None,
    ensures
        shell_reads(before, single_quoted(text)) == (ShellState { word: Some(text), ..before }),
{
    reveal_strlit("'");
    quoted_so_far(before, text);
    let line = "'"@ + search::replaced(text, '\'', "'\"'\"'"@);
    one_more_character(before, line, '\'');
    assert(single_quoted(text) =~= line.push('\''));
}

proof fn plain_so_far(before: ShellState, word: Seq<char>)
    requires
        before.quotes is Outside,
        before.word is None,
        word.len() > 0,
        forall|i: int|
            0 <= i < word.len() ==> is_shell_safe(#[trigger] word[i]) || word[i] == '=',
    ensures
        shell_reads(before, word) == (ShellState { word: Some(word), ..before }),
    decreases word.len(),
{
    let shorter = word.drop_last();
    assert(is_shell_safe(word[word.len() - 1]) || word[word.len() - 1] == '=');
    assert(shorter.push(word.last()) =~= word);
    if shorter.len() > 0 {
        assert forall|i: int| 0 <= i < shorter.len() implies is_shell_safe(#[trigger] shorter[i])
            || shorter[i] == '=' by {
            assert(is_shell_safe(word[i]) || word[i] == '=');
        }
        plain_so_far(before, shorter);
    } else {
        assert(shorter =~= Seq::empty());
    }
}

proof fn words_are_read(before: ShellState, word: Seq<char>)
    requires
        before.quotes is Outside,
        before.word is None,
    ensures
        shell_reads(before, shell_quoted(word)) == (ShellState { word: Some(word), ..before }),
{
    quotes_are_read_back(before, word);
    if word.len() > 0 && forall|i: int| 0 <= i < word.len() ==> is_shell_safe(#[trigger] word[i]) {
        plain_so_far(before, word);
    }
}

/// The shell reads a quoted word as one word, which is the word itself.
pub proof fn quoting_keeps_the_word(word: Seq<char>)
    ensures
        shell_words(shell_quoted(word)) == Some(seq![word]),
        shell_words(single_quoted(word)) == Some(seq![word]),
{
    words_are_read(shell_start(), word);
    quotes_are_read_back(shell_start(), word);
    assert(Seq::empty().push(word) =~= seq![word]);
}

/// Some words on a line, each quoted where it has to be, with a blank between them.
pub open spec fn shown_words(words: Seq<Seq<char>>) -> Seq<char>
    decreases words.len(),
{
    if words.len() == 0 {
        Seq::empty()
    } else if words.len() == 1 {
        shell_quoted(words[0])
    } else {
        shown_words(words.drop_last()) + " "@ + shell_quoted(words.last())
    }
}

proof fn shown_so_far(before: ShellState, words: Seq<Seq<char>>)
    requires
        before.quotes is Outside,
        before.word is None,
        words.len() > 0,
    ensures
        shell_reads(before, shown_words(words)) == (ShellState {
            words: before.words + words.drop_last(),
            word: Some(words.last()),
            ..before
        }),
    decreases words.len(),
{
    if words.len() == 1 {
        words_are_read(before, words[0]);
        assert(before.words + words.drop_last() =~= before.words);
    } else {
        reveal_strlit(" ");
        let shorter = words.drop_last();
        let line = shown_words(shorter);
        shown_so_far(before, shorter);
        let read = shell_reads(before, line);
        one_more_character(before, line, ' ');
        assert(line + " "@ =~= line.push(' '));
        let blank = shell_reads(before, line + " "@);
        assert(blank.words =~= before.words + shorter) by {
            assert(shorter.drop_last().push(shorter.last()) =~= shorter);
        }
        words_are_read(blank, words.last());
        reading_goes_on(before, line + " "@, shell_quoted(words.last()));
    }
}

/// The shell reads a line of shown words as exactly those words.
pub proof fn shown_words_are_read_back(words: Seq<Seq<char>>)
    requires
        words.len() > 0,
    ensures
        shell_words(shown_words(words)) == Some(words),
{
    shown_so_far(shell_start(), words);
    assert((Seq::empty() + words.drop_last()).push(words.last()) =~= words);
}

/// The words of the shown command that resets an identity: a setting for the script, the script
/// and its arguments.
pub open spec fn reset_words(
    scripts_dir: Seq<char>,
    project: Seq<char>,
    agent_type: Seq<char>,
    agent: Seq<char>,
) -> Seq<Seq<char>> {
    seq![
        "AGMSG_RESOLVE_PROJECT=0"@,
        path_in(scripts_dir, "reset.sh"@),
        project,
        agent_type,
        agent,
    ]
}

/// The shown command that resets an identity.
pub open spec fn shown_reset(
    scripts_dir: Seq<char>,
    project: Seq<char>,
    agent_type: Seq<char>,
    agent: Seq<char>,
) -> Seq<char> {
    "AGMSG_RESOLVE_PROJECT=0 "@ + shell_quoted(path_in(scripts_dir, "reset.sh"@)) + " "@
        + shell_quoted(project) + " "@ + shell_quoted(agent_type) + " "@ + shell_quoted(agent)
}

/// The shell reads the shown command that resets an identity as exactly its words.
pub proof fn shown_reset_is_read_back(
    scripts_dir: Seq<char>,
    project: Seq<char>,
    agent_type: Seq<char>,
    agent: Seq<char>,
)
    ensures
        shell_words(shown_reset(scripts_dir, project, agent_type, agent)) == Some(
            reset_words(scripts_dir, project, agent_type, agent),
        ),
{
    reveal_strlit("AGMSG_RESOLVE_PROJECT=0");
    reveal_strlit("AGMSG_RESOLVE_PROJECT=0 ");
    let setting = "AGMSG_RESOLVE_PROJECT=0"@;
    let rest = seq![path_in(scripts_dir, "reset.sh"@), project, agent_type, agent];
    let start = shell_start();
    plain_so_far(start, setting);
    one_more_character(start, setting, ' ');
    assert(setting.push(' ') =~= "AGMSG_RESOLVE_PROJECT=0 "@);
    let blank = shell_reads(start, "AGMSG_RESOLVE_PROJECT=0 "@);
    shown_so_far(blank, rest);
    reading_goes_on(start, "AGMSG_RESOLVE_PROJECT=0 "@, shown_words(rest));
    four_shown_words(rest);
    assert("AGMSG_RESOLVE_PROJECT=0 "@ + shown_words(rest) =~= shown_reset(
        scripts_dir,
        project,
        agent_type,
        agent,
    ));
    assert((blank.words + rest.drop_last()).push(rest.last()) =~= reset_words(
        scripts_dir,
        project,
        agent_type,
        agent,
    ));
}

proof fn four_shown_words(words: Seq<Seq<char>>)
    requires
        words.len() == 4,
    ensures
        shown_words(words) == shell_quoted(words[0]) + " "@ + shell_quoted(words[1]) + " "@
            + shell_quoted(words[2]) + " "@ + shell_quoted(words[3]),
{
    let three = words.drop_last();
    let two = three.drop_last();
    let one = two.drop_last();
    assert(shown_words(one) == shell_quoted(words[0]));
    assert(shown_words(two) == shown_words(one) + " "@ + shell_quoted(words[1]));
    assert(shown_words(three) == shown_words(two) + " "@ + shell_quoted(words[2]));
}

/// The shown command that shuts an agent down: the script and its arguments.
pub open spec fn shown_despawn(
    scripts_dir: Seq<char>,
    team: Seq<char>,
    from: Seq<char>,
    name: Seq<char>,
    force: bool,
) -> Seq<char> {
    shell_quoted(path_in(scripts_dir, "despawn.sh"@)) + " "@ + shell_quoted(team) + " "@
        + shell_quoted(from) + " "@ + shell_quoted(name) + (if force {
        " --force"@
    } else {
        Seq::empty()
    })
}

/// The shell reads the shown command that shuts an agent down as exactly the script and the
/// arguments that it is called with.
pub proof fn shown_despawn_is_read_back(
    scripts_dir: Seq<char>,
    team: Seq<char>,
    from: Seq<char>,
    name: Seq<char>,
    force: bool,
)
    ensures
        shell_words(shown_despawn(scripts_dir, team, from, name, force)) == Some(
            seq![path_in(scripts_dir, "despawn.sh"@)] + despawn_args(team, from, name, force),
        ),
{
    let words = seq![path_in(scripts_dir, "despawn.sh"@), team, from, name];
    let all = seq![path_in(scripts_dir, "despawn.sh"@)] + despawn_args(team, from, name, force);
    four_shown_words(words);
    if force {
        reveal_strlit("--force");
        reveal_strlit(" --force");
        reveal_strlit(" ");
        assert(all =~= words.push("--force"@));
        assert(all.drop_last() =~= words);
        assert(shell_quoted("--force"@) == "--force"@);
        assert(" "@ + "--force"@ =~= " --force"@);
        assert(shown_words(all) =~= shown_despawn(scripts_dir, team, from, name, force));
    } else {
        assert(all =~= words);
        assert(shown_words(all) =~= shown_despawn(scripts_dir, team, from, name, force));
    }
    shown_words_are_read_back(all);
}

/// A word that the shell takes as it is stays unquoted.
pub proof fn safe_words_stay_unquoted(word: Seq<char>)
    requires
        word.len() > 0,
        forall|i: int| 0 <= i < word.len() ==> is_shell_safe(#[trigger] word[i]),
    ensures
        shell_quoted(word) == word,
{
}

} // verus!

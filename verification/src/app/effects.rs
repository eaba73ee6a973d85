//! What an action of the state asks the event loop to do: which script to run with which words, and
//! which file to write.

use crate::agents::AgentOperation;
use crate::app::model::{App, AppAction, BulkCancel, InFlightOperation, Query};
use crate::app::status::{error_status, notice};
use crate::audit;
use crate::audit::{build_markdown_for_window, report_stamp};
use crate::bulk::export;
use crate::bulk::export::{export_bulk_messages, export_file_name};
use crate::bulk::filter;
use crate::bulk::{BulkTarget, ExportFormat};
use crate::clipboard;
use crate::clipboard::clipboard_sequence;
use crate::clock;
use crate::clock::Timestamp;
use crate::exec;
use crate::exec::{join_path, ScriptCall, ScriptRunner, TeamReadRun};
use crate::strings::{concat2, concat3};
use vstd::prelude::*;

verus! {

/// What the event loop does for an action.
#[derive(Debug)]
#[allow(inconsistent_fields)]
pub enum Effect {
    Nothing,
    Quit,
    /// Run the script and hand its outcome to [`App::complete_command`].
    Send { call: ScriptCall },
    /// Run the script and hand its outcome to [`App::complete_command`].
    MarkRecipient { call: ScriptCall, label: String, unread_count: usize },
    /// Run the scripts of the run and hand the outcome to [`App::complete_command`].
    MarkTeam { run: TeamReadRun, label: String, unread_count: usize },
    /// Run the script and hand its outcome to [`App::complete_audit`].
    Audit { call: ScriptCall },
    /// Find out about the health of the teams and hand it to [`App::complete_health`].
    Health,
    /// Write the file, whose directory may have to be made, and hand the outcome to
    /// [`App::complete_export`]: one text is the error if the directory cannot be made, the other
    /// one if the file cannot be written.
    Write {
        directory: String,
        path: String,
        content: String,
        directory_error: String,
        file_error: String,
    },
    /// Run the script, which can be cancelled, and hand its outcome to
    /// [`App::complete_command`].
    Bulk { call: ScriptCall, target: BulkTarget },
    /// Put the body into the clipboard by writing the sequence to the terminal.
    Yank { body: String, sequence: String },
    /// Run the script and hand its outcome to [`App::complete_command`].
    Agent { call: ScriptCall, operation: AgentOperation },
    /// Read this and hand the reply to [`App::supply`].
    Load(Query),
    /// End with the error.
    Fail(String),
}

/// The call carries out an operation on an agent.
pub open spec fn agent_call(
    scripts: ScriptRunner,
    operation: AgentOperation,
    call: ScriptCall,
) -> bool {
    let directory = scripts.scripts_dir@;
    match operation {
        AgentOperation::Spawn { team, agent_type, name } => exec::plain_call(
            call,
            directory,
            "spawn.sh"@,
            seq![agent_type@, name@, "--team"@, team@, "--no-wait"@],
            scripts.timeout,
        ),
        AgentOperation::Join { team, agent, agent_type, project } => exec::plain_call(
            call,
            directory,
            "join.sh"@,
            seq![team@, agent@, agent_type@, project@],
            scripts.timeout,
        ),
        AgentOperation::JoinForce { team, agent, agent_type, project } => exec::plain_call(
            call,
            directory,
            "join.sh"@,
            seq![team@, agent@, agent_type@, project@, "--force"@],
            scripts.timeout,
        ),
        AgentOperation::Rename { team, old: from, new, .. } => exec::plain_call(
            call,
            directory,
            "rename.sh"@,
            seq![team@, from@, new@],
            scripts.timeout,
        ),
        AgentOperation::RenameTeam { old: from, new } => exec::plain_call(
            call,
            directory,
            "rename-team.sh"@,
            seq![from@, new@],
            scripts.timeout,
        ),
        AgentOperation::Reset { project, agent_type, agent } => exec::reset_call(
            scripts,
            project@,
            agent_type@,
            agent@,
            call,
        ),
        AgentOperation::Leave { team, agent } => exec::plain_call(
            call,
            directory,
            "leave.sh"@,
            seq![team@, agent@],
            scripts.timeout,
        ),
    }
}

/// The script that carries out an operation on an agent.
pub fn agent_script(scripts: &ScriptRunner, operation: &AgentOperation) -> (call: ScriptCall)
    ensures
        agent_call(*scripts, *operation, call),
{
    match operation {
        AgentOperation::Spawn { team, agent_type, name } => {
            let options: Vec<String> = Vec::new();
            let call = scripts.spawn(team.as_str(), agent_type.as_str(), name.as_str(), &options);
            proof {
                let words = seq![agent_type@, name@, "--team"@, team@];
                assert(words + crate::search::texts(options@) + seq!["--no-wait"@] =~= seq![
                    agent_type@,
                    name@,
                    "--team"@,
                    team@,
                    "--no-wait"@,
                ]);
            }
            call
        },
        AgentOperation::Join { team, agent, agent_type, project } => scripts.join(
            team.as_str(),
            agent.as_str(),
            agent_type.as_str(),
            project.as_str(),
        ),
        AgentOperation::JoinForce { team, agent, agent_type, project } => scripts.join_force(
            team.as_str(),
            agent.as_str(),
            agent_type.as_str(),
            project.as_str(),
        ),
        AgentOperation::Rename { team, old: from, new, .. } => scripts.rename(
            team.as_str(),
            from.as_str(),
            new.as_str(),
        ),
        AgentOperation::RenameTeam { old: from, new } => scripts.rename_team(
            from.as_str(),
            new.as_str(),
        ),
        AgentOperation::Reset { project, agent_type, agent } => scripts.reset(
            project.as_str(),
            agent_type.as_str(),
            agent.as_str(),
        ),
        AgentOperation::Leave { team, agent } => scripts.leave(team.as_str(), agent.as_str()),
    }
}

/// The call deals with one target of a bulk operation.
pub open spec fn target_call(
    scripts: ScriptRunner,
    target: BulkTarget,
    force: bool,
    call: ScriptCall,
) -> bool {
    let directory = scripts.scripts_dir@;
    match target {
        BulkTarget::MarkRead(target) => exec::plain_call(
            call,
            directory,
            "inbox.sh"@,
            seq![target.team@, target.recipient@, "--quiet"@],
            scripts.timeout,
        ),
        BulkTarget::Reset(target) => exec::reset_call(
            scripts,
            target.project@,
            target.agent_type@,
            target.agent@,
            call,
        ),
        BulkTarget::Rename(target) => exec::plain_call(
            call,
            directory,
            "rename.sh"@,
            seq![target.team@, target.old@, target.new@],
            scripts.timeout,
        ),
        BulkTarget::Despawn(target) => exec::plain_call(
            call,
            directory,
            "despawn.sh"@,
            exec::despawn_args(target.team@, target.from@, target.name@, force),
            exec::DESPAWN_TIMEOUT,
        ),
    }
}

/// The script that deals with one target of a bulk operation.
pub fn target_script(scripts: &ScriptRunner, target: &BulkTarget, force: bool) -> (call: ScriptCall)
    ensures
        target_call(*scripts, *target, force, call),
{
    match target {
        BulkTarget::MarkRead(target) => scripts.mark_recipient_read(
            target.team.as_str(),
            target.recipient.as_str(),
        ),
        BulkTarget::Reset(target) => scripts.reset(
            target.project.as_str(),
            target.agent_type.as_str(),
            target.agent.as_str(),
        ),
        BulkTarget::Rename(target) => scripts.rename(
            target.team.as_str(),
            target.old.as_str(),
            target.new.as_str(),
        ),
        BulkTarget::Despawn(target) => scripts.despawn(
            target.team.as_str(),
            target.from.as_str(),
            target.name.as_str(),
            force,
        ),
    }
}

/// Why a report cannot be written.
pub open spec fn report_fault(app: App) -> Option<Seq<char>> {
    match app.audit.report {
        None => Some("audit未取得です。Rでrefreshしてください"@),
        Some(report) => if audit::digits_in(report.ts@).len() < 12 {
            Some("audit timestamp が不正です: "@ + report.ts@)
        } else {
            None
        },
    }
}

/// The file that a report is written to.
pub open spec fn report_path(app: App) -> Seq<char> {
    let digits = audit::digits_in(app.audit.report->Some_0.ts@);
    exec::path_in(
        app.paths.report_dir@,
        "agmsg-report-"@ + (digits.subrange(0, 8) + "-"@ + digits.subrange(8, 12)) + ".md"@,
    )
}

/// Why messages cannot be exported.
pub open spec fn export_fault(app: App) -> Option<Seq<char>> {
    match app.bulk.filter {
        None => Some("bulk filter is not loaded"@),
        Some(state) => if filter::picked(state.all_messages@, state.results@).len() == 0 {
            Some("filter has no results"@)
        } else {
            None
        },
    }
}

impl App {
    /// A file is to be written, or an error is shown. What goes wrong with the directory or the
    /// file is said in front of its path.
    pub open spec fn writes(
        self,
        fault: Option<Seq<char>>,
        file: Seq<char>,
        text: Seq<char>,
        no_directory: Seq<char>,
        no_file: Seq<char>,
        after: App,
        effect: Effect,
    ) -> bool {
        match fault {
            Some(error) => effect is Nothing && self.objects(after, error),
            None => {
                &&& after == self
                &&& effect matches Effect::Write {
                    directory,
                    path,
                    content,
                    directory_error,
                    file_error,
                } && directory@ == self.paths.report_dir@ && path@ == file && content@ == text
                    && directory_error@ == no_directory + self.paths.report_dir@ && file_error@
                    == no_file + file
            },
        }
    }

    fn writing(
        &self,
        path: String,
        content: String,
        no_directory: &str,
        no_file: &str,
    ) -> (effect: Effect)
        ensures
            self.writes(None, path@, content@, no_directory@, no_file@, *self, effect),
    {
        let directory = self.paths.report_dir.clone();
        let directory_error = concat2(no_directory, directory.as_str());
        let file_error = concat2(no_file, path.as_str());
        Effect::Write { directory, path, content, directory_error, file_error }
    }

    /// What exporting the audit does.
    pub open spec fn export_report_post(self, after: App, effect: Effect) -> bool {
        self.writes(
            report_fault(self),
            report_path(self),
            audit::report_document(
                self.audit.report->Some_0,
                self.audit.pair_matrices@,
                self.audit.zombies@,
                self.audit.stale_unreads@,
                self.audit.pair_window_days as nat,
            ),
            "reportディレクトリを作成できません: "@,
            "reportを書き込めません: "@,
            after,
            effect,
        )
    }

    /// Exports the audit as a document.
    pub fn export_audit_report(&mut self) -> (effect: Effect)
        ensures
            old(self).export_report_post(*final(self), effect),
            old(self).wf() ==> final(self).wf(),
    {
        let report = match &self.audit.report {
            Some(report) => report,
            None => {
                self.status = error_status("audit未取得です。Rでrefreshしてください");
                return Effect::Nothing;
            },
        };
        let stamp = match report_stamp(report.ts.as_str()) {
            Ok(stamp) => stamp,
            Err(error) => {
                self.status = error_status(error.as_str());
                return Effect::Nothing;
            },
        };
        let name = concat3("agmsg-report-", stamp.as_str(), ".md");
        let path = join_path(self.paths.report_dir.as_str(), name.as_str());
        let content = build_markdown_for_window(
            report,
            &self.audit.pair_matrices,
            &self.audit.zombies,
            &self.audit.stale_unreads,
            self.audit.pair_window_days,
        );
        self.writing(
            path,
            content,
            "reportディレクトリを作成できません: ",
            "reportを書き込めません: ",
        )
    }

    /// What exporting the found messages does.
    pub open spec fn export_bulk_post(
        self,
        format: ExportFormat,
        now: Timestamp,
        after: App,
        effect: Effect,
    ) -> bool {
        let state = self.bulk.filter->Some_0;
        let found = filter::picked(state.all_messages@, state.results@);
        let content = export::export_content(found, format, now);
        let path = exec::path_in(
            self.paths.report_dir@,
            "agmsg-bulk-"@ + clock::pattern_text(now.secs, now.nanos, "%Y%m%d-%H%M%S"@) + "."@
                + format.extension_text(),
        );
        self.writes(
            if export_fault(self) is None && content is None {
                Some("export failed: "@ + path)
            } else {
                export_fault(self)
            },
            path,
            content->Some_0,
            "export directory unavailable: "@,
            "export failed: "@,
            after,
            effect,
        )
    }

    /// Exports the found messages.
    pub fn export_bulk_filter(&mut self, format: ExportFormat, now: Timestamp) -> (effect: Effect)
        requires
            now.wf(),
        ensures
            old(self).export_bulk_post(format, now, *final(self), effect),
            old(self).wf() ==> final(self).wf(),
    {
        let state = match &self.bulk.filter {
            Some(state) => state,
            None => {
                self.status = error_status("bulk filter is not loaded");
                return Effect::Nothing;
            },
        };
        let messages = state.messages();
        if messages.len() == 0 {
            self.status = error_status("filter has no results");
            return Effect::Nothing;
        }
        let name = export_file_name(now, format);
        let path = join_path(self.paths.report_dir.as_str(), name.as_str());
        match export_bulk_messages(&messages, format, now) {
            Some(content) => self.writing(
                path,
                content,
                "export directory unavailable: ",
                "export failed: ",
            ),
            None => {
                let error = concat2("export failed: ", path.as_str());
                self.status = error_status(error.as_str());
                Effect::Nothing
            },
        }
    }

    /// Shows that a file was written, or why it was not.
    pub fn complete_export(&mut self, path: &str, written: Result<(), String>)
        ensures
            match written {
                Ok(_) => old(self).says(*final(self), "exported: "@ + path@),
                Err(error) => old(self).objects(*final(self), error@),
            },
            old(self).wf() ==> final(self).wf(),
    {
        match written {
            Ok(_) => {
                self.status = notice(concat2("exported: ", path));
            },
            Err(error) => {
                self.status = error_status(error.as_str());
            },
        }
    }

    /// A script is to run in the background, unless one does already.
    pub open spec fn launches(
        self,
        operation: InFlightOperation,
        after: App,
        effect: Effect,
        wanted: bool,
    ) -> bool {
        if self.background.in_flight is Some {
            effect is Nothing && after == self
        } else {
            wanted && self.start_post(operation, after, true)
        }
    }

    /// What dealing with one target of a bulk operation does: without a way to cancel it, it does
    /// not start.
    pub open spec fn run_target_post(
        self,
        scripts: ScriptRunner,
        wanted: BulkTarget,
        force: bool,
        after: App,
        effect: Effect,
    ) -> bool {
        if self.background.in_flight is Some {
            effect is Nothing && after == self
        } else if self.bulk.cancel == BulkCancel::Absent {
            &&& effect is Nothing
            &&& after == (App {
                background: crate::app::model::Background {
                    in_flight: None,
                    spinner_frame: 0,
                    ..self.background
                },
                status: after.status,
                ..self
            })
            &&& after.status.is_failure("bulk cancel channel is unavailable"@)
        } else {
            &&& effect matches Effect::Bulk { call, target } && target == wanted && target_call(
                scripts,
                wanted,
                force,
                call,
            )
            &&& self.start_post(InFlightOperation::Bulk, after, true)
        }
    }

    /// What an action does.
    pub open spec fn effect_post(
        self,
        scripts: ScriptRunner,
        action: AppAction,
        now: Timestamp,
        after: App,
        effect: Effect,
    ) -> bool {
        match action {
            AppAction::Nothing => effect is Nothing && after == self,
            AppAction::Quit => effect is Quit && after == self,
            AppAction::Send(request) => self.launches(
                InFlightOperation::Send,
                after,
                effect,
                (effect matches Effect::Send { call } && exec::plain_call(
                    call,
                    scripts.scripts_dir@,
                    "send.sh"@,
                    seq![request.team@, request.from@, request.to@, request.body@],
                    scripts.timeout,
                )),
            ),
            AppAction::MarkRecipient { team, recipient, unread_count: count } => self.launches(
                InFlightOperation::MarkRead,
                after,
                effect,
                (effect matches Effect::MarkRecipient { call, label, unread_count }
                    && exec::plain_call(
                    call,
                    scripts.scripts_dir@,
                    "inbox.sh"@,
                    seq![team@, recipient@, "--quiet"@],
                    scripts.timeout,
                ) && label@ == recipient@ && unread_count == count),
            ),
            AppAction::MarkTeam { team, recipients, unread_count: count } => self.launches(
                InFlightOperation::MarkRead,
                after,
                effect,
                (effect matches Effect::MarkTeam { run, label, unread_count } && run.team@ == team@
                    && run.recipients == recipients && run.next == 0 && run.stdout@
                    == Seq::<char>::empty() && run.stderr@ == Seq::<char>::empty() && label@
                    == team@ && unread_count == count),
            ),
            AppAction::RefreshAudit => after == self && (effect matches Effect::Audit { call }
                && exec::audit_call(scripts, call)),
            AppAction::RefreshHealth => effect is Health && after == self,
            AppAction::ExportReport => self.export_report_post(after, effect),
            AppAction::ExportBulk(format) => self.export_bulk_post(format, now, after, effect),
            AppAction::RunBulk { target, force_despawn } => self.run_target_post(
                scripts,
                target,
                force_despawn,
                after,
                effect,
            ),
            AppAction::Yank(text) => after == self && (effect matches Effect::Yank {
                body,
                sequence,
            } && body@ == text@ && sequence@ == "\x1b]52;c;"@ + clipboard::base64(
                vstd::utf8::encode_utf8(text@),
            ) + "\x07"@),
            AppAction::ManageAgent(wanted) => self.launches(
                InFlightOperation::Agent,
                after,
                effect,
                (effect matches Effect::Agent { call, operation } && operation == wanted
                    && agent_call(scripts, wanted, call)),
            ),
            AppAction::Load(wanted) => after == self && effect == Effect::Load(wanted),
            AppAction::Fail(error) => after == self && effect == Effect::Fail(error),
        }
    }

    /// Finds out what the event loop has to do for an action. While a script runs in the
    /// background no other one is started.
    pub fn execute_action(
        &mut self,
        action: AppAction,
        scripts: &ScriptRunner,
        now: Timestamp,
    ) -> (effect: Effect)
        requires
            now.wf(),
        ensures
            old(self).effect_post(*scripts, action, now, *final(self), effect),
            old(self).wf() ==> final(self).wf(),
    {
        match action {
            AppAction::Nothing => Effect::Nothing,
            AppAction::Quit => Effect::Quit,
            AppAction::Send(request) => {
                if !self.start_operation(InFlightOperation::Send) {
                    return Effect::Nothing;
                }
                let call = scripts.send(
                    request.team.as_str(),
                    request.from.as_str(),
                    request.to.as_str(),
                    request.body.as_str(),
                );
                Effect::Send { call }
            },
            AppAction::MarkRecipient { team, recipient, unread_count } => {
                if !self.start_operation(InFlightOperation::MarkRead) {
                    return Effect::Nothing;
                }
                let call = scripts.mark_recipient_read(team.as_str(), recipient.as_str());
                Effect::MarkRecipient { call, label: recipient, unread_count }
            },
            AppAction::MarkTeam { team, recipients, unread_count } => {
                if !self.start_operation(InFlightOperation::MarkRead) {
                    return Effect::Nothing;
                }
                let label = team.clone();
                Effect::MarkTeam { run: TeamReadRun::new(team, recipients), label, unread_count }
            },
            AppAction::RefreshAudit => Effect::Audit { call: scripts.audit() },
            AppAction::RefreshHealth => Effect::Health,
            AppAction::ExportReport => self.export_audit_report(),
            AppAction::ExportBulk(format) => self.export_bulk_filter(format, now),
            AppAction::RunBulk { target, force_despawn } => {
                if !self.start_operation(InFlightOperation::Bulk) {
                    return Effect::Nothing;
                }
                if self.bulk.cancel == BulkCancel::Absent {
                    self.finish_operation();
                    self.status = error_status("bulk cancel channel is unavailable");
                    return Effect::Nothing;
                }
                let call = target_script(scripts, &target, force_despawn);
                Effect::Bulk { call, target }
            },
            AppAction::Yank(body) => {
                let sequence = clipboard_sequence(body.as_str());
                Effect::Yank { body, sequence }
            },
            AppAction::ManageAgent(operation) => {
                if !self.start_operation(InFlightOperation::Agent) {
                    return Effect::Nothing;
                }
                let call = agent_script(scripts, &operation);
                Effect::Agent { call, operation }
            },
            AppAction::Load(query) => Effect::Load(query),
            AppAction::Fail(error) => Effect::Fail(error),
        }
    }
}

/// While a script runs in the background, no action starts another one.
pub proof fn busy_means_no_script(
    before: App,
    scripts: ScriptRunner,
    action: AppAction,
    now: Timestamp,
    after: App,
    effect: Effect,
)
    requires
        before.background.in_flight is Some,
        before.effect_post(scripts, action, now, after, effect),
    ensures
        !(effect is Send || effect is MarkRecipient || effect is MarkTeam || effect is Bulk
            || effect is Agent),
        after.background == before.background,
{
}

/// A reset never loses the project that it is for, whether one agent is reset or many are.
pub proof fn resets_keep_the_project(
    scripts: ScriptRunner,
    operation: AgentOperation,
    target: BulkTarget,
    force: bool,
    call: ScriptCall,
)
    requires
        (operation is Reset && agent_call(scripts, operation, call)) || (target is Reset
            && target_call(scripts, target, force, call)),
    ensures
        exec::keeps_project(call),
{
}

/// The words of the call are given by what the operation is about: a rename gives the team, the
/// name that the agent has now and the name that it gets, and so does the renaming of a team
/// without the team before them; spawning and joining give team, agent, CLI type and project each
/// in its place, and so on. No operation but a reset sets a variable.
pub proof fn agent_scripts_get_their_words(
    scripts: ScriptRunner,
    operation: AgentOperation,
    call: ScriptCall,
)
    requires
        agent_call(scripts, operation, call),
    ensures
        operation matches AgentOperation::Rename { team, old: from, new, .. } ==> {
            &&& call.name@ == "rename.sh"@
            &&& call.args@.len() == 3
            &&& call.args@[0]@ == team@
            &&& call.args@[1]@ == from@
            &&& call.args@[2]@ == new@
        },
        operation matches AgentOperation::RenameTeam { old: from, new } ==> {
            &&& call.name@ == "rename-team.sh"@
            &&& call.args@.len() == 2
            &&& call.args@[0]@ == from@
            &&& call.args@[1]@ == new@
        },
        operation matches AgentOperation::Leave { team, agent } ==> {
            &&& call.name@ == "leave.sh"@
            &&& call.args@.len() == 2
            &&& call.args@[0]@ == team@
            &&& call.args@[1]@ == agent@
        },
        operation matches AgentOperation::Reset { project, agent_type, agent } ==> {
            &&& call.name@ == "reset.sh"@
            &&& call.args@.len() == 3
            &&& call.args@[0]@ == project@
            &&& call.args@[1]@ == agent_type@
            &&& call.args@[2]@ == agent@
            &&& call.envs@.len() == 1
            &&& call.envs@[0].0@ == "AGMSG_RESOLVE_PROJECT"@
            &&& call.envs@[0].1@ == "0"@
        },
        operation matches AgentOperation::Spawn { team, agent_type, name } ==> {
            &&& call.name@ == "spawn.sh"@
            &&& call.args@.len() == 5
            &&& call.args@[0]@ == agent_type@
            &&& call.args@[1]@ == name@
            &&& call.args@[2]@ == "--team"@
            &&& call.args@[3]@ == team@
            &&& call.args@[4]@ == "--no-wait"@
        },
        operation matches AgentOperation::Join { team, agent, agent_type, project } ==> {
            &&& call.name@ == "join.sh"@
            &&& call.args@.len() == 4
            &&& call.args@[0]@ == team@
            &&& call.args@[1]@ == agent@
            &&& call.args@[2]@ == agent_type@
            &&& call.args@[3]@ == project@
        },
        operation matches AgentOperation::JoinForce { team, agent, agent_type, project } ==> {
            &&& call.name@ == "join.sh"@
            &&& call.args@.len() == 5
            &&& call.args@[0]@ == team@
            &&& call.args@[1]@ == agent@
            &&& call.args@[2]@ == agent_type@
            &&& call.args@[3]@ == project@
            &&& call.args@[4]@ == "--force"@
        },
        !(operation is Reset) ==> call.envs@.len() == 0,
        call.timeout == scripts.timeout,
        call.path@ == exec::path_in(scripts.scripts_dir@, call.name@),
{
    let words = crate::search::texts(call.args@);
    assert(words.len() == call.args@.len());
    assert forall|i: int| 0 <= i < words.len() implies #[trigger] words[i] == call.args@[i]@ by {
    }
}

/// The words of the call for one target of a bulk operation: what is marked read, reset, renamed or
/// shut down, each in its place. Only a forced shutdown is forced.
pub proof fn target_scripts_get_their_words(
    scripts: ScriptRunner,
    target: BulkTarget,
    force: bool,
    call: ScriptCall,
)
    requires
        target_call(scripts, target, force, call),
    ensures
        target matches BulkTarget::MarkRead(unread) ==> {
            &&& call.name@ == "inbox.sh"@
            &&& call.args@.len() == 3
            &&& call.args@[0]@ == unread.team@
            &&& call.args@[1]@ == unread.recipient@
            &&& call.args@[2]@ == "--quiet"@
        },
        target matches BulkTarget::Reset(identity) ==> {
            &&& call.name@ == "reset.sh"@
            &&& call.args@.len() == 3
            &&& call.args@[0]@ == identity.project@
            &&& call.args@[1]@ == identity.agent_type@
            &&& call.args@[2]@ == identity.agent@
            &&& call.envs@.len() == 1
            &&& call.envs@[0].0@ == "AGMSG_RESOLVE_PROJECT"@
            &&& call.envs@[0].1@ == "0"@
        },
        target matches BulkTarget::Rename(renamed) ==> {
            &&& call.name@ == "rename.sh"@
            &&& call.args@.len() == 3
            &&& call.args@[0]@ == renamed.team@
            &&& call.args@[1]@ == renamed.old@
            &&& call.args@[2]@ == renamed.new@
        },
        target matches BulkTarget::Despawn(shut) ==> {
            &&& call.name@ == "despawn.sh"@
            &&& call.args@.len() == (if force {
                4int
            } else {
                3
            })
            &&& call.args@[0]@ == shut.team@
            &&& call.args@[1]@ == shut.from@
            &&& call.args@[2]@ == shut.name@
            &&& force ==> call.args@[3]@ == "--force"@
            &&& call.timeout == 30_000_000_000
        },
        !(target is Reset) ==> call.envs@.len() == 0,
        !(target is Despawn) ==> call.timeout == scripts.timeout,
        call.path@ == exec::path_in(scripts.scripts_dir@, call.name@),
{
    let words = crate::search::texts(call.args@);
    assert(words.len() == call.args@.len());
    assert forall|i: int| 0 <= i < words.len() implies #[trigger] words[i] == call.args@[i]@ by {
    }
}

/// An agent that is renamed alone is renamed by the same call as one that is renamed among many.
pub proof fn one_rename_is_like_many(
    scripts: ScriptRunner,
    operation: AgentOperation,
    target: BulkTarget,
    force: bool,
    alone: ScriptCall,
    among_many: ScriptCall,
)
    requires
        agent_call(scripts, operation, alone),
        target_call(scripts, target, force, among_many),
        operation matches AgentOperation::Rename { team, old: from, new, .. } && target
            matches BulkTarget::Rename(renamed) && renamed.team@ == team@ && renamed.old@ == from@
            && renamed.new@ == new@,
    ensures
        alone.path@ == among_many.path@,
        alone.name@ == among_many.name@,
        alone.timeout == among_many.timeout,
        alone.envs@.len() == among_many.envs@.len(),
        alone.args@.len() == among_many.args@.len(),
        forall|i: int| 0 <= i < alone.args@.len() ==> (#[trigger] alone.args@[i])@
            == among_many.args@[i]@,
{
    agent_scripts_get_their_words(scripts, operation, alone);
    target_scripts_get_their_words(scripts, target, force, among_many);
}

/// What is sent or marked read reaches the script word for word: the team, the sender, the recipient
/// and the body of a message; the team and the recipient of what is marked read.
pub proof fn actions_reach_their_scripts(
    before: App,
    scripts: ScriptRunner,
    action: AppAction,
    now: Timestamp,
    after: App,
    effect: Effect,
)
    requires
        before.effect_post(scripts, action, now, after, effect),
        before.background.in_flight is None,
    ensures
        action matches AppAction::Send(request) ==> (effect matches Effect::Send { call }
            && call.name@ == "send.sh"@ && call.args@.len() == 4 && call.args@[0]@ == request.team@
            && call.args@[1]@ == request.from@ && call.args@[2]@ == request.to@ && call.args@[3]@
            == request.body@ && call.envs@.len() == 0 && call.timeout == scripts.timeout
            && call.path@ == exec::path_in(scripts.scripts_dir@, "send.sh"@)),
        action matches AppAction::MarkRecipient { team, recipient, unread_count: count } ==> (
        effect matches Effect::MarkRecipient { call, label, unread_count } && call.name@
            == "inbox.sh"@ && call.args@.len() == 3 && call.args@[0]@ == team@ && call.args@[1]@
            == recipient@ && call.args@[2]@ == "--quiet"@ && label@ == recipient@ && unread_count
            == count),
        action matches AppAction::MarkTeam { team, recipients, unread_count: count } ==> (
        effect matches Effect::MarkTeam { run, label, unread_count } && run.team@ == team@
            && run.recipients == recipients && run.next == 0 && label@ == team@ && unread_count
            == count),
        action matches AppAction::ManageAgent(wanted) ==> (effect matches Effect::Agent {
            call,
            operation,
        } && operation == wanted && agent_call(scripts, wanted, call)),
        action matches AppAction::RefreshAudit ==> (effect matches Effect::Audit { call }
            && call.path == scripts.audit_script && call.args@.len() == 2 && call.args@[0]@
            == "--json"@ && call.args@[1]@ == "--fix"@ && call.timeout == scripts.timeout),
        effect is Quit <==> action is Quit,
        effect is Send ==> action is Send,
        effect is MarkRecipient ==> action is MarkRecipient,
        effect is MarkTeam ==> action is MarkTeam,
        effect is Agent ==> action is ManageAgent,
        effect is Bulk ==> action is RunBulk,
{
    if let Effect::Send { call } = effect {
        call_words_in_place(call);
    }
    if let Effect::MarkRecipient { call, .. } = effect {
        call_words_in_place(call);
    }
    if let Effect::Audit { call } = effect {
        call_words_in_place(call);
    }
}

proof fn call_words_in_place(call: ScriptCall)
    ensures
        crate::search::texts(call.args@).len() == call.args@.len(),
        forall|i: int|
            0 <= i < call.args@.len() ==> (#[trigger] call.args@[i])@ == crate::search::texts(
                call.args@,
            )[i],
{
}

} // verus!

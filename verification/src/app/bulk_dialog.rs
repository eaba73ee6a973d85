//! The dialogs in which bulk operations are prepared: what each key does to the one that is open.

use crate::agents;
use crate::agents::validate_agent_name;
use crate::app::agent_dialog::edit;
use crate::app::status;
use crate::app::status::{step_down, validation_status, StatusLine};
use crate::bulk::target;
use crate::bulk::target::{BulkKind, BulkModal, BulkTarget, ExportFormat, RenameTarget};
use crate::db;
use crate::db::{identity_position, AgentTeamSummary};
use crate::input::{KeyCode, KeyEvent};
use crate::strings::{concat2, concat4, same_text};
use vstd::prelude::*;

verus! {

/// What a dialog asks for when it closes with an answer.
#[derive(Debug)]
pub enum BulkChoice {
    Nothing,
    Begin { kind: BulkKind, targets: Vec<BulkTarget> },
    Export(ExportFormat),
}

/// What one key does: the dialog that stays open, a new status line, and what was asked for.
#[derive(Debug)]
pub struct BulkDialogStep {
    pub modal: Option<BulkModal>,
    pub status: Option<StatusLine>,
    pub choice: BulkChoice,
}

impl BulkDialogStep {
    /// The dialog stays open as `modal` and nothing else happens.
    pub open spec fn stays(self, modal: BulkModal) -> bool {
        self.modal == Some(modal) && self.status is None && self.choice is Nothing
    }

    /// The dialog closes and nothing else happens.
    pub open spec fn closes(self) -> bool {
        self.modal is None && self.status is None && self.choice is Nothing
    }

    /// The dialog stays open unchanged and the input is refused with `text`.
    pub open spec fn refuses(self, modal: BulkModal, text: Seq<char>) -> bool {
        &&& self.modal == Some(modal)
        &&& self.status matches Some(line) && line.is_failure(text)
        &&& self.choice is Nothing
    }

    /// The dialog closes and a bulk operation begins.
    pub open spec fn begins(self, kind: BulkKind) -> bool {
        &&& self.modal is None
        &&& self.status is None
        &&& self.choice matches BulkChoice::Begin { kind: k, .. } && k == kind
    }
}

/// Some target of the team before `count` has the new name.
pub open spec fn proposed_before(
    targets: Seq<RenameTarget>,
    count: int,
    team: Seq<char>,
    name: Seq<char>,
) -> bool {
    exists|j: int|
        0 <= j < count && (#[trigger] targets[j]).team@ == team && targets[j].new@ == name
}

/// Some target of the team has the old name.
pub open spec fn renamed_away(
    targets: Seq<RenameTarget>,
    team: Seq<char>,
    name: Seq<char>,
) -> bool {
    exists|j: int|
        0 <= j < targets.len() && (#[trigger] targets[j]).team@ == team && targets[j].old@ == name
}

/// Some team of the name registers an agent of the name.
pub open spec fn registered_in(
    teams: Seq<AgentTeamSummary>,
    team: Seq<char>,
    name: Seq<char>,
) -> bool {
    exists|t: int|
        0 <= t < teams.len() && (#[trigger] teams[t]).name@ == team && db::has_identity(
            teams[t].identities@,
            name,
        )
}

/// Why the new name of one target is refused; `None` if it is accepted.
pub open spec fn rename_error(
    targets: Seq<RenameTarget>,
    teams: Seq<AgentTeamSummary>,
    index: int,
) -> Option<Seq<char>> {
    let target = targets[index];
    match agents::agent_name_error(target.new@, target.agent_type@) {
        Some(text) => Some(text),
        None => if target.new@ == target.old@ {
            Some(target.old@ + ": proposed name is unchanged"@)
        } else if proposed_before(targets, index, target.team@, target.new@) {
            Some("duplicate proposed name: "@ + target.team@ + "/"@ + target.new@)
        } else if registered_in(teams, target.team@, target.new@) && !renamed_away(
            targets,
            target.team@,
            target.new@,
        ) {
            Some("name already exists: "@ + target.team@ + "/"@ + target.new@)
        } else {
            None
        },
    }
}

/// Why the first refused target of the first `count` ones is refused; `None` if all are accepted.
pub open spec fn first_rename_error(
    targets: Seq<RenameTarget>,
    teams: Seq<AgentTeamSummary>,
    count: int,
) -> Option<Seq<char>>
    decreases count,
{
    if count <= 0 {
        None
    } else {
        match first_rename_error(targets, teams, count - 1) {
            Some(text) => Some(text),
            None => rename_error(targets, teams, count - 1),
        }
    }
}

fn is_proposed_before(
    targets: &Vec<RenameTarget>,
    count: usize,
    team: &str,
    name: &str,
) -> (found: bool)
    requires
        count <= targets@.len(),
    ensures
        found == proposed_before(targets@, count as int, team@, name@),
{
    let mut index: usize = 0;
    while index < count
        invariant
            index <= count <= targets@.len(),
            forall|j: int|
                0 <= j < index ==> !((#[trigger] targets@[j]).team@ == team@ && targets@[j].new@
                    == name@),
        decreases count - index,
    {
        if same_text(targets[index].team.as_str(), team) && same_text(
            targets[index].new.as_str(),
            name,
        ) {
            assert(targets@[index as int].team@ == team@);
            return true;
        }
        index += 1;
    }
    false
}

fn is_renamed_away(targets: &Vec<RenameTarget>, team: &str, name: &str) -> (found: bool)
    ensures
        found == renamed_away(targets@, team@, name@),
{
    let mut index: usize = 0;
    while index < targets.len()
        invariant
            index <= targets@.len(),
            forall|j: int|
                0 <= j < index ==> !((#[trigger] targets@[j]).team@ == team@ && targets@[j].old@
                    == name@),
        decreases targets@.len() - index,
    {
        if same_text(targets[index].team.as_str(), team) && same_text(
            targets[index].old.as_str(),
            name,
        ) {
            assert(targets@[index as int].team@ == team@);
            return true;
        }
        index += 1;
    }
    false
}

fn is_registered_in(teams: &Vec<AgentTeamSummary>, team: &str, name: &str) -> (found: bool)
    ensures
        found == registered_in(teams@, team@, name@),
{
    let mut index: usize = 0;
    while index < teams.len()
        invariant
            index <= teams@.len(),
            forall|t: int|
                0 <= t < index ==> !((#[trigger] teams@[t]).name@ == team@ && db::has_identity(
                    teams@[t].identities@,
                    name@,
                )),
        decreases teams@.len() - index,
    {
        if same_text(teams[index].name.as_str(), team) && identity_position(
            &teams[index].identities,
            name,
        ).is_some() {
            assert(teams@[index as int].name@ == team@);
            assert(db::has_identity(teams@[index as int].identities@, name@));
            return true;
        }
        index += 1;
    }
    false
}

/// Checks the new names of a bulk rename: each must be a name for its agent type, differ from the
/// old one, be proposed once in its team, and not be taken by an agent that keeps its name.
pub fn validate_bulk_renames(
    targets: &Vec<RenameTarget>,
    teams: &Vec<AgentTeamSummary>,
) -> (result: Result<(), String>)
    ensures
        agents::validates_as(
            result,
            first_rename_error(targets@, teams@, targets@.len() as int),
        ),
{
    let mut index: usize = 0;
    while index < targets.len()
        invariant
            index <= targets@.len(),
            first_rename_error(targets@, teams@, index as int) is None,
        decreases targets@.len() - index,
    {
        let target = &targets[index];
        let error = match validate_agent_name(target.new.as_str(), target.agent_type.as_str()) {
            Err(text) => Some(text),
            Ok(()) => if same_text(target.new.as_str(), target.old.as_str()) {
                Some(concat2(target.old.as_str(), ": proposed name is unchanged"))
            } else if is_proposed_before(targets, index, target.team.as_str(), target.new.as_str()) {
                Some(
                    concat4(
                        "duplicate proposed name: ",
                        target.team.as_str(),
                        "/",
                        target.new.as_str(),
                    ),
                )
            } else if is_registered_in(teams, target.team.as_str(), target.new.as_str())
                && !is_renamed_away(targets, target.team.as_str(), target.new.as_str()) {
                Some(
                    concat4(
                        "name already exists: ",
                        target.team.as_str(),
                        "/",
                        target.new.as_str(),
                    ),
                )
            } else {
                None
            },
        };
        if let Some(text) = error {
            proof {
                assert(rename_error(targets@, teams@, index as int) == Some(text@));
                error_comes_first(targets@, teams@, index as int, targets@.len() as int);
            }
            return Err(text);
        }
        assert(rename_error(targets@, teams@, index as int) is None);
        index += 1;
    }
    Ok(())
}

proof fn error_comes_first(
    targets: Seq<RenameTarget>,
    teams: Seq<AgentTeamSummary>,
    index: int,
    count: int,
)
    requires
        0 <= index < count,
        first_rename_error(targets, teams, index) is None,
        rename_error(targets, teams, index) is Some,
    ensures
        first_rename_error(targets, teams, count) == rename_error(targets, teams, index),
    decreases count,
{
    if count > index + 1 {
        error_comes_first(targets, teams, index, count - 1);
    } else {
        assert(first_rename_error(targets, teams, count - 1) is None);
    }
}

proof fn accepted_below(
    targets: Seq<RenameTarget>,
    teams: Seq<AgentTeamSummary>,
    count: int,
    index: int,
)
    requires
        first_rename_error(targets, teams, count) is None,
        0 <= index < count,
    ensures
        rename_error(targets, teams, index) is None,
    decreases count,
{
    if index < count - 1 {
        accepted_below(targets, teams, count - 1, index);
    }
}

/// Renames that were accepted do not collide: no two agents of a team get the same name, and no
/// agent gets the name of one that keeps it.
pub proof fn accepted_renames_do_not_collide(
    targets: Seq<RenameTarget>,
    teams: Seq<AgentTeamSummary>,
    index: int,
)
    requires
        first_rename_error(targets, teams, targets.len() as int) is None,
        0 <= index < targets.len(),
    ensures
        agents::agent_name_error(targets[index].new@, targets[index].agent_type@) is None,
        targets[index].new@ != targets[index].old@,
        forall|other: int|
            0 <= other < targets.len() && other != index && (#[trigger] targets[other]).team@
                == targets[index].team@ ==> targets[other].new@ != targets[index].new@,
        registered_in(teams, targets[index].team@, targets[index].new@) ==> renamed_away(
            targets,
            targets[index].team@,
            targets[index].new@,
        ),
{
    accepted_below(targets, teams, targets.len() as int, index);
    assert forall|other: int|
        0 <= other < targets.len() && other != index && (#[trigger] targets[other]).team@
            == targets[index].team@ implies targets[other].new@ != targets[index].new@ by {
        accepted_below(targets, teams, targets.len() as int, other);
        if targets[other].new@ == targets[index].new@ {
            if other < index {
                assert(proposed_before(targets, index, targets[index].team@, targets[index].new@));
            } else {
                assert(targets[index].team@ == targets[other].team@);
                assert(proposed_before(targets, other, targets[other].team@, targets[other].new@));
            }
        }
    }
}

/// What a key does to the preview of a bulk operation: it runs only after the confirmation was
/// typed as exactly `YES`.
pub open spec fn preview_post(
    kind: BulkKind,
    targets: Vec<BulkTarget>,
    confirm: String,
    scroll: usize,
    key: KeyEvent,
    step: BulkDialogStep,
) -> bool {
    let modal = BulkModal::Preview { kind, targets, confirm, scroll };
    match key.code {
        KeyCode::Esc => step.closes(),
        KeyCode::Up | KeyCode::Char('k') => step.stays(
            BulkModal::Preview {
                kind,
                targets,
                confirm,
                scroll: if scroll == 0 {
                    0
                } else {
                    (scroll - 1) as usize
                },
            },
        ),
        KeyCode::Down | KeyCode::Char('j') => step.stays(
            BulkModal::Preview {
                kind,
                targets,
                confirm,
                scroll: status::stepped_down(scroll as int, targets@.len() as int) as usize,
            },
        ),
        KeyCode::Enter => if confirm@ == "YES"@ {
            &&& step.begins(kind)
            &&& step.choice matches BulkChoice::Begin { targets: chosen, .. } && chosen == targets
        } else {
            step.refuses(modal, "type YES exactly"@)
        },
        _ => {
            &&& step.modal matches Some(
                BulkModal::Preview { kind: k, targets: t, confirm: c, scroll: s },
            ) && k == kind && t == targets && c@ == status::edited(confirm@, key) && s == scroll
            &&& step.status is None
            &&& step.choice is Nothing
        },
    }
}

/// What a key does to the choice of an export format.
pub open spec fn export_format_post(
    selected: ExportFormat,
    key: KeyEvent,
    step: BulkDialogStep,
) -> bool {
    match key.code {
        KeyCode::Esc => step.closes(),
        KeyCode::Left | KeyCode::Right => step.stays(
            BulkModal::ExportFormat {
                selected: match selected {
                    ExportFormat::Markdown => ExportFormat::Json,
                    ExportFormat::Json => ExportFormat::Markdown,
                },
            },
        ),
        KeyCode::Char('m') | KeyCode::Char('k') | KeyCode::Up => step.stays(
            BulkModal::ExportFormat { selected: ExportFormat::Markdown },
        ),
        KeyCode::Char('j') | KeyCode::Down => step.stays(
            BulkModal::ExportFormat { selected: ExportFormat::Json },
        ),
        KeyCode::Enter => {
            &&& step.modal is None
            &&& step.status is None
            &&& step.choice matches BulkChoice::Export(format) && format == selected
        },
        _ => step.stays(BulkModal::ExportFormat { selected }),
    }
}

/// What the new name of the selected target becomes: Backspace takes a character off it, and the
/// first character that is typed replaces it.
pub open spec fn renamed(name: Seq<char>, editing: bool, key: KeyEvent) -> Seq<char> {
    match key.code {
        KeyCode::Char(character) => if key.is_plain_text() && !editing {
            seq![character]
        } else {
            status::edited(name, key)
        },
        _ => status::edited(name, key),
    }
}

/// The key edits the new name of the selected target.
pub open spec fn edits_name(key: KeyEvent) -> bool {
    match key.code {
        KeyCode::Backspace => true,
        KeyCode::Char(_) => key.is_plain_text(),
        _ => false,
    }
}

/// What a key does to the list of proposed names.
pub open spec fn rename_edit_post(
    targets: Vec<RenameTarget>,
    selected: usize,
    editing: bool,
    key: KeyEvent,
    teams: Seq<AgentTeamSummary>,
    step: BulkDialogStep,
) -> bool {
    let modal = BulkModal::RenameEdit { targets, selected, editing };
    match key.code {
        KeyCode::Esc => step.closes(),
        KeyCode::Up | KeyCode::BackTab => step.stays(
            BulkModal::RenameEdit {
                targets,
                selected: if selected == 0 {
                    0
                } else {
                    (selected - 1) as usize
                },
                editing: false,
            },
        ),
        KeyCode::Down | KeyCode::Tab => step.stays(
            BulkModal::RenameEdit {
                targets,
                selected: status::stepped_down(selected as int, targets@.len() as int) as usize,
                editing: false,
            },
        ),
        KeyCode::Enter => match first_rename_error(targets@, teams, targets@.len() as int) {
            Some(text) => step.refuses(modal, text),
            None => {
                &&& step.modal matches Some(
                    BulkModal::RenameConfirm { targets: t, confirm, scroll },
                ) && t == targets && confirm@ == Seq::<char>::empty() && scroll == 0
                &&& step.status is None
                &&& step.choice is Nothing
            },
        },
        _ => if edits_name(key) && selected < targets@.len() {
            &&& step.modal matches Some(
                BulkModal::RenameEdit { targets: t, selected: s, editing: e },
            ) && s == selected && e && t@ == targets@.update(
                selected as int,
                t@[selected as int],
            ) && t@[selected as int] == (RenameTarget {
                new: t@[selected as int].new,
                ..targets@[selected as int]
            }) && t@[selected as int].new@ == renamed(
                targets@[selected as int].new@,
                editing,
                key,
            )
            &&& step.status is None
            &&& step.choice is Nothing
        } else {
            step.stays(
                BulkModal::RenameEdit {
                    targets,
                    selected,
                    editing: editing || key.code == KeyCode::Backspace,
                },
            )
        },
    }
}

/// The targets of the operation are the renames, in order.
pub open spec fn wraps_renames(chosen: Seq<BulkTarget>, targets: Seq<RenameTarget>) -> bool {
    &&& chosen.len() == targets.len()
    &&& forall|i: int|
        0 <= i < targets.len() ==> #[trigger] chosen[i] == BulkTarget::Rename(targets[i])
}

/// What a key does to the confirmation of a bulk rename.
pub open spec fn rename_confirm_post(
    targets: Vec<RenameTarget>,
    confirm: String,
    scroll: usize,
    key: KeyEvent,
    step: BulkDialogStep,
) -> bool {
    let modal = BulkModal::RenameConfirm { targets, confirm, scroll };
    match key.code {
        KeyCode::Esc => step.closes(),
        KeyCode::Up | KeyCode::Char('k') => step.stays(
            BulkModal::RenameConfirm {
                targets,
                confirm,
                scroll: if scroll == 0 {
                    0
                } else {
                    (scroll - 1) as usize
                },
            },
        ),
        KeyCode::Down | KeyCode::Char('j') => step.stays(
            BulkModal::RenameConfirm {
                targets,
                confirm,
                scroll: status::stepped_down(scroll as int, targets@.len() as int) as usize,
            },
        ),
        KeyCode::Enter => if confirm@ == "YES"@ {
            &&& step.begins(BulkKind::Rename)
            &&& step.choice matches BulkChoice::Begin { targets: chosen, .. } && wraps_renames(
                chosen@,
                targets@,
            )
        } else {
            step.refuses(modal, "type YES exactly"@)
        },
        _ => {
            &&& step.modal matches Some(
                BulkModal::RenameConfirm { targets: t, confirm: c, scroll: s },
            ) && t == targets && c@ == status::edited(confirm@, key) && s == scroll
            &&& step.status is None
            &&& step.choice is Nothing
        },
    }
}

/// What a key does to the dialog that is open.
pub open spec fn bulk_dialog_post(
    modal: BulkModal,
    key: KeyEvent,
    teams: Seq<AgentTeamSummary>,
    step: BulkDialogStep,
) -> bool {
    match modal {
        BulkModal::Preview { kind, targets, confirm, scroll } => preview_post(
            kind,
            targets,
            confirm,
            scroll,
            key,
            step,
        ),
        BulkModal::ExportFormat { selected } => export_format_post(selected, key, step),
        BulkModal::RenameEdit { targets, selected, editing } => rename_edit_post(
            targets,
            selected,
            editing,
            key,
            teams,
            step,
        ),
        BulkModal::RenameConfirm { targets, confirm, scroll } => rename_confirm_post(
            targets,
            confirm,
            scroll,
            key,
            step,
        ),
    }
}

fn stay(modal: BulkModal) -> (step: BulkDialogStep)
    ensures
        step.stays(modal),
{
    BulkDialogStep { modal: Some(modal), status: None, choice: BulkChoice::Nothing }
}

fn close() -> (step: BulkDialogStep)
    ensures
        step.closes(),
{
    BulkDialogStep { modal: None, status: None, choice: BulkChoice::Nothing }
}

fn refuse(modal: BulkModal, text: String) -> (step: BulkDialogStep)
    ensures
        step.refuses(modal, text@),
{
    BulkDialogStep {
        modal: Some(modal),
        status: Some(validation_status(text)),
        choice: BulkChoice::Nothing,
    }
}

fn begin(kind: BulkKind, targets: Vec<BulkTarget>) -> (step: BulkDialogStep)
    ensures
        step.begins(kind),
        step.choice == (BulkChoice::Begin { kind, targets }),
{
    BulkDialogStep { modal: None, status: None, choice: BulkChoice::Begin { kind, targets } }
}

fn preview_step(
    kind: BulkKind,
    targets: Vec<BulkTarget>,
    confirm: String,
    scroll: usize,
    key: KeyEvent,
) -> (step: BulkDialogStep)
    ensures
        preview_post(kind, targets, confirm, scroll, key, step),
{
    match key.code {
        KeyCode::Esc => close(),
        KeyCode::Up | KeyCode::Char('k') => {
            let scroll: usize = if scroll == 0 {
                0
            } else {
                scroll - 1
            };
            stay(BulkModal::Preview { kind, targets, confirm, scroll })
        },
        KeyCode::Down | KeyCode::Char('j') => {
            let scroll: usize = step_down(scroll, targets.len());
            stay(BulkModal::Preview { kind, targets, confirm, scroll })
        },
        KeyCode::Enter => {
            if same_text(confirm.as_str(), "YES") {
                begin(kind, targets)
            } else {
                refuse(
                    BulkModal::Preview { kind, targets, confirm, scroll },
                    "type YES exactly".to_owned(),
                )
            }
        },
        _ => {
            let mut field = confirm;
            edit(&mut field, key);
            stay(BulkModal::Preview { kind, targets, confirm: field, scroll })
        },
    }
}

fn export_format_step(selected: ExportFormat, key: KeyEvent) -> (step: BulkDialogStep)
    ensures
        export_format_post(selected, key, step),
{
    match key.code {
        KeyCode::Esc => close(),
        KeyCode::Left | KeyCode::Right => stay(
            BulkModal::ExportFormat {
                selected: match selected {
                    ExportFormat::Markdown => ExportFormat::Json,
                    ExportFormat::Json => ExportFormat::Markdown,
                },
            },
        ),
        KeyCode::Char('m') | KeyCode::Char('k') | KeyCode::Up => stay(
            BulkModal::ExportFormat { selected: ExportFormat::Markdown },
        ),
        KeyCode::Char('j') | KeyCode::Down => stay(
            BulkModal::ExportFormat { selected: ExportFormat::Json },
        ),
        KeyCode::Enter => BulkDialogStep {
            modal: None,
            status: None,
            choice: BulkChoice::Export(selected),
        },
        _ => stay(BulkModal::ExportFormat { selected }),
    }
}

fn edit_name(
    targets: Vec<RenameTarget>,
    selected: usize,
    editing: bool,
    key: KeyEvent,
) -> (step: BulkDialogStep)
    requires
        edits_name(key),
        selected < targets@.len(),
    ensures
        step.modal matches Some(BulkModal::RenameEdit { targets: t, selected: s, editing: e }) && s
            == selected && e && t@ == targets@.update(selected as int, t@[selected as int])
            && t@[selected as int] == (RenameTarget {
            new: t@[selected as int].new,
            ..targets@[selected as int]
        }) && t@[selected as int].new@ == renamed(targets@[selected as int].new@, editing, key),
        step.status is None,
        step.choice is Nothing,
{
    let mut targets = targets;
    let mut target = targets[selected].clone();
    if !editing && key.code != KeyCode::Backspace {
        target.new.clear();
    }
    edit(&mut target.new, key);
    proof {
        assert(target.new@ =~= renamed(targets@[selected as int].new@, editing, key));
    }
    targets.set(selected, target);
    stay(BulkModal::RenameEdit { targets, selected, editing: true })
}

fn rename_edit_step(
    targets: Vec<RenameTarget>,
    selected: usize,
    editing: bool,
    key: KeyEvent,
    teams: &Vec<AgentTeamSummary>,
) -> (step: BulkDialogStep)
    ensures
        rename_edit_post(targets, selected, editing, key, teams@, step),
{
    match key.code {
        KeyCode::Esc => close(),
        KeyCode::Up | KeyCode::BackTab => {
            let selected: usize = if selected == 0 {
                0
            } else {
                selected - 1
            };
            stay(BulkModal::RenameEdit { targets, selected, editing: false })
        },
        KeyCode::Down | KeyCode::Tab => {
            let selected: usize = step_down(selected, targets.len());
            stay(BulkModal::RenameEdit { targets, selected, editing: false })
        },
        KeyCode::Enter => match validate_bulk_renames(&targets, teams) {
            Ok(()) => stay(
                BulkModal::RenameConfirm { targets, confirm: String::new(), scroll: 0 },
            ),
            Err(text) => refuse(BulkModal::RenameEdit { targets, selected, editing }, text),
        },
        KeyCode::Backspace => {
            if selected < targets.len() {
                edit_name(targets, selected, editing, key)
            } else {
                stay(BulkModal::RenameEdit { targets, selected, editing: true })
            }
        },
        KeyCode::Char(_) => {
            if key.plain_text() && selected < targets.len() {
                edit_name(targets, selected, editing, key)
            } else {
                stay(BulkModal::RenameEdit { targets, selected, editing })
            }
        },
        _ => stay(BulkModal::RenameEdit { targets, selected, editing }),
    }
}

fn rename_targets(targets: &Vec<RenameTarget>) -> (chosen: Vec<BulkTarget>)
    ensures
        wraps_renames(chosen@, targets@),
{
    let mut chosen: Vec<BulkTarget> = Vec::new();
    let mut index: usize = 0;
    while index < targets.len()
        invariant
            index <= targets@.len(),
            chosen@.len() == index,
            forall|i: int|
                0 <= i < index ==> #[trigger] chosen@[i] == BulkTarget::Rename(targets@[i]),
        decreases targets@.len() - index,
    {
        chosen.push(BulkTarget::Rename(targets[index].clone()));
        index += 1;
    }
    chosen
}

fn rename_confirm_step(
    targets: Vec<RenameTarget>,
    confirm: String,
    scroll: usize,
    key: KeyEvent,
) -> (step: BulkDialogStep)
    ensures
        rename_confirm_post(targets, confirm, scroll, key, step),
{
    match key.code {
        KeyCode::Esc => close(),
        KeyCode::Up | KeyCode::Char('k') => {
            let scroll: usize = if scroll == 0 {
                0
            } else {
                scroll - 1
            };
            stay(BulkModal::RenameConfirm { targets, confirm, scroll })
        },
        KeyCode::Down | KeyCode::Char('j') => {
            let scroll: usize = step_down(scroll, targets.len());
            stay(BulkModal::RenameConfirm { targets, confirm, scroll })
        },
        KeyCode::Enter => {
            if same_text(confirm.as_str(), "YES") {
                begin(BulkKind::Rename, rename_targets(&targets))
            } else {
                refuse(
                    BulkModal::RenameConfirm { targets, confirm, scroll },
                    "type YES exactly".to_owned(),
                )
            }
        },
        _ => {
            let mut field = confirm;
            edit(&mut field, key);
            stay(BulkModal::RenameConfirm { targets, confirm: field, scroll })
        },
    }
}

/// The operation that a dialog asks for has targets, and all their units can be counted.
pub open spec fn choice_wf(choice: BulkChoice) -> bool {
    choice matches BulkChoice::Begin { targets, .. } ==> targets@.len() > 0 && target::units_sum(
        targets@,
    ) <= usize::MAX
}

/// Applies a key to the dialog in which a bulk operation is prepared.
pub fn bulk_dialog_key(modal: BulkModal, key: KeyEvent, teams: &Vec<AgentTeamSummary>) -> (step:
    BulkDialogStep)
    requires
        modal.wf(),
    ensures
        bulk_dialog_post(modal, key, teams@, step),
        step.modal matches Some(open) ==> open.wf(),
        choice_wf(step.choice),
{
    match modal {
        BulkModal::Preview { kind, targets, confirm, scroll } => preview_step(
            kind,
            targets,
            confirm,
            scroll,
            key,
        ),
        BulkModal::ExportFormat { selected } => export_format_step(selected, key),
        BulkModal::RenameEdit { targets, selected, editing } => rename_edit_step(
            targets,
            selected,
            editing,
            key,
            teams,
        ),
        BulkModal::RenameConfirm { targets, confirm, scroll } => {
            let count: usize = targets.len();
            let step = rename_confirm_step(targets, confirm, scroll, key);
            proof {
                if let BulkChoice::Begin { targets: chosen, .. } = &step.choice {
                    assert forall|i: int| 0 <= i < chosen@.len() implies !(
                    #[trigger] chosen@[i] is MarkRead) by {}
                    target::units_of_single(chosen@);
                }
            }
            step
        },
    }
}

/// No bulk operation begins unless its confirmation was typed as exactly `YES`, and its targets are
/// exactly those that the dialog showed.
pub proof fn bulk_operations_need_yes(
    modal: BulkModal,
    key: KeyEvent,
    teams: Seq<AgentTeamSummary>,
    step: BulkDialogStep,
)
    requires
        bulk_dialog_post(modal, key, teams, step),
        step.choice is Begin,
    ensures
        key.code == KeyCode::Enter,
        step.modal is None,
        match modal {
            BulkModal::Preview { kind, targets, confirm, .. } => confirm@ == "YES"@
                && step.choice == (BulkChoice::Begin { kind, targets }),
            BulkModal::RenameConfirm { targets, confirm, .. } => {
                &&& confirm@ == "YES"@
                &&& step.choice matches BulkChoice::Begin { kind, targets: chosen } && kind
                    == BulkKind::Rename && wraps_renames(chosen@, targets@)
            },
            _ => false,
        },
{
}

} // verus!

use vstd::prelude::*;

use crate::clipboard::{FileClipboard, FileClipboardMode};
use crate::files::TrashEntry;
use crate::labels::decimal;
use crate::ops::{copy_texts, text_list, ConflictDecision, FsOperation, FsOperationView};
use crate::paths::{same_path, selection_subject, spec_selection_subject};
use crate::runner::counted_text;
use crate::sheets::{plural, selects};

verus! {

/// How grave a confirmation is.
#[derive(Clone, Copy, Debug, PartialEq, Eq, Structural)]
pub enum PromptLevel {
    Warning,
    Critical,
}

/// A question asked before an operation runs: the first button confirms and
/// starts the operation with its progress message, the second cancels.
pub struct Confirmation {
    pub level: PromptLevel,
    pub message: String,
    pub detail: String,
    pub confirm_label: String,
    pub cancel_label: String,
    pub operation: FsOperation,
    pub progress: String,
}

/// A confirmation as plain values.
pub struct ConfirmationView {
    pub level: PromptLevel,
    pub message: Seq<char>,
    pub detail: Seq<char>,
    pub confirm_label: Seq<char>,
    pub cancel_label: Seq<char>,
    pub operation: FsOperationView,
    pub progress: Seq<char>,
}

impl View for Confirmation {
    type V = ConfirmationView;

    open spec fn view(&self) -> ConfirmationView {
        ConfirmationView {
            level: self.level,
            message: self.message@,
            detail: self.detail@,
            confirm_label: self.confirm_label@,
            cancel_label: self.cancel_label@,
            operation: self.operation@,
            progress: self.progress@,
        }
    }
}

/// An optional confirmation as plain values.
pub open spec fn asked(c: Option<Confirmation>) -> Option<ConfirmationView> {
    match c {
        Some(c) => Some(c@),
        None => None,
    }
}

/// The detail shown when the operation cannot be undone.
pub open spec fn irreversible_detail() -> Seq<char> {
    "This action cannot be undone."@
}

/// The confirmation for moving the selected paths to the trash.
pub open spec fn spec_trash_confirmation(paths: Seq<Seq<char>>) -> ConfirmationView {
    ConfirmationView {
        level: PromptLevel::Warning,
        message: "Move "@ + spec_selection_subject(paths) + " to Trash?"@,
        detail: "You can restore it with Ctrl+Z while gnil-fm remains open."@,
        confirm_label: "Move to Trash"@,
        cancel_label: "Cancel"@,
        operation: FsOperationView::Trash { paths: paths },
        progress: "Moving "@ + decimal(paths.len()) + " item"@ + plural(paths.len()) + " to Trash…"@,
    }
}

/// The confirmation for deleting the selected paths for good.
pub open spec fn spec_delete_confirmation(paths: Seq<Seq<char>>) -> ConfirmationView {
    ConfirmationView {
        level: PromptLevel::Critical,
        message: "Permanently delete "@ + spec_selection_subject(paths) + "?"@,
        detail: irreversible_detail(),
        confirm_label: "Delete Permanently"@,
        cancel_label: "Cancel"@,
        operation: FsOperationView::DeletePermanently { paths: paths },
        progress: "Deleting "@ + decimal(paths.len()) + " item"@ + plural(paths.len()) + "…"@,
    }
}

fn cancel_label() -> (label: String)
    ensures
        label@ == "Cancel"@,
{
    String::from_str("Cancel")
}

/// Asks before moving the selected paths to the trash; nothing when none is
/// selected or an operation runs.
pub fn trash_confirmation(paths: &Vec<String>, running: bool) -> (c: Option<Confirmation>)
    ensures
        asked(c) == if paths@.len() == 0 || running {
            None
        } else {
            Some(spec_trash_confirmation(text_list(paths@)))
        },
{
    if paths.len() == 0 || running {
        return None;
    }
    let subject = selection_subject(paths.as_slice());
    let mut message = String::from_str("Move ");
    message.append(subject.as_str());
    message.append(" to Trash?");
    let c = Confirmation {
        level: PromptLevel::Warning,
        message,
        detail: String::from_str("You can restore it with Ctrl+Z while gnil-fm remains open."),
        confirm_label: String::from_str("Move to Trash"),
        cancel_label: cancel_label(),
        operation: FsOperation::Trash { paths: copy_texts(paths) },
        progress: counted_text("Moving ", paths.len(), " item", " to Trash…"),
    };
    assert(paths@.map_values(|p: String| p@) =~= text_list(paths@));
    assert(c@ == spec_trash_confirmation(text_list(paths@)));
    Some(c)
}

/// Asks before deleting the selected paths for good; nothing when none is
/// selected or an operation runs.
pub fn delete_confirmation(paths: &Vec<String>, running: bool) -> (c: Option<Confirmation>)
    ensures
        asked(c) == if paths@.len() == 0 || running {
            None
        } else {
            Some(spec_delete_confirmation(text_list(paths@)))
        },
{
    if paths.len() == 0 || running {
        return None;
    }
    let subject = selection_subject(paths.as_slice());
    let mut message = String::from_str("Permanently delete ");
    message.append(subject.as_str());
    message.append("?");
    let c = Confirmation {
        level: PromptLevel::Critical,
        message,
        detail: String::from_str("This action cannot be undone."),
        confirm_label: String::from_str("Delete Permanently"),
        cancel_label: cancel_label(),
        operation: FsOperation::DeletePermanently { paths: copy_texts(paths) },
        progress: counted_text("Deleting ", paths.len(), " item", "…"),
    };
    assert(paths@.map_values(|p: String| p@) =~= text_list(paths@));
    assert(c@ == spec_delete_confirmation(text_list(paths@)));
    Some(c)
}

/// Whether a path is among the selected ones.
pub open spec fn is_selected(selected: Seq<Seq<char>>, path: Seq<char>) -> bool {
    exists|j: int| 0 <= j < selected.len() && same_path(#[trigger] selected[j], path)
}

/// The info files of the first `n` trash items that are selected, in trash
/// order.
pub open spec fn selected_infos(entries: Seq<TrashEntry>, selected: Seq<Seq<char>>, n: int) -> Seq<Seq<char>>
    decreases n,
{
    if n <= 0 {
        Seq::empty()
    } else {
        selected_infos(entries, selected, n - 1) + if is_selected(selected, entries[n - 1].info_path@) {
            seq![entries[n - 1].info_path@]
        } else {
            Seq::empty()
        }
    }
}

/// How many of the first `n` trash items are selected and have something at
/// their original path.
pub open spec fn conflict_count(entries: Seq<TrashEntry>, selected: Seq<Seq<char>>, taken: Seq<bool>, n: int) -> nat
    decreases n,
{
    if n <= 0 {
        0
    } else {
        conflict_count(entries, selected, taken, n - 1) + if is_selected(selected, entries[n - 1].info_path@)
            && taken[n - 1] {
            1nat
        } else {
            0nat
        }
    }
}

/// The info files of all trash items.
pub open spec fn all_infos(entries: Seq<TrashEntry>) -> Seq<Seq<char>> {
    entries.map_values(|e: TrashEntry| e.info_path@)
}

/// The info files of the selected trash items, in trash order.
pub fn selected_trash_infos(entries: &Vec<TrashEntry>, selected: &Vec<String>) -> (infos: Vec<String>)
    ensures
        text_list(infos@) == selected_infos(entries@, text_list(selected@), entries@.len() as int),
{
    let ghost views = text_list(selected@);
    let mut infos: Vec<String> = Vec::new();
    let mut i: usize = 0;
    while i < entries.len()
        invariant
            views == text_list(selected@),
            i <= entries@.len(),
            text_list(infos@) == selected_infos(entries@, views, i as int),
        decreases entries@.len() - i,
    {
        let ghost prev = infos@;
        if selects(selected, entries[i].info_path.as_str()) {
            infos.push(entries[i].info_path.clone());
            assert(text_list(infos@) =~= text_list(prev).push(entries@[i as int].info_path@));
        }
        assert(text_list(infos@) =~= selected_infos(entries@, views, i as int + 1));
        i += 1;
    }
    infos
}

/// The confirmation for deleting trash items for good.
pub open spec fn spec_purge_confirmation(infos: Seq<Seq<char>>) -> ConfirmationView {
    ConfirmationView {
        level: PromptLevel::Critical,
        message: "Permanently delete "@ + decimal(infos.len()) + " trash item"@ + plural(infos.len()) + "?"@,
        detail: irreversible_detail(),
        confirm_label: "Delete Permanently"@,
        cancel_label: "Cancel"@,
        operation: FsOperationView::PurgeTrash { info_paths: infos },
        progress: "Deleting from Trash…"@,
    }
}

/// Asks before deleting the selected trash items for good; nothing when none
/// of them is in the trash list or an operation runs.
pub fn purge_confirmation(entries: &Vec<TrashEntry>, selected: &Vec<String>, running: bool) -> (c: Option<
    Confirmation,
>)
    ensures
        ({
            let infos = selected_infos(entries@, text_list(selected@), entries@.len() as int);
            asked(c) == if infos.len() == 0 || running {
                None
            } else {
                Some(spec_purge_confirmation(infos))
            }
        }),
{
    let infos = selected_trash_infos(entries, selected);
    if infos.len() == 0 || running {
        return None;
    }
    let c = Confirmation {
        level: PromptLevel::Critical,
        message: counted_text("Permanently delete ", infos.len(), " trash item", "?"),
        detail: String::from_str("This action cannot be undone."),
        confirm_label: String::from_str("Delete Permanently"),
        cancel_label: cancel_label(),
        progress: String::from_str("Deleting from Trash…"),
        operation: FsOperation::PurgeTrash { info_paths: infos },
    };
    Some(c)
}

/// The confirmation for emptying the trash.
pub open spec fn spec_empty_trash_confirmation(infos: Seq<Seq<char>>) -> ConfirmationView {
    ConfirmationView {
        level: PromptLevel::Critical,
        message: "Empty Trash?"@,
        detail: "Every item in every available trash location will be permanently deleted."@,
        confirm_label: "Empty Trash"@,
        cancel_label: "Cancel"@,
        operation: FsOperationView::PurgeTrash { info_paths: infos },
        progress: "Emptying Trash…"@,
    }
}

/// Asks before deleting every trash item for good; nothing when the trash is
/// empty or an operation runs.
pub fn empty_trash_confirmation(entries: &Vec<TrashEntry>, running: bool) -> (c: Option<Confirmation>)
    ensures
        asked(c) == if entries@.len() == 0 || running {
            None
        } else {
            Some(spec_empty_trash_confirmation(all_infos(entries@)))
        },
{
    if entries.len() == 0 || running {
        return None;
    }
    let mut infos: Vec<String> = Vec::new();
    let mut i: usize = 0;
    while i < entries.len()
        invariant
            i <= entries@.len(),
            text_list(infos@) == all_infos(entries@).take(i as int),
        decreases entries@.len() - i,
    {
        let ghost prev = infos@;
        infos.push(entries[i].info_path.clone());
        assert(text_list(infos@) =~= text_list(prev).push(entries@[i as int].info_path@));
        assert(all_infos(entries@)[i as int] == entries@[i as int].info_path@);
        assert(text_list(infos@) =~= all_infos(entries@).take(i as int + 1));
        i += 1;
    }
    assert(all_infos(entries@).take(i as int) =~= all_infos(entries@));
    let c = Confirmation {
        level: PromptLevel::Critical,
        message: String::from_str("Empty Trash?"),
        detail: String::from_str("Every item in every available trash location will be permanently deleted."),
        confirm_label: String::from_str("Empty Trash"),
        cancel_label: cancel_label(),
        progress: String::from_str("Emptying Trash…"),
        operation: FsOperation::PurgeTrash { info_paths: infos },
    };
    Some(c)
}

/// How restoring trash items goes.
pub enum RestorePlan {
    /// Nothing is selected, or an operation runs.
    Nothing,
    /// Nothing is in the way: restore at once.
    Start { operation: FsOperation, progress: String },
    /// Items are in the way at their original paths: ask before replacing them.
    Confirm(Confirmation),
}

/// The confirmation for restoring trash items over `conflicts` items that are
/// in the way.
pub open spec fn spec_replace_confirmation(infos: Seq<Seq<char>>, conflicts: nat) -> ConfirmationView {
    ConfirmationView {
        level: PromptLevel::Warning,
        message: "Replace "@ + decimal(conflicts) + " existing item"@ + plural(conflicts) + "?"@,
        detail: "Restoring will permanently replace the items currently at their original paths."@,
        confirm_label: "Replace and Restore"@,
        cancel_label: "Cancel"@,
        operation: FsOperationView::RestoreTrash { info_paths: infos, replace_existing: true },
        progress: "Replacing and restoring…"@,
    }
}

/// Plans restoring the selected trash items. `taken[i]` says whether something
/// is at the original path of the i-th trash item.
pub fn restore_plan(entries: &Vec<TrashEntry>, selected: &Vec<String>, taken: &Vec<bool>, running: bool) -> (plan:
    RestorePlan)
    requires
        taken@.len() == entries@.len(),
    ensures
        ({
            let infos = selected_infos(entries@, text_list(selected@), entries@.len() as int);
            let conflicts = conflict_count(entries@, text_list(selected@), taken@, entries@.len() as int);
            if infos.len() == 0 || running {
                plan is Nothing
            } else if conflicts == 0 {
                plan matches RestorePlan::Start { operation, progress } && operation@ == (FsOperationView::RestoreTrash {
                    info_paths: infos,
                    replace_existing: false,
                }) && progress@ == "Restoring from Trash…"@
            } else {
                plan matches RestorePlan::Confirm(c) && c@ == spec_replace_confirmation(infos, conflicts)
            }
        }),
{
    let ghost views = text_list(selected@);
    let mut infos: Vec<String> = Vec::new();
    let mut conflicts: usize = 0;
    let mut i: usize = 0;
    while i < entries.len()
        invariant
            views == text_list(selected@),
            taken@.len() == entries@.len(),
            i <= entries@.len(),
            conflicts <= i,
            text_list(infos@) == selected_infos(entries@, views, i as int),
            conflicts == conflict_count(entries@, views, taken@, i as int),
        decreases entries@.len() - i,
    {
        let ghost prev = infos@;
        if selects(selected, entries[i].info_path.as_str()) {
            infos.push(entries[i].info_path.clone());
            assert(text_list(infos@) =~= text_list(prev).push(entries@[i as int].info_path@));
            if taken[i] {
                conflicts += 1;
            }
        }
        assert(text_list(infos@) =~= selected_infos(entries@, views, i as int + 1));
        i += 1;
    }
    if infos.len() == 0 || running {
        return RestorePlan::Nothing;
    }
    if conflicts == 0 {
        return RestorePlan::Start {
            operation: FsOperation::RestoreTrash { info_paths: infos, replace_existing: false },
            progress: String::from_str("Restoring from Trash…"),
        };
    }
    let c = Confirmation {
        level: PromptLevel::Warning,
        message: counted_text("Replace ", conflicts, " existing item", "?"),
        detail: String::from_str("Restoring will permanently replace the items currently at their original paths."),
        confirm_label: String::from_str("Replace and Restore"),
        cancel_label: cancel_label(),
        progress: String::from_str("Replacing and restoring…"),
        operation: FsOperation::RestoreTrash { info_paths: infos, replace_existing: true },
    };
    RestorePlan::Confirm(c)
}

/// What pasting does.
pub enum PastePlan {
    /// The clipboard holds no local files; the status says so.
    NoFiles { status: String },
    /// Run the operation; drop the file clipboard once it succeeds when asked.
    Start { operation: FsOperation, progress: String, clear_clipboard: bool },
}

/// Plans pasting the clipboard's files into a folder: copied files are copied
/// beside any that share their names, cut files are moved, asking on
/// conflicts, and the clipboard is emptied after a move.
pub fn paste_plan(clipboard: Option<FileClipboard>, destination: &str) -> (plan: PastePlan)
    ensures
        match clipboard {
            None => plan matches PastePlan::NoFiles { status } && status@ == "Clipboard contains no local files"@,
            Some(cb) => match cb.mode {
                FileClipboardMode::Copy => plan matches PastePlan::Start { operation, progress, clear_clipboard }
                    && operation@ == (FsOperationView::Copy {
                    sources: text_list(cb.paths@),
                    destination: destination@,
                    conflict: ConflictDecision::KeepBoth,
                }) && progress@ == "Copying…"@ && !clear_clipboard,
                FileClipboardMode::Cut => plan matches PastePlan::Start { operation, progress, clear_clipboard }
                    && operation@ == (FsOperationView::Move {
                    sources: text_list(cb.paths@),
                    destination: destination@,
                    conflict: ConflictDecision::Ask,
                }) && progress@ == "Moving…"@ && clear_clipboard,
            },
        },
{
    match clipboard {
        None => PastePlan::NoFiles { status: String::from_str("Clipboard contains no local files") },
        Some(cb) => match cb.mode {
            FileClipboardMode::Copy => PastePlan::Start {
                operation: FsOperation::Copy {
                    sources: cb.paths,
                    destination: String::from_str(destination),
                    conflict: ConflictDecision::KeepBoth,
                },
                progress: String::from_str("Copying…"),
                clear_clipboard: false,
            },
            FileClipboardMode::Cut => PastePlan::Start {
                operation: FsOperation::Move {
                    sources: cb.paths,
                    destination: String::from_str(destination),
                    conflict: ConflictDecision::Ask,
                },
                progress: String::from_str("Moving…"),
                clear_clipboard: true,
            },
        },
    }
}

/// The status after files are put on the clipboard.
pub open spec fn spec_clipboard_status(mode: FileClipboardMode, count: nat) -> Seq<char> {
    (match mode {
        FileClipboardMode::Copy => "Copied "@,
        FileClipboardMode::Cut => "Cut "@,
    }) + decimal(count) + " item"@ + plural(count)
}

/// The status after files are put on the clipboard.
pub fn clipboard_status(mode: FileClipboardMode, count: usize) -> (status: String)
    ensures
        status@ == spec_clipboard_status(mode, count as nat),
{
    proof {
        reveal_strlit("");
    }
    match mode {
        FileClipboardMode::Copy => counted_text("Copied ", count, " item", ""),
        FileClipboardMode::Cut => counted_text("Cut ", count, " item", ""),
    }
}

} // verus!

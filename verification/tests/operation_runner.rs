use gnil_app::clipboard::{FileClipboard, FileClipboardMode};
use gnil_app::confirm::{
    clipboard_status, delete_confirmation, empty_trash_confirmation, paste_plan, purge_confirmation, restore_plan,
    selected_trash_infos, trash_confirmation, PastePlan, PromptLevel, RestorePlan,
};
use gnil_app::files::TrashEntry;
use gnil_app::model::{FileKind, SortDirection, SortField, SortSpec};
use gnil_app::ops::{ConflictDecision, FsOperation};
use gnil_app::runner::{
    counted_text, header_sort, FinishStep, OperationOutcome, OperationRunner, UndoEntry, UndoStart,
};

fn trash_item(name: &str) -> TrashEntry {
    TrashEntry {
        name: name.into(),
        kind: FileKind::File,
        len: 1,
        info_path: format!("/t/info/{name}.trashinfo"),
        original_path: format!("/home/me/{name}"),
    }
}

fn outcome(paths: &[&str], undo: Option<&str>) -> OperationOutcome<u32> {
    OperationOutcome {
        affected_paths: paths.iter().map(|p| p.to_string()).collect(),
        undo: undo.map(|label| UndoEntry { label: label.into(), record: 7 }),
    }
}

#[test]
fn header_clicks_flip_the_sorted_column_and_start_others_ascending() {
    let by_name = SortSpec { field: SortField::Name, direction: SortDirection::Ascending };
    let flipped = header_sort(by_name, SortField::Name);
    assert_eq!(flipped, SortSpec { field: SortField::Name, direction: SortDirection::Descending });
    assert_eq!(header_sort(flipped, SortField::Name), by_name);
    assert_eq!(
        header_sort(flipped, SortField::Size),
        SortSpec { field: SortField::Size, direction: SortDirection::Ascending }
    );
}

#[test]
fn one_operation_runs_at_a_time() {
    let mut runner: OperationRunner<u32> = OperationRunner::new();
    assert!(runner.start("Copying…".into()));
    assert_eq!(runner.status_message.as_deref(), Some("Copying…"));
    assert!(!runner.start("Moving…".into()));
    assert_eq!(runner.status_message.as_deref(), Some("Copying…"));
    assert!(matches!(runner.begin_undo(), UndoStart::Busy));
}

#[test]
fn a_finished_operation_counts_what_changed_and_reveals_the_first_path() {
    let mut runner: OperationRunner<u32> = OperationRunner::new();
    runner.start("Copying…".into());
    match runner.finish(Ok(outcome(&["/d/a", "/d/b"], Some("Copy"))), false, true) {
        FinishStep::Reload { reveal, clear_clipboard } => {
            assert_eq!(reveal.as_deref(), Some("/d/a"));
            assert!(clear_clipboard);
        }
        FinishStep::Failed => panic!("the operation succeeded"),
    }
    assert!(!runner.running);
    assert_eq!(runner.status_message.as_deref(), Some("Updated 2 items"));
    assert_eq!(runner.undo_stack.len(), 1);

    runner.start("Extracting…".into());
    runner.finish(Ok(outcome(&["/d/x"], None)), true, false);
    assert_eq!(runner.status_message.as_deref(), Some("Extracted 1 archive · too many entries to undo"));
    assert_eq!(runner.undo_stack.len(), 1);

    runner.start("Extracting…".into());
    runner.finish(Ok(outcome(&["/d/x", "/d/y"], Some("Extract"))), true, false);
    assert_eq!(runner.status_message.as_deref(), Some("Updated 2 items"));

    runner.start("Renaming…".into());
    match runner.finish(Ok(outcome(&[], None)), false, false) {
        FinishStep::Reload { reveal, .. } => assert_eq!(reveal, None),
        FinishStep::Failed => panic!("the operation succeeded"),
    }
    assert_eq!(runner.status_message.as_deref(), Some("Updated 0 items"));
}

#[test]
fn a_failed_operation_shows_its_error() {
    let mut runner: OperationRunner<u32> = OperationRunner::new();
    runner.start("Moving…".into());
    assert!(matches!(runner.finish(Err("disk full".into()), false, true), FinishStep::Failed));
    assert_eq!(runner.status_message, None);
    assert_eq!(runner.error.as_deref(), Some("disk full"));
    runner.start("Moving…".into());
    assert_eq!(runner.error, None);
}

#[test]
fn undo_takes_back_the_latest_operation() {
    let mut runner: OperationRunner<u32> = OperationRunner::new();
    assert!(matches!(runner.begin_undo(), UndoStart::NothingToUndo));
    assert_eq!(runner.status_message.as_deref(), Some("Nothing to undo"));

    runner.start("Copying…".into());
    runner.finish(Ok(outcome(&["/d/a"], Some("Copy"))), false, false);
    runner.start("Renaming…".into());
    runner.finish(Ok(outcome(&["/d/b"], Some("Rename"))), false, false);
    assert_eq!(runner.status_message.as_deref(), Some("Updated 1 item"));

    let (index, label) = match runner.begin_undo() {
        UndoStart::Run { index, label } => (index, label),
        _ => panic!("there is something to undo"),
    };
    assert_eq!((index, label.as_str()), (1, "Rename"));
    assert!(runner.running);
    assert_eq!(runner.status_message.as_deref(), Some("Undoing Rename…"));

    runner.finish_undo(&label, Err("busy".into()));
    assert_eq!(runner.error.as_deref(), Some("Could not undo: busy"));
    assert_eq!(runner.undo_stack.len(), 2);

    match runner.begin_undo() {
        UndoStart::Run { label, .. } => runner.finish_undo(&label, Ok(())),
        _ => panic!("the failed undo is kept"),
    }
    assert_eq!(runner.status_message.as_deref(), Some("Undid Rename"));
    assert_eq!(runner.undo_stack.len(), 1);
    assert_eq!(runner.undo_stack[0].label, "Copy");
}

#[test]
fn counted_texts_use_the_singular_only_for_one() {
    assert_eq!(counted_text("Moving ", 1, " item", " to Trash…"), "Moving 1 item to Trash…");
    assert_eq!(counted_text("Moving ", 0, " item", ""), "Moving 0 items");
    assert_eq!(counted_text("Replace ", 12, " existing item", "?"), "Replace 12 existing items?");
}

#[test]
fn trash_and_delete_ask_with_the_selection_subject() {
    let one = vec!["/home/me/notes.txt".to_string()];
    let c = trash_confirmation(&one, false).unwrap();
    assert_eq!(c.level, PromptLevel::Warning);
    assert_eq!(c.message, "Move “notes.txt” to Trash?");
    assert_eq!(c.detail, "You can restore it with Ctrl+Z while gnil-fm remains open.");
    assert_eq!((c.confirm_label.as_str(), c.cancel_label.as_str()), ("Move to Trash", "Cancel"));
    assert_eq!(c.progress, "Moving 1 item to Trash…");
    match c.operation {
        FsOperation::Trash { paths } => assert_eq!(paths, one),
        _ => panic!("a trash operation"),
    }
    assert!(trash_confirmation(&one, true).is_none());
    assert!(trash_confirmation(&Vec::new(), false).is_none());

    let two = vec!["/a".to_string(), "/b".to_string()];
    let d = delete_confirmation(&two, false).unwrap();
    assert_eq!(d.level, PromptLevel::Critical);
    assert_eq!(d.message, "Permanently delete 2 items?");
    assert_eq!(d.detail, "This action cannot be undone.");
    assert_eq!(d.confirm_label, "Delete Permanently");
    assert_eq!(d.progress, "Deleting 2 items…");
    assert!(matches!(d.operation, FsOperation::DeletePermanently { .. }));
}

#[test]
fn trash_items_are_chosen_by_their_info_files() {
    let entries = vec![trash_item("a"), trash_item("b"), trash_item("c")];
    let selected = vec!["/t/info/c.trashinfo".to_string(), "/t/info/a.trashinfo/".to_string()];
    assert_eq!(selected_trash_infos(&entries, &selected), vec!["/t/info/a.trashinfo", "/t/info/c.trashinfo"]);

    let purge = purge_confirmation(&entries, &selected, false).unwrap();
    assert_eq!(purge.message, "Permanently delete 2 trash items?");
    assert_eq!(purge.progress, "Deleting from Trash…");
    match purge.operation {
        FsOperation::PurgeTrash { info_paths } => assert_eq!(info_paths.len(), 2),
        _ => panic!("a purge"),
    }
    assert!(purge_confirmation(&entries, &vec!["/elsewhere".to_string()], false).is_none());

    let empty = empty_trash_confirmation(&entries, false).unwrap();
    assert_eq!(empty.message, "Empty Trash?");
    assert_eq!(empty.detail, "Every item in every available trash location will be permanently deleted.");
    assert_eq!(empty.confirm_label, "Empty Trash");
    assert_eq!(empty.progress, "Emptying Trash…");
    match empty.operation {
        FsOperation::PurgeTrash { info_paths } => assert_eq!(info_paths.len(), 3),
        _ => panic!("a purge"),
    }
    assert!(empty_trash_confirmation(&Vec::new(), false).is_none());
    assert!(empty_trash_confirmation(&entries, true).is_none());
}

#[test]
fn restoring_asks_only_when_something_is_in_the_way() {
    let entries = vec![trash_item("a"), trash_item("b")];
    let selected = vec!["/t/info/a.trashinfo".to_string(), "/t/info/b.trashinfo".to_string()];
    match restore_plan(&entries, &selected, &vec![false, false], false) {
        RestorePlan::Start { operation: FsOperation::RestoreTrash { info_paths, replace_existing }, progress } => {
            assert_eq!(info_paths.len(), 2);
            assert!(!replace_existing);
            assert_eq!(progress, "Restoring from Trash…");
        }
        _ => panic!("nothing is in the way"),
    }
    match restore_plan(&entries, &selected, &vec![false, true], false) {
        RestorePlan::Confirm(c) => {
            assert_eq!(c.message, "Replace 1 existing item?");
            assert_eq!(c.detail, "Restoring will permanently replace the items currently at their original paths.");
            assert_eq!(c.confirm_label, "Replace and Restore");
            assert_eq!(c.progress, "Replacing and restoring…");
            assert!(matches!(c.operation, FsOperation::RestoreTrash { replace_existing: true, .. }));
        }
        _ => panic!("an item is in the way"),
    }
    let only_a = vec!["/t/info/a.trashinfo".to_string()];
    assert!(matches!(restore_plan(&entries, &only_a, &vec![false, true], false), RestorePlan::Start { .. }));
    assert!(matches!(restore_plan(&entries, &only_a, &vec![false, true], true), RestorePlan::Nothing));
    assert!(matches!(restore_plan(&entries, &Vec::new(), &vec![true, true], false), RestorePlan::Nothing));
}

#[test]
fn pasting_copies_beside_and_moves_with_questions() {
    match paste_plan(
        Some(FileClipboard { mode: FileClipboardMode::Copy, paths: vec!["/a".into()] }),
        "/dest",
    ) {
        PastePlan::Start {
            operation: FsOperation::Copy { sources, destination, conflict },
            progress,
            clear_clipboard,
        } => {
            assert_eq!(sources, vec!["/a"]);
            assert_eq!(destination, "/dest");
            assert_eq!(conflict, ConflictDecision::KeepBoth);
            assert_eq!(progress, "Copying…");
            assert!(!clear_clipboard);
        }
        _ => panic!("a copy"),
    }
    match paste_plan(Some(FileClipboard { mode: FileClipboardMode::Cut, paths: vec!["/a".into()] }), "/dest") {
        PastePlan::Start { operation: FsOperation::Move { conflict, .. }, progress, clear_clipboard } => {
            assert_eq!(conflict, ConflictDecision::Ask);
            assert_eq!(progress, "Moving…");
            assert!(clear_clipboard);
        }
        _ => panic!("a move"),
    }
    match paste_plan(None, "/dest") {
        PastePlan::NoFiles { status } => assert_eq!(status, "Clipboard contains no local files"),
        _ => panic!("nothing to paste"),
    }
}

#[test]
fn clipboard_statuses_count_the_items() {
    assert_eq!(clipboard_status(FileClipboardMode::Copy, 1), "Copied 1 item");
    assert_eq!(clipboard_status(FileClipboardMode::Cut, 3), "Cut 3 items");
}

#[test]
fn only_a_running_operation_can_be_cancelled() {
    let mut runner: OperationRunner<u32> = OperationRunner::new();
    assert!(!runner.request_cancel());
    runner.start("Copying…".into());
    assert!(runner.request_cancel());
    assert_eq!(runner.status_message.as_deref(), Some("Cancelling…"));
    runner.finish(Ok(outcome(&["/d/a"], Some("Copy"))), false, false);
    assert!(!runner.request_cancel());
    assert!(matches!(runner.begin_undo(), UndoStart::Run { .. }));
    assert!(!runner.request_cancel());
    assert_eq!(runner.status_message.as_deref(), Some("Undoing Copy…"));
}

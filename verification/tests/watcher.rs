use gnil_app::watch::{
    merge_scanned, watch_batch_step, BatchStep, EntryScan, PendingWatchChanges, WatchEvent, WatchPlan, WATCH_BATCH_MS,
};

fn plan(changes: &PendingWatchChanges, show_hidden: bool) -> Option<(Vec<String>, Vec<String>)> {
    match changes.plan_watcher_changes("/tmp/dir", show_hidden, false) {
        WatchPlan::Reload => None,
        WatchPlan::Apply { removes, upserts } => Some((removes, upserts)),
    }
}

#[test]
fn events_gather_each_path_once() {
    let mut changes = PendingWatchChanges::new();
    assert!(changes.is_empty());
    assert!(changes.record_watch_event(WatchEvent::Upsert(vec!["/tmp/dir/a".into(), "/tmp/dir//a".into()])).is_none());
    assert_eq!(changes.upserts, vec!["/tmp/dir/a".to_owned()]);
    assert!(!changes.is_empty());
    changes.record_watch_event(WatchEvent::Rename { from: "/tmp/dir/b".into(), to: "/tmp/dir/c".into() });
    assert_eq!(changes.removes, vec!["/tmp/dir/b".to_owned()]);
    assert_eq!(changes.upserts, vec!["/tmp/dir/a".to_owned(), "/tmp/dir/c".to_owned()]);
    changes.record_watch_event(WatchEvent::Rescan);
    assert!(changes.full_rescan);
}

#[test]
fn watcher_errors_give_a_status_message() {
    let mut changes = PendingWatchChanges::new();
    let status = changes.record_watch_event(WatchEvent::Error("gone".into()));
    assert_eq!(status.as_deref(), Some("Folder watcher error: gone"));
    assert!(changes.is_empty());
}

#[test]
fn plan_keeps_direct_children_and_hides_dot_files() {
    let mut changes = PendingWatchChanges::new();
    changes.record_watch_event(WatchEvent::Upsert(vec![
        "/tmp/dir/a".into(),
        "/tmp/dir/.hidden".into(),
        "/tmp/dir/sub/deep".into(),
    ]));
    changes.record_watch_event(WatchEvent::Remove(vec!["/tmp/dir/old".into(), "/elsewhere/x".into()]));
    assert_eq!(
        plan(&changes, false),
        Some((vec!["/tmp/dir/old".to_owned(), "/tmp/dir/.hidden".to_owned()], vec!["/tmp/dir/a".to_owned()]))
    );
    assert_eq!(
        plan(&changes, true),
        Some((vec!["/tmp/dir/old".to_owned()], vec!["/tmp/dir/a".to_owned(), "/tmp/dir/.hidden".to_owned()]))
    );
}

#[test]
fn plan_reloads_for_rescans_ignored_files_and_the_folder_itself() {
    let mut changes = PendingWatchChanges::new();
    changes.record_watch_event(WatchEvent::Upsert(vec!["/tmp/dir/a".into()]));
    assert!(matches!(changes.plan_watcher_changes("/tmp/dir", false, true), WatchPlan::Reload));
    let mut folder = PendingWatchChanges::new();
    folder.record_watch_event(WatchEvent::Remove(vec!["/tmp/dir/".into()]));
    assert!(plan(&folder, false).is_none());
    let mut rescan = PendingWatchChanges::new();
    rescan.record_watch_event(WatchEvent::Rescan);
    assert!(plan(&rescan, false).is_none());
}

fn listed_entry(path: &str) -> gnil_app::model::FileEntry {
    gnil_app::model::FileEntry {
        path: path.into(),
        name: path.rsplit('/').next().unwrap().into(),
        kind: gnil_app::model::FileKind::File,
        hidden: false,
        metadata: None,
    }
}

#[test]
fn removed_paths_leave_the_listing() {
    let mut entries = vec![listed_entry("/d/a"), listed_entry("/d/b"), listed_entry("/d/c")];
    gnil_app::watch::remove_entries(&mut entries, &vec!["/d/b/".to_string(), "/d/x".to_string()]);
    let paths: Vec<&str> = entries.iter().map(|e| e.path.as_str()).collect();
    assert_eq!(paths, vec!["/d/a", "/d/c"]);
}

#[test]
fn scanned_paths_replace_their_entries_and_failures_ask_for_a_rescan() {
    let mut entries = vec![listed_entry("/d/a"), listed_entry("/d/b")];
    let mut grown = listed_entry("/d/a");
    grown.hidden = true;
    let rescan = merge_scanned(
        &mut entries,
        vec![
            ("/d/a".to_string(), EntryScan::Found(grown)),
            ("/d/b".to_string(), EntryScan::NotFound),
            ("/d/n".to_string(), EntryScan::Found(listed_entry("/d/n"))),
        ],
    );
    assert!(!rescan);
    let paths: Vec<&str> = entries.iter().map(|e| e.path.as_str()).collect();
    assert_eq!(paths, vec!["/d/a", "/d/n"]);
    assert!(entries[0].hidden);

    let mut entries = vec![listed_entry("/d/a")];
    assert!(merge_scanned(&mut entries, vec![("/d/a".to_string(), EntryScan::Failed)]));
    assert!(entries.is_empty());
}

#[test]
fn the_batch_timer_waits_while_the_folder_is_busy() {
    assert_eq!(WATCH_BATCH_MS, 25);
    assert_eq!(watch_batch_step(false, false, false), BatchStep::Wait);
    assert_eq!(watch_batch_step(true, true, false), BatchStep::Wait);
    assert_eq!(watch_batch_step(true, false, true), BatchStep::Retry);
    assert_eq!(watch_batch_step(true, false, false), BatchStep::Run);
    assert_eq!(
        gnil_app::watch::watcher_unavailable_status("inotify limit"),
        "Automatic folder refresh unavailable: inotify limit"
    );
}

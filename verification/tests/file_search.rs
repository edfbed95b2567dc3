use gnil_app::model::{FileEntry, FileKind, FileMetadata};
use gnil_app::search::{
    search_entry, DismissStep, FileSearchScope, FileSearchState, SearchAnswer, SearchPick, FILE_SEARCH_RESULT_LIMIT,
};

fn file(path: &str) -> FileEntry {
    search_entry(path, FileKind::File, None)
}

fn folder(path: &str) -> FileEntry {
    search_entry(path, FileKind::Directory, None)
}

fn open_search() -> FileSearchState {
    let mut state = FileSearchState::new("/work".into(), "/home/me".into());
    assert!(state.activate("/work/src", false, false));
    state
}

#[test]
fn activating_searches_the_shown_folder_and_the_trash_searches_home() {
    let mut state = open_search();
    assert!(state.open && !state.closing);
    assert_eq!(state.scope, FileSearchScope::CurrentFolder);
    assert_eq!(state.root, "/work/src");

    let mut trash = FileSearchState::new("/work".into(), "/home/me".into());
    assert!(trash.activate("/work/src", true, false));
    assert_eq!(trash.scope, FileSearchScope::Home);
    assert_eq!(trash.root, "/home/me");

    let mut blocked = FileSearchState::new("/work".into(), "/home/me".into());
    assert!(!blocked.activate("/work/src", false, true));
    assert!(!blocked.open);
    assert_eq!(blocked.root, "/work");
}

#[test]
fn scope_changes_ask_for_a_new_search_only_when_something_changed() {
    let mut state = open_search();
    assert!(!state.select_scope(FileSearchScope::CurrentFolder, "/work/src/", false));
    assert!(state.select_scope(FileSearchScope::Home, "/work/src", false));
    assert_eq!(state.root, "/home/me");
    assert!(!state.select_scope(FileSearchScope::CurrentFolder, "/work/src", true));
    assert_eq!(state.scope, FileSearchScope::Home);
}

#[test]
fn a_search_asks_for_the_trimmed_query_and_an_empty_one_asks_nothing() {
    let mut state = open_search();
    let request = state.begin_search("  notes \n", true, false).expect("a request");
    assert_eq!(request.query, "notes");
    assert_eq!(request.root, "/work/src");
    assert_eq!(request.generation, 1);
    assert!(request.show_hidden && !request.respect_gitignore);
    assert_eq!(request.max_results, FILE_SEARCH_RESULT_LIMIT);
    assert_eq!(request.max_results, 80);
    assert!(state.loading);

    assert!(state.begin_search("   ", true, true).is_none());
    assert!(!state.loading);
    assert_eq!(state.generation, 2);
}

#[test]
fn only_the_latest_answer_counts_and_it_focuses_the_first_result() {
    let mut state = open_search();
    let first = state.begin_search("a", false, true).unwrap();
    let second = state.begin_search("ab", false, true).unwrap();
    assert!(!state.finish_search(first.generation, SearchAnswer::Found(vec![file("/work/src/a.txt")])));
    assert!(state.results.is_empty());
    assert!(state.loading);

    assert!(state.finish_search(
        second.generation,
        SearchAnswer::Found(vec![file("/work/src/ab.txt"), file("/work/src/abc.txt")])
    ));
    assert!(!state.loading);
    assert_eq!(state.results.len(), 2);
    assert_eq!(state.focused, Some(0));
}

#[test]
fn an_unavailable_location_reports_an_error() {
    let mut state = open_search();
    let request = state.begin_search("x", false, false).unwrap();
    assert!(state.finish_search(request.generation, SearchAnswer::LocationUnavailable));
    assert_eq!(state.error.as_deref(), Some("Search location is unavailable"));
    assert_eq!(state.focused, None);
}

#[test]
fn the_generation_wraps_after_the_largest() {
    let mut state = open_search();
    state.generation = u64::MAX;
    let request = state.begin_search("x", false, false).unwrap();
    assert_eq!(request.generation, 0);
    assert!(!state.finish_search(u64::MAX, SearchAnswer::Found(vec![file("/x")])));
}

#[test]
fn focus_wraps_in_both_directions_and_steps_undo_each_other() {
    let mut state = open_search();
    let request = state.begin_search("f", false, false).unwrap();
    state.finish_search(request.generation, SearchAnswer::Found(vec![file("/a"), file("/b"), file("/c")]));
    assert!(state.focus_previous());
    assert_eq!(state.focused, Some(2));
    assert!(state.focus_next());
    assert_eq!(state.focused, Some(0));
    assert!(state.focus_next());
    assert!(state.focus_previous());
    assert_eq!(state.focused, Some(0));

    let mut empty = open_search();
    assert!(!empty.focus_next());
    assert!(!empty.focus_previous());
    assert_eq!(empty.focused, None);
    assert_eq!(empty.result_to_open(), None);

    state.focused = None;
    assert_eq!(state.result_to_open(), Some(0));
    let mut fresh = state;
    fresh.focused = None;
    assert!(fresh.focus_previous());
    assert_eq!(fresh.focused, Some(2));
}

#[test]
fn dismissing_closes_at_once_with_reduced_motion_or_after_the_timer() {
    let mut quick = open_search();
    let request = quick.begin_search("q", false, false).unwrap();
    assert_eq!(quick.dismiss(true), DismissStep::Closed);
    assert!(!quick.open && !quick.closing && !quick.loading);
    assert!(!quick.finish_search(request.generation, SearchAnswer::Found(vec![file("/q")])));
    assert_eq!(quick.dismiss(true), DismissStep::Ignored);

    let mut slow = open_search();
    let request = slow.begin_search("q", false, false).unwrap();
    assert_eq!(slow.dismiss(false), DismissStep::Closing);
    assert!(slow.open && slow.closing);
    assert!(!slow.finish_search(request.generation, SearchAnswer::Found(vec![file("/q")])));
    assert_eq!(slow.dismiss(false), DismissStep::Ignored);
    assert!(slow.close_timer_elapsed());
    assert!(!slow.open);
    assert!(!slow.close_timer_elapsed());
}

#[test]
fn opening_a_result_shows_folders_and_selects_files_in_their_folder() {
    let mut state = open_search();
    let request = state.begin_search("r", false, false).unwrap();
    state.finish_search(request.generation, SearchAnswer::Found(vec![folder("/work/docs"), file("/work/docs/r.md")]));
    match state.activate_result(0) {
        SearchPick::Navigate { directory, reveal } => {
            assert_eq!(directory, "/work/docs");
            assert_eq!(reveal, None);
        }
        _ => panic!("a folder result opens the folder"),
    }
    assert!(!state.open);
    assert!(state.results.is_empty());

    let mut state = open_search();
    let request = state.begin_search("r", false, false).unwrap();
    state.finish_search(request.generation, SearchAnswer::Found(vec![file("/work/docs/r.md"), file("/")]));
    assert!(matches!(state.activate_result(5), SearchPick::Missing));
    assert!(state.open);
    match state.activate_result(0) {
        SearchPick::Navigate { directory, reveal } => {
            assert_eq!(directory, "/work/docs");
            assert_eq!(reveal.as_deref(), Some("/work/docs/r.md"));
        }
        _ => panic!("a file result opens its folder"),
    }

    let mut state = open_search();
    let request = state.begin_search("r", false, false).unwrap();
    state.finish_search(request.generation, SearchAnswer::Found(vec![file("/")]));
    match state.activate_result(0) {
        SearchPick::Unavailable { status } => assert_eq!(status, "Search result is no longer available"),
        _ => panic!("the root has no folder to be shown in"),
    }
}

#[test]
fn search_hits_become_entries_named_by_their_last_component() {
    let hit = search_entry("/home/me/.config", FileKind::Directory, None);
    assert_eq!(hit.name, ".config");
    assert!(hit.hidden);
    assert_eq!(hit.metadata, None);

    let link = search_entry("/home/me/docs", FileKind::Symlink, Some(FileKind::Directory));
    assert_eq!(link.name, "docs");
    assert!(!link.hidden);
    assert_eq!(
        link.metadata,
        Some(FileMetadata {
            len: 0,
            child_count: None,
            mode: None,
            readonly: false,
            symlink_target_kind: Some(FileKind::Directory),
            modified_unix_ms: None,
        })
    );
    assert!(link.is_directory_like());

    let root = search_entry("/", FileKind::Directory, None);
    assert_eq!(root.name, "/");
}

#[test]
fn file_search_uses_the_current_folder_and_reveals_a_file() {
    let current_folder = "/tmp/search/workspace";
    let reports = "/tmp/search/workspace/Documents/reports";
    let report = "/tmp/search/workspace/Documents/reports/annual-report.txt";
    let mut state = FileSearchState::new(current_folder.into(), "/home/me".into());
    assert!(state.activate(current_folder, false, false));
    assert_eq!(state.root, current_folder);

    let request = state.begin_search("annual", false, true).expect("a request");
    assert_eq!(request.root, current_folder);
    assert_eq!(request.query, "annual");
    assert!(state.finish_search(
        request.generation,
        SearchAnswer::Found(vec![search_entry(report, FileKind::File, None)])
    ));
    assert!(state.open && !state.loading && state.results.len() == 1 && state.results[0].path == report);

    match state.activate_result(0) {
        SearchPick::Navigate { directory, reveal } => {
            assert_eq!(directory, reports);
            assert_eq!(reveal.as_deref(), Some(report));
        }
        _ => panic!("the report opens in its folder"),
    }
    assert!(!state.open);
}

#[test]
fn file_search_can_switch_between_current_folder_and_home() {
    let home = "/tmp/search/home";
    let current = "/tmp/search/home/Projects/workspace";
    let home_result = "/tmp/search/home/home-only-result.txt";
    let mut state = FileSearchState::new(current.into(), home.into());
    assert!(state.activate(current, false, false));
    assert!(state.select_scope(FileSearchScope::Home, current, false));
    let request = state.begin_search("home-only", false, true).expect("a request");
    assert_eq!(request.root, home);
    assert!(state.finish_search(
        request.generation,
        SearchAnswer::Found(vec![search_entry(home_result, FileKind::File, None)])
    ));
    assert!(
        state.scope == FileSearchScope::Home
            && state.root == home
            && state.results.len() == 1
            && state.results[0].path == home_result
    );
}

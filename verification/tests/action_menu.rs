use gnil_app::action_menu::{
    ActionMenuActivation, ActionMenuPlacement, ActionMenuState, ApplicationCatalog, DesktopApplication,
    FileMenuCommand, FileMenuSubmenu, MenuContext, MenuEntry, MenuToolbarAction, OpenWithChooserState,
    default_application_status, launch_report, OpenWithSubmenuState, OverlayMotion,
};
use gnil_app::model::{FileEntry, FileKind, FileMetadata};

type Menu = ActionMenuState<(f32, f32)>;

fn entry(name: &str, kind: FileKind, mode: Option<u32>) -> FileEntry {
    FileEntry {
        path: format!("/{name}"),
        name: name.into(),
        kind,
        hidden: false,
        metadata: Some(FileMetadata {
            len: 0,
            child_count: None,
            mode,
            readonly: false,
            symlink_target_kind: None,
            modified_unix_ms: None,
        }),
    }
}

fn entries() -> Vec<FileEntry> {
    vec![
        entry("one", FileKind::File, Some(0o644)),
        entry("two", FileKind::Directory, Some(0o755)),
        entry("link", FileKind::Symlink, Some(0o777)),
    ]
}

fn context(selected: &[&str], entries: &Vec<FileEntry>, favorites: &[&str], clipboard: bool, running: bool) -> MenuContext {
    let selected: Vec<String> = selected.iter().map(|p| p.to_string()).collect();
    let favorites: Vec<String> = favorites.iter().map(|p| p.to_string()).collect();
    let archives = vec![false; entries.len()];
    MenuContext::from_selection(&selected, entries, &favorites, &archives, clipboard, running)
}

fn header(context: MenuContext, serial: u64) -> Menu {
    ActionMenuState::new(ActionMenuPlacement::Header, context, serial)
}

fn menu_entry(menu: &Menu, command: FileMenuCommand) -> MenuEntry {
    *menu
        .entries
        .iter()
        .find(|entry| matches!(entry, MenuEntry::Action { command: candidate, .. } if *candidate == command))
        .expect("command entry")
}

fn toolbar_action(menu: &Menu, command: FileMenuCommand) -> MenuToolbarAction {
    *menu.toolbar_actions.iter().find(|action| action.command == command).expect("toolbar action")
}

fn menu_submenu(menu: &Menu, submenu: FileMenuSubmenu) -> MenuEntry {
    *menu
        .entries
        .iter()
        .find(|entry| matches!(entry, MenuEntry::Submenu { submenu: candidate, .. } if *candidate == submenu))
        .expect("submenu entry")
}

fn is_entry_enabled(entry: MenuEntry) -> bool {
    matches!(entry, MenuEntry::Action { enabled: true, .. })
}

fn editor() -> DesktopApplication {
    DesktopApplication {
        desktop_id: "editor.desktop".into(),
        name: "Editor".into(),
        generic_name: Some("Text Editor".into()),
        desktop_file: "/tmp/editor.desktop".into(),
        is_default: true,
        compatible: true,
        declared_compatible: true,
    }
}

#[test]
fn empty_selection_exposes_only_context_free_and_valid_paste_actions() {
    let menu = header(MenuContext { clipboard_valid: true, ..MenuContext::default() }, 1);
    assert!(!is_entry_enabled(menu_entry(&menu, FileMenuCommand::Open)));
    assert!(!toolbar_action(&menu, FileMenuCommand::Copy).enabled);
    assert!(toolbar_action(&menu, FileMenuCommand::Paste).enabled);
    assert!(is_entry_enabled(menu_entry(&menu, FileMenuCommand::CreateSymlink)));
}

#[test]
fn single_and_multi_selection_set_labels_and_permissions() {
    let entries = entries();
    let single = context(&["/one"], &entries, &[], false, false);
    let single = header(single, 1);
    assert!(is_entry_enabled(menu_entry(&single, FileMenuCommand::Open)));
    assert!(is_entry_enabled(menu_entry(&single, FileMenuCommand::Permissions)));
    assert!(matches!(
        menu_entry(&single, FileMenuCommand::Permissions),
        MenuEntry::Action { label: "Properties", shortcut: Some("Alt+Enter"), .. }
    ));
    assert!(matches!(toolbar_action(&single, FileMenuCommand::Rename), MenuToolbarAction { label: "Rename", .. }));
    assert!(matches!(menu_submenu(&single, FileMenuSubmenu::OpenWith), MenuEntry::Submenu { enabled: true, .. }));

    let multiple = context(&["/one", "/two"], &entries, &[], false, false);
    let multiple = header(multiple, 2);
    assert!(!is_entry_enabled(menu_entry(&multiple, FileMenuCommand::Open)));
    assert!(matches!(
        toolbar_action(&multiple, FileMenuCommand::Rename),
        MenuToolbarAction { label: "Bulk rename", enabled: true, .. }
    ));
    assert!(matches!(menu_submenu(&multiple, FileMenuSubmenu::OpenWith), MenuEntry::Submenu { enabled: false, .. }));
}

#[test]
fn open_with_accepts_files_and_file_symlinks_but_not_folders() {
    let mut entries = entries();
    if let Some(metadata) = &mut entries[2].metadata {
        metadata.symlink_target_kind = Some(FileKind::File);
    }
    let symlink = context(&["/link"], &entries, &[], false, false);
    assert!(symlink.open_with_eligible);

    let folder = context(&["/two"], &entries, &[], false, false);
    assert!(!folder.open_with_eligible);
}

#[test]
fn open_with_submenu_keyboard_focuses_apps_then_choose_another() {
    let mut menu = header(MenuContext { selected_count: 1, open_with_eligible: true, ..MenuContext::default() }, 1);
    menu.open_open_with_submenu("/tmp/file.txt".into(), "text/plain".into());
    let submenu = menu.open_with_submenu.as_mut().expect("open submenu");
    submenu.loading = false;
    submenu.applications.push(editor());
    menu.open_open_with_submenu("/tmp/file.txt".into(), "text/plain".into());
    let submenu = menu.open_with_submenu.as_ref().expect("open submenu");
    assert!(!submenu.loading);
    assert_eq!(submenu.applications.len(), 1);

    assert!(matches!(menu.focused_activation(), Some(ActionMenuActivation::OpenWithApplication(_))));
    menu.move_focus(1);
    assert_eq!(menu.focused_activation(), Some(ActionMenuActivation::ChooseAnotherApplication));
    assert!(menu.close_submenu());
}

#[test]
fn folder_context_menu_toggles_favorite_label() {
    let entries = entries();
    let add = context(&["/two"], &entries, &[], false, false);
    let add = header(add, 1);
    assert!(matches!(
        menu_entry(&add, FileMenuCommand::ToggleFavorite),
        MenuEntry::Action { label: "Add to Favorites", enabled: true, .. }
    ));

    let remove = context(&["/two"], &entries, &["/two"], false, false);
    let remove = header(remove, 2);
    assert!(matches!(
        menu_entry(&remove, FileMenuCommand::ToggleFavorite),
        MenuEntry::Action { label: "Remove from Favorites", enabled: true, .. }
    ));
}

#[test]
fn symlinks_disable_permissions_while_an_active_queue_keeps_writes_available() {
    let entries = entries();
    let context = context(&["/link"], &entries, &[], true, true);
    let menu = header(context, 1);
    assert!(!is_entry_enabled(menu_entry(&menu, FileMenuCommand::Permissions)));
    assert!(toolbar_action(&menu, FileMenuCommand::Paste).enabled);
    assert!(toolbar_action(&menu, FileMenuCommand::Rename).enabled);
    assert!(toolbar_action(&menu, FileMenuCommand::Trash).enabled);
    assert!(toolbar_action(&menu, FileMenuCommand::Copy).enabled);
}

#[test]
fn invalid_clipboard_disables_paste_and_only_permanent_delete_is_dangerous() {
    let menu: Menu = ActionMenuState::new(
        ActionMenuPlacement::Cursor((4.0, 8.0)),
        MenuContext {
            selected_count: 1,
            permissions_supported: true,
            clipboard_valid: false,
            operation_running: false,
            all_selected_archives: false,
            ..MenuContext::default()
        },
        1,
    );
    assert!(!toolbar_action(&menu, FileMenuCommand::Paste).enabled);
    assert!(matches!(menu_entry(&menu, FileMenuCommand::DeletePermanently), MenuEntry::Action { danger: true, .. }));
    assert_eq!(menu.entries.iter().filter(|entry| matches!(entry, MenuEntry::Action { danger: true, .. })).count(), 1);
}

#[test]
fn extraction_actions_are_gradually_disclosed_for_archive_selections() {
    let menu = header(MenuContext { selected_count: 2, all_selected_archives: true, ..MenuContext::default() }, 1);
    assert!(is_entry_enabled(menu_entry(&menu, FileMenuCommand::Extract)));
    assert!(is_entry_enabled(menu_entry(&menu, FileMenuCommand::ExtractTo)));

    let regular = header(MenuContext { selected_count: 1, ..MenuContext::default() }, 2);
    assert!(regular.entries.iter().all(|entry| entry.enabled_command() != Some(FileMenuCommand::Extract)));
}

#[test]
fn keyboard_navigation_wraps_and_skips_disabled_and_separators() {
    let mut menu = header(MenuContext::default(), 1);
    assert_eq!(menu.focused_command(), Some(FileMenuCommand::CreateSymlink));
    menu.move_focus(1);
    assert_eq!(menu.focused_command(), Some(FileMenuCommand::CreateSymlink));
    menu.move_focus(-1);
    assert_eq!(menu.focused_command(), Some(FileMenuCommand::CreateSymlink));

    let mut populated = header(
        MenuContext {
            selected_count: 2,
            permissions_supported: true,
            clipboard_valid: true,
            operation_running: false,
            all_selected_archives: false,
            ..MenuContext::default()
        },
        2,
    );
    populated.focus_first();
    assert_eq!(populated.focused_command(), Some(FileMenuCommand::Cut));
    populated.move_focus(-1);
    assert_eq!(populated.focused_command(), Some(FileMenuCommand::DeletePermanently));
    populated.move_focus(1);
    assert_eq!(populated.focused_command(), Some(FileMenuCommand::Cut));
    populated.focus_last();
    assert_eq!(populated.focused_command(), Some(FileMenuCommand::DeletePermanently));
}

#[test]
fn toolbar_actions_replace_repeated_rows_and_receive_keyboard_focus() {
    let mut menu = header(
        MenuContext { selected_count: 1, clipboard_valid: true, permissions_supported: true, ..MenuContext::default() },
        1,
    );
    assert_eq!(menu.focused_command(), Some(FileMenuCommand::Cut));
    menu.move_focus(1);
    assert_eq!(menu.focused_command(), Some(FileMenuCommand::Copy));
    assert!(menu.entries.iter().all(|entry| {
        !matches!(
            entry,
            MenuEntry::Action {
                command: FileMenuCommand::Cut
                    | FileMenuCommand::Copy
                    | FileMenuCommand::Paste
                    | FileMenuCommand::Rename
                    | FileMenuCommand::Trash,
                ..
            }
        )
    }));
}

fn catalog(suggested: Vec<DesktopApplication>, all: Vec<DesktopApplication>) -> ApplicationCatalog {
    ApplicationCatalog { mime_type: "text/plain".into(), suggested, all }
}

fn app(id: &str, name: &str) -> DesktopApplication {
    let mut application = editor();
    application.desktop_id = id.into();
    application.name = name.into();
    application
}

fn chooser_with(catalog: Option<ApplicationCatalog>) -> OpenWithChooserState {
    OpenWithChooserState::open("/docs/notes.txt", "text/plain".into(), catalog, 0)
}

#[test]
fn open_with_chooser_finds_suggested_applications_first() {
    let other = app("editor.desktop", "Other Editor");
    let chooser = chooser_with(Some(catalog(vec![editor()], vec![other, editor()])));
    let found = chooser.application("editor.desktop").expect("application");
    assert_eq!(found.name, "Editor");
    assert!(chooser.application("missing.desktop").is_none());
    let empty = chooser_with(None);
    assert!(empty.application("editor.desktop").is_none());
}

#[test]
fn open_with_chooser_searches_all_applications_after_suggestions() {
    let chooser = chooser_with(Some(catalog(vec![editor()], vec![app("viewer.desktop", "Viewer")])));
    assert_eq!(chooser.application("viewer.desktop").expect("viewer").name, "Viewer");
}

#[test]
fn a_chooser_opens_on_the_first_application_or_loads() {
    let cached = chooser_with(Some(catalog(Vec::new(), vec![app("viewer.desktop", "Viewer")])));
    assert_eq!(cached.file_name, "notes.txt");
    assert_eq!(cached.selected_desktop_id.as_deref(), Some("viewer.desktop"));
    assert!(!cached.loading);
    assert_eq!(cached.motion, OverlayMotion::Opening);
    assert_eq!(cached.serial, 1);
    assert_eq!(cached.selected_application().expect("selected").name, "Viewer");

    let mut loading = OpenWithChooserState::open("/docs/notes.txt", "text/plain".into(), None, u64::MAX);
    assert_eq!(loading.serial, 0);
    assert!(loading.loading);
    assert_eq!(loading.selected_desktop_id, None);
    assert!(loading.selected_application().is_none());

    assert!(!loading.catalog_loaded(7, catalog(vec![editor()], Vec::new())));
    assert!(loading.loading);
    let mut loaded = catalog(vec![editor()], Vec::new());
    loaded.mime_type = "text/markdown".into();
    assert!(loading.catalog_loaded(0, loaded));
    assert!(!loading.loading);
    assert_eq!(loading.mime_type, "text/markdown");
    assert_eq!(loading.selected_desktop_id.as_deref(), Some("editor.desktop"));
}

#[test]
fn chooser_selection_steps_through_the_listed_applications() {
    let mut chooser = chooser_with(Some(catalog(vec![editor()], Vec::new())));
    let ids: Vec<String> = vec!["a.desktop".into(), "b.desktop".into(), "c.desktop".into()];
    assert!(chooser.step_selection(&ids, false));
    assert_eq!(chooser.selected_desktop_id.as_deref(), Some("a.desktop"));
    assert!(chooser.step_selection(&ids, true));
    assert_eq!(chooser.selected_desktop_id.as_deref(), Some("c.desktop"));
    assert!(chooser.step_selection(&ids, false));
    assert_eq!(chooser.selected_desktop_id.as_deref(), Some("a.desktop"));
    assert!(chooser.step_selection(&ids, false));
    assert!(chooser.step_selection(&ids, true));
    assert_eq!(chooser.selected_desktop_id.as_deref(), Some("a.desktop"));
    assert!(!chooser.step_selection(&Vec::new(), false));
    assert_eq!(chooser.selected_desktop_id.as_deref(), Some("a.desktop"));

    chooser.select_first(&ids[1..].to_vec());
    assert_eq!(chooser.selected_desktop_id.as_deref(), Some("b.desktop"));
    chooser.select_first(&Vec::new());
    assert_eq!(chooser.selected_desktop_id, None);
    assert!(chooser.step_selection(&ids, true));
    assert_eq!(chooser.selected_desktop_id.as_deref(), Some("c.desktop"));
}

#[test]
fn always_use_is_refused_for_unknown_types() {
    let mut chooser = chooser_with(None);
    assert!(chooser.toggle_always_use());
    assert!(chooser.always_use);
    assert!(chooser.toggle_always_use());
    assert!(!chooser.always_use);
    let mut unknown = OpenWithChooserState::open("/x", "application/octet-stream".into(), None, 0);
    assert!(!unknown.toggle_always_use());
    assert!(!unknown.always_use);
}

#[test]
fn dismissing_the_chooser_closes_only_the_same_one() {
    let mut chooser = chooser_with(None);
    assert!(!chooser.close_due(chooser.serial));
    assert!(chooser.dismiss());
    assert!(!chooser.dismiss());
    assert_eq!(chooser.motion, OverlayMotion::Closing);
    assert!(chooser.close_due(1));
    assert!(!chooser.close_due(0));
}

#[test]
fn launching_reports_and_sets_defaults_only_for_known_types() {
    let report = launch_report("Editor", true, "text/plain");
    assert_eq!(report.status, "Opened with Editor");
    assert!(report.set_default);
    assert!(!launch_report("Editor", true, "application/octet-stream").set_default);
    assert!(!launch_report("Editor", false, "text/plain").set_default);
    assert_eq!(default_application_status("Editor"), "Editor is now the default app");
}

#[test]
fn a_loaded_catalog_fills_the_submenu_with_five_suggestions() {
    let mut menu = header(MenuContext { selected_count: 1, ..MenuContext::default() }, 1);
    let suggested: Vec<DesktopApplication> =
        (0..7).map(|i| app(&format!("app{i}.desktop"), &format!("App {i}"))).collect();
    menu.finish_open_with_submenu(&catalog(suggested.clone(), Vec::new()));
    assert!(menu.open_with_submenu.is_none());
    menu.open_open_with_submenu("/docs/notes.txt".into(), "application/octet-stream".into());
    let mut loaded = catalog(suggested, Vec::new());
    loaded.mime_type = "text/plain".into();
    menu.finish_open_with_submenu(&loaded);
    let submenu = menu.open_with_submenu.as_ref().expect("submenu");
    assert_eq!(submenu.mime_type, "text/plain");
    assert_eq!(submenu.applications.len(), 5);
    assert_eq!(submenu.applications[4].desktop_id, "app4.desktop");
    assert!(!submenu.loading);
    assert_eq!(submenu.error, None);
    assert_eq!(submenu.focused, Some(0));
}

#[test]
fn the_chooser_lists_each_application_once_suggestions_first() {
    let chooser = chooser_with(Some(catalog(
        vec![app("b.desktop", "B"), app("a.desktop", "A")],
        vec![app("a.desktop", "A again"), app("c.desktop", "C"), app("b.desktop", "B again")],
    )));
    let apps = chooser.catalog_applications();
    let listed: Vec<(&str, &str)> = apps.iter().map(|a| (a.desktop_id.as_str(), a.name.as_str())).collect();
    assert_eq!(listed, vec![("b.desktop", "B"), ("a.desktop", "A"), ("c.desktop", "C")]);
    assert!(chooser_with(None).catalog_applications().is_empty());
}

#[test]
fn submenu_focus_wraps_and_steps_back() {
    let mut submenu = OpenWithSubmenuState {
        path: "/d/a.txt".into(),
        mime_type: "text/plain".into(),
        applications: vec![app("editor.desktop", "Editor"), app("viewer.desktop", "Viewer")],
        loading: false,
        error: None,
        focused: Some(2),
    };
    submenu.move_focus(1);
    assert_eq!(submenu.focused, Some(0));
    submenu.move_focus(-1);
    assert_eq!(submenu.focused, Some(2));
    submenu.focused = Some(1);
    submenu.move_focus(-1);
    assert_eq!(submenu.focused, Some(0));
    submenu.move_focus(1);
    assert_eq!(submenu.focused, Some(1));
    assert_eq!(submenu.applications.len(), 2);
    assert_eq!(submenu.path, "/d/a.txt");
}

#[test]
fn the_context_is_worked_out_from_the_selection_and_the_listing() {
    let entries = entries();
    let folder = context(&["/two"], &entries, &[], false, false);
    assert_eq!(folder.selected_count, 1);
    assert!(!folder.open_with_eligible && folder.favorite_eligible && !folder.selected_is_favorite);
    assert!(folder.permissions_supported);
    let pinned = context(&["/two/"], &entries, &["/two"], false, false);
    assert!(pinned.favorite_eligible && pinned.selected_is_favorite);

    let both = context(&["/one", "/link"], &entries, &["/one"], false, false);
    assert_eq!(both.selected_count, 2);
    assert!(!both.favorite_eligible && !both.selected_is_favorite && !both.open_with_eligible);
    assert!(!both.permissions_supported);

    let unlisted = context(&["/elsewhere"], &entries, &[], false, false);
    assert_eq!(unlisted.selected_count, 1);
    assert!(!unlisted.permissions_supported && !unlisted.all_selected_archives && !unlisted.favorite_eligible);

    let selected = vec!["/one".to_string()];
    let archives = vec![true, false, false];
    let archive = MenuContext::from_selection(&selected, &entries, &Vec::new(), &archives, true, false);
    assert!(archive.all_selected_archives && archive.clipboard_valid && !archive.operation_running);
}

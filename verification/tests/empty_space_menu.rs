use gnil_app::empty_space_menu::{
    EmptySpaceMenuActivation, EmptySpaceMenuCapabilities, EmptySpaceMenuCommand, EmptySpaceMenuContext,
    EmptySpaceMenuEntry, EmptySpaceMenuState, EmptySpaceSubmenu, EmptySpaceViewState,
};
use gnil_app::model::{SortDirection, SortField, SortSpec};

fn context() -> EmptySpaceMenuContext {
    EmptySpaceMenuContext {
        capabilities: EmptySpaceMenuCapabilities { clipboard_valid: false, operation_running: false, has_entries: true },
        sort: SortSpec::default(),
        view: EmptySpaceViewState { show_hidden: false, git_status_enabled: true },
    }
}

fn menu(context: EmptySpaceMenuContext) -> EmptySpaceMenuState<(f32, f32)> {
    EmptySpaceMenuState::new((10.0, 20.0), context, 1)
}

#[test]
fn root_registry_is_folder_scoped_and_keeps_invalid_paste_visible() {
    let menu = menu(context());
    assert!(menu.root_entries.iter().any(|entry| matches!(
        entry,
        EmptySpaceMenuEntry::Action { command: EmptySpaceMenuCommand::Paste, enabled: false, .. }
    )));
    assert!(!menu.root_entries.iter().any(|entry| matches!(
        entry,
        EmptySpaceMenuEntry::Action {
            command: EmptySpaceMenuCommand::NewFile | EmptySpaceMenuCommand::NewFolder,
            ..
        }
    )));
}

#[test]
fn submenus_reflect_sort_and_view_state() {
    let mut context = context();
    context.sort.field = SortField::Modified;
    context.sort.direction = SortDirection::Descending;
    context.view.show_hidden = true;
    context.view.git_status_enabled = false;
    let mut menu = menu(context);
    menu.open_submenu(EmptySpaceSubmenu::SortBy);
    assert!(menu.submenu_entries.iter().any(|entry| matches!(
        entry,
        EmptySpaceMenuEntry::Action {
            command: EmptySpaceMenuCommand::SortField(SortField::Modified),
            checked: true,
            ..
        }
    )));
    assert!(menu.submenu_entries.iter().any(|entry| matches!(
        entry,
        EmptySpaceMenuEntry::Action {
            command: EmptySpaceMenuCommand::SortDirection(SortDirection::Descending),
            checked: true,
            ..
        }
    )));
    menu.open_submenu(EmptySpaceSubmenu::ViewOptions);
    assert!(menu.submenu_entries.iter().any(|entry| matches!(
        entry,
        EmptySpaceMenuEntry::Action { command: EmptySpaceMenuCommand::ToggleHidden, checked: true, .. }
    )));
    assert!(menu.submenu_entries.iter().any(|entry| matches!(
        entry,
        EmptySpaceMenuEntry::Action { command: EmptySpaceMenuCommand::ToggleGitStatus, checked: false, .. }
    )));
}

#[test]
fn keyboard_navigation_wraps_and_skips_disabled_entries() {
    let mut context = context();
    context.capabilities.operation_running = true;
    context.capabilities.has_entries = false;
    let mut menu = menu(context);
    assert_eq!(menu.focused_activation(), Some(EmptySpaceMenuActivation::Command(EmptySpaceMenuCommand::Refresh)));
    menu.move_focus(-1);
    assert_eq!(
        menu.focused_activation(),
        Some(EmptySpaceMenuActivation::Command(EmptySpaceMenuCommand::FolderProperties))
    );
    menu.focus_last();
    menu.move_focus(1);
    assert_eq!(menu.focused_activation(), Some(EmptySpaceMenuActivation::Command(EmptySpaceMenuCommand::Refresh)));
}

#[test]
fn closing_a_submenu_reports_whether_one_was_open() {
    let mut menu = menu(context());
    assert!(!menu.close_submenu());
    menu.open_submenu(EmptySpaceSubmenu::SortBy);
    assert_eq!(menu.submenu, Some(EmptySpaceSubmenu::SortBy));
    assert!(menu.close_submenu());
    assert_eq!(menu.submenu, None);
    assert!(menu.submenu_entries.is_empty());
}

use gnil_app::command_bar::{
    command_bar_checked_item, command_bar_item, command_bar_menu_items, CommandBarCommand, CommandBarMenuItem,
    CommandBarMenuKind, CommandBarMenuState, CommandBarView, CommandBarWidthTier,
};
use gnil_app::model::{FileLayout, SortDirection, SortField, SortSpec};

fn items() -> Vec<CommandBarMenuItem> {
    vec![
        command_bar_item(CommandBarCommand::NewFolder, "Folder", None, false),
        command_bar_item(CommandBarCommand::NewFile, "File", None, true),
        command_bar_item(CommandBarCommand::NewSymlink, "Symlink", None, true),
    ]
}

#[test]
fn keyboard_focus_skips_disabled_items_and_wraps() {
    let items = items();
    let mut state = CommandBarMenuState::new(CommandBarMenuKind::New, &items, 1);
    assert_eq!(state.focused, Some(1));
    state.move_focus(&items, 1);
    assert_eq!(state.focused, Some(2));
    state.move_focus(&items, 1);
    assert_eq!(state.focused, Some(1));
    state.focus_last(&items);
    assert_eq!(state.focused, Some(2));
}

#[test]
fn command_bar_focus_first_and_backwards_wrap() {
    let items = items();
    let mut state = CommandBarMenuState::new(CommandBarMenuKind::New, &items, 7);
    state.focus_last(&items);
    state.move_focus(&items, 1);
    assert_eq!(state.focused, Some(1));
    state.move_focus(&items, -1);
    assert_eq!(state.focused, Some(2));
    state.focus_first(&items);
    assert_eq!(state.focused, Some(1));
}

#[test]
fn command_bar_menu_without_enabled_items_has_no_focus() {
    let items = vec![command_bar_item(CommandBarCommand::NewFolder, "Folder", None, false)];
    let mut state = CommandBarMenuState::new(CommandBarMenuKind::New, &items, 1);
    assert_eq!(state.focused, None);
    state.move_focus(&items, 1);
    assert_eq!(state.focused, None);
}

#[test]
fn checked_items_are_enabled_and_carry_their_mark() {
    let item = command_bar_checked_item(CommandBarCommand::NewFile, "File", true);
    assert!(item.enabled && item.checked && !item.danger);
    assert_eq!(item.shortcut, None);
}

fn view(in_trash: bool) -> CommandBarView {
    CommandBarView {
        in_trash,
        sort: SortSpec { field: SortField::Modified, direction: SortDirection::Descending },
        file_layout: FileLayout::Details,
        width_tier: CommandBarWidthTier::default(),
        selected_count: 1,
        context: Default::default(),
    }
}

#[test]
fn new_menu_is_disabled_in_the_trash() {
    let items = command_bar_menu_items(&view(false), CommandBarMenuKind::New);
    assert_eq!(items.len(), 3);
    assert!(items.iter().all(|item| item.enabled));
    assert_eq!(items[0].shortcut, Some("Ctrl+Shift+N"));
    let trash = command_bar_menu_items(&view(true), CommandBarMenuKind::New);
    assert!(trash.iter().all(|item| !item.enabled));
}

#[test]
fn sort_menu_checks_the_current_order() {
    let items = command_bar_menu_items(&view(true), CommandBarMenuKind::Sort);
    assert_eq!(items.len(), 6);
    assert_eq!(items[1].label, "Date deleted");
    assert!(items[1].checked && !items[0].checked);
    assert!(items[5].checked && !items[4].checked);
    let folder = command_bar_menu_items(&view(false), CommandBarMenuKind::Sort);
    assert_eq!(folder[1].label, "Date modified");
}

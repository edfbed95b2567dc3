use vstd::prelude::*;

use crate::action_menu::MenuContext;
use crate::focus::{first_enabled, last_enabled, next_focus, spec_first_enabled, spec_last_enabled, spec_move_focus};
use crate::model::{FileLayout, MenuAnimationState, SortDirection, SortField, SortSpec};

verus! {

/// The drop-down menus of the command bar.
#[derive(Clone, Copy, Debug, PartialEq, Eq, Structural)]
pub enum CommandBarMenuKind {
    New,
    Sort,
    Layout,
    More,
}

/// A command offered in a command bar menu.
#[derive(Clone, Copy, Debug, PartialEq, Eq, Structural)]
pub enum CommandBarCommand {
    Cut,
    Copy,
    Rename,
    Trash,
    NewFolder,
    NewFile,
    NewSymlink,
    Open,
    OpenWith,
    ToggleFavorite,
    Extract,
    ExtractTo,
    CopyPathAbsolute,
    CopyPathRelative,
    Properties,
    DeletePermanently,
    SortField(SortField),
    SortDirection(SortDirection),
    Layout(FileLayout),
}

/// How much room the command bar has: the narrower it is, the more of its
/// buttons move into the "More" menu.
#[derive(Clone, Copy, Debug, PartialEq, Eq, Structural)]
pub enum CommandBarWidthTier {
    Narrow,
    Compact,
    Full,
}

impl Default for CommandBarWidthTier {
    fn default() -> (tier: Self)
        ensures
            tier == CommandBarWidthTier::Full,
    {
        CommandBarWidthTier::Full
    }
}

/// One row of a command bar menu.
#[derive(Clone, Copy, Debug, PartialEq, Eq)]
pub struct CommandBarMenuItem {
    pub command: CommandBarCommand,
    pub label: &'static str,
    pub shortcut: Option<&'static str>,
    pub enabled: bool,
    pub checked: bool,
    pub danger: bool,
}

pub open spec fn enabled_flags(items: Seq<CommandBarMenuItem>) -> Seq<bool> {
    items.map_values(|item: CommandBarMenuItem| item.enabled)
}

fn enabled_flag_vec(items: &[CommandBarMenuItem]) -> (flags: Vec<bool>)
    ensures
        flags@ == enabled_flags(items@),
{
    let mut flags: Vec<bool> = Vec::new();
    let mut i: usize = 0;
    while i < items.len()
        invariant
            i <= items@.len(),
            flags@ == enabled_flags(items@.take(i as int)),
        decreases items@.len() - i,
    {
        flags.push(items[i].enabled);
        i += 1;
        assert(flags@ =~= enabled_flags(items@.take(i as int)));
    }
    assert(items@.take(i as int) =~= items@);
    flags
}

/// An open command bar menu and its keyboard focus.
#[derive(Clone, Debug)]
pub struct CommandBarMenuState {
    pub kind: CommandBarMenuKind,
    pub focused: Option<usize>,
    pub animation: MenuAnimationState,
    pub serial: u64,
}

impl CommandBarMenuState {
    /// Opens a menu focused on its first enabled row.
    pub fn new(kind: CommandBarMenuKind, items: &[CommandBarMenuItem], serial: u64) -> (state: Self)
        ensures
            state.kind == kind,
            state.focused == spec_first_enabled(enabled_flags(items@)),
            state.animation == MenuAnimationState::Opening,
            state.serial == serial,
    {
        let flags = enabled_flag_vec(items);
        CommandBarMenuState { kind, focused: first_enabled(&flags), animation: MenuAnimationState::Opening, serial }
    }

    /// Moves focus one step among the enabled rows, wrapping at the ends.
    pub fn move_focus(&mut self, items: &[CommandBarMenuItem], direction: isize)
        ensures
            final(self).focused == spec_move_focus(enabled_flags(items@), old(self).focused, direction < 0),
            final(self).kind == old(self).kind,
            final(self).animation == old(self).animation,
            final(self).serial == old(self).serial,
    {
        let flags = enabled_flag_vec(items);
        self.focused = next_focus(&flags, self.focused, direction < 0);
    }

    pub fn focus_first(&mut self, items: &[CommandBarMenuItem])
        ensures
            final(self).focused == spec_first_enabled(enabled_flags(items@)),
            final(self).kind == old(self).kind,
            final(self).animation == old(self).animation,
            final(self).serial == old(self).serial,
    {
        let flags = enabled_flag_vec(items);
        self.focused = first_enabled(&flags);
    }

    pub fn focus_last(&mut self, items: &[CommandBarMenuItem])
        ensures
            final(self).focused == spec_last_enabled(enabled_flags(items@)),
            final(self).kind == old(self).kind,
            final(self).animation == old(self).animation,
            final(self).serial == old(self).serial,
    {
        let flags = enabled_flag_vec(items);
        self.focused = last_enabled(&flags);
    }
}

pub open spec fn spec_item(
    command: CommandBarCommand,
    label: &'static str,
    shortcut: Option<&'static str>,
    enabled: bool,
) -> CommandBarMenuItem {
    CommandBarMenuItem { command, label, shortcut, enabled, checked: false, danger: false }
}

pub open spec fn spec_danger_item(
    command: CommandBarCommand,
    label: &'static str,
    shortcut: Option<&'static str>,
    enabled: bool,
) -> CommandBarMenuItem {
    CommandBarMenuItem { command, label, shortcut, enabled, checked: false, danger: true }
}

pub open spec fn spec_checked_item(command: CommandBarCommand, label: &'static str, checked: bool) -> CommandBarMenuItem {
    CommandBarMenuItem { command, label, shortcut: None, enabled: true, checked, danger: false }
}

pub fn command_bar_item(
    command: CommandBarCommand,
    label: &'static str,
    shortcut: Option<&'static str>,
    enabled: bool,
) -> (item: CommandBarMenuItem)
    ensures
        item == spec_item(command, label, shortcut, enabled),
{
    CommandBarMenuItem { command, label, shortcut, enabled, checked: false, danger: false }
}

pub fn command_bar_checked_item(command: CommandBarCommand, label: &'static str, checked: bool) -> (item: CommandBarMenuItem)
    ensures
        item == spec_checked_item(command, label, checked),
{
    CommandBarMenuItem { command, label, shortcut: None, enabled: true, checked, danger: false }
}

/// What the command bar menus need to know about the file manager.
#[derive(Clone, Copy, Debug, PartialEq, Eq)]
pub struct CommandBarView {
    /// Whether the Trash is shown rather than a folder.
    pub in_trash: bool,
    pub sort: SortSpec,
    pub file_layout: FileLayout,
    pub width_tier: CommandBarWidthTier,
    /// The number of selected entries.
    pub selected_count: usize,
    /// The menu context of the selection (clipboard and running operation
    /// do not matter here).
    pub context: MenuContext,
}

pub open spec fn when(condition: bool, items: Seq<CommandBarMenuItem>) -> Seq<CommandBarMenuItem> {
    if condition { items } else { Seq::empty() }
}

pub open spec fn seg_narrow(view: CommandBarView, has_selection: bool) -> Seq<CommandBarMenuItem> {
    when(view.width_tier == CommandBarWidthTier::Narrow, seq![
        spec_item(CommandBarCommand::Cut, "Cut", Some("Ctrl+X"), has_selection),
        spec_item(CommandBarCommand::Copy, "Copy", Some("Ctrl+C"), has_selection),
    ])
}

pub open spec fn seg_compact(view: CommandBarView, has_selection: bool, writes_enabled: bool) -> Seq<CommandBarMenuItem> {
    when(view.width_tier != CommandBarWidthTier::Full, seq![
        spec_item(CommandBarCommand::Rename, "Rename", Some("F2"), has_selection && writes_enabled),
        spec_danger_item(CommandBarCommand::Trash, "Move to Trash", Some("Delete"), has_selection && writes_enabled),
    ])
}

pub open spec fn seg_open(view: CommandBarView) -> Seq<CommandBarMenuItem> {
    when(view.context.selected_count == 1, seq![spec_item(CommandBarCommand::Open, "Open", Some("Enter"), true)])
        + when(view.context.open_with_eligible, seq![spec_item(CommandBarCommand::OpenWith, "Open with…", None, true)])
}

pub open spec fn seg_favorite(view: CommandBarView) -> Seq<CommandBarMenuItem> {
    when(view.context.favorite_eligible, seq![spec_item(
        CommandBarCommand::ToggleFavorite,
        if view.context.selected_is_favorite { "Remove from Favorites" } else { "Add to Favorites" },
        Some("Ctrl+D"),
        true,
    )])
}

pub open spec fn seg_extract(view: CommandBarView, writes_enabled: bool) -> Seq<CommandBarMenuItem> {
    when(view.context.all_selected_archives, seq![
        spec_item(CommandBarCommand::Extract, "Extract", Some("Ctrl+E"), writes_enabled),
        spec_item(CommandBarCommand::ExtractTo, "Extract to…", Some("Ctrl+Shift+E"), writes_enabled),
    ])
}

pub open spec fn seg_paths(has_selection: bool) -> Seq<CommandBarMenuItem> {
    when(has_selection, seq![
        spec_item(CommandBarCommand::CopyPathAbsolute, "Copy absolute path", Some("Ctrl+Shift+C"), true),
        spec_item(CommandBarCommand::CopyPathRelative, "Copy relative path", Some("Ctrl+Alt+C"), true),
    ])
}

pub open spec fn seg_properties(view: CommandBarView, has_selection: bool, writes_enabled: bool) -> Seq<CommandBarMenuItem> {
    seq![spec_item(
        CommandBarCommand::Properties,
        if has_selection { "Properties" } else { "Folder Properties" },
        Some("Alt+Enter"),
        if has_selection { view.context.permissions_supported && writes_enabled } else { true },
    )]
}

pub open spec fn seg_delete(has_selection: bool, writes_enabled: bool) -> Seq<CommandBarMenuItem> {
    when(has_selection, seq![spec_danger_item(
        CommandBarCommand::DeletePermanently,
        "Delete Permanently",
        Some("Shift+Delete"),
        writes_enabled,
    )])
}

/// The rows of the "More" menu: in the Trash only copying original paths;
/// elsewhere the buttons that do not fit the bar, then the actions that
/// apply to the selection.
pub open spec fn spec_more_items(view: CommandBarView, has_selection: bool, writes_enabled: bool) -> Seq<CommandBarMenuItem> {
    if view.in_trash {
        when(has_selection, seq![spec_item(CommandBarCommand::CopyPathAbsolute, "Copy original path", Some("Ctrl+Shift+C"), true)])
    } else {
        seg_narrow(view, has_selection) + seg_compact(view, has_selection, writes_enabled) + seg_open(view)
            + seg_favorite(view) + seg_extract(view, writes_enabled) + seg_paths(has_selection)
            + seg_properties(view, has_selection, writes_enabled) + seg_delete(has_selection, writes_enabled)
    }
}

fn push_item(items: &mut Vec<CommandBarMenuItem>, item: CommandBarMenuItem)
    ensures
        final(items)@ == old(items)@ + seq![item],
{
    items.push(item);
    assert(items@ =~= old(items)@ + seq![item]);
}

fn append_narrow(items: &mut Vec<CommandBarMenuItem>, view: &CommandBarView, has_selection: bool)
    ensures
        final(items)@ == old(items)@ + seg_narrow(*view, has_selection),
{
    if view.width_tier == CommandBarWidthTier::Narrow {
        push_item(items, command_bar_item(CommandBarCommand::Cut, "Cut", Some("Ctrl+X"), has_selection));
        push_item(items, command_bar_item(CommandBarCommand::Copy, "Copy", Some("Ctrl+C"), has_selection));
    }
    assert(items@ =~= old(items)@ + seg_narrow(*view, has_selection));
}

fn append_compact(items: &mut Vec<CommandBarMenuItem>, view: &CommandBarView, has_selection: bool, writes_enabled: bool)
    ensures
        final(items)@ == old(items)@ + seg_compact(*view, has_selection, writes_enabled),
{
    if view.width_tier != CommandBarWidthTier::Full {
        push_item(
            items,
            command_bar_item(CommandBarCommand::Rename, "Rename", Some("F2"), has_selection && writes_enabled),
        );
        let mut trash = command_bar_item(
            CommandBarCommand::Trash,
            "Move to Trash",
            Some("Delete"),
            has_selection && writes_enabled,
        );
        trash.danger = true;
        push_item(items, trash);
    }
    assert(items@ =~= old(items)@ + seg_compact(*view, has_selection, writes_enabled));
}

fn append_open(items: &mut Vec<CommandBarMenuItem>, view: &CommandBarView)
    ensures
        final(items)@ == old(items)@ + seg_open(*view),
{
    if view.context.selected_count == 1 {
        push_item(items, command_bar_item(CommandBarCommand::Open, "Open", Some("Enter"), true));
    }
    if view.context.open_with_eligible {
        push_item(items, command_bar_item(CommandBarCommand::OpenWith, "Open with…", None, true));
    }
    assert(items@ =~= old(items)@ + seg_open(*view));
}

fn append_favorite(items: &mut Vec<CommandBarMenuItem>, view: &CommandBarView)
    ensures
        final(items)@ == old(items)@ + seg_favorite(*view),
{
    if view.context.favorite_eligible {
        push_item(
            items,
            command_bar_item(
                CommandBarCommand::ToggleFavorite,
                if view.context.selected_is_favorite {
                    "Remove from Favorites"
                } else {
                    "Add to Favorites"
                },
                Some("Ctrl+D"),
                true,
            ),
        );
    }
    assert(items@ =~= old(items)@ + seg_favorite(*view));
}

fn append_extract(items: &mut Vec<CommandBarMenuItem>, view: &CommandBarView, writes_enabled: bool)
    ensures
        final(items)@ == old(items)@ + seg_extract(*view, writes_enabled),
{
    if view.context.all_selected_archives {
        push_item(items, command_bar_item(CommandBarCommand::Extract, "Extract", Some("Ctrl+E"), writes_enabled));
        push_item(
            items,
            command_bar_item(CommandBarCommand::ExtractTo, "Extract to…", Some("Ctrl+Shift+E"), writes_enabled),
        );
    }
    assert(items@ =~= old(items)@ + seg_extract(*view, writes_enabled));
}

fn append_paths(items: &mut Vec<CommandBarMenuItem>, has_selection: bool)
    ensures
        final(items)@ == old(items)@ + seg_paths(has_selection),
{
    if has_selection {
        push_item(
            items,
            command_bar_item(CommandBarCommand::CopyPathAbsolute, "Copy absolute path", Some("Ctrl+Shift+C"), true),
        );
        push_item(
            items,
            command_bar_item(CommandBarCommand::CopyPathRelative, "Copy relative path", Some("Ctrl+Alt+C"), true),
        );
    }
    assert(items@ =~= old(items)@ + seg_paths(has_selection));
}

fn append_properties_and_delete(
    items: &mut Vec<CommandBarMenuItem>,
    view: &CommandBarView,
    has_selection: bool,
    writes_enabled: bool,
)
    ensures
        final(items)@ == old(items)@ + seg_properties(*view, has_selection, writes_enabled) + seg_delete(
            has_selection,
            writes_enabled,
        ),
{
    push_item(
        items,
        command_bar_item(
            CommandBarCommand::Properties,
            if has_selection {
                "Properties"
            } else {
                "Folder Properties"
            },
            Some("Alt+Enter"),
            if has_selection {
                view.context.permissions_supported && writes_enabled
            } else {
                true
            },
        ),
    );
    if has_selection {
        let mut delete = command_bar_item(
            CommandBarCommand::DeletePermanently,
            "Delete Permanently",
            Some("Shift+Delete"),
            writes_enabled,
        );
        delete.danger = true;
        push_item(items, delete);
    }
    assert(items@ =~= old(items)@ + seg_properties(*view, has_selection, writes_enabled) + seg_delete(
        has_selection,
        writes_enabled,
    ));
}

pub fn command_bar_more_items(view: &CommandBarView, has_selection: bool, writes_enabled: bool) -> (items: Vec<CommandBarMenuItem>)
    ensures
        items@ == spec_more_items(*view, has_selection, writes_enabled),
{
    let mut items: Vec<CommandBarMenuItem> = Vec::new();
    if view.in_trash {
        if has_selection {
            push_item(
                &mut items,
                command_bar_item(CommandBarCommand::CopyPathAbsolute, "Copy original path", Some("Ctrl+Shift+C"), true),
            );
        }
        assert(items@ =~= spec_more_items(*view, has_selection, writes_enabled));
        return items;
    }
    append_narrow(&mut items, view, has_selection);
    assert(items@ =~= seg_narrow(*view, has_selection));
    append_compact(&mut items, view, has_selection, writes_enabled);
    append_open(&mut items, view);
    append_favorite(&mut items, view);
    append_extract(&mut items, view, writes_enabled);
    append_paths(&mut items, has_selection);
    append_properties_and_delete(&mut items, view, has_selection, writes_enabled);
    items
}

/// The rows of a command bar menu. Creating entries is impossible in the
/// Trash, where "Date modified" reads "Date deleted".
pub open spec fn spec_menu_items(view: CommandBarView, kind: CommandBarMenuKind) -> Seq<CommandBarMenuItem> {
    let has_selection = view.selected_count > 0;
    let can_create = !view.in_trash;
    match kind {
        CommandBarMenuKind::New => seq![
            spec_item(CommandBarCommand::NewFolder, "Folder", Some("Ctrl+Shift+N"), can_create),
            spec_item(CommandBarCommand::NewFile, "File", None, can_create),
            spec_item(CommandBarCommand::NewSymlink, "Symlink", Some("Ctrl+Shift+L"), can_create),
        ],
        CommandBarMenuKind::Sort => seq![
            spec_checked_item(CommandBarCommand::SortField(SortField::Name), "Name", view.sort.field == SortField::Name),
            spec_checked_item(
                CommandBarCommand::SortField(SortField::Modified),
                if view.in_trash { "Date deleted" } else { "Date modified" },
                view.sort.field == SortField::Modified,
            ),
            spec_checked_item(CommandBarCommand::SortField(SortField::Kind), "Type", view.sort.field == SortField::Kind),
            spec_checked_item(CommandBarCommand::SortField(SortField::Size), "Size", view.sort.field == SortField::Size),
            spec_checked_item(
                CommandBarCommand::SortDirection(SortDirection::Ascending),
                "Ascending",
                view.sort.direction == SortDirection::Ascending,
            ),
            spec_checked_item(
                CommandBarCommand::SortDirection(SortDirection::Descending),
                "Descending",
                view.sort.direction == SortDirection::Descending,
            ),
        ],
        CommandBarMenuKind::Layout => seq![
            spec_checked_item(CommandBarCommand::Layout(FileLayout::Details), "Details", view.file_layout == FileLayout::Details),
            spec_checked_item(CommandBarCommand::Layout(FileLayout::Grid), "Grid", view.file_layout == FileLayout::Grid),
        ],
        CommandBarMenuKind::More => spec_more_items(view, has_selection, true),
    }
}

pub fn command_bar_menu_items(view: &CommandBarView, kind: CommandBarMenuKind) -> (items: Vec<CommandBarMenuItem>)
    ensures
        items@ == spec_menu_items(*view, kind),
{
    let has_selection = view.selected_count > 0;
    let writes_enabled = true;
    let mut items: Vec<CommandBarMenuItem> = Vec::new();
    match kind {
        CommandBarMenuKind::New => {
            items.push(command_bar_item(CommandBarCommand::NewFolder, "Folder", Some("Ctrl+Shift+N"), writes_enabled && !view.in_trash));
            items.push(command_bar_item(CommandBarCommand::NewFile, "File", None, writes_enabled && !view.in_trash));
            items.push(command_bar_item(CommandBarCommand::NewSymlink, "Symlink", Some("Ctrl+Shift+L"), writes_enabled && !view.in_trash));
        },
        CommandBarMenuKind::Sort => {
            items.push(command_bar_checked_item(CommandBarCommand::SortField(SortField::Name), "Name", view.sort.field == SortField::Name));
            items.push(
                command_bar_checked_item(
                    CommandBarCommand::SortField(SortField::Modified),
                    if view.in_trash {
                        "Date deleted"
                    } else {
                        "Date modified"
                    },
                    view.sort.field == SortField::Modified,
                ),
            );
            items.push(command_bar_checked_item(CommandBarCommand::SortField(SortField::Kind), "Type", view.sort.field == SortField::Kind));
            items.push(command_bar_checked_item(CommandBarCommand::SortField(SortField::Size), "Size", view.sort.field == SortField::Size));
            items.push(
                command_bar_checked_item(
                    CommandBarCommand::SortDirection(SortDirection::Ascending),
                    "Ascending",
                    view.sort.direction == SortDirection::Ascending,
                ),
            );
            items.push(
                command_bar_checked_item(
                    CommandBarCommand::SortDirection(SortDirection::Descending),
                    "Descending",
                    view.sort.direction == SortDirection::Descending,
                ),
            );
        },
        CommandBarMenuKind::Layout => {
            items.push(command_bar_checked_item(CommandBarCommand::Layout(FileLayout::Details), "Details", view.file_layout == FileLayout::Details));
            items.push(command_bar_checked_item(CommandBarCommand::Layout(FileLayout::Grid), "Grid", view.file_layout == FileLayout::Grid));
        },
        CommandBarMenuKind::More => {
            return command_bar_more_items(view, has_selection, writes_enabled);
        },
    }
    assert(items@ =~= spec_menu_items(*view, kind));
    items
}

pub open spec fn danger_is_destructive(item: CommandBarMenuItem) -> bool {
    item.danger ==> (item.command == CommandBarCommand::Trash || item.command == CommandBarCommand::DeletePermanently)
}

pub open spec fn all_danger_destructive(items: Seq<CommandBarMenuItem>) -> bool {
    forall|i: int| 0 <= i < items.len() ==> danger_is_destructive(#[trigger] items[i])
}

proof fn lemma_all_concat(a: Seq<CommandBarMenuItem>, b: Seq<CommandBarMenuItem>)
    requires
        all_danger_destructive(a),
        all_danger_destructive(b),
    ensures
        all_danger_destructive(a + b),
{
    assert forall|i: int| 0 <= i < (a + b).len() implies danger_is_destructive(#[trigger] (a + b)[i]) by {
        if i < a.len() {
            assert((a + b)[i] == a[i]);
        } else {
            assert((a + b)[i] == b[i - a.len()]);
        }
    }
}

/// The "More" menu marks only destructive rows as dangerous: moving to
/// Trash and permanent deletion.
pub proof fn lemma_more_menu_danger(view: CommandBarView, has_selection: bool, writes_enabled: bool)
    ensures
        all_danger_destructive(spec_more_items(view, has_selection, writes_enabled)),
{
    if !view.in_trash {
        let s1 = seg_narrow(view, has_selection);
        let s2 = seg_compact(view, has_selection, writes_enabled);
        let s3 = seg_open(view);
        let s4 = seg_favorite(view);
        let s5 = seg_extract(view, writes_enabled);
        let s6 = seg_paths(has_selection);
        let s7 = seg_properties(view, has_selection, writes_enabled);
        let s8 = seg_delete(has_selection, writes_enabled);
        lemma_all_concat(s1, s2);
        lemma_all_concat(s1 + s2, s3);
        lemma_all_concat(s1 + s2 + s3, s4);
        lemma_all_concat(s1 + s2 + s3 + s4, s5);
        lemma_all_concat(s1 + s2 + s3 + s4 + s5, s6);
        lemma_all_concat(s1 + s2 + s3 + s4 + s5 + s6, s7);
        lemma_all_concat(s1 + s2 + s3 + s4 + s5 + s6 + s7, s8);
    }
}

} // verus!

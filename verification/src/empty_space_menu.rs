use vstd::prelude::*;

use crate::focus::{first_enabled, last_enabled, next_focus, spec_first_enabled, spec_last_enabled, spec_move_focus};
use crate::model::{MenuAnimationState, SortDirection, SortField, SortSpec};

verus! {

/// A command of the menu opened on empty space in a folder.
#[derive(Clone, Copy, Debug, PartialEq, Eq, Structural)]
pub enum EmptySpaceMenuCommand {
    NewFolder,
    NewFile,
    Paste,
    Refresh,
    SortField(SortField),
    SortDirection(SortDirection),
    ToggleHidden,
    ToggleGitStatus,
    SelectAll,
    OpenTerminal,
    FolderProperties,
}

/// A submenu of the empty-space menu.
#[derive(Clone, Copy, Debug, PartialEq, Eq, Structural)]
pub enum EmptySpaceSubmenu {
    New,
    SortBy,
    ViewOptions,
}

/// One row of the empty-space menu or of one of its submenus.
#[derive(Clone, Copy, Debug, PartialEq, Eq)]
pub enum EmptySpaceMenuEntry {
    Action {
        command: EmptySpaceMenuCommand,
        label: &'static str,
        shortcut: Option<&'static str>,
        enabled: bool,
        checked: bool,
    },
    Submenu { submenu: EmptySpaceSubmenu, label: &'static str, enabled: bool },
    Separator,
}

pub open spec fn spec_enabled_command(entry: EmptySpaceMenuEntry) -> Option<EmptySpaceMenuCommand> {
    match entry {
        EmptySpaceMenuEntry::Action { command, enabled, .. } => if enabled { Some(command) } else { None },
        _ => None,
    }
}

pub open spec fn spec_enabled_submenu(entry: EmptySpaceMenuEntry) -> Option<EmptySpaceSubmenu> {
    match entry {
        EmptySpaceMenuEntry::Submenu { submenu, enabled, .. } => if enabled { Some(submenu) } else { None },
        _ => None,
    }
}

pub open spec fn spec_is_selectable(entry: EmptySpaceMenuEntry) -> bool {
    spec_enabled_command(entry) is Some || spec_enabled_submenu(entry) is Some
}

pub open spec fn selectable_flags(entries: Seq<EmptySpaceMenuEntry>) -> Seq<bool> {
    entries.map_values(|e: EmptySpaceMenuEntry| spec_is_selectable(e))
}

impl EmptySpaceMenuEntry {
    pub fn enabled_command(&self) -> (command: Option<EmptySpaceMenuCommand>)
        ensures
            command == spec_enabled_command(*self),
    {
        match self {
            EmptySpaceMenuEntry::Action { command, enabled, .. } => if *enabled {
                Some(*command)
            } else {
                None
            },
            _ => None,
        }
    }

    pub fn enabled_submenu(&self) -> (submenu: Option<EmptySpaceSubmenu>)
        ensures
            submenu == spec_enabled_submenu(*self),
    {
        match self {
            EmptySpaceMenuEntry::Submenu { submenu, enabled, .. } => if *enabled {
                Some(*submenu)
            } else {
                None
            },
            _ => None,
        }
    }
}

/// What the folder allows.
#[derive(Clone, Copy, Debug, PartialEq, Eq, Structural)]
pub struct EmptySpaceMenuCapabilities {
    pub clipboard_valid: bool,
    pub operation_running: bool,
    pub has_entries: bool,
}

/// How the folder is currently shown.
#[derive(Clone, Copy, Debug, PartialEq, Eq, Structural)]
pub struct EmptySpaceViewState {
    pub show_hidden: bool,
    pub git_status_enabled: bool,
}

#[derive(Clone, Copy, Debug, PartialEq, Eq, Structural)]
pub struct EmptySpaceMenuContext {
    pub capabilities: EmptySpaceMenuCapabilities,
    pub sort: SortSpec,
    pub view: EmptySpaceViewState,
}

/// What activating the focused row does.
#[derive(Clone, Copy, Debug, PartialEq, Eq, Structural)]
pub enum EmptySpaceMenuActivation {
    Command(EmptySpaceMenuCommand),
    Submenu(EmptySpaceSubmenu),
}

pub open spec fn spec_action(
    command: EmptySpaceMenuCommand,
    label: &'static str,
    shortcut: Option<&'static str>,
    enabled: bool,
    checked: bool,
) -> EmptySpaceMenuEntry {
    EmptySpaceMenuEntry::Action { command, label, shortcut, enabled, checked }
}

pub open spec fn spec_checked(command: EmptySpaceMenuCommand, label: &'static str, checked: bool) -> EmptySpaceMenuEntry {
    spec_action(command, label, None, true, checked)
}

pub fn action(
    command: EmptySpaceMenuCommand,
    label: &'static str,
    shortcut: Option<&'static str>,
    enabled: bool,
    checked: bool,
) -> (entry: EmptySpaceMenuEntry)
    ensures
        entry == spec_action(command, label, shortcut, enabled, checked),
{
    EmptySpaceMenuEntry::Action { command, label, shortcut, enabled, checked }
}

pub fn checked_action(command: EmptySpaceMenuCommand, label: &'static str, checked: bool) -> (entry: EmptySpaceMenuEntry)
    ensures
        entry == spec_checked(command, label, checked),
{
    action(command, label, None, true, checked)
}

pub fn submenu(which: EmptySpaceSubmenu, label: &'static str, enabled: bool) -> (entry: EmptySpaceMenuEntry)
    ensures
        entry == (EmptySpaceMenuEntry::Submenu { submenu: which, label, enabled }),
{
    EmptySpaceMenuEntry::Submenu { submenu: which, label, enabled }
}

pub fn is_selectable(entry: &EmptySpaceMenuEntry) -> (selectable: bool)
    ensures
        selectable == spec_is_selectable(*entry),
{
    entry.enabled_command().is_some() || entry.enabled_submenu().is_some()
}

fn selectable_flag_vec(entries: &Vec<EmptySpaceMenuEntry>) -> (flags: Vec<bool>)
    ensures
        flags@ == selectable_flags(entries@),
{
    let mut flags: Vec<bool> = Vec::new();
    let mut i: usize = 0;
    while i < entries.len()
        invariant
            i <= entries@.len(),
            flags@ == selectable_flags(entries@.take(i as int)),
        decreases entries@.len() - i,
    {
        flags.push(is_selectable(&entries[i]));
        i += 1;
        assert(flags@ =~= selectable_flags(entries@.take(i as int)));
    }
    assert(entries@.take(i as int) =~= entries@);
    flags
}

/// Moves focus one step among the selectable rows, wrapping at the ends.
pub fn move_focus_in(entries: &Vec<EmptySpaceMenuEntry>, focused: &mut Option<usize>, direction: isize)
    ensures
        *final(focused) == spec_move_focus(selectable_flags(entries@), *old(focused), direction < 0),
{
    let flags = selectable_flag_vec(entries);
    *focused = next_focus(&flags, *focused, direction < 0);
}

/// The rows of the empty-space menu. New items and paste wait while a file
/// operation runs.
pub open spec fn spec_root_entries(context: EmptySpaceMenuContext) -> Seq<EmptySpaceMenuEntry> {
    let writes_enabled = !context.capabilities.operation_running;
    seq![
        EmptySpaceMenuEntry::Submenu { submenu: EmptySpaceSubmenu::New, label: "New", enabled: writes_enabled },
        spec_action(EmptySpaceMenuCommand::Paste, "Paste", Some("Ctrl+V"), context.capabilities.clipboard_valid && writes_enabled, false),
        EmptySpaceMenuEntry::Separator,
        spec_action(EmptySpaceMenuCommand::Refresh, "Refresh", Some("F5"), true, false),
        EmptySpaceMenuEntry::Submenu { submenu: EmptySpaceSubmenu::SortBy, label: "Sort by", enabled: true },
        EmptySpaceMenuEntry::Submenu { submenu: EmptySpaceSubmenu::ViewOptions, label: "View options", enabled: true },
        EmptySpaceMenuEntry::Separator,
        spec_action(EmptySpaceMenuCommand::SelectAll, "Select All", Some("Ctrl+A"), context.capabilities.has_entries, false),
        spec_action(EmptySpaceMenuCommand::OpenTerminal, "Open Terminal Here", None, true, false),
        EmptySpaceMenuEntry::Separator,
        spec_action(EmptySpaceMenuCommand::FolderProperties, "Folder Properties", None, true, false),
    ]
}

/// The rows of a submenu, reflecting the current sort and view settings.
pub open spec fn spec_submenu_entries(submenu: EmptySpaceSubmenu, context: EmptySpaceMenuContext) -> Seq<EmptySpaceMenuEntry> {
    match submenu {
        EmptySpaceSubmenu::New => seq![
            spec_action(EmptySpaceMenuCommand::NewFolder, "New Folder", Some("Ctrl+Shift+N"), !context.capabilities.operation_running, false),
            spec_action(EmptySpaceMenuCommand::NewFile, "New File", None, !context.capabilities.operation_running, false),
        ],
        EmptySpaceSubmenu::SortBy => seq![
            spec_checked(EmptySpaceMenuCommand::SortField(SortField::Name), "Name", context.sort.field == SortField::Name),
            spec_checked(EmptySpaceMenuCommand::SortField(SortField::Size), "Size", context.sort.field == SortField::Size),
            spec_checked(EmptySpaceMenuCommand::SortField(SortField::Modified), "Modified", context.sort.field == SortField::Modified),
            spec_checked(EmptySpaceMenuCommand::SortField(SortField::Kind), "Kind", context.sort.field == SortField::Kind),
            EmptySpaceMenuEntry::Separator,
            spec_checked(EmptySpaceMenuCommand::SortDirection(SortDirection::Ascending), "Ascending", context.sort.direction == SortDirection::Ascending),
            spec_checked(EmptySpaceMenuCommand::SortDirection(SortDirection::Descending), "Descending", context.sort.direction == SortDirection::Descending),
        ],
        EmptySpaceSubmenu::ViewOptions => seq![
            spec_checked(EmptySpaceMenuCommand::ToggleHidden, "Show Hidden Files", context.view.show_hidden),
            spec_checked(EmptySpaceMenuCommand::ToggleGitStatus, "Show Git Status", context.view.git_status_enabled),
        ],
    }
}

pub fn submenu_entries(which: EmptySpaceSubmenu, context: EmptySpaceMenuContext) -> (entries: Vec<EmptySpaceMenuEntry>)
    ensures
        entries@ == spec_submenu_entries(which, context),
{
    let mut entries: Vec<EmptySpaceMenuEntry> = Vec::new();
    match which {
        EmptySpaceSubmenu::New => {
            entries.push(action(EmptySpaceMenuCommand::NewFolder, "New Folder", Some("Ctrl+Shift+N"), !context.capabilities.operation_running, false));
            entries.push(action(EmptySpaceMenuCommand::NewFile, "New File", None, !context.capabilities.operation_running, false));
        },
        EmptySpaceSubmenu::SortBy => {
            entries.push(checked_action(EmptySpaceMenuCommand::SortField(SortField::Name), "Name", context.sort.field == SortField::Name));
            entries.push(checked_action(EmptySpaceMenuCommand::SortField(SortField::Size), "Size", context.sort.field == SortField::Size));
            entries.push(checked_action(EmptySpaceMenuCommand::SortField(SortField::Modified), "Modified", context.sort.field == SortField::Modified));
            entries.push(checked_action(EmptySpaceMenuCommand::SortField(SortField::Kind), "Kind", context.sort.field == SortField::Kind));
            entries.push(EmptySpaceMenuEntry::Separator);
            entries.push(checked_action(EmptySpaceMenuCommand::SortDirection(SortDirection::Ascending), "Ascending", context.sort.direction == SortDirection::Ascending));
            entries.push(checked_action(EmptySpaceMenuCommand::SortDirection(SortDirection::Descending), "Descending", context.sort.direction == SortDirection::Descending));
        },
        EmptySpaceSubmenu::ViewOptions => {
            entries.push(checked_action(EmptySpaceMenuCommand::ToggleHidden, "Show Hidden Files", context.view.show_hidden));
            entries.push(checked_action(EmptySpaceMenuCommand::ToggleGitStatus, "Show Git Status", context.view.git_status_enabled));
        },
    }
    assert(entries@ =~= spec_submenu_entries(which, context));
    entries
}

/// The menu opened on empty space in a folder, with at most one submenu open.
#[derive(Clone, Debug)]
pub struct EmptySpaceMenuState<P> {
    pub position: P,
    pub root_entries: Vec<EmptySpaceMenuEntry>,
    pub submenu: Option<EmptySpaceSubmenu>,
    pub submenu_entries: Vec<EmptySpaceMenuEntry>,
    pub focused_root: Option<usize>,
    pub focused_submenu: Option<usize>,
    pub animation: MenuAnimationState,
    pub serial: u64,
    pub context: EmptySpaceMenuContext,
}

impl<P> EmptySpaceMenuState<P> {
    pub open spec fn spec_context(&self) -> EmptySpaceMenuContext {
        self.context
    }

    pub fn new(position: P, context: EmptySpaceMenuContext, serial: u64) -> (menu: Self)
        ensures
            menu.position == position,
            menu.root_entries@ == spec_root_entries(context),
            menu.submenu is None,
            menu.submenu_entries@.len() == 0,
            menu.focused_root == spec_first_enabled(selectable_flags(menu.root_entries@)),
            menu.focused_submenu is None,
            menu.animation == MenuAnimationState::Opening,
            menu.serial == serial,
            menu.spec_context() == context,
    {
        let writes_enabled = !context.capabilities.operation_running;
        let mut root_entries: Vec<EmptySpaceMenuEntry> = Vec::new();
        root_entries.push(submenu(EmptySpaceSubmenu::New, "New", writes_enabled));
        root_entries.push(
            action(
                EmptySpaceMenuCommand::Paste,
                "Paste",
                Some("Ctrl+V"),
                context.capabilities.clipboard_valid && writes_enabled,
                false,
            ),
        );
        root_entries.push(EmptySpaceMenuEntry::Separator);
        root_entries.push(action(EmptySpaceMenuCommand::Refresh, "Refresh", Some("F5"), true, false));
        root_entries.push(submenu(EmptySpaceSubmenu::SortBy, "Sort by", true));
        root_entries.push(submenu(EmptySpaceSubmenu::ViewOptions, "View options", true));
        root_entries.push(EmptySpaceMenuEntry::Separator);
        root_entries.push(
            action(EmptySpaceMenuCommand::SelectAll, "Select All", Some("Ctrl+A"), context.capabilities.has_entries, false),
        );
        root_entries.push(action(EmptySpaceMenuCommand::OpenTerminal, "Open Terminal Here", None, true, false));
        root_entries.push(EmptySpaceMenuEntry::Separator);
        root_entries.push(action(EmptySpaceMenuCommand::FolderProperties, "Folder Properties", None, true, false));
        assert(root_entries@ =~= spec_root_entries(context));
        let flags = selectable_flag_vec(&root_entries);
        let focused_root = first_enabled(&flags);
        EmptySpaceMenuState {
            position,
            root_entries,
            submenu: None,
            submenu_entries: Vec::new(),
            focused_root,
            focused_submenu: None,
            animation: MenuAnimationState::Opening,
            serial,
            context,
        }
    }

    /// Opens a submenu and focuses its first selectable row.
    pub fn open_submenu(&mut self, which: EmptySpaceSubmenu)
        ensures
            final(self).position == old(self).position,
            final(self).animation == old(self).animation,
            final(self).serial == old(self).serial,
            final(self).context == old(self).context,
            final(self).submenu == Some(which),
            final(self).submenu_entries@ == spec_submenu_entries(which, old(self).spec_context()),
            final(self).focused_submenu == spec_first_enabled(selectable_flags(final(self).submenu_entries@)),
            final(self).root_entries == old(self).root_entries,
            final(self).focused_root == old(self).focused_root,
            final(self).spec_context() == old(self).spec_context(),
    {
        self.submenu = Some(which);
        self.submenu_entries = submenu_entries(which, self.context);
        let flags = selectable_flag_vec(&self.submenu_entries);
        self.focused_submenu = first_enabled(&flags);
    }

    /// Closes the submenu; returns whether one was open.
    pub fn close_submenu(&mut self) -> (was_open: bool)
        ensures
            final(self).position == old(self).position,
            final(self).animation == old(self).animation,
            final(self).serial == old(self).serial,
            final(self).context == old(self).context,
            was_open == old(self).submenu is Some,
            final(self).submenu is None,
            final(self).submenu_entries@.len() == 0,
            final(self).focused_submenu is None,
            final(self).root_entries == old(self).root_entries,
            final(self).focused_root == old(self).focused_root,
            final(self).spec_context() == old(self).spec_context(),
    {
        let was_open = self.submenu.is_some();
        self.submenu = None;
        self.submenu_entries.clear();
        self.focused_submenu = None;
        was_open
    }

    /// Moves focus one step in the open submenu, or in the menu itself.
    pub fn move_focus(&mut self, direction: isize)
        ensures
            final(self).position == old(self).position,
            final(self).animation == old(self).animation,
            final(self).serial == old(self).serial,
            final(self).context == old(self).context,
            final(self).root_entries == old(self).root_entries,
            final(self).submenu == old(self).submenu,
            final(self).submenu_entries == old(self).submenu_entries,
            if old(self).submenu is Some {
                &&& final(self).focused_submenu == spec_move_focus(selectable_flags(old(self).submenu_entries@), old(self).focused_submenu, direction < 0)
                &&& final(self).focused_root == old(self).focused_root
            } else {
                &&& final(self).focused_root == spec_move_focus(selectable_flags(old(self).root_entries@), old(self).focused_root, direction < 0)
                &&& final(self).focused_submenu == old(self).focused_submenu
            },
    {
        if self.submenu.is_some() {
            move_focus_in(&self.submenu_entries, &mut self.focused_submenu, direction);
        } else {
            move_focus_in(&self.root_entries, &mut self.focused_root, direction);
        }
    }

    pub fn focus_first(&mut self)
        ensures
            final(self).position == old(self).position,
            final(self).animation == old(self).animation,
            final(self).serial == old(self).serial,
            final(self).context == old(self).context,
            final(self).root_entries == old(self).root_entries,
            final(self).submenu == old(self).submenu,
            final(self).submenu_entries == old(self).submenu_entries,
            if old(self).submenu is Some {
                &&& final(self).focused_submenu == spec_first_enabled(selectable_flags(old(self).submenu_entries@))
                &&& final(self).focused_root == old(self).focused_root
            } else {
                &&& final(self).focused_root == spec_first_enabled(selectable_flags(old(self).root_entries@))
                &&& final(self).focused_submenu == old(self).focused_submenu
            },
    {
        if self.submenu.is_some() {
            let flags = selectable_flag_vec(&self.submenu_entries);
            self.focused_submenu = first_enabled(&flags);
        } else {
            let flags = selectable_flag_vec(&self.root_entries);
            self.focused_root = first_enabled(&flags);
        }
    }

    pub fn focus_last(&mut self)
        ensures
            final(self).position == old(self).position,
            final(self).animation == old(self).animation,
            final(self).serial == old(self).serial,
            final(self).context == old(self).context,
            final(self).root_entries == old(self).root_entries,
            final(self).submenu == old(self).submenu,
            final(self).submenu_entries == old(self).submenu_entries,
            if old(self).submenu is Some {
                &&& final(self).focused_submenu == spec_last_enabled(selectable_flags(old(self).submenu_entries@))
                &&& final(self).focused_root == old(self).focused_root
            } else {
                &&& final(self).focused_root == spec_last_enabled(selectable_flags(old(self).root_entries@))
                &&& final(self).focused_submenu == old(self).focused_submenu
            },
    {
        if self.submenu.is_some() {
            let flags = selectable_flag_vec(&self.submenu_entries);
            self.focused_submenu = last_enabled(&flags);
        } else {
            let flags = selectable_flag_vec(&self.root_entries);
            self.focused_root = last_enabled(&flags);
        }
    }

    /// Focuses root row `index` when it is selectable.
    pub fn focus_root(&mut self, index: usize)
        ensures
            final(self).position == old(self).position,
            final(self).animation == old(self).animation,
            final(self).serial == old(self).serial,
            final(self).context == old(self).context,
            final(self).focused_root == (if index < old(self).root_entries@.len() && spec_is_selectable(old(self).root_entries@[index as int]) {
                Some(index)
            } else {
                old(self).focused_root
            }),
            final(self).focused_submenu == old(self).focused_submenu,
            final(self).root_entries == old(self).root_entries,
            final(self).submenu == old(self).submenu,
            final(self).submenu_entries == old(self).submenu_entries,
    {
        if index < self.root_entries.len() && is_selectable(&self.root_entries[index]) {
            self.focused_root = Some(index);
        }
    }

    /// Focuses submenu row `index` when it is selectable.
    pub fn focus_submenu(&mut self, index: usize)
        ensures
            final(self).position == old(self).position,
            final(self).animation == old(self).animation,
            final(self).serial == old(self).serial,
            final(self).context == old(self).context,
            final(self).focused_submenu == (if index < old(self).submenu_entries@.len() && spec_is_selectable(old(self).submenu_entries@[index as int]) {
                Some(index)
            } else {
                old(self).focused_submenu
            }),
            final(self).focused_root == old(self).focused_root,
            final(self).submenu_entries == old(self).submenu_entries,
            final(self).submenu == old(self).submenu,
            final(self).root_entries == old(self).root_entries,
    {
        if index < self.submenu_entries.len() && is_selectable(&self.submenu_entries[index]) {
            self.focused_submenu = Some(index);
        }
    }

    pub open spec fn spec_focused_activation(&self) -> Option<EmptySpaceMenuActivation> {
        if self.submenu is Some {
            match self.focused_submenu {
                Some(i) => if i < self.submenu_entries@.len() {
                    match spec_enabled_command(self.submenu_entries@[i as int]) {
                        Some(c) => Some(EmptySpaceMenuActivation::Command(c)),
                        None => None,
                    }
                } else {
                    None
                },
                None => None,
            }
        } else {
            match self.focused_root {
                Some(i) => if i < self.root_entries@.len() {
                    match spec_enabled_command(self.root_entries@[i as int]) {
                        Some(c) => Some(EmptySpaceMenuActivation::Command(c)),
                        None => match spec_enabled_submenu(self.root_entries@[i as int]) {
                            Some(s) => Some(EmptySpaceMenuActivation::Submenu(s)),
                            None => None,
                        },
                    }
                } else {
                    None
                },
                None => None,
            }
        }
    }

    /// What activating the focused row would do; in a submenu only commands
    /// activate.
    pub fn focused_activation(&self) -> (activation: Option<EmptySpaceMenuActivation>)
        ensures
            activation == self.spec_focused_activation(),
    {
        if self.submenu.is_some() {
            return match self.focused_submenu {
                Some(i) => if i < self.submenu_entries.len() {
                    match self.submenu_entries[i].enabled_command() {
                        Some(c) => Some(EmptySpaceMenuActivation::Command(c)),
                        None => None,
                    }
                } else {
                    None
                },
                None => None,
            };
        }
        match self.focused_root {
            Some(i) => if i < self.root_entries.len() {
                let entry = &self.root_entries[i];
                match entry.enabled_command() {
                    Some(c) => Some(EmptySpaceMenuActivation::Command(c)),
                    None => match entry.enabled_submenu() {
                        Some(s) => Some(EmptySpaceMenuActivation::Submenu(s)),
                        None => None,
                    },
                }
            } else {
                None
            },
            None => None,
        }
    }
}

/// The submenus mark exactly the current sort field, sort direction and
/// view options as checked.
pub proof fn lemma_submenus_reflect_state(context: EmptySpaceMenuContext, field: SortField, direction: SortDirection)
    ensures
        spec_submenu_entries(EmptySpaceSubmenu::SortBy, context).contains(
            spec_checked(EmptySpaceMenuCommand::SortField(field), match field {
                SortField::Name => "Name",
                SortField::Size => "Size",
                SortField::Modified => "Modified",
                SortField::Kind => "Kind",
            }, context.sort.field == field),
        ),
        spec_submenu_entries(EmptySpaceSubmenu::SortBy, context).contains(
            spec_checked(EmptySpaceMenuCommand::SortDirection(direction), match direction {
                SortDirection::Ascending => "Ascending",
                SortDirection::Descending => "Descending",
            }, context.sort.direction == direction),
        ),
        spec_submenu_entries(EmptySpaceSubmenu::ViewOptions, context) == seq![
            spec_checked(EmptySpaceMenuCommand::ToggleHidden, "Show Hidden Files", context.view.show_hidden),
            spec_checked(EmptySpaceMenuCommand::ToggleGitStatus, "Show Git Status", context.view.git_status_enabled),
        ],
{
    let s = spec_submenu_entries(EmptySpaceSubmenu::SortBy, context);
    match field {
        SortField::Name => assert(s[0] == spec_checked(EmptySpaceMenuCommand::SortField(field), "Name", context.sort.field == field)),
        SortField::Size => assert(s[1] == spec_checked(EmptySpaceMenuCommand::SortField(field), "Size", context.sort.field == field)),
        SortField::Modified => assert(s[2] == spec_checked(EmptySpaceMenuCommand::SortField(field), "Modified", context.sort.field == field)),
        SortField::Kind => assert(s[3] == spec_checked(EmptySpaceMenuCommand::SortField(field), "Kind", context.sort.field == field)),
    }
    match direction {
        SortDirection::Ascending => assert(s[5] == spec_checked(EmptySpaceMenuCommand::SortDirection(direction), "Ascending", context.sort.direction == direction)),
        SortDirection::Descending => assert(s[6] == spec_checked(EmptySpaceMenuCommand::SortDirection(direction), "Descending", context.sort.direction == direction)),
    }
}

/// The empty-space menu itself never offers "New Folder" or "New File"
/// directly (they live in the "New" submenu), and it always shows "Paste",
/// enabled only for a valid clipboard while no operation runs.
pub proof fn lemma_root_is_folder_scoped(context: EmptySpaceMenuContext)
    ensures
        forall|i: int| 0 <= i < spec_root_entries(context).len() ==> !(#[trigger] spec_root_entries(context)[i] matches EmptySpaceMenuEntry::Action {
            command: EmptySpaceMenuCommand::NewFolder | EmptySpaceMenuCommand::NewFile, .. }),
        spec_root_entries(context)[1] == spec_action(
            EmptySpaceMenuCommand::Paste,
            "Paste",
            Some("Ctrl+V"),
            context.capabilities.clipboard_valid && !context.capabilities.operation_running,
            false,
        ),
{
}

} // verus!

use vstd::prelude::*;

use crate::model::opt_text;

use crate::labels::{decimal, decimal_string};
use crate::paths::chars_of;
use crate::text::{
    same_text, spec_to_ascii_lowercase, spec_trim, starts_with, text_starts_with, to_ascii_lowercase, trim,
};

verus! {

/// The settings window; here, the state of its keymap editor and whether it
/// animates.
pub struct PreferencesWindow {
    pub keymap_overrides: KeymapOverrides,
    pub keymap_edit: Option<KeymapEditState>,
    pub keymap_conflict: Option<KeymapConflictState>,
    pub keymap_error: Option<String>,
    pub reduced_motion: bool,
}

/// Whether a user binding adds a key binding or removes a default one.
#[derive(Clone, Copy, Debug, PartialEq, Eq, Structural)]
pub enum KeymapBindingKind {
    Bind,
    Unbind,
}

/// One user override of the keymap.
pub struct KeymapBinding {
    pub action: String,
    pub keystrokes: String,
    pub kind: KeymapBindingKind,
}

/// A user binding as plain values.
pub struct KeymapBindingView {
    pub action: Seq<char>,
    pub keystrokes: Seq<char>,
    pub kind: KeymapBindingKind,
}

impl View for KeymapBinding {
    type V = KeymapBindingView;

    open spec fn view(&self) -> KeymapBindingView {
        KeymapBindingView { action: self.action@, keystrokes: self.keystrokes@, kind: self.kind }
    }
}

/// The user's overrides of the default keymap.
pub struct KeymapOverrides {
    pub bindings: Vec<KeymapBinding>,
}

impl KeymapOverrides {
    /// The overrides as plain values.
    pub open spec fn spec_bindings(&self) -> Seq<KeymapBindingView> {
        self.bindings@.map_values(|b: KeymapBinding| b@)
    }
}

impl Default for KeymapOverrides {
    fn default() -> (keymap: Self)
        ensures
            keymap.bindings@.len() == 0,
    {
        KeymapOverrides { bindings: Vec::new() }
    }
}

/// A binding that is being added or replaced in the keymap editor.
pub struct KeymapEditState {
    pub action: String,
    pub replacing: Option<String>,
    pub input: String,
    pub capturing: bool,
}

/// An edit that waits for the user to confirm taking keys from other commands.
pub struct KeymapConflictState {
    pub edit: KeymapEditState,
    pub collisions: Vec<KeymapCollision>,
}

/// A binding of another command that an edit would clash with.
pub struct KeymapCollision {
    pub action: String,
    pub keystrokes: String,
}

/// A command of the file manager that the keymap can bind.
#[derive(Clone, Copy, Debug)]
pub struct KeymapActionDescriptor {
    pub id: &'static str,
    pub label: &'static str,
    pub description: &'static str,
    pub category: &'static str,
    pub default_keys: &'static [&'static str],
}

/// The bindable commands, in the order the keymap editor lists them.
pub open spec fn spec_keymap_actions() -> Seq<KeymapActionDescriptor> {
    seq![
        KeymapActionDescriptor { id: "selection.next", label: "Select Next", description: "Move the file cursor down", category: "Navigation", default_keys: &["down"] },
        KeymapActionDescriptor { id: "selection.previous", label: "Select Previous", description: "Move the file cursor up", category: "Navigation", default_keys: &["up"] },
        KeymapActionDescriptor { id: "selection.left", label: "Select Left", description: "Move left in Grid layout", category: "Navigation", default_keys: &["left"] },
        KeymapActionDescriptor { id: "selection.right", label: "Select Right", description: "Move right in Grid layout", category: "Navigation", default_keys: &["right"] },
        KeymapActionDescriptor { id: "selection.next_range", label: "Extend Selection Down", description: "Extend the selection to the next item", category: "Selection", default_keys: &["shift-down"] },
        KeymapActionDescriptor { id: "selection.previous_range", label: "Extend Selection Up", description: "Extend the selection to the previous item", category: "Selection", default_keys: &["shift-up"] },
        KeymapActionDescriptor { id: "selection.left_range", label: "Extend Selection Left", description: "Extend selection left in Grid layout", category: "Selection", default_keys: &["shift-left"] },
        KeymapActionDescriptor { id: "selection.right_range", label: "Extend Selection Right", description: "Extend selection right in Grid layout", category: "Selection", default_keys: &["shift-right"] },
        KeymapActionDescriptor { id: "selection.toggle", label: "Toggle Selection", description: "Add or remove the cursor item", category: "Selection", default_keys: &["ctrl-space"] },
        KeymapActionDescriptor { id: "selection.all", label: "Select All", description: "Select every visible item", category: "Selection", default_keys: &["ctrl-a"] },
        KeymapActionDescriptor { id: "file.open", label: "Open", description: "Open the selected item", category: "Navigation", default_keys: &["enter"] },
        KeymapActionDescriptor { id: "file.open_with", label: "Open With", description: "Choose an application for the selected file", category: "File Operations", default_keys: &[] },
        KeymapActionDescriptor { id: "navigation.back", label: "Back", description: "Go to the previous folder", category: "Navigation", default_keys: &["alt-left"] },
        KeymapActionDescriptor { id: "navigation.forward", label: "Forward", description: "Go to the next folder", category: "Navigation", default_keys: &["alt-right"] },
        KeymapActionDescriptor { id: "navigation.up", label: "Parent Folder", description: "Go to the parent folder", category: "Navigation", default_keys: &["alt-up"] },
        KeymapActionDescriptor { id: "view.refresh", label: "Refresh", description: "Reload the current folder", category: "View & Search", default_keys: &["f5"] },
        KeymapActionDescriptor { id: "view.toggle_hidden", label: "Toggle Hidden Files", description: "Show or hide hidden entries", category: "View & Search", default_keys: &["ctrl-h"] },
        KeymapActionDescriptor { id: "preview.toggle", label: "Toggle Preview", description: "Show or hide the preview panel", category: "View & Search", default_keys: &["space"] },
        KeymapActionDescriptor { id: "search.path", label: "Edit Path", description: "Focus the location field", category: "View & Search", default_keys: &["ctrl-l"] },
        KeymapActionDescriptor { id: "search.files", label: "Search Files", description: "Search the current folder", category: "View & Search", default_keys: &["ctrl-f"] },
        KeymapActionDescriptor { id: "file.copy", label: "Copy", description: "Copy the selected items", category: "File Operations", default_keys: &["ctrl-c"] },
        KeymapActionDescriptor { id: "file.cut", label: "Cut", description: "Cut the selected items", category: "File Operations", default_keys: &["ctrl-x"] },
        KeymapActionDescriptor { id: "file.paste", label: "Paste", description: "Paste into the current folder", category: "File Operations", default_keys: &["ctrl-v"] },
        KeymapActionDescriptor { id: "file.copy_path", label: "Copy Absolute Path", description: "Copy selected paths", category: "File Operations", default_keys: &["ctrl-shift-c"] },
        KeymapActionDescriptor { id: "file.copy_relative_path", label: "Copy Relative Path", description: "Copy paths relative to the current folder", category: "File Operations", default_keys: &["ctrl-alt-c"] },
        KeymapActionDescriptor { id: "file.rename", label: "Rename", description: "Rename the selected item", category: "File Operations", default_keys: &["f2"] },
        KeymapActionDescriptor { id: "file.create_folder", label: "Create Folder", description: "Create a folder in the current directory", category: "File Operations", default_keys: &["ctrl-shift-n"] },
        KeymapActionDescriptor { id: "file.create_file", label: "Create File", description: "Create a file in the current directory", category: "File Operations", default_keys: &[] },
        KeymapActionDescriptor { id: "file.create_symlink", label: "Create Symlink", description: "Create a symbolic link", category: "File Operations", default_keys: &["ctrl-shift-l"] },
        KeymapActionDescriptor { id: "file.set_permissions", label: "Edit Permissions", description: "Edit POSIX permissions", category: "File Operations", default_keys: &["alt-enter"] },
        KeymapActionDescriptor { id: "file.extract", label: "Extract Archive", description: "Extract beside the archive", category: "File Operations", default_keys: &["ctrl-e"] },
        KeymapActionDescriptor { id: "file.extract_to", label: "Extract Archive To…", description: "Choose an extraction destination", category: "File Operations", default_keys: &["ctrl-shift-e"] },
        KeymapActionDescriptor { id: "file.trash", label: "Move to Trash", description: "Move selected items to Trash", category: "Trash & Safety", default_keys: &["delete"] },
        KeymapActionDescriptor { id: "file.delete_permanently", label: "Delete Permanently", description: "Delete after confirmation", category: "Trash & Safety", default_keys: &["shift-delete"] },
        KeymapActionDescriptor { id: "file.undo", label: "Undo", description: "Undo the latest reversible operation", category: "Trash & Safety", default_keys: &["ctrl-z"] },
        KeymapActionDescriptor { id: "favorites.toggle", label: "Toggle Favorite", description: "Add or remove the selected folder from Favorites", category: "Favorites & Settings", default_keys: &["ctrl-d"] },
        KeymapActionDescriptor { id: "appearance.toggle", label: "Open Appearance", description: "Open the theme and appearance menu", category: "Favorites & Settings", default_keys: &["ctrl-shift-t"] },
        KeymapActionDescriptor { id: "settings.open", label: "Open Settings", description: "Open Settings", category: "Favorites & Settings", default_keys: &["ctrl-,"] },
        KeymapActionDescriptor { id: "settings.open_keymap", label: "Open Keymap Editor", description: "Open Keymap & Controls in Settings", category: "Favorites & Settings", default_keys: &["ctrl-k ctrl-s"] },
    ]
}

/// The table of bindable commands.
pub fn keymap_actions() -> (table: &'static [KeymapActionDescriptor])
    ensures
        table@ == spec_keymap_actions(),
{
    let table: &'static [KeymapActionDescriptor] = &[
        KeymapActionDescriptor { id: "selection.next", label: "Select Next", description: "Move the file cursor down", category: "Navigation", default_keys: &["down"] },
        KeymapActionDescriptor { id: "selection.previous", label: "Select Previous", description: "Move the file cursor up", category: "Navigation", default_keys: &["up"] },
        KeymapActionDescriptor { id: "selection.left", label: "Select Left", description: "Move left in Grid layout", category: "Navigation", default_keys: &["left"] },
        KeymapActionDescriptor { id: "selection.right", label: "Select Right", description: "Move right in Grid layout", category: "Navigation", default_keys: &["right"] },
        KeymapActionDescriptor { id: "selection.next_range", label: "Extend Selection Down", description: "Extend the selection to the next item", category: "Selection", default_keys: &["shift-down"] },
        KeymapActionDescriptor { id: "selection.previous_range", label: "Extend Selection Up", description: "Extend the selection to the previous item", category: "Selection", default_keys: &["shift-up"] },
        KeymapActionDescriptor { id: "selection.left_range", label: "Extend Selection Left", description: "Extend selection left in Grid layout", category: "Selection", default_keys: &["shift-left"] },
        KeymapActionDescriptor { id: "selection.right_range", label: "Extend Selection Right", description: "Extend selection right in Grid layout", category: "Selection", default_keys: &["shift-right"] },
        KeymapActionDescriptor { id: "selection.toggle", label: "Toggle Selection", description: "Add or remove the cursor item", category: "Selection", default_keys: &["ctrl-space"] },
        KeymapActionDescriptor { id: "selection.all", label: "Select All", description: "Select every visible item", category: "Selection", default_keys: &["ctrl-a"] },
        KeymapActionDescriptor { id: "file.open", label: "Open", description: "Open the selected item", category: "Navigation", default_keys: &["enter"] },
        KeymapActionDescriptor { id: "file.open_with", label: "Open With", description: "Choose an application for the selected file", category: "File Operations", default_keys: &[] },
        KeymapActionDescriptor { id: "navigation.back", label: "Back", description: "Go to the previous folder", category: "Navigation", default_keys: &["alt-left"] },
        KeymapActionDescriptor { id: "navigation.forward", label: "Forward", description: "Go to the next folder", category: "Navigation", default_keys: &["alt-right"] },
        KeymapActionDescriptor { id: "navigation.up", label: "Parent Folder", description: "Go to the parent folder", category: "Navigation", default_keys: &["alt-up"] },
        KeymapActionDescriptor { id: "view.refresh", label: "Refresh", description: "Reload the current folder", category: "View & Search", default_keys: &["f5"] },
        KeymapActionDescriptor { id: "view.toggle_hidden", label: "Toggle Hidden Files", description: "Show or hide hidden entries", category: "View & Search", default_keys: &["ctrl-h"] },
        KeymapActionDescriptor { id: "preview.toggle", label: "Toggle Preview", description: "Show or hide the preview panel", category: "View & Search", default_keys: &["space"] },
        KeymapActionDescriptor { id: "search.path", label: "Edit Path", description: "Focus the location field", category: "View & Search", default_keys: &["ctrl-l"] },
        KeymapActionDescriptor { id: "search.files", label: "Search Files", description: "Search the current folder", category: "View & Search", default_keys: &["ctrl-f"] },
        KeymapActionDescriptor { id: "file.copy", label: "Copy", description: "Copy the selected items", category: "File Operations", default_keys: &["ctrl-c"] },
        KeymapActionDescriptor { id: "file.cut", label: "Cut", description: "Cut the selected items", category: "File Operations", default_keys: &["ctrl-x"] },
        KeymapActionDescriptor { id: "file.paste", label: "Paste", description: "Paste into the current folder", category: "File Operations", default_keys: &["ctrl-v"] },
        KeymapActionDescriptor { id: "file.copy_path", label: "Copy Absolute Path", description: "Copy selected paths", category: "File Operations", default_keys: &["ctrl-shift-c"] },
        KeymapActionDescriptor { id: "file.copy_relative_path", label: "Copy Relative Path", description: "Copy paths relative to the current folder", category: "File Operations", default_keys: &["ctrl-alt-c"] },
        KeymapActionDescriptor { id: "file.rename", label: "Rename", description: "Rename the selected item", category: "File Operations", default_keys: &["f2"] },
        KeymapActionDescriptor { id: "file.create_folder", label: "Create Folder", description: "Create a folder in the current directory", category: "File Operations", default_keys: &["ctrl-shift-n"] },
        KeymapActionDescriptor { id: "file.create_file", label: "Create File", description: "Create a file in the current directory", category: "File Operations", default_keys: &[] },
        KeymapActionDescriptor { id: "file.create_symlink", label: "Create Symlink", description: "Create a symbolic link", category: "File Operations", default_keys: &["ctrl-shift-l"] },
        KeymapActionDescriptor { id: "file.set_permissions", label: "Edit Permissions", description: "Edit POSIX permissions", category: "File Operations", default_keys: &["alt-enter"] },
        KeymapActionDescriptor { id: "file.extract", label: "Extract Archive", description: "Extract beside the archive", category: "File Operations", default_keys: &["ctrl-e"] },
        KeymapActionDescriptor { id: "file.extract_to", label: "Extract Archive To…", description: "Choose an extraction destination", category: "File Operations", default_keys: &["ctrl-shift-e"] },
        KeymapActionDescriptor { id: "file.trash", label: "Move to Trash", description: "Move selected items to Trash", category: "Trash & Safety", default_keys: &["delete"] },
        KeymapActionDescriptor { id: "file.delete_permanently", label: "Delete Permanently", description: "Delete after confirmation", category: "Trash & Safety", default_keys: &["shift-delete"] },
        KeymapActionDescriptor { id: "file.undo", label: "Undo", description: "Undo the latest reversible operation", category: "Trash & Safety", default_keys: &["ctrl-z"] },
        KeymapActionDescriptor { id: "favorites.toggle", label: "Toggle Favorite", description: "Add or remove the selected folder from Favorites", category: "Favorites & Settings", default_keys: &["ctrl-d"] },
        KeymapActionDescriptor { id: "appearance.toggle", label: "Open Appearance", description: "Open the theme and appearance menu", category: "Favorites & Settings", default_keys: &["ctrl-shift-t"] },
        KeymapActionDescriptor { id: "settings.open", label: "Open Settings", description: "Open Settings", category: "Favorites & Settings", default_keys: &["ctrl-,"] },
        KeymapActionDescriptor { id: "settings.open_keymap", label: "Open Keymap Editor", description: "Open Keymap & Controls in Settings", category: "Favorites & Settings", default_keys: &["ctrl-k ctrl-s"] },
    ];
    assert(table@ =~= spec_keymap_actions());
    table
}

/// Whether `action` names a bindable command.
pub open spec fn known_action(action: Seq<char>) -> bool {
    exists|i: int| 0 <= i < spec_keymap_actions().len() && (#[trigger] spec_keymap_actions()[i]).id@ == action
}

/// The gpui action that a keymap command id stands for.
#[derive(Clone, Copy, Debug, PartialEq, Eq, Structural)]
pub enum KeymapCommand {
    SelectNext,
    SelectPrevious,
    SelectLeft,
    SelectRight,
    SelectNextRange,
    SelectPreviousRange,
    SelectLeftRange,
    SelectRightRange,
    ToggleSelection,
    SelectAllEntries,
    OpenSelected,
    OpenWithSelected,
    GoBack,
    GoForward,
    GoUp,
    Refresh,
    ToggleHidden,
    TogglePreview,
    ActivatePathInput,
    ActivateFileSearch,
    CopySelected,
    CutSelected,
    Paste,
    CopyPathAbsolute,
    CopyPathRelative,
    OpenRename,
    CreateFolder,
    CreateFile,
    OpenCreateSymlink,
    OpenPermissions,
    ExtractSelected,
    ExtractSelectedTo,
    TrashSelected,
    DeleteSelected,
    Undo,
    ToggleFavorite,
    ToggleAppearance,
    ToggleSettings,
    OpenKeymap,
}

/// The command that an action id binds to.
pub open spec fn spec_keymap_command(action: Seq<char>) -> Option<KeymapCommand> {
    if action == "selection.next"@ { Some(KeymapCommand::SelectNext) }
    else if action == "selection.previous"@ { Some(KeymapCommand::SelectPrevious) }
    else if action == "selection.left"@ { Some(KeymapCommand::SelectLeft) }
    else if action == "selection.right"@ { Some(KeymapCommand::SelectRight) }
    else if action == "selection.next_range"@ { Some(KeymapCommand::SelectNextRange) }
    else if action == "selection.previous_range"@ { Some(KeymapCommand::SelectPreviousRange) }
    else if action == "selection.left_range"@ { Some(KeymapCommand::SelectLeftRange) }
    else if action == "selection.right_range"@ { Some(KeymapCommand::SelectRightRange) }
    else if action == "selection.toggle"@ { Some(KeymapCommand::ToggleSelection) }
    else if action == "selection.all"@ { Some(KeymapCommand::SelectAllEntries) }
    else if action == "file.open"@ { Some(KeymapCommand::OpenSelected) }
    else if action == "file.open_with"@ { Some(KeymapCommand::OpenWithSelected) }
    else if action == "navigation.back"@ { Some(KeymapCommand::GoBack) }
    else if action == "navigation.forward"@ { Some(KeymapCommand::GoForward) }
    else if action == "navigation.up"@ { Some(KeymapCommand::GoUp) }
    else if action == "view.refresh"@ { Some(KeymapCommand::Refresh) }
    else if action == "view.toggle_hidden"@ { Some(KeymapCommand::ToggleHidden) }
    else if action == "preview.toggle"@ { Some(KeymapCommand::TogglePreview) }
    else if action == "search.path"@ { Some(KeymapCommand::ActivatePathInput) }
    else if action == "search.files"@ { Some(KeymapCommand::ActivateFileSearch) }
    else if action == "file.copy"@ { Some(KeymapCommand::CopySelected) }
    else if action == "file.cut"@ { Some(KeymapCommand::CutSelected) }
    else if action == "file.paste"@ { Some(KeymapCommand::Paste) }
    else if action == "file.copy_path"@ { Some(KeymapCommand::CopyPathAbsolute) }
    else if action == "file.copy_relative_path"@ { Some(KeymapCommand::CopyPathRelative) }
    else if action == "file.rename"@ { Some(KeymapCommand::OpenRename) }
    else if action == "file.create_folder"@ { Some(KeymapCommand::CreateFolder) }
    else if action == "file.create_file"@ { Some(KeymapCommand::CreateFile) }
    else if action == "file.create_symlink"@ { Some(KeymapCommand::OpenCreateSymlink) }
    else if action == "file.set_permissions"@ { Some(KeymapCommand::OpenPermissions) }
    else if action == "file.extract"@ { Some(KeymapCommand::ExtractSelected) }
    else if action == "file.extract_to"@ { Some(KeymapCommand::ExtractSelectedTo) }
    else if action == "file.trash"@ { Some(KeymapCommand::TrashSelected) }
    else if action == "file.delete_permanently"@ { Some(KeymapCommand::DeleteSelected) }
    else if action == "file.undo"@ { Some(KeymapCommand::Undo) }
    else if action == "favorites.toggle"@ { Some(KeymapCommand::ToggleFavorite) }
    else if action == "appearance.toggle"@ { Some(KeymapCommand::ToggleAppearance) }
    else if action == "settings.open"@ { Some(KeymapCommand::ToggleSettings) }
    else if action == "settings.open_keymap"@ { Some(KeymapCommand::OpenKeymap) }
    else { None }
}

fn keymap_command(action: &str) -> (command: Option<KeymapCommand>)
    ensures
        command == spec_keymap_command(action@),
{
    if same_text(action, "selection.next") { Some(KeymapCommand::SelectNext) }
    else if same_text(action, "selection.previous") { Some(KeymapCommand::SelectPrevious) }
    else if same_text(action, "selection.left") { Some(KeymapCommand::SelectLeft) }
    else if same_text(action, "selection.right") { Some(KeymapCommand::SelectRight) }
    else if same_text(action, "selection.next_range") { Some(KeymapCommand::SelectNextRange) }
    else if same_text(action, "selection.previous_range") { Some(KeymapCommand::SelectPreviousRange) }
    else if same_text(action, "selection.left_range") { Some(KeymapCommand::SelectLeftRange) }
    else if same_text(action, "selection.right_range") { Some(KeymapCommand::SelectRightRange) }
    else if same_text(action, "selection.toggle") { Some(KeymapCommand::ToggleSelection) }
    else if same_text(action, "selection.all") { Some(KeymapCommand::SelectAllEntries) }
    else if same_text(action, "file.open") { Some(KeymapCommand::OpenSelected) }
    else if same_text(action, "file.open_with") { Some(KeymapCommand::OpenWithSelected) }
    else if same_text(action, "navigation.back") { Some(KeymapCommand::GoBack) }
    else if same_text(action, "navigation.forward") { Some(KeymapCommand::GoForward) }
    else if same_text(action, "navigation.up") { Some(KeymapCommand::GoUp) }
    else if same_text(action, "view.refresh") { Some(KeymapCommand::Refresh) }
    else if same_text(action, "view.toggle_hidden") { Some(KeymapCommand::ToggleHidden) }
    else if same_text(action, "preview.toggle") { Some(KeymapCommand::TogglePreview) }
    else if same_text(action, "search.path") { Some(KeymapCommand::ActivatePathInput) }
    else if same_text(action, "search.files") { Some(KeymapCommand::ActivateFileSearch) }
    else if same_text(action, "file.copy") { Some(KeymapCommand::CopySelected) }
    else if same_text(action, "file.cut") { Some(KeymapCommand::CutSelected) }
    else if same_text(action, "file.paste") { Some(KeymapCommand::Paste) }
    else if same_text(action, "file.copy_path") { Some(KeymapCommand::CopyPathAbsolute) }
    else if same_text(action, "file.copy_relative_path") { Some(KeymapCommand::CopyPathRelative) }
    else if same_text(action, "file.rename") { Some(KeymapCommand::OpenRename) }
    else if same_text(action, "file.create_folder") { Some(KeymapCommand::CreateFolder) }
    else if same_text(action, "file.create_file") { Some(KeymapCommand::CreateFile) }
    else if same_text(action, "file.create_symlink") { Some(KeymapCommand::OpenCreateSymlink) }
    else if same_text(action, "file.set_permissions") { Some(KeymapCommand::OpenPermissions) }
    else if same_text(action, "file.extract") { Some(KeymapCommand::ExtractSelected) }
    else if same_text(action, "file.extract_to") { Some(KeymapCommand::ExtractSelectedTo) }
    else if same_text(action, "file.trash") { Some(KeymapCommand::TrashSelected) }
    else if same_text(action, "file.delete_permanently") { Some(KeymapCommand::DeleteSelected) }
    else if same_text(action, "file.undo") { Some(KeymapCommand::Undo) }
    else if same_text(action, "favorites.toggle") { Some(KeymapCommand::ToggleFavorite) }
    else if same_text(action, "appearance.toggle") { Some(KeymapCommand::ToggleAppearance) }
    else if same_text(action, "settings.open") { Some(KeymapCommand::ToggleSettings) }
    else if same_text(action, "settings.open_keymap") { Some(KeymapCommand::OpenKeymap) }
    else { None }
}

/// The first descriptor of the table whose id is `action`.
pub open spec fn is_first_descriptor(action: Seq<char>, d: KeymapActionDescriptor) -> bool {
    exists|i: int|
        0 <= i < spec_keymap_actions().len() && #[trigger] spec_keymap_actions()[i] == d && d.id@ == action
            && forall|j: int| 0 <= j < i ==> (#[trigger] spec_keymap_actions()[j]).id@ != action
}

impl PreferencesWindow {
    /// The descriptor of the command `action`, if the keymap knows it.
    pub fn keymap_descriptor(action: &str) -> (found: Option<KeymapActionDescriptor>)
        ensures
            match found {
                Some(d) => is_first_descriptor(action@, d),
                None => !known_action(action@),
            },
    {
        let table = keymap_actions();
        let mut i: usize = 0;
        while i < table.len()
            invariant
                table@ == spec_keymap_actions(),
                i <= table@.len(),
                forall|j: int| 0 <= j < i ==> (#[trigger] spec_keymap_actions()[j]).id@ != action@,
            decreases table@.len() - i,
        {
            let d = table[i];
            if same_text(d.id, action) {
                assert(spec_keymap_actions()[i as int] == d);
                return Some(d);
            }
            i += 1;
        }
        None
    }
}

/// Exactly the commands that the keymap table describes can be bound:
/// `binding_for_keymap_action` gives a binding for an id if and only if
/// `keymap_descriptor` finds a descriptor for it.
pub proof fn lemma_bindable_iff_described(action: Seq<char>)
    ensures
        spec_keymap_command(action) is Some <==> known_action(action),
{
    let t = spec_keymap_actions();
    if spec_keymap_command(action) is Some {
        if action == "selection.next"@ {
            assert(t[0].id@ == action);
        }
        else if action == "selection.previous"@ {
            assert(t[1].id@ == action);
        }
        else if action == "selection.left"@ {
            assert(t[2].id@ == action);
        }
        else if action == "selection.right"@ {
            assert(t[3].id@ == action);
        }
        else if action == "selection.next_range"@ {
            assert(t[4].id@ == action);
        }
        else if action == "selection.previous_range"@ {
            assert(t[5].id@ == action);
        }
        else if action == "selection.left_range"@ {
            assert(t[6].id@ == action);
        }
        else if action == "selection.right_range"@ {
            assert(t[7].id@ == action);
        }
        else if action == "selection.toggle"@ {
            assert(t[8].id@ == action);
        }
        else if action == "selection.all"@ {
            assert(t[9].id@ == action);
        }
        else if action == "file.open"@ {
            assert(t[10].id@ == action);
        }
        else if action == "file.open_with"@ {
            assert(t[11].id@ == action);
        }
        else if action == "navigation.back"@ {
            assert(t[12].id@ == action);
        }
        else if action == "navigation.forward"@ {
            assert(t[13].id@ == action);
        }
        else if action == "navigation.up"@ {
            assert(t[14].id@ == action);
        }
        else if action == "view.refresh"@ {
            assert(t[15].id@ == action);
        }
        else if action == "view.toggle_hidden"@ {
            assert(t[16].id@ == action);
        }
        else if action == "preview.toggle"@ {
            assert(t[17].id@ == action);
        }
        else if action == "search.path"@ {
            assert(t[18].id@ == action);
        }
        else if action == "search.files"@ {
            assert(t[19].id@ == action);
        }
        else if action == "file.copy"@ {
            assert(t[20].id@ == action);
        }
        else if action == "file.cut"@ {
            assert(t[21].id@ == action);
        }
        else if action == "file.paste"@ {
            assert(t[22].id@ == action);
        }
        else if action == "file.copy_path"@ {
            assert(t[23].id@ == action);
        }
        else if action == "file.copy_relative_path"@ {
            assert(t[24].id@ == action);
        }
        else if action == "file.rename"@ {
            assert(t[25].id@ == action);
        }
        else if action == "file.create_folder"@ {
            assert(t[26].id@ == action);
        }
        else if action == "file.create_file"@ {
            assert(t[27].id@ == action);
        }
        else if action == "file.create_symlink"@ {
            assert(t[28].id@ == action);
        }
        else if action == "file.set_permissions"@ {
            assert(t[29].id@ == action);
        }
        else if action == "file.extract"@ {
            assert(t[30].id@ == action);
        }
        else if action == "file.extract_to"@ {
            assert(t[31].id@ == action);
        }
        else if action == "file.trash"@ {
            assert(t[32].id@ == action);
        }
        else if action == "file.delete_permanently"@ {
            assert(t[33].id@ == action);
        }
        else if action == "file.undo"@ {
            assert(t[34].id@ == action);
        }
        else if action == "favorites.toggle"@ {
            assert(t[35].id@ == action);
        }
        else if action == "appearance.toggle"@ {
            assert(t[36].id@ == action);
        }
        else if action == "settings.open"@ {
            assert(t[37].id@ == action);
        }
        else if action == "settings.open_keymap"@ {
            assert(t[38].id@ == action);
        }
    }
    if known_action(action) {
        let i = choose|i: int| 0 <= i < t.len() && (#[trigger] t[i]).id@ == action;
        assert(spec_keymap_command(t[i].id@) is Some) by {
            if i == 0 {
                assert(t[0].id == "selection.next");
            }
            else if i == 1 {
                assert(t[1].id == "selection.previous");
            }
            else if i == 2 {
                assert(t[2].id == "selection.left");
            }
            else if i == 3 {
                assert(t[3].id == "selection.right");
            }
            else if i == 4 {
                assert(t[4].id == "selection.next_range");
            }
            else if i == 5 {
                assert(t[5].id == "selection.previous_range");
            }
            else if i == 6 {
                assert(t[6].id == "selection.left_range");
            }
            else if i == 7 {
                assert(t[7].id == "selection.right_range");
            }
            else if i == 8 {
                assert(t[8].id == "selection.toggle");
            }
            else if i == 9 {
                assert(t[9].id == "selection.all");
            }
            else if i == 10 {
                assert(t[10].id == "file.open");
            }
            else if i == 11 {
                assert(t[11].id == "file.open_with");
            }
            else if i == 12 {
                assert(t[12].id == "navigation.back");
            }
            else if i == 13 {
                assert(t[13].id == "navigation.forward");
            }
            else if i == 14 {
                assert(t[14].id == "navigation.up");
            }
            else if i == 15 {
                assert(t[15].id == "view.refresh");
            }
            else if i == 16 {
                assert(t[16].id == "view.toggle_hidden");
            }
            else if i == 17 {
                assert(t[17].id == "preview.toggle");
            }
            else if i == 18 {
                assert(t[18].id == "search.path");
            }
            else if i == 19 {
                assert(t[19].id == "search.files");
            }
            else if i == 20 {
                assert(t[20].id == "file.copy");
            }
            else if i == 21 {
                assert(t[21].id == "file.cut");
            }
            else if i == 22 {
                assert(t[22].id == "file.paste");
            }
            else if i == 23 {
                assert(t[23].id == "file.copy_path");
            }
            else if i == 24 {
                assert(t[24].id == "file.copy_relative_path");
            }
            else if i == 25 {
                assert(t[25].id == "file.rename");
            }
            else if i == 26 {
                assert(t[26].id == "file.create_folder");
            }
            else if i == 27 {
                assert(t[27].id == "file.create_file");
            }
            else if i == 28 {
                assert(t[28].id == "file.create_symlink");
            }
            else if i == 29 {
                assert(t[29].id == "file.set_permissions");
            }
            else if i == 30 {
                assert(t[30].id == "file.extract");
            }
            else if i == 31 {
                assert(t[31].id == "file.extract_to");
            }
            else if i == 32 {
                assert(t[32].id == "file.trash");
            }
            else if i == 33 {
                assert(t[33].id == "file.delete_permanently");
            }
            else if i == 34 {
                assert(t[34].id == "file.undo");
            }
            else if i == 35 {
                assert(t[35].id == "favorites.toggle");
            }
            else if i == 36 {
                assert(t[36].id == "appearance.toggle");
            }
            else if i == 37 {
                assert(t[37].id == "settings.open");
            }
            else if i == 38 {
                assert(t[38].id == "settings.open_keymap");
            }
        }
    }
}


/// A pair of texts taken by their characters.
pub open spec fn text_pair(p: (&'static str, &'static str)) -> (Seq<char>, Seq<char>) {
    (p.0@, p.1@)
}

/// The (command, keystrokes) pairs that the descriptors bind by default, in table order.
pub open spec fn entries_of(table: Seq<KeymapActionDescriptor>) -> Seq<(Seq<char>, Seq<char>)>
    decreases table.len(),
{
    if table.len() == 0 {
        Seq::empty()
    } else {
        let d = table.last();
        entries_of(table.drop_last()) + d.default_keys@.map_values(|k: &'static str| (d.id@, k@))
    }
}

/// The default keymap.
pub open spec fn spec_default_entries() -> Seq<(Seq<char>, Seq<char>)> {
    entries_of(spec_keymap_actions())
}

/// Whether a user binding names a known command and keystrokes that all parse.
/// `keys_parse` says whether each whitespace-separated keystroke of the binding parses.
pub open spec fn binding_valid(b: KeymapBindingView, keys_parse: bool) -> bool {
    known_action(b.action) && b.keystrokes.len() > 0 && keys_parse
}

/// The number of invalid bindings among the first `n`.
pub open spec fn invalid_prefix(bs: Seq<KeymapBindingView>, parse: Seq<bool>, n: int) -> nat
    decreases n,
{
    if n <= 0 {
        0
    } else {
        invalid_prefix(bs, parse, n - 1) + if binding_valid(bs[n - 1], parse[n - 1]) { 0nat } else { 1nat }
    }
}

/// The warning shown when `n` bindings were ignored.
pub open spec fn validation_text(n: nat) -> Seq<char> {
    "Ignored "@ + decimal(n) + " invalid or unsupported keymap binding"@ + (if n == 1 { ""@ } else { "s"@ })
        + "."@
}

/// Whether the user unbound `entry`.
pub open spec fn is_unbound(bs: Seq<KeymapBindingView>, entry: (Seq<char>, Seq<char>)) -> bool {
    exists|i: int|
        0 <= i < bs.len() && (#[trigger] bs[i]).kind == KeymapBindingKind::Unbind && bs[i].action == entry.0
            && bs[i].keystrokes == entry.1
}

/// The first `n` default entries that the user did not unbind.
pub open spec fn kept_defaults(es: Seq<(Seq<char>, Seq<char>)>, bs: Seq<KeymapBindingView>, n: int) -> Seq<
    (Seq<char>, Seq<char>),
>
    decreases n,
{
    if n <= 0 {
        Seq::empty()
    } else {
        kept_defaults(es, bs, n - 1) + if is_unbound(bs, es[n - 1]) { Seq::empty() } else { seq![es[n - 1]] }
    }
}

/// The valid bindings that the user added, among the first `n` overrides.
pub open spec fn custom_bindings(bs: Seq<KeymapBindingView>, parse: Seq<bool>, n: int) -> Seq<
    (Seq<char>, Seq<char>),
>
    decreases n,
{
    if n <= 0 {
        Seq::empty()
    } else {
        custom_bindings(bs, parse, n - 1) + if bs[n - 1].kind == KeymapBindingKind::Bind && binding_valid(
            bs[n - 1],
            parse[n - 1],
        ) {
            seq![(bs[n - 1].action, bs[n - 1].keystrokes)]
        } else {
            Seq::empty()
        }
    }
}

/// The bindings in force: the defaults the user kept, then the user's valid bindings.
pub open spec fn spec_effective_bindings(bs: Seq<KeymapBindingView>, parse: Seq<bool>) -> Seq<(Seq<char>, Seq<char>)> {
    kept_defaults(spec_default_entries(), bs, spec_default_entries().len() as int) + custom_bindings(
        bs,
        parse,
        bs.len() as int,
    )
}

/// Whether binding `keys` to `action` clashes with the binding `e` of another command:
/// the same keys, or one sequence of chords beginning the other.
pub open spec fn collides(e: (Seq<char>, Seq<char>), action: Seq<char>, keys: Seq<char>) -> bool {
    e.0 != action && (e.1 == keys || starts_with(e.1, keys + seq![' ']) || starts_with(keys, e.1 + seq![' ']))
}

/// The clashing bindings among the first `n` of `es`, each once, in order.
pub open spec fn collisions_of(es: Seq<(Seq<char>, Seq<char>)>, action: Seq<char>, keys: Seq<char>, n: int) -> Seq<
    (Seq<char>, Seq<char>),
>
    decreases n,
{
    if n <= 0 {
        Seq::empty()
    } else {
        let prev = collisions_of(es, action, keys, n - 1);
        if collides(es[n - 1], action, keys) && !prev.contains(es[n - 1]) {
            prev.push(es[n - 1])
        } else {
            prev
        }
    }
}

proof fn lemma_collisions_prefix(es: Seq<(Seq<char>, Seq<char>)>, action: Seq<char>, keys: Seq<char>, n: int)
    requires
        0 <= n <= es.len(),
    ensures
        forall|e: (Seq<char>, Seq<char>)|
            #[trigger] collisions_of(es, action, keys, n).contains(e) <==> (exists|i: int|
                0 <= i < n && #[trigger] es[i] == e) && e.0 != action && (e.1 == keys || starts_with(
                e.1,
                keys + seq![' '],
            ) || starts_with(keys, e.1 + seq![' '])),
        forall|i: int, j: int|
            0 <= i < j < collisions_of(es, action, keys, n).len() ==> collisions_of(es, action, keys, n)[i]
                != collisions_of(es, action, keys, n)[j],
    decreases n,
{
    if n > 0 {
        lemma_collisions_prefix(es, action, keys, n - 1);
        let prev = collisions_of(es, action, keys, n - 1);
        let cur = collisions_of(es, action, keys, n);
        assert forall|e: (Seq<char>, Seq<char>)|
            #[trigger] cur.contains(e) <==> (exists|i: int| 0 <= i < n && #[trigger] es[i] == e) && e.0 != action && (
            e.1 == keys || starts_with(e.1, keys + seq![' ']) || starts_with(keys, e.1 + seq![' '])) by {
            if cur.contains(e) {
                if prev.contains(e) {
                    let i = choose|i: int| 0 <= i < n - 1 && #[trigger] es[i] == e;
                    assert(0 <= i < n && es[i] == e);
                } else {
                    let k = choose|k: int| 0 <= k < cur.len() && cur[k] == e;
                    assert(k == prev.len());
                    assert(es[n - 1] == e);
                }
            }
            if (exists|i: int| 0 <= i < n && #[trigger] es[i] == e) && e.0 != action && (e.1 == keys || starts_with(
                e.1,
                keys + seq![' '],
            ) || starts_with(keys, e.1 + seq![' '])) {
                let i = choose|i: int| 0 <= i < n && #[trigger] es[i] == e;
                if i < n - 1 {
                    assert(prev.contains(e));
                    let k = choose|k: int| 0 <= k < prev.len() && prev[k] == e;
                    assert(cur[k] == e);
                } else if !prev.contains(e) {
                    assert(cur[cur.len() - 1] == e);
                } else {
                    let k = choose|k: int| 0 <= k < prev.len() && prev[k] == e;
                    assert(cur[k] == e);
                }
            }
        }
    }
}

/// The clash check of the keymap editor reports exactly the clashing
/// bindings, each once: a binding in force of another command is reported if
/// and only if its keys are the new keys, or one of the two key sequences
/// begins the other followed by a space (so that one chord would shadow the
/// other).
pub proof fn lemma_collisions_exact(es: Seq<(Seq<char>, Seq<char>)>, action: Seq<char>, keys: Seq<char>)
    ensures
        forall|e: (Seq<char>, Seq<char>)|
            #[trigger] collisions_of(es, action, keys, es.len() as int).contains(e) <==> es.contains(e) && e.0
                != action && (e.1 == keys || starts_with(e.1, keys + seq![' ']) || starts_with(
                keys,
                e.1 + seq![' '],
            )),
        forall|i: int, j: int|
            0 <= i < j < collisions_of(es, action, keys, es.len() as int).len() ==> collisions_of(
                es,
                action,
                keys,
                es.len() as int,
            )[i] != collisions_of(es, action, keys, es.len() as int)[j],
{
    lemma_collisions_prefix(es, action, keys, es.len() as int);
}

impl View for KeymapCollision {
    type V = (Seq<char>, Seq<char>);

    open spec fn view(&self) -> (Seq<char>, Seq<char>) {
        (self.action@, self.keystrokes@)
    }
}

/// A key binding to install: keystrokes, the command they run, and the key context.
pub struct KeyBinding {
    pub keystrokes: String,
    pub command: KeymapCommand,
    pub context: &'static str,
}

/// Pairs of strings taken by their characters.
pub open spec fn string_pairs(v: Seq<(String, String)>) -> Seq<(Seq<char>, Seq<char>)> {
    v.map_values(|p: (String, String)| (p.0@, p.1@))
}

fn unbound_in(bindings: &Vec<KeymapBinding>, action: &str, keys: &str) -> (unbound: bool)
    ensures
        unbound == is_unbound(bindings@.map_values(|b: KeymapBinding| b@), (action@, keys@)),
{
    let ghost bs = bindings@.map_values(|b: KeymapBinding| b@);
    let mut i: usize = 0;
    while i < bindings.len()
        invariant
            bs == bindings@.map_values(|b: KeymapBinding| b@),
            i <= bindings@.len(),
            forall|j: int|
                0 <= j < i ==> !((#[trigger] bs[j]).kind == KeymapBindingKind::Unbind && bs[j].action == action@
                    && bs[j].keystrokes == keys@),
        decreases bindings@.len() - i,
    {
        let b = &bindings[i];
        if b.kind == KeymapBindingKind::Unbind && same_text(b.action.as_str(), action) && same_text(
            b.keystrokes.as_str(),
            keys,
        ) {
            assert(bs[i as int] == b@);
            return true;
        }
        assert(bs[i as int] == b@);
        i += 1;
    }
    false
}

fn has_pair(found: &Vec<KeymapCollision>, action: &String, keys: &String) -> (has: bool)
    ensures
        has == found@.map_values(|c: KeymapCollision| c@).contains((action@, keys@)),
{
    let ghost cs = found@.map_values(|c: KeymapCollision| c@);
    let mut i: usize = 0;
    while i < found.len()
        invariant
            cs == found@.map_values(|c: KeymapCollision| c@),
            i <= found@.len(),
            forall|j: int| 0 <= j < i ==> cs[j] != (action@, keys@),
        decreases found@.len() - i,
    {
        if found[i].action.eq(action) && found[i].keystrokes.eq(keys) {
            assert(cs[i as int] == (action@, keys@));
            return true;
        }
        assert(cs[i as int] == found@[i as int]@);
        i += 1;
    }
    false
}

fn with_space(s: &str) -> (chars: Vec<char>)
    ensures
        chars@ == s@ + seq![' '],
{
    let mut chars = chars_of(s);
    chars.push(' ');
    chars
}

/// Whether the overrides hold the binding (action, keys, kind).
pub open spec fn has_binding(
    bs: Seq<KeymapBindingView>,
    action: Seq<char>,
    keys: Seq<char>,
    kind: KeymapBindingKind,
) -> bool {
    exists|i: int|
        0 <= i < bs.len() && (#[trigger] bs[i]).action == action && bs[i].keystrokes == keys && bs[i].kind == kind
}

/// Whether a binding is one that a removal of (action, keys, kind) takes away;
/// `None` matches any keys or kind.
pub open spec fn removed_by(
    b: KeymapBindingView,
    action: Seq<char>,
    keys: Option<Seq<char>>,
    kind: Option<KeymapBindingKind>,
) -> bool {
    b.action == action && (match keys {
        Some(k) => b.keystrokes == k,
        None => true,
    }) && (match kind {
        Some(k) => b.kind == k,
        None => true,
    })
}

/// The overrides without the bindings that the removal takes away, in order.
pub open spec fn retained(
    bs: Seq<KeymapBindingView>,
    action: Seq<char>,
    keys: Option<Seq<char>>,
    kind: Option<KeymapBindingKind>,
) -> Seq<KeymapBindingView>
    decreases bs.len(),
{
    if bs.len() == 0 {
        bs
    } else {
        let rest = retained(bs.drop_last(), action, keys, kind);
        if removed_by(bs.last(), action, keys, kind) {
            rest
        } else {
            rest.push(bs.last())
        }
    }
}

/// No binding of `action` is left once all of its bindings are removed.
proof fn lemma_retained_drops_action(bs: Seq<KeymapBindingView>, action: Seq<char>)
    ensures
        forall|i: int|
            0 <= i < retained(bs, action, None, None).len() ==> (#[trigger] retained(bs, action, None, None)[i]).action
                != action,
    decreases bs.len(),
{
    if bs.len() > 0 {
        lemma_retained_drops_action(bs.drop_last(), action);
    }
}

/// Whether a binding in force binds the command `action`.
pub open spec fn for_action(action: Seq<char>) -> spec_fn((Seq<char>, Seq<char>)) -> bool {
    |e: (Seq<char>, Seq<char>)| e.0 == action
}

/// The bindings in force for the command `action`, in order.
pub open spec fn bindings_of(es: Seq<(Seq<char>, Seq<char>)>, action: Seq<char>) -> Seq<(Seq<char>, Seq<char>)> {
    es.filter(for_action(action))
}

proof fn lemma_single_filter(e: (Seq<char>, Seq<char>), action: Seq<char>)
    ensures
        bindings_of(seq![e], action) == (if e.0 == action { seq![e] } else { Seq::empty() }),
        bindings_of(Seq::empty(), action) == Seq::<(Seq<char>, Seq<char>)>::empty(),
{
    let none = Seq::<(Seq<char>, Seq<char>)>::empty();
    reveal(Seq::filter);
    assert(none.filter(for_action(action)) =~= none);
    none.lemma_filter_push(e, for_action(action));
    assert(none.push(e) =~= seq![e]);
}

proof fn lemma_kept_defaults_of(
    es: Seq<(Seq<char>, Seq<char>)>,
    bs: Seq<KeymapBindingView>,
    action: Seq<char>,
    n: int,
)
    requires
        0 <= n <= es.len(),
        forall|i: int| 0 <= i < bs.len() ==> (#[trigger] bs[i]).action != action,
    ensures
        bindings_of(kept_defaults(es, bs, n), action) == bindings_of(es.take(n), action),
    decreases n,
{
    let p = for_action(action);
    if n == 0 {
        lemma_single_filter((Seq::empty(), Seq::empty()), action);
        assert(es.take(0) =~= Seq::<(Seq<char>, Seq<char>)>::empty());
    } else {
        lemma_kept_defaults_of(es, bs, action, n - 1);
        let e = es[n - 1];
        let added: Seq<(Seq<char>, Seq<char>)> = if is_unbound(bs, e) { Seq::empty() } else { seq![e] };
        Seq::filter_distributes_over_add(kept_defaults(es, bs, n - 1), added, p);
        assert(es.take(n) =~= es.take(n - 1).push(e));
        es.take(n - 1).lemma_filter_push(e, p);
        lemma_single_filter(e, action);
        if e.0 == action {
            assert(!is_unbound(bs, e));
        }
        assert(bindings_of(kept_defaults(es, bs, n - 1), action) + bindings_of(added, action) =~= bindings_of(
            es.take(n),
            action,
        ));
    }
}

proof fn lemma_custom_of(bs: Seq<KeymapBindingView>, parse: Seq<bool>, action: Seq<char>, n: int)
    requires
        0 <= n <= bs.len(),
        forall|i: int| 0 <= i < bs.len() ==> (#[trigger] bs[i]).action != action,
    ensures
        bindings_of(custom_bindings(bs, parse, n), action) == Seq::<(Seq<char>, Seq<char>)>::empty(),
    decreases n,
{
    let e = (Seq::<char>::empty(), Seq::<char>::empty());
    lemma_single_filter(e, action);
    if n > 0 {
        lemma_custom_of(bs, parse, action, n - 1);
        let b = bs[n - 1];
        let added: Seq<(Seq<char>, Seq<char>)> = if b.kind == KeymapBindingKind::Bind && binding_valid(
            b,
            parse[n - 1],
        ) {
            seq![(b.action, b.keystrokes)]
        } else {
            Seq::empty()
        };
        Seq::filter_distributes_over_add(custom_bindings(bs, parse, n - 1), added, for_action(action));
        lemma_single_filter((b.action, b.keystrokes), action);
        assert(bindings_of(custom_bindings(bs, parse, n - 1), action) + bindings_of(added, action) =~= Seq::<
            (Seq<char>, Seq<char>),
        >::empty());
    }
}

/// Resetting a command gives it back exactly its default bindings: once every
/// override of `action` is dropped, the bindings in force for `action` are
/// its default entries, in table order, whatever the other overrides are.
pub proof fn lemma_reset_restores_defaults(bs: Seq<KeymapBindingView>, action: Seq<char>, parse: Seq<bool>)
    ensures
        bindings_of(spec_effective_bindings(retained(bs, action, None, None), parse), action) == bindings_of(
            spec_default_entries(),
            action,
        ),
{
    let r = retained(bs, action, None, None);
    let es = spec_default_entries();
    lemma_retained_drops_action(bs, action);
    lemma_kept_defaults_of(es, r, action, es.len() as int);
    assert(es.take(es.len() as int) =~= es);
    lemma_custom_of(r, parse, action, r.len() as int);
    let kept = kept_defaults(es, r, es.len() as int);
    let custom = custom_bindings(r, parse, r.len() as int);
    Seq::filter_distributes_over_add(kept, custom, for_action(action));
    assert(bindings_of(kept, action) + Seq::<(Seq<char>, Seq<char>)>::empty() =~= bindings_of(kept, action));
}

/// The overrides after the binding (action, keys) is taken away: a binding the
/// user added is removed; a default one gets an unbind entry, once.
pub open spec fn spec_unbind(bs: Seq<KeymapBindingView>, action: Seq<char>, keys: Seq<char>, custom: bool) -> Seq<
    KeymapBindingView,
> {
    if custom {
        retained(bs, action, Some(keys), Some(KeymapBindingKind::Bind))
    } else if has_binding(bs, action, keys, KeymapBindingKind::Unbind) {
        bs
    } else {
        bs.push(KeymapBindingView { action, keystrokes: keys, kind: KeymapBindingKind::Unbind })
    }
}

/// The overrides after binding `keys` to `action`, replacing the binding
/// `replacing` of that command when there is one.
pub open spec fn spec_apply_edit(
    bs: Seq<KeymapBindingView>,
    action: Seq<char>,
    replacing: Option<Seq<char>>,
    keys: Seq<char>,
) -> Seq<KeymapBindingView> {
    let after_unbind = match replacing {
        Some(previous) => spec_unbind(
            bs,
            action,
            previous,
            has_binding(bs, action, previous, KeymapBindingKind::Bind),
        ),
        None => bs,
    };
    retained(after_unbind, action, Some(keys), Some(KeymapBindingKind::Bind)).push(
        KeymapBindingView { action, keystrokes: keys, kind: KeymapBindingKind::Bind },
    )
}

/// The overrides after the first `n` clashing bindings are taken away.
pub open spec fn unbind_all(bs: Seq<KeymapBindingView>, cs: Seq<(Seq<char>, Seq<char>)>, n: int) -> Seq<
    KeymapBindingView,
>
    decreases n,
{
    if n <= 0 {
        bs
    } else {
        let prev = unbind_all(bs, cs, n - 1);
        spec_unbind(prev, cs[n - 1].0, cs[n - 1].1, has_binding(prev, cs[n - 1].0, cs[n - 1].1, KeymapBindingKind::Bind))
    }
}

/// The keystrokes an edit would bind: its text, trimmed, in ASCII lower case.
pub open spec fn edit_keystrokes(input: Seq<char>) -> Seq<char> {
    spec_to_ascii_lowercase(spec_trim(input))
}

/// The text of the edit field after a captured keystroke.
pub open spec fn captured_input(input: Seq<char>, keystroke: Seq<char>) -> Seq<char> {
    if spec_trim(input).len() == 0 {
        keystroke
    } else {
        spec_trim(input) + seq![' '] + keystroke
    }
}

/// The message shown when an edit holds keystrokes that do not parse.
pub open spec fn invalid_keystrokes_text() -> Seq<char> {
    "Enter valid GPUI keystrokes, for example ctrl-k ctrl-s."@
}

/// What committing an edit did.
#[derive(Clone, Copy, Debug, PartialEq, Eq, Structural)]
pub enum KeymapCommit {
    /// No edit was open.
    NoEdit,
    /// The keystrokes were empty or did not parse; the edit stays open.
    Invalid,
    /// The keystrokes clash with other commands; confirmation is awaited.
    Conflict,
    /// The binding was stored in the overrides.
    Applied,
}

fn copy_binding(b: &KeymapBinding) -> (copy: KeymapBinding)
    ensures
        copy@ == b@,
{
    KeymapBinding { action: b.action.clone(), keystrokes: b.keystrokes.clone(), kind: b.kind }
}

fn binding_present(bindings: &Vec<KeymapBinding>, action: &str, keys: &str, kind: KeymapBindingKind) -> (present: bool)
    ensures
        present == has_binding(bindings@.map_values(|b: KeymapBinding| b@), action@, keys@, kind),
{
    let ghost bs = bindings@.map_values(|b: KeymapBinding| b@);
    let mut i: usize = 0;
    while i < bindings.len()
        invariant
            bs == bindings@.map_values(|b: KeymapBinding| b@),
            i <= bindings@.len(),
            forall|j: int|
                0 <= j < i ==> !((#[trigger] bs[j]).action == action@ && bs[j].keystrokes == keys@ && bs[j].kind
                    == kind),
        decreases bindings@.len() - i,
    {
        let b = &bindings[i];
        assert(bs[i as int] == b@);
        if b.kind == kind && same_text(b.action.as_str(), action) && same_text(b.keystrokes.as_str(), keys) {
            return true;
        }
        i += 1;
    }
    false
}

fn retain_bindings(
    bindings: &Vec<KeymapBinding>,
    action: &str,
    keys: Option<&str>,
    kind: Option<KeymapBindingKind>,
) -> (kept: Vec<KeymapBinding>)
    ensures
        kept@.map_values(|b: KeymapBinding| b@) == retained(
            bindings@.map_values(|b: KeymapBinding| b@),
            action@,
            match keys {
                Some(k) => Some(k@),
                None => None,
            },
            kind,
        ),
{
    let ghost bs = bindings@.map_values(|b: KeymapBinding| b@);
    let ghost keys_view = match keys {
        Some(k) => Some(k@),
        None => None::<Seq<char>>,
    };
    let mut kept: Vec<KeymapBinding> = Vec::new();
    let mut i: usize = 0;
    while i < bindings.len()
        invariant
            bs == bindings@.map_values(|b: KeymapBinding| b@),
            keys_view == match keys {
                Some(k) => Some(k@),
                None => None::<Seq<char>>,
            },
            i <= bindings@.len(),
            kept@.map_values(|b: KeymapBinding| b@) == retained(bs.take(i as int), action@, keys_view, kind),
        decreases bindings@.len() - i,
    {
        let b = &bindings[i];
        assert(bs[i as int] == b@);
        let keys_match = match keys {
            Some(k) => same_text(b.keystrokes.as_str(), k),
            None => true,
        };
        let kind_match = match kind {
            Some(k) => b.kind == k,
            None => true,
        };
        let removed = same_text(b.action.as_str(), action) && keys_match && kind_match;
        let ghost prev = kept@;
        if !removed {
            kept.push(copy_binding(b));
            assert(kept@.map_values(|b: KeymapBinding| b@) =~= prev.map_values(|b: KeymapBinding| b@).push(b@));
        }
        assert(bs.take(i as int + 1).drop_last() =~= bs.take(i as int));
        assert(bs.take(i as int + 1).last() == b@);
        i += 1;
    }
    assert(bs.take(i as int) =~= bs);
    kept
}

/// The warning about ignored bindings, when there is one.
pub open spec fn validation_message(bs: Seq<KeymapBindingView>, parse: Seq<bool>) -> Option<Seq<char>> {
    let n = invalid_prefix(bs, parse, bs.len() as int);
    if n == 0 {
        None
    } else {
        Some(validation_text(n))
    }
}

/// Whether two windows hold the same keymap editor state, field by field.
pub open spec fn same_editor(a: &PreferencesWindow, b: &PreferencesWindow) -> bool {
    &&& a.keymap_overrides.spec_bindings() == b.keymap_overrides.spec_bindings()
    &&& a.keymap_edit == b.keymap_edit
    &&& a.keymap_conflict == b.keymap_conflict
    &&& a.keymap_error == b.keymap_error
}

fn copy_collisions(cs: &Vec<KeymapCollision>) -> (copy: Vec<KeymapCollision>)
    ensures
        copy@.map_values(|c: KeymapCollision| c@) == cs@.map_values(|c: KeymapCollision| c@),
{
    let mut copy: Vec<KeymapCollision> = Vec::new();
    let mut i: usize = 0;
    while i < cs.len()
        invariant
            i <= cs@.len(),
            copy@.map_values(|c: KeymapCollision| c@) == cs@.take(i as int).map_values(|c: KeymapCollision| c@),
        decreases cs@.len() - i,
    {
        let ghost prev = copy@;
        let c = KeymapCollision { action: cs[i].action.clone(), keystrokes: cs[i].keystrokes.clone() };
        assert(c@ == cs@[i as int]@);
        copy.push(c);
        assert(cs@.take(i as int + 1) =~= cs@.take(i as int).push(cs@[i as int]));
        assert(copy@.map_values(|c: KeymapCollision| c@) =~= prev.map_values(|c: KeymapCollision| c@).push(c@));
        assert(copy@.map_values(|c: KeymapCollision| c@) =~= cs@.take(i as int + 1).map_values(
            |c: KeymapCollision| c@,
        ));
        i += 1;
    }
    assert(cs@.take(i as int) =~= cs@);
    copy
}

impl PreferencesWindow {
    /// The default bindings, as (command id, keystrokes) pairs in table order.
    pub fn default_keymap_entries() -> (entries: Vec<(&'static str, &'static str)>)
        ensures
            entries@.map_values(|p: (&'static str, &'static str)| text_pair(p)) == spec_default_entries(),
    {
        let table = keymap_actions();
        let mut entries: Vec<(&'static str, &'static str)> = Vec::new();
        let mut i: usize = 0;
        while i < table.len()
            invariant
                table@ == spec_keymap_actions(),
                i <= table@.len(),
                entries@.map_values(|p: (&'static str, &'static str)| text_pair(p)) == entries_of(
                    table@.take(i as int),
                ),
            decreases table@.len() - i,
        {
            let d = table[i];
            let ghost before = entries@.map_values(|p: (&'static str, &'static str)| text_pair(p));
            let mut k: usize = 0;
            while k < d.default_keys.len()
                invariant
                    k <= d.default_keys@.len(),
                    entries@.map_values(|p: (&'static str, &'static str)| text_pair(p)) == before
                        + d.default_keys@.take(k as int).map_values(|key: &'static str| (d.id@, key@)),
                decreases d.default_keys@.len() - k,
            {
                let ghost prev = entries@;
                entries.push((d.id, d.default_keys[k]));
                assert(entries@.map_values(|p: (&'static str, &'static str)| text_pair(p)) =~= prev.map_values(
                    |p: (&'static str, &'static str)| text_pair(p),
                ).push((d.id@, d.default_keys@[k as int]@)));
                assert(d.default_keys@.take(k as int + 1) =~= d.default_keys@.take(k as int).push(
                    d.default_keys@[k as int],
                ));
                assert(entries@.map_values(|p: (&'static str, &'static str)| text_pair(p)) =~= before
                    + d.default_keys@.take(k as int + 1).map_values(|key: &'static str| (d.id@, key@)));
                k += 1;
            }
            assert(d.default_keys@.take(k as int) =~= d.default_keys@);
            assert(table@.take(i as int + 1).drop_last() =~= table@.take(i as int));
            assert(table@.take(i as int + 1).last() == d);
            i += 1;
        }
        assert(table@.take(i as int) =~= table@);
        entries
    }

    /// Whether a user binding names a known command and non-empty keystrokes that all parse.
    pub fn keymap_binding_is_valid(binding: &KeymapBinding, keys_parse: bool) -> (valid: bool)
        ensures
            valid == binding_valid(binding@, keys_parse),
    {
        let known = Self::keymap_descriptor(binding.action.as_str()).is_some();
        known && binding.keystrokes.unicode_len() > 0 && keys_parse
    }

    /// The warning about ignored bindings, if any binding is invalid.
    pub fn keymap_validation_message(keymap: &KeymapOverrides, keys_parse: &Vec<bool>) -> (message: Option<String>)
        requires
            keys_parse@.len() == keymap.bindings@.len(),
        ensures
            ({
                let n = invalid_prefix(keymap.spec_bindings(), keys_parse@, keymap.bindings@.len() as int);
                match message {
                    Some(m) => n > 0 && m@ == validation_text(n),
                    None => n == 0,
                }
            }),
            opt_text(message) == validation_message(keymap.spec_bindings(), keys_parse@),
    {
        let ghost bs = keymap.spec_bindings();
        let mut invalid: usize = 0;
        let mut i: usize = 0;
        while i < keymap.bindings.len()
            invariant
                bs == keymap.spec_bindings(),
                keys_parse@.len() == keymap.bindings@.len(),
                i <= keymap.bindings@.len(),
                invalid == invalid_prefix(bs, keys_parse@, i as int),
                invalid <= i,
            decreases keymap.bindings@.len() - i,
        {
            assert(bs[i as int] == keymap.bindings@[i as int]@);
            if !Self::keymap_binding_is_valid(&keymap.bindings[i], keys_parse[i]) {
                invalid += 1;
            }
            i += 1;
        }
        if invalid == 0 {
            return None;
        }
        let mut m = String::from_str("Ignored ");
        let count = decimal_string(invalid as u64);
        m.append(count.as_str());
        m.append(" invalid or unsupported keymap binding");
        if invalid != 1 {
            m.append("s");
        }
        m.append(".");
        proof {
            if invalid == 1 {
                reveal_strlit("");
                assert(m@ =~= validation_text(invalid as nat));
            } else {
                assert(m@ =~= validation_text(invalid as nat));
            }
        }
        Some(m)
    }
    /// The bindings in force: the defaults the user did not unbind, then the
    /// user's valid bindings, as (command id, keystrokes).
    pub fn effective_keymap_bindings(&self, keys_parse: &Vec<bool>) -> (entries: Vec<(String, String)>)
        requires
            keys_parse@.len() == self.keymap_overrides.bindings@.len(),
        ensures
            string_pairs(entries@) == spec_effective_bindings(self.keymap_overrides.spec_bindings(), keys_parse@),
    {
        let ghost bs = self.keymap_overrides.spec_bindings();
        let defaults = Self::default_keymap_entries();
        let ghost es = spec_default_entries();
        let mut entries: Vec<(String, String)> = Vec::new();
        let mut i: usize = 0;
        while i < defaults.len()
            invariant
                bs == self.keymap_overrides.spec_bindings(),
                es == spec_default_entries(),
                defaults@.map_values(|p: (&'static str, &'static str)| text_pair(p)) == es,
                i <= defaults@.len(),
                string_pairs(entries@) == kept_defaults(es, bs, i as int),
            decreases defaults@.len() - i,
        {
            let (action, keys) = defaults[i];
            assert(es[i as int] == (action@, keys@));
            let ghost prev = entries@;
            if !unbound_in(&self.keymap_overrides.bindings, action, keys) {
                entries.push((String::from_str(action), String::from_str(keys)));
                assert(string_pairs(entries@) =~= string_pairs(prev).push((action@, keys@)));
            }
            assert(string_pairs(entries@) =~= kept_defaults(es, bs, i as int + 1));
            i += 1;
        }
        let ghost kept = string_pairs(entries@);
        let mut j: usize = 0;
        while j < self.keymap_overrides.bindings.len()
            invariant
                bs == self.keymap_overrides.spec_bindings(),
                keys_parse@.len() == self.keymap_overrides.bindings@.len(),
                j <= self.keymap_overrides.bindings@.len(),
                string_pairs(entries@) == kept + custom_bindings(bs, keys_parse@, j as int),
            decreases self.keymap_overrides.bindings@.len() - j,
        {
            let b = &self.keymap_overrides.bindings[j];
            assert(bs[j as int] == b@);
            let ghost prev = entries@;
            if b.kind == KeymapBindingKind::Bind && Self::keymap_binding_is_valid(b, keys_parse[j]) {
                entries.push((b.action.clone(), b.keystrokes.clone()));
                assert(string_pairs(entries@) =~= string_pairs(prev).push((b.action@, b.keystrokes@)));
            }
            assert(string_pairs(entries@) =~= kept + custom_bindings(bs, keys_parse@, j as int + 1));
            j += 1;
        }
        assert(defaults@.len() == es.len());
        entries
    }

    /// The bindings of other commands that binding `keystrokes` to `action` would clash with.
    pub fn keymap_collisions(&self, action: &str, keystrokes: &str, keys_parse: &Vec<bool>) -> (collisions: Vec<
        KeymapCollision,
    >)
        requires
            keys_parse@.len() == self.keymap_overrides.bindings@.len(),
        ensures
            ({
                let es = spec_effective_bindings(self.keymap_overrides.spec_bindings(), keys_parse@);
                collisions@.map_values(|c: KeymapCollision| c@) == collisions_of(
                    es,
                    action@,
                    keystrokes@,
                    es.len() as int,
                )
            }),
    {
        let effective = self.effective_keymap_bindings(keys_parse);
        let ghost es = string_pairs(effective@);
        let keys_chars = chars_of(keystrokes);
        let keys_space = with_space(keystrokes);
        let mut collisions: Vec<KeymapCollision> = Vec::new();
        let mut i: usize = 0;
        while i < effective.len()
            invariant
                es == string_pairs(effective@),
                keys_chars@ == keystrokes@,
                keys_space@ == keystrokes@ + seq![' '],
                i <= effective@.len(),
                collisions@.map_values(|c: KeymapCollision| c@) == collisions_of(es, action@, keystrokes@, i as int),
            decreases effective@.len() - i,
        {
            let (other_action, other_keys) = (&effective[i].0, &effective[i].1);
            assert(es[i as int] == (other_action@, other_keys@));
            let other_chars = chars_of(other_keys.as_str());
            let other_space = with_space(other_keys.as_str());
            let clash = !same_text(other_action.as_str(), action) && (same_text(other_keys.as_str(), keystrokes)
                || text_starts_with(&other_chars, &keys_space) || text_starts_with(&keys_chars, &other_space));
            let ghost prev = collisions@;
            if clash && !has_pair(&collisions, other_action, other_keys) {
                collisions.push(KeymapCollision { action: other_action.clone(), keystrokes: other_keys.clone() });
                assert(collisions@.map_values(|c: KeymapCollision| c@) =~= prev.map_values(
                    |c: KeymapCollision| c@,
                ).push((other_action@, other_keys@)));
            }
            i += 1;
        }
        collisions
    }

    /// The key binding of `keystrokes` to the command `action` in `context`, if
    /// `action` names a command.
    pub fn binding_for_keymap_action(action: &str, keystrokes: &str, context: &'static str) -> (binding: Option<
        KeyBinding,
    >)
        ensures
            match spec_keymap_command(action@) {
                Some(command) => binding matches Some(b) && b.command == command && b.keystrokes@ == keystrokes@
                    && b.context == context,
                None => binding is None,
            },
    {
        match keymap_command(action) {
            Some(command) => Some(KeyBinding { keystrokes: String::from_str(keystrokes), command, context }),
            None => None,
        }
    }
}


/// For each override, whether its keystrokes parse, read off a parser `p`.
pub open spec fn parse_of(bs: Seq<KeymapBindingView>, p: spec_fn(Seq<char>) -> bool) -> Seq<bool> {
    bs.map_values(|b: KeymapBindingView| p(b.keystrokes))
}

proof fn lemma_kept_defaults_not_unbound(
    es: Seq<(Seq<char>, Seq<char>)>,
    bs: Seq<KeymapBindingView>,
    n: int,
    x: (Seq<char>, Seq<char>),
)
    requires
        0 <= n <= es.len(),
        kept_defaults(es, bs, n).contains(x),
    ensures
        !is_unbound(bs, x),
        es.take(n).contains(x),
    decreases n,
{
    let prev = kept_defaults(es, bs, n - 1);
    let last: Seq<(Seq<char>, Seq<char>)> = if is_unbound(bs, es[n - 1]) { Seq::empty() } else { seq![es[n - 1]] };
    let i = choose|i: int| 0 <= i < kept_defaults(es, bs, n).len() && kept_defaults(es, bs, n)[i] == x;
    assert(kept_defaults(es, bs, n) == prev + last);
    if i < prev.len() {
        assert(prev[i] == x);
        lemma_kept_defaults_not_unbound(es, bs, n - 1, x);
        let j = choose|j: int| 0 <= j < es.take(n - 1).len() && #[trigger] es.take(n - 1)[j] == x;
        assert(es.take(n)[j] == x);
    } else {
        assert(last[i - prev.len()] == x);
        assert(es.take(n)[n - 1] == x);
    }
}

proof fn lemma_custom_bindings_are_binds(
    bs: Seq<KeymapBindingView>,
    parse: Seq<bool>,
    n: int,
    x: (Seq<char>, Seq<char>),
)
    requires
        0 <= n <= bs.len(),
        custom_bindings(bs, parse, n).contains(x),
    ensures
        has_binding(bs, x.0, x.1, KeymapBindingKind::Bind),
    decreases n,
{
    let prev = custom_bindings(bs, parse, n - 1);
    let last: Seq<(Seq<char>, Seq<char>)> = if bs[n - 1].kind == KeymapBindingKind::Bind && binding_valid(
        bs[n - 1],
        parse[n - 1],
    ) {
        seq![(bs[n - 1].action, bs[n - 1].keystrokes)]
    } else {
        Seq::empty()
    };
    let i = choose|i: int| 0 <= i < custom_bindings(bs, parse, n).len() && custom_bindings(bs, parse, n)[i] == x;
    assert(custom_bindings(bs, parse, n) == prev + last);
    if i < prev.len() {
        assert(prev[i] == x);
        lemma_custom_bindings_are_binds(bs, parse, n - 1, x);
    } else {
        assert(last[i - prev.len()] == x);
        assert(bs[n - 1].action == x.0 && bs[n - 1].keystrokes == x.1);
    }
}

/// Taking away a default binding that the user never bound again: the binding
/// is no longer in force, whatever the keystrokes parser says.
pub proof fn lemma_unbound_default_leaves_keymap(
    bs: Seq<KeymapBindingView>,
    action: Seq<char>,
    keys: Seq<char>,
    p: spec_fn(Seq<char>) -> bool,
)
    requires
        !has_binding(bs, action, keys, KeymapBindingKind::Bind),
    ensures
        ({
            let after = spec_unbind(bs, action, keys, false);
            !spec_effective_bindings(after, parse_of(after, p)).contains((action, keys))
        }),
{
    let after = spec_unbind(bs, action, keys, false);
    let parse = parse_of(after, p);
    let es = spec_default_entries();
    let kept = kept_defaults(es, after, es.len() as int);
    let custom = custom_bindings(after, parse, after.len() as int);
    let x = (action, keys);
    if has_binding(bs, action, keys, KeymapBindingKind::Unbind) {
        let i = choose|i: int|
            0 <= i < bs.len() && (#[trigger] bs[i]).action == action && bs[i].keystrokes == keys && bs[i].kind
                == KeymapBindingKind::Unbind;
        assert(after[i] == bs[i]);
    } else {
        assert(after[bs.len() as int] == KeymapBindingView { action, keystrokes: keys, kind: KeymapBindingKind::Unbind });
    }
    assert(is_unbound(after, x));
    assert(!has_binding(after, action, keys, KeymapBindingKind::Bind)) by {
        if has_binding(after, action, keys, KeymapBindingKind::Bind) {
            let i = choose|i: int|
                0 <= i < after.len() && (#[trigger] after[i]).action == action && after[i].keystrokes == keys
                    && after[i].kind == KeymapBindingKind::Bind;
            if i < bs.len() {
                assert(after[i] == bs[i]);
            }
        }
    }
    if (kept + custom).contains(x) {
        let i = choose|i: int| 0 <= i < (kept + custom).len() && (kept + custom)[i] == x;
        if i < kept.len() {
            assert(kept[i] == x);
            lemma_kept_defaults_not_unbound(es, after, es.len() as int, x);
        } else {
            assert(custom[i - kept.len()] == x);
            lemma_custom_bindings_are_binds(after, parse, after.len() as int, x);
        }
    }
}

/// A committed edit of a known command to non-empty keystrokes that parse is in force.
pub proof fn lemma_applied_edit_takes_effect(
    bs: Seq<KeymapBindingView>,
    action: Seq<char>,
    replacing: Option<Seq<char>>,
    keys: Seq<char>,
    p: spec_fn(Seq<char>) -> bool,
)
    requires
        known_action(action),
        keys.len() > 0,
        p(keys),
    ensures
        ({
            let after = spec_apply_edit(bs, action, replacing, keys);
            spec_effective_bindings(after, parse_of(after, p)).contains((action, keys))
        }),
{
    let after = spec_apply_edit(bs, action, replacing, keys);
    let parse = parse_of(after, p);
    let n = after.len() as int;
    let es = spec_default_entries();
    let kept = kept_defaults(es, after, es.len() as int);
    let custom = custom_bindings(after, parse, n);
    assert(after[n - 1] == KeymapBindingView { action, keystrokes: keys, kind: KeymapBindingKind::Bind });
    assert(parse[n - 1] == p(keys));
    assert(binding_valid(after[n - 1], parse[n - 1]));
    assert(custom == custom_bindings(after, parse, n - 1) + seq![(action, keys)]);
    assert(custom[custom.len() - 1] == (action, keys));
    assert((kept + custom)[kept.len() + custom.len() - 1] == (action, keys));
}

proof fn lemma_retained_drops(
    bs: Seq<KeymapBindingView>,
    action: Seq<char>,
    keys: Option<Seq<char>>,
    kind: Option<KeymapBindingKind>,
)
    ensures
        forall|i: int|
            0 <= i < retained(bs, action, keys, kind).len() ==> !removed_by(
                #[trigger] retained(bs, action, keys, kind)[i],
                action,
                keys,
                kind,
            ),
        forall|i: int|
            0 <= i < bs.len() && !removed_by(#[trigger] bs[i], action, keys, kind) ==> retained(
                bs,
                action,
                keys,
                kind,
            ).contains(bs[i]),
    decreases bs.len(),
{
    if bs.len() > 0 {
        lemma_retained_drops(bs.drop_last(), action, keys, kind);
        let rest = retained(bs.drop_last(), action, keys, kind);
        assert forall|i: int| 0 <= i < bs.len() && !removed_by(#[trigger] bs[i], action, keys, kind) implies retained(
            bs,
            action,
            keys,
            kind,
        ).contains(bs[i]) by {
            if i < bs.len() - 1 {
                assert(bs.drop_last()[i] == bs[i]);
                let j = choose|j: int| 0 <= j < rest.len() && rest[j] == bs[i];
                if !removed_by(bs.last(), action, keys, kind) {
                    assert(rest.push(bs.last())[j] == bs[i]);
                }
            } else {
                assert(rest.push(bs.last())[rest.len() as int] == bs[i]);
            }
        }
    }
}

/// Resetting a command leaves no override of it, and keeps every override of
/// the other commands.
pub proof fn lemma_reset_action_clears_its_overrides(bs: Seq<KeymapBindingView>, action: Seq<char>)
    ensures
        forall|i: int|
            0 <= i < retained(bs, action, None, None).len() ==> (#[trigger] retained(bs, action, None, None)[i]).action
                != action,
        forall|i: int|
            0 <= i < bs.len() && (#[trigger] bs[i]).action != action ==> retained(bs, action, None, None).contains(
                bs[i],
            ),
{
    lemma_retained_drops(bs, action, None, None);
}

/// The clashes reported for an edit are bindings of other commands that
/// clash with it, each reported once.
pub proof fn lemma_collisions_are_distinct_clashes(
    es: Seq<(Seq<char>, Seq<char>)>,
    action: Seq<char>,
    keys: Seq<char>,
    n: int,
)
    requires
        0 <= n <= es.len(),
    ensures
        forall|i: int|
            0 <= i < collisions_of(es, action, keys, n).len() ==> collides(
                #[trigger] collisions_of(es, action, keys, n)[i],
                action,
                keys,
            ) && es.contains(collisions_of(es, action, keys, n)[i]),
        forall|i: int, j: int|
            0 <= i < j < collisions_of(es, action, keys, n).len() ==> #[trigger] collisions_of(es, action, keys, n)[i]
                != #[trigger] collisions_of(es, action, keys, n)[j],
    decreases n,
{
    if n > 0 {
        lemma_collisions_are_distinct_clashes(es, action, keys, n - 1);
        let prev = collisions_of(es, action, keys, n - 1);
        if collides(es[n - 1], action, keys) && !prev.contains(es[n - 1]) {
            let cur = prev.push(es[n - 1]);
            assert forall|i: int, j: int| 0 <= i < j < cur.len() implies #[trigger] cur[i] != #[trigger] cur[j] by {
                if j == cur.len() - 1 {
                    assert(cur[i] == prev[i]);
                    if cur[i] == cur[j] {
                        assert(prev.contains(es[n - 1]));
                    }
                } else {
                    assert(cur[i] == prev[i] && cur[j] == prev[j]);
                }
            }
            assert forall|i: int| 0 <= i < cur.len() implies collides(#[trigger] cur[i], action, keys) && es.contains(
                cur[i],
            ) by {
                if i < prev.len() {
                    assert(cur[i] == prev[i]);
                } else {
                    assert(es[n - 1] == cur[i]);
                }
            }
        }
    }
}

proof fn lemma_kept_defaults_without_overrides(es: Seq<(Seq<char>, Seq<char>)>, n: int)
    requires
        0 <= n <= es.len(),
    ensures
        kept_defaults(es, Seq::empty(), n) == es.take(n),
    decreases n,
{
    if n > 0 {
        lemma_kept_defaults_without_overrides(es, n - 1);
        assert(!is_unbound(Seq::empty(), es[n - 1]));
        assert(es.take(n) =~= es.take(n - 1) + seq![es[n - 1]]);
    }
}

/// With no overrides, the bindings in force are the defaults.
pub proof fn lemma_no_overrides_means_defaults()
    ensures
        spec_effective_bindings(Seq::empty(), Seq::empty()) == spec_default_entries(),
{
    let es = spec_default_entries();
    lemma_kept_defaults_without_overrides(es, es.len() as int);
    assert(es.take(es.len() as int) =~= es);
    assert(custom_bindings(Seq::empty(), Seq::empty(), 0) =~= Seq::empty());
    assert(es + Seq::<(Seq<char>, Seq<char>)>::empty() =~= es);
}

impl PreferencesWindow {
    /// A settings window over the given keymap overrides and keymap warning,
    /// with no edit open, animating unless the settings ask for reduced motion.
    pub fn new(keymap_overrides: KeymapOverrides, keymap_error: Option<String>, reduced_motion: bool) -> (window: Self)
        ensures
            window.keymap_overrides == keymap_overrides,
            window.keymap_error == keymap_error,
            window.keymap_edit is None,
            window.keymap_conflict is None,
            window.reduced_motion == reduced_motion,
    {
        PreferencesWindow { keymap_overrides, keymap_edit: None, keymap_conflict: None, keymap_error, reduced_motion }
    }

    /// Opens the editor for a binding of `action`, over the binding `replacing` if given.
    pub fn begin_keymap_edit(&mut self, action: &str, replacing: Option<String>)
        ensures
            final(self).keymap_edit matches Some(e) && e.action@ == action@ && opt_text(e.replacing) == opt_text(
                replacing,
            ) && e.input@ == (match replacing {
                Some(r) => r@,
                None => Seq::<char>::empty(),
            }) && !e.capturing,
            final(self).keymap_overrides == old(self).keymap_overrides,
            final(self).keymap_conflict == old(self).keymap_conflict,
            final(self).reduced_motion == old(self).reduced_motion,
            final(self).keymap_error == old(self).keymap_error,
    {
        let initial = match &replacing {
            Some(r) => r.clone(),
            None => String::new(),
        };
        self.keymap_edit = Some(
            KeymapEditState { action: String::from_str(action), replacing, input: initial, capturing: false },
        );
    }

    /// Starts or stops capturing keystrokes into the open edit.
    pub fn toggle_keymap_capture(&mut self)
        ensures
            match old(self).keymap_edit {
                Some(e) => final(self).keymap_edit matches Some(n) && n.capturing == !e.capturing && n.action
                    == e.action && n.replacing == e.replacing && n.input == e.input,
                None => final(self).keymap_edit is None,
            },
            final(self).keymap_overrides == old(self).keymap_overrides,
            final(self).keymap_conflict == old(self).keymap_conflict,
            final(self).reduced_motion == old(self).reduced_motion,
            final(self).keymap_error == old(self).keymap_error,
    {
        match self.keymap_edit.take() {
            Some(edit) => {
                self.keymap_edit = Some(
                    KeymapEditState {
                        action: edit.action,
                        replacing: edit.replacing,
                        input: edit.input,
                        capturing: !edit.capturing,
                    },
                );
            },
            None => {},
        }
    }

    /// Closes the edit and any pending conflict.
    pub fn cancel_keymap_edit(&mut self)
        ensures
            final(self).keymap_edit is None,
            final(self).keymap_conflict is None,
            final(self).reduced_motion == old(self).reduced_motion,
            final(self).keymap_overrides == old(self).keymap_overrides,
            final(self).keymap_error == old(self).keymap_error,
    {
        self.keymap_edit = None;
        self.keymap_conflict = None;
    }

    /// Feeds a keystroke to an edit that is capturing: `escape` closes the edit,
    /// any other keystroke is added to the edit's text. Returns whether the
    /// keystroke was taken (and so must not reach other handlers).
    pub fn capture_keymap_keystroke(&mut self, keystroke: &str) -> (taken: bool)
        ensures
            match old(self).keymap_edit {
                Some(e) => if e.capturing {
                    &&& taken
                    &&& if keystroke@ == "escape"@ {
                        final(self).keymap_edit is None
                    } else {
                        final(self).keymap_edit matches Some(n) && n.input@ == captured_input(e.input@, keystroke@)
                            && n.action == e.action && n.replacing == e.replacing && n.capturing
                    }
                } else {
                    !taken && final(self).keymap_edit == old(self).keymap_edit
                },
                None => !taken && final(self).keymap_edit is None,
            },
            final(self).keymap_overrides == old(self).keymap_overrides,
            final(self).keymap_conflict == old(self).keymap_conflict,
            final(self).reduced_motion == old(self).reduced_motion,
            final(self).keymap_error == old(self).keymap_error,
    {
        let edit = match self.keymap_edit.take() {
            Some(edit) => edit,
            None => return false,
        };
        if !edit.capturing {
            self.keymap_edit = Some(edit);
            return false;
        }
        if same_text(keystroke, "escape") {
            return true;
        }
        let current = trim(edit.input.as_str());
        let value = if current.unicode_len() == 0 {
            String::from_str(keystroke)
        } else {
            let mut v = current;
            v.append(" ");
            v.append(keystroke);
            proof {
                reveal_strlit(" ");
            }
            v
        };
        self.keymap_edit = Some(
            KeymapEditState { action: edit.action, replacing: edit.replacing, input: value, capturing: true },
        );
        true
    }

    /// The keystrokes the open edit would bind: its text, trimmed, in ASCII lower case.
    pub fn pending_keymap_keystrokes(&self) -> (keys: Option<String>)
        ensures
            match self.keymap_edit {
                Some(e) => keys matches Some(k) && k@ == edit_keystrokes(e.input@),
                None => keys is None,
            },
    {
        match &self.keymap_edit {
            Some(edit) => {
                let trimmed = trim(edit.input.as_str());
                Some(to_ascii_lowercase(trimmed.as_str()))
            },
            None => None,
        }
    }

    /// Takes the binding (action, keystrokes) away: a binding the user added
    /// (`custom`) is removed, a default one gets an unbind entry.
    pub fn unbind_keymap_binding(&mut self, action: &str, keystrokes: &str, custom: bool)
        ensures
            final(self).keymap_overrides.spec_bindings() == spec_unbind(
                old(self).keymap_overrides.spec_bindings(),
                action@,
                keystrokes@,
                custom,
            ),
            final(self).keymap_edit == old(self).keymap_edit,
            final(self).keymap_conflict == old(self).keymap_conflict,
            final(self).reduced_motion == old(self).reduced_motion,
            final(self).keymap_error == old(self).keymap_error,
    {
        if custom {
            let kept = retain_bindings(
                &self.keymap_overrides.bindings,
                action,
                Some(keystrokes),
                Some(KeymapBindingKind::Bind),
            );
            self.keymap_overrides.bindings = kept;
        } else if !binding_present(&self.keymap_overrides.bindings, action, keystrokes, KeymapBindingKind::Unbind) {
            let ghost prev = self.keymap_overrides.bindings@;
            let b = KeymapBinding {
                action: String::from_str(action),
                keystrokes: String::from_str(keystrokes),
                kind: KeymapBindingKind::Unbind,
            };
            self.keymap_overrides.bindings.push(b);
            assert(self.keymap_overrides.spec_bindings() =~= prev.map_values(|b: KeymapBinding| b@).push(
                KeymapBindingView { action: action@, keystrokes: keystrokes@, kind: KeymapBindingKind::Unbind },
            ));
        }
    }

    /// Stores the edit's binding of `keystrokes`, replacing the binding it was opened over.
    pub fn apply_keymap_edit(&mut self, edit: KeymapEditState, keystrokes: String)
        ensures
            final(self).keymap_overrides.spec_bindings() == spec_apply_edit(
                old(self).keymap_overrides.spec_bindings(),
                edit.action@,
                opt_text(edit.replacing),
                keystrokes@,
            ),
            final(self).keymap_edit == old(self).keymap_edit,
            final(self).keymap_conflict == old(self).keymap_conflict,
            final(self).reduced_motion == old(self).reduced_motion,
            final(self).keymap_error == old(self).keymap_error,
    {
        match &edit.replacing {
            Some(previous) => {
                let custom = binding_present(
                    &self.keymap_overrides.bindings,
                    edit.action.as_str(),
                    previous.as_str(),
                    KeymapBindingKind::Bind,
                );
                self.unbind_keymap_binding(edit.action.as_str(), previous.as_str(), custom);
            },
            None => {},
        }
        let kept = retain_bindings(
            &self.keymap_overrides.bindings,
            edit.action.as_str(),
            Some(keystrokes.as_str()),
            Some(KeymapBindingKind::Bind),
        );
        let ghost prev = kept@;
        self.keymap_overrides.bindings = kept;
        let ghost action = edit.action@;
        let ghost keys = keystrokes@;
        self.keymap_overrides.bindings.push(KeymapBinding { action: edit.action, keystrokes, kind: KeymapBindingKind::Bind });
        assert(self.keymap_overrides.spec_bindings() =~= prev.map_values(|b: KeymapBinding| b@).push(
            KeymapBindingView { action, keystrokes: keys, kind: KeymapBindingKind::Bind },
        ));
    }
}


impl PreferencesWindow {
    /// Commits the open edit. `keys_valid` says whether every whitespace-separated
    /// keystroke of the pending keystrokes parses; `keys_parse` gives, for each
    /// override, whether its keystrokes parse.
    pub fn commit_keymap_edit(&mut self, keys_valid: bool, keys_parse: &Vec<bool>) -> (outcome: KeymapCommit)
        requires
            keys_parse@.len() == old(self).keymap_overrides.bindings@.len(),
        ensures
            match old(self).keymap_edit {
                None => outcome == KeymapCommit::NoEdit && *final(self) == *old(self),
                Some(e) => {
                    let bs = old(self).keymap_overrides.spec_bindings();
                    let keys = edit_keystrokes(e.input@);
                    let es = spec_effective_bindings(bs, keys_parse@);
                    let cs = collisions_of(es, e.action@, keys, es.len() as int);
                    if keys.len() == 0 || !keys_valid {
                        &&& outcome == KeymapCommit::Invalid
                        &&& final(self).keymap_edit == old(self).keymap_edit
                        &&& opt_text(final(self).keymap_error) == Some(invalid_keystrokes_text())
                        &&& final(self).keymap_overrides == old(self).keymap_overrides
                        &&& final(self).keymap_conflict == old(self).keymap_conflict
                    } else if cs.len() > 0 {
                        &&& outcome == KeymapCommit::Conflict
                        &&& final(self).keymap_edit is None
                        &&& final(self).keymap_conflict matches Some(c) && c.edit == e && c.collisions@.map_values(
                            |c: KeymapCollision| c@,
                        ) == cs
                        &&& final(self).keymap_overrides == old(self).keymap_overrides
                        &&& final(self).keymap_error == old(self).keymap_error
                    } else {
                        &&& outcome == KeymapCommit::Applied
                        &&& final(self).keymap_edit is None
                        &&& final(self).keymap_overrides.spec_bindings() == spec_apply_edit(
                            bs,
                            e.action@,
                            opt_text(e.replacing),
                            keys,
                        )
                        &&& final(self).keymap_conflict == old(self).keymap_conflict
                        &&& final(self).keymap_error == old(self).keymap_error
                    }
                },
            },
            final(self).reduced_motion == old(self).reduced_motion,
    {
        let keystrokes = match self.pending_keymap_keystrokes() {
            Some(k) => k,
            None => return KeymapCommit::NoEdit,
        };
        if keystrokes.unicode_len() == 0 || !keys_valid {
            self.keymap_error = Some(String::from_str("Enter valid GPUI keystrokes, for example ctrl-k ctrl-s."));
            return KeymapCommit::Invalid;
        }
        let edit = match self.keymap_edit.take() {
            Some(edit) => edit,
            None => return KeymapCommit::NoEdit,
        };
        let collisions = self.keymap_collisions(edit.action.as_str(), keystrokes.as_str(), keys_parse);
        if collisions.len() == 0 {
            self.apply_keymap_edit(edit, keystrokes);
            KeymapCommit::Applied
        } else {
            self.keymap_conflict = Some(KeymapConflictState { edit, collisions });
            KeymapCommit::Conflict
        }
    }

    /// Takes the clashing bindings away and stores the pending edit. Returns
    /// whether a conflict was pending.
    pub fn confirm_keymap_reassign(&mut self) -> (confirmed: bool)
        ensures
            match old(self).keymap_conflict {
                None => !confirmed && *final(self) == *old(self),
                Some(c) => {
                    let cs = c.collisions@.map_values(|c: KeymapCollision| c@);
                    &&& confirmed
                    &&& final(self).keymap_conflict is None
                    &&& final(self).keymap_overrides.spec_bindings() == spec_apply_edit(
                        unbind_all(old(self).keymap_overrides.spec_bindings(), cs, cs.len() as int),
                        c.edit.action@,
                        opt_text(c.edit.replacing),
                        edit_keystrokes(c.edit.input@),
                    )
                    &&& final(self).keymap_edit == old(self).keymap_edit
                    &&& final(self).keymap_error == old(self).keymap_error
                },
            },
            final(self).reduced_motion == old(self).reduced_motion,
    {
        let conflict = match self.keymap_conflict.take() {
            Some(c) => c,
            None => return false,
        };
        let ghost bs = self.keymap_overrides.spec_bindings();
        let ghost cs = conflict.collisions@.map_values(|c: KeymapCollision| c@);
        let ghost edit0 = self.keymap_edit;
        let ghost error0 = self.keymap_error;
        let mut i: usize = 0;
        while i < conflict.collisions.len()
            invariant
                cs == conflict.collisions@.map_values(|c: KeymapCollision| c@),
                i <= conflict.collisions@.len(),
                self.keymap_overrides.spec_bindings() == unbind_all(bs, cs, i as int),
                self.keymap_conflict is None,
                self.keymap_edit == edit0,
                self.keymap_error == error0,
                self.reduced_motion == old(self).reduced_motion,
            decreases conflict.collisions@.len() - i,
        {
            let collision = &conflict.collisions[i];
            assert(cs[i as int] == collision@);
            let custom = binding_present(
                &self.keymap_overrides.bindings,
                collision.action.as_str(),
                collision.keystrokes.as_str(),
                KeymapBindingKind::Bind,
            );
            self.unbind_keymap_binding(collision.action.as_str(), collision.keystrokes.as_str(), custom);
            i += 1;
        }
        let trimmed = trim(conflict.edit.input.as_str());
        let keystrokes = to_ascii_lowercase(trimmed.as_str());
        self.apply_keymap_edit(conflict.edit, keystrokes);
        true
    }

    /// Drops every override of the command `action`, back to its defaults; the
    /// window then saves through `save_keymap_overrides`, which keeps the
    /// normal form of what is left.
    pub fn reset_keymap_action(&mut self, action: &str)
        ensures
            final(self).keymap_overrides.spec_bindings() == retained(
                old(self).keymap_overrides.spec_bindings(),
                action@,
                None,
                None,
            ),
            forall|i: int|
                0 <= i < final(self).keymap_overrides.bindings@.len() ==> (#[trigger] final(self).keymap_overrides.bindings@[i]).action@
                    != action@,
            final(self).keymap_edit == old(self).keymap_edit,
            final(self).keymap_conflict == old(self).keymap_conflict,
            final(self).keymap_error == old(self).keymap_error,
            final(self).reduced_motion == old(self).reduced_motion,
    {
        let kept = retain_bindings(&self.keymap_overrides.bindings, action, None, None);
        self.keymap_overrides.bindings = kept;
        proof {
            lemma_retained_drops_action(old(self).keymap_overrides.spec_bindings(), action@);
            assert forall|i: int| 0 <= i < self.keymap_overrides.bindings@.len() implies (
            #[trigger] self.keymap_overrides.bindings@[i]).action@ != action@ by {
                assert(self.keymap_overrides.spec_bindings()[i] == self.keymap_overrides.bindings@[i]@);
            }
        }
    }

    /// Drops every override; the window then saves through
    /// `save_keymap_overrides`.
    pub fn reset_all_keymap_overrides(&mut self)
        ensures
            final(self).keymap_overrides.bindings@.len() == 0,
            final(self).keymap_edit == old(self).keymap_edit,
            final(self).keymap_conflict == old(self).keymap_conflict,
            final(self).reduced_motion == old(self).reduced_motion,
            final(self).keymap_error == old(self).keymap_error,
    {
        self.keymap_overrides = KeymapOverrides::default();
    }

    /// Saves the overrides: the window keeps `normalized`, the overrides in the
    /// normal form that the preferences store writes, and records the warning
    /// about its invalid bindings, or why the save failed (`saved`).
    /// `keys_parse` gives, for each binding of `normalized`, whether its keystrokes parse.
    pub fn save_keymap_overrides(&mut self, normalized: KeymapOverrides, saved: Result<(), String>, keys_parse: &Vec<bool>)
        requires
            keys_parse@.len() == normalized.bindings@.len(),
        ensures
            final(self).keymap_overrides == normalized,
            opt_text(final(self).keymap_error) == match saved {
                Ok(()) => validation_message(normalized.spec_bindings(), keys_parse@),
                Err(e) => Some("Could not save keymap: "@ + e@),
            },
            final(self).keymap_edit == old(self).keymap_edit,
            final(self).keymap_conflict == old(self).keymap_conflict,
            final(self).reduced_motion == old(self).reduced_motion,
    {
        self.keymap_overrides = normalized;
        match saved {
            Ok(()) => {
                self.keymap_error = Self::keymap_validation_message(&self.keymap_overrides, keys_parse);
            },
            Err(e) => {
                let mut m = String::from_str("Could not save keymap: ");
                m.append(e.as_str());
                self.keymap_error = Some(m);
            },
        }
    }

    /// Takes freshly loaded overrides, or records why loading failed.
    /// `keys_parse` gives, for each loaded override, whether its keystrokes parse.
    pub fn reload_keymap_overrides(&mut self, loaded: Result<KeymapOverrides, String>, keys_parse: &Vec<bool>)
        requires
            loaded matches Ok(k) ==> keys_parse@.len() == k.bindings@.len(),
        ensures
            match loaded {
                Ok(k) => final(self).keymap_overrides == k && opt_text(final(self).keymap_error) == validation_message(
                    k.spec_bindings(),
                    keys_parse@,
                ),
                Err(e) => final(self).keymap_overrides == old(self).keymap_overrides && opt_text(
                    final(self).keymap_error,
                ) == Some("Could not reload keymap: "@ + e@),
            },
            final(self).keymap_edit == old(self).keymap_edit,
            final(self).keymap_conflict == old(self).keymap_conflict,
            final(self).reduced_motion == old(self).reduced_motion,
    {
        match loaded {
            Ok(keymap) => {
                self.keymap_error = Self::keymap_validation_message(&keymap, keys_parse);
                self.keymap_overrides = keymap;
            },
            Err(e) => {
                let mut m = String::from_str("Could not reload keymap: ");
                m.append(e.as_str());
                self.keymap_error = Some(m);
            },
        }
    }

    /// Escape in the settings window: closes an open edit or conflict first;
    /// otherwise returns true, meaning the window closes.
    pub fn dismiss_settings(&mut self) -> (close_window: bool)
        ensures
            close_window == (old(self).keymap_edit is None && old(self).keymap_conflict is None),
            final(self).keymap_edit is None,
            final(self).keymap_conflict is None,
            final(self).reduced_motion == old(self).reduced_motion,
            final(self).keymap_overrides == old(self).keymap_overrides,
            final(self).keymap_error == old(self).keymap_error,
    {
        if self.keymap_edit.is_some() || self.keymap_conflict.is_some() {
            self.cancel_keymap_edit();
            return false;
        }
        self.keymap_edit = None;
        self.keymap_conflict = None;
        true
    }

    /// Records the outcome of saving the settings: a failure is reported in the
    /// keymap warning, a success leaves it; either way the window animates as
    /// the saved settings say (`saved_reduced_motion`).
    pub fn save_and_apply_settings(&mut self, saved_reduced_motion: bool, saved: Result<(), String>)
        ensures
            match saved {
                Ok(()) => final(self).keymap_error == old(self).keymap_error,
                Err(e) => opt_text(final(self).keymap_error) == Some("Could not save settings: "@ + e@),
            },
            final(self).reduced_motion == saved_reduced_motion,
            final(self).keymap_overrides == old(self).keymap_overrides,
            final(self).keymap_edit == old(self).keymap_edit,
            final(self).keymap_conflict == old(self).keymap_conflict,
    {
        match saved {
            Ok(()) => {},
            Err(e) => {
                let mut m = String::from_str("Could not save settings: ");
                m.append(e.as_str());
                self.keymap_error = Some(m);
            },
        }
        self.reduced_motion = saved_reduced_motion;
    }
}

/// The key bindings that the first `n` bindings in force give in `context`:
/// one for each binding whose command id names a command.
pub open spec fn installed_bindings(es: Seq<(Seq<char>, Seq<char>)>, n: int) -> Seq<(KeymapCommand, Seq<char>)>
    decreases n,
{
    if n <= 0 {
        Seq::empty()
    } else {
        installed_bindings(es, n - 1) + match spec_keymap_command(es[n - 1].0) {
            Some(c) => seq![(c, es[n - 1].1)],
            None => Seq::empty(),
        }
    }
}

/// Key bindings as plain values.
pub open spec fn binding_views(v: Seq<KeyBinding>) -> Seq<(KeymapCommand, Seq<char>)> {
    v.map_values(|b: KeyBinding| (b.command, b.keystrokes@))
}

impl PreferencesWindow {
    /// The key bindings of the file manager's commands to install for the
    /// overrides: those of the bindings in force, in the "FileManager" context.
    pub fn keymap_key_bindings(&self, keys_parse: &Vec<bool>) -> (bindings: Vec<KeyBinding>)
        requires
            keys_parse@.len() == self.keymap_overrides.bindings@.len(),
        ensures
            ({
                let es = spec_effective_bindings(self.keymap_overrides.spec_bindings(), keys_parse@);
                binding_views(bindings@) == installed_bindings(es, es.len() as int)
            }),
            forall|i: int| 0 <= i < bindings@.len() ==> (#[trigger] bindings@[i]).context == "FileManager",
    {
        let effective = self.effective_keymap_bindings(keys_parse);
        let ghost es = string_pairs(effective@);
        let mut bindings: Vec<KeyBinding> = Vec::new();
        let mut i: usize = 0;
        while i < effective.len()
            invariant
                es == string_pairs(effective@),
                i <= effective@.len(),
                binding_views(bindings@) == installed_bindings(es, i as int),
                forall|j: int| 0 <= j < bindings@.len() ==> (#[trigger] bindings@[j]).context == "FileManager",
            decreases effective@.len() - i,
        {
            assert(es[i as int] == (effective@[i as int].0@, effective@[i as int].1@));
            let ghost prev = bindings@;
            match Self::binding_for_keymap_action(effective[i].0.as_str(), effective[i].1.as_str(), "FileManager") {
                Some(b) => {
                    bindings.push(b);
                    assert(binding_views(bindings@) =~= binding_views(prev).push((bindings@.last().command, bindings@.last().keystrokes@)));
                },
                None => {},
            }
            i += 1;
        }
        bindings
    }
}

} // verus!

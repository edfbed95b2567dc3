use vstd::prelude::*;

verus! {

/// The kind of the operation sheet that is open.
#[derive(Clone, Copy, Debug, PartialEq, Eq, Structural)]
pub enum OpenSheet {
    /// A rename or bulk rename, which escape closes before anything else.
    Rename,
    /// Any other sheet.
    Other,
}

/// The layers of the window that escape can close, and whether items are selected.
#[derive(Clone, Copy, Debug, PartialEq, Eq, Structural)]
pub struct EscapeLayers {
    pub sheet: Option<OpenSheet>,
    pub file_search_open: bool,
    pub settings_open: bool,
    pub menu_open: bool,
    pub has_selection: bool,
}

/// What one press of escape does.
#[derive(Clone, Copy, Debug, PartialEq, Eq, Structural)]
pub enum EscapeAction {
    DismissSheet,
    DismissFileSearch,
    DismissSettings,
    DismissMenu,
    ClearSelection,
    Nothing,
}

/// The layer that escape closes: a rename sheet first, then the file search,
/// the settings, any other sheet, an open menu; with none open, the selection.
pub open spec fn spec_escape_action(l: EscapeLayers) -> EscapeAction {
    if l.sheet == Some(OpenSheet::Rename) {
        EscapeAction::DismissSheet
    } else if l.file_search_open {
        EscapeAction::DismissFileSearch
    } else if l.settings_open {
        EscapeAction::DismissSettings
    } else if l.sheet is Some {
        EscapeAction::DismissSheet
    } else if l.menu_open {
        EscapeAction::DismissMenu
    } else if l.has_selection {
        EscapeAction::ClearSelection
    } else {
        EscapeAction::Nothing
    }
}

/// The layers once an action has closed its layer.
pub open spec fn after_escape(l: EscapeLayers, a: EscapeAction) -> EscapeLayers {
    match a {
        EscapeAction::DismissSheet => EscapeLayers { sheet: None, ..l },
        EscapeAction::DismissFileSearch => EscapeLayers { file_search_open: false, ..l },
        EscapeAction::DismissSettings => EscapeLayers { settings_open: false, ..l },
        EscapeAction::DismissMenu => EscapeLayers { menu_open: false, ..l },
        EscapeAction::ClearSelection => EscapeLayers { has_selection: false, ..l },
        EscapeAction::Nothing => l,
    }
}

impl EscapeLayers {
    /// Handles escape: closes one layer and says which.
    pub fn handle_escape(&mut self) -> (action: EscapeAction)
        ensures
            action == spec_escape_action(*old(self)),
            *final(self) == after_escape(*old(self), action),
    {
        let action = if self.sheet == Some(OpenSheet::Rename) {
            EscapeAction::DismissSheet
        } else if self.file_search_open {
            EscapeAction::DismissFileSearch
        } else if self.settings_open {
            EscapeAction::DismissSettings
        } else if self.sheet.is_some() {
            EscapeAction::DismissSheet
        } else if self.menu_open {
            EscapeAction::DismissMenu
        } else if self.has_selection {
            EscapeAction::ClearSelection
        } else {
            EscapeAction::Nothing
        };
        match action {
            EscapeAction::DismissSheet => self.sheet = None,
            EscapeAction::DismissFileSearch => self.file_search_open = false,
            EscapeAction::DismissSettings => self.settings_open = false,
            EscapeAction::DismissMenu => self.menu_open = false,
            EscapeAction::ClearSelection => self.has_selection = false,
            EscapeAction::Nothing => {},
        }
        action
    }
}

/// The number of layers and selections still open.
pub open spec fn open_count(l: EscapeLayers) -> nat {
    (if l.sheet is Some { 1nat } else { 0nat }) + (if l.file_search_open { 1nat } else { 0nat }) + (if l.settings_open {
        1nat
    } else {
        0nat
    }) + (if l.menu_open { 1nat } else { 0nat }) + (if l.has_selection { 1nat } else { 0nat })
}

/// Each escape closes exactly one thing while something is open, and the
/// selection is cleared only once no layer is open.
pub proof fn lemma_escape_closes_one_layer(l: EscapeLayers)
    ensures
        open_count(l) > 0 ==> open_count(after_escape(l, spec_escape_action(l))) + 1 == open_count(l),
        open_count(l) == 0 ==> spec_escape_action(l) == EscapeAction::Nothing,
        spec_escape_action(l) == EscapeAction::ClearSelection ==> l.sheet is None && !l.file_search_open
            && !l.settings_open && !l.menu_open,
{
}

} // verus!

use vstd::prelude::*;

use crate::focus::{
    enabled_positions, first_enabled, last_enabled, next_focus, spec_first_enabled,
    spec_last_enabled, spec_move_focus,
};
use crate::favorites::{pins, texts_of};
use crate::model::{opt_text, spec_directory_like, FileEntry, FileKind, MenuAnimationState};
use crate::paths::paths_equal;
use crate::ops::text_list;

verus! {

/// Where the file action menu opens: under the header button, or at a pointer
/// position of the caller's choosing.
#[derive(Clone, Copy, Debug, PartialEq)]
pub enum ActionMenuPlacement<P> {
    Header,
    Cursor(P),
}

/// A command of the file action menu.
#[derive(Clone, Copy, Debug, PartialEq, Eq, Structural)]
pub enum FileMenuCommand {
    Open,
    Extract,
    ExtractTo,
    Copy,
    Cut,
    Paste,
    Rename,
    ToggleFavorite,
    CreateSymlink,
    Permissions,
    CopyPathAbsolute,
    CopyPathRelative,
    Trash,
    DeletePermanently,
}

/// A submenu of the file action menu.
#[derive(Clone, Copy, Debug, PartialEq, Eq, Structural)]
pub enum FileMenuSubmenu {
    OpenWith,
}

/// One row of the file action menu.
#[derive(Clone, Copy, Debug, PartialEq, Eq)]
pub enum MenuEntry {
    Action {
        command: FileMenuCommand,
        label: &'static str,
        shortcut: Option<&'static str>,
        enabled: bool,
        danger: bool,
    },
    Submenu { submenu: FileMenuSubmenu, label: &'static str, enabled: bool },
    Separator,
}

/// One button of the toolbar at the top of the file action menu.
#[derive(Clone, Copy, Debug, PartialEq, Eq)]
pub struct MenuToolbarAction {
    pub command: FileMenuCommand,
    pub label: &'static str,
    pub enabled: bool,
}

impl MenuToolbarAction {
    pub fn enabled_command(&self) -> (command: Option<FileMenuCommand>)
        ensures
            command == (if self.enabled { Some(self.command) } else { None::<FileMenuCommand> }),
    {
        if self.enabled {
            Some(self.command)
        } else {
            None
        }
    }
}

/// Where keyboard focus is in the file action menu.
#[derive(Clone, Copy, Debug, PartialEq, Eq, Structural)]
pub enum MenuFocusTarget {
    Toolbar(usize),
    Entry(usize),
}

pub open spec fn spec_enabled_command(entry: MenuEntry) -> Option<FileMenuCommand> {
    match entry {
        MenuEntry::Action { command, enabled, .. } => if enabled { Some(command) } else { None },
        _ => None,
    }
}

pub open spec fn spec_enabled_submenu(entry: MenuEntry) -> Option<FileMenuSubmenu> {
    match entry {
        MenuEntry::Submenu { submenu, enabled, .. } => if enabled { Some(submenu) } else { None },
        _ => None,
    }
}

/// A row can take keyboard focus when it is an enabled action or submenu.
pub open spec fn spec_is_selectable(entry: MenuEntry) -> bool {
    spec_enabled_command(entry) is Some || spec_enabled_submenu(entry) is Some
}

impl MenuEntry {
    pub fn enabled_command(&self) -> (command: Option<FileMenuCommand>)
        ensures
            command == spec_enabled_command(*self),
    {
        match self {
            MenuEntry::Action { command, enabled, .. } => if *enabled {
                Some(*command)
            } else {
                None
            },
            _ => None,
        }
    }

    pub fn enabled_submenu(&self) -> (submenu: Option<FileMenuSubmenu>)
        ensures
            submenu == spec_enabled_submenu(*self),
    {
        match self {
            MenuEntry::Submenu { submenu, enabled, .. } => if *enabled {
                Some(*submenu)
            } else {
                None
            },
            _ => None,
        }
    }
}

/// An application that can open a file, as listed in the "Open with" menus.
#[derive(Clone, Debug, PartialEq, Eq)]
pub struct DesktopApplication {
    pub desktop_id: String,
    pub name: String,
    pub generic_name: Option<String>,
    pub desktop_file: String,
    pub is_default: bool,
    pub compatible: bool,
    pub declared_compatible: bool,
}

fn copy_text(text: &String) -> (copy: String)
    ensures
        copy == *text,
{
    text.clone()
}

impl DesktopApplication {
    /// A field-by-field copy of the application.
    pub fn duplicate(&self) -> (copy: Self)
        ensures
            copy == *self,
    {
        let generic_name = match &self.generic_name {
            Some(name) => Some(copy_text(name)),
            None => None,
        };
        DesktopApplication {
            desktop_id: copy_text(&self.desktop_id),
            name: copy_text(&self.name),
            generic_name,
            desktop_file: copy_text(&self.desktop_file),
            is_default: self.is_default,
            compatible: self.compatible,
            declared_compatible: self.declared_compatible,
        }
    }
}

/// The applications known for one MIME type: those suggested for it, then all.
pub struct ApplicationCatalog {
    pub mime_type: String,
    pub suggested: Vec<DesktopApplication>,
    pub all: Vec<DesktopApplication>,
}

/// Whether an overlay is animating in or out.
#[derive(Clone, Copy, Debug, PartialEq, Eq, Structural)]
pub enum OverlayMotion {
    Opening,
    Closing,
}

/// The "Open with" chooser for one file.
pub struct OpenWithChooserState {
    pub path: String,
    pub file_name: String,
    pub mime_type: String,
    /// The applications offered, once they have loaded.
    pub catalog: Option<ApplicationCatalog>,
    pub selected_desktop_id: Option<String>,
    /// Whether the chosen application becomes the default for the type.
    pub always_use: bool,
    pub loading: bool,
    pub error: Option<String>,
    pub motion: OverlayMotion,
    /// Tells this chooser from earlier ones, so late answers are dropped.
    pub serial: u64,
}

/// The MIME type of files whose type is unknown; no default application is
/// ever set for it.
pub open spec fn unknown_mime_type() -> Seq<char> {
    "application/octet-stream"@
}

/// The id of the application a chooser selects first: the first suggested
/// one, else the first of all.
pub open spec fn first_application_id(c: ApplicationCatalog) -> Option<Seq<char>> {
    if c.suggested@.len() > 0 {
        Some(c.suggested@[0].desktop_id@)
    } else if c.all@.len() > 0 {
        Some(c.all@[0].desktop_id@)
    } else {
        None
    }
}

/// The first id a catalog selects, if it has loaded.
pub open spec fn first_loaded_id(c: Option<ApplicationCatalog>) -> Option<Seq<char>> {
    match c {
        Some(c) => first_application_id(c),
        None => None,
    }
}

/// The place of the first `id` among `ids`.
pub open spec fn id_position(ids: Seq<Seq<char>>, id: Seq<char>) -> Option<int>
    decreases ids.len(),
{
    if ids.len() == 0 {
        None
    } else if ids[0] == id {
        Some(0)
    } else {
        match id_position(ids.drop_first(), id) {
            Some(i) => Some(i + 1),
            None => None,
        }
    }
}

proof fn lemma_id_position(ids: Seq<Seq<char>>, id: Seq<char>, k: int)
    requires
        0 <= k <= ids.len(),
        forall|j: int| 0 <= j < k ==> ids[j] != id,
        k == ids.len() || ids[k] == id,
    ensures
        id_position(ids, id) == if k == ids.len() {
            None
        } else {
            Some(k)
        },
    decreases k,
{
    if k > 0 {
        assert forall|j: int| 0 <= j < k - 1 implies ids.drop_first()[j] != id by {
            assert(ids.drop_first()[j] == ids[j + 1]);
        }
        lemma_id_position(ids.drop_first(), id, k - 1);
    }
}

/// The application selected after a step through the listed ids: forward
/// from the selected one wraps to the first, back wraps to the last; with
/// none of them selected, forward starts at the first and back at the last.
pub open spec fn spec_step_selection(ids: Seq<Seq<char>>, selected: Option<Seq<char>>, backwards: bool) -> Seq<char> {
    let n = ids.len() as int;
    let current = match selected {
        Some(id) => id_position(ids, id),
        None => None,
    };
    let index = match current {
        Some(i) => if !backwards {
            (i + 1) % n
        } else if i == 0 {
            n - 1
        } else {
            i - 1
        },
        None => if backwards {
            n - 1
        } else {
            0
        },
    };
    ids[index]
}

/// The suggested applications, then all of them.
pub open spec fn catalog_order(c: ApplicationCatalog) -> Seq<DesktopApplication> {
    c.suggested@ + c.all@
}

/// Whether `found` is what looking up `id` in a catalog gives: the first
/// application with that id, suggested ones first, or none when none has it.
pub open spec fn finds(c: ApplicationCatalog, id: Seq<char>, found: Option<DesktopApplication>) -> bool {
    match found {
        Some(app) => exists|i: int|
            0 <= i < catalog_order(c).len() && #[trigger] catalog_order(c)[i] == app && app.desktop_id@ == id
                && forall|j: int| 0 <= j < i ==> (#[trigger] catalog_order(c)[j]).desktop_id@ != id,
        None => forall|i: int| 0 <= i < catalog_order(c).len() ==> (#[trigger] catalog_order(c)[i]).desktop_id@ != id,
    }
}

/// Among distinct ids, a step back undoes a step forward and a step forward
/// undoes a step back.
pub proof fn lemma_open_with_steps_undo_each_other(ids: Seq<Seq<char>>, k: int)
    requires
        0 <= k < ids.len(),
        forall|i: int, j: int| 0 <= i < ids.len() && 0 <= j < ids.len() && i != j ==> ids[i] != ids[j],
    ensures
        spec_step_selection(ids, Some(spec_step_selection(ids, Some(ids[k]), false)), true) == ids[k],
        spec_step_selection(ids, Some(spec_step_selection(ids, Some(ids[k]), true)), false) == ids[k],
{
    let n = ids.len() as int;
    assert forall|p: int| 0 <= p < n implies id_position(ids, ids[p]) == Some(p) by {
        lemma_id_position(ids, ids[p], p);
    }
    if k + 1 < n {
        vstd::arithmetic::div_mod::lemma_small_mod((k + 1) as nat, n as nat);
    } else {
        vstd::arithmetic::div_mod::lemma_mod_self_0(n);
    }
    let back = if k == 0 { n - 1 } else { k - 1 };
    if back + 1 < n {
        vstd::arithmetic::div_mod::lemma_small_mod((back + 1) as nat, n as nat);
    } else {
        vstd::arithmetic::div_mod::lemma_mod_self_0(n);
    }
}

/// The applications of a list, each id kept at its first place only.
pub open spec fn first_of_each_id(apps: Seq<DesktopApplication>) -> Seq<DesktopApplication>
    decreases apps.len(),
{
    if apps.len() == 0 {
        Seq::empty()
    } else {
        let kept = first_of_each_id(apps.drop_last());
        if exists|i: int| 0 <= i < kept.len() && (#[trigger] kept[i]).desktop_id@ == apps.last().desktop_id@ {
            kept
        } else {
            kept.push(apps.last())
        }
    }
}

/// The chooser lists every application of its catalog under exactly one row:
/// no two rows share an id, and every id of the catalog has a row.
pub proof fn lemma_each_application_listed_once(apps: Seq<DesktopApplication>)
    ensures
        forall|i: int, j: int|
            0 <= i < j < first_of_each_id(apps).len() ==> (#[trigger] first_of_each_id(apps)[i]).desktop_id@
                != (#[trigger] first_of_each_id(apps)[j]).desktop_id@,
        forall|i: int|
            0 <= i < apps.len() ==> exists|j: int|
                0 <= j < first_of_each_id(apps).len() && (#[trigger] first_of_each_id(apps)[j]).desktop_id@
                    == (#[trigger] apps[i]).desktop_id@,
    decreases apps.len(),
{
    if apps.len() > 0 {
        let prev = apps.drop_last();
        lemma_each_application_listed_once(prev);
        let kept = first_of_each_id(prev);
        let result = first_of_each_id(apps);
        if exists|i: int| 0 <= i < kept.len() && (#[trigger] kept[i]).desktop_id@ == apps.last().desktop_id@ {
            assert(result == kept);
            assert forall|i: int| 0 <= i < apps.len() implies exists|j: int|
                0 <= j < result.len() && (#[trigger] result[j]).desktop_id@ == (#[trigger] apps[i]).desktop_id@ by {
                if i < apps.len() - 1 {
                    assert(apps[i] == prev[i]);
                }
            }
        } else {
            assert(result == kept.push(apps.last()));
            assert forall|i: int, j: int|
                0 <= i < j < result.len() implies (#[trigger] result[i]).desktop_id@ != (#[trigger] result[j]).desktop_id@ by {
                if j == kept.len() {
                    assert(result[i] == kept[i]);
                } else {
                    assert(result[i] == kept[i] && result[j] == kept[j]);
                }
            }
            assert forall|i: int| 0 <= i < apps.len() implies exists|j: int|
                0 <= j < result.len() && (#[trigger] result[j]).desktop_id@ == (#[trigger] apps[i]).desktop_id@ by {
                if i < apps.len() - 1 {
                    assert(apps[i] == prev[i]);
                    let j = choose|j: int| 0 <= j < kept.len() && (#[trigger] kept[j]).desktop_id@ == prev[i].desktop_id@;
                    assert(result[j] == kept[j]);
                } else {
                    assert(result[kept.len() as int] == apps.last());
                }
            }
        }
    }
}

/// Appends an application unless one with its id is there already.
fn add_if_new(apps: &mut Vec<DesktopApplication>, app: &DesktopApplication)
    ensures
        final(apps)@ == if exists|i: int|
            0 <= i < old(apps)@.len() && (#[trigger] old(apps)@[i]).desktop_id@ == app.desktop_id@ {
            old(apps)@
        } else {
            old(apps)@.push(*app)
        },
{
    let mut k: usize = 0;
    while k < apps.len()
        invariant
            apps@ == old(apps)@,
            k <= apps@.len(),
            forall|j: int| 0 <= j < k ==> (#[trigger] apps@[j]).desktop_id@ != app.desktop_id@,
        decreases apps@.len() - k,
    {
        if crate::text::same_text(apps[k].desktop_id.as_str(), app.desktop_id.as_str()) {
            return;
        }
        k += 1;
    }
    apps.push(app.duplicate());
}

/// The place of the first `id` among `ids`.
fn id_index(ids: &Vec<String>, id: &str) -> (pos: Option<usize>)
    ensures
        match pos {
            Some(k) => k < ids@.len() && id_position(text_list(ids@), id@) == Some(k as int),
            None => id_position(text_list(ids@), id@) is None,
        },
{
    let ghost views = text_list(ids@);
    let n = ids.len();
    let mut i: usize = 0;
    while i < n
        invariant
            n == ids@.len(),
            views == text_list(ids@),
            i <= n,
            forall|j: int| 0 <= j < i ==> views[j] != id@,
        decreases n - i,
    {
        if crate::text::same_text(ids[i].as_str(), id) {
            proof {
                lemma_id_position(views, id@, i as int);
            }
            return Some(i);
        }
        i += 1;
    }
    proof {
        lemma_id_position(views, id@, n as int);
    }
    None
}

/// The first `n` of some applications, copied.
fn first_applications(apps: &Vec<DesktopApplication>, n: usize) -> (firsts: Vec<DesktopApplication>)
    ensures
        firsts@ == apps@.take(if apps@.len() < n { apps@.len() as int } else { n as int }),
{
    let limit = if apps.len() < n {
        apps.len()
    } else {
        n
    };
    let mut firsts: Vec<DesktopApplication> = Vec::new();
    let mut i: usize = 0;
    while i < limit
        invariant
            limit <= apps@.len(),
            i <= limit,
            firsts@ == apps@.take(i as int),
        decreases limit - i,
    {
        firsts.push(apps[i].duplicate());
        assert(firsts@ =~= apps@.take(i as int + 1));
        i += 1;
    }
    firsts
}

fn first_id(c: &ApplicationCatalog) -> (id: Option<String>)
    ensures
        opt_text(id) == first_application_id(*c),
{
    if c.suggested.len() > 0 {
        Some(copy_text(&c.suggested[0].desktop_id))
    } else if c.all.len() > 0 {
        Some(copy_text(&c.all[0].desktop_id))
    } else {
        None
    }
}

/// What a successful launch reports: the status, and whether the application
/// is to become the default for the type.
pub struct LaunchReport {
    pub status: String,
    pub set_default: bool,
}

/// The report after a file opened with an application: the application
/// becomes the default only when asked and the type is known.
pub fn launch_report(application_name: &str, always_use: bool, mime_type: &str) -> (report: LaunchReport)
    ensures
        report.status@ == "Opened with "@ + application_name@,
        report.set_default == (always_use && mime_type@ != unknown_mime_type()),
{
    let mut status = String::from_str("Opened with ");
    status.append(application_name);
    let unknown = crate::text::same_text(mime_type, "application/octet-stream");
    LaunchReport { status, set_default: always_use && !unknown }
}

/// The status once an application became the default for a type.
pub fn default_application_status(application_name: &str) -> (status: String)
    ensures
        status@ == application_name@ + " is now the default app"@,
{
    let mut status = String::from_str(application_name);
    status.append(" is now the default app");
    status
}

impl OpenWithChooserState {
    /// A chooser for a file of a type, with the catalog of that type when it
    /// is known already; otherwise it loads. It selects the first application
    /// of the catalog and is told apart by the serial after `previous_serial`.
    pub fn open(path: &str, mime_type: String, cached: Option<ApplicationCatalog>, previous_serial: u64) -> (chooser: Self)
        ensures
            chooser.path@ == path@,
            chooser.file_name@ == crate::search::hit_name(path@),
            chooser.mime_type == mime_type,
            chooser.catalog == cached,
            opt_text(chooser.selected_desktop_id) == first_loaded_id(cached),
            !chooser.always_use,
            chooser.loading == cached is None,
            chooser.error is None,
            chooser.motion == OverlayMotion::Opening,
            chooser.serial == crate::search::next_generation(previous_serial),
    {
        let file_name = match crate::paths::file_name(path) {
            Some(n) => n,
            None => String::from_str(path),
        };
        let selected_desktop_id = match &cached {
            Some(c) => first_id(c),
            None => None,
        };
        let loading = cached.is_none();
        OpenWithChooserState {
            path: String::from_str(path),
            file_name,
            mime_type,
            catalog: cached,
            selected_desktop_id,
            always_use: false,
            loading,
            error: None,
            motion: OverlayMotion::Opening,
            serial: if previous_serial == u64::MAX {
                0
            } else {
                previous_serial + 1
            },
        }
    }

    /// The applications the chooser lists before its search filters them:
    /// the suggested ones, then all, each application once, where it first
    /// appears; none until the catalog has loaded.
    pub fn catalog_applications(&self) -> (apps: Vec<DesktopApplication>)
        ensures
            match self.catalog {
                Some(c) => apps@ == first_of_each_id(catalog_order(c)),
                None => apps@.len() == 0,
            },
    {
        let catalog = match &self.catalog {
            Some(c) => c,
            None => return Vec::new(),
        };
        let ghost order = catalog_order(*catalog);
        let n = catalog.suggested.len();
        let mut apps: Vec<DesktopApplication> = Vec::new();
        let mut i: usize = 0;
        while i < n
            invariant
                self.catalog == Some(*catalog),
                order == catalog.suggested@ + catalog.all@,
                n == catalog.suggested@.len(),
                i <= n,
                apps@ == first_of_each_id(order.take(i as int)),
            decreases n - i,
        {
            assert(catalog.suggested@[i as int] == order[i as int]);
            assert(order.take(i as int + 1).drop_last() =~= order.take(i as int));
            add_if_new(&mut apps, &catalog.suggested[i]);
            i += 1;
        }
        let m = catalog.all.len();
        let mut k: usize = 0;
        while k < m
            invariant
                self.catalog == Some(*catalog),
                order == catalog.suggested@ + catalog.all@,
                n == catalog.suggested@.len(),
                m == catalog.all@.len(),
                k <= m,
                apps@ == first_of_each_id(order.take(n + k)),
            decreases m - k,
        {
            assert(catalog.all@[k as int] == order[n + k]);
            assert(order.take(n + k + 1).drop_last() =~= order.take(n + k));
            add_if_new(&mut apps, &catalog.all[k]);
            k += 1;
        }
        assert(order.take(n + m) =~= order);
        apps
    }

    /// Takes in the catalog loaded for the chooser with `serial`; a catalog
    /// for an earlier chooser is dropped. Says whether it was taken.
    pub fn catalog_loaded(&mut self, serial: u64, catalog: ApplicationCatalog) -> (taken: bool)
        ensures
            taken == (serial == old(self).serial),
            taken ==> opt_text(final(self).selected_desktop_id) == first_application_id(catalog)
                && *final(self) == (OpenWithChooserState {
                catalog: Some(catalog),
                loading: false,
                mime_type: catalog.mime_type,
                selected_desktop_id: final(self).selected_desktop_id,
                ..*old(self)
            }),
            !taken ==> *final(self) == *old(self),
    {
        if serial != self.serial {
            return false;
        }
        self.loading = false;
        self.mime_type = copy_text(&catalog.mime_type);
        self.selected_desktop_id = first_id(&catalog);
        self.catalog = Some(catalog);
        true
    }

    /// Selects the first of the listed applications (none when the list is
    /// empty), as after the search text changed.
    pub fn select_first(&mut self, ids: &Vec<String>)
        ensures
            opt_text(final(self).selected_desktop_id) == if ids@.len() > 0 {
                Some(ids@[0]@)
            } else {
                None
            },
            *final(self) == (OpenWithChooserState { selected_desktop_id: final(self).selected_desktop_id, ..*old(self) }),
    {
        self.selected_desktop_id = if ids.len() > 0 {
            Some(copy_text(&ids[0]))
        } else {
            None
        };
    }

    /// Steps the selection through the listed applications. Says whether
    /// there was any to select.
    pub fn step_selection(&mut self, ids: &Vec<String>, backwards: bool) -> (moved: bool)
        ensures
            moved == (ids@.len() > 0),
            moved ==> opt_text(final(self).selected_desktop_id) == Some(
                spec_step_selection(text_list(ids@), opt_text(old(self).selected_desktop_id), backwards),
            ),
            !moved ==> final(self).selected_desktop_id == old(self).selected_desktop_id,
            *final(self) == (OpenWithChooserState { selected_desktop_id: final(self).selected_desktop_id, ..*old(self) }),
    {
        let n = ids.len();
        if n == 0 {
            return false;
        }
        let current: Option<usize> = match &self.selected_desktop_id {
            Some(selected) => id_index(ids, selected.as_str()),
            None => None,
        };
        let index: usize = match current {
            Some(i) => if !backwards {
                (i + 1) % n
            } else if i == 0 {
                n - 1
            } else {
                i - 1
            },
            None => if backwards {
                n - 1
            } else {
                0
            },
        };
        self.selected_desktop_id = Some(copy_text(&ids[index]));
        true
    }

    /// Flips whether the chosen application becomes the default, unless the
    /// type is unknown. Says whether it flipped.
    pub fn toggle_always_use(&mut self) -> (toggled: bool)
        ensures
            toggled == (old(self).mime_type@ != unknown_mime_type()),
            *final(self) == (OpenWithChooserState { always_use: old(self).always_use != toggled, ..*old(self) }),
    {
        if crate::text::same_text(self.mime_type.as_str(), "application/octet-stream") {
            return false;
        }
        self.always_use = !self.always_use;
        true
    }

    /// Starts closing the chooser, unless it already is. Says whether it
    /// started; the caller closes it when its close timer fires.
    pub fn dismiss(&mut self) -> (started: bool)
        ensures
            started == (old(self).motion == OverlayMotion::Opening),
            *final(self) == (OpenWithChooserState { motion: OverlayMotion::Closing, ..*old(self) }),
    {
        if self.motion == OverlayMotion::Closing {
            return false;
        }
        self.motion = OverlayMotion::Closing;
        true
    }

    /// Whether the close timer started for the chooser with `serial` closes
    /// this one: only when it is that chooser and it is still closing.
    pub fn close_due(&self, serial: u64) -> (due: bool)
        ensures
            due == (serial == self.serial && self.motion == OverlayMotion::Closing),
    {
        serial == self.serial && self.motion == OverlayMotion::Closing
    }

    /// The selected application, looked up in the catalog.
    pub fn selected_application(&self) -> (found: Option<DesktopApplication>)
        ensures
            match (self.selected_desktop_id, self.catalog) {
                (Some(id), Some(c)) => finds(c, id@, found),
                _ => found is None,
            },
    {
        match &self.selected_desktop_id {
            Some(id) => self.application(id.as_str()),
            None => None,
        }
    }

    /// The first application of the catalog, suggested ones first, with the given id.
    pub fn application(&self, desktop_id: &str) -> (found: Option<DesktopApplication>)
        ensures
            match self.catalog {
                None => found is None,
                Some(c) => finds(c, desktop_id@, found),
            },
    {
        let catalog = match &self.catalog {
            Some(c) => c,
            None => return None,
        };
        let ghost order = catalog_order(*catalog);
        let mut i: usize = 0;
        while i < catalog.suggested.len()
            invariant
                order == catalog.suggested@ + catalog.all@,
                self.catalog == Some(*catalog),
                i <= catalog.suggested@.len(),
                forall|j: int| 0 <= j < i ==> (#[trigger] order[j]).desktop_id@ != desktop_id@,
            decreases catalog.suggested@.len() - i,
        {
            assert(order[i as int] == catalog.suggested@[i as int]);
            if crate::text::same_text(catalog.suggested[i].desktop_id.as_str(), desktop_id) {
                return Some(catalog.suggested[i].duplicate());
            }
            i += 1;
        }
        let n = catalog.suggested.len();
        let mut k: usize = 0;
        while k < catalog.all.len()
            invariant
                order == catalog.suggested@ + catalog.all@,
                self.catalog == Some(*catalog),
                n == catalog.suggested@.len(),
                k <= catalog.all@.len(),
                forall|j: int| 0 <= j < n + k ==> (#[trigger] order[j]).desktop_id@ != desktop_id@,
            decreases catalog.all@.len() - k,
        {
            assert(order[n + k] == catalog.all@[k as int]);
            if crate::text::same_text(catalog.all[k].desktop_id.as_str(), desktop_id) {
                return Some(catalog.all[k].duplicate());
            }
            k += 1;
        }
        None
    }
}

/// The "Open with" submenu: the suggested applications for one file, then a
/// last row to choose another application.
#[derive(Clone, Debug)]
pub struct OpenWithSubmenuState {
    pub path: String,
    pub mime_type: String,
    pub applications: Vec<DesktopApplication>,
    pub loading: bool,
    pub error: Option<String>,
    pub focused: Option<usize>,
}

/// Where focus goes in the "Open with" submenu: its rows are the
/// applications followed by "Choose another application".
pub open spec fn spec_submenu_move(app_count: nat, focused: Option<usize>, backwards: bool) -> Option<usize> {
    let count = app_count + 1;
    let raw = match focused { Some(f) => f as int, None => 0 };
    let current = if raw < count - 1 { raw } else { count - 1 };
    Some((if backwards {
        if current == 0 { count - 1 } else { current - 1 }
    } else {
        (current + 1) % (count as int)
    }) as usize)
}

/// One step of the submenu's focus, over `n` applications and the closing
/// "Choose another application" row: it stays on a row, wraps from the last
/// row to the first going forward and from the first to the last going back,
/// and a step back undoes a step forward and the other way round.
pub proof fn lemma_submenu_focus_steps(n: nat, focused: Option<usize>, backwards: bool, k: usize)
    requires
        n < usize::MAX,
    ensures
        spec_submenu_move(n, focused, backwards) matches Some(j) && j <= n,
        k <= n ==> spec_submenu_move(n, spec_submenu_move(n, Some(k), false), true) == Some(k),
        k <= n ==> spec_submenu_move(n, spec_submenu_move(n, Some(k), true), false) == Some(k),
        spec_submenu_move(n, Some(n as usize), false) == Some(0usize),
        spec_submenu_move(n, Some(0usize), true) == Some(n as usize),
{
    let count = (n + 1) as int;
    vstd::arithmetic::div_mod::lemma_mod_self_0(count);
    let raw = match focused {
        Some(f) => f as int,
        None => 0,
    };
    let current = if raw < count - 1 { raw } else { count - 1 };
    if current + 1 < count {
        vstd::arithmetic::div_mod::lemma_small_mod((current + 1) as nat, count as nat);
    }
    if k <= n {
        if k < n {
            vstd::arithmetic::div_mod::lemma_small_mod((k + 1) as nat, count as nat);
        }
        if k > 0 {
            vstd::arithmetic::div_mod::lemma_small_mod(k as nat, count as nat);
        }
    }
}

impl OpenWithSubmenuState {
    pub fn move_focus(&mut self, direction: isize)
        requires
            old(self).applications.len() < usize::MAX,
        ensures
            final(self).focused == spec_submenu_move(old(self).applications@.len(), old(self).focused, direction < 0),
            final(self).applications == old(self).applications,
            final(self).path == old(self).path,
            final(self).mime_type == old(self).mime_type,
            final(self).loading == old(self).loading,
            final(self).error == old(self).error,
    {
        let item_count = self.applications.len() + 1;
        let raw = match self.focused {
            Some(f) => f,
            None => 0,
        };
        let current = if raw < item_count - 1 { raw } else { item_count - 1 };
        let next = if direction < 0 {
            if current == 0 {
                item_count - 1
            } else {
                current - 1
            }
        } else {
            (current + 1) % item_count
        };
        self.focused = Some(next);
    }
}

/// What activating the focused row does.
#[derive(Clone, Debug, PartialEq, Eq)]
pub enum ActionMenuActivation {
    Command(FileMenuCommand),
    Submenu(FileMenuSubmenu),
    OpenWithApplication(DesktopApplication),
    ChooseAnotherApplication,
}

/// What the caller knows about one selected entry.
#[derive(Clone, Copy, Debug, PartialEq, Eq)]
pub struct SelectedEntry {
    pub kind: FileKind,
    /// The kind of a symlink's target, when its metadata is loaded.
    pub symlink_target_kind: Option<FileKind>,
    /// Whether the entry's permission bits are known.
    pub has_mode: bool,
    /// Whether the entry is a folder or a symlink to one.
    pub directory_like: bool,
    /// Whether the entry looks like an archive that can be extracted.
    pub archive_candidate: bool,
    /// Whether the entry is among the favorite folders.
    pub favorite: bool,
}

/// What the menus need to know about the selection and the application.
#[derive(Clone, Copy, Debug, Default, PartialEq, Eq, Structural)]
pub struct MenuContext {
    pub selected_count: usize,
    pub open_with_eligible: bool,
    pub permissions_supported: bool,
    pub clipboard_valid: bool,
    pub operation_running: bool,
    pub all_selected_archives: bool,
    pub favorite_eligible: bool,
    pub selected_is_favorite: bool,
}

pub open spec fn opens_with_application(entry: SelectedEntry) -> bool {
    entry.kind == FileKind::File || (entry.kind == FileKind::Symlink && entry.symlink_target_kind
        == Some(FileKind::File))
}

pub open spec fn permissions_apply(entry: SelectedEntry) -> bool {
    entry.kind != FileKind::Symlink && entry.has_mode
}

/// The menu context of a selection of `selected_count` paths, of which the
/// listed entries are those present in the folder listing.
pub open spec fn spec_from_selection(
    selected_count: usize,
    entries: Seq<SelectedEntry>,
    clipboard_valid: bool,
    operation_running: bool,
) -> MenuContext {
    let favorite_eligible = entries.len() == 1 && entries[0].directory_like;
    MenuContext {
        selected_count,
        open_with_eligible: entries.len() == 1 && opens_with_application(entries[0]),
        permissions_supported: entries.len() > 0 && forall|i: int|
            0 <= i < entries.len() ==> permissions_apply(#[trigger] entries[i]),
        clipboard_valid,
        operation_running,
        all_selected_archives: entries.len() > 0 && forall|i: int|
            0 <= i < entries.len() ==> (#[trigger] entries[i]).archive_candidate,
        favorite_eligible,
        selected_is_favorite: favorite_eligible && entries[0].favorite,
    }
}

impl MenuContext {
    /// The menu context of a selection of `selected_count` paths whose entries
    /// in the folder listing are `entries`.
    pub fn from_selected_entries(
        selected_count: usize,
        entries: &[SelectedEntry],
        clipboard_valid: bool,
        operation_running: bool,
    ) -> (context: Self)
        ensures
            context == spec_from_selection(selected_count, entries@, clipboard_valid, operation_running),
    {
        let n = entries.len();
        let favorite_eligible = n == 1 && entries[0].directory_like;
        let open_with_eligible = n == 1 && (entries[0].kind == FileKind::File || (entries[0].kind
            == FileKind::Symlink && entries[0].symlink_target_kind == Some(FileKind::File)));
        let mut all_permissions = true;
        let mut all_archives = true;
        let mut i: usize = 0;
        while i < n
            invariant
                n == entries@.len(),
                i <= n,
                all_permissions == forall|j: int| 0 <= j < i ==> permissions_apply(#[trigger] entries@[j]),
                all_archives == forall|j: int| 0 <= j < i ==> (#[trigger] entries@[j]).archive_candidate,
            decreases n - i,
        {
            let entry = entries[i];
            if !(entry.kind != FileKind::Symlink && entry.has_mode) {
                all_permissions = false;
            }
            if !entry.archive_candidate {
                all_archives = false;
            }
            i += 1;
        }
        MenuContext {
            selected_count,
            open_with_eligible,
            permissions_supported: n > 0 && all_permissions,
            clipboard_valid,
            operation_running,
            all_selected_archives: n > 0 && all_archives,
            favorite_eligible,
            selected_is_favorite: favorite_eligible && entries[0].favorite,
        }
    }
}

/// What the menus need to know of one listed entry: its kind, its metadata,
/// whether it is an archive (`archive`) and whether `favorites` names it.
pub open spec fn selected_entry_view(entry: FileEntry, archive: bool, favorites: Seq<Seq<char>>) -> SelectedEntry {
    SelectedEntry {
        kind: entry.kind,
        symlink_target_kind: match entry.metadata {
            Some(m) => m.symlink_target_kind,
            None => None,
        },
        has_mode: match entry.metadata {
            Some(m) => m.mode is Some,
            None => false,
        },
        directory_like: spec_directory_like(entry),
        archive_candidate: archive,
        favorite: pins(favorites, entry.path@),
    }
}

/// The first `n` entries of the listing that the selection names (by their
/// location), in listing order, as the menus see them.
pub open spec fn selected_listing(
    selected_paths: Seq<Seq<char>>,
    entries: Seq<FileEntry>,
    archives: Seq<bool>,
    favorites: Seq<Seq<char>>,
    n: int,
) -> Seq<SelectedEntry>
    decreases n,
{
    if n <= 0 {
        Seq::empty()
    } else {
        selected_listing(selected_paths, entries, archives, favorites, n - 1) + if pins(
            selected_paths,
            entries[n - 1].path@,
        ) {
            seq![selected_entry_view(entries[n - 1], archives[n - 1], favorites)]
        } else {
            Seq::empty()
        }
    }
}

/// Whether `paths` names the location of `path`.
fn names_location(paths: &Vec<String>, path: &str) -> (found: bool)
    ensures
        found == pins(texts_of(paths@), path@),
{
    let mut i: usize = 0;
    while i < paths.len()
        invariant
            i <= paths@.len(),
            forall|j: int| 0 <= j < i ==> !crate::paths::same_path(#[trigger] texts_of(paths@)[j], path@),
        decreases paths@.len() - i,
    {
        if paths_equal(paths[i].as_str(), path) {
            assert(crate::paths::same_path(texts_of(paths@)[i as int], path@));
            return true;
        }
        i += 1;
    }
    false
}

impl MenuContext {
    /// The menu context of the selection `selected_paths` over the folder
    /// listing `entries`: the entries the selection names are looked up by
    /// location; `favorites` are the pinned folders; `archives` says, for each
    /// listed entry, whether its path looks like an archive that can be extracted.
    pub fn from_selection(
        selected_paths: &Vec<String>,
        entries: &Vec<FileEntry>,
        favorites: &Vec<String>,
        archives: &Vec<bool>,
        clipboard_valid: bool,
        operation_running: bool,
    ) -> (context: Self)
        requires
            archives@.len() == entries@.len(),
        ensures
            context == spec_from_selection(
                selected_paths@.len() as usize,
                selected_listing(
                    texts_of(selected_paths@),
                    entries@,
                    archives@,
                    texts_of(favorites@),
                    entries@.len() as int,
                ),
                clipboard_valid,
                operation_running,
            ),
    {
        let ghost sp = texts_of(selected_paths@);
        let ghost fv = texts_of(favorites@);
        let mut chosen: Vec<SelectedEntry> = Vec::new();
        let mut i: usize = 0;
        while i < entries.len()
            invariant
                i <= entries@.len(),
                archives@.len() == entries@.len(),
                sp == texts_of(selected_paths@),
                fv == texts_of(favorites@),
                chosen@ == selected_listing(sp, entries@, archives@, fv, i as int),
            decreases entries@.len() - i,
        {
            let entry = &entries[i];
            if names_location(selected_paths, entry.path.as_str()) {
                let symlink_target_kind = match &entry.metadata {
                    Some(m) => m.symlink_target_kind,
                    None => None,
                };
                let has_mode = match &entry.metadata {
                    Some(m) => m.mode.is_some(),
                    None => false,
                };
                let view = SelectedEntry {
                    kind: entry.kind,
                    symlink_target_kind,
                    has_mode,
                    directory_like: entry.is_directory_like(),
                    archive_candidate: archives[i],
                    favorite: names_location(favorites, entry.path.as_str()),
                };
                chosen.push(view);
            }
            i += 1;
        }
        Self::from_selected_entries(selected_paths.len(), chosen.as_slice(), clipboard_valid, operation_running)
    }
}

pub open spec fn spec_action(
    command: FileMenuCommand,
    label: &'static str,
    shortcut: Option<&'static str>,
    enabled: bool,
) -> MenuEntry {
    MenuEntry::Action { command, label, shortcut, enabled, danger: false }
}

pub fn action(
    command: FileMenuCommand,
    label: &'static str,
    shortcut: Option<&'static str>,
    enabled: bool,
) -> (entry: MenuEntry)
    ensures
        entry == spec_action(command, label, shortcut, enabled),
{
    MenuEntry::Action { command, label, shortcut, enabled, danger: false }
}

pub fn dangerous_action(
    command: FileMenuCommand,
    label: &'static str,
    shortcut: Option<&'static str>,
    enabled: bool,
) -> (entry: MenuEntry)
    ensures
        entry == (MenuEntry::Action { command, label, shortcut, enabled, danger: true }),
{
    MenuEntry::Action { command, label, shortcut, enabled, danger: true }
}

pub fn submenu(which: FileMenuSubmenu, label: &'static str, enabled: bool) -> (entry: MenuEntry)
    ensures
        entry == (MenuEntry::Submenu { submenu: which, label, enabled }),
{
    MenuEntry::Submenu { submenu: which, label, enabled }
}

pub fn toolbar_action(command: FileMenuCommand, label: &'static str, enabled: bool) -> (action: MenuToolbarAction)
    ensures
        action == (MenuToolbarAction { command, label, enabled }),
{
    MenuToolbarAction { command, label, enabled }
}

pub fn is_selectable(entry: &MenuEntry) -> (selectable: bool)
    ensures
        selectable == spec_is_selectable(*entry),
{
    entry.enabled_command().is_some() || entry.enabled_submenu().is_some()
}

/// The toolbar of the file action menu. File writes are never blocked by a
/// running operation: operations queue.
pub open spec fn spec_toolbar(context: MenuContext) -> Seq<MenuToolbarAction> {
    let has_selection = context.selected_count > 0;
    seq![
        MenuToolbarAction { command: FileMenuCommand::Cut, label: "Cut", enabled: has_selection },
        MenuToolbarAction { command: FileMenuCommand::Copy, label: "Copy", enabled: has_selection },
        MenuToolbarAction { command: FileMenuCommand::Paste, label: "Paste", enabled: context.clipboard_valid },
        MenuToolbarAction {
            command: FileMenuCommand::Rename,
            label: if context.selected_count > 1 { "Bulk rename" } else { "Rename" },
            enabled: has_selection,
        },
        MenuToolbarAction { command: FileMenuCommand::Trash, label: "Move to Trash", enabled: has_selection },
    ]
}

/// The rows of the file action menu before the contextual ones are added.
pub open spec fn spec_base_entries(context: MenuContext) -> Seq<MenuEntry> {
    let has_selection = context.selected_count > 0;
    seq![
        spec_action(FileMenuCommand::Open, "Open", Some("Enter"), context.selected_count == 1),
        MenuEntry::Submenu { submenu: FileMenuSubmenu::OpenWith, label: "Open with", enabled: context.open_with_eligible },
        MenuEntry::Separator,
        spec_action(FileMenuCommand::CreateSymlink, "New symlink", Some("Ctrl+Shift+L"), true),
        MenuEntry::Separator,
        spec_action(FileMenuCommand::CopyPathAbsolute, "Copy absolute path", Some("Ctrl+Shift+C"), has_selection),
        spec_action(FileMenuCommand::CopyPathRelative, "Copy relative path", Some("Ctrl+Alt+C"), has_selection),
        spec_action(FileMenuCommand::Permissions, "Properties", Some("Alt+Enter"), context.permissions_supported),
        MenuEntry::Separator,
        MenuEntry::Action {
            command: FileMenuCommand::DeletePermanently,
            label: "Delete Permanently",
            shortcut: Some("Shift+Delete"),
            enabled: has_selection,
            danger: true,
        },
    ]
}

/// The rows after the contextual ones are added: "Extract" and "Extract to…"
/// for an all-archive selection, and the favorite toggle for a single folder,
/// both right after "Open with".
pub open spec fn spec_contextual_entries(entries: Seq<MenuEntry>, context: MenuContext, writes_enabled: bool) -> Seq<MenuEntry> {
    let with_archives = if context.all_selected_archives {
        entries.insert(2, spec_action(FileMenuCommand::Extract, "Extract", Some("Ctrl+E"), writes_enabled)).insert(
            3,
            spec_action(FileMenuCommand::ExtractTo, "Extract to…", Some("Ctrl+Shift+E"), writes_enabled),
        )
    } else {
        entries
    };
    if context.favorite_eligible {
        with_archives.insert(
            2,
            spec_action(
                FileMenuCommand::ToggleFavorite,
                if context.selected_is_favorite { "Remove from Favorites" } else { "Add to Favorites" },
                Some("Ctrl+D"),
                true,
            ),
        )
    } else {
        with_archives
    }
}

pub fn add_contextual_actions(entries: &mut Vec<MenuEntry>, context: MenuContext, writes_enabled: bool)
    requires
        old(entries).len() >= 2,
    ensures
        final(entries)@ == spec_contextual_entries(old(entries)@, context, writes_enabled),
{
    if context.all_selected_archives {
        entries.insert(2, action(FileMenuCommand::Extract, "Extract", Some("Ctrl+E"), writes_enabled));
        entries.insert(
            3,
            action(FileMenuCommand::ExtractTo, "Extract to…", Some("Ctrl+Shift+E"), writes_enabled),
        );
    }
    if !context.favorite_eligible {
        return;
    }
    entries.insert(
        2,
        action(
            FileMenuCommand::ToggleFavorite,
            if context.selected_is_favorite {
                "Remove from Favorites"
            } else {
                "Add to Favorites"
            },
            Some("Ctrl+D"),
            true,
        ),
    );
}


pub open spec fn is_danger(entry: MenuEntry) -> bool {
    match entry {
        MenuEntry::Action { danger, .. } => danger,
        _ => false,
    }
}

pub open spec fn row_command(entry: MenuEntry) -> Option<FileMenuCommand> {
    match entry {
        MenuEntry::Action { command, .. } => Some(command),
        _ => None,
    }
}

/// The rows of the file action menu for a context.
pub open spec fn spec_menu_entries(context: MenuContext) -> Seq<MenuEntry> {
    spec_contextual_entries(spec_base_entries(context), context, true)
}

/// In every file action menu exactly one row is marked dangerous, and it
/// is "Delete Permanently".
pub proof fn lemma_only_permanent_delete_is_dangerous(context: MenuContext)
    ensures
        forall|i: int| 0 <= i < spec_menu_entries(context).len() && is_danger(#[trigger] spec_menu_entries(context)[i])
            ==> row_command(spec_menu_entries(context)[i]) == Some(FileMenuCommand::DeletePermanently),
        exists|i: int| 0 <= i < spec_menu_entries(context).len() && is_danger(#[trigger] spec_menu_entries(context)[i]),
        forall|i: int, j: int|
            0 <= i < spec_menu_entries(context).len() && 0 <= j < spec_menu_entries(context).len()
                && is_danger(#[trigger] spec_menu_entries(context)[i]) && is_danger(#[trigger] spec_menu_entries(context)[j]) ==> i == j,
{
    let e = spec_menu_entries(context);
    assert(is_danger(e[e.len() - 1]));
}

/// The toolbar's actions (cut, copy, paste, rename, trash) never appear
/// again as rows.
pub proof fn lemma_toolbar_actions_not_repeated(context: MenuContext)
    ensures
        forall|i: int| 0 <= i < spec_menu_entries(context).len() ==> !(#[trigger] row_command(spec_menu_entries(context)[i]) matches Some(
            FileMenuCommand::Cut | FileMenuCommand::Copy | FileMenuCommand::Paste | FileMenuCommand::Rename | FileMenuCommand::Trash,
        )),
{
}

/// The extraction rows appear exactly when every selected entry is an
/// archive, and the favorite toggle exactly for a single folder, labelled by
/// whether that folder already is a favorite.
pub proof fn lemma_contextual_rows(context: MenuContext)
    ensures
        (exists|i: int| 0 <= i < spec_menu_entries(context).len()
            && #[trigger] row_command(spec_menu_entries(context)[i]) == Some(FileMenuCommand::Extract))
            <==> context.all_selected_archives,
        (exists|i: int| 0 <= i < spec_menu_entries(context).len()
            && #[trigger] row_command(spec_menu_entries(context)[i]) == Some(FileMenuCommand::ToggleFavorite))
            <==> context.favorite_eligible,
        context.favorite_eligible ==> spec_menu_entries(context)[2] == spec_action(
            FileMenuCommand::ToggleFavorite,
            if context.selected_is_favorite { "Remove from Favorites" } else { "Add to Favorites" },
            Some("Ctrl+D"),
            true,
        ),
{
    let e = spec_menu_entries(context);
    if context.all_selected_archives {
        let k = if context.favorite_eligible { 3int } else { 2int };
        assert(row_command(e[k]) == Some(FileMenuCommand::Extract));
    }
    if context.favorite_eligible {
        assert(row_command(e[2]) == Some(FileMenuCommand::ToggleFavorite));
    }
}

/// The file action menu: a toolbar of common actions, rows of further
/// actions, and possibly the "Open with" submenu.
#[derive(Clone, Debug)]
pub struct ActionMenuState<P> {
    pub placement: ActionMenuPlacement<P>,
    pub toolbar_actions: Vec<MenuToolbarAction>,
    pub entries: Vec<MenuEntry>,
    pub focused: Option<MenuFocusTarget>,
    pub open_with_submenu: Option<OpenWithSubmenuState>,
    pub animation: MenuAnimationState,
    pub serial: u64,
}

/// Focus targets in one row: the toolbar buttons, then the menu rows.
pub open spec fn focus_flags(toolbar: Seq<MenuToolbarAction>, entries: Seq<MenuEntry>) -> Seq<bool> {
    toolbar.map_values(|a: MenuToolbarAction| a.enabled) + entries.map_values(|e: MenuEntry| spec_is_selectable(e))
}

/// The focus target at place `c` of the combined row.
pub open spec fn target_at(toolbar_len: nat, c: int) -> MenuFocusTarget {
    if c < toolbar_len { MenuFocusTarget::Toolbar(c as usize) } else { MenuFocusTarget::Entry((c - toolbar_len) as usize) }
}

/// The place of a focus target in the combined row, if it names an existing item.
pub open spec fn place_of(toolbar_len: nat, entries_len: nat, target: MenuFocusTarget) -> Option<usize> {
    match target {
        MenuFocusTarget::Toolbar(i) => if i < toolbar_len { Some(i) } else { None },
        MenuFocusTarget::Entry(j) => if j < entries_len { Some((toolbar_len + j) as usize) } else { None },
    }
}

pub open spec fn map_place(toolbar_len: nat, place: Option<usize>) -> Option<MenuFocusTarget> {
    match place {
        Some(c) => Some(target_at(toolbar_len, c as int)),
        None => None,
    }
}

impl<P> ActionMenuState<P> {
    pub open spec fn flags(&self) -> Seq<bool> {
        focus_flags(self.toolbar_actions@, self.entries@)
    }

    pub open spec fn current_place(&self) -> Option<usize> {
        match self.focused {
            Some(t) => place_of(self.toolbar_actions@.len(), self.entries@.len(), t),
            None => None,
        }
    }

    /// Where focus moves in the menu itself (no submenu open).
    pub open spec fn spec_moved(&self, backwards: bool) -> Option<MenuFocusTarget> {
        map_place(self.toolbar_actions@.len(), spec_move_focus(self.flags(), self.current_place(), backwards))
    }

    pub open spec fn bounded(&self) -> bool {
        self.toolbar_actions@.len() + self.entries@.len() <= usize::MAX
    }

    pub fn new(placement: ActionMenuPlacement<P>, context: MenuContext, serial: u64) -> (menu: Self)
        ensures
            menu.placement == placement,
            menu.toolbar_actions@ == spec_toolbar(context),
            menu.entries@ == spec_contextual_entries(spec_base_entries(context), context, true),
            menu.focused == map_place(menu.toolbar_actions@.len(), spec_first_enabled(menu.flags())),
            menu.open_with_submenu is None,
            menu.animation == MenuAnimationState::Opening,
            menu.serial == serial,
            menu.bounded(),
    {
        let has_selection = context.selected_count > 0;
        let single_selection = context.selected_count == 1;
        let writes_enabled = true;
        let mut toolbar_actions: Vec<MenuToolbarAction> = Vec::new();
        toolbar_actions.push(toolbar_action(FileMenuCommand::Cut, "Cut", has_selection));
        toolbar_actions.push(toolbar_action(FileMenuCommand::Copy, "Copy", has_selection));
        toolbar_actions.push(
            toolbar_action(FileMenuCommand::Paste, "Paste", context.clipboard_valid && writes_enabled),
        );
        toolbar_actions.push(
            toolbar_action(
                FileMenuCommand::Rename,
                if context.selected_count > 1 {
                    "Bulk rename"
                } else {
                    "Rename"
                },
                has_selection && writes_enabled,
            ),
        );
        toolbar_actions.push(
            toolbar_action(FileMenuCommand::Trash, "Move to Trash", has_selection && writes_enabled),
        );
        let mut entries: Vec<MenuEntry> = Vec::new();
        entries.push(action(FileMenuCommand::Open, "Open", Some("Enter"), single_selection));
        entries.push(submenu(FileMenuSubmenu::OpenWith, "Open with", context.open_with_eligible));
        entries.push(MenuEntry::Separator);
        entries.push(
            action(FileMenuCommand::CreateSymlink, "New symlink", Some("Ctrl+Shift+L"), writes_enabled),
        );
        entries.push(MenuEntry::Separator);
        entries.push(
            action(FileMenuCommand::CopyPathAbsolute, "Copy absolute path", Some("Ctrl+Shift+C"), has_selection),
        );
        entries.push(
            action(FileMenuCommand::CopyPathRelative, "Copy relative path", Some("Ctrl+Alt+C"), has_selection),
        );
        entries.push(
            action(
                FileMenuCommand::Permissions,
                "Properties",
                Some("Alt+Enter"),
                context.permissions_supported && writes_enabled,
            ),
        );
        entries.push(MenuEntry::Separator);
        entries.push(
            dangerous_action(
                FileMenuCommand::DeletePermanently,
                "Delete Permanently",
                Some("Shift+Delete"),
                has_selection && writes_enabled,
            ),
        );
        assert(toolbar_actions@ =~= spec_toolbar(context));
        assert(entries@ =~= spec_base_entries(context));
        add_contextual_actions(&mut entries, context, writes_enabled);
        let mut state = ActionMenuState {
            placement,
            toolbar_actions,
            entries,
            focused: None,
            open_with_submenu: None,
            animation: MenuAnimationState::Opening,
            serial,
        };
        state.focus_first();
        state
    }

    /// The enabled flags of the combined row, toolbar first.
    fn focus_flag_vec(&self) -> (flags: Vec<bool>)
        ensures
            flags@ == self.flags(),
    {
        let mut flags: Vec<bool> = Vec::new();
        let mut i: usize = 0;
        while i < self.toolbar_actions.len()
            invariant
                i <= self.toolbar_actions@.len(),
                flags@ == self.toolbar_actions@.take(i as int).map_values(|a: MenuToolbarAction| a.enabled),
            decreases self.toolbar_actions@.len() - i,
        {
            flags.push(self.toolbar_actions[i].enabled);
            i += 1;
            assert(flags@ =~= self.toolbar_actions@.take(i as int).map_values(|a: MenuToolbarAction| a.enabled));
        }
        assert(self.toolbar_actions@.take(i as int) =~= self.toolbar_actions@);
        let ghost toolbar_flags = flags@;
        let mut j: usize = 0;
        while j < self.entries.len()
            invariant
                j <= self.entries@.len(),
                toolbar_flags == self.toolbar_actions@.map_values(|a: MenuToolbarAction| a.enabled),
                flags@ == toolbar_flags + self.entries@.take(j as int).map_values(|e: MenuEntry| spec_is_selectable(e)),
            decreases self.entries@.len() - j,
        {
            let selectable = is_selectable(&self.entries[j]);
            flags.push(selectable);
            j += 1;
            assert(flags@ =~= toolbar_flags + self.entries@.take(j as int).map_values(|e: MenuEntry| spec_is_selectable(e)));
        }
        assert(self.entries@.take(j as int) =~= self.entries@);
        flags
    }

    fn place_of_target(&self, target: MenuFocusTarget) -> (place: Option<usize>)
        requires
            self.bounded(),
        ensures
            place == place_of(self.toolbar_actions@.len(), self.entries@.len(), target),
    {
        match target {
            MenuFocusTarget::Toolbar(i) => if i < self.toolbar_actions.len() {
                Some(i)
            } else {
                None
            },
            MenuFocusTarget::Entry(j) => if j < self.entries.len() {
                Some(self.toolbar_actions.len() + j)
            } else {
                None
            },
        }
    }

    fn target_at_place(&self, place: Option<usize>) -> (target: Option<MenuFocusTarget>)
        ensures
            target == map_place(self.toolbar_actions@.len(), place),
    {
        match place {
            Some(c) => if c < self.toolbar_actions.len() {
                Some(MenuFocusTarget::Toolbar(c))
            } else {
                Some(MenuFocusTarget::Entry(c - self.toolbar_actions.len()))
            },
            None => None,
        }
    }

    /// The focus targets in keyboard order: enabled toolbar buttons, then
    /// selectable rows.
    pub fn selectable_targets(&self) -> (targets: Vec<MenuFocusTarget>)
        ensures
            targets@ == enabled_positions(self.flags()).map_values(
                |c: int| target_at(self.toolbar_actions@.len(), c),
            ),
    {
        let flags = self.focus_flag_vec();
        let positions = crate::focus::collect_enabled(&flags);
        let mut targets: Vec<MenuFocusTarget> = Vec::new();
        let mut k: usize = 0;
        while k < positions.len()
            invariant
                k <= positions@.len(),
                flags@ == self.flags(),
                positions@.len() == enabled_positions(flags@).len(),
                forall|m: int| 0 <= m < positions@.len() ==> positions@[m] as int == enabled_positions(flags@)[m],
                targets@ == enabled_positions(flags@).take(k as int).map_values(
                    |c: int| target_at(self.toolbar_actions@.len(), c),
                ),
            decreases positions@.len() - k,
        {
            let target = self.target_at_place(Some(positions[k]));
            targets.push(target.unwrap());
            k += 1;
            assert(targets@ =~= enabled_positions(flags@).take(k as int).map_values(
                |c: int| target_at(self.toolbar_actions@.len(), c),
            ));
        }
        assert(enabled_positions(flags@).take(k as int) =~= enabled_positions(flags@));
        targets
    }

    /// Moves keyboard focus one step, inside the "Open with" submenu when it is
    /// open, else among the toolbar buttons and rows.
    pub fn move_focus(&mut self, direction: isize)
        requires
            old(self).bounded(),
            old(self).open_with_submenu matches Some(s) ==> s.applications.len() < usize::MAX,
        ensures
            final(self).toolbar_actions == old(self).toolbar_actions,
            final(self).entries == old(self).entries,
            final(self).placement == old(self).placement,
            final(self).serial == old(self).serial,
            final(self).animation == old(self).animation,
            match old(self).open_with_submenu {
                Some(s) => {
                    &&& final(self).focused == old(self).focused
                    &&& final(self).open_with_submenu matches Some(t)
                    &&& t.focused == spec_submenu_move(s.applications@.len(), s.focused, direction < 0)
                    &&& t.applications == s.applications
                    &&& t.path == s.path
                    &&& t.mime_type == s.mime_type
                    &&& t.loading == s.loading
                    &&& t.error == s.error
                },
                None => {
                    &&& final(self).open_with_submenu is None
                    &&& final(self).focused == old(self).spec_moved(direction < 0)
                },
            },
    {
        if let Some(submenu) = self.open_with_submenu.as_mut() {
            submenu.move_focus(direction);
            return;
        }
        let flags = self.focus_flag_vec();
        let current = match self.focused {
            Some(t) => self.place_of_target(t),
            None => None,
        };
        let next = next_focus(&flags, current, direction < 0);
        self.focused = self.target_at_place(next);
    }

    pub fn focus_first(&mut self)
        ensures
            final(self).toolbar_actions == old(self).toolbar_actions,
            final(self).entries == old(self).entries,
            final(self).placement == old(self).placement,
            final(self).serial == old(self).serial,
            final(self).animation == old(self).animation,
            match old(self).open_with_submenu {
                Some(s) => {
                    &&& final(self).focused == old(self).focused
                    &&& final(self).open_with_submenu == Some(OpenWithSubmenuState { focused: Some(0usize), ..s })
                },
                None => {
                    &&& final(self).open_with_submenu is None
                    &&& final(self).focused == map_place(
                        old(self).toolbar_actions@.len(),
                        spec_first_enabled(old(self).flags()),
                    )
                },
            },
    {
        if let Some(submenu) = self.open_with_submenu.as_mut() {
            submenu.focused = Some(0);
            return;
        }
        let flags = self.focus_flag_vec();
        let first = first_enabled(&flags);
        self.focused = self.target_at_place(first);
    }

    pub fn focus_last(&mut self)
        ensures
            final(self).toolbar_actions == old(self).toolbar_actions,
            final(self).entries == old(self).entries,
            final(self).placement == old(self).placement,
            final(self).serial == old(self).serial,
            final(self).animation == old(self).animation,
            match old(self).open_with_submenu {
                Some(s) => {
                    &&& final(self).focused == old(self).focused
                    &&& final(self).open_with_submenu == Some(
                        OpenWithSubmenuState { focused: Some(s.applications@.len() as usize), ..s },
                    )
                },
                None => {
                    &&& final(self).open_with_submenu is None
                    &&& final(self).focused == map_place(
                        old(self).toolbar_actions@.len(),
                        spec_last_enabled(old(self).flags()),
                    )
                },
            },
    {
        if let Some(submenu) = self.open_with_submenu.as_mut() {
            submenu.focused = Some(submenu.applications.len());
            return;
        }
        let flags = self.focus_flag_vec();
        let last = last_enabled(&flags);
        self.focused = self.target_at_place(last);
    }

    /// Focuses row `index` when it is selectable; a row without a submenu
    /// closes the submenu.
    pub fn focus_entry(&mut self, index: usize)
        ensures
            final(self).toolbar_actions == old(self).toolbar_actions,
            final(self).entries == old(self).entries,
            final(self).placement == old(self).placement,
            final(self).serial == old(self).serial,
            final(self).animation == old(self).animation,
            if index < old(self).entries@.len() && spec_is_selectable(old(self).entries@[index as int]) {
                &&& final(self).focused == Some(MenuFocusTarget::Entry(index))
                &&& final(self).open_with_submenu == (if spec_enabled_submenu(old(self).entries@[index as int]) is None {
                    None
                } else {
                    old(self).open_with_submenu
                })
            } else {
                &&& final(self).focused == old(self).focused
                &&& final(self).open_with_submenu == old(self).open_with_submenu
            },
    {
        if index < self.entries.len() && is_selectable(&self.entries[index]) {
            self.focused = Some(MenuFocusTarget::Entry(index));
            if self.entries[index].enabled_submenu().is_none() {
                self.close_submenu();
            }
        }
    }

    /// Focuses toolbar button `index` when it is enabled, closing the submenu.
    pub fn focus_toolbar(&mut self, index: usize)
        ensures
            final(self).toolbar_actions == old(self).toolbar_actions,
            final(self).entries == old(self).entries,
            final(self).placement == old(self).placement,
            final(self).serial == old(self).serial,
            final(self).animation == old(self).animation,
            if index < old(self).toolbar_actions@.len() && old(self).toolbar_actions@[index as int].enabled {
                &&& final(self).focused == Some(MenuFocusTarget::Toolbar(index))
                &&& final(self).open_with_submenu is None
            } else {
                &&& final(self).focused == old(self).focused
                &&& final(self).open_with_submenu == old(self).open_with_submenu
            },
    {
        if index < self.toolbar_actions.len() && self.toolbar_actions[index].enabled {
            self.focused = Some(MenuFocusTarget::Toolbar(index));
            self.close_submenu();
        }
    }

    /// What activating the focused item would do.
    pub fn focused_activation(&self) -> (activation: Option<ActionMenuActivation>)
        ensures
            activation == self.spec_focused_activation(),
    {
        if let Some(submenu) = &self.open_with_submenu {
            let focused = match submenu.focused {
                Some(f) => f,
                None => return None,
            };
            if focused < submenu.applications.len() {
                return Some(
                    ActionMenuActivation::OpenWithApplication(submenu.applications[focused].duplicate()),
                );
            }
            if focused == submenu.applications.len() {
                return Some(ActionMenuActivation::ChooseAnotherApplication);
            }
            return None;
        }
        match self.focused {
            None => None,
            Some(MenuFocusTarget::Toolbar(index)) => {
                if index < self.toolbar_actions.len() {
                    match self.toolbar_actions[index].enabled_command() {
                        Some(command) => Some(ActionMenuActivation::Command(command)),
                        None => None,
                    }
                } else {
                    None
                }
            },
            Some(MenuFocusTarget::Entry(index)) => {
                if index < self.entries.len() {
                    let entry = &self.entries[index];
                    match entry.enabled_command() {
                        Some(command) => Some(ActionMenuActivation::Command(command)),
                        None => match entry.enabled_submenu() {
                            Some(submenu) => Some(ActionMenuActivation::Submenu(submenu)),
                            None => None,
                        },
                    }
                } else {
                    None
                }
            },
        }
    }

    pub open spec fn spec_focused_activation(&self) -> Option<ActionMenuActivation> {
        match self.open_with_submenu {
            Some(submenu) => match submenu.focused {
                Some(f) => if f < submenu.applications@.len() {
                    Some(ActionMenuActivation::OpenWithApplication(submenu.applications@[f as int]))
                } else if f == submenu.applications@.len() {
                    Some(ActionMenuActivation::ChooseAnotherApplication)
                } else {
                    None
                },
                None => None,
            },
            None => match self.focused {
                None => None,
                Some(MenuFocusTarget::Toolbar(i)) => if i < self.toolbar_actions@.len() && self.toolbar_actions@[i as int].enabled {
                    Some(ActionMenuActivation::Command(self.toolbar_actions@[i as int].command))
                } else {
                    None
                },
                Some(MenuFocusTarget::Entry(j)) => if j < self.entries@.len() {
                    match spec_enabled_command(self.entries@[j as int]) {
                        Some(c) => Some(ActionMenuActivation::Command(c)),
                        None => match spec_enabled_submenu(self.entries@[j as int]) {
                            Some(s) => Some(ActionMenuActivation::Submenu(s)),
                            None => None,
                        },
                    }
                } else {
                    None
                },
            },
        }
    }

    /// The command that activating the focused item would run, if it is a command.
    pub fn focused_command(&self) -> (command: Option<FileMenuCommand>)
        ensures
            command == (match self.spec_focused_activation() {
                Some(ActionMenuActivation::Command(c)) => Some(c),
                _ => None,
            }),
    {
        match self.focused_activation() {
            Some(ActionMenuActivation::Command(command)) => Some(command),
            _ => None,
        }
    }

    /// Opens the "Open with" submenu for a file, loading its applications;
    /// asking again for the same file and type keeps the open submenu.
    pub fn open_open_with_submenu(&mut self, path: String, mime_type: String)
        ensures
            final(self).toolbar_actions == old(self).toolbar_actions,
            final(self).entries == old(self).entries,
            final(self).placement == old(self).placement,
            final(self).serial == old(self).serial,
            final(self).animation == old(self).animation,
            final(self).focused == old(self).focused,
            match old(self).open_with_submenu {
                Some(s) if s.path@ == path@ && s.mime_type@ == mime_type@ => final(self).open_with_submenu == old(self).open_with_submenu,
                _ => final(self).open_with_submenu matches Some(t) && t.path == path && t.mime_type == mime_type
                    && t.applications@.len() == 0 && t.loading && t.error is None && t.focused == Some(0usize),
            },
    {
        let same = match &self.open_with_submenu {
            Some(submenu) => submenu.path == path && submenu.mime_type == mime_type,
            None => false,
        };
        if same {
            return;
        }
        self.open_with_submenu = Some(OpenWithSubmenuState {
            path,
            mime_type,
            applications: Vec::new(),
            loading: true,
            error: None,
            focused: Some(0),
        });
    }

    /// Closes the submenu; returns whether one was open.
    pub fn close_submenu(&mut self) -> (was_open: bool)
        ensures
            was_open == old(self).open_with_submenu is Some,
            final(self).open_with_submenu is None,
            final(self).toolbar_actions == old(self).toolbar_actions,
            final(self).entries == old(self).entries,
            final(self).focused == old(self).focused,
            final(self).placement == old(self).placement,
            final(self).serial == old(self).serial,
            final(self).animation == old(self).animation,
    {
        let was_open = self.open_with_submenu.is_some();
        self.open_with_submenu = None;
        was_open
    }

    /// Fills the open submenu from a loaded catalog: its type, and up to five
    /// suggested applications, the first row focused.
    pub fn finish_open_with_submenu(&mut self, catalog: &ApplicationCatalog)
        ensures
            final(self).toolbar_actions == old(self).toolbar_actions,
            final(self).entries == old(self).entries,
            final(self).focused == old(self).focused,
            final(self).placement == old(self).placement,
            final(self).serial == old(self).serial,
            final(self).animation == old(self).animation,
            match old(self).open_with_submenu {
                Some(s) => final(self).open_with_submenu matches Some(t) && t.path == s.path && t.mime_type
                    == catalog.mime_type && t.applications@ == catalog.suggested@.take(
                    if catalog.suggested@.len() < 5 {
                        catalog.suggested@.len() as int
                    } else {
                        5
                    },
                ) && !t.loading && t.error is None && t.focused == Some(0usize),
                None => final(self).open_with_submenu is None,
            },
    {
        if let Some(submenu) = self.open_with_submenu.as_mut() {
            submenu.mime_type = copy_text(&catalog.mime_type);
            submenu.applications = first_applications(&catalog.suggested, 5);
            submenu.loading = false;
            submenu.error = None;
            submenu.focused = Some(0);
        }
    }

    /// Focuses row `index` of the open submenu (the last row chooses another
    /// application).
    pub fn focus_open_with(&mut self, index: usize)
        ensures
            final(self).toolbar_actions == old(self).toolbar_actions,
            final(self).entries == old(self).entries,
            final(self).placement == old(self).placement,
            final(self).serial == old(self).serial,
            final(self).animation == old(self).animation,
            final(self).focused == old(self).focused,
            match old(self).open_with_submenu {
                Some(s) => if index <= s.applications@.len() {
                    final(self).open_with_submenu == Some(OpenWithSubmenuState { focused: Some(index), ..s })
                } else {
                    final(self).open_with_submenu == old(self).open_with_submenu
                },
                None => final(self).open_with_submenu is None,
            },
    {
        if let Some(submenu) = self.open_with_submenu.as_mut() {
            if index <= submenu.applications.len() {
                submenu.focused = Some(index);
            }
        }
    }
}

} // verus!

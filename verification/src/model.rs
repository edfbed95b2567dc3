use vstd::prelude::*;

verus! {

/// An optional text taken by its characters.
pub open spec fn opt_text(o: Option<String>) -> Option<Seq<char>> {
    match o {
        Some(t) => Some(t@),
        None => None,
    }
}

/// What kind of filesystem object an entry is.
#[derive(Clone, Copy, Debug, PartialEq, Eq, Structural)]
pub enum FileKind {
    File,
    Directory,
    Symlink,
    Other,
}

/// The column a folder listing is sorted by.
#[derive(Clone, Copy, Debug, PartialEq, Eq, Structural)]
pub enum SortField {
    Name,
    Modified,
    Kind,
    Size,
}

/// The order of a folder listing.
#[derive(Clone, Copy, Debug, PartialEq, Eq, Structural)]
pub enum SortDirection {
    Ascending,
    Descending,
}

/// How a folder listing is sorted.
#[derive(Clone, Copy, Debug, PartialEq, Eq, Structural)]
pub struct SortSpec {
    pub field: SortField,
    pub direction: SortDirection,
}

impl Default for SortSpec {
    /// By name, in ascending order.
    fn default() -> (sort: Self)
        ensures
            sort.field == SortField::Name,
            sort.direction == SortDirection::Ascending,
    {
        SortSpec { field: SortField::Name, direction: SortDirection::Ascending }
    }
}

/// How entries are laid out: a detailed list or a grid of cards.
#[derive(Clone, Copy, Debug, PartialEq, Eq, Structural)]
pub enum FileLayout {
    Details,
    Grid,
}

/// The theme preference: follow the system, or force light or dark.
#[derive(Clone, Copy, Debug, PartialEq, Eq, Structural)]
pub enum ThemeMode {
    System,
    Light,
    Dark,
}

/// The appearance a theme is drawn in.
#[derive(Clone, Copy, Debug, PartialEq, Eq, Structural)]
pub enum ThemeAppearance {
    Light,
    Dark,
}

/// The appearance the windowing system reports for a window.
#[derive(Clone, Copy, Debug, PartialEq, Eq, Structural)]
pub enum WindowAppearance {
    Light,
    VibrantLight,
    Dark,
    VibrantDark,
}

/// Whether a menu is animating in or out.
#[derive(Clone, Copy, Debug, PartialEq, Eq, Structural)]
pub enum MenuAnimationState {
    Opening,
    Closing,
}

/// What is known about an entry once its metadata is loaded.
#[derive(Clone, Copy, Debug, PartialEq, Eq, Structural)]
pub struct FileMetadata {
    pub len: u64,
    pub child_count: Option<u64>,
    pub mode: Option<u32>,
    pub readonly: bool,
    pub symlink_target_kind: Option<FileKind>,
    pub modified_unix_ms: Option<i64>,
}

/// One entry of a folder listing; its metadata may still be loading.
#[derive(Clone, Debug, PartialEq, Eq)]
pub struct FileEntry {
    pub path: String,
    pub name: String,
    pub kind: FileKind,
    pub hidden: bool,
    pub metadata: Option<FileMetadata>,
}

/// An entry is directory-like when it is a folder or a symlink whose target is one.
pub open spec fn spec_directory_like(entry: FileEntry) -> bool {
    entry.kind == FileKind::Directory || (entry.kind == FileKind::Symlink && (match entry.metadata {
        Some(m) => m.symlink_target_kind == Some(FileKind::Directory),
        None => false,
    }))
}

impl FileEntry {
    /// A field-by-field copy of the entry.
    pub fn duplicate(&self) -> (copy: Self)
        ensures
            copy == *self,
    {
        FileEntry {
            path: self.path.clone(),
            name: self.name.clone(),
            kind: self.kind,
            hidden: self.hidden,
            metadata: self.metadata,
        }
    }

    pub fn is_directory_like(&self) -> (like: bool)
        ensures
            like == spec_directory_like(*self),
    {
        match self.kind {
            FileKind::Directory => true,
            FileKind::Symlink => match &self.metadata {
                Some(m) => m.symlink_target_kind == Some(FileKind::Directory),
                None => false,
            },
            _ => false,
        }
    }
}

/// The kind of a storage device.
#[derive(Clone, Copy, Debug, PartialEq, Eq, Structural)]
pub enum DeviceKind {
    Usb,
    SolidState,
    HardDisk,
    Other,
}

/// A storage device as listed in the sidebar.
#[derive(Clone, Debug, PartialEq, Eq)]
pub struct DeviceEntry {
    pub id: String,
    pub kind: DeviceKind,
    pub size: u64,
    pub available: Option<u64>,
    pub mount_path: Option<String>,
    pub removable: bool,
}

} // verus!

use gnil_app::assets::{asset_paths, Assets};
use gnil_app::escape::{EscapeAction, EscapeLayers, OpenSheet};
use gnil_app::favorites::{favorite_candidate, favorite_open_plan, FavoriteOpen, Favorites};
use gnil_app::labels::{
    empty_listing_message, empty_trash_message, format_bytes, grid_row_count, resolve_theme_appearance, size_label,
};
use gnil_app::model::{FileEntry, FileKind, FileMetadata, ThemeAppearance, ThemeMode};
use gnil_app::paths::{breadcrumb_segments, place_is_active, visible_breadcrumb_segments};

fn metadata() -> FileMetadata {
    FileMetadata {
        len: 0,
        child_count: None,
        mode: None,
        readonly: false,
        symlink_target_kind: None,
        modified_unix_ms: None,
    }
}

#[test]
fn places_use_exact_path_matching() {
    let home = "/home/person";
    let downloads = "/home/person/Downloads";

    assert!(place_is_active(downloads, downloads));
    assert!(!place_is_active(downloads, home));
    assert!(!place_is_active("/home/person/Downloads/subfolder", downloads));
    assert!(place_is_active(home, home));
}

#[test]
fn size_column_uses_item_count_for_folders_and_bytes_for_files() {
    let folder = FileEntry {
        path: "/tmp/folder".into(),
        name: "folder".to_owned(),
        kind: FileKind::Directory,
        hidden: false,
        metadata: Some(FileMetadata { child_count: Some(12), ..metadata() }),
    };
    let file = FileEntry {
        path: "/tmp/file".into(),
        name: "file".to_owned(),
        kind: FileKind::File,
        hidden: false,
        metadata: Some(FileMetadata { len: 128 * 1024, ..metadata() }),
    };

    assert_eq!(size_label(&folder), "12 items");
    assert_eq!(size_label(&file), "128 KB");
    assert_eq!(format_bytes(4 * 1024 * 1024 + (1024 * 1024 / 5)), "4.2 MB");
}

#[test]
fn breadcrumb_segments_keep_each_ancestor_target() {
    assert_eq!(
        breadcrumb_segments("/home/person/Documents"),
        vec![
            ("/".to_owned(), "/".to_owned()),
            ("home".to_owned(), "/home".to_owned()),
            ("person".to_owned(), "/home/person".to_owned()),
            ("Documents".to_owned(), "/home/person/Documents".to_owned()),
        ]
    );
}

#[test]
fn long_breadcrumbs_keep_root_and_nearest_ancestors() {
    assert_eq!(
        visible_breadcrumb_segments("/home/person/Projects/gnil-fm/crates"),
        vec![
            (0, "/".to_owned(), Some("/".to_owned())),
            (usize::MAX, "…".to_owned(), None),
            (4, "gnil-fm".to_owned(), Some("/home/person/Projects/gnil-fm".to_owned())),
            (5, "crates".to_owned(), Some("/home/person/Projects/gnil-fm/crates".to_owned())),
        ]
    );
}

#[test]
fn explicit_theme_mode_overrides_system_appearance() {
    assert_eq!(resolve_theme_appearance(ThemeMode::System, ThemeAppearance::Light), ThemeAppearance::Light);
    assert_eq!(resolve_theme_appearance(ThemeMode::Dark, ThemeAppearance::Light), ThemeAppearance::Dark);
    assert_eq!(resolve_theme_appearance(ThemeMode::Light, ThemeAppearance::Dark), ThemeAppearance::Light);
}

#[test]
fn registry_lists_every_embedded_icon() {
    let listed = Assets.list("icons");
    let embedded = asset_paths().iter().filter(|path| path.starts_with("icons/")).count();
    assert_eq!(listed.len(), embedded);
}

#[test]
fn asset_listing_strips_the_folder() {
    let brand = Assets.list("brand");
    assert_eq!(brand, vec!["gnil-fm.svg".to_owned()]);
    assert!(Assets.list("icons").contains(&"trash.svg".to_owned()));
    assert!(Assets.list("missing").is_empty());
}

#[test]
fn escape_cancels_rename_before_other_active_layers() {
    let mut layers = EscapeLayers {
        sheet: Some(OpenSheet::Rename),
        file_search_open: true,
        settings_open: true,
        menu_open: false,
        has_selection: true,
    };
    assert_eq!(layers.handle_escape(), EscapeAction::DismissSheet);
    assert!(layers.sheet.is_none() && layers.file_search_open && layers.settings_open && layers.has_selection);
}

#[test]
fn escape_closes_one_layer_then_clears_selection() {
    let mut layers = EscapeLayers {
        sheet: Some(OpenSheet::Other),
        file_search_open: true,
        settings_open: true,
        menu_open: false,
        has_selection: true,
    };
    assert_eq!(layers.handle_escape(), EscapeAction::DismissFileSearch);
    assert!(!layers.file_search_open && layers.settings_open && layers.sheet.is_some() && layers.has_selection);

    assert_eq!(layers.handle_escape(), EscapeAction::DismissSettings);
    assert!(!layers.settings_open);
    assert!(layers.sheet.is_some());

    assert_eq!(layers.handle_escape(), EscapeAction::DismissSheet);
    assert!(layers.sheet.is_none());
    assert!(layers.has_selection);

    assert_eq!(layers.handle_escape(), EscapeAction::ClearSelection);
    assert!(!layers.has_selection);

    assert_eq!(layers.handle_escape(), EscapeAction::Nothing);
    assert!(!layers.has_selection);
}

#[test]
fn escape_closes_menus_before_the_selection() {
    let mut layers = EscapeLayers {
        sheet: None,
        file_search_open: false,
        settings_open: false,
        menu_open: true,
        has_selection: true,
    };
    assert_eq!(layers.handle_escape(), EscapeAction::DismissMenu);
    assert_eq!(layers.handle_escape(), EscapeAction::ClearSelection);
}

#[test]
fn favorites_toggle_and_keep_drag_reorder() {
    let mut favorites = Favorites { paths: Vec::new() };
    assert_eq!(favorites.toggle_favorite_path("/tmp/x/first".into()), "Added to Favorites");
    favorites.toggle_favorite_path("/tmp/x/second".into());
    assert!(favorites.reorder_favorite_path("/tmp/x/first", 1));
    assert_eq!(favorites.paths, vec!["/tmp/x/second".to_owned(), "/tmp/x/first".to_owned()]);
}

#[test]
fn unavailable_favorite_prompts_before_removal() {
    let mut favorites = Favorites { paths: vec!["/tmp/x/moved-folder".into()] };
    match favorite_open_plan("/tmp/x/moved-folder", false) {
        FavoriteOpen::AskRemove { message, detail, confirm_label, cancel_label } => {
            assert_eq!(message, "Remove this unavailable favorite?");
            assert_eq!(detail, "/tmp/x/moved-folder");
            assert_eq!((confirm_label.as_str(), cancel_label.as_str()), ("Remove from Favorites", "Keep"));
        }
        FavoriteOpen::Navigate => panic!("the folder is gone"),
    }
    assert_eq!(favorites.remove_favorite_path("/tmp/x/moved-folder"), Some("Removed unavailable favorite".to_owned()));
    assert!(favorites.paths.is_empty());
    assert_eq!(favorites.remove_favorite_path("/tmp/x/moved-folder"), None);
}

#[test]
fn toggling_a_pinned_favorite_unpins_it() {
    let mut favorites = Favorites { paths: vec!["/a".into(), "/b".into()] };
    assert_eq!(favorites.toggle_favorite_path("/a/".into()), "Removed from Favorites");
    assert_eq!(favorites.paths, vec!["/b".to_owned()]);
    favorites.toggle_favorite_path("/c".into());
    favorites.toggle_favorite_path("/c".into());
    assert_eq!(favorites.paths, vec!["/b".to_owned()]);
}

#[test]
fn reordering_past_the_end_moves_to_the_end_and_unknown_paths_do_nothing() {
    let mut favorites = Favorites { paths: vec!["/a".into(), "/b".into(), "/c".into()] };
    assert!(favorites.reorder_favorite_path("/a", 10));
    assert_eq!(favorites.paths, vec!["/b".to_owned(), "/c".to_owned(), "/a".to_owned()]);
    assert!(!favorites.reorder_favorite_path("/z", 0));
    assert!(!favorites.reorder_favorite_path("/b", 0));
    assert_eq!(favorites.paths, vec!["/b".to_owned(), "/c".to_owned(), "/a".to_owned()]);
}

#[test]
fn empty_listings_say_why_they_are_empty() {
    assert_eq!(empty_listing_message(true, true), ("Opening folder…", ""));
    assert_eq!(empty_listing_message(false, true), ("Could not read this folder", ""));
    assert_eq!(empty_listing_message(false, false), ("This folder is quiet", "Drop or create a file to get started."));
    assert_eq!(empty_trash_message(true).0, "Reading Trash…");
    assert_eq!(empty_trash_message(false), ("Trash is empty", "Deleted items from available devices appear together here."));
}

#[test]
fn grid_rows_round_up() {
    assert_eq!(grid_row_count(0, 3), 0);
    assert_eq!(grid_row_count(6, 3), 2);
    assert_eq!(grid_row_count(7, 3), 3);
    assert_eq!(grid_row_count(5, 1), 5);
    assert_eq!(grid_row_count(usize::MAX, 2), usize::MAX / 2 + 1);
}

#[test]
fn only_one_selected_folder_can_be_pinned() {
    let folder = FileEntry { path: "/d/sub".into(), name: "sub".into(), kind: FileKind::Directory, hidden: false, metadata: None };
    let file = FileEntry { path: "/d/a.txt".into(), name: "a.txt".into(), kind: FileKind::File, hidden: false, metadata: None };
    let entries = vec![file, folder];
    assert_eq!(favorite_candidate(&vec!["/d/sub/".to_string()], &entries).as_deref(), Some("/d/sub"));
    assert_eq!(favorite_candidate(&vec!["/d/a.txt".to_string()], &entries), None);
    assert_eq!(favorite_candidate(&vec!["/d/sub".to_string(), "/d/a.txt".to_string()], &entries), None);
    assert!(matches!(favorite_open_plan("/d/sub", true), FavoriteOpen::Navigate));
}

use gnil_app::clipboard::{clipboard_from_text, text_lines, ClipboardText, FileClipboardMode};
use gnil_app::files::{
    open_target, OpenTarget, deletion_label, file_icon_asset, modified_label, stable_path_id, trash_entry_as_file_entry, TrashEntry,
};
use gnil_app::model::{FileEntry, FileKind, FileMetadata};
use gnil_app::text::{replace_all_text, to_ascii_lowercase, trim, trim_start_matches};

fn metadata() -> FileMetadata {
    FileMetadata { len: 0, child_count: None, mode: None, readonly: false, symlink_target_kind: None, modified_unix_ms: None }
}

fn entry(path: &str, kind: FileKind, metadata: Option<FileMetadata>) -> FileEntry {
    FileEntry { path: path.into(), name: path.rsplit('/').next().unwrap().into(), kind, hidden: false, metadata }
}

#[test]
fn icons_follow_kind_and_extension_in_any_case() {
    assert_eq!(file_icon_asset(&entry("/d/main.RS", FileKind::File, None)), "icons/file-code.svg");
    assert_eq!(file_icon_asset(&entry("/d/notes.md", FileKind::File, None)), "icons/file-text.svg");
    assert_eq!(file_icon_asset(&entry("/d/photo.JPeG", FileKind::File, None)), "icons/file-image.svg");
    assert_eq!(file_icon_asset(&entry("/d/a.tar.gz", FileKind::File, None)), "icons/file-archive.svg");
    assert_eq!(file_icon_asset(&entry("/d/.bashrc", FileKind::File, None)), "icons/file-generic.svg");
    assert_eq!(file_icon_asset(&entry("/d/Makefile", FileKind::File, None)), "icons/file-generic.svg");
    assert_eq!(file_icon_asset(&entry("/d/film.mkv", FileKind::Symlink, None)), "icons/file-media.svg");
    assert_eq!(file_icon_asset(&entry("/d/x", FileKind::Other, None)), "icons/file-generic.svg");
}

#[test]
fn folder_icons_show_read_only_and_symlinked_folders() {
    let readonly = FileMetadata { readonly: true, ..metadata() };
    assert_eq!(file_icon_asset(&entry("/d/f", FileKind::Directory, Some(readonly))), "icons/folder-readonly.svg");
    assert_eq!(file_icon_asset(&entry("/d/f", FileKind::Directory, Some(metadata()))), "icons/folder-closed.svg");
    let to_folder = FileMetadata { symlink_target_kind: Some(FileKind::Directory), ..metadata() };
    assert_eq!(file_icon_asset(&entry("/d/l", FileKind::Symlink, Some(to_folder))), "icons/folder-symlink.svg");
}

#[test]
fn entry_extensions_follow_path_rules() {
    assert_eq!(entry("/d/a.tar.gz", FileKind::File, None).extension().as_deref(), Some("gz"));
    assert_eq!(entry("/d/.profile", FileKind::File, None).extension(), None);
    assert_eq!(entry("/d/name.", FileKind::File, None).extension().as_deref(), Some(""));
    assert_eq!(entry("/d/..", FileKind::File, None).extension(), None);
}

#[test]
fn trash_entries_show_their_size_and_info_file() {
    let trash = TrashEntry {
        name: "old.txt".into(),
        kind: FileKind::File,
        len: 42,
        info_path: "/home/p/.local/share/Trash/info/old.txt.trashinfo".into(),
        original_path: "/home/p/old.txt".into(),
    };
    let file = trash_entry_as_file_entry(&trash);
    assert_eq!(file.path, trash.info_path);
    assert_eq!(file.name, "old.txt");
    assert!(!file.hidden);
    assert_eq!(file.metadata, Some(FileMetadata { len: 42, ..metadata() }));
}

#[test]
fn stable_path_ids_repeat_for_equal_paths() {
    assert_eq!(stable_path_id("/tmp/a"), stable_path_id("/tmp/a"));
    assert_ne!(stable_path_id("/tmp/a"), stable_path_id("/tmp/b"));
    assert_eq!(stable_path_id("/tmp//a"), stable_path_id("/tmp/a"));
}

#[test]
fn dates_fall_back_when_unknown_or_out_of_range() {
    assert_eq!(deletion_label(i64::MAX), "Unknown");
    assert_ne!(deletion_label(0), "Unknown");
    assert!(deletion_label(1431648000).contains("2015"));
    let noon = deletion_label(1431648000 + 43200);
    assert!(noon.starts_with("May 1"), "{noon}");
    assert!(noon.contains(", 2015 "), "{noon}");
    let unknown = entry("/d/a", FileKind::File, Some(metadata()));
    assert_eq!(modified_label(&unknown), "—");
    assert_eq!(modified_label(&entry("/d/a", FileKind::File, None)), "—");
    let far = entry("/d/a", FileKind::File, Some(FileMetadata { modified_unix_ms: Some(i64::MIN), ..metadata() }));
    assert_eq!(modified_label(&far), "—");
    let known = entry("/d/a", FileKind::File, Some(FileMetadata { modified_unix_ms: Some(1431648000000), ..metadata() }));
    assert_ne!(modified_label(&known), "—");
    let noon = entry("/d/a", FileKind::File, Some(FileMetadata { modified_unix_ms: Some(1431691200000), ..metadata() }));
    let label = modified_label(&noon);
    assert!(label.starts_with("May 1"), "{label}");
    assert!(!label.contains(", 2015"), "{label}");
}

#[test]
fn pasted_text_is_read_by_its_shape() {
    assert!(matches!(clipboard_from_text("   "), ClipboardText::NoFiles));
    match clipboard_from_text(" copy\nfile:///tmp/a\n") {
        ClipboardText::GnomeFiles(text) => assert_eq!(text, "copy\nfile:///tmp/a"),
        _ => panic!("expected the GNOME Files format"),
    }
    match clipboard_from_text("file:///tmp/a\n\n  file:///tmp/b  \n") {
        ClipboardText::UriList(text) => assert_eq!(text, "file:///tmp/a\n\n  file:///tmp/b"),
        _ => panic!("expected a URI list"),
    }
    match clipboard_from_text("/tmp/a\r\n  /tmp/b \n") {
        ClipboardText::Paths(clipboard) => {
            assert_eq!(clipboard.mode, FileClipboardMode::Copy);
            assert_eq!(clipboard.paths, vec!["/tmp/a".to_owned(), "/tmp/b".to_owned()]);
        },
        _ => panic!("expected paths"),
    }
    assert!(matches!(clipboard_from_text("/tmp/a\nrelative"), ClipboardText::NoFiles));
    assert!(matches!(clipboard_from_text("hello"), ClipboardText::NoFiles));
}

#[test]
fn lines_are_trimmed_and_blank_ones_dropped() {
    assert_eq!(text_lines(" a \n\n b\r\n"), vec!["a".to_owned(), "b".to_owned()]);
    assert!(text_lines("").is_empty());
}

#[test]
fn text_helpers_match_their_std_counterparts() {
    assert_eq!(trim("\t a b \n"), "a b");
    assert_eq!(to_ascii_lowercase("MiXeD Ä"), "mixed Ä");
    assert_eq!(trim_start_matches("0o0o17", "0o"), "17");
    assert_eq!(replace_all_text("aaaa", "aa", "b"), "bb");
    assert_eq!(replace_all_text("a-b-c", "-", "+"), "a+b+c");
}

#[test]
fn folders_and_links_to_folders_open_in_place_and_files_launch() {
    let folder = entry("/d/f", FileKind::Directory, None);
    assert!(matches!(open_target(&folder), OpenTarget::Navigate(p) if p == "/d/f"));
    let to_folder = FileMetadata { symlink_target_kind: Some(FileKind::Directory), ..metadata() };
    let link = entry("/d/l", FileKind::Symlink, Some(to_folder));
    assert!(matches!(open_target(&link), OpenTarget::Navigate(p) if p == "/d/l"));
    let dangling = entry("/d/x", FileKind::Symlink, None);
    assert!(matches!(open_target(&dangling), OpenTarget::Launch(p) if p == "/d/x"));
    let file = entry("/d/a.txt", FileKind::File, None);
    assert!(matches!(open_target(&file), OpenTarget::Launch(p) if p == "/d/a.txt"));
}

#[test]
fn entries_are_found_again_by_path_after_sorting() {
    let entries = vec![
        entry("/d/b", FileKind::File, None),
        entry("/d/a", FileKind::File, None),
        entry("/d/a", FileKind::Directory, None),
    ];
    assert_eq!(gnil_app::files::entry_index(&entries, "/d/a/"), Some(1));
    assert_eq!(gnil_app::files::entry_index(&entries, "/d/b"), Some(0));
    assert_eq!(gnil_app::files::entry_index(&entries, "/d/c"), None);
}

#[test]
fn every_file_icon_is_a_built_in_asset() {
    let assets = gnil_app::assets::asset_paths();
    let mut readonly = metadata();
    readonly.readonly = true;
    let entries = vec![
        entry("/d/main.rs", FileKind::File, None),
        entry("/d/a.unknown", FileKind::File, None),
        entry("/d/f", FileKind::Directory, Some(readonly)),
        entry("/d/f", FileKind::Directory, None),
        entry("/d/x", FileKind::Other, None),
        entry("/d/song.FLAC", FileKind::Symlink, None),
    ];
    for e in &entries {
        assert!(assets.contains(&file_icon_asset(e)), "{}", e.path);
    }
}

use gnil_app::files::TrashEntry;
use gnil_app::model::{FileEntry, FileKind, FileMetadata};
use gnil_app::ops::{CreateEntryKind, FsOperation, OperationSheet, RenamePair, RenameScope};
use gnil_app::sheets::{
    bit_marker, folder_properties_sheet, inline_rename_operation, inline_rename_target, paths_text, permissions_sheet,
    property_rows, rename_rows, rename_start, sheet_heading, trash_paths_text, BitMarker, RenameStart,
    create_entry_sheet, extract_here, extract_to_sheet, symlink_sheet, SheetHost,
};
use gnil_app::search::DismissStep;

fn metadata(mode: Option<u32>) -> FileMetadata {
    FileMetadata { len: 0, child_count: None, mode, readonly: false, symlink_target_kind: None, modified_unix_ms: None }
}

fn entry(path: &str, kind: FileKind, mode: Option<u32>) -> FileEntry {
    FileEntry { path: path.into(), name: path.rsplit('/').next().unwrap().into(), kind, hidden: false, metadata: Some(metadata(mode)) }
}

fn trash(info: &str, original: &str) -> TrashEntry {
    TrashEntry { name: "x".into(), kind: FileKind::File, len: 0, info_path: info.into(), original_path: original.into() }
}

#[test]
fn trashed_items_copy_their_original_paths() {
    let entries = vec![trash("/t/info/a", "/home/a"), trash("/t/info/b", "/home/b"), trash("/t/info/c", "/home/c")];
    let copied = trash_paths_text(&entries, &vec!["/t/info/c".into(), "/t/info/a".into()]);
    assert_eq!(copied, Some(("/home/a\n/home/c".to_owned(), "Copied 2 original paths".to_owned())));
    let one = trash_paths_text(&entries, &vec!["/t/info/b".into()]);
    assert_eq!(one, Some(("/home/b".to_owned(), "Copied 1 original path".to_owned())));
    assert_eq!(trash_paths_text(&entries, &vec!["/elsewhere".into()]), None);
}

#[test]
fn copied_paths_are_relative_or_absolute() {
    let paths = vec!["/home/p/docs/a.txt".to_owned(), "/home/p/b".to_owned()];
    assert_eq!(
        paths_text(&paths, "/home/p", true, &Ok("/".into())),
        Some(Ok(("docs/a.txt\nb".to_owned(), "Copied 2 relative paths".to_owned())))
    );
    assert_eq!(
        paths_text(&paths[..1].to_vec(), "/srv", true, &Ok("/".into())),
        Some(Ok(("/home/p/docs/a.txt".to_owned(), "Copied 1 relative path".to_owned())))
    );
    assert_eq!(
        paths_text(&vec!["/home/p/./a".to_owned()], "/home/p", false, &Ok("/".into())),
        Some(Ok(("/home/p/a".to_owned(), "Copied 1 path".to_owned())))
    );
    assert_eq!(
        paths_text(&vec!["rel".to_owned()], "/home/p", false, &Err("no cwd".into())),
        Some(Err("no cwd".to_owned()))
    );
    assert_eq!(paths_text(&Vec::new(), "/", false, &Ok("/".into())), None);
}

#[test]
fn permission_sheet_skips_symlinks_and_shows_a_shared_mode() {
    let selected = vec![
        entry("/d/a", FileKind::File, Some(0o100644)),
        entry("/d/link", FileKind::Symlink, Some(0o777)),
        entry("/d/b", FileKind::Directory, Some(0o40644)),
        entry("/d/unknown", FileKind::File, None),
    ];
    let (sheet, note) = permissions_sheet(&selected).expect("sheet");
    match sheet {
        OperationSheet::Permissions { paths, original_modes, current_modes, octal } => {
            assert_eq!(paths, vec!["/d/a".to_owned(), "/d/b".to_owned()]);
            assert_eq!(original_modes, vec![0o644, 0o644]);
            assert_eq!(current_modes, original_modes);
            assert_eq!(octal, "0644");
        },
        _ => panic!("expected the permission sheet"),
    }
    assert_eq!(note.as_deref(), Some("Excluded 1 symlink from chmod"));
    let mixed = vec![entry("/d/a", FileKind::File, Some(0o600)), entry("/d/b", FileKind::File, Some(0o4755))];
    match permissions_sheet(&mixed).expect("sheet").0 {
        OperationSheet::Permissions { octal, current_modes, .. } => {
            assert_eq!(octal, "");
            assert_eq!(current_modes, vec![0o600, 0o4755]);
        },
        _ => panic!("expected the permission sheet"),
    }
    let links = vec![entry("/d/l1", FileKind::Symlink, Some(0o777)), entry("/d/l2", FileKind::Symlink, None)];
    assert_eq!(permissions_sheet(&links).err().as_deref(), Some("Select at least one non-symlink item"));
}

#[test]
fn renaming_one_item_selects_its_stem() {
    let entries = vec![entry("/d/report.final.txt", FileKind::File, None), entry("/d/photos.d", FileKind::Directory, None)];
    match rename_start(&vec!["/d/report.final.txt".into()], &entries) {
        Some(RenameStart::Inline { path, name, selected }) => {
            assert_eq!(path, "/d/report.final.txt");
            assert_eq!(name, "report.final.txt");
            assert_eq!(selected, "report.final");
        },
        _ => panic!("expected an inline rename"),
    }
    match rename_start(&vec!["/d/photos.d".into()], &entries) {
        Some(RenameStart::Inline { selected, .. }) => assert_eq!(selected, "photos.d"),
        _ => panic!("expected an inline rename"),
    }
    assert!(matches!(rename_start(&vec!["/".into()], &entries), Some(RenameStart::Invalid(_))));
    assert!(rename_start(&Vec::new(), &entries).is_none());
}

#[test]
fn renaming_several_items_opens_the_bulk_sheet() {
    match rename_start(&vec!["/d/a".into(), "/d/b".into()], &Vec::new()) {
        Some(RenameStart::Bulk(sheet)) => {
            assert_eq!(sheet.paths, vec!["/d/a".to_owned(), "/d/b".to_owned()]);
            assert_eq!((sheet.start.as_str(), sheet.padding.as_str()), ("1", "2"));
            assert!(!sheet.regex && !sheet.numbering && sheet.scope == RenameScope::Stem);
        },
        _ => panic!("expected the bulk rename sheet"),
    }
}

#[test]
fn inline_rename_checks_the_name_and_the_destination() {
    assert_eq!(inline_rename_target("/d/a.txt", " b.txt "), Ok(Some("/d/b.txt".to_owned())));
    assert_eq!(inline_rename_target("/d/a.txt", "a.txt"), Ok(None));
    assert_eq!(inline_rename_target("/", "x"), Err("Cannot rename a filesystem root".to_owned()));
    match inline_rename_operation("/d/a.txt", "b.txt", false) {
        Ok(Some(FsOperation::Rename { from, to })) => assert_eq!((from.as_str(), to.as_str()), ("/d/a.txt", "/d/b.txt")),
        _ => panic!("expected a rename"),
    }
    assert_eq!(
        inline_rename_operation("/d/a.txt", " b.txt", true).err().as_deref(),
        Some("“b.txt” already exists in this folder")
    );
    assert!(matches!(inline_rename_operation("/d/a.txt", "a.txt", true), Ok(None)));
}

fn listed(path: &str, kind: FileKind, len: Option<u64>) -> FileEntry {
    FileEntry {
        path: path.into(),
        name: path.rsplit('/').next().unwrap().into(),
        kind,
        hidden: false,
        metadata: len.map(|len| FileMetadata {
            len,
            child_count: None,
            mode: None,
            readonly: false,
            symlink_target_kind: None,
            modified_unix_ms: None,
        }),
    }
}

#[test]
fn folder_properties_count_the_loaded_files() {
    let entries = vec![
        listed("/d/a", FileKind::File, Some(10)),
        listed("/d/sub", FileKind::Directory, Some(4096)),
        listed("/d/b", FileKind::File, None),
        listed("/d/c", FileKind::File, Some(5)),
    ];
    match folder_properties_sheet("/d", &entries, Some(0o40755), true) {
        OperationSheet::FolderProperties { path, item_count, file_bytes, mode, readonly } => {
            assert_eq!(path, "/d");
            assert_eq!(item_count, 4);
            assert_eq!(file_bytes, 15);
            assert_eq!(mode, Some(0o755));
            assert!(readonly);
        }
        _ => panic!("a properties sheet"),
    }
    let huge = vec![listed("/d/a", FileKind::File, Some(u64::MAX)), listed("/d/b", FileKind::File, Some(1))];
    match folder_properties_sheet("/d", &huge, None, false) {
        OperationSheet::FolderProperties { file_bytes, mode, .. } => {
            assert_eq!(file_bytes, u64::MAX);
            assert_eq!(mode, None);
        }
        _ => panic!("a properties sheet"),
    }
}

#[test]
fn property_rows_show_mode_access_and_sizes() {
    let rows = property_rows("/d", 3, 2048, Some(0o755), false);
    let texts: Vec<(&str, &str)> = rows.iter().map(|(l, v)| (l.as_str(), v.as_str())).collect();
    assert_eq!(
        texts,
        vec![
            ("Path", "/d"),
            ("Loaded items", "3"),
            ("Visible file size", "2 KB"),
            ("Permissions", "0755"),
            ("Access", "Read and write"),
        ]
    );
    let rows = property_rows("/d", 0, 0, None, true);
    assert_eq!(rows[3].1, "Unavailable");
    assert_eq!(rows[4].1, "Read only");
}

#[test]
fn sheet_headings_name_the_sheet_and_what_it_acts_on() {
    let heading = sheet_heading(
        &OperationSheet::Extract { sources: vec!["/a.zip".into()], destination: String::new() },
        "/d",
    );
    assert_eq!((heading.title.as_str(), heading.subtitle.as_str(), heading.read_only), ("Extract to…", "1 archive", false));
    let heading = sheet_heading(&OperationSheet::CreateEntry { kind: CreateEntryKind::File, name: String::new() }, "/d/x");
    assert_eq!((heading.title.as_str(), heading.subtitle.as_str()), ("New file", "/d/x"));
    let heading = sheet_heading(
        &OperationSheet::FolderProperties { path: "/home/me".into(), item_count: 0, file_bytes: 0, mode: None, readonly: false },
        "/home/me",
    );
    assert_eq!((heading.title.as_str(), heading.subtitle.as_str(), heading.read_only), ("Folder properties", "me", true));
    let heading = sheet_heading(
        &OperationSheet::Permissions {
            paths: vec!["/a".into(), "/b".into()],
            original_modes: vec![0o644, 0o600],
            current_modes: vec![0o644, 0o600],
            octal: String::new(),
        },
        "/",
    );
    assert_eq!((heading.title.as_str(), heading.subtitle.as_str()), ("Permissions", "2 items"));
    let heading = sheet_heading(&OperationSheet::Rename { from: "/a".into(), name: "b".into() }, "/");
    assert_eq!((heading.title.as_str(), heading.subtitle.as_str()), ("Rename", "One item"));
    let heading = sheet_heading(&OperationSheet::Symlink { target: String::new(), name: String::new(), relative: false }, "/");
    assert_eq!((heading.title.as_str(), heading.subtitle.as_str()), ("Create symlink", "Link from this folder"));
}

#[test]
fn permission_bits_show_all_none_or_some_items() {
    assert_eq!(bit_marker(&vec![0o644, 0o600], 0o400), BitMarker::AllItems);
    assert_eq!(bit_marker(&vec![0o644, 0o600], 0o004), BitMarker::SomeItems);
    assert_eq!(bit_marker(&vec![0o644, 0o600], 0o100), BitMarker::NoItems);
    assert_eq!(bit_marker(&Vec::new(), 0o100), BitMarker::AllItems);
}

#[test]
fn bulk_rename_rows_show_the_first_six_renames() {
    let pairs: Vec<RenamePair> = (0..8)
        .map(|i| RenamePair { from: format!("/d/old{i}.txt"), to: format!("/d/new{i}.txt") })
        .collect();
    let rows = rename_rows(&pairs);
    assert_eq!(rows.len(), 6);
    assert_eq!(rows[0], "old0.txt  →  new0.txt");
    assert_eq!(rename_rows(&pairs[..1].iter().map(|p| RenamePair { from: p.from.clone(), to: "/".into() }).collect()), vec!["old0.txt  →  "]);
}

#[test]
fn sheets_open_and_close_with_or_without_motion() {
    let mut host = SheetHost::new();
    assert_eq!(host.dismiss(true), DismissStep::Ignored);
    host.open(create_entry_sheet(CreateEntryKind::Folder, false, false).unwrap());
    host.error = Some("Name is taken".into());
    assert_eq!(host.dismiss(false), DismissStep::Closing);
    assert!(host.closing && host.sheet.is_some());
    assert_eq!(host.dismiss(false), DismissStep::Ignored);
    assert!(host.close_timer_elapsed());
    assert!(host.sheet.is_none() && !host.closing && host.error.is_none());
    assert!(!host.close_timer_elapsed());

    host.open(symlink_sheet(false).unwrap());
    assert_eq!(host.dismiss(true), DismissStep::Closed);
    assert!(host.sheet.is_none());
}

#[test]
fn create_and_symlink_sheets_start_empty() {
    assert!(create_entry_sheet(CreateEntryKind::File, true, false).is_none());
    assert!(create_entry_sheet(CreateEntryKind::File, false, true).is_none());
    match create_entry_sheet(CreateEntryKind::File, false, false) {
        Some(OperationSheet::CreateEntry { kind, name }) => {
            assert_eq!(kind, CreateEntryKind::File);
            assert!(name.is_empty());
        }
        _ => panic!("a create sheet"),
    }
    match symlink_sheet(false) {
        Some(OperationSheet::Symlink { target, name, relative }) => assert!(target.is_empty() && name.is_empty() && relative),
        _ => panic!("a symlink sheet"),
    }
    assert!(symlink_sheet(true).is_none());
}

#[test]
fn archives_extract_here_or_through_a_sheet() {
    let archives = vec!["/d/a.zip".to_string(), "/d/b.tar.gz".to_string()];
    match extract_here(false, false, &archives, true, "/d") {
        Some((FsOperation::ExtractArchives { sources, destination }, progress)) => {
            assert_eq!(sources, archives);
            assert_eq!(destination, "/d");
            assert_eq!(progress, "Preparing archives…");
        }
        _ => panic!("an extraction"),
    }
    assert!(extract_here(false, false, &archives, false, "/d").is_none());
    assert!(extract_here(true, false, &archives, true, "/d").is_none());
    assert!(extract_here(false, true, &archives, true, "/d").is_none());
    assert!(extract_here(false, false, &Vec::new(), true, "/d").is_none());
    match extract_to_sheet(false, false, &archives, true, "/d") {
        Some(OperationSheet::Extract { sources, destination }) => {
            assert_eq!(sources, archives);
            assert_eq!(destination, "/d");
        }
        _ => panic!("an extract sheet"),
    }
    assert!(extract_to_sheet(false, true, &archives, true, "/d").is_none());
}

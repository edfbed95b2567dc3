use gnil_app::paths::lexical_relative_path;
use gnil_app::ops::{
    bulk_rename_plan, bulk_rename_preview, create_entry_operation, extract_destination, operation_from_sheet,
    operation_from_sheet_with, rename_operation, symlink_operation, BulkRenameSheet, CreateEntryKind,
    DestinationStat, FsOperation, OperationSheet, RenameScope, SheetFacts,
};
use gnil_app::permissions::{permission_change, PermissionChange};

fn facts() -> SheetFacts {
    SheetFacts { process_dir: Ok("/work".into()), destination: DestinationStat::Directory, existing_paths: Vec::new() }
}

fn bulk(paths: &[&str]) -> BulkRenameSheet {
    BulkRenameSheet {
        paths: paths.iter().map(|p| p.to_string()).collect(),
        find: String::new(),
        replace: String::new(),
        prefix: String::new(),
        suffix: String::new(),
        start: "1".into(),
        padding: "0".into(),
        regex: false,
        numbering: false,
        scope: RenameScope::Stem,
    }
}

fn renames(result: Result<Vec<gnil_app::ops::RenamePair>, String>) -> Result<Vec<(String, String)>, String> {
    result.map(|pairs| pairs.into_iter().map(|p| (p.from, p.to)).collect())
}

fn preview(sheet: &BulkRenameSheet, existing: &[&str]) -> Result<Vec<(String, String)>, String> {
    let plan = bulk_rename_plan(sheet);
    let existing: Vec<String> = existing.iter().map(|p| p.to_string()).collect();
    renames(bulk_rename_preview(sheet, &plan, &existing))
}

#[test]
fn create_entry_names_one_file_in_the_folder() {
    match create_entry_operation(CreateEntryKind::Folder, "  notes ", "/tmp") {
        Ok(FsOperation::CreateDirectory { path }) => assert_eq!(path, "/tmp/notes"),
        _ => panic!("expected a folder"),
    }
    match create_entry_operation(CreateEntryKind::File, "a.txt", "/") {
        Ok(FsOperation::CreateFile { path }) => assert_eq!(path, "/a.txt"),
        _ => panic!("expected a file"),
    }
    for bad in ["", "..", "a/b", " . "] {
        assert_eq!(
            create_entry_operation(CreateEntryKind::File, bad, "/tmp").err().as_deref(),
            Some("Enter one valid file name without path separators")
        );
    }
}

#[test]
fn rename_stays_in_the_folder_and_must_change_the_name() {
    match rename_operation("/tmp/original.txt", "edited.txt") {
        Ok(FsOperation::Rename { from, to }) => {
            assert_eq!(from, "/tmp/original.txt");
            assert_eq!(to, "/tmp/edited.txt");
        },
        _ => panic!("expected a rename"),
    }
    assert_eq!(rename_operation("/tmp/a", " a ").err().as_deref(), Some("The name is unchanged"));
    assert_eq!(rename_operation("/", "x").err().as_deref(), Some("Cannot rename a filesystem root"));
    assert_eq!(
        rename_operation("/tmp/a", "b/c").err().as_deref(),
        Some("Enter one valid file name without path separators")
    );
}

#[test]
fn extract_destination_expands_home_and_relative_paths() {
    let home = Some("/home/person".to_owned());
    assert_eq!(extract_destination(" ~ ", "/tmp", &home).as_deref(), Ok("/home/person"));
    assert_eq!(extract_destination("~/out", "/tmp", &home).as_deref(), Ok("/home/person/out"));
    assert_eq!(extract_destination("out", "/tmp", &home).as_deref(), Ok("/tmp/out"));
    assert_eq!(extract_destination("/srv", "/tmp", &home).as_deref(), Ok("/srv"));
    assert_eq!(extract_destination("   ", "/tmp", &home).err().as_deref(), Some("Destination folder is required"));
    assert_eq!(extract_destination("~/x", "/tmp", &None).err().as_deref(), Some("Home directory is unavailable"));
}

#[test]
fn extract_sheet_depends_on_what_the_destination_is() {
    let sheet = OperationSheet::Extract { sources: vec!["/tmp/a.zip".into()], destination: "out".into() };
    let home = Some("/home/person".to_owned());
    match operation_from_sheet_with(&sheet, "/tmp", &home, &facts()) {
        Ok(FsOperation::ExtractArchives { sources, destination }) => {
            assert_eq!(sources, vec!["/tmp/a.zip".to_owned()]);
            assert_eq!(destination, "/tmp/out");
        },
        _ => panic!("expected an extraction"),
    }
    for (stat, message) in [
        (DestinationStat::NotDirectory, "Destination must be a folder"),
        (DestinationStat::PermissionDenied, "Destination folder is not accessible"),
        (DestinationStat::Missing, "Destination folder does not exist"),
    ] {
        let facts = SheetFacts { destination: stat, ..facts() };
        assert_eq!(operation_from_sheet_with(&sheet, "/tmp", &home, &facts).err().as_deref(), Some(message));
    }
}

#[test]
fn symlink_targets_are_stored_relative_or_absolute() {
    match symlink_operation("/home/person/docs", "link", true, "/home/person/links", &None, &Ok("/".into())) {
        Ok(FsOperation::CreateSymlink { link_path, target }) => {
            assert_eq!(link_path, "/home/person/links/link");
            assert_eq!(target, "../docs");
        },
        _ => panic!("expected a relative symlink"),
    }
    match symlink_operation("docs/./a", "link", false, "/home/person", &None, &Ok("/".into())) {
        Ok(FsOperation::CreateSymlink { target, .. }) => assert_eq!(target, "/home/person/docs/a"),
        _ => panic!("expected an absolute symlink"),
    }
    match symlink_operation("~/docs", "link", false, "/tmp", &Some("/home/person".into()), &Ok("/".into())) {
        Ok(FsOperation::CreateSymlink { target, .. }) => assert_eq!(target, "/home/person/docs"),
        _ => panic!("expected a home symlink"),
    }
    assert_eq!(
        symlink_operation("", "link", false, "/tmp", &None, &Ok("/".into())).err().as_deref(),
        Some("Target path is required")
    );
    assert_eq!(
        symlink_operation("/x", "", false, "/tmp", &None, &Ok("/".into())).err().as_deref(),
        Some("Enter one valid file name without path separators")
    );
}

#[test]
fn permission_mask_sets_and_clears_bits_changed_for_every_entry() {
    let change = permission_change(&vec![0o644, 0o600], &vec![0o664, 0o620], "");
    assert_eq!(change, Ok(PermissionChange::Mask { set: 0o020, clear: 0 }));
    let change = permission_change(&vec![0o755, 0o755], &vec![0o754, 0o754], " ");
    assert_eq!(change, Ok(PermissionChange::Mask { set: 0, clear: 0o001 }));
    let mixed = permission_change(&vec![0o644, 0o600], &vec![0o664, 0o600], "");
    assert_eq!(mixed.err().as_deref(), Some("No permission changes to apply"));
}

#[test]
fn permission_octal_text_is_parsed_and_checked() {
    assert_eq!(permission_change(&vec![0o644], &vec![0o644], " 0755 "), Ok(PermissionChange::Exact(0o755)));
    assert_eq!(permission_change(&vec![0o644], &vec![0o644], "0o0o644"), Ok(PermissionChange::Exact(0o644)));
    assert_eq!(permission_change(&vec![], &vec![], "+7777"), Ok(PermissionChange::Exact(0o7777)));
    assert_eq!(
        permission_change(&vec![], &vec![], "10000").err().as_deref(),
        Some("Permission mode must be between 0000 and 7777")
    );
    for bad in ["0x1f", "8", "+", "-1", "99999999999999"] {
        assert_eq!(
            permission_change(&vec![], &vec![], bad).err().as_deref(),
            Some("Enter an octal mode such as 0644"),
            "{bad}"
        );
    }
}

#[test]
fn permission_sheet_applies_to_every_path() {
    let sheet = OperationSheet::Permissions {
        paths: vec!["/a".into(), "/b".into()],
        original_modes: vec![0o644, 0o644],
        current_modes: vec![0o644, 0o644],
        octal: "600".into(),
    };
    match operation_from_sheet(&sheet, "/", &facts()) {
        Ok(FsOperation::SetPermissions { paths, change }) => {
            assert_eq!(paths, vec!["/a".to_owned(), "/b".to_owned()]);
            assert_eq!(change, PermissionChange::Exact(0o600));
        },
        _ => panic!("expected a permission change"),
    }
    assert_eq!(
        operation_from_sheet(
            &OperationSheet::FolderProperties {
                path: "/".into(),
                item_count: 0,
                file_bytes: 0,
                mode: None,
                readonly: false,
            },
            "/",
            &facts(),
        ).err().as_deref(),
        Some("Folder properties do not apply changes")
    );
}

#[test]
fn bulk_rename_replaces_text_in_stems_and_keeps_extensions() {
    let mut sheet = bulk(&["/d/report-a.txt", "/d/report-b.txt"]);
    sheet.find = "report".into();
    sheet.replace = "summary".into();
    assert_eq!(
        preview(&sheet, &[]),
        Ok(vec![
            ("/d/report-a.txt".to_owned(), "/d/summary-a.txt".to_owned()),
            ("/d/report-b.txt".to_owned(), "/d/summary-b.txt".to_owned()),
        ])
    );
}

#[test]
fn bulk_rename_numbers_with_padding() {
    let mut sheet = bulk(&["/d/a.jpg", "/d/b.jpg"]);
    sheet.numbering = true;
    sheet.start = " 9 ".into();
    sheet.padding = "3".into();
    sheet.prefix = "img".into();
    assert_eq!(
        preview(&sheet, &[]),
        Ok(vec![
            ("/d/a.jpg".to_owned(), "/d/imga-009.jpg".to_owned()),
            ("/d/b.jpg".to_owned(), "/d/imgb-010.jpg".to_owned()),
        ])
    );
}

#[test]
fn bulk_rename_with_a_regular_expression() {
    let mut sheet = bulk(&["/d/a1.txt", "/d/a22.txt"]);
    sheet.regex = true;
    sheet.find = r"a(\d+)".into();
    sheet.replace = "b$1".into();
    assert_eq!(
        preview(&sheet, &[]),
        Ok(vec![("/d/a1.txt".to_owned(), "/d/b1.txt".to_owned()), ("/d/a22.txt".to_owned(), "/d/b22.txt".to_owned())])
    );
    sheet.find = "(".into();
    let error = preview(&sheet, &[]).unwrap_err();
    assert!(error.starts_with("Invalid regex: "), "{error}");
}

#[test]
fn bulk_rename_extension_scope_and_its_errors() {
    let mut sheet = bulk(&["/d/a.jpeg"]);
    sheet.scope = RenameScope::Extension;
    sheet.find = "jpeg".into();
    sheet.replace = "jpg".into();
    assert_eq!(preview(&sheet, &[]), Ok(vec![("/d/a.jpeg".to_owned(), "/d/a.jpg".to_owned())]));
    let mut none = bulk(&["/d/README"]);
    none.scope = RenameScope::Extension;
    assert_eq!(preview(&none, &[]).err().as_deref(), Some("/d/README has no extension"));
}

#[test]
fn bulk_rename_errors_on_collisions_existing_targets_and_no_change() {
    let mut sheet = bulk(&["/d/a.txt", "/d/b.txt"]);
    sheet.scope = RenameScope::FullName;
    sheet.regex = true;
    sheet.find = "[a-z.]+".into();
    sheet.replace = "same".into();
    assert_eq!(preview(&sheet, &[]).err().as_deref(), Some("Two items would become /d/same"));

    let mut existing = bulk(&["/d/a.txt"]);
    existing.prefix = "new-".into();
    assert_eq!(
        preview(&existing, &["/d/new-a.txt"]).err().as_deref(),
        Some("Destination already exists: /d/new-a.txt")
    );
    assert_eq!(preview(&bulk(&["/d/a.txt"]), &[]).err().as_deref(), Some("The rename rules do not change any names"));
}

#[test]
fn bulk_rename_checks_its_numbers() {
    let mut sheet = bulk(&["/d/a.txt"]);
    sheet.start = "-1".into();
    assert_eq!(preview(&sheet, &[]).err().as_deref(), Some("Numbering start must be a positive integer"));
    sheet.start = "1".into();
    sheet.padding = "wide".into();
    assert_eq!(preview(&sheet, &[]).err().as_deref(), Some("Padding must be an integer"));
    let mut wide = bulk(&["/d/a.txt"]);
    wide.numbering = true;
    wide.padding = "99".into();
    assert_eq!(preview(&wide, &[]), Ok(vec![("/d/a.txt".to_owned(), "/d/a-000000000001.txt".to_owned())]));
}

#[test]
fn bulk_rename_sheet_becomes_an_operation() {
    let mut sheet = bulk(&["/d/a.txt"]);
    sheet.suffix = "-old".into();
    let sheet = OperationSheet::BulkRename(sheet);
    match operation_from_sheet(&sheet, "/d", &facts()) {
        Ok(FsOperation::BulkRename { pairs }) => {
            assert_eq!(pairs.len(), 1);
            assert_eq!(pairs[0].to, "/d/a-old.txt");
        },
        _ => panic!("expected a bulk rename"),
    }
}

#[test]
fn relative_paths_lead_back_to_their_target() {
    let cwd: Result<String, String> = Err("no current folder".into());
    assert_eq!(lexical_relative_path("/a/b/c", "/a/d/e", &cwd), Ok("../../b/c".to_string()));
    assert_eq!(lexical_relative_path("/a/b", "/a/b", &cwd), Ok(".".to_string()));
    assert_eq!(lexical_relative_path("/a", "/a/b/c", &cwd), Ok("../..".to_string()));
    assert_eq!(lexical_relative_path("/a/b/c", "/a", &cwd), Ok("b/c".to_string()));
    assert_eq!(lexical_relative_path("/a//b/", "/a/b", &cwd), Ok(".".to_string()));
}

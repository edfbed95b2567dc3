use vstd::prelude::*;

use crate::files::TrashEntry;
use crate::labels::{decimal, decimal_string};
use crate::model::{spec_directory_like, FileEntry, FileKind};
use crate::paths::{file_name, spec_file_name};
use crate::ops::{
    RenamePair, join, join_text, make_absolute, name_parts, name_stem, outcome_view, parent_path, parent_text, result_text,
    spec_absolute, text_list, BulkRenameSheet, FsOperation, FsOperationView, OperationSheet, RenameScope,
};
use crate::paths::{invalid_name_message, valid_file_name, validate_file_name};
use crate::text::{spec_trim, trim};
use crate::paths::{components, comps_view, path_components, paths_equal, render, render_components, same_path, Comp,
    PathComponent};
use crate::permissions::{common_mode, mode_octal, spec_common_mode, spec_mode_octal};

verus! {

/// Lines joined with line feeds.
pub open spec fn joined_lines(lines: Seq<Seq<char>>) -> Seq<char>
    decreases lines.len(),
{
    if lines.len() == 0 {
        Seq::empty()
    } else if lines.len() == 1 {
        lines[0]
    } else {
        joined_lines(lines.drop_last()) + seq!['\n'] + lines.last()
    }
}

/// "s" unless there is exactly one.
pub open spec fn plural(n: nat) -> Seq<char> {
    if n == 1 {
        Seq::empty()
    } else {
        seq!['s']
    }
}

fn join_lines(lines: &Vec<String>) -> (text: String)
    ensures
        text@ == joined_lines(text_list(lines@)),
{
    let ghost views = text_list(lines@);
    let mut text = String::new();
    let mut i: usize = 0;
    while i < lines.len()
        invariant
            views == text_list(lines@),
            i <= lines@.len(),
            text@ == joined_lines(views.take(i as int)),
        decreases lines@.len() - i,
    {
        if i > 0 {
            text.append("\n");
            proof {
                reveal_strlit("\n");
            }
        }
        text.append(lines[i].as_str());
        assert(views.take(i as int + 1).drop_last() =~= views.take(i as int));
        assert(views[i as int] == lines@[i as int]@);
        proof {
            if i == 0 {
                assert(views.take(1) =~= seq![views[0]]);
            }
        }
        assert(text@ =~= joined_lines(views.take(i as int + 1)));
        i += 1;
    }
    assert(views.take(i as int) =~= views);
    text
}

/// The original paths of the trashed items whose info files are selected, in
/// trash order.
pub open spec fn selected_originals(entries: Seq<TrashEntry>, selected: Seq<Seq<char>>, n: int) -> Seq<Seq<char>>
    decreases n,
{
    if n <= 0 {
        Seq::empty()
    } else {
        selected_originals(entries, selected, n - 1) + if exists|j: int|
            0 <= j < selected.len() && same_path(#[trigger] selected[j], entries[n - 1].info_path@) {
            seq![entries[n - 1].original_path@]
        } else {
            Seq::empty()
        }
    }
}

pub(crate) fn selects(selected: &Vec<String>, path: &str) -> (found: bool)
    ensures
        found == exists|j: int| 0 <= j < selected@.len() && same_path(#[trigger] text_list(selected@)[j], path@),
{
    let ghost views = text_list(selected@);
    let mut i: usize = 0;
    while i < selected.len()
        invariant
            views == text_list(selected@),
            i <= selected@.len(),
            forall|j: int| 0 <= j < i ==> !same_path(#[trigger] views[j], path@),
        decreases selected@.len() - i,
    {
        if paths_equal(selected[i].as_str(), path) {
            assert(same_path(views[i as int], path@));
            return true;
        }
        i += 1;
    }
    false
}

/// The text copied for selected trash items — their original paths, one a
/// line — and the status message; nothing when none of them is in the trash list.
pub fn trash_paths_text(entries: &Vec<TrashEntry>, selected: &Vec<String>) -> (copied: Option<(String, String)>)
    ensures
        ({
            let originals = selected_originals(entries@, text_list(selected@), entries@.len() as int);
            match copied {
                None => originals.len() == 0,
                Some((text, status)) => originals.len() > 0 && text@ == joined_lines(originals) && status@
                    == "Copied "@ + decimal(originals.len()) + " original path"@ + plural(originals.len()),
            }
        }),
{
    let ghost views = text_list(selected@);
    let mut originals: Vec<String> = Vec::new();
    let mut i: usize = 0;
    while i < entries.len()
        invariant
            views == text_list(selected@),
            i <= entries@.len(),
            text_list(originals@) == selected_originals(entries@, views, i as int),
        decreases entries@.len() - i,
    {
        let ghost prev = originals@;
        if selects(selected, entries[i].info_path.as_str()) {
            originals.push(entries[i].original_path.clone());
            assert(text_list(originals@) =~= text_list(prev).push(entries@[i as int].original_path@));
        }
        assert(text_list(originals@) =~= selected_originals(entries@, views, i as int + 1));
        i += 1;
    }
    if originals.len() == 0 {
        return None;
    }
    let text = join_lines(&originals);
    let mut status = String::from_str("Copied ");
    status.append(decimal_string(originals.len() as u64).as_str());
    status.append(" original path");
    if originals.len() != 1 {
        status.append("s");
    }
    proof {
        reveal_strlit("s");
        if originals@.len() == 1 {
            reveal_strlit("");
        }
    }
    assert(status@ =~= "Copied "@ + decimal(originals@.len()) + " original path"@ + plural(originals@.len()));
    Some((text, status))
}

/// A path with the components of `base` taken off its front, when it lies
/// in `base`; otherwise the path itself.
pub open spec fn stripped(path: Seq<char>, base: Seq<char>) -> Seq<char> {
    let c = components(path);
    let b = components(base);
    if b.len() <= c.len() && c.take(b.len() as int) == b {
        render(c.skip(b.len() as int))
    } else {
        path
    }
}

/// The text copied for one path: relative to the folder shown, or made absolute.
pub open spec fn copied_path(path: Seq<char>, folder: Seq<char>, relative: bool, process_dir: Result<Seq<char>, Seq<char>>) -> Result<Seq<char>, Seq<char>> {
    if relative {
        Ok(stripped(path, folder))
    } else {
        spec_absolute(path, process_dir)
    }
}

/// The copied texts of the first `n` paths, or the first error.
pub open spec fn copied_paths(paths: Seq<Seq<char>>, folder: Seq<char>, relative: bool, process_dir: Result<Seq<char>, Seq<char>>, n: int) -> Result<Seq<Seq<char>>, Seq<char>>
    decreases n,
{
    if n <= 0 {
        Ok(Seq::empty())
    } else {
        match copied_paths(paths, folder, relative, process_dir, n - 1) {
            Err(e) => Err(e),
            Ok(done) => match copied_path(paths[n - 1], folder, relative, process_dir) {
                Err(e) => Err(e),
                Ok(p) => Ok(done.push(p)),
            },
        }
    }
}

fn strip_base(path: &str, base: &str) -> (text: String)
    ensures
        text@ == stripped(path@, base@),
{
    let c = path_components(path);
    let b = path_components(base);
    let ghost cv = comps_view(c@);
    let ghost bv = comps_view(b@);
    if b.len() > c.len() {
        return String::from_str(path);
    }
    let mut i: usize = 0;
    while i < b.len()
        invariant
            cv == comps_view(c@),
            bv == comps_view(b@),
            cv == components(path@),
            bv == components(base@),
            b@.len() <= c@.len(),
            i <= b@.len(),
            forall|j: int| 0 <= j < i ==> cv[j] == bv[j],
        decreases b@.len() - i,
    {
        if !crate::paths::same_component(&c[i], &b[i]) {
            assert(cv.take(bv.len() as int)[i as int] != bv[i as int]);
            return String::from_str(path);
        }
        i += 1;
    }
    assert(cv.take(bv.len() as int) =~= bv);
    let mut rest: Vec<PathComponent> = Vec::new();
    let mut k: usize = b.len();
    while k < c.len()
        invariant
            cv == comps_view(c@),
            b@.len() <= k <= c@.len(),
            comps_view(rest@) == cv.subrange(b@.len() as int, k as int),
        decreases c@.len() - k,
    {
        let ghost prev = rest@;
        rest.push(crate::paths::copy_component(&c[k]));
        assert(comps_view(rest@) =~= comps_view(prev).push(crate::paths::comp_view(c@[k as int])));
        assert(cv.subrange(b@.len() as int, k as int + 1) =~= cv.subrange(b@.len() as int, k as int).push(cv[k as int]));
        k += 1;
    }
    assert(cv.subrange(b@.len() as int, c@.len() as int) =~= cv.skip(bv.len() as int));
    render_components(&rest)
}

/// The text copied for selected paths — one a line, relative to the folder
/// shown or absolute — and the status message; nothing when none is selected.
pub fn paths_text(paths: &Vec<String>, folder: &str, relative: bool, process_dir: &Result<String, String>) -> (copied: Option<Result<(String, String), String>>)
    ensures
        ({
            let ps = text_list(paths@);
            let r = copied_paths(ps, folder@, relative, result_text(*process_dir), ps.len() as int);
            match copied {
                None => ps.len() == 0,
                Some(Err(e)) => ps.len() > 0 && r == Err::<Seq<Seq<char>>, Seq<char>>(e@),
                Some(Ok((text, status))) => ps.len() > 0 && (r matches Ok(lines) && text@ == joined_lines(lines)
                    && status@ == "Copied "@ + decimal(lines.len()) + " "@ + (if relative { "relative "@ } else { ""@ })
                        + "path"@ + plural(lines.len())),
            }
        }),
{
    if paths.len() == 0 {
        return None;
    }
    let ghost ps = text_list(paths@);
    let ghost pd = result_text(*process_dir);
    let mut lines: Vec<String> = Vec::new();
    assert(text_list(lines@) =~= Seq::<Seq<char>>::empty());
    let mut i: usize = 0;
    while i < paths.len()
        invariant
            ps == text_list(paths@),
            pd == result_text(*process_dir),
            i <= paths@.len(),
            copied_paths(ps, folder@, relative, pd, i as int) == Ok::<Seq<Seq<char>>, Seq<char>>(text_list(lines@)),
        decreases paths@.len() - i,
    {
        assert(ps[i as int] == paths@[i as int]@);
        let line = if relative {
            Ok(strip_base(paths[i].as_str(), folder))
        } else {
            make_absolute(paths[i].as_str(), process_dir)
        };
        match line {
            Err(e) => {
                proof {
                    lemma_copied_stops(ps, folder@, relative, pd, i as int + 1, ps.len() as int);
                }
                return Some(Err(e));
            },
            Ok(l) => {
                let ghost prev = lines@;
                lines.push(l);
                assert(text_list(lines@) =~= text_list(prev).push(l@));
            },
        }
        i += 1;
    }
    let text = join_lines(&lines);
    let mut status = String::from_str("Copied ");
    status.append(decimal_string(lines.len() as u64).as_str());
    status.append(" ");
    if relative {
        status.append("relative ");
    }
    status.append("path");
    if lines.len() != 1 {
        status.append("s");
    }
    proof {
        reveal_strlit("s");
        reveal_strlit("");
        assert(text_list(lines@).len() == lines@.len());
    }
    assert(status@ =~= "Copied "@ + decimal(lines@.len()) + " "@ + (if relative { "relative "@ } else { ""@ }) + "path"@
        + plural(lines@.len()));
    Some(Ok((text, status)))
}

proof fn lemma_copied_stops(paths: Seq<Seq<char>>, folder: Seq<char>, relative: bool, pd: Result<Seq<char>, Seq<char>>, k: int, m: int)
    requires
        0 <= k <= m,
        copied_paths(paths, folder, relative, pd, k) is Err,
    ensures
        copied_paths(paths, folder, relative, pd, m) == copied_paths(paths, folder, relative, pd, k),
    decreases m - k,
{
    if k < m {
        lemma_copied_stops(paths, folder, relative, pd, k, m - 1);
    }
}

/// Whether an entry's permissions are edited: not a symlink, with a known mode.
pub open spec fn chmod_target(e: FileEntry) -> bool {
    e.kind != FileKind::Symlink && (e.metadata matches Some(m) && m.mode is Some)
}

/// The permission bits of an entry's mode.
pub open spec fn permission_bits(e: FileEntry) -> u32 {
    (e.metadata->Some_0.mode->Some_0 & 4095u32) as u32
}

/// The paths and permission bits of the first `n` entries that are edited.
pub open spec fn chmod_items(es: Seq<FileEntry>, n: int) -> Seq<(Seq<char>, u32)>
    decreases n,
{
    if n <= 0 {
        Seq::empty()
    } else {
        chmod_items(es, n - 1) + if chmod_target(es[n - 1]) {
            seq![(es[n - 1].path@, permission_bits(es[n - 1]))]
        } else {
            Seq::empty()
        }
    }
}

/// The number of symlinks among the first `n` entries.
pub open spec fn symlink_count(es: Seq<FileEntry>, n: int) -> nat
    decreases n,
{
    if n <= 0 {
        0
    } else {
        symlink_count(es, n - 1) + if es[n - 1].kind == FileKind::Symlink { 1nat } else { 0nat }
    }
}

/// What opening the permission sheet for the selected entries gives: the
/// sheet over the entries that are not symlinks and have a known mode (with
/// the shared mode as octal text, or none when the modes differ), and a note
/// on the symlinks left out; an error when no entry can be edited.
pub fn permissions_sheet(selected: &Vec<FileEntry>) -> (opened: Result<(OperationSheet, Option<String>), String>)
    ensures
        ({
            let items = chmod_items(selected@, selected@.len() as int);
            let links = symlink_count(selected@, selected@.len() as int);
            let modes = items.map_values(|i: (Seq<char>, u32)| i.1);
            match opened {
                Err(e) => items.len() == 0 && e@ == "Select at least one non-symlink item"@,
                Ok((sheet, note)) => items.len() > 0 && (sheet matches OperationSheet::Permissions {
                    paths,
                    original_modes,
                    current_modes,
                    octal,
                } && text_list(paths@) == items.map_values(|i: (Seq<char>, u32)| i.0) && original_modes@ == modes
                    && current_modes@ == modes && octal@ == match spec_common_mode(modes) {
                    Some(m) => spec_mode_octal(m),
                    None => Seq::<char>::empty(),
                }) && match note {
                    Some(n) => links > 0 && n@ == "Excluded "@ + decimal(links) + " symlink"@ + plural(links)
                        + " from chmod"@,
                    None => links == 0,
                },
            }
        }),
{
    let mut paths: Vec<String> = Vec::new();
    let mut modes: Vec<u32> = Vec::new();
    let mut links: u64 = 0;
    let mut i: usize = 0;
    while i < selected.len()
        invariant
            i <= selected@.len(),
            paths@.len() == modes@.len(),
            text_list(paths@) == chmod_items(selected@, i as int).map_values(|i: (Seq<char>, u32)| i.0),
            modes@ == chmod_items(selected@, i as int).map_values(|i: (Seq<char>, u32)| i.1),
            links == symlink_count(selected@, i as int),
            links <= i,
        decreases selected@.len() - i,
    {
        let entry = &selected[i];
        let ghost before = chmod_items(selected@, i as int);
        let ghost prev_paths = paths@;
        let ghost prev_modes = modes@;
        if entry.kind == FileKind::Symlink {
            links += 1;
        } else {
            match entry.metadata {
                Some(m) => match m.mode {
                    Some(mode) => {
                        paths.push(entry.path.clone());
                        modes.push(mode & 4095u32);
                        assert(text_list(paths@) =~= text_list(prev_paths).push(entry.path@));
                        assert(modes@ =~= prev_modes.push((mode & 4095u32) as u32));
                    },
                    None => {},
                },
                None => {},
            }
        }
        assert(chmod_items(selected@, i as int + 1).map_values(|i: (Seq<char>, u32)| i.0) =~= text_list(paths@));
        assert(chmod_items(selected@, i as int + 1).map_values(|i: (Seq<char>, u32)| i.1) =~= modes@);
        i += 1;
    }
    if paths.len() == 0 {
        assert(chmod_items(selected@, selected@.len() as int).map_values(|i: (Seq<char>, u32)| i.0).len() == 0);
        return Err(String::from_str("Select at least one non-symlink item"));
    }
    let octal = match common_mode(&modes) {
        Some(m) => mode_octal(m),
        None => String::new(),
    };
    let note = if links > 0 {
        let mut n = String::from_str("Excluded ");
        n.append(decimal_string(links).as_str());
        n.append(" symlink");
        if links != 1 {
            n.append("s");
        }
        n.append(" from chmod");
        proof {
            reveal_strlit("s");
            reveal_strlit("");
        }
        assert(n@ =~= "Excluded "@ + decimal(links as nat) + " symlink"@ + plural(links as nat) + " from chmod"@);
        Some(n)
    } else {
        None
    };
    let current = copy_modes(&modes);
    Ok((OperationSheet::Permissions { paths, original_modes: modes, current_modes: current, octal }, note))
}

fn copy_modes(modes: &Vec<u32>) -> (copy: Vec<u32>)
    ensures
        copy@ == modes@,
{
    let mut copy: Vec<u32> = Vec::new();
    let mut i: usize = 0;
    while i < modes.len()
        invariant
            i <= modes@.len(),
            copy@ == modes@.take(i as int),
        decreases modes@.len() - i,
    {
        copy.push(modes[i]);
        assert(modes@.take(i as int + 1) =~= modes@.take(i as int).push(modes@[i as int]));
        i += 1;
    }
    assert(modes@.take(i as int) =~= modes@);
    copy
}

/// How a rename begins.
pub enum RenameStart {
    /// One item is renamed in place: its path, its name to edit, and the part
    /// of the name selected at first.
    Inline { path: String, name: String, selected: String },
    /// Several items open the bulk rename sheet.
    Bulk(BulkRenameSheet),
    /// The item cannot be renamed.
    Invalid(String),
}

/// The part of a name selected when its renaming starts: the stem of a file,
/// the whole name of a folder (or of an entry not in the listing).
pub open spec fn initial_selection(path: Seq<char>, name: Seq<char>, entries: Seq<FileEntry>) -> Seq<char> {
    if exists|i: int| 0 <= i < entries.len() && same_path(#[trigger] entries[i].path@, path) {
        let i = choose|i: int|
            0 <= i < entries.len() && same_path(#[trigger] entries[i].path@, path) && forall|j: int|
                0 <= j < i ==> !same_path(#[trigger] entries[j].path@, path);
        if spec_directory_like(entries[i]) {
            name
        } else {
            name_stem(name)
        }
    } else {
        name
    }
}

fn find_entry(entries: &Vec<FileEntry>, path: &str) -> (found: Option<usize>)
    ensures
        match found {
            Some(i) => i < entries@.len() && same_path(entries@[i as int].path@, path@) && forall|j: int|
                0 <= j < i ==> !same_path(#[trigger] entries@[j].path@, path@),
            None => forall|j: int| 0 <= j < entries@.len() ==> !same_path(#[trigger] entries@[j].path@, path@),
        },
{
    let mut i: usize = 0;
    while i < entries.len()
        invariant
            i <= entries@.len(),
            forall|j: int| 0 <= j < i ==> !same_path(#[trigger] entries@[j].path@, path@),
        decreases entries@.len() - i,
    {
        if paths_equal(entries[i].path.as_str(), path) {
            return Some(i);
        }
        i += 1;
    }
    None
}

/// How renaming the selected paths begins, given the folder's entries:
/// nothing for no path; one path is renamed in place; several open the bulk
/// rename sheet with its usual fields (numbering from 1, two digits).
pub fn rename_start(paths: &Vec<String>, entries: &Vec<FileEntry>) -> (start: Option<RenameStart>)
    ensures
        paths@.len() == 0 ==> start is None,
        paths@.len() == 1 ==> match spec_file_name(paths@[0]@) {
            None => (start matches Some(RenameStart::Invalid(e)) && e@ == "This file name is not valid UTF-8"@),
            Some(n) => (start matches Some(RenameStart::Inline { path, name, selected }) && path@ == paths@[0]@
                && name@ == n && selected@ == initial_selection(paths@[0]@, n, entries@)),
        },
        paths@.len() > 1 ==> (start matches Some(RenameStart::Bulk(sheet)) && sheet@.paths == text_list(paths@)
            && sheet.find@.len() == 0 && sheet.replace@.len() == 0 && sheet.prefix@.len() == 0
            && sheet.suffix@.len() == 0 && sheet.start@ == "1"@ && sheet.padding@ == "2"@ && !sheet.regex
            && !sheet.numbering && sheet.scope == RenameScope::Stem),
{
    if paths.len() == 0 {
        return None;
    }
    if paths.len() == 1 {
        let path = paths[0].as_str();
        let name = match file_name(path) {
            Some(n) => n,
            None => return Some(RenameStart::Invalid(String::from_str("This file name is not valid UTF-8"))),
        };
        let selected = match find_entry(entries, path) {
            Some(i) => {
                if entries[i].is_directory_like() {
                    name.clone()
                } else {
                    let (stem, _) = name_parts(name.as_str());
                    stem
                }
            },
            None => name.clone(),
        };
        return Some(RenameStart::Inline { path: String::from_str(path), name, selected });
    }
    let mut copy: Vec<String> = Vec::new();
    let mut i: usize = 0;
    while i < paths.len()
        invariant
            i <= paths@.len(),
            text_list(copy@) == text_list(paths@.take(i as int)),
        decreases paths@.len() - i,
    {
        let ghost prev = copy@;
        copy.push(paths[i].clone());
        assert(text_list(copy@) =~= text_list(prev).push(paths@[i as int]@));
        assert(paths@.take(i as int + 1) =~= paths@.take(i as int).push(paths@[i as int]));
        assert(text_list(paths@.take(i as int + 1)) =~= text_list(paths@.take(i as int)).push(paths@[i as int]@));
        i += 1;
    }
    assert(paths@.take(i as int) =~= paths@);
    Some(
        RenameStart::Bulk(
            BulkRenameSheet {
                paths: copy,
                find: String::new(),
                replace: String::new(),
                prefix: String::new(),
                suffix: String::new(),
                start: String::from_str("1"),
                padding: String::from_str("2"),
                regex: false,
                numbering: false,
                scope: RenameScope::Stem,
            },
        ),
    )
}

/// Where an inline rename of `path` to the typed name goes: none when the
/// path does not change; an error for an invalid name or the root.
pub open spec fn spec_inline_target(path: Seq<char>, typed: Seq<char>) -> Result<Option<Seq<char>>, Seq<char>> {
    let name = spec_trim(typed);
    if !valid_file_name(name) {
        Err(invalid_name_message())
    } else {
        match parent_text(path) {
            None => Err("Cannot rename a filesystem root"@),
            Some(parent) => if same_path(join(parent, name), path) {
                Ok(None)
            } else {
                Ok(Some(join(parent, name)))
            },
        }
    }
}

/// Where an inline rename goes, before the filesystem is asked whether the
/// destination exists.
pub fn inline_rename_target(path: &str, typed: &str) -> (target: Result<Option<String>, String>)
    ensures
        match target {
            Ok(Some(d)) => spec_inline_target(path@, typed@) == Ok::<Option<Seq<char>>, Seq<char>>(Some(d@)),
            Ok(None) => spec_inline_target(path@, typed@) == Ok::<Option<Seq<char>>, Seq<char>>(None),
            Err(e) => spec_inline_target(path@, typed@) == Err::<Option<Seq<char>>, Seq<char>>(e@),
        },
{
    let name = trim(typed);
    match validate_file_name(name.as_str()) {
        Err(e) => return Err(e),
        Ok(()) => {},
    }
    let parent = match parent_path(path) {
        Some(p) => p,
        None => return Err(String::from_str("Cannot rename a filesystem root")),
    };
    let destination = join_text(parent.as_str(), name.as_str());
    if paths_equal(destination.as_str(), path) {
        return Ok(None);
    }
    Ok(Some(destination))
}

/// The outcome of an inline rename, once the filesystem has said whether the
/// destination exists: the rename, nothing when the name did not change, or
/// an error (an existing destination is refused).
pub open spec fn spec_inline_rename(path: Seq<char>, typed: Seq<char>, exists: bool) -> Result<Option<FsOperationView>, Seq<char>> {
    match spec_inline_target(path, typed) {
        Err(e) => Err(e),
        Ok(None) => Ok(None),
        Ok(Some(to)) => if exists {
            Err("“"@ + spec_trim(typed) + "” already exists in this folder"@)
        } else {
            Ok(Some(FsOperationView::Rename { from: path, to }))
        },
    }
}

/// The outcome of an inline rename.
pub fn inline_rename_operation(path: &str, typed: &str, destination_exists: bool) -> (op: Result<Option<FsOperation>, String>)
    ensures
        match op {
            Ok(Some(o)) => spec_inline_rename(path@, typed@, destination_exists) == Ok::<Option<FsOperationView>, Seq<char>>(Some(o@)),
            Ok(None) => spec_inline_rename(path@, typed@, destination_exists) == Ok::<Option<FsOperationView>, Seq<char>>(None),
            Err(e) => spec_inline_rename(path@, typed@, destination_exists) == Err::<Option<FsOperationView>, Seq<char>>(e@),
        },
{
    match inline_rename_target(path, typed) {
        Err(e) => Err(e),
        Ok(None) => Ok(None),
        Ok(Some(to)) => {
            if destination_exists {
                let name = trim(typed);
                let mut m = String::from_str("“");
                m.append(name.as_str());
                m.append("” already exists in this folder");
                Err(m)
            } else {
                Ok(Some(FsOperation::Rename { from: String::from_str(path), to }))
            }
        },
    }
}

/// The total size of the files among the first `n` entries, as loaded.
pub open spec fn file_bytes_sum(entries: Seq<FileEntry>, n: int) -> nat
    decreases n,
{
    if n <= 0 {
        0
    } else {
        file_bytes_sum(entries, n - 1) + if entries[n - 1].kind == FileKind::File {
            match entries[n - 1].metadata {
                Some(m) => m.len as nat,
                None => 0nat,
            }
        } else {
            0nat
        }
    }
}

/// The properties sheet of the folder shown, from its listing as loaded and
/// what the filesystem says of the folder: its permission bits (of which the
/// file type is dropped) and whether it is read only. The size of the files
/// saturates at the largest `u64`.
pub fn folder_properties_sheet(path: &str, entries: &Vec<FileEntry>, mode: Option<u32>, readonly: bool) -> (sheet:
    OperationSheet)
    ensures
        sheet matches OperationSheet::FolderProperties { path: p, item_count, file_bytes, mode: m, readonly: r } && p@
            == path@ && item_count == entries@.len() && file_bytes == (if file_bytes_sum(
            entries@,
            entries@.len() as int,
        ) <= u64::MAX {
            file_bytes_sum(entries@, entries@.len() as int)
        } else {
            u64::MAX as nat
        }) && m == (match mode {
            Some(bits) => Some(bits & 0o7777u32),
            None => None,
        }) && r == readonly,
{
    let mut total: u64 = 0;
    let mut i: usize = 0;
    while i < entries.len()
        invariant
            i <= entries@.len(),
            total == (if file_bytes_sum(entries@, i as int) <= u64::MAX {
                file_bytes_sum(entries@, i as int)
            } else {
                u64::MAX as nat
            }),
        decreases entries@.len() - i,
    {
        let len: u64 = if entries[i].kind == FileKind::File {
            match entries[i].metadata {
                Some(m) => m.len,
                None => 0,
            }
        } else {
            0
        };
        total = if total > u64::MAX - len {
            u64::MAX
        } else {
            total + len
        };
        i += 1;
    }
    let mode = match mode {
        Some(bits) => Some(bits & 0o7777u32),
        None => None,
    };
    OperationSheet::FolderProperties {
        path: String::from_str(path),
        item_count: entries.len(),
        file_bytes: total,
        mode,
        readonly,
    }
}

/// The heading of an open sheet: its title, the line under it, and whether
/// the sheet only shows (closed by one button) or applies (cancel or apply).
pub struct SheetHeading {
    pub title: String,
    pub subtitle: String,
    pub read_only: bool,
}

/// The title and the line under it, for a sheet opened over `current_directory`.
pub open spec fn spec_sheet_heading(sheet: OperationSheet, current_directory: Seq<char>) -> (Seq<char>, Seq<char>) {
    match sheet {
        OperationSheet::Extract { sources, .. } => (
            "Extract to…"@,
            decimal(sources@.len()) + " archive"@ + plural(sources@.len()),
        ),
        OperationSheet::CreateEntry { kind, .. } => (
            match kind {
                crate::ops::CreateEntryKind::Folder => "New folder"@,
                crate::ops::CreateEntryKind::File => "New file"@,
            },
            current_directory,
        ),
        OperationSheet::FolderProperties { path, .. } => ("Folder properties"@, crate::search::hit_name(path@)),
        OperationSheet::Symlink { .. } => ("Create symlink"@, "Link from this folder"@),
        OperationSheet::Permissions { paths, .. } => ("Permissions"@, decimal(paths@.len()) + " item"@ + plural(
            paths@.len(),
        )),
        OperationSheet::Rename { .. } => ("Rename"@, "One item"@),
        OperationSheet::BulkRename(b) => ("Bulk rename"@, decimal(b.paths@.len()) + " items · live preview"@),
    }
}

/// The heading of an open sheet.
pub fn sheet_heading(sheet: &OperationSheet, current_directory: &str) -> (heading: SheetHeading)
    ensures
        (heading.title@, heading.subtitle@) == spec_sheet_heading(*sheet, current_directory@),
        heading.read_only == sheet is FolderProperties,
{
    proof {
        reveal_strlit("");
        reveal_strlit("s");
    }
    match sheet {
        OperationSheet::Extract { sources, .. } => SheetHeading {
            title: String::from_str("Extract to…"),
            subtitle: crate::runner::counted_text("", sources.len(), " archive", ""),
            read_only: false,
        },
        OperationSheet::CreateEntry { kind, .. } => SheetHeading {
            title: match kind {
                crate::ops::CreateEntryKind::Folder => String::from_str("New folder"),
                crate::ops::CreateEntryKind::File => String::from_str("New file"),
            },
            subtitle: String::from_str(current_directory),
            read_only: false,
        },
        OperationSheet::FolderProperties { path, .. } => SheetHeading {
            title: String::from_str("Folder properties"),
            subtitle: match file_name(path.as_str()) {
                Some(n) => n,
                None => path.clone(),
            },
            read_only: true,
        },
        OperationSheet::Symlink { .. } => SheetHeading {
            title: String::from_str("Create symlink"),
            subtitle: String::from_str("Link from this folder"),
            read_only: false,
        },
        OperationSheet::Permissions { paths, .. } => SheetHeading {
            title: String::from_str("Permissions"),
            subtitle: crate::runner::counted_text("", paths.len(), " item", ""),
            read_only: false,
        },
        OperationSheet::Rename { .. } => SheetHeading {
            title: String::from_str("Rename"),
            subtitle: String::from_str("One item"),
            read_only: false,
        },
        OperationSheet::BulkRename(b) => {
            let mut subtitle = decimal_string(b.paths.len() as u64);
            subtitle.append(" items · live preview");
            SheetHeading { title: String::from_str("Bulk rename"), subtitle, read_only: false }
        },
    }
}

/// How one permission bit stands across the selected items.
#[derive(Clone, Copy, Debug, PartialEq, Eq, Structural)]
pub enum BitMarker {
    /// Every item has the bit (also when there are none).
    AllItems,
    /// No item has it.
    NoItems,
    /// Some items have it, some do not.
    SomeItems,
}

/// How a permission bit stands across some modes.
pub open spec fn spec_bit_marker(modes: Seq<u32>, bit: u32) -> BitMarker {
    if forall|i: int| 0 <= i < modes.len() ==> #[trigger] (modes[i] & bit) != 0 {
        BitMarker::AllItems
    } else if forall|i: int| 0 <= i < modes.len() ==> #[trigger] (modes[i] & bit) == 0 {
        BitMarker::NoItems
    } else {
        BitMarker::SomeItems
    }
}

/// How a permission bit stands across the current modes of the items.
pub fn bit_marker(modes: &Vec<u32>, bit: u32) -> (marker: BitMarker)
    ensures
        marker == spec_bit_marker(modes@, bit),
{
    let mut all = true;
    let mut none = true;
    let mut i: usize = 0;
    while i < modes.len()
        invariant
            i <= modes@.len(),
            all == forall|j: int| 0 <= j < i ==> #[trigger] (modes@[j] & bit) != 0,
            none == forall|j: int| 0 <= j < i ==> #[trigger] (modes@[j] & bit) == 0,
        decreases modes@.len() - i,
    {
        let set = modes[i] & bit != 0;
        all = all && set;
        none = none && !set;
        i += 1;
    }
    if all {
        BitMarker::AllItems
    } else if none {
        BitMarker::NoItems
    } else {
        BitMarker::SomeItems
    }
}

/// The rows of a folder properties sheet, as label and value.
pub open spec fn spec_property_rows(path: Seq<char>, item_count: nat, file_bytes: u64, mode: Option<u32>, readonly: bool) -> Seq<
    (Seq<char>, Seq<char>),
> {
    seq![
        ("Path"@, path),
        ("Loaded items"@, decimal(item_count)),
        ("Visible file size"@, crate::labels::spec_format_bytes(file_bytes as nat)),
        ("Permissions"@, match mode {
            Some(m) => crate::permissions::spec_mode_octal(m),
            None => "Unavailable"@,
        }),
        ("Access"@, if readonly {
            "Read only"@
        } else {
            "Read and write"@
        }),
    ]
}

/// The rows of a folder properties sheet, as label and value.
pub fn property_rows(path: &str, item_count: usize, file_bytes: u64, mode: Option<u32>, readonly: bool) -> (rows: Vec<
    (String, String),
>)
    ensures
        crate::keymap::string_pairs(rows@) == spec_property_rows(path@, item_count as nat, file_bytes, mode, readonly),
{
    let mut rows: Vec<(String, String)> = Vec::new();
    rows.push((String::from_str("Path"), String::from_str(path)));
    rows.push((String::from_str("Loaded items"), decimal_string(item_count as u64)));
    rows.push((String::from_str("Visible file size"), crate::labels::format_bytes(file_bytes)));
    let permissions = match mode {
        Some(m) => crate::permissions::mode_octal(m),
        None => String::from_str("Unavailable"),
    };
    rows.push((String::from_str("Permissions"), permissions));
    let access = if readonly {
        String::from_str("Read only")
    } else {
        String::from_str("Read and write")
    };
    rows.push((String::from_str("Access"), access));
    assert(crate::keymap::string_pairs(rows@) =~= spec_property_rows(path@, item_count as nat, file_bytes, mode, readonly));
    rows
}

/// The name a rename row shows for a path: its final name, or nothing.
pub open spec fn row_name(path: Seq<char>) -> Seq<char> {
    match spec_file_name(path) {
        Some(n) => n,
        None => Seq::empty(),
    }
}

/// The preview lines of a bulk rename: the first six renames, old name, an
/// arrow, new name.
pub open spec fn spec_rename_rows(pairs: Seq<RenamePair>) -> Seq<Seq<char>> {
    let shown = if pairs.len() < 6 {
        pairs
    } else {
        pairs.take(6)
    };
    shown.map_values(|p: RenamePair| rename_row(p))
}

/// One preview line of a bulk rename.
pub open spec fn rename_row(p: RenamePair) -> Seq<char> {
    row_name(p.from@) + "  →  "@ + row_name(p.to@)
}

/// The preview lines of a bulk rename.
pub fn rename_rows(pairs: &Vec<crate::ops::RenamePair>) -> (rows: Vec<String>)
    ensures
        text_list(rows@) == spec_rename_rows(pairs@),
{
    let n = if pairs.len() < 6 {
        pairs.len()
    } else {
        6
    };
    let ghost shown = if pairs@.len() < 6 {
        pairs@
    } else {
        pairs@.take(6)
    };
    let mut rows: Vec<String> = Vec::new();
    let mut i: usize = 0;
    while i < n
        invariant
            n == shown.len(),
            shown == (if pairs@.len() < 6 {
                pairs@
            } else {
                pairs@.take(6)
            }),
            i <= n,
            rows@.len() == i,
            forall|k: int| 0 <= k < i ==> (#[trigger] rows@[k])@ == rename_row(shown[k]),
        decreases n - i,
    {
        assert(shown[i as int] == pairs@[i as int]);
        let mut row = match file_name(pairs[i].from.as_str()) {
            Some(name) => name,
            None => String::new(),
        };
        row.append("  →  ");
        match file_name(pairs[i].to.as_str()) {
            Some(name) => row.append(name.as_str()),
            None => {},
        }
        assert(row@ == rename_row(shown[i as int]));
        rows.push(row);
        i += 1;
    }
    assert(text_list(rows@) =~= spec_rename_rows(pairs@));
    rows
}

/// The operation sheet over the file list, if one is open, whether it is
/// closing, and the error it shows.
pub struct SheetHost {
    pub sheet: Option<OperationSheet>,
    pub closing: bool,
    pub error: Option<String>,
}

impl SheetHost {
    /// No sheet open.
    pub fn new() -> (host: Self)
        ensures
            host.sheet is None,
            !host.closing,
            host.error is None,
    {
        SheetHost { sheet: None, closing: false, error: None }
    }

    /// Opens a sheet in place of any other.
    pub fn open(&mut self, sheet: OperationSheet)
        ensures
            final(self).sheet == Some(sheet),
            !final(self).closing,
            final(self).error == old(self).error,
    {
        self.closing = false;
        self.sheet = Some(sheet);
    }

    /// Dismisses the sheet: nothing happens without one or while it closes;
    /// with reduced motion it goes at once with its error, otherwise it starts
    /// closing and goes when the close timer fires.
    pub fn dismiss(&mut self, reduced_motion: bool) -> (step: crate::search::DismissStep)
        ensures
            old(self).sheet is None || old(self).closing ==> step == crate::search::DismissStep::Ignored
                && *final(self) == *old(self),
            old(self).sheet is Some && !old(self).closing && reduced_motion ==> step
                == crate::search::DismissStep::Closed && final(self).sheet is None && !final(self).closing
                && final(self).error is None,
            old(self).sheet is Some && !old(self).closing && !reduced_motion ==> step
                == crate::search::DismissStep::Closing && final(self).closing && final(self).sheet == old(self).sheet
                && final(self).error == old(self).error,
    {
        if self.sheet.is_none() || self.closing {
            return crate::search::DismissStep::Ignored;
        }
        if reduced_motion {
            self.sheet = None;
            self.error = None;
            return crate::search::DismissStep::Closed;
        }
        self.closing = true;
        crate::search::DismissStep::Closing
    }

    /// The close timer fired: a closing sheet goes, with its error. Says
    /// whether it did.
    pub fn close_timer_elapsed(&mut self) -> (closed: bool)
        ensures
            closed == old(self).closing,
            closed ==> final(self).sheet is None && !final(self).closing && final(self).error is None,
            !closed ==> *final(self) == *old(self),
    {
        if !self.closing {
            return false;
        }
        self.sheet = None;
        self.closing = false;
        self.error = None;
        true
    }
}

/// The sheet that creates a folder or a file, with an empty name; none in the
/// trash or while an operation runs.
pub fn create_entry_sheet(kind: crate::ops::CreateEntryKind, in_trash: bool, running: bool) -> (sheet: Option<
    OperationSheet,
>)
    ensures
        in_trash || running ==> sheet is None,
        !in_trash && !running ==> (sheet matches Some(OperationSheet::CreateEntry { kind: k, name }) && k == kind
            && name@.len() == 0),
{
    if in_trash || running {
        return None;
    }
    Some(OperationSheet::CreateEntry { kind, name: String::new() })
}

/// The sheet that creates a symlink, storing a relative target unless told
/// otherwise; none in the trash.
pub fn symlink_sheet(in_trash: bool) -> (sheet: Option<OperationSheet>)
    ensures
        in_trash ==> sheet is None,
        !in_trash ==> (sheet matches Some(OperationSheet::Symlink { target, name, relative }) && target@.len() == 0
            && name@.len() == 0 && relative),
{
    if in_trash {
        return None;
    }
    Some(OperationSheet::Symlink { target: String::new(), name: String::new(), relative: true })
}

/// The archives to extract: the selected paths, when there are some and all
/// of them are archives; none in the trash or while an operation runs.
pub open spec fn extractable(in_trash: bool, running: bool, selected: Seq<String>, all_archives: bool) -> bool {
    !in_trash && !running && selected.len() > 0 && all_archives
}

/// Extracting the selected archives into the folder shown: the operation and
/// its progress message.
pub fn extract_here(in_trash: bool, running: bool, selected: &Vec<String>, all_archives: bool, current_directory: &str) -> (plan:
    Option<(FsOperation, String)>)
    ensures
        match plan {
            Some((op, progress)) => extractable(in_trash, running, selected@, all_archives) && op@
                == (FsOperationView::ExtractArchives {
                sources: text_list(selected@),
                destination: current_directory@,
            }) && progress@ == "Preparing archives…"@,
            None => !extractable(in_trash, running, selected@, all_archives),
        },
{
    if in_trash || running || selected.len() == 0 || !all_archives {
        return None;
    }
    let sources = crate::ops::copy_texts(selected);
    Some(
        (
            FsOperation::ExtractArchives { sources, destination: String::from_str(current_directory) },
            String::from_str("Preparing archives…"),
        ),
    )
}

/// The sheet that extracts the selected archives elsewhere, its destination
/// starting as the folder shown.
pub fn extract_to_sheet(in_trash: bool, running: bool, selected: &Vec<String>, all_archives: bool, current_directory: &str) -> (sheet:
    Option<OperationSheet>)
    ensures
        match sheet {
            Some(OperationSheet::Extract { sources, destination }) => extractable(in_trash, running, selected@, all_archives)
                && sources@ == selected@ && destination@ == current_directory@,
            Some(_) => false,
            None => !extractable(in_trash, running, selected@, all_archives),
        },
{
    if in_trash || running || selected.len() == 0 || !all_archives {
        return None;
    }
    Some(OperationSheet::Extract { sources: crate::ops::copy_texts(selected), destination: String::from_str(current_directory) })
}

} // verus!

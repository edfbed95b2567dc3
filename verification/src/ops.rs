use vstd::prelude::*;

use crate::model::opt_text;

use crate::paths::{
    components, comps_view, copy_component, lexical_relative_path, path_components, push_path, push_path_text, render,
    render_components, same_path, spec_lexical_relative_path, validate_file_name, valid_file_name,
    invalid_name_message, empty_path_message, Comp, PathComponent,
};
use crate::permissions::{permission_change, permission_outcome, PermissionChange};
use crate::files::{last_dot, last_index_of, lemma_last_index_bounds, name_extension};
use crate::labels::{decimal, decimal_string};
use crate::paths::{file_name, paths_equal, spec_file_name};
use crate::text::{parse_unsigned, replace_all_text, replace_text, spec_parse_unsigned, spec_trim, starts_with, trim};

verus! {

/// What a create sheet makes.
#[derive(Clone, Copy, Debug, PartialEq, Eq, Structural)]
pub enum CreateEntryKind {
    Folder,
    File,
}

/// What the filesystem says of an extraction destination.
#[derive(Clone, Copy, Debug, PartialEq, Eq, Structural)]
pub enum DestinationStat {
    Directory,
    NotDirectory,
    PermissionDenied,
    Missing,
}

/// One rename of a bulk rename.
pub struct RenamePair {
    pub from: String,
    pub to: String,
}

/// What a copy or move does when a name is taken at the destination.
#[derive(Clone, Copy, Debug, PartialEq, Eq, Structural)]
pub enum ConflictDecision {
    /// Ask for each conflict.
    Ask,
    /// Keep both, giving the new item a free name.
    KeepBoth,
}

/// A filesystem operation the file manager runs in the background.
pub enum FsOperation {
    ExtractArchives { sources: Vec<String>, destination: String },
    Copy { sources: Vec<String>, destination: String, conflict: ConflictDecision },
    Move { sources: Vec<String>, destination: String, conflict: ConflictDecision },
    Trash { paths: Vec<String> },
    DeletePermanently { paths: Vec<String> },
    /// Trash items, named by their info files, put back where they came from.
    RestoreTrash { info_paths: Vec<String>, replace_existing: bool },
    /// Trash items, named by their info files, deleted for good.
    PurgeTrash { info_paths: Vec<String> },
    CreateDirectory { path: String },
    CreateFile { path: String },
    CreateSymlink { link_path: String, target: String },
    SetPermissions { paths: Vec<String>, change: PermissionChange },
    Rename { from: String, to: String },
    BulkRename { pairs: Vec<RenamePair> },
}

/// An operation as plain values.
pub enum FsOperationView {
    ExtractArchives { sources: Seq<Seq<char>>, destination: Seq<char> },
    Copy { sources: Seq<Seq<char>>, destination: Seq<char>, conflict: ConflictDecision },
    Move { sources: Seq<Seq<char>>, destination: Seq<char>, conflict: ConflictDecision },
    Trash { paths: Seq<Seq<char>> },
    DeletePermanently { paths: Seq<Seq<char>> },
    RestoreTrash { info_paths: Seq<Seq<char>>, replace_existing: bool },
    PurgeTrash { info_paths: Seq<Seq<char>> },
    CreateDirectory { path: Seq<char> },
    CreateFile { path: Seq<char> },
    CreateSymlink { link_path: Seq<char>, target: Seq<char> },
    SetPermissions { paths: Seq<Seq<char>>, change: PermissionChange },
    Rename { from: Seq<char>, to: Seq<char> },
    BulkRename { pairs: Seq<(Seq<char>, Seq<char>)> },
}

/// The texts of a list.
pub open spec fn text_list(v: Seq<String>) -> Seq<Seq<char>> {
    v.map_values(|s: String| s@)
}

/// The renames of a list, as pairs of texts.
pub open spec fn pair_list(v: Seq<RenamePair>) -> Seq<(Seq<char>, Seq<char>)> {
    v.map_values(|p: RenamePair| (p.from@, p.to@))
}

impl View for FsOperation {
    type V = FsOperationView;

    open spec fn view(&self) -> FsOperationView {
        match self {
            FsOperation::ExtractArchives { sources, destination } => FsOperationView::ExtractArchives {
                sources: text_list(sources@),
                destination: destination@,
            },
            FsOperation::Copy { sources, destination, conflict } => FsOperationView::Copy {
                sources: text_list(sources@),
                destination: destination@,
                conflict: *conflict,
            },
            FsOperation::Move { sources, destination, conflict } => FsOperationView::Move {
                sources: text_list(sources@),
                destination: destination@,
                conflict: *conflict,
            },
            FsOperation::Trash { paths } => FsOperationView::Trash { paths: text_list(paths@) },
            FsOperation::DeletePermanently { paths } => FsOperationView::DeletePermanently {
                paths: text_list(paths@),
            },
            FsOperation::RestoreTrash { info_paths, replace_existing } => FsOperationView::RestoreTrash {
                info_paths: text_list(info_paths@),
                replace_existing: *replace_existing,
            },
            FsOperation::PurgeTrash { info_paths } => FsOperationView::PurgeTrash { info_paths: text_list(info_paths@) },
            FsOperation::CreateDirectory { path } => FsOperationView::CreateDirectory { path: path@ },
            FsOperation::CreateFile { path } => FsOperationView::CreateFile { path: path@ },
            FsOperation::CreateSymlink { link_path, target } => FsOperationView::CreateSymlink {
                link_path: link_path@,
                target: target@,
            },
            FsOperation::SetPermissions { paths, change } => FsOperationView::SetPermissions {
                paths: text_list(paths@),
                change: *change,
            },
            FsOperation::Rename { from, to } => FsOperationView::Rename { from: from@, to: to@ },
            FsOperation::BulkRename { pairs } => FsOperationView::BulkRename { pairs: pair_list(pairs@) },
        }
    }
}

/// An outcome as plain values.
pub open spec fn outcome_view(r: Result<FsOperation, String>) -> Result<FsOperationView, Seq<char>> {
    match r {
        Ok(op) => Ok(op@),
        Err(e) => Err(e@),
    }
}

/// `base` joined with `piece`: an absolute piece replaces the base.
pub open spec fn join(base: Seq<char>, piece: Seq<char>) -> Seq<char> {
    if piece.len() > 0 && piece[0] == '/' {
        piece
    } else {
        push_path(base, piece)
    }
}

/// Whether a path is absolute.
pub open spec fn is_absolute(path: Seq<char>) -> bool {
    path.len() > 0 && path[0] == '/'
}

/// A path taken from `base` when it is relative.
pub open spec fn absolute_in(path: Seq<char>, base: Seq<char>) -> Seq<char> {
    if is_absolute(path) {
        path
    } else {
        join(base, path)
    }
}

/// The folder a path lies in: the path without its last component, unless
/// that is the root or there is none.
pub open spec fn parent_text(path: Seq<char>) -> Option<Seq<char>> {
    let c = components(path);
    if c.len() > 0 && !(c.last() is Root) {
        Some(render(c.drop_last()))
    } else {
        None
    }
}

/// `base` joined with `piece`.
pub fn join_text(base: &str, piece: &str) -> (joined: String)
    ensures
        joined@ == join(base@, piece@),
{
    if piece.unicode_len() > 0 && piece.get_char(0) == '/' {
        return String::from_str(piece);
    }
    let mut joined = String::from_str(base);
    push_path_text(&mut joined, piece);
    joined
}

/// The folder a path lies in.
pub fn parent_path(path: &str) -> (parent: Option<String>)
    ensures
        match parent {
            Some(p) => parent_text(path@) == Some(p@),
            None => parent_text(path@) is None,
        },
{
    let comps = path_components(path);
    let n = comps.len();
    if n == 0 {
        return None;
    }
    assert(comps_view(comps@).last() == crate::paths::comp_view(comps@[n - 1]));
    match &comps[n - 1] {
        PathComponent::RootDir => return None,
        _ => {},
    }
    let mut front: Vec<PathComponent> = Vec::new();
    let mut i: usize = 0;
    while i < n - 1
        invariant
            n == comps@.len(),
            n >= 1,
            i <= n - 1,
            comps_view(front@) == comps_view(comps@).take(i as int),
        decreases n - 1 - i,
    {
        let ghost prev = front@;
        front.push(copy_component(&comps[i]));
        assert(comps_view(front@) =~= comps_view(prev).push(crate::paths::comp_view(comps@[i as int])));
        assert(comps_view(comps@).take(i as int + 1) =~= comps_view(comps@).take(i as int).push(
            comps_view(comps@)[i as int],
        ));
        i += 1;
    }
    assert(comps_view(comps@).take(n - 1) =~= comps_view(comps@).drop_last());
    Some(render_components(&front))
}

/// A copy of a list of texts.
pub(crate) fn copy_texts(v: &Vec<String>) -> (copy: Vec<String>)
    ensures
        copy@ == v@,
{
    let mut copy: Vec<String> = Vec::new();
    let mut i: usize = 0;
    while i < v.len()
        invariant
            i <= v@.len(),
            copy@ == v@.take(i as int),
        decreases v@.len() - i,
    {
        copy.push(v[i].clone());
        assert(copy@ =~= v@.take(i as int + 1));
        i += 1;
    }
    assert(v@.take(i as int) =~= v@);
    copy
}

/// The operation a create sheet asks for: the trimmed name must be one valid
/// file name, made in the current folder.
pub open spec fn spec_create_entry(kind: CreateEntryKind, name: Seq<char>, cwd: Seq<char>) -> Result<FsOperationView, Seq<char>> {
    let n = spec_trim(name);
    if !valid_file_name(n) {
        Err(invalid_name_message())
    } else {
        match kind {
            CreateEntryKind::Folder => Ok(FsOperationView::CreateDirectory { path: join(cwd, n) }),
            CreateEntryKind::File => Ok(FsOperationView::CreateFile { path: join(cwd, n) }),
        }
    }
}

/// The operation of a create sheet.
pub fn create_entry_operation(kind: CreateEntryKind, name: &str, current_directory: &str) -> (op: Result<FsOperation, String>)
    ensures
        outcome_view(op) == spec_create_entry(kind, name@, current_directory@),
{
    let name = trim(name);
    match validate_file_name(name.as_str()) {
        Err(e) => return Err(e),
        Ok(()) => {},
    }
    let path = join_text(current_directory, name.as_str());
    match kind {
        CreateEntryKind::Folder => Ok(FsOperation::CreateDirectory { path }),
        CreateEntryKind::File => Ok(FsOperation::CreateFile { path }),
    }
}

/// The message when a rename keeps the name.
pub open spec fn unchanged_name_text() -> Seq<char> {
    "The name is unchanged"@
}

/// The message when the root is renamed.
pub open spec fn rename_root_text() -> Seq<char> {
    "Cannot rename a filesystem root"@
}

/// The operation a rename sheet asks for: the trimmed name must be one valid
/// file name, given in the folder of `from`, and must change the path.
pub open spec fn spec_rename(from: Seq<char>, name: Seq<char>) -> Result<FsOperationView, Seq<char>> {
    let n = spec_trim(name);
    if !valid_file_name(n) {
        Err(invalid_name_message())
    } else {
        match parent_text(from) {
            None => Err(rename_root_text()),
            Some(parent) => {
                let to = join(parent, n);
                if same_path(to, from) {
                    Err(unchanged_name_text())
                } else {
                    Ok(FsOperationView::Rename { from, to })
                }
            },
        }
    }
}

/// The operation of a rename sheet.
pub fn rename_operation(from: &str, name: &str) -> (op: Result<FsOperation, String>)
    ensures
        outcome_view(op) == spec_rename(from@, name@),
{
    let name = trim(name);
    match validate_file_name(name.as_str()) {
        Err(e) => return Err(e),
        Ok(()) => {},
    }
    let parent = match parent_path(from) {
        Some(p) => p,
        None => return Err(String::from_str("Cannot rename a filesystem root")),
    };
    let to = join_text(parent.as_str(), name.as_str());
    if crate::paths::paths_equal(to.as_str(), from) {
        return Err(String::from_str("The name is unchanged"));
    }
    Ok(FsOperation::Rename { from: String::from_str(from), to })
}

/// The message when the home folder cannot be found.
pub open spec fn home_unavailable_text() -> Seq<char> {
    "Home directory is unavailable"@
}

/// A typed destination with "~" or a leading "~/" standing for the home folder.
pub open spec fn expand_destination(text: Seq<char>, home: Option<Seq<char>>) -> Result<Seq<char>, Seq<char>> {
    if text == "~"@ {
        match home {
            Some(h) => Ok(h),
            None => Err(home_unavailable_text()),
        }
    } else if starts_with(text, "~/"@) {
        match home {
            Some(h) => Ok(join(h, text.skip(2))),
            None => Err(home_unavailable_text()),
        }
    } else {
        Ok(text)
    }
}

/// Where an extract sheet puts the archives' contents: the trimmed text,
/// with the home folder expanded, taken from the current folder when relative.
pub open spec fn spec_extract_destination(text: Seq<char>, cwd: Seq<char>, home: Option<Seq<char>>) -> Result<Seq<char>, Seq<char>> {
    let t = spec_trim(text);
    if t.len() == 0 {
        Err("Destination folder is required"@)
    } else {
        match expand_destination(t, home) {
            Ok(expanded) => Ok(absolute_in(expanded, cwd)),
            Err(e) => Err(e),
        }
    }
}

/// The operation an extract sheet asks for, given what the filesystem says
/// of the destination.
pub open spec fn spec_extract(sources: Seq<Seq<char>>, text: Seq<char>, cwd: Seq<char>, home: Option<Seq<char>>, stat: DestinationStat) -> Result<FsOperationView, Seq<char>> {
    match spec_extract_destination(text, cwd, home) {
        Err(e) => Err(e),
        Ok(destination) => match stat {
            DestinationStat::Directory => Ok(FsOperationView::ExtractArchives { sources, destination }),
            DestinationStat::NotDirectory => Err("Destination must be a folder"@),
            DestinationStat::PermissionDenied => Err("Destination folder is not accessible"@),
            DestinationStat::Missing => Err("Destination folder does not exist"@),
        },
    }
}

fn text_is_tilde(t: &str) -> (is: bool)
    ensures
        is == (t@ == "~"@),
{
    proof {
        reveal_strlit("~");
    }
    let is = t.unicode_len() == 1 && t.get_char(0) == '~';
    if is {
        assert(t@ =~= "~"@);
    }
    is
}

fn text_starts_with_home(t: &str) -> (starts: bool)
    ensures
        starts == starts_with(t@, "~/"@),
        starts ==> t@.len() >= 2,
{
    proof {
        reveal_strlit("~/");
    }
    let starts = t.unicode_len() >= 2 && t.get_char(0) == '~' && t.get_char(1) == '/';
    proof {
        if starts {
            assert(t@.subrange(0, 2) =~= "~/"@);
        } else if t@.len() >= 2 {
            assert(t@.subrange(0, 2)[0] != '~' || t@.subrange(0, 2)[1] != '/');
        }
    }
    starts
}

/// Where an extract sheet puts the archives' contents.
pub fn extract_destination(text: &str, current_directory: &str, home: &Option<String>) -> (destination: Result<String, String>)
    ensures
        match destination {
            Ok(d) => spec_extract_destination(text@, current_directory@, opt_text(*home)) == Ok::<Seq<char>, Seq<char>>(d@),
            Err(e) => spec_extract_destination(text@, current_directory@, opt_text(*home)) == Err::<Seq<char>, Seq<char>>(e@),
        },
{
    let t = trim(text);
    if t.unicode_len() == 0 {
        return Err(String::from_str("Destination folder is required"));
    }
    let expanded = if text_is_tilde(t.as_str()) {
        match home {
            Some(h) => h.clone(),
            None => return Err(String::from_str("Home directory is unavailable")),
        }
    } else if text_starts_with_home(t.as_str()) {
        match home {
            Some(h) => {
                            join_text(h.as_str(), t.as_str().substring_char(2, t.unicode_len()))
            },
            None => return Err(String::from_str("Home directory is unavailable")),
        }
    } else {
        t
    };
    if expanded.unicode_len() > 0 && expanded.as_str().get_char(0) == '/' {
        Ok(expanded)
    } else {
        Ok(join_text(current_directory, expanded.as_str()))
    }
}

/// The operation of an extract sheet, given what the filesystem says of the destination.
pub fn extract_operation(sources: &Vec<String>, text: &str, current_directory: &str, home: &Option<String>, stat: DestinationStat) -> (op: Result<FsOperation, String>)
    ensures
        outcome_view(op) == spec_extract(text_list(sources@), text@, current_directory@, opt_text(*home), stat),
{
    let destination = match extract_destination(text, current_directory, home) {
        Ok(d) => d,
        Err(e) => return Err(e),
    };
    match stat {
        DestinationStat::Directory => Ok(FsOperation::ExtractArchives { sources: copy_texts(sources), destination }),
        DestinationStat::NotDirectory => Err(String::from_str("Destination must be a folder")),
        DestinationStat::PermissionDenied => Err(String::from_str("Destination folder is not accessible")),
        DestinationStat::Missing => Err(String::from_str("Destination folder does not exist")),
    }
}

/// What std's `std::path::absolute` gives for an absolute path: the path
/// with "." components and repeated separators dropped, without looking at
/// the current folder; an error by its text.
pub uninterp spec fn normalized_absolute(path: Seq<char>) -> Result<Seq<char>, Seq<char>>;

/// `std::path::absolute` of std on an absolute path.
/// Claimed: the result is `normalized_absolute` of the path text, and a
/// result names the same components as the path: std documents that on POSIX
/// it drops "." components and repeated separators and keeps ".." components
/// and trailing separators, none of which changes the components.
#[verifier::external_body]
fn absolute_path(path: &str) -> (result: Result<String, String>)
    requires
        is_absolute(path@),
    ensures
        match result {
            Ok(p) => normalized_absolute(path@) == Ok::<Seq<char>, Seq<char>>(p@) && components(p@) == components(
                path@,
            ),
            Err(e) => normalized_absolute(path@) == Err::<Seq<char>, Seq<char>>(e@),
        },
{
    std::path::absolute(path).map(|p| p.to_string_lossy().into_owned()).map_err(|e| e.to_string())
}

/// A path made absolute as `std::path::absolute` does: an empty path is
/// refused; an absolute path is normalised; a relative one is first taken from
/// the process's current folder, whose lookup may have failed.
pub open spec fn spec_absolute(path: Seq<char>, process_dir: Result<Seq<char>, Seq<char>>) -> Result<Seq<char>, Seq<char>> {
    if path.len() == 0 {
        Err(empty_path_message())
    } else if is_absolute(path) {
        normalized_absolute(path)
    } else {
        match process_dir {
            Ok(d) => if is_absolute(join(d, path)) {
                normalized_absolute(join(d, path))
            } else {
                Err("the current folder is not absolute"@)
            },
            Err(e) => Err(e),
        }
    }
}

/// A result of texts taken by its characters.
pub open spec fn result_text(r: Result<String, String>) -> Result<Seq<char>, Seq<char>> {
    match r {
        Ok(t) => Ok(t@),
        Err(e) => Err(e@),
    }
}

/// A path made absolute, as `spec_absolute` says.
pub(crate) fn make_absolute(path: &str, process_dir: &Result<String, String>) -> (result: Result<String, String>)
    ensures
        result_text(result) == spec_absolute(path@, result_text(*process_dir)),
        is_absolute(path@) ==> (result matches Ok(p) ==> components(p@) == components(path@)),
{
    if path.unicode_len() == 0 {
        return Err(String::from_str("cannot make an empty path absolute"));
    }
    if path.get_char(0) == '/' {
        return absolute_path(path);
    }
    match process_dir {
        Ok(d) => {
            let full = join_text(d.as_str(), path);
            if full.unicode_len() > 0 && full.as_str().get_char(0) == '/' {
                absolute_path(full.as_str())
            } else {
                Err(String::from_str("the current folder is not absolute"))
            }
        },
        Err(e) => Err(e.clone()),
    }
}

/// The operation a symlink sheet asks for: a link named by the trimmed name
/// in the current folder, to the trimmed target (with a leading "~/" for the
/// home folder, relative targets taken from the current folder), stored as a
/// path relative to the current folder or as an absolute path.
pub open spec fn spec_symlink(target: Seq<char>, name: Seq<char>, relative: bool, cwd: Seq<char>, home: Option<Seq<char>>, process_dir: Result<Seq<char>, Seq<char>>) -> Result<FsOperationView, Seq<char>> {
    let t = spec_trim(target);
    let n = spec_trim(name);
    if !valid_file_name(n) {
        Err(invalid_name_message())
    } else if t.len() == 0 {
        Err("Target path is required"@)
    } else {
        let expanded: Result<Seq<char>, Seq<char>> = if starts_with(t, "~/"@) {
            match home {
                Some(h) => Ok(join(h, t.skip(2))),
                None => Err(home_unavailable_text()),
            }
        } else {
            Ok(t)
        };
        match expanded {
            Err(e) => Err(e),
            Ok(x) => {
                let absolute_target = absolute_in(x, cwd);
                let stored = if relative {
                    spec_lexical_relative_path(absolute_target, cwd, process_dir)
                } else {
                    spec_absolute(absolute_target, process_dir)
                };
                match stored {
                    Ok(target) => Ok(FsOperationView::CreateSymlink { link_path: join(cwd, n), target }),
                    Err(e) => Err(e),
                }
            },
        }
    }
}

/// The operation of a symlink sheet.
pub fn symlink_operation(target: &str, name: &str, relative: bool, current_directory: &str, home: &Option<String>, process_dir: &Result<String, String>) -> (op: Result<FsOperation, String>)
    ensures
        outcome_view(op) == spec_symlink(target@, name@, relative, current_directory@, opt_text(*home), result_text(*process_dir)),
{
    let t = trim(target);
    let n = trim(name);
    match validate_file_name(n.as_str()) {
        Err(e) => return Err(e),
        Ok(()) => {},
    }
    if t.unicode_len() == 0 {
        return Err(String::from_str("Target path is required"));
    }
    let expanded = if text_starts_with_home(t.as_str()) {
        match home {
            Some(h) => {
                            join_text(h.as_str(), t.as_str().substring_char(2, t.unicode_len()))
            },
            None => return Err(String::from_str("Home directory is unavailable")),
        }
    } else {
        t
    };
    let absolute_target = if expanded.unicode_len() > 0 && expanded.as_str().get_char(0) == '/' {
        expanded
    } else {
        join_text(current_directory, expanded.as_str())
    };
    let link_path = join_text(current_directory, n.as_str());
    let stored = if relative {
        lexical_relative_path(absolute_target.as_str(), current_directory, process_dir)
    } else {
        make_absolute(absolute_target.as_str(), process_dir)
    };
    match stored {
        Ok(target) => Ok(FsOperation::CreateSymlink { link_path, target }),
        Err(e) => Err(e),
    }
}

/// Which part of each name a bulk rename rewrites.
#[derive(Clone, Copy, Debug, PartialEq, Eq, Structural)]
pub enum RenameScope {
    Stem,
    Extension,
    FullName,
}

/// The fields of a bulk rename sheet, as typed.
pub struct BulkRenameSheet {
    pub paths: Vec<String>,
    pub find: String,
    pub replace: String,
    pub prefix: String,
    pub suffix: String,
    pub start: String,
    pub padding: String,
    pub regex: bool,
    pub numbering: bool,
    pub scope: RenameScope,
}

/// `regex::Regex` of the regex crate.
#[verifier::external_type_specification]
#[verifier::external_body]
pub struct ExRegex(regex::Regex);

/// The error text of `regex::Regex::new` for a pattern, or none when the
/// pattern compiles.
pub uninterp spec fn regex_error(pattern: Seq<char>) -> Option<Seq<char>>;

/// `Regex::replace_all` of the regex crate for a pattern, a text and a
/// replacement (where `$name` refers to a group).
pub uninterp spec fn regex_replaced(pattern: Seq<char>, text: Seq<char>, replacement: Seq<char>) -> Seq<char>;

/// A compiled regular expression with the pattern it came from.
pub struct CompiledPattern {
    regex: regex::Regex,
    pattern: String,
}

impl CompiledPattern {
    /// The pattern the expression was compiled from.
    pub closed spec fn pattern(&self) -> Seq<char> {
        self.pattern@
    }
}

/// `regex::Regex::new` of the regex crate, with the error as its `Display` text.
/// Claimed: it fails exactly when `regex_error` names an error, with that text.
#[verifier::external_body]
fn compile_pattern(pattern: &str) -> (compiled: Result<CompiledPattern, String>)
    ensures
        match compiled {
            Ok(c) => regex_error(pattern@) is None && c.pattern() == pattern@,
            Err(e) => regex_error(pattern@) == Some(e@),
        },
{
    match regex::Regex::new(pattern) {
        Ok(regex) => Ok(CompiledPattern { regex, pattern: pattern.to_string() }),
        Err(error) => Err(error.to_string()),
    }
}

/// `Regex::replace_all` of the regex crate, with a text replacement.
/// Claimed: the result is `regex_replaced` of the pattern, text and replacement.
#[verifier::external_body]
fn replace_matches(compiled: &CompiledPattern, text: &str, replacement: &str) -> (replaced: String)
    ensures
        replaced@ == regex_replaced(compiled.pattern(), text@, replacement@),
{
    compiled.regex.replace_all(text, replacement).into_owned()
}

/// The stem of a file name, as `Path::file_stem` reads it: the text before
/// the last '.', unless the name is "..", has no '.', or its only '.' leads it.
pub open spec fn name_stem(name: Seq<char>) -> Seq<char> {
    let i = last_index_of(name, '.');
    if name == seq!['.', '.'] || i <= 0 {
        name
    } else {
        name.take(i)
    }
}

/// The extension of a file name, or nothing.
pub open spec fn extension_or_empty(name: Seq<char>) -> Seq<char> {
    match name_extension(name) {
        Some(e) => e,
        None => Seq::empty(),
    }
}

pub(crate) fn name_parts(name: &str) -> (parts: (String, String))
    ensures
        parts.0@ == name_stem(name@),
        parts.1@ == extension_or_empty(name@),
{
    let n = name.unicode_len();
    let after = last_dot(name);
    proof {
        lemma_last_index_bounds(name@, '.');
    }
    let dots = n == 2 && name.get_char(0) == '.' && name.get_char(1) == '.';
    proof {
        if dots {
            assert(name@ =~= seq!['.', '.']);
        }
        if name@ == seq!['.', '.'] {
            assert(name@[0] == '.' && name@[1] == '.');
        }
    }
    if after <= 1 || dots {
        return (String::from_str(name), String::new());
    }
    (String::from_str(name.substring_char(0, after - 1)), String::from_str(name.substring_char(after, n)))
}

/// The number `n` in decimal, padded with leading zeros to `width` digits.
pub open spec fn zero_padded(n: nat, width: nat) -> Seq<char> {
    let d = decimal(n);
    if d.len() >= width {
        d
    } else {
        Seq::new((width - d.len()) as nat, |i: int| '0') + d
    }
}

fn zero_padded_text(n: u64, width: usize) -> (text: String)
    ensures
        text@ == zero_padded(n as nat, width as nat),
{
    let digits = decimal_string(n);
    let len = digits.unicode_len();
    if len >= width {
        return digits;
    }
    let mut text = String::new();
    let mut i: usize = 0;
    while i < width - len
        invariant
            len < width,
            i <= width - len,
            text@ == Seq::new(i as nat, |j: int| '0'),
        decreases width - len - i,
    {
        text.append("0");
        proof {
            reveal_strlit("0");
        }
        assert(text@ =~= Seq::new((i + 1) as nat, |j: int| '0'));
        i += 1;
    }
    text.append(digits.as_str());
    text
}

/// The part of the name that the rules rewrite, rewritten: by the regular
/// expression `find` when asked for and `find` is not empty, by plain
/// replacement of `find` otherwise, untouched when `find` is empty.
pub open spec fn rewritten(component: Seq<char>, find: Seq<char>, replace: Seq<char>, use_regex: bool) -> Seq<char> {
    if use_regex && find.len() > 0 {
        regex_replaced(find, component, replace)
    } else if find.len() == 0 {
        component
    } else {
        replace_text(component, find, replace)
    }
}

/// The fields of a bulk rename sheet as plain values.
pub struct BulkRenameView {
    pub paths: Seq<Seq<char>>,
    pub find: Seq<char>,
    pub replace: Seq<char>,
    pub prefix: Seq<char>,
    pub suffix: Seq<char>,
    pub start: Seq<char>,
    pub padding: Seq<char>,
    pub regex: bool,
    pub numbering: bool,
    pub scope: RenameScope,
}

impl View for BulkRenameSheet {
    type V = BulkRenameView;

    open spec fn view(&self) -> BulkRenameView {
        BulkRenameView {
            paths: text_list(self.paths@),
            find: self.find@,
            replace: self.replace@,
            prefix: self.prefix@,
            suffix: self.suffix@,
            start: self.start@,
            padding: self.padding@,
            regex: self.regex,
            numbering: self.numbering,
            scope: self.scope,
        }
    }
}

/// The new name of the item `original` at place `index`.
pub open spec fn new_item_name(s: BulkRenameView, original: Seq<char>, index: nat, start: nat, padding: nat) -> Seq<char> {
    let stem = name_stem(original);
    let ext = extension_or_empty(original);
    let component = match s.scope {
        RenameScope::Stem => stem,
        RenameScope::Extension => ext,
        RenameScope::FullName => original,
    };
    let base = s.prefix + rewritten(component, s.find, s.replace, s.regex) + s.suffix;
    let transformed = if s.numbering { base + "-"@ + zero_padded(start + index, padding) } else { base };
    match s.scope {
        RenameScope::Stem => if ext.len() > 0 { transformed + "."@ + ext } else { transformed },
        RenameScope::Extension => stem + "."@ + transformed,
        RenameScope::FullName => transformed,
    }
}

proof fn lemma_after_last_index(s: Seq<char>, c: char)
    ensures
        forall|j: int| last_index_of(s, c) < j < s.len() ==> s[j] != c,
    decreases s.len(),
{
    lemma_last_index_bounds(s, c);
    if s.len() > 0 && s.last() != c {
        lemma_last_index_bounds(s.drop_last(), c);
        lemma_after_last_index(s.drop_last(), c);
        assert forall|j: int| last_index_of(s, c) < j < s.len() implies s[j] != c by {
            if j < s.len() - 1 {
                assert(s.drop_last()[j] == s[j]);
            }
        }
    }
}

proof fn lemma_last_index_of_joined(x: Seq<char>, e: Seq<char>)
    requires
        forall|j: int| 0 <= j < e.len() ==> e[j] != '.',
    ensures
        last_index_of(x + seq!['.'] + e, '.') == x.len(),
    decreases e.len(),
{
    let w = x + seq!['.'] + e;
    if e.len() == 0 {
        assert(w.last() == '.');
    } else {
        assert(w.last() == e.last());
        assert(w.drop_last() =~= x + seq!['.'] + e.drop_last());
        lemma_last_index_of_joined(x, e.drop_last());
    }
}

/// Renaming in the name-without-extension scope keeps the extension: the new
/// name is what renaming the whole stem gives, followed by "." and the
/// original extension when there is one; a name without an extension gets no
/// dot. The new name then has the original's extension whenever there is
/// something before it.
pub proof fn lemma_stem_rename_keeps_extension(
    s: BulkRenameView,
    original: Seq<char>,
    index: nat,
    start: nat,
    padding: nat,
)
    requires
        s.scope == RenameScope::Stem,
    ensures
        ({
            let whole = BulkRenameView { scope: RenameScope::FullName, ..s };
            let renamed_stem = new_item_name(whole, name_stem(original), index, start, padding);
            let n = new_item_name(s, original, index, start, padding);
            &&& (name_extension(original) is None || name_extension(original) == Some(Seq::<char>::empty()))
                ==> n == renamed_stem
            &&& (name_extension(original) is Some && name_extension(original)->Some_0.len() > 0 ==> {
                let e = name_extension(original)->Some_0;
                &&& n == renamed_stem + seq!['.'] + e
                &&& renamed_stem.len() > 0 ==> name_extension(n) == Some(e)
            })
        }),
{
    let whole = BulkRenameView { scope: RenameScope::FullName, ..s };
    let renamed_stem = new_item_name(whole, name_stem(original), index, start, padding);
    let n = new_item_name(s, original, index, start, padding);
    reveal_strlit(".");
    if name_extension(original) is Some && name_extension(original)->Some_0.len() > 0 {
        let e = name_extension(original)->Some_0;
        assert(n =~= renamed_stem + seq!['.'] + e);
        if renamed_stem.len() > 0 {
            let i = last_index_of(original, '.');
            lemma_after_last_index(original, '.');
            lemma_last_index_bounds(original, '.');
            assert forall|j: int| 0 <= j < e.len() implies e[j] != '.' by {
                assert(e[j] == original[i + 1 + j]);
            }
            lemma_last_index_of_joined(renamed_stem, e);
            assert(n.subrange(renamed_stem.len() as int + 1, n.len() as int) =~= e);
        }
    }
}

/// Renaming in the extension scope keeps the name before the extension: the
/// new name is the original stem, a ".", and what renaming the whole
/// extension gives.
pub proof fn lemma_extension_rename_keeps_stem(
    s: BulkRenameView,
    original: Seq<char>,
    index: nat,
    start: nat,
    padding: nat,
)
    requires
        s.scope == RenameScope::Extension,
    ensures
        new_item_name(s, original, index, start, padding) == name_stem(original) + seq!['.'] + new_item_name(
            BulkRenameView { scope: RenameScope::FullName, ..s },
            extension_or_empty(original),
            index,
            start,
            padding,
        ),
{
    reveal_strlit(".");
}

/// Where the item `from` at place `index` goes, or why it cannot be renamed.
pub open spec fn item_target(s: BulkRenameView, from: Seq<char>, index: nat, start: nat, padding: nat) -> Result<Seq<char>, Seq<char>> {
    match spec_file_name(from) {
        None => Err("Name is not valid UTF-8: "@ + from),
        Some(original) => if s.scope == RenameScope::Extension && extension_or_empty(original).len() == 0 {
            Err(from + " has no extension"@)
        } else {
            let new_name = new_item_name(s, original, index, start, padding);
            if !valid_file_name(new_name) {
                Err(invalid_name_message())
            } else {
                match parent_text(from) {
                    None => Err("Path has no parent: "@ + from),
                    Some(p) => Ok(join(p, new_name)),
                }
            }
        },
    }
}

/// Whether a list names the location of `path`.
pub open spec fn names_path(list: Seq<Seq<char>>, path: Seq<char>) -> bool {
    exists|j: int| 0 <= j < list.len() && same_path(#[trigger] list[j], path)
}

/// The targets of the first `n` items, and the failure that stopped them, if any.
pub open spec fn plan_items(s: BulkRenameView, start: nat, padding: nat, n: int) -> (Seq<Seq<char>>, Option<Seq<char>>)
    decreases n,
{
    if n <= 0 {
        (Seq::empty(), None)
    } else {
        let prev = plan_items(s, start, padding, n - 1);
        if prev.1 is Some {
            prev
        } else {
            match item_target(s, s.paths[n - 1], (n - 1) as nat, start, padding) {
                Err(e) => (prev.0, Some(e)),
                Ok(t) => if names_path(prev.0, t) {
                    (prev.0, Some("Two items would become "@ + t))
                } else {
                    (prev.0.push(t), None)
                },
            }
        }
    }
}

/// The rules of a bulk rename sheet applied to its items: the numbering
/// start and padding must be numbers (padding at most 12), a regular
/// expression must compile; then each item gets its target until one fails
/// or two items would get the same target.
pub open spec fn spec_bulk_plan(s: BulkRenameView) -> (Seq<Seq<char>>, Option<Seq<char>>) {
    let start = spec_parse_unsigned(spec_trim(s.start), 10, usize::MAX as nat);
    let padding = spec_parse_unsigned(spec_trim(s.padding), 10, usize::MAX as nat);
    if start is None {
        (Seq::empty(), Some("Numbering start must be a positive integer"@))
    } else if padding is None {
        (Seq::empty(), Some("Padding must be an integer"@))
    } else if s.regex && s.find.len() > 0 && regex_error(s.find) is Some {
        (Seq::empty(), Some("Invalid regex: "@ + regex_error(s.find)->Some_0))
    } else {
        let p = padding->Some_0;
        plan_items(s, start->Some_0, if p > 12 { 12 } else { p }, s.paths.len() as int)
    }
}

/// The targets of a bulk rename worked out from its rules, before the
/// filesystem is asked whether they exist.
pub struct BulkRenamePlan {
    pub targets: Vec<String>,
    pub failure: Option<String>,
}

/// Whether the numbers of a numbered rename fit in a `usize`.
pub open spec fn numbering_fits(s: BulkRenameView) -> bool {
    s.numbering ==> match spec_parse_unsigned(spec_trim(s.start), 10, usize::MAX as nat) {
        Some(start) => start + s.paths.len() <= usize::MAX + 1,
        None => true,
    }
}

/// Whether `compiled` is what the sheet's rules need: the compiled `find`
/// when a regular expression is asked for and `find` is not empty.
pub open spec fn pattern_ready(s: BulkRenameView, compiled: Option<CompiledPattern>) -> bool {
    if s.regex && s.find.len() > 0 {
        compiled matches Some(c) && c.pattern() == s.find
    } else {
        true
    }
}

fn rewrite_component(component: &str, sheet: &BulkRenameSheet, compiled: &Option<CompiledPattern>) -> (out: String)
    requires
        pattern_ready(sheet@, *compiled),
    ensures
        out@ == rewritten(component@, sheet.find@, sheet.replace@, sheet.regex),
{
    if sheet.regex && sheet.find.unicode_len() > 0 {
        match compiled {
            Some(c) => replace_matches(c, component, sheet.replace.as_str()),
            None => String::new(),
        }
    } else if sheet.find.unicode_len() == 0 {
        String::from_str(component)
    } else {
        replace_all_text(component, sheet.find.as_str(), sheet.replace.as_str())
    }
}

fn new_name_text(sheet: &BulkRenameSheet, original: &str, index: usize, start: usize, padding: usize, compiled: &Option<CompiledPattern>) -> (name: String)
    requires
        pattern_ready(sheet@, *compiled),
        start + index <= usize::MAX,
    ensures
        name@ == new_item_name(sheet@, original@, index as nat, start as nat, padding as nat),
{
    let (stem, ext) = name_parts(original);
    let component: &str = match sheet.scope {
        RenameScope::Stem => stem.as_str(),
        RenameScope::Extension => ext.as_str(),
        RenameScope::FullName => original,
    };
    let replaced = rewrite_component(component, sheet, compiled);
    let mut transformed = sheet.prefix.clone();
    transformed.append(replaced.as_str());
    transformed.append(sheet.suffix.as_str());
    if sheet.numbering {
        let number = start + index;
        transformed.append("-");
        let digits = zero_padded_text(number as u64, padding);
        transformed.append(digits.as_str());
    }
    match sheet.scope {
        RenameScope::Stem => {
            if ext.unicode_len() > 0 {
                transformed.append(".");
                transformed.append(ext.as_str());
            }
            transformed
        },
        RenameScope::Extension => {
            let mut name = stem;
            name.append(".");
            name.append(transformed.as_str());
            name
        },
        RenameScope::FullName => transformed,
    }
}

fn item_target_text(sheet: &BulkRenameSheet, from: &str, index: usize, start: usize, padding: usize, compiled: &Option<CompiledPattern>) -> (target: Result<String, String>)
    requires
        pattern_ready(sheet@, *compiled),
        start + index <= usize::MAX,
    ensures
        result_text(target) == item_target(sheet@, from@, index as nat, start as nat, padding as nat),
{
    let original = match file_name(from) {
        Some(name) => name,
        None => {
            let mut m = String::from_str("Name is not valid UTF-8: ");
            m.append(from);
            return Err(m);
        },
    };
    if sheet.scope == RenameScope::Extension {
        let (_, ext) = name_parts(original.as_str());
        if ext.unicode_len() == 0 {
            let mut m = String::from_str(from);
            m.append(" has no extension");
            return Err(m);
        }
    }
    let new_name = new_name_text(sheet, original.as_str(), index, start, padding, compiled);
    match validate_file_name(new_name.as_str()) {
        Err(e) => return Err(e),
        Ok(()) => {},
    }
    match parent_path(from) {
        None => {
            let mut m = String::from_str("Path has no parent: ");
            m.append(from);
            Err(m)
        },
        Some(p) => Ok(join_text(p.as_str(), new_name.as_str())),
    }
}

proof fn lemma_plan_len(s: BulkRenameView, start: nat, padding: nat, n: int)
    requires
        0 <= n,
    ensures
        plan_items(s, start, padding, n).0.len() <= n,
    decreases n,
{
    if n > 0 {
        lemma_plan_len(s, start, padding, n - 1);
    }
}

proof fn lemma_plan_stops(s: BulkRenameView, start: nat, padding: nat, k: int, m: int)
    requires
        0 <= k <= m,
        plan_items(s, start, padding, k).1 is Some,
    ensures
        plan_items(s, start, padding, m) == plan_items(s, start, padding, k),
    decreases m - k,
{
    if k < m {
        lemma_plan_stops(s, start, padding, k, m - 1);
    }
}

fn names_path_exec(list: &Vec<String>, path: &str) -> (found: bool)
    ensures
        found == names_path(text_list(list@), path@),
{
    let mut i: usize = 0;
    while i < list.len()
        invariant
            i <= list@.len(),
            forall|j: int| 0 <= j < i ==> !same_path(#[trigger] text_list(list@)[j], path@),
        decreases list@.len() - i,
    {
        if paths_equal(list[i].as_str(), path) {
            assert(same_path(text_list(list@)[i as int], path@));
            return true;
        }
        i += 1;
    }
    false
}

/// The plan as plain values.
pub open spec fn plan_view(plan: BulkRenamePlan) -> (Seq<Seq<char>>, Option<Seq<char>>) {
    (text_list(plan.targets@), match plan.failure {
        Some(f) => Some(f@),
        None => None,
    })
}

fn failed_plan(message: &str) -> (plan: BulkRenamePlan)
    ensures
        plan_view(plan) == (Seq::<Seq<char>>::empty(), Some(message@)),
        plan.targets@.len() == 0,
{
    let plan = BulkRenamePlan { targets: Vec::new(), failure: Some(String::from_str(message)) };
    assert(text_list(plan.targets@) =~= Seq::<Seq<char>>::empty());
    plan
}

/// Works out the targets of a bulk rename from its rules.
pub fn bulk_rename_plan(sheet: &BulkRenameSheet) -> (plan: BulkRenamePlan)
    requires
        numbering_fits(sheet@),
    ensures
        plan_view(plan) == spec_bulk_plan(sheet@),
        plan.targets@.len() <= sheet.paths@.len(),
{
    let start = match parse_unsigned(trim(sheet.start.as_str()).as_str(), 10, usize::MAX as u64) {
        Some(v) => v as usize,
        None => return failed_plan("Numbering start must be a positive integer"),
    };
    let padding = match parse_unsigned(trim(sheet.padding.as_str()).as_str(), 10, usize::MAX as u64) {
        Some(v) => if v > 12 { 12 } else { v as usize },
        None => return failed_plan("Padding must be an integer"),
    };
    let compiled: Option<CompiledPattern> = if sheet.regex && sheet.find.unicode_len() > 0 {
        match compile_pattern(sheet.find.as_str()) {
            Ok(c) => Some(c),
            Err(e) => {
                let mut m = String::from_str("Invalid regex: ");
                m.append(e.as_str());
                return failed_plan(m.as_str());
            },
        }
    } else {
        None
    };
    let ghost s = sheet@;
    assert(spec_bulk_plan(s) == plan_items(s, start as nat, padding as nat, s.paths.len() as int));
    proof {
        lemma_plan_len(s, start as nat, padding as nat, s.paths.len() as int);
    }
    let mut targets: Vec<String> = Vec::new();
    let mut i: usize = 0;
    while i < sheet.paths.len()
        invariant
            s == sheet@,
            i <= sheet.paths@.len(),
            pattern_ready(s, compiled),
            sheet.numbering ==> start + sheet.paths@.len() <= usize::MAX + 1,
            spec_bulk_plan(s) == plan_items(s, start as nat, padding as nat, s.paths.len() as int),
            s.paths.len() == sheet.paths@.len(),
            targets@.len() <= i,
            plan_items(s, start as nat, padding as nat, i as int) == (text_list(targets@), None::<Seq<char>>),
        decreases sheet.paths@.len() - i,
    {
        let from = sheet.paths[i].as_str();
        assert(s.paths[i as int] == from@);
        let target = if sheet.numbering {
            item_target_text(sheet, from, i, start, padding, &compiled)
        } else {
            item_target_text(sheet, from, i, 0, padding, &compiled)
        };
        assert(!sheet.numbering ==> new_item_name(s, spec_file_name(from@)->Some_0, i as nat, 0, padding as nat)
            == new_item_name(s, spec_file_name(from@)->Some_0, i as nat, start as nat, padding as nat));
        match target {
            Err(e) => {
                let plan = BulkRenamePlan { targets, failure: Some(e) };
                proof {
                    assert(plan_items(s, start as nat, padding as nat, i as int + 1) == plan_view(plan));
                    lemma_plan_stops(s, start as nat, padding as nat, i as int + 1, sheet.paths@.len() as int);
                }
                return plan;
            },
            Ok(t) => {
                if names_path_exec(&targets, t.as_str()) {
                    let mut m = String::from_str("Two items would become ");
                    m.append(t.as_str());
                    let plan = BulkRenamePlan { targets, failure: Some(m) };
                    proof {
                        assert(plan_items(s, start as nat, padding as nat, i as int + 1) == plan_view(plan));
                        lemma_plan_stops(s, start as nat, padding as nat, i as int + 1, sheet.paths@.len() as int);
                    }
                    return plan;
                }
                let ghost prev = targets@;
                targets.push(t);
                assert(text_list(targets@) =~= text_list(prev).push(t@));
            },
        }
        i += 1;
    }
    assert(s.paths.len() == sheet.paths@.len());
    BulkRenamePlan { targets, failure: None }
}

/// The renames of the first `n` targets, or the first target that already
/// exists without being one of the items renamed.
pub open spec fn check_targets(paths: Seq<Seq<char>>, targets: Seq<Seq<char>>, existing: Seq<Seq<char>>, n: int) -> Result<Seq<(Seq<char>, Seq<char>)>, Seq<char>>
    decreases n,
{
    if n <= 0 {
        Ok(Seq::empty())
    } else {
        match check_targets(paths, targets, existing, n - 1) {
            Err(e) => Err(e),
            Ok(pairs) => {
                let to = targets[n - 1];
                let from = paths[n - 1];
                if names_path(existing, to) && !names_path(paths, to) {
                    Err("Destination already exists: "@ + to)
                } else if !same_path(to, from) {
                    Ok(pairs.push((from, to)))
                } else {
                    Ok(pairs)
                }
            },
        }
    }
}

/// The renames of a bulk rename: its planned targets checked against the
/// paths that exist (an existing target must be one of the items renamed);
/// items whose path does not change are left out; a failure of the plan, or
/// no rename at all, is an error.
pub open spec fn spec_bulk_preview(paths: Seq<Seq<char>>, plan: (Seq<Seq<char>>, Option<Seq<char>>), existing: Seq<Seq<char>>) -> Result<Seq<(Seq<char>, Seq<char>)>, Seq<char>> {
    match check_targets(paths, plan.0, existing, plan.0.len() as int) {
        Err(e) => Err(e),
        Ok(pairs) => match plan.1 {
            Some(f) => Err(f),
            None => if pairs.len() == 0 {
                Err("The rename rules do not change any names"@)
            } else {
                Ok(pairs)
            },
        },
    }
}

/// Renames as plain values.
pub open spec fn pairs_view(r: Result<Vec<RenamePair>, String>) -> Result<Seq<(Seq<char>, Seq<char>)>, Seq<char>> {
    match r {
        Ok(p) => Ok(pair_list(p@)),
        Err(e) => Err(e@),
    }
}

/// The renames of a bulk rename, once the filesystem has said which planned
/// targets exist (`existing_paths`).
pub fn bulk_rename_preview(sheet: &BulkRenameSheet, plan: &BulkRenamePlan, existing_paths: &Vec<String>) -> (renames: Result<Vec<RenamePair>, String>)
    requires
        plan.targets@.len() <= sheet.paths@.len(),
    ensures
        pairs_view(renames) == spec_bulk_preview(text_list(sheet.paths@), plan_view(*plan), text_list(existing_paths@)),
{
    let ghost paths = text_list(sheet.paths@);
    let ghost targets = text_list(plan.targets@);
    let ghost existing = text_list(existing_paths@);
    let mut pairs: Vec<RenamePair> = Vec::new();
    assert(pair_list(pairs@) =~= Seq::<(Seq<char>, Seq<char>)>::empty());
    let mut i: usize = 0;
    while i < plan.targets.len()
        invariant
            paths == text_list(sheet.paths@),
            targets == text_list(plan.targets@),
            existing == text_list(existing_paths@),
            plan.targets@.len() <= sheet.paths@.len(),
            i <= plan.targets@.len(),
            check_targets(paths, targets, existing, i as int) == Ok::<Seq<(Seq<char>, Seq<char>)>, Seq<char>>(pair_list(pairs@)),
        decreases plan.targets@.len() - i,
    {
        let to = plan.targets[i].as_str();
        let from = sheet.paths[i].as_str();
        assert(targets[i as int] == to@ && paths[i as int] == from@);
        if names_path_exec(existing_paths, to) && !names_path_exec(&sheet.paths, to) {
            let mut m = String::from_str("Destination already exists: ");
            m.append(to);
            proof {
                lemma_check_stops(paths, targets, existing, i as int + 1, plan.targets@.len() as int);
            }
            return Err(m);
        }
        if !paths_equal(to, from) {
            let ghost prev = pairs@;
            pairs.push(RenamePair { from: String::from_str(from), to: String::from_str(to) });
            assert(pair_list(pairs@) =~= pair_list(prev).push((from@, to@)));
        }
        i += 1;
    }
    match &plan.failure {
        Some(f) => Err(f.clone()),
        None => {
            if pairs.len() == 0 {
                Err(String::from_str("The rename rules do not change any names"))
            } else {
                Ok(pairs)
            }
        },
    }
}

proof fn lemma_check_stops(paths: Seq<Seq<char>>, targets: Seq<Seq<char>>, existing: Seq<Seq<char>>, k: int, m: int)
    requires
        0 <= k <= m,
        check_targets(paths, targets, existing, k) is Err,
    ensures
        check_targets(paths, targets, existing, m) == check_targets(paths, targets, existing, k),
    decreases m - k,
{
    if k < m {
        lemma_check_stops(paths, targets, existing, k, m - 1);
    }
}

/// An open operation sheet, with its fields as typed.
pub enum OperationSheet {
    Extract { sources: Vec<String>, destination: String },
    CreateEntry { kind: CreateEntryKind, name: String },
    /// Read only: what the folder shown holds, as loaded.
    FolderProperties { path: String, item_count: usize, file_bytes: u64, mode: Option<u32>, readonly: bool },
    Symlink { target: String, name: String, relative: bool },
    Permissions { paths: Vec<String>, original_modes: Vec<u32>, current_modes: Vec<u32>, octal: String },
    Rename { from: String, name: String },
    BulkRename(BulkRenameSheet),
}

/// What the process and the filesystem say, gathered for a sheet: the
/// process's current folder (or why it could not be read), what the extract
/// destination is, and which planned bulk rename targets exist.
pub struct SheetFacts {
    pub process_dir: Result<String, String>,
    pub destination: DestinationStat,
    pub existing_paths: Vec<String>,
}

/// Whether `outcome` is what `sheet` asks for in folder `cwd`, with home
/// folder `home` and the gathered facts.
pub open spec fn sheet_outcome(sheet: OperationSheet, cwd: Seq<char>, home: Option<Seq<char>>, facts: SheetFacts, outcome: Result<FsOperationView, Seq<char>>) -> bool {
    match sheet {
        OperationSheet::Extract { sources, destination } => outcome == spec_extract(
            text_list(sources@),
            destination@,
            cwd,
            home,
            facts.destination,
        ),
        OperationSheet::CreateEntry { kind, name } => outcome == spec_create_entry(kind, name@, cwd),
        OperationSheet::FolderProperties { .. } => outcome == Err::<FsOperationView, Seq<char>>(
            "Folder properties do not apply changes"@,
        ),
        OperationSheet::Symlink { target, name, relative } => outcome == spec_symlink(
            target@,
            name@,
            relative,
            cwd,
            home,
            result_text(facts.process_dir),
        ),
        OperationSheet::Permissions { paths, original_modes, current_modes, octal } => match outcome {
            Ok(FsOperationView::SetPermissions { paths: p, change }) => p == text_list(paths@) && permission_outcome(
                original_modes@,
                current_modes@,
                octal@,
                Ok(change),
            ),
            Ok(_) => false,
            Err(e) => permission_outcome(original_modes@, current_modes@, octal@, Err(e)),
        },
        OperationSheet::Rename { from, name } => outcome == spec_rename(from@, name@),
        OperationSheet::BulkRename(b) => outcome == match spec_bulk_preview(
            b@.paths,
            spec_bulk_plan(b@),
            text_list(facts.existing_paths@),
        ) {
            Ok(pairs) => Ok(FsOperationView::BulkRename { pairs }),
            Err(e) => Err(e),
        },
    }
}

/// Whether a sheet can be turned into an operation without a number overflowing.
pub open spec fn sheet_fits(sheet: OperationSheet) -> bool {
    match sheet {
        OperationSheet::BulkRename(b) => numbering_fits(b@),
        _ => true,
    }
}

/// The operation that a sheet asks for, given the home folder and the gathered facts.
pub fn operation_from_sheet_with(sheet: &OperationSheet, current_directory: &str, home: &Option<String>, facts: &SheetFacts) -> (op: Result<FsOperation, String>)
    requires
        sheet_fits(*sheet),
    ensures
        sheet_outcome(*sheet, current_directory@, opt_text(*home), *facts, outcome_view(op)),
{
    match sheet {
        OperationSheet::Extract { sources, destination } => extract_operation(
            sources,
            destination.as_str(),
            current_directory,
            home,
            facts.destination,
        ),
        OperationSheet::CreateEntry { kind, name } => create_entry_operation(*kind, name.as_str(), current_directory),
        OperationSheet::FolderProperties { .. } => Err(String::from_str("Folder properties do not apply changes")),
        OperationSheet::Symlink { target, name, relative } => symlink_operation(
            target.as_str(),
            name.as_str(),
            *relative,
            current_directory,
            home,
            &facts.process_dir,
        ),
        OperationSheet::Permissions { paths, original_modes, current_modes, octal } => {
            match permission_change(original_modes, current_modes, octal.as_str()) {
                Ok(change) => Ok(FsOperation::SetPermissions { paths: copy_texts(paths), change }),
                Err(e) => Err(e),
            }
        },
        OperationSheet::Rename { from, name } => rename_operation(from.as_str(), name.as_str()),
        OperationSheet::BulkRename(b) => {
            let plan = bulk_rename_plan(b);
            match bulk_rename_preview(b, &plan, &facts.existing_paths) {
                Ok(pairs) => Ok(FsOperation::BulkRename { pairs }),
                Err(e) => Err(e),
            }
        },
    }
}

/// `dirs::home_dir` of the dirs crate, as text (none when it is not UTF-8).
/// Nothing is claimed of the result: it comes from the environment.
#[verifier::external_body]
fn home_dir_text() -> (home: Option<String>) {
    dirs::home_dir().and_then(|path| path.into_os_string().into_string().ok())
}

/// The operation that a sheet asks for in the folder `current_directory`,
/// with the home folder looked up and the gathered facts.
pub fn operation_from_sheet(sheet: &OperationSheet, current_directory: &str, facts: &SheetFacts) -> (op: Result<FsOperation, String>)
    requires
        sheet_fits(*sheet),
    ensures
        exists|home: Option<Seq<char>>| sheet_outcome(*sheet, current_directory@, home, *facts, outcome_view(op)),
{
    let home = home_dir_text();
    operation_from_sheet_with(sheet, current_directory, &home, facts)
}

proof fn lemma_plan_distinct(s: BulkRenameView, start: nat, padding: nat, n: int)
    requires
        0 <= n,
    ensures
        ({
            let t = plan_items(s, start, padding, n).0;
            forall|i: int, j: int| 0 <= i < j < t.len() ==> !same_path(#[trigger] t[i], #[trigger] t[j])
        }),
    decreases n,
{
    if n > 0 {
        lemma_plan_distinct(s, start, padding, n - 1);
        let prev = plan_items(s, start, padding, n - 1);
        if prev.1 is None {
            match item_target(s, s.paths[n - 1], (n - 1) as nat, start, padding) {
                Ok(t) => {
                    if !names_path(prev.0, t) {
                        let cur = prev.0.push(t);
                        assert forall|i: int, j: int| 0 <= i < j < cur.len() implies !same_path(
                            #[trigger] cur[i],
                            #[trigger] cur[j],
                        ) by {
                            if j == cur.len() - 1 {
                                assert(cur[i] == prev.0[i]);
                                if same_path(cur[i], cur[j]) {
                                    assert(same_path(prev.0[i], t));
                                }
                            } else {
                                assert(cur[i] == prev.0[i] && cur[j] == prev.0[j]);
                            }
                        }
                    }
                },
                Err(_) => {},
            }
        }
    }
}

proof fn lemma_check_pairs(paths: Seq<Seq<char>>, targets: Seq<Seq<char>>, existing: Seq<Seq<char>>, n: int)
    requires
        0 <= n <= targets.len(),
        targets.len() <= paths.len(),
        check_targets(paths, targets, existing, n) is Ok,
    ensures
        ({
            let pairs = check_targets(paths, targets, existing, n)->Ok_0;
            forall|k: int| 0 <= k < pairs.len() ==> exists|i: int| 0 <= i < n && (#[trigger] pairs[k]) == (paths[i], targets[i])
                && !same_path(targets[i], paths[i])
        }),
        ({
            let pairs = check_targets(paths, targets, existing, n)->Ok_0;
            forall|k: int, l: int| 0 <= k < l < pairs.len() ==> exists|i: int, j: int| 0 <= i < j < n
                && #[trigger] pairs[k] == (paths[i], targets[i]) && #[trigger] pairs[l] == (paths[j], targets[j])
        }),
    decreases n,
{
    if n > 0 {
        lemma_check_pairs(paths, targets, existing, n - 1);
        let pairs = check_targets(paths, targets, existing, n - 1)->Ok_0;
        let cur = check_targets(paths, targets, existing, n)->Ok_0;
        if cur.len() > pairs.len() {
            assert(cur == pairs.push((paths[n - 1], targets[n - 1])));
            assert forall|k: int| 0 <= k < cur.len() implies exists|i: int| 0 <= i < n && (#[trigger] cur[k]) == (paths[i], targets[i])
                && !same_path(targets[i], paths[i]) by {
                if k < pairs.len() {
                    assert(cur[k] == pairs[k]);
                } else {
                    assert(cur[k] == (paths[n - 1], targets[n - 1]));
                }
            }
            assert forall|k: int, l: int| 0 <= k < l < cur.len() implies exists|i: int, j: int| 0 <= i < j < n
                && #[trigger] cur[k] == (paths[i], targets[i]) && #[trigger] cur[l] == (paths[j], targets[j]) by {
                assert(cur[k] == pairs[k]);
                if l < pairs.len() {
                    assert(cur[l] == pairs[l]);
                } else {
                    assert(cur[l] == (paths[n - 1], targets[n - 1]));
                    let i = choose|i: int| 0 <= i < n - 1 && (#[trigger] pairs[k]) == (paths[i], targets[i])
                        && !same_path(targets[i], paths[i]);
                    assert(0 <= i < n - 1 < n && cur[k] == (paths[i], targets[i]) && cur[l] == (paths[n - 1], targets[n - 1]));
                }
            }
        } else {
            assert(cur == pairs);
        }
    }
}

/// A bulk rename never moves two items to one place, nor an item onto itself:
/// each rename it gives takes an item to a planned target that names another
/// location, and no two renames share a target location.
pub proof fn lemma_bulk_renames_are_distinct(s: BulkRenameView, existing: Seq<Seq<char>>)
    ensures
        spec_bulk_preview(s.paths, spec_bulk_plan(s), existing) matches Ok(pairs) ==> (forall|k: int|
            0 <= k < pairs.len() ==> !same_path((#[trigger] pairs[k]).1, pairs[k].0)) && (forall|k: int, l: int|
            0 <= k < l < pairs.len() ==> !same_path((#[trigger] pairs[k]).1, (#[trigger] pairs[l]).1)),
{
    let plan = spec_bulk_plan(s);
    if spec_bulk_preview(s.paths, plan, existing) is Ok {
        let start = spec_parse_unsigned(spec_trim(s.start), 10, usize::MAX as nat);
        let padding = spec_parse_unsigned(spec_trim(s.padding), 10, usize::MAX as nat);
        let p = padding->Some_0;
        let pad = if p > 12 { 12 } else { p };
        assert(start is Some && padding is Some);
        assert(plan == plan_items(s, start->Some_0, pad, s.paths.len() as int));
        lemma_plan_len(s, start->Some_0, pad, s.paths.len() as int);
        lemma_plan_distinct(s, start->Some_0, pad, s.paths.len() as int);
        let t = plan.0;
        lemma_check_pairs(s.paths, t, existing, t.len() as int);
        let pairs = check_targets(s.paths, t, existing, t.len() as int)->Ok_0;
        assert forall|k: int, l: int| 0 <= k < l < pairs.len() implies !same_path(
            (#[trigger] pairs[k]).1,
            (#[trigger] pairs[l]).1,
        ) by {
            let (i, j) = choose|i: int, j: int| 0 <= i < j < t.len() && #[trigger] pairs[k] == (s.paths[i], t[i])
                && #[trigger] pairs[l] == (s.paths[j], t[j]);
            assert(!same_path(t[i], t[j]));
        }
    }
}

/// Whether numbering the items of a bulk rename would go past `usize::MAX`.
pub fn numbering_overflows(sheet: &BulkRenameSheet) -> (overflows: bool)
    ensures
        overflows == !numbering_fits(sheet@),
{
    if !sheet.numbering {
        return false;
    }
    match parse_unsigned(trim(sheet.start.as_str()).as_str(), 10, usize::MAX as u64) {
        Some(start) => sheet.paths.len() > 0 && start as usize > usize::MAX - (sheet.paths.len() - 1),
        None => false,
    }
}

} // verus!

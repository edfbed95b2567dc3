use vstd::prelude::*;

use crate::model::{opt_text, spec_directory_like, FileEntry, FileKind, FileMetadata};
use crate::ops::{parent_path, parent_text};
use crate::paths::{file_name, paths_equal, same_path, spec_file_name};
use crate::text::{spec_trim, trim};

verus! {

/// At most this many results are asked of a search.
pub const FILE_SEARCH_RESULT_LIMIT: usize = 80;

/// A search starts this many milliseconds after the last change of the query.
pub const FILE_SEARCH_DEBOUNCE_MS: u64 = 120;

/// The search field takes this many milliseconds to close when motion is on.
pub const FILE_SEARCH_CLOSE_MS: u64 = 80;

/// Where a search looks.
#[derive(Clone, Copy, Debug, PartialEq, Eq, Structural)]
pub enum FileSearchScope {
    CurrentFolder,
    Home,
}

/// The state of the file search field and its results.
pub struct FileSearchState {
    pub root: String,
    pub home_root: String,
    pub scope: FileSearchScope,
    pub open: bool,
    pub closing: bool,
    pub loading: bool,
    /// Counts the searches begun; an answer counts only for the latest.
    pub generation: u64,
    pub results: Vec<FileEntry>,
    pub focused: Option<usize>,
    pub error: Option<String>,
}

/// The search state as plain values.
pub struct FileSearchView {
    pub root: Seq<char>,
    pub home_root: Seq<char>,
    pub scope: FileSearchScope,
    pub open: bool,
    pub closing: bool,
    pub loading: bool,
    pub generation: u64,
    pub results: Seq<FileEntry>,
    pub focused: Option<usize>,
    pub error: Option<Seq<char>>,
}

impl View for FileSearchState {
    type V = FileSearchView;

    open spec fn view(&self) -> FileSearchView {
        FileSearchView {
            root: self.root@,
            home_root: self.home_root@,
            scope: self.scope,
            open: self.open,
            closing: self.closing,
            loading: self.loading,
            generation: self.generation,
            results: self.results@,
            focused: self.focused,
            error: opt_text(self.error),
        }
    }
}

/// The generation after `g`, wrapping to zero after the largest.
pub open spec fn next_generation(g: u64) -> u64 {
    if g == u64::MAX {
        0
    } else {
        (g + 1) as u64
    }
}

/// The message shown when the search location cannot be searched.
pub open spec fn unavailable_location_message() -> Seq<char> {
    "Search location is unavailable"@
}

/// What a background search found.
pub enum SearchAnswer {
    /// The entries that match, best first.
    Found(Vec<FileEntry>),
    /// The search root is not a folder any more.
    LocationUnavailable,
}

/// An answer as plain values.
pub open spec fn answer_view(a: SearchAnswer) -> Result<Seq<FileEntry>, Seq<char>> {
    match a {
        SearchAnswer::Found(r) => Ok(r@),
        SearchAnswer::LocationUnavailable => Err(unavailable_location_message()),
    }
}

impl FileSearchView {
    /// The focused result, when there is one, is among the results (which a
    /// machine word can count), and only an open field can be closing.
    pub open spec fn wf(self) -> bool {
        &&& self.results.len() <= usize::MAX
        &&& (self.focused matches Some(i) ==> i < self.results.len())
        &&& (self.closing ==> self.open)
    }

    /// The folder a scope searches from.
    pub open spec fn scope_root(self, scope: FileSearchScope, current_path: Seq<char>) -> Seq<char> {
        match scope {
            FileSearchScope::CurrentFolder => current_path,
            FileSearchScope::Home => self.home_root,
        }
    }

    /// The field opened over the folder shown; in the trash only the home
    /// folder can be searched.
    pub open spec fn activated(self, current_path: Seq<char>, in_trash: bool) -> FileSearchView {
        let scope = if in_trash {
            FileSearchScope::Home
        } else {
            self.scope
        };
        FileSearchView {
            scope: scope,
            root: self.scope_root(scope, current_path),
            open: true,
            closing: false,
            ..self
        }
    }

    /// The field closed, with its results and error gone.
    pub open spec fn closed(self) -> FileSearchView {
        FileSearchView {
            open: false,
            closing: false,
            loading: false,
            results: Seq::empty(),
            focused: None,
            error: None,
            ..self
        }
    }

    /// A new search begun for a query: earlier answers stop counting, and it
    /// loads unless the trimmed query is empty.
    pub open spec fn searched(self, query: Seq<char>) -> FileSearchView {
        FileSearchView {
            generation: next_generation(self.generation),
            results: Seq::empty(),
            focused: None,
            error: None,
            loading: spec_trim(query).len() > 0,
            ..self
        }
    }

    /// An answer taken in: only one for the latest search of an open field
    /// that is not closing counts; the first result is then focused.
    pub open spec fn answered(self, generation: u64, answer: Result<Seq<FileEntry>, Seq<char>>) -> FileSearchView {
        if generation != self.generation || !self.open || self.closing {
            self
        } else {
            match answer {
                Ok(results) => FileSearchView {
                    loading: false,
                    results: results,
                    focused: if results.len() == 0 {
                        None
                    } else {
                        Some(0usize)
                    },
                    ..self
                },
                Err(message) => FileSearchView { loading: false, error: Some(message), ..self },
            }
        }
    }

    /// The field after a dismiss: nothing happens unless it is open and not
    /// closing; otherwise the running search stops counting, and the field
    /// closes at once with reduced motion, or starts closing.
    pub open spec fn dismissed(self, reduced_motion: bool) -> FileSearchView {
        if !self.open || self.closing {
            self
        } else {
            let stopped = FileSearchView { generation: next_generation(self.generation), loading: false, ..self };
            if reduced_motion {
                stopped.closed()
            } else {
                FileSearchView { closing: true, ..stopped }
            }
        }
    }

    /// The focus moved one result forward or back, wrapping around; with no
    /// results nothing moves.
    pub open spec fn focus_moved(self, forward: bool) -> FileSearchView {
        let count = self.results.len();
        if count == 0 {
            self
        } else {
            let focused: usize = match self.focused {
                None => if forward {
                    0usize
                } else {
                    (count - 1) as usize
                },
                Some(i) => if forward {
                    ((i + 1) % (count as int)) as usize
                } else if i == 0 {
                    (count - 1) as usize
                } else {
                    (i - 1) as usize
                },
            };
            FileSearchView { focused: Some(focused), ..self }
        }
    }
}

/// What a search asks of the filesystem.
pub struct SearchRequest {
    pub generation: u64,
    pub root: String,
    pub query: String,
    pub show_hidden: bool,
    pub respect_gitignore: bool,
    pub max_results: usize,
}

/// What a dismiss did.
#[derive(Clone, Copy, Debug, PartialEq, Eq, Structural)]
pub enum DismissStep {
    /// The field was not open, or already closing.
    Ignored,
    /// The field closed at once.
    Closed,
    /// The field is closing; it closes when the close timer fires.
    Closing,
}

/// Where activating a result leads.
pub enum SearchPick {
    /// There is no result at that place.
    Missing,
    /// Show a folder, and select an entry in it when one is given.
    Navigate { directory: String, reveal: Option<String> },
    /// The result has no folder to be shown in; the status to show.
    Unavailable { status: String },
}

/// The folder to show and the entry to select in it, for a pick that leads
/// somewhere.
pub open spec fn pick_target(pick: SearchPick) -> Option<(Seq<char>, Option<Seq<char>>)> {
    match pick {
        SearchPick::Navigate { directory, reveal } => Some((directory@, opt_text(reveal))),
        _ => None,
    }
}

/// The message shown when a result cannot be shown.
pub open spec fn unavailable_result_message() -> Seq<char> {
    "Search result is no longer available"@
}

impl FileSearchState {
    /// A closed search over the current folder.
    pub fn new(root: String, home_root: String) -> (state: Self)
        ensures
            state@.root == root@,
            state@.home_root == home_root@,
            state@.scope == FileSearchScope::CurrentFolder,
            !state@.open,
            !state@.closing,
            !state@.loading,
            state@.generation == 0,
            state@.results.len() == 0,
            state@.focused is None,
            state@.error is None,
            state@.wf(),
    {
        FileSearchState {
            root,
            home_root,
            scope: FileSearchScope::CurrentFolder,
            open: false,
            closing: false,
            loading: false,
            generation: 0,
            results: Vec::new(),
            focused: None,
            error: None,
        }
    }

    fn scope_root(&self, scope: FileSearchScope, current_path: &str) -> (root: String)
        ensures
            root@ == self@.scope_root(scope, current_path@),
    {
        match scope {
            FileSearchScope::CurrentFolder => String::from_str(current_path),
            FileSearchScope::Home => self.home_root.clone(),
        }
    }

    /// Opens the field, unless a sheet or the application chooser is open.
    pub fn activate(&mut self, current_path: &str, in_trash: bool, blocked: bool) -> (activated: bool)
        requires
            old(self)@.wf(),
        ensures
            activated == !blocked,
            final(self)@ == if blocked {
                old(self)@
            } else {
                old(self)@.activated(current_path@, in_trash)
            },
            final(self)@.wf(),
    {
        if blocked {
            return false;
        }
        if in_trash {
            self.scope = FileSearchScope::Home;
        }
        self.root = self.scope_root(self.scope, current_path);
        self.open = true;
        self.closing = false;
        true
    }

    /// Changes where the search looks. Says whether the query must be searched
    /// again: not when the scope is the current folder in the trash, nor when
    /// scope and folder stay as they are.
    pub fn select_scope(&mut self, scope: FileSearchScope, current_path: &str, in_trash: bool) -> (rerun: bool)
        requires
            old(self)@.wf(),
        ensures
            rerun == !((scope == FileSearchScope::CurrentFolder && in_trash) || (old(self)@.scope == scope
                && same_path(old(self)@.root, old(self)@.scope_root(scope, current_path@)))),
            final(self)@ == if rerun {
                FileSearchView {
                    scope: scope,
                    root: old(self)@.scope_root(scope, current_path@),
                    ..old(self)@
                }
            } else {
                old(self)@
            },
            final(self)@.wf(),
    {
        if scope == FileSearchScope::CurrentFolder && in_trash {
            return false;
        }
        let root = self.scope_root(scope, current_path);
        if self.scope == scope && paths_equal(self.root.as_str(), root.as_str()) {
            return false;
        }
        self.scope = scope;
        self.root = root;
        true
    }

    /// Begins a search for a query, dropping what the last one found. An
    /// empty query (once trimmed) asks for nothing.
    pub fn begin_search(&mut self, query: &str, show_hidden: bool, respect_gitignore: bool) -> (request: Option<
        SearchRequest,
    >)
        requires
            old(self)@.wf(),
        ensures
            final(self)@ == old(self)@.searched(query@),
            final(self)@.wf(),
            request is Some <==> spec_trim(query@).len() > 0,
            request matches Some(r) ==> {
                &&& r.generation == final(self)@.generation
                &&& r.root@ == old(self)@.root
                &&& r.query@ == spec_trim(query@)
                &&& r.show_hidden == show_hidden
                &&& r.respect_gitignore == respect_gitignore
                &&& r.max_results == FILE_SEARCH_RESULT_LIMIT
            },
    {
        self.generation = if self.generation == u64::MAX {
            0
        } else {
            self.generation + 1
        };
        self.results = Vec::new();
        self.focused = None;
        self.error = None;
        let trimmed = trim(query);
        if trimmed.as_str().unicode_len() == 0 {
            self.loading = false;
            return None;
        }
        self.loading = true;
        Some(
            SearchRequest {
                generation: self.generation,
                root: self.root.clone(),
                query: trimmed,
                show_hidden,
                respect_gitignore,
                max_results: FILE_SEARCH_RESULT_LIMIT,
            },
        )
    }

    /// Takes in what a search found. Says whether it counted.
    pub fn finish_search(&mut self, generation: u64, answer: SearchAnswer) -> (applied: bool)
        requires
            old(self)@.wf(),
        ensures
            applied == (generation == old(self)@.generation && old(self)@.open && !old(self)@.closing),
            final(self)@ == old(self)@.answered(generation, answer_view(answer)),
            final(self)@.wf(),
    {
        if generation != self.generation || !self.open || self.closing {
            return false;
        }
        self.loading = false;
        match answer {
            SearchAnswer::Found(results) => {
                self.focused = if results.len() == 0 {
                    None
                } else {
                    Some(0)
                };
                self.results = results;
            },
            SearchAnswer::LocationUnavailable => {
                self.error = Some(String::from_str("Search location is unavailable"));
                proof {
                    reveal_strlit("Search location is unavailable");
                }
            },
        }
        true
    }

    /// Closes the field and forgets its results.
    pub fn finish_close(&mut self)
        requires
            old(self)@.wf(),
        ensures
            final(self)@ == old(self)@.closed(),
            final(self)@.wf(),
    {
        self.open = false;
        self.closing = false;
        self.loading = false;
        self.results = Vec::new();
        self.focused = None;
        self.error = None;
    }

    /// Dismisses the field.
    pub fn dismiss(&mut self, reduced_motion: bool) -> (step: DismissStep)
        requires
            old(self)@.wf(),
        ensures
            final(self)@ == old(self)@.dismissed(reduced_motion),
            final(self)@.wf(),
            step == if !old(self)@.open || old(self)@.closing {
                DismissStep::Ignored
            } else if reduced_motion {
                DismissStep::Closed
            } else {
                DismissStep::Closing
            },
    {
        if !self.open || self.closing {
            return DismissStep::Ignored;
        }
        self.generation = if self.generation == u64::MAX {
            0
        } else {
            self.generation + 1
        };
        self.loading = false;
        if reduced_motion {
            self.finish_close();
            return DismissStep::Closed;
        }
        self.closing = true;
        DismissStep::Closing
    }

    /// The close timer fired: a closing field closes. Says whether it did.
    pub fn close_timer_elapsed(&mut self) -> (closed: bool)
        requires
            old(self)@.wf(),
        ensures
            closed == old(self)@.closing,
            final(self)@ == if old(self)@.closing {
                old(self)@.closed()
            } else {
                old(self)@
            },
            final(self)@.wf(),
    {
        if self.closing {
            self.finish_close();
            true
        } else {
            false
        }
    }

    fn move_focus(&mut self, forward: bool) -> (moved: bool)
        requires
            old(self)@.wf(),
        ensures
            moved == (old(self)@.results.len() > 0),
            final(self)@ == old(self)@.focus_moved(forward),
            final(self)@.wf(),
    {
        let count = self.results.len();
        if count == 0 {
            return false;
        }
        let focused: usize = match self.focused {
            None => if forward {
                0
            } else {
                count - 1
            },
            Some(i) => if forward {
                (i + 1) % count
            } else if i == 0 {
                count - 1
            } else {
                i - 1
            },
        };
        self.focused = Some(focused);
        true
    }

    /// Focuses the next result, wrapping to the first. Says whether there was
    /// a result to focus.
    pub fn focus_next(&mut self) -> (moved: bool)
        requires
            old(self)@.wf(),
        ensures
            moved == (old(self)@.results.len() > 0),
            final(self)@ == old(self)@.focus_moved(true),
            final(self)@.wf(),
    {
        self.move_focus(true)
    }

    /// Focuses the previous result, wrapping to the last. Says whether there
    /// was a result to focus.
    pub fn focus_previous(&mut self) -> (moved: bool)
        requires
            old(self)@.wf(),
        ensures
            moved == (old(self)@.results.len() > 0),
            final(self)@ == old(self)@.focus_moved(false),
            final(self)@.wf(),
    {
        self.move_focus(false)
    }

    /// The result that Enter opens: the focused one, else the first.
    pub fn result_to_open(&self) -> (index: Option<usize>)
        ensures
            index == match self@.focused {
                Some(i) => Some(i),
                None => if self@.results.len() > 0 {
                    Some(0usize)
                } else {
                    None
                },
            },
    {
        match self.focused {
            Some(i) => Some(i),
            None => if self.results.len() > 0 {
                Some(0)
            } else {
                None
            },
        }
    }

    /// Opens a result: the field closes, and a folder is shown itself while any
    /// other entry is selected in the folder it lies in.
    pub fn activate_result(&mut self, index: usize) -> (pick: SearchPick)
        requires
            old(self)@.wf(),
        ensures
            final(self)@.wf(),
            index >= old(self)@.results.len() ==> pick is Missing && final(self)@ == old(self)@,
            index < old(self)@.results.len() ==> {
                let entry = old(self)@.results[index as int];
                &&& final(self)@ == old(self)@.closed()
                &&& pick_target(pick) == if spec_directory_like(entry) {
                    Some((entry.path@, None))
                } else {
                    match parent_text(entry.path@) {
                        Some(p) => Some((p, Some(entry.path@))),
                        None => None,
                    }
                }
                &&& (pick is Unavailable <==> pick_target(pick) is None)
                &&& (pick matches SearchPick::Unavailable { status } ==> status@ == unavailable_result_message())
            },
    {
        if index >= self.results.len() {
            return SearchPick::Missing;
        }
        let directory_like = self.results[index].is_directory_like();
        let path = self.results[index].path.clone();
        self.finish_close();
        if directory_like {
            return SearchPick::Navigate { directory: path, reveal: None };
        }
        match parent_path(path.as_str()) {
            Some(parent) => SearchPick::Navigate { directory: parent, reveal: Some(path) },
            None => {
                proof {
                    reveal_strlit("Search result is no longer available");
                }
                SearchPick::Unavailable { status: String::from_str("Search result is no longer available") }
            },
        }
    }
}

/// Once a new search begins, an answer to the search before it never shows.
pub proof fn lemma_superseded_answer_is_ignored(
    s: FileSearchView,
    query: Seq<char>,
    answer: Result<Seq<FileEntry>, Seq<char>>,
)
    ensures
        s.searched(query).answered(s.generation, answer) == s.searched(query),
{
}

/// A dismissed field never shows the answer it was waiting for.
pub proof fn lemma_dismissed_search_ignores_answer(
    s: FileSearchView,
    reduced_motion: bool,
    answer: Result<Seq<FileEntry>, Seq<char>>,
)
    ensures
        s.dismissed(reduced_motion).answered(s.generation, answer) == s.dismissed(reduced_motion),
{
}

/// Moving the focus back undoes moving it forward, and moving it forward
/// undoes moving it back.
pub proof fn lemma_focus_steps_undo_each_other(s: FileSearchView)
    requires
        s.wf(),
        s.focused is Some,
    ensures
        s.focus_moved(true).focus_moved(false) == s,
        s.focus_moved(false).focus_moved(true) == s,
{
    let count = s.results.len() as int;
    let i = s.focused->0 as int;
    if i + 1 < count {
        vstd::arithmetic::div_mod::lemma_small_mod((i + 1) as nat, count as nat);
        assert(s.focus_moved(true).focused == Some((i + 1) as usize));
    } else {
        vstd::arithmetic::div_mod::lemma_mod_self_0(count);
        assert(s.focus_moved(true).focused == Some(0usize));
    }
    assert(s.focus_moved(true).focus_moved(false).focused == s.focused);
    assert(s.focus_moved(true).focus_moved(false) =~= s);
    if i > 0 {
        vstd::arithmetic::div_mod::lemma_small_mod(i as nat, count as nat);
        assert(s.focus_moved(false).focused == Some((i - 1) as usize));
    } else {
        vstd::arithmetic::div_mod::lemma_mod_self_0(count);
        assert(s.focus_moved(false).focused == Some((count - 1) as usize));
    }
    assert(s.focus_moved(false).focus_moved(true).focused == s.focused);
    assert(s.focus_moved(false).focus_moved(true) =~= s);
}

/// The name a search hit is listed under: its last component, or the whole
/// path when it has none.
pub open spec fn hit_name(path: Seq<char>) -> Seq<char> {
    match spec_file_name(path) {
        Some(n) => n,
        None => path,
    }
}

/// The entry a search hit stands for, from its path and what the filesystem
/// says of it. It is hidden when its name starts with a dot; metadata is known
/// at once only for a symlink, whose target kind is all that is known of it.
pub fn search_entry(path: &str, kind: FileKind, target_kind: Option<FileKind>) -> (entry: FileEntry)
    ensures
        entry.path@ == path@,
        entry.name@ == hit_name(path@),
        entry.kind == kind,
        entry.hidden == (hit_name(path@).len() > 0 && hit_name(path@)[0] == '.'),
        entry.metadata == if kind == FileKind::Symlink {
            Some(
                FileMetadata {
                    len: 0,
                    child_count: None,
                    mode: None,
                    readonly: false,
                    symlink_target_kind: target_kind,
                    modified_unix_ms: None,
                },
            )
        } else {
            None
        },
{
    let name = match file_name(path) {
        Some(n) => n,
        None => String::from_str(path),
    };
    let hidden = name.as_str().unicode_len() > 0 && name.as_str().get_char(0) == '.';
    let metadata = if kind == FileKind::Symlink {
        Some(
            FileMetadata {
                len: 0,
                child_count: None,
                mode: None,
                readonly: false,
                symlink_target_kind: target_kind,
                modified_unix_ms: None,
            },
        )
    } else {
        None
    };
    FileEntry { path: String::from_str(path), name, kind, hidden, metadata }
}

} // verus!

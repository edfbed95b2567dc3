use vstd::prelude::*;

use crate::model::FileEntry;
use crate::paths::{
    same_path, comp_view, components, comps_view, file_name, path_components, paths_equal, same_component, spec_file_name, Comp,
    PathComponent,
};

verus! {

/// A change that the folder watcher reports.
pub enum WatchEvent {
    Upsert(Vec<String>),
    Remove(Vec<String>),
    Rename { from: String, to: String },
    Rescan,
    Error(String),
}

/// Changes gathered from the watcher until they are applied together.
/// Each path occurs at most once in each list, as paths compare.
pub struct PendingWatchChanges {
    pub upserts: Vec<String>,
    pub removes: Vec<String>,
    pub full_rescan: bool,
}

/// The paths of a list, by their components.
pub open spec fn path_list(v: Seq<String>) -> Seq<Seq<Comp>> {
    v.map_values(|p: String| components(p@))
}

/// The set of locations a list names.
pub open spec fn path_set(v: Seq<String>) -> Set<Seq<Comp>> {
    path_list(v).to_set()
}

/// Whether a list names a location at most once.
pub open spec fn no_repeats(v: Seq<String>) -> bool {
    forall|i: int, j: int| 0 <= i < j < v.len() ==> components(#[trigger] v[i]@) != components(#[trigger] v[j]@)
}

/// Whether `path` lies directly in `dir`: its last component is not the root,
/// and the components before it are those of `dir`.
pub open spec fn parent_is(path: Seq<char>, dir: Seq<char>) -> bool {
    let c = components(path);
    c.len() > 0 && !(c.last() is Root) && c.drop_last() == components(dir)
}

/// Whether a path's final name starts with '.'.
pub open spec fn hidden_name(path: Seq<char>) -> bool {
    spec_file_name(path) matches Some(n) && n.len() > 0 && n[0] == '.'
}

impl PendingWatchChanges {
    /// Each list names each location once.
    pub open spec fn well_formed(&self) -> bool {
        no_repeats(self.upserts@) && no_repeats(self.removes@)
    }

    /// No changes at all.
    pub fn new() -> (changes: Self)
        ensures
            changes.well_formed(),
            changes.upserts@.len() == 0,
            changes.removes@.len() == 0,
            !changes.full_rescan,
    {
        PendingWatchChanges { upserts: Vec::new(), removes: Vec::new(), full_rescan: false }
    }

    /// Whether there is nothing to apply.
    pub fn is_empty(&self) -> (empty: bool)
        ensures
            empty == (!self.full_rescan && self.upserts@.len() == 0 && self.removes@.len() == 0),
    {
        !self.full_rescan && self.upserts.len() == 0 && self.removes.len() == 0
    }
}

fn contains_path(v: &Vec<String>, path: &str) -> (found: bool)
    ensures
        found == path_list(v@).contains(components(path@)),
{
    let mut i: usize = 0;
    while i < v.len()
        invariant
            i <= v@.len(),
            forall|j: int| 0 <= j < i ==> path_list(v@)[j] != components(path@),
        decreases v@.len() - i,
    {
        if paths_equal(v[i].as_str(), path) {
            assert(path_list(v@)[i as int] == components(path@));
            return true;
        }
        i += 1;
    }
    false
}

proof fn lemma_push_keeps_no_repeats(v: Seq<String>, p: String)
    requires
        no_repeats(v),
        !path_list(v).contains(components(p@)),
    ensures
        no_repeats(v.push(p)),
        path_set(v.push(p)) == path_set(v).insert(components(p@)),
{
    assert forall|i: int, j: int| 0 <= i < j < v.push(p).len() implies components(
        #[trigger] v.push(p)[i]@,
    ) != components(#[trigger] v.push(p)[j]@) by {
        if j == v.len() {
            assert(path_list(v)[i] == components(v[i]@));
        }
    }
    assert(path_list(v.push(p)) =~= path_list(v).push(components(p@)));
    path_list(v).lemma_push_to_set_commute(components(p@));
    assert(path_list(v).push(components(p@)).to_set() =~= path_list(v).to_set().insert(components(p@)));
}

/// Adds a path to a list unless the list already names its location.
fn insert_path(v: &mut Vec<String>, p: String)
    requires
        no_repeats(old(v)@),
    ensures
        no_repeats(final(v)@),
        path_set(final(v)@) == path_set(old(v)@).insert(components(p@)),
{
    if !contains_path(v, p.as_str()) {
        proof {
            lemma_push_keeps_no_repeats(v@, p);
        }
        v.push(p);
    } else {
        proof {
            let i = choose|i: int| 0 <= i < path_list(v@).len() && path_list(v@)[i] == components(p@);
            assert(path_set(v@).contains(components(p@)));
            assert(path_set(v@).insert(components(p@)) =~= path_set(v@));
        }
    }
}

/// Adds each of `paths` to a list.
fn extend_paths(v: &mut Vec<String>, paths: Vec<String>)
    requires
        no_repeats(old(v)@),
    ensures
        no_repeats(final(v)@),
        path_set(final(v)@) == path_set(old(v)@).union(path_set(paths@)),
{
    let mut i: usize = 0;
    while i < paths.len()
        invariant
            i <= paths@.len(),
            no_repeats(v@),
            path_set(v@) == path_set(old(v)@).union(path_set(paths@.take(i as int))),
        decreases paths@.len() - i,
    {
        let p = paths[i].clone();
        insert_path(v, p);
        proof {
            assert(paths@.take(i as int + 1) =~= paths@.take(i as int).push(paths@[i as int]));
            assert(path_list(paths@.take(i as int + 1)) =~= path_list(paths@.take(i as int)).push(
                components(paths@[i as int]@),
            ));
            path_list(paths@.take(i as int)).lemma_push_to_set_commute(components(paths@[i as int]@));
            assert(path_set(paths@.take(i as int + 1)) =~= path_set(paths@.take(i as int)).insert(
                components(paths@[i as int]@),
            ));
            assert(path_set(v@) =~= path_set(old(v)@).union(path_set(paths@.take(i as int + 1))));
        }
        i += 1;
    }
    assert(paths@.take(i as int) =~= paths@);
}

impl PendingWatchChanges {
    /// Gathers a watcher event. An error leaves the changes as they are and
    /// gives the status message to show.
    pub fn record_watch_event(&mut self, event: WatchEvent) -> (status: Option<String>)
        requires
            old(self).well_formed(),
        ensures
            final(self).well_formed(),
            match event {
                WatchEvent::Upsert(paths) => status is None && path_set(final(self).upserts@) == path_set(
                    old(self).upserts@,
                ).union(path_set(paths@)) && final(self).removes@ == old(self).removes@ && final(self).full_rescan
                    == old(self).full_rescan,
                WatchEvent::Remove(paths) => status is None && path_set(final(self).removes@) == path_set(
                    old(self).removes@,
                ).union(path_set(paths@)) && final(self).upserts@ == old(self).upserts@ && final(self).full_rescan
                    == old(self).full_rescan,
                WatchEvent::Rename { from, to } => status is None && path_set(final(self).removes@) == path_set(
                    old(self).removes@,
                ).insert(components(from@)) && path_set(final(self).upserts@) == path_set(old(self).upserts@).insert(
                    components(to@),
                ) && final(self).full_rescan == old(self).full_rescan,
                WatchEvent::Rescan => status is None && final(self).full_rescan && final(self).upserts@
                    == old(self).upserts@ && final(self).removes@ == old(self).removes@,
                WatchEvent::Error(e) => status matches Some(m) && m@ == "Folder watcher error: "@ + e@
                    && final(self).upserts@ == old(self).upserts@ && final(self).removes@ == old(self).removes@
                    && final(self).full_rescan == old(self).full_rescan,
            },
    {
        match event {
            WatchEvent::Upsert(paths) => {
                extend_paths(&mut self.upserts, paths);
                None
            },
            WatchEvent::Remove(paths) => {
                extend_paths(&mut self.removes, paths);
                None
            },
            WatchEvent::Rename { from, to } => {
                insert_path(&mut self.removes, from);
                insert_path(&mut self.upserts, to);
                None
            },
            WatchEvent::Rescan => {
                self.full_rescan = true;
                None
            },
            WatchEvent::Error(e) => {
                let mut m = String::from_str("Folder watcher error: ");
                m.append(e.as_str());
                Some(m)
            },
        }
    }
}

/// The texts of a list of paths.
pub open spec fn texts(v: Seq<String>) -> Seq<Seq<char>> {
    v.map_values(|p: String| p@)
}

/// Whether the gathered changes call for reading the whole folder again: a
/// rescan was asked for, ignored files are hidden (which a single entry cannot
/// tell), or the folder itself changed.
pub open spec fn needs_reload(c: PendingWatchChanges, dir: Seq<char>, hide_gitignored: bool) -> bool {
    c.full_rescan || hide_gitignored || path_list(c.removes@).contains(components(dir)) || path_list(
        c.upserts@,
    ).contains(components(dir))
}

/// Whether an upserted path is hidden and must leave the listing instead.
pub open spec fn hides(path: Seq<char>, show_hidden: bool) -> bool {
    hidden_name(path) && !show_hidden
}

/// Among the first `n` paths, those directly in `dir`.
pub open spec fn direct_paths(v: Seq<String>, dir: Seq<char>, n: int) -> Seq<Seq<char>>
    decreases n,
{
    if n <= 0 {
        Seq::empty()
    } else {
        direct_paths(v, dir, n - 1) + if parent_is(v[n - 1]@, dir) { seq![v[n - 1]@] } else { Seq::empty() }
    }
}

/// Among the first `n` paths directly in `dir`, those that are hidden (when
/// `hidden` holds) or shown (otherwise).
pub open spec fn direct_upserts(v: Seq<String>, dir: Seq<char>, show_hidden: bool, hidden: bool, n: int) -> Seq<
    Seq<char>,
>
    decreases n,
{
    if n <= 0 {
        Seq::empty()
    } else {
        direct_upserts(v, dir, show_hidden, hidden, n - 1) + if parent_is(v[n - 1]@, dir) && hides(
            v[n - 1]@,
            show_hidden,
        ) == hidden {
            seq![v[n - 1]@]
        } else {
            Seq::empty()
        }
    }
}

/// What to do with gathered watcher changes.
pub enum WatchPlan {
    /// Read the whole folder again.
    Reload,
    /// Drop the `removes` from the listing, and scan the `upserts` again.
    Apply { removes: Vec<String>, upserts: Vec<String> },
}

fn parent_is_dir(path: &str, dir: &str) -> (direct: bool)
    ensures
        direct == parent_is(path@, dir@),
{
    let pc = path_components(path);
    let dc = path_components(dir);
    let n = pc.len();
    if n == 0 {
        return false;
    }
    assert(comps_view(pc@).last() == comp_view(pc@[n - 1]));
    match &pc[n - 1] {
        PathComponent::RootDir => return false,
        _ => {},
    }
    if n - 1 != dc.len() {
        assert(comps_view(pc@).drop_last().len() != comps_view(dc@).len());
        return false;
    }
    let mut i: usize = 0;
    while i < n - 1
        invariant
            n == pc@.len(),
            n >= 1,
            n - 1 == dc@.len(),
            i <= n - 1,
            comps_view(pc@) == components(path@),
            comps_view(dc@) == components(dir@),
            !(comps_view(pc@).last() is Root),
            forall|j: int| 0 <= j < i ==> comp_view(pc@[j]) == comp_view(dc@[j]),
        decreases n - 1 - i,
    {
        if !same_component(&pc[i], &dc[i]) {
            assert(comps_view(pc@).drop_last()[i as int] != comps_view(dc@)[i as int]);
            return false;
        }
        i += 1;
    }
    assert(comps_view(pc@).drop_last() =~= comps_view(dc@));
    true
}

fn is_hidden_path(path: &str) -> (hidden: bool)
    ensures
        hidden == hidden_name(path@),
{
    match file_name(path) {
        Some(name) => name.unicode_len() > 0 && name.get_char(0) == '.',
        None => false,
    }
}

impl PendingWatchChanges {
    /// Decides how gathered changes reach the listing of `directory`.
    pub fn plan_watcher_changes(&self, directory: &str, show_hidden: bool, hide_gitignored: bool) -> (plan: WatchPlan)
        ensures
            match plan {
                WatchPlan::Reload => needs_reload(*self, directory@, hide_gitignored),
                WatchPlan::Apply { removes, upserts } => {
                    &&& !needs_reload(*self, directory@, hide_gitignored)
                    &&& texts(removes@) == direct_paths(self.removes@, directory@, self.removes@.len() as int)
                        + direct_upserts(self.upserts@, directory@, show_hidden, true, self.upserts@.len() as int)
                    &&& texts(upserts@) == direct_upserts(
                        self.upserts@,
                        directory@,
                        show_hidden,
                        false,
                        self.upserts@.len() as int,
                    )
                },
            },
    {
        if self.full_rescan || hide_gitignored || contains_path(&self.removes, directory) || contains_path(
            &self.upserts,
            directory,
        ) {
            return WatchPlan::Reload;
        }
        let mut removes: Vec<String> = Vec::new();
        let mut i: usize = 0;
        while i < self.removes.len()
            invariant
                i <= self.removes@.len(),
                texts(removes@) == direct_paths(self.removes@, directory@, i as int),
            decreases self.removes@.len() - i,
        {
            let ghost prev = removes@;
            if parent_is_dir(self.removes[i].as_str(), directory) {
                removes.push(self.removes[i].clone());
                assert(texts(removes@) =~= texts(prev).push(self.removes@[i as int]@));
            }
            assert(texts(removes@) =~= direct_paths(self.removes@, directory@, i as int + 1));
            i += 1;
        }
        let ghost direct_removes = texts(removes@);
        let mut upserts: Vec<String> = Vec::new();
        let mut j: usize = 0;
        while j < self.upserts.len()
            invariant
                j <= self.upserts@.len(),
                texts(removes@) == direct_removes + direct_upserts(
                    self.upserts@,
                    directory@,
                    show_hidden,
                    true,
                    j as int,
                ),
                texts(upserts@) == direct_upserts(self.upserts@, directory@, show_hidden, false, j as int),
            decreases self.upserts@.len() - j,
        {
            let path = &self.upserts[j];
            let ghost prev_r = removes@;
            let ghost prev_u = upserts@;
            if parent_is_dir(path.as_str(), directory) {
                let hidden = is_hidden_path(path.as_str()) && !show_hidden;
                if hidden {
                    removes.push(path.clone());
                    assert(texts(removes@) =~= texts(prev_r).push(path@));
                } else {
                    upserts.push(path.clone());
                    assert(texts(upserts@) =~= texts(prev_u).push(path@));
                }
            }
            assert(texts(removes@) =~= direct_removes + direct_upserts(
                self.upserts@,
                directory@,
                show_hidden,
                true,
                j as int + 1,
            ));
            assert(texts(upserts@) =~= direct_upserts(self.upserts@, directory@, show_hidden, false, j as int + 1));
            j += 1;
        }
        WatchPlan::Apply { removes, upserts }
    }
}

/// What the batch timer does with gathered changes.
#[derive(Clone, Copy, Debug, PartialEq, Eq, Structural)]
pub enum BatchStep {
    /// Nothing is due, or the trash is shown.
    Wait,
    /// A load or an apply is running: try again after the batch delay.
    Retry,
    /// Take the gathered changes and plan them.
    Run,
}

/// The batch delay, in milliseconds, after which gathered changes are applied.
pub const WATCH_BATCH_MS: u64 = 25;

/// Decides what the batch timer does: once changes are due, and unless the
/// trash is shown, they run — or wait another round while the folder is busy.
pub fn watch_batch_step(refresh_due: bool, in_trash: bool, busy: bool) -> (step: BatchStep)
    ensures
        step == if !refresh_due || in_trash {
            BatchStep::Wait
        } else if busy {
            BatchStep::Retry
        } else {
            BatchStep::Run
        },
{
    if !refresh_due || in_trash {
        BatchStep::Wait
    } else if busy {
        BatchStep::Retry
    } else {
        BatchStep::Run
    }
}

/// Whether an entry's path is not among the given locations.
pub open spec fn kept_entry(removes: Seq<Seq<char>>) -> spec_fn(FileEntry) -> bool {
    |e: FileEntry| !(exists|j: int| 0 <= j < removes.len() && same_path(#[trigger] removes[j], e.path@))
}

fn listed(paths: &Vec<String>, path: &str) -> (found: bool)
    ensures
        found == exists|j: int| 0 <= j < paths@.len() && same_path(#[trigger] texts(paths@)[j], path@),
{
    let mut i: usize = 0;
    while i < paths.len()
        invariant
            i <= paths@.len(),
            forall|j: int| 0 <= j < i ==> !same_path(#[trigger] texts(paths@)[j], path@),
        decreases paths@.len() - i,
    {
        if paths_equal(paths[i].as_str(), path) {
            assert(same_path(texts(paths@)[i as int], path@));
            return true;
        }
        i += 1;
    }
    false
}

/// Drops from a listing the entries at the removed locations.
pub fn remove_entries(entries: &mut Vec<FileEntry>, removes: &Vec<String>)
    ensures
        final(entries)@ == old(entries)@.filter(kept_entry(texts(removes@))),
{
    let ghost before = entries@;
    let ghost keep = kept_entry(texts(removes@));
    let mut kept: Vec<FileEntry> = Vec::new();
    let mut i: usize = 0;
    let n = entries.len();
    while i < n
        invariant
            n == entries@.len(),
            entries@ == before,
            keep == kept_entry(texts(removes@)),
            i <= n,
            kept@ == before.take(i as int).filter(keep),
        decreases n - i,
    {
        assert(before.take(i as int + 1) =~= before.take(i as int).push(before[i as int]));
        proof {
            before.take(i as int).lemma_filter_push(before[i as int], keep);
        }
        if !listed(removes, entries[i].path.as_str()) {
            kept.push(entries[i].duplicate());
        }
        i += 1;
    }
    assert(before.take(n as int) =~= before);
    *entries = kept;
}

/// What scanning one changed path again found.
pub enum EntryScan {
    Found(FileEntry),
    /// The path is gone.
    NotFound,
    /// The path could not be read; the whole folder is read again.
    Failed,
}

/// Entries other than those at a location.
pub open spec fn other_entries(path: Seq<char>) -> spec_fn(FileEntry) -> bool {
    |e: FileEntry| !same_path(e.path@, path)
}

/// The listing after the scans of changed paths, taken in order: each path's
/// old entry leaves, and what was found comes last.
pub open spec fn merged(entries: Seq<FileEntry>, results: Seq<(String, EntryScan)>) -> Seq<FileEntry>
    decreases results.len(),
{
    if results.len() == 0 {
        entries
    } else {
        let kept = merged(entries, results.drop_last()).filter(other_entries(results.last().0@));
        match results.last().1 {
            EntryScan::Found(e) => kept.push(e),
            _ => kept,
        }
    }
}

/// Whether some scan failed.
pub open spec fn any_failed(results: Seq<(String, EntryScan)>) -> bool {
    exists|i: int| 0 <= i < results.len() && (#[trigger] results[i]).1 is Failed
}

/// Takes the scans of changed paths into a listing. Says whether one failed,
/// in which case the whole folder is to be read again.
pub fn merge_scanned(entries: &mut Vec<FileEntry>, results: Vec<(String, EntryScan)>) -> (rescan: bool)
    ensures
        rescan == any_failed(results@),
        final(entries)@ == merged(old(entries)@, results@),
{
    let ghost start = entries@;
    let ghost all = results@;
    let mut rescan = false;
    let total = results.len();
    let mut done: usize = 0;
    while done < total
        invariant
            total == all.len(),
            results@ == all,
            done <= total,
            entries@ == merged(start, all.take(done as int)),
            rescan == any_failed(all.take(done as int)),
        decreases total - done,
    {
        remove_entries_at(entries, results[done].0.as_str());
        match &results[done].1 {
            EntryScan::Found(entry) => entries.push(entry.duplicate()),
            EntryScan::NotFound => {},
            EntryScan::Failed => rescan = true,
        }
        assert(all.take(done as int + 1).drop_last() =~= all.take(done as int));
        assert(all.take(done as int + 1).last() == all[done as int]);
        proof {
            let t = all.take(done as int + 1);
            if any_failed(t) {
                let k = choose|k: int| 0 <= k < t.len() && (#[trigger] t[k]).1 is Failed;
                if k < done {
                    assert(all.take(done as int)[k] == t[k]);
                }
            }
            if any_failed(all.take(done as int)) {
                let k = choose|k: int| 0 <= k < done && (#[trigger] all.take(done as int)[k]).1 is Failed;
                assert(t[k] == all.take(done as int)[k]);
            }
            if all[done as int].1 is Failed {
                assert(t[done as int] == all[done as int]);
            }
        }
        done += 1;
    }
    assert(all.take(total as int) =~= all);
    rescan
}

fn remove_entries_at(entries: &mut Vec<FileEntry>, path: &str)
    ensures
        final(entries)@ == old(entries)@.filter(other_entries(path@)),
{
    let ghost before = entries@;
    let ghost keep = other_entries(path@);
    let mut kept: Vec<FileEntry> = Vec::new();
    let mut i: usize = 0;
    let n = entries.len();
    while i < n
        invariant
            n == entries@.len(),
            entries@ == before,
            keep == other_entries(path@),
            i <= n,
            kept@ == before.take(i as int).filter(keep),
        decreases n - i,
    {
        assert(before.take(i as int + 1) =~= before.take(i as int).push(before[i as int]));
        proof {
            before.take(i as int).lemma_filter_push(before[i as int], keep);
        }
        if !paths_equal(entries[i].path.as_str(), path) {
            kept.push(entries[i].duplicate());
        }
        i += 1;
    }
    assert(before.take(n as int) =~= before);
    *entries = kept;
}

/// The status when the folder cannot be watched.
pub fn watcher_unavailable_status(error: &str) -> (status: String)
    ensures
        status@ == "Automatic folder refresh unavailable: "@ + error@,
{
    let mut status = String::from_str("Automatic folder refresh unavailable: ");
    status.append(error);
    status
}

} // verus!

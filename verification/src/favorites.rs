use vstd::prelude::*;

use crate::model::{spec_directory_like, FileEntry};
use crate::paths::{components, paths_equal, same_path, Comp};

verus! {

/// The folders pinned in the sidebar, in the order shown.
pub struct Favorites {
    pub paths: Vec<String>,
}

/// The paths of a list, by their components.
pub open spec fn locations(v: Seq<String>) -> Seq<Seq<Comp>> {
    v.map_values(|p: String| components(p@))
}

/// The first place in `v` that names the location of `path`, if any.
pub open spec fn first_position(v: Seq<String>, path: Seq<char>) -> Option<int> {
    if exists|i: int| 0 <= i < v.len() && same_path(#[trigger] v[i]@, path) {
        Some(
            choose|i: int|
                0 <= i < v.len() && same_path(#[trigger] v[i]@, path) && forall|j: int|
                    0 <= j < i ==> !same_path(#[trigger] v[j]@, path),
        )
    } else {
        None
    }
}

/// The favorites after a toggle of `path`: a pinned location is unpinned, any
/// other is pinned at the end.
pub open spec fn toggled(v: Seq<Seq<char>>, path: Seq<char>) -> Seq<Seq<char>>
    decreases v.len(),
{
    if v.len() == 0 {
        seq![path]
    } else if same_path(v[0], path) {
        v.drop_first()
    } else {
        seq![v[0]] + toggled(v.drop_first(), path)
    }
}

/// The texts of a list.
pub open spec fn texts_of(v: Seq<String>) -> Seq<Seq<char>> {
    v.map_values(|p: String| p@)
}

/// Whether a list names the location of `path`.
pub open spec fn pins(v: Seq<Seq<char>>, path: Seq<char>) -> bool {
    exists|i: int| 0 <= i < v.len() && same_path(#[trigger] v[i], path)
}

/// The favorites without every entry naming the location of `path`.
pub open spec fn without(v: Seq<Seq<char>>, path: Seq<char>) -> Seq<Seq<char>>
    decreases v.len(),
{
    if v.len() == 0 {
        v
    } else if same_path(v[0], path) {
        without(v.drop_first(), path)
    } else {
        seq![v[0]] + without(v.drop_first(), path)
    }
}

/// The index of the first entry naming the location of `path`, or the length.
pub open spec fn index_of(v: Seq<Seq<char>>, path: Seq<char>) -> int
    decreases v.len(),
{
    if v.len() == 0 {
        0
    } else if same_path(v[0], path) {
        0
    } else {
        1 + index_of(v.drop_first(), path)
    }
}

/// The favorites after the entry of `source` is dragged to `target`: it is
/// taken out and put back at `target`, or at the end when `target` is past it.
pub open spec fn reordered(v: Seq<Seq<char>>, source: Seq<char>, target: int) -> Seq<Seq<char>> {
    let i = index_of(v, source);
    if i >= v.len() || i == target {
        v
    } else {
        let rest = v.remove(i);
        let at = if target < rest.len() { target } else { rest.len() as int };
        rest.insert(at, v[i])
    }
}

proof fn lemma_index_of(v: Seq<Seq<char>>, path: Seq<char>, k: int)
    requires
        0 <= k <= v.len(),
        forall|j: int| 0 <= j < k ==> !same_path(#[trigger] v[j], path),
        k == v.len() || same_path(v[k], path),
    ensures
        index_of(v, path) == k,
    decreases k,
{
    if k > 0 {
        lemma_index_of(v.drop_first(), path, k - 1);
    }
}

proof fn lemma_toggled_at(v: Seq<Seq<char>>, path: Seq<char>, k: int)
    requires
        0 <= k <= v.len(),
        forall|j: int| 0 <= j < k ==> !same_path(#[trigger] v[j], path),
        k == v.len() || same_path(v[k], path),
    ensures
        toggled(v, path) == if k == v.len() { v.push(path) } else { v.remove(k) },
    decreases k,
{
    if k > 0 {
        lemma_toggled_at(v.drop_first(), path, k - 1);
        if k == v.len() {
            assert(seq![v[0]] + v.drop_first().push(path) =~= v.push(path));
        } else {
            assert(seq![v[0]] + v.drop_first().remove(k - 1) =~= v.remove(k));
        }
    } else if v.len() > 0 {
        assert(v.drop_first() =~= v.remove(0));
    } else {
        assert(seq![path] =~= v.push(path));
    }
}

fn find_favorite(paths: &Vec<String>, path: &str) -> (k: usize)
    ensures
        k <= paths@.len(),
        forall|j: int| 0 <= j < k ==> !same_path(#[trigger] texts_of(paths@)[j], path@),
        k == paths@.len() || same_path(texts_of(paths@)[k as int], path@),
{
    let mut k: usize = 0;
    while k < paths.len()
        invariant
            k <= paths@.len(),
            forall|j: int| 0 <= j < k ==> !same_path(#[trigger] texts_of(paths@)[j], path@),
        decreases paths@.len() - k,
    {
        if paths_equal(paths[k].as_str(), path) {
            return k;
        }
        k += 1;
    }
    k
}

impl Favorites {
    /// Pins `path`, or unpins it when it is pinned. Returns the status message.
    pub fn toggle_favorite_path(&mut self, path: String) -> (status: String)
        ensures
            texts_of(final(self).paths@) == toggled(texts_of(old(self).paths@), path@),
            status@ == if pins(texts_of(old(self).paths@), path@) {
                "Removed from Favorites"@
            } else {
                "Added to Favorites"@
            },
    {
        let k = find_favorite(&self.paths, path.as_str());
        let ghost before = texts_of(self.paths@);
        proof {
            lemma_toggled_at(before, path@, k as int);
        }
        if k < self.paths.len() {
            self.paths.remove(k);
            assert(texts_of(self.paths@) =~= before.remove(k as int));
            String::from_str("Removed from Favorites")
        } else {
            let ghost p = path@;
            self.paths.push(path);
            assert(texts_of(self.paths@) =~= before.push(p));
            String::from_str("Added to Favorites")
        }
    }

    /// Unpins every entry naming the location of `path`. Returns the status
    /// message when something was unpinned.
    pub fn remove_favorite_path(&mut self, path: &str) -> (status: Option<String>)
        ensures
            texts_of(final(self).paths@) == without(texts_of(old(self).paths@), path@),
            match status {
                Some(s) => pins(texts_of(old(self).paths@), path@) && s@ == "Removed unavailable favorite"@,
                None => !pins(texts_of(old(self).paths@), path@),
            },
    {
        let ghost before = texts_of(self.paths@);
        let mut kept: Vec<String> = Vec::new();
        let mut removed = false;
        let mut i: usize = 0;
        assert(before.skip(0) =~= before);
        assert(texts_of(kept@) + without(before, path@) =~= without(before, path@));
        assert(!pins(before.take(0), path@));
        while i < self.paths.len()
            invariant
                before == texts_of(self.paths@),
                i <= self.paths@.len(),
                without(before, path@) == texts_of(kept@) + without(before.skip(i as int), path@),
                removed == pins(before.take(i as int), path@),
            decreases self.paths@.len() - i,
        {
            let ghost rest = before.skip(i as int);
            assert(rest[0] == before[i as int]);
            assert(rest.drop_first() =~= before.skip(i as int + 1));
            if paths_equal(self.paths[i].as_str(), path) {
                removed = true;
                assert(before.take(i as int + 1)[i as int] == before[i as int]);
            } else {
                let ghost prev = kept@;
                kept.push(self.paths[i].clone());
                assert(texts_of(kept@) =~= texts_of(prev) + seq![before[i as int]]);
                proof {
                    if pins(before.take(i as int + 1), path@) {
                        let j = choose|j: int| 0 <= j < i + 1 && same_path(#[trigger] before.take(i as int + 1)[j], path@);
                        assert(before.take(i as int)[j] == before[j]);
                    }
                }
            }
            proof {
                if pins(before.take(i as int), path@) {
                    let j = choose|j: int| 0 <= j < i && same_path(#[trigger] before.take(i as int)[j], path@);
                    assert(before.take(i as int + 1)[j] == before[j]);
                }
            }
            i += 1;
        }
        assert(before.skip(i as int) =~= Seq::<Seq<char>>::empty());
        assert(before.take(i as int) =~= before);
        assert(texts_of(kept@) + Seq::<Seq<char>>::empty() =~= texts_of(kept@));
        self.paths = kept;
        if removed {
            Some(String::from_str("Removed unavailable favorite"))
        } else {
            None
        }
    }

    /// Moves the entry of `source` to place `target_index` (the end when the
    /// place is past it). Returns whether the order changed hands.
    pub fn reorder_favorite_path(&mut self, source: &str, target_index: usize) -> (moved: bool)
        ensures
            texts_of(final(self).paths@) == reordered(texts_of(old(self).paths@), source@, target_index as int),
            moved == (index_of(texts_of(old(self).paths@), source@) < old(self).paths@.len()
                && index_of(texts_of(old(self).paths@), source@) != target_index),
    {
        let ghost before = texts_of(self.paths@);
        let k = find_favorite(&self.paths, source);
        proof {
            lemma_index_of(before, source@, k as int);
        }
        if k == self.paths.len() || k == target_index {
            return false;
        }
        let favorite = self.paths.remove(k);
        let insertion = if target_index < self.paths.len() { target_index } else { self.paths.len() };
        self.paths.insert(insertion, favorite);
        assert(texts_of(self.paths@) =~= before.remove(k as int).insert(insertion as int, before[k as int]));
        true
    }
}

/// Pinning a folder and toggling it again leaves the favorites as they were.
pub proof fn lemma_toggle_twice_restores(v: Seq<Seq<char>>, path: Seq<char>)
    requires
        !pins(v, path),
    ensures
        toggled(toggled(v, path), path) == v,
{
    lemma_toggled_at(v, path, v.len() as int);
    let w = v.push(path);
    assert forall|j: int| 0 <= j < v.len() implies !same_path(#[trigger] w[j], path) by {
        assert(w[j] == v[j]);
    }
    lemma_toggled_at(w, path, v.len() as int);
    assert(w.remove(v.len() as int) =~= v);
}

proof fn lemma_pinned_index(v: Seq<Seq<char>>, path: Seq<char>, i: int)
    requires
        0 <= i < v.len(),
        same_path(v[i], path),
    ensures
        0 <= index_of(v, path) <= i,
    decreases v.len(),
{
    if i > 0 && !same_path(v[0], path) {
        lemma_pinned_index(v.drop_first(), path, i - 1);
    }
}

/// Dragging a pinned favorite keeps the same favorites, and puts the dragged
/// one at its target place (the last place when the target is past it).
pub proof fn lemma_reorder_moves_one(v: Seq<Seq<char>>, source: Seq<char>, target: int)
    requires
        0 <= target,
        pins(v, source),
    ensures
        reordered(v, source, target).to_multiset() == v.to_multiset(),
        reordered(v, source, target).len() == v.len(),
        ({
            let at = if target < v.len() - 1 { target } else { v.len() - 1 };
            reordered(v, source, target)[at] == v[index_of(v, source)]
        }),
{
    let i = choose|i: int| 0 <= i < v.len() && same_path(#[trigger] v[i], source);
    lemma_pinned_index(v, source, i);
    let k = index_of(v, source);
    if k != target {
        let rest = v.remove(k);
        let at = if target < rest.len() { target } else { rest.len() as int };
        vstd::seq_lib::to_multiset_remove(v, k);
        vstd::seq_lib::to_multiset_insert(rest, at, v[k]);
        assert(v.to_multiset().remove(v[k]).insert(v[k]) =~= v.to_multiset()) by {
            broadcast use vstd::multiset::group_multiset_axioms;
            broadcast use vstd::seq_lib::group_to_multiset_ensures;
            assert(v.to_multiset().count(v[k]) > 0) by {
                assert(v.contains(v[k]));
            }
        }
    }
}

/// The first entry at a path that is a folder or links to one.
pub open spec fn first_folder_at(entries: Seq<FileEntry>, path: Seq<char>) -> Option<FileEntry>
    decreases entries.len(),
{
    if entries.len() == 0 {
        None
    } else if same_path(entries[0].path@, path) && spec_directory_like(entries[0]) {
        Some(entries[0])
    } else {
        first_folder_at(entries.drop_first(), path)
    }
}

/// The folder the favorite toggle acts on: the one selected path, when the
/// listing shows a folder (or a link to one) there.
pub fn favorite_candidate(paths: &Vec<String>, entries: &Vec<FileEntry>) -> (candidate: Option<String>)
    ensures
        paths@.len() != 1 ==> candidate is None,
        paths@.len() == 1 ==> match first_folder_at(entries@, paths@[0]@) {
            Some(e) => candidate matches Some(c) && c@ == e.path@,
            None => candidate is None,
        },
{
    if paths.len() != 1 {
        return None;
    }
    let path = paths[0].as_str();
    let mut i: usize = 0;
    assert(entries@.skip(0) =~= entries@);
    while i < entries.len()
        invariant
            i <= entries@.len(),
            paths@.len() == 1,
            path@ == paths@[0]@,
            first_folder_at(entries@, path@) == first_folder_at(entries@.skip(i as int), path@),
        decreases entries@.len() - i,
    {
        assert(entries@.skip(i as int)[0] == entries@[i as int]);
        if paths_equal(entries[i].path.as_str(), path) && entries[i].is_directory_like() {
            return Some(entries[i].path.clone());
        }
        assert(entries@.skip(i as int).drop_first() =~= entries@.skip(i as int + 1));
        i += 1;
    }
    None
}

/// What opening a favorite does.
pub enum FavoriteOpen {
    /// The folder exists: show it.
    Navigate,
    /// The folder is gone: ask whether to unpin it. The first button unpins,
    /// the second keeps it.
    AskRemove { message: String, detail: String, confirm_label: String, cancel_label: String },
}

/// Opens a favorite: one that is a folder is shown; for one that is gone the
/// user is asked whether to unpin it, the path shown as detail.
pub fn favorite_open_plan(path: &str, is_folder: bool) -> (plan: FavoriteOpen)
    ensures
        is_folder ==> plan is Navigate,
        !is_folder ==> (plan matches FavoriteOpen::AskRemove { message, detail, confirm_label, cancel_label }
            && message@ == "Remove this unavailable favorite?"@ && detail@ == path@ && confirm_label@
            == "Remove from Favorites"@ && cancel_label@ == "Keep"@),
{
    if is_folder {
        return FavoriteOpen::Navigate;
    }
    FavoriteOpen::AskRemove {
        message: String::from_str("Remove this unavailable favorite?"),
        detail: String::from_str(path),
        confirm_label: String::from_str("Remove from Favorites"),
        cancel_label: String::from_str("Keep"),
    }
}

} // verus!

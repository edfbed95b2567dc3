use vstd::prelude::*;

use crate::ops::text_list;
use crate::paths::{paths_equal, same_path};
use crate::model::FileLayout;
use crate::search::next_generation;

verus! {

/// At most this many grid previews load at once.
pub const GRID_PREVIEW_CONCURRENCY: usize = 2;

/// The preview of one grid card.
pub enum GridPreviewState {
    Loading,
    /// The first lines of a text file.
    Text(Vec<String>),
    /// A thumbnail image, by its path.
    Thumbnail(String),
    Unavailable,
}

/// A preview as plain values.
pub enum PreviewView {
    Loading,
    Text(Seq<Seq<char>>),
    Thumbnail(Seq<char>),
    Unavailable,
}

/// A preview as plain values.
pub open spec fn preview_view(p: GridPreviewState) -> PreviewView {
    match p {
        GridPreviewState::Loading => PreviewView::Loading,
        GridPreviewState::Text(lines) => PreviewView::Text(lines@.map_values(|l: String| l@)),
        GridPreviewState::Thumbnail(path) => PreviewView::Thumbnail(path@),
        GridPreviewState::Unavailable => PreviewView::Unavailable,
    }
}

/// A preview to load: the card's key and the file it shows.
pub struct GridPreviewRequest {
    pub key: String,
    pub source: String,
}

/// A request as its key and source.
pub open spec fn request_view(r: GridPreviewRequest) -> (Seq<char>, Seq<char>) {
    (r.key@, r.source@)
}

/// Requests as keys and sources.
pub open spec fn requests_view(v: Seq<GridPreviewRequest>) -> Seq<(Seq<char>, Seq<char>)> {
    v.map_values(|r: GridPreviewRequest| request_view(r))
}

/// The grid previews: those known or loading, by card key, the requests
/// waiting, the keys loading now, and a generation that a reset advances so
/// that previews loaded before it are dropped.
pub struct GridPreviews {
    pub previews: Vec<(String, GridPreviewState)>,
    pub queue: Vec<GridPreviewRequest>,
    pub inflight: Vec<String>,
    pub generation: u64,
}

/// The grid previews as plain values.
pub struct GridPreviewsView {
    pub previews: Seq<(Seq<char>, PreviewView)>,
    pub queue: Seq<(Seq<char>, Seq<char>)>,
    pub inflight: Seq<Seq<char>>,
    pub generation: u64,
}

/// Stored previews as plain values.
pub open spec fn previews_view(v: Seq<(String, GridPreviewState)>) -> Seq<(Seq<char>, PreviewView)> {
    v.map_values(|p: (String, GridPreviewState)| (p.0@, preview_view(p.1)))
}

impl View for GridPreviews {
    type V = GridPreviewsView;

    open spec fn view(&self) -> GridPreviewsView {
        GridPreviewsView {
            previews: previews_view(self.previews@),
            queue: requests_view(self.queue@),
            inflight: text_list(self.inflight@),
            generation: self.generation,
        }
    }
}

/// Whether a key names the same path as one of the keys.
pub open spec fn has_key(keys: Seq<Seq<char>>, key: Seq<char>) -> bool {
    exists|i: int| 0 <= i < keys.len() && same_path(#[trigger] keys[i], key)
}

/// The place of the first preview stored under a key naming the same path.
pub open spec fn key_index(ps: Seq<(Seq<char>, PreviewView)>, key: Seq<char>) -> Option<int>
    decreases ps.len(),
{
    if ps.len() == 0 {
        None
    } else if same_path(ps[0].0, key) {
        Some(0)
    } else {
        match key_index(ps.drop_first(), key) {
            Some(i) => Some(i + 1),
            None => None,
        }
    }
}

/// The previews with one stored under a key: the value of a key already
/// there is replaced, keeping its key; a new key comes last.
pub open spec fn stored(ps: Seq<(Seq<char>, PreviewView)>, key: Seq<char>, preview: PreviewView) -> Seq<
    (Seq<char>, PreviewView),
> {
    match key_index(ps, key) {
        Some(i) => ps.update(i, (ps[i].0, preview)),
        None => ps.push((key, preview)),
    }
}

/// Keys other than those naming the same path as `key`.
pub open spec fn other_than(key: Seq<char>) -> spec_fn(Seq<char>) -> bool {
    |k: Seq<char>| !same_path(k, key)
}

impl GridPreviewsView {
    /// No more previews load at once than allowed.
    pub open spec fn wf(self) -> bool {
        self.inflight.len() <= GRID_PREVIEW_CONCURRENCY
    }

    /// Waiting requests started, first come first served, while fewer than
    /// the allowed number load; a request for a key already loading is
    /// dropped. Gives the state and the requests started, in order.
    pub open spec fn pumped(self) -> (GridPreviewsView, Seq<(Seq<char>, Seq<char>)>)
        decreases self.queue.len(),
    {
        if self.inflight.len() >= GRID_PREVIEW_CONCURRENCY || self.queue.len() == 0 {
            (self, Seq::empty())
        } else {
            let r = self.queue[0];
            let rest = GridPreviewsView { queue: self.queue.drop_first(), ..self };
            if has_key(self.inflight, r.0) {
                rest.pumped()
            } else {
                let next = GridPreviewsView { inflight: self.inflight.push(r.0), ..rest }.pumped();
                (next.0, seq![r] + next.1)
            }
        }
    }

    /// A preview asked for a card: nothing happens when the card has one or
    /// is loading one; otherwise it is marked loading and queued.
    pub open spec fn ensured(self, key: Seq<char>, source: Seq<char>) -> (GridPreviewsView, Seq<(Seq<char>, Seq<char>)>) {
        if key_index(self.previews, key) is Some {
            (self, Seq::empty())
        } else {
            GridPreviewsView {
                previews: self.previews.push((key, PreviewView::Loading)),
                queue: self.queue.push((key, source)),
                ..self
            }.pumped()
        }
    }

    /// A preview finished loading: its key stops loading, the preview is kept
    /// only when no reset came since it started, and waiting requests start.
    pub open spec fn finished(self, key: Seq<char>, generation: u64, preview: PreviewView) -> (GridPreviewsView, Seq<
        (Seq<char>, Seq<char>),
    >) {
        GridPreviewsView {
            inflight: self.inflight.filter(other_than(key)),
            previews: if generation == self.generation {
                stored(self.previews, key, preview)
            } else {
                self.previews
            },
            ..self
        }.pumped()
    }

    /// Everything forgotten; previews still loading will be dropped.
    pub open spec fn reset(self) -> GridPreviewsView {
        GridPreviewsView {
            previews: Seq::empty(),
            queue: Seq::empty(),
            inflight: Seq::empty(),
            generation: next_generation(self.generation),
        }
    }
}

/// Starting waiting requests never goes past the limit: every request
/// started is loading afterwards, and the stored previews stay as they were.
pub proof fn lemma_pumping_keeps_the_limit(s: GridPreviewsView)
    requires
        s.wf(),
    ensures
        s.pumped().0.wf(),
        s.pumped().0.inflight.len() == s.inflight.len() + s.pumped().1.len(),
        s.pumped().0.previews == s.previews,
        s.pumped().0.generation == s.generation,
    decreases s.queue.len(),
{
    if s.inflight.len() >= GRID_PREVIEW_CONCURRENCY || s.queue.len() == 0 {
    } else {
        let r = s.queue[0];
        let rest = GridPreviewsView { queue: s.queue.drop_first(), ..s };
        if has_key(s.inflight, r.0) {
            lemma_pumping_keeps_the_limit(rest);
        } else {
            let grown = GridPreviewsView { inflight: s.inflight.push(r.0), ..rest };
            lemma_pumping_keeps_the_limit(grown);
        }
    }
}

/// Asking twice for the preview of a card is the same as asking once.
pub proof fn lemma_asking_twice_is_asking_once(s: GridPreviewsView, key: Seq<char>, source: Seq<char>)
    requires
        s.wf(),
    ensures
        s.ensured(key, source).0.ensured(key, source) == (s.ensured(key, source).0, Seq::<(Seq<char>, Seq<char>)>::empty()),
{
    if key_index(s.previews, key) is None {
        let grown = GridPreviewsView {
            previews: s.previews.push((key, PreviewView::Loading)),
            queue: s.queue.push((key, source)),
            ..s
        };
        lemma_pumping_keeps_the_limit(grown);
        lemma_key_index_none(s.previews, key);
        assert forall|j: int| 0 <= j < s.previews.len() implies !same_path(#[trigger] grown.previews[j].0, key) by {
            assert(grown.previews[j] == s.previews[j]);
        }
        lemma_key_index(grown.previews, key, s.previews.len() as int);
    }
}

proof fn lemma_key_index_none(ps: Seq<(Seq<char>, PreviewView)>, key: Seq<char>)
    requires
        key_index(ps, key) is None,
    ensures
        forall|j: int| 0 <= j < ps.len() ==> !same_path(#[trigger] ps[j].0, key),
    decreases ps.len(),
{
    if ps.len() > 0 {
        lemma_key_index_none(ps.drop_first(), key);
        assert forall|j: int| 0 <= j < ps.len() implies !same_path(#[trigger] ps[j].0, key) by {
            if j > 0 {
                assert(ps[j] == ps.drop_first()[j - 1]);
            }
        }
    }
}

/// After a reset, a preview that was loading before it never shows.
pub proof fn lemma_reset_drops_late_previews(s: GridPreviewsView, key: Seq<char>, preview: PreviewView)
    ensures
        s.reset().finished(key, s.generation, preview) == (s.reset(), Seq::<(Seq<char>, Seq<char>)>::empty()),
{
    assert(Seq::<Seq<char>>::empty().filter(other_than(key)) =~= Seq::<Seq<char>>::empty());
}

proof fn lemma_key_index(ps: Seq<(Seq<char>, PreviewView)>, key: Seq<char>, k: int)
    requires
        0 <= k <= ps.len(),
        forall|j: int| 0 <= j < k ==> !same_path(#[trigger] ps[j].0, key),
        k == ps.len() || same_path(ps[k].0, key),
    ensures
        key_index(ps, key) == if k == ps.len() {
            None
        } else {
            Some(k)
        },
    decreases k,
{
    if k > 0 {
        assert forall|j: int| 0 <= j < k - 1 implies !same_path(#[trigger] ps.drop_first()[j].0, key) by {
            assert(ps.drop_first()[j] == ps[j + 1]);
        }
        lemma_key_index(ps.drop_first(), key, k - 1);
    }
}

/// The place of the preview stored under a key naming the same path.
fn find_preview(previews: &Vec<(String, GridPreviewState)>, key: &str) -> (index: Option<usize>)
    ensures
        match index {
            Some(i) => i < previews@.len() && key_index(previews_view(previews@), key@) == Some(i as int),
            None => key_index(previews_view(previews@), key@) is None,
        },
{
    let ghost ps = previews_view(previews@);
    let mut i: usize = 0;
    while i < previews.len()
        invariant
            ps == previews_view(previews@),
            i <= previews@.len(),
            forall|j: int| 0 <= j < i ==> !same_path(#[trigger] ps[j].0, key@),
        decreases previews@.len() - i,
    {
        assert(ps[i as int].0 == previews@[i as int].0@);
        if paths_equal(previews[i].0.as_str(), key) {
            proof {
                lemma_key_index(ps, key@, i as int);
            }
            return Some(i);
        }
        i += 1;
    }
    proof {
        lemma_key_index(ps, key@, i as int);
    }
    None
}

fn loading_key(inflight: &Vec<String>, key: &str) -> (found: bool)
    ensures
        found == has_key(text_list(inflight@), key@),
{
    let ghost ks = text_list(inflight@);
    let mut i: usize = 0;
    while i < inflight.len()
        invariant
            ks == text_list(inflight@),
            i <= inflight@.len(),
            forall|j: int| 0 <= j < i ==> !same_path(#[trigger] ks[j], key@),
        decreases inflight@.len() - i,
    {
        if paths_equal(inflight[i].as_str(), key) {
            assert(same_path(ks[i as int], key@));
            return true;
        }
        i += 1;
    }
    false
}

impl GridPreviews {
    /// No previews, nothing waiting or loading.
    pub fn new() -> (grid: Self)
        ensures
            grid@.previews.len() == 0,
            grid@.queue.len() == 0,
            grid@.inflight.len() == 0,
            grid@.generation == 0,
            grid@.wf(),
    {
        let grid = GridPreviews { previews: Vec::new(), queue: Vec::new(), inflight: Vec::new(), generation: 0 };
        assert(grid@.previews =~= Seq::<(Seq<char>, PreviewView)>::empty());
        assert(grid@.queue =~= Seq::<(Seq<char>, Seq<char>)>::empty());
        assert(grid@.inflight =~= Seq::<Seq<char>>::empty());
        grid
    }

    /// Starts waiting requests while fewer than the allowed number load, and
    /// gives those started; each is to be loaded under the current generation.
    pub fn pump(&mut self) -> (started: Vec<GridPreviewRequest>)
        requires
            old(self)@.wf(),
        ensures
            final(self)@ == old(self)@.pumped().0,
            requests_view(started@) == old(self)@.pumped().1,
            final(self)@.wf(),
    {
        let mut started: Vec<GridPreviewRequest> = Vec::new();
        while self.inflight.len() < GRID_PREVIEW_CONCURRENCY && self.queue.len() > 0
            invariant
                self@.wf(),
                old(self)@.pumped().0 == self@.pumped().0,
                old(self)@.pumped().1 == requests_view(started@) + self@.pumped().1,
            decreases self.queue@.len(),
        {
            let ghost before = self@;
            let request = self.queue.remove(0);
            assert(requests_view(self.queue@) =~= before.queue.drop_first());
            assert(request_view(request) == before.queue[0]);
            if !loading_key(&self.inflight, request.key.as_str()) {
                self.inflight.push(request.key.clone());
                assert(text_list(self.inflight@) =~= before.inflight.push(request.key@));
                let ghost prev = started@;
                started.push(request);
                assert(requests_view(started@) =~= requests_view(prev).push(before.queue[0]));
                assert(requests_view(started@) + self@.pumped().1 =~= requests_view(prev) + (seq![before.queue[0]]
                    + self@.pumped().1));
            }
        }
        assert(self@.pumped().1 =~= Seq::<(Seq<char>, Seq<char>)>::empty());
        assert(requests_view(started@) + self@.pumped().1 =~= requests_view(started@));
        started
    }

    /// Asks for the preview of a card, showing the file `source`; gives the
    /// requests to start loading now.
    pub fn ensure(&mut self, key: String, source: String) -> (started: Vec<GridPreviewRequest>)
        requires
            old(self)@.wf(),
        ensures
            final(self)@ == old(self)@.ensured(key@, source@).0,
            requests_view(started@) == old(self)@.ensured(key@, source@).1,
            final(self)@.wf(),
    {
        if find_preview(&self.previews, key.as_str()).is_some() {
            let none: Vec<GridPreviewRequest> = Vec::new();
            assert(requests_view(none@) =~= Seq::<(Seq<char>, Seq<char>)>::empty());
            return none;
        }
        let ghost before = self@;
        self.previews.push((key.clone(), GridPreviewState::Loading));
        self.queue.push(GridPreviewRequest { key, source });
        assert(self@.previews =~= before.previews.push((key@, PreviewView::Loading)));
        assert(self@.queue =~= before.queue.push((key@, source@)));
        self.pump()
    }

    /// Takes in a preview loaded for a card under `generation`; gives the
    /// requests to start loading now.
    pub fn finish(&mut self, key: &str, generation: u64, preview: GridPreviewState) -> (started: Vec<
        GridPreviewRequest,
    >)
        requires
            old(self)@.wf(),
        ensures
            final(self)@ == old(self)@.finished(key@, generation, preview_view(preview)).0,
            requests_view(started@) == old(self)@.finished(key@, generation, preview_view(preview)).1,
            final(self)@.wf(),
    {
        let ghost before = self@;
        let mut kept: Vec<String> = Vec::new();
        let mut i: usize = 0;
        while i < self.inflight.len()
            invariant
                before.inflight == text_list(self.inflight@),
                i <= self.inflight@.len(),
                text_list(kept@) == before.inflight.take(i as int).filter(other_than(key@)),
            decreases self.inflight@.len() - i,
        {
            let ghost prev = text_list(kept@);
            assert(before.inflight.take(i as int + 1) =~= before.inflight.take(i as int).push(before.inflight[i as int]));
            proof {
                before.inflight.take(i as int).lemma_filter_push(before.inflight[i as int], other_than(key@));
            }
            if !paths_equal(self.inflight[i].as_str(), key) {
                kept.push(self.inflight[i].clone());
                assert(text_list(kept@) =~= prev.push(before.inflight[i as int]));
            }
            i += 1;
        }
        assert(before.inflight.take(i as int) =~= before.inflight);
        proof {
            before.inflight.lemma_filter_len(other_than(key@));
        }
        self.inflight = kept;
        if generation == self.generation {
            match find_preview(&self.previews, key) {
                Some(index) => {
                    let existing = self.previews[index].0.clone();
                    self.previews.set(index, (existing, preview));
                    assert(self@.previews =~= stored(before.previews, key@, preview_view(preview)));
                },
                None => {
                    self.previews.push((String::from_str(key), preview));
                    assert(self@.previews =~= stored(before.previews, key@, preview_view(preview)));
                },
            }
        }
        self.pump()
    }

    /// Forgets every preview and request; previews still loading are dropped
    /// when they arrive.
    pub fn reset(&mut self)
        ensures
            final(self)@ == old(self)@.reset(),
            final(self)@.wf(),
    {
        self.previews = Vec::new();
        self.queue = Vec::new();
        self.inflight = Vec::new();
        self.generation = if self.generation == u64::MAX {
            0
        } else {
            self.generation + 1
        };
        assert(self@.previews =~= Seq::<(Seq<char>, PreviewView)>::empty());
        assert(self@.queue =~= Seq::<(Seq<char>, Seq<char>)>::empty());
        assert(self@.inflight =~= Seq::<Seq<char>>::empty());
    }

    /// The preview of a card, if one is known or loading.
    pub fn preview(&self, key: &str) -> (found: Option<&GridPreviewState>)
        ensures
            match key_index(self@.previews, key@) {
                Some(i) => found matches Some(p) && preview_view(*p) == self@.previews[i].1,
                None => found is None,
            },
    {
        match find_preview(&self.previews, key) {
            Some(i) => Some(&self.previews[i].1),
            None => None,
        }
    }
}

/// What switching the file layout does: nothing when it stays the same;
/// otherwise the list starts from the top, and leaving the grid for the
/// detailed list also resets the grid previews (given as `Some(true)`).
pub fn layout_switch(current: FileLayout, next: FileLayout) -> (switch: Option<bool>)
    ensures
        switch == if current == next {
            None
        } else {
            Some(next == FileLayout::Details)
        },
{
    if current == next {
        None
    } else {
        Some(next == FileLayout::Details)
    }
}

} // verus!

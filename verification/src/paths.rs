use vstd::prelude::*;

use crate::ops::{is_absolute, make_absolute, normalized_absolute, result_text, spec_absolute};

verus! {

/// A component of a Unix path, as a reader of the path text sees it.
pub enum Comp {
    Root,
    Cur,
    Parent,
    Normal(Seq<char>),
}

/// A component of a Unix path.
#[derive(Clone, Debug, PartialEq, Eq)]
pub enum PathComponent {
    RootDir,
    CurDir,
    ParentDir,
    Normal(String),
}

pub open spec fn comp_view(c: PathComponent) -> Comp {
    match c {
        PathComponent::RootDir => Comp::Root,
        PathComponent::CurDir => Comp::Cur,
        PathComponent::ParentDir => Comp::Parent,
        PathComponent::Normal(s) => Comp::Normal(s@),
    }
}

pub open spec fn comps_view(cs: Seq<PathComponent>) -> Seq<Comp> {
    cs.map_values(|c: PathComponent| comp_view(c))
}

/// The text of a path cut at every '/': the parts between separators, the
/// last one being the text after the last separator.
pub open spec fn split_parts(s: Seq<char>) -> Seq<Seq<char>>
    decreases s.len(),
{
    if s.len() == 0 {
        seq![Seq::empty()]
    } else {
        let prev = split_parts(s.drop_last());
        if s.last() == '/' {
            prev.push(Seq::empty())
        } else {
            prev.update(prev.len() - 1, prev.last().push(s.last()))
        }
    }
}

/// The components a part contributes: none for an empty part (a repeated or
/// trailing separator) or ".", a parent for "..", else a name.
pub open spec fn part_comps(p: Seq<char>) -> Seq<Comp> {
    if p.len() == 0 || p == seq!['.'] {
        Seq::empty()
    } else if p == seq!['.', '.'] {
        seq![Comp::Parent]
    } else {
        seq![Comp::Normal(p)]
    }
}

pub open spec fn body_comps(parts: Seq<Seq<char>>) -> Seq<Comp>
    decreases parts.len(),
{
    if parts.len() == 0 {
        Seq::empty()
    } else {
        body_comps(parts.drop_last()) + part_comps(parts.last())
    }
}

/// The components of a Unix path: a root for a leading '/', a current-folder
/// mark for a relative path that starts with "." as its own part, then the
/// names and ".." parts in order; empty parts and other "." parts are left out.
pub open spec fn components(s: Seq<char>) -> Seq<Comp> {
    let parts = split_parts(s);
    if s.len() > 0 && s[0] == '/' {
        seq![Comp::Root] + body_comps(parts)
    } else if parts[0] == seq!['.'] {
        seq![Comp::Cur] + body_comps(parts)
    } else {
        body_comps(parts)
    }
}

pub proof fn lemma_split_parts_nonempty(s: Seq<char>)
    ensures
        split_parts(s).len() >= 1,
    decreases s.len(),
{
    if s.len() > 0 {
        lemma_split_parts_nonempty(s.drop_last());
    }
}

pub proof fn lemma_split_parts_first(s: Seq<char>, n: int)
    requires
        0 < n <= s.len(),
        forall|j: int| 0 <= j < n ==> s[j] != '/',
    ensures
        split_parts(s.take(n)) == seq![s.take(n)],
    decreases n,
{
    lemma_split_parts_nonempty(s.take(n - 1));
    if n > 1 {
        lemma_split_parts_first(s, n - 1);
    }
    assert(s.take(n).drop_last() =~= s.take(n - 1));
    assert(s.take(n - 1).push(s[n - 1]) =~= s.take(n));
    if n == 1 {
        assert(s.take(0) =~= Seq::<char>::empty());
    }
}

pub fn chars_of(s: &str) -> (chars: Vec<char>)
    ensures
        chars@ == s@,
{
    let n = s.unicode_len();
    let mut chars: Vec<char> = Vec::new();
    let mut i: usize = 0;
    while i < n
        invariant
            n == s@.len(),
            i <= n,
            chars@ == s@.take(i as int),
        decreases n - i,
    {
        chars.push(s.get_char(i));
        i += 1;
        assert(chars@ =~= s@.take(i as int));
    }
    assert(s@.take(n as int) =~= s@);
    chars
}

fn string_from_chars(chars: &Vec<char>, from: usize, to: usize, source: &str) -> (text: String)
    requires
        chars@ == source@,
        from <= to <= chars@.len(),
    ensures
        text@ == chars@.subrange(from as int, to as int),
{
    String::from_str(source.substring_char(from, to))
}

fn is_dot(chars: &Vec<char>, from: usize, to: usize) -> (dot: bool)
    requires
        from <= to <= chars@.len(),
    ensures
        dot == (chars@.subrange(from as int, to as int) == seq!['.']),
{
    if to - from == 1 && chars[from] == '.' {
        assert(chars@.subrange(from as int, to as int) =~= seq!['.']);
        true
    } else {
        let ghost sub = chars@.subrange(from as int, to as int);
        assert(sub.len() == to - from);
        assert(seq!['.'].len() == 1 && seq!['.'][0] == '.');
        if to - from == 1 {
            assert(sub[0] == chars@[from as int]);
        }
        assert(sub != seq!['.']);
        false
    }
}

fn is_dot_dot(chars: &Vec<char>, from: usize, to: usize) -> (dots: bool)
    requires
        from <= to <= chars@.len(),
    ensures
        dots == (chars@.subrange(from as int, to as int) == seq!['.', '.']),
{
    if to - from == 2 && chars[from] == '.' && chars[from + 1] == '.' {
        assert(chars@.subrange(from as int, to as int) =~= seq!['.', '.']);
        true
    } else {
        let ghost sub = chars@.subrange(from as int, to as int);
        assert(sub.len() == to - from);
        assert(seq!['.', '.'].len() == 2 && seq!['.', '.'][0] == '.' && seq!['.', '.'][1] == '.');
        if to - from == 2 {
            assert(sub[0] == chars@[from as int]);
            assert(sub[1] == chars@[from + 1]);
        }
        assert(sub != seq!['.', '.']);
        false
    }
}

/// Appends the components of one part.
fn push_part(out: &mut Vec<PathComponent>, chars: &Vec<char>, from: usize, to: usize, source: &str)
    requires
        chars@ == source@,
        from <= to <= chars@.len(),
    ensures
        comps_view(final(out)@) == comps_view(old(out)@) + part_comps(chars@.subrange(from as int, to as int)),
{
    let ghost part = chars@.subrange(from as int, to as int);
    if to == from || is_dot(chars, from, to) {
        assert(comps_view(out@) =~= comps_view(old(out)@) + part_comps(part));
        return;
    }
    if is_dot_dot(chars, from, to) {
        out.push(PathComponent::ParentDir);
    } else {
        out.push(PathComponent::Normal(string_from_chars(chars, from, to, source)));
    }
    assert(comps_view(out@) =~= comps_view(old(out)@) + part_comps(part));
}

/// The components of a Unix path.
pub fn path_components(path: &str) -> (comps: Vec<PathComponent>)
    ensures
        comps_view(comps@) == components(path@),
{
    let chars = chars_of(path);
    let n = chars.len();
    let mut out: Vec<PathComponent> = Vec::new();
    let ghost s = path@;
    // The first part ends at the first separator.
    let mut first_end: usize = 0;
    while first_end < n && chars[first_end] != '/'
        invariant
            n == s.len(),
            chars@ == s,
            first_end <= n,
            forall|j: int| 0 <= j < first_end ==> s[j] != '/',
        decreases n - first_end,
    {
        first_end += 1;
    }
    proof {
        lemma_split_parts_nonempty(s);
        lemma_first_part(s, first_end as int);
    }
    if n > 0 && chars[0] == '/' {
        out.push(PathComponent::RootDir);
    } else if is_dot(&chars, 0, first_end) {
        out.push(PathComponent::CurDir);
    }
    let ghost prefix = comps_view(out@);
    assert(prefix == (if s.len() > 0 && s[0] == '/' {
        seq![Comp::Root]
    } else if split_parts(s)[0] == seq!['.'] {
        seq![Comp::Cur]
    } else {
        Seq::empty()
    }));
    let mut start: usize = 0;
    let mut i: usize = 0;
    while i < n
        invariant
            n == s.len(),
            chars@ == s,
            s == path@,
            start <= i <= n,
            split_parts(s.take(i as int)).len() >= 1,
            split_parts(s.take(i as int)).last() == s.subrange(start as int, i as int),
            comps_view(out@) == prefix + body_comps(split_parts(s.take(i as int)).drop_last()),
        decreases n - i,
    {
        let ghost parts = split_parts(s.take(i as int));
        assert(s.take(i as int + 1).drop_last() =~= s.take(i as int));
        if chars[i] == '/' {
            push_part(&mut out, &chars, start, i, path);
            assert(split_parts(s.take(i as int + 1)) == parts.push(Seq::empty()));
            assert(split_parts(s.take(i as int + 1)).drop_last() =~= parts);
            assert(body_comps(parts) == body_comps(parts.drop_last()) + part_comps(parts.last()));
            assert(comps_view(out@) =~= prefix + body_comps(split_parts(s.take(i as int + 1)).drop_last()));
            start = i + 1;
            assert(s.subrange(start as int, i as int + 1) =~= Seq::<char>::empty());
        } else {
            let ghost next = parts.update(parts.len() - 1, parts.last().push(s[i as int]));
            assert(split_parts(s.take(i as int + 1)) == next);
            assert(next.drop_last() =~= parts.drop_last());
            assert(s.subrange(start as int, i as int).push(s[i as int]) =~= s.subrange(start as int, i as int + 1));
        }
        i += 1;
    }
    assert(s.take(n as int) =~= s);
    let ghost parts = split_parts(s);
    push_part(&mut out, &chars, start, n, path);
    assert(body_comps(parts) == body_comps(parts.drop_last()) + part_comps(parts.last()));
    assert(comps_view(out@) =~= prefix + body_comps(parts));
    out
}

proof fn lemma_first_part(s: Seq<char>, first_end: int)
    requires
        0 <= first_end <= s.len(),
        forall|j: int| 0 <= j < first_end ==> s[j] != '/',
        first_end == s.len() || s[first_end] == '/',
    ensures
        split_parts(s)[0] == s.subrange(0, first_end),
{
    lemma_split_parts_prefix_first(s, first_end);
}

proof fn lemma_split_parts_prefix_first(s: Seq<char>, first_end: int)
    requires
        0 <= first_end <= s.len(),
        forall|j: int| 0 <= j < first_end ==> s[j] != '/',
        first_end == s.len() || s[first_end] == '/',
    ensures
        split_parts(s)[0] == s.subrange(0, first_end),
    decreases s.len(),
{
    lemma_split_parts_nonempty(s);
    if s.len() == first_end {
        if first_end == 0 {
        } else {
            lemma_split_parts_first(s, first_end);
            assert(s.take(first_end) =~= s);
            assert(s.subrange(0, first_end) =~= s);
        }
    } else {
        let init = s.drop_last();
        lemma_split_parts_nonempty(init);
        if first_end < init.len() {
            assert(init[first_end] == s[first_end]);
            lemma_split_parts_prefix_first(init, first_end);
            assert(init.subrange(0, first_end) =~= s.subrange(0, first_end));
            if s.last() != '/' {
                let prev = split_parts(init);
                if prev.len() == 1 {
                    // The only part would contain the separator at first_end.
                    lemma_single_part_has_no_separator(init);
                    assert(false);
                }
            }
        } else {
            // the separator is the last character
            assert(first_end == init.len());
            if first_end == 0 {
                assert(init =~= Seq::<char>::empty());
            } else {
                lemma_split_parts_first(s, first_end);
                assert(s.take(first_end) =~= init);
                assert(s.subrange(0, first_end) =~= init);
            }
        }
    }
}

/// A text with a separator is cut into at least two parts.
proof fn lemma_single_part_has_no_separator(s: Seq<char>)
    requires
        split_parts(s).len() == 1,
    ensures
        forall|j: int| 0 <= j < s.len() ==> s[j] != '/',
    decreases s.len(),
{
    if s.len() > 0 {
        let init = s.drop_last();
        lemma_split_parts_nonempty(init);
        if s.last() == '/' {
            assert(false);
        }
        lemma_single_part_has_no_separator(init);
        assert forall|j: int| 0 <= j < s.len() implies s[j] != '/' by {
            if j < init.len() {
                assert(init[j] == s[j]);
            }
        }
    }
}

/// The text a component stands for.
pub open spec fn comp_text(c: Comp) -> Seq<char> {
    match c {
        Comp::Root => seq!['/'],
        Comp::Cur => seq!['.'],
        Comp::Parent => seq!['.', '.'],
        Comp::Normal(p) => p,
    }
}

/// Appends a relative piece to a path, with a separator unless the path is
/// empty or already ends in one.
pub open spec fn push_path(path: Seq<char>, piece: Seq<char>) -> Seq<char> {
    if path.len() == 0 {
        piece
    } else if path.last() == '/' {
        path + piece
    } else {
        path + seq!['/'] + piece
    }
}

/// The path that a sequence of components spells, built piece by piece; a
/// root replaces what came before.
pub open spec fn render(comps: Seq<Comp>) -> Seq<char>
    decreases comps.len(),
{
    if comps.len() == 0 {
        Seq::empty()
    } else {
        match comps.last() {
            Comp::Root => seq!['/'],
            c => push_path(render(comps.drop_last()), comp_text(c)),
        }
    }
}

/// The final name of a path: its last component when that is a name.
pub open spec fn spec_file_name(path: Seq<char>) -> Option<Seq<char>> {
    let comps = components(path);
    if comps.len() > 0 && comps.last() is Normal {
        Some(comps.last()->Normal_0)
    } else {
        None
    }
}

/// Two paths name the same location when their components are equal.
pub open spec fn same_path(a: Seq<char>, b: Seq<char>) -> bool {
    components(a) == components(b)
}

pub fn push_path_text(path: &mut String, piece: &str)
    ensures
        final(path)@ == push_path(old(path)@, piece@),
{
    let n = path.as_str().unicode_len();
    if n == 0 {
        path.append(piece);
    } else if path.as_str().get_char(n - 1) == '/' {
        path.append(piece);
    } else {
        path.append("/");
        path.append(piece);
        proof {
            reveal_strlit("/");
        }
    }
    assert(path@ =~= push_path(old(path)@, piece@));
}

fn component_text(c: &PathComponent) -> (text: String)
    ensures
        text@ == comp_text(comp_view(*c)),
{
    proof {
        reveal_strlit("/");
        reveal_strlit(".");
        reveal_strlit("..");
    }
    match c {
        PathComponent::RootDir => String::from_str("/"),
        PathComponent::CurDir => String::from_str("."),
        PathComponent::ParentDir => String::from_str(".."),
        PathComponent::Normal(name) => name.clone(),
    }
}

/// The path text that a list of components spells.
pub fn render_components(comps: &Vec<PathComponent>) -> (path: String)
    ensures
        path@ == render(comps_view(comps@)),
{
    let mut path = String::new();
    let mut i: usize = 0;
    while i < comps.len()
        invariant
            i <= comps@.len(),
            path@ == render(comps_view(comps@.take(i as int))),
        decreases comps@.len() - i,
    {
        assert(comps_view(comps@.take(i as int + 1)).drop_last() =~= comps_view(comps@.take(i as int)));
        let text = component_text(&comps[i]);
        match &comps[i] {
            PathComponent::RootDir => {
                path = text;
            },
            _ => {
                push_path_text(&mut path, text.as_str());
            },
        }
        i += 1;
    }
    assert(comps@.take(i as int) =~= comps@);
    path
}

pub fn copy_component(c: &PathComponent) -> (copy: PathComponent)
    ensures
        copy == *c,
{
    match c {
        PathComponent::RootDir => PathComponent::RootDir,
        PathComponent::CurDir => PathComponent::CurDir,
        PathComponent::ParentDir => PathComponent::ParentDir,
        PathComponent::Normal(name) => PathComponent::Normal(name.clone()),
    }
}

pub fn same_component(a: &PathComponent, b: &PathComponent) -> (same: bool)
    ensures
        same == (comp_view(*a) == comp_view(*b)),
{
    match (a, b) {
        (PathComponent::RootDir, PathComponent::RootDir) => true,
        (PathComponent::CurDir, PathComponent::CurDir) => true,
        (PathComponent::ParentDir, PathComponent::ParentDir) => true,
        (PathComponent::Normal(x), PathComponent::Normal(y)) => x.eq(y),
        _ => false,
    }
}

/// Whether two paths name the same location, compared component by component.
pub fn paths_equal(a: &str, b: &str) -> (same: bool)
    ensures
        same == same_path(a@, b@),
{
    let ca = path_components(a);
    let cb = path_components(b);
    if ca.len() != cb.len() {
        proof {
            assert(comps_view(ca@).len() != comps_view(cb@).len());
        }
        return false;
    }
    let mut i: usize = 0;
    while i < ca.len()
        invariant
            i <= ca@.len(),
            ca@.len() == cb@.len(),
            comps_view(ca@) == components(a@),
            comps_view(cb@) == components(b@),
            forall|j: int| 0 <= j < i ==> comp_view(ca@[j]) == comp_view(cb@[j]),
        decreases ca@.len() - i,
    {
        if !same_component(&ca[i], &cb[i]) {
            proof {
                assert(comps_view(ca@)[i as int] != comps_view(cb@)[i as int]);
            }
            return false;
        }
        i += 1;
    }
    assert(comps_view(ca@) =~= comps_view(cb@));
    true
}

/// Whether a sidebar place is the folder being shown: the paths must name the
/// same location exactly, not merely one inside the other.
pub fn place_is_active(current_path: &str, place_path: &str) -> (active: bool)
    ensures
        active == same_path(current_path@, place_path@),
{
    paths_equal(current_path, place_path)
}

/// The final name of a path, if it ends in a name.
pub fn file_name(path: &str) -> (name: Option<String>)
    ensures
        match name {
            Some(n) => spec_file_name(path@) == Some(n@),
            None => spec_file_name(path@) is None,
        },
{
    let comps = path_components(path);
    let n = comps.len();
    if n == 0 {
        return None;
    }
    assert(comps_view(comps@).last() == comp_view(comps@[n - 1]));
    match &comps[n - 1] {
        PathComponent::Normal(name) => Some(name.clone()),
        _ => None,
    }
}

/// Whether a name is one valid file name: not empty, not "." or "..", and
/// without '/' or NUL.
pub open spec fn valid_file_name(name: Seq<char>) -> bool {
    name.len() > 0 && name != seq!['.'] && name != seq!['.', '.'] && !name.contains('/') && !name.contains('\0')
}

pub open spec fn invalid_name_message() -> Seq<char> {
    "Enter one valid file name without path separators"@
}

/// Checks that a name can be given to one file.
pub fn validate_file_name(name: &str) -> (result: Result<(), String>)
    ensures
        result is Ok <==> valid_file_name(name@),
        result matches Err(message) ==> message@ == invalid_name_message(),
{
    let chars = chars_of(name);
    let n = chars.len();
    let mut bad = false;
    let mut i: usize = 0;
    while i < n
        invariant
            n == chars@.len(),
            chars@ == name@,
            i <= n,
            bad == exists|j: int| 0 <= j < i && (chars@[j] == '/' || chars@[j] == '\0'),
        decreases n - i,
    {
        if chars[i] == '/' || chars[i] == '\0' {
            bad = true;
        }
        i += 1;
    }
    proof {
        if !bad {
            assert(!name@.contains('/'));
            assert(!name@.contains('\0'));
        } else {
            let j = choose|j: int| 0 <= j < n && (chars@[j] == '/' || chars@[j] == '\0');
            assert(name@[j] == '/' || name@[j] == '\0');
        }
    }
    let dot = n == 1 && chars[0] == '.';
    let dots = n == 2 && chars[0] == '.' && chars[1] == '.';
    proof {
        assert(seq!['.'].len() == 1 && seq!['.'][0] == '.');
        assert(seq!['.', '.'].len() == 2 && seq!['.', '.'][0] == '.' && seq!['.', '.'][1] == '.');
        if dot {
            assert(name@ =~= seq!['.']);
        }
        if dots {
            assert(name@ =~= seq!['.', '.']);
        }
        if n == 1 && !dot {
            assert(name@[0] != '.');
        }
        if n == 2 && !dots {
            assert(name@[0] != '.' || name@[1] != '.');
        }
    }
    if n == 0 || dot || dots || bad {
        return Err(String::from_str("Enter one valid file name without path separators"));
    }
    Ok(())
}

/// The folder reached after walking a list of components, where a
/// current-folder mark leaves the folder unchanged.
pub open spec fn crumb_path(comps: Seq<Comp>) -> Seq<char>
    decreases comps.len(),
{
    if comps.len() == 0 {
        Seq::empty()
    } else {
        match comps.last() {
            Comp::Root => seq!['/'],
            Comp::Cur => crumb_path(comps.drop_last()),
            c => push_path(crumb_path(comps.drop_last()), comp_text(c)),
        }
    }
}

/// The breadcrumb of each component but current-folder marks: its label and
/// the folder it leads to.
pub open spec fn crumbs(comps: Seq<Comp>) -> Seq<(Seq<char>, Seq<char>)>
    decreases comps.len(),
{
    if comps.len() == 0 {
        Seq::empty()
    } else {
        let prev = crumbs(comps.drop_last());
        match comps.last() {
            Comp::Cur => prev,
            c => prev.push((comp_text(c), crumb_path(comps))),
        }
    }
}

pub open spec fn crumbs_view(segments: Seq<(String, String)>) -> Seq<(Seq<char>, Seq<char>)> {
    segments.map_values(|seg: (String, String)| (seg.0@, seg.1@))
}

/// The breadcrumbs of a path: each ancestor in order, from the root, with the
/// folder it leads to.
pub fn breadcrumb_segments(path: &str) -> (segments: Vec<(String, String)>)
    ensures
        crumbs_view(segments@) == crumbs(components(path@)),
{
    let comps = path_components(path);
    let ghost cv = comps_view(comps@);
    let mut current = String::new();
    let mut segments: Vec<(String, String)> = Vec::new();
    let mut i: usize = 0;
    while i < comps.len()
        invariant
            i <= comps@.len(),
            cv == comps_view(comps@),
            current@ == crumb_path(cv.take(i as int)),
            crumbs_view(segments@) == crumbs(cv.take(i as int)),
        decreases comps@.len() - i,
    {
        assert(cv.take(i as int + 1).drop_last() =~= cv.take(i as int));
        assert(cv.take(i as int + 1).last() == comp_view(comps@[i as int]));
        match &comps[i] {
            PathComponent::CurDir => {},
            c => {
                let label = component_text(c);
                match c {
                    PathComponent::RootDir => {
                        current = component_text(c);
                    },
                    _ => {
                        push_path_text(&mut current, label.as_str());
                    },
                }
                let target = current.clone();
                segments.push((label, target));
            },
        }
        i += 1;
        assert(crumbs_view(segments@) =~= crumbs(cv.take(i as int)));
    }
    assert(cv.take(i as int) =~= cv);
    segments
}

/// The breadcrumbs shown for a path: all of them when there are at most four,
/// else the root, an ellipsis that leads nowhere, and the two innermost
/// folders, each with its place among all breadcrumbs.
pub open spec fn spec_visible_crumbs(all: Seq<(Seq<char>, Seq<char>)>) -> Seq<(int, Seq<char>, Option<Seq<char>>)> {
    if all.len() <= 4 {
        Seq::new(all.len(), |i: int| (i, all[i].0, Some(all[i].1)))
    } else {
        let n = all.len() as int;
        seq![
            (0int, all[0].0, Some(all[0].1)),
            (usize::MAX as int, "…"@, None),
            (n - 2, all[n - 2].0, Some(all[n - 2].1)),
            (n - 1, all[n - 1].0, Some(all[n - 1].1)),
        ]
    }
}

pub open spec fn visible_view(segments: Seq<(usize, String, Option<String>)>) -> Seq<(int, Seq<char>, Option<Seq<char>>)> {
    segments.map_values(|seg: (usize, String, Option<String>)| (seg.0 as int, seg.1@, match seg.2 {
        Some(t) => Some(t@),
        None => None,
    }))
}

fn copy_segment(segment: &(String, String)) -> (copy: (String, String))
    ensures
        copy == *segment,
{
    (segment.0.clone(), segment.1.clone())
}

pub fn visible_breadcrumb_segments(path: &str) -> (visible: Vec<(usize, String, Option<String>)>)
    ensures
        visible_view(visible@) == spec_visible_crumbs(crumbs(components(path@))),
{
    let segments = breadcrumb_segments(path);
    let ghost all = crumbs(components(path@));
    let n = segments.len();
    let mut visible: Vec<(usize, String, Option<String>)> = Vec::new();
    if n <= 4 {
        let mut i: usize = 0;
        while i < n
            invariant
                n == segments@.len(),
                crumbs_view(segments@) == all,
                i <= n,
                visible@.len() == i,
                forall|k: int| 0 <= k < i ==> #[trigger] visible_view(visible@)[k] == (k, all[k].0, Some(all[k].1)),
            decreases n - i,
        {
            let (label, target) = copy_segment(&segments[i]);
            assert(all[i as int] == (segments@[i as int].0@, segments@[i as int].1@));
            let ghost before = visible@;
            visible.push((i, label, Some(target)));
            assert(visible@ == before.push(visible@[i as int]));
            assert(visible_view(visible@)[i as int] == (i as int, all[i as int].0, Some(all[i as int].1)));
            assert forall|k: int| 0 <= k < i + 1 implies #[trigger] visible_view(visible@)[k] == (k, all[k].0, Some(all[k].1)) by {
                if k < i {
                    assert(visible@[k] == before[k]);
                    assert(visible_view(before)[k] == (k, all[k].0, Some(all[k].1)));
                }
            }
            i += 1;
        }
        assert(visible_view(visible@) =~= spec_visible_crumbs(all));
        return visible;
    }
    assert(all[0] == (segments@[0].0@, segments@[0].1@));
    assert(all[n - 2] == (segments@[n - 2].0@, segments@[n - 2].1@));
    assert(all[n - 1] == (segments@[n - 1].0@, segments@[n - 1].1@));
    proof {
        reveal_strlit("…");
    }
    let (label, target) = copy_segment(&segments[0]);
    visible.push((0, label, Some(target)));
    visible.push((usize::MAX, String::from_str("…"), None));
    let (label, target) = copy_segment(&segments[n - 2]);
    visible.push((n - 2, label, Some(target)));
    let (label, target) = copy_segment(&segments[n - 1]);
    visible.push((n - 1, label, Some(target)));
    assert(visible_view(visible@) =~= spec_visible_crumbs(all));
    visible
}

/// The number of leading components two paths share.
pub open spec fn common_prefix_len(a: Seq<Comp>, b: Seq<Comp>) -> nat
    decreases a.len(),
{
    if a.len() == 0 || b.len() == 0 || a[0] != b[0] {
        0
    } else {
        1 + common_prefix_len(a.drop_first(), b.drop_first())
    }
}

/// One ".." for each folder name of the base below the shared part.
pub open spec fn climb(rest: Seq<Comp>) -> Seq<Comp>
    decreases rest.len(),
{
    if rest.len() == 0 {
        Seq::empty()
    } else {
        climb(rest.drop_last()) + (if rest.last() is Normal { seq![Comp::Parent] } else { Seq::empty() })
    }
}

pub open spec fn relative_comps(target: Seq<Comp>, base: Seq<Comp>) -> Seq<Comp> {
    let common = common_prefix_len(target, base) as int;
    climb(base.subrange(common, base.len() as int)) + target.subrange(common, target.len() as int)
}

pub open spec fn no_shared_root_message() -> Seq<char> {
    "Target and link directory do not share a filesystem root"@
}

pub open spec fn empty_path_message() -> Seq<char> {
    "cannot make an empty path absolute"@
}

/// The relative path that the components `base` climb and descend to reach
/// `target`: "." when there is nothing to climb or descend.
pub open spec fn relative_text(target: Seq<Comp>, base: Seq<Comp>) -> Seq<char> {
    let r = render(relative_comps(target, base));
    if r.len() == 0 { seq!['.'] } else { r }
}

/// The path from folder `base` to `target` that a symlink stored in `base`
/// needs, worked out lexically once both are made absolute as
/// `std::path::absolute` makes them (relative paths taken from `current_dir`,
/// whose lookup may have failed): climb out of the base below the part both
/// share, then descend to the target; "." when they are equal.
pub open spec fn spec_lexical_relative_path(target: Seq<char>, base: Seq<char>, current_dir: Result<Seq<char>, Seq<char>>) -> Result<Seq<char>, Seq<char>> {
    match spec_absolute(target, current_dir) {
        Err(e) => Err(e),
        Ok(t) => match spec_absolute(base, current_dir) {
            Err(e) => Err(e),
            Ok(b) => if common_prefix_len(components(t), components(b)) == 0 {
                Err(no_shared_root_message())
            } else {
                Ok(relative_text(components(t), components(b)))
            },
        },
    }
}

proof fn lemma_common_prefix(a: Seq<Comp>, b: Seq<Comp>, k: int)
    requires
        0 <= k <= a.len(),
        k <= b.len(),
        forall|j: int| 0 <= j < k ==> a[j] == b[j],
        k == a.len() || k == b.len() || a[k] != b[k],
    ensures
        common_prefix_len(a, b) == k,
    decreases k,
{
    if k > 0 {
        lemma_common_prefix(a.drop_first(), b.drop_first(), k - 1);
    }
}

/// One step of lexical normalization: a root starts over, "." is dropped, a
/// ".." takes away the name before it (and stays put right after the root),
/// a name is appended.
pub open spec fn normalize_step(acc: Seq<Comp>, c: Comp) -> Seq<Comp> {
    match c {
        Comp::Root => seq![Comp::Root],
        Comp::Cur => acc,
        Comp::Parent => if acc.len() > 0 && acc.last() is Normal {
            acc.drop_last()
        } else if acc.len() > 0 && acc.last() is Root {
            acc
        } else {
            acc.push(Comp::Parent)
        },
        Comp::Normal(n) => acc.push(Comp::Normal(n)),
    }
}

/// The components of a path with its "." and ".." parts folded away lexically,
/// without looking at the filesystem.
pub open spec fn lexical_normalize(cs: Seq<Comp>) -> Seq<Comp>
    decreases cs.len(),
{
    if cs.len() == 0 {
        Seq::empty()
    } else {
        normalize_step(lexical_normalize(cs.drop_last()), cs.last())
    }
}

/// The components of an absolute path that names only folders and files: a
/// root, then names, no "." or "..".
pub open spec fn plain_absolute(cs: Seq<Comp>) -> bool {
    cs.len() >= 1 && cs[0] == Comp::Root && forall|i: int| 1 <= i < cs.len() ==> (#[trigger] cs[i]) is Normal
}

proof fn lemma_plain_is_normal(cs: Seq<Comp>)
    requires
        plain_absolute(cs),
    ensures
        lexical_normalize(cs) == cs,
    decreases cs.len(),
{
    if cs.len() == 1 {
        assert(lexical_normalize(cs.drop_last()) =~= Seq::<Comp>::empty());
        assert(seq![Comp::Root] =~= cs);
    } else {
        let prev = cs.drop_last();
        assert(plain_absolute(prev)) by {
            assert forall|i: int| 1 <= i < prev.len() implies (#[trigger] prev[i]) is Normal by {
                assert(prev[i] == cs[i]);
            }
        }
        lemma_plain_is_normal(prev);
        assert(cs.last() is Normal) by {
            assert(cs[cs.len() - 1] is Normal);
        }
        assert(prev.push(cs.last()) =~= cs);
    }
}

proof fn lemma_climb_names(rest: Seq<Comp>)
    requires
        forall|i: int| 0 <= i < rest.len() ==> (#[trigger] rest[i]) is Normal,
    ensures
        climb(rest) =~= Seq::new(rest.len(), |i: int| Comp::Parent),
    decreases rest.len(),
{
    if rest.len() > 0 {
        let prev = rest.drop_last();
        assert forall|i: int| 0 <= i < prev.len() implies (#[trigger] prev[i]) is Normal by {
            assert(prev[i] == rest[i]);
        }
        lemma_climb_names(prev);
        assert(rest.last() is Normal) by {
            assert(rest[rest.len() - 1] is Normal);
        }
    }
}

proof fn lemma_climb_back(b: Seq<Comp>, k: int, j: int)
    requires
        plain_absolute(b),
        1 <= k <= b.len(),
        0 <= j <= b.len() - k,
    ensures
        lexical_normalize(b + Seq::new(j as nat, |i: int| Comp::Parent)) == b.take(b.len() - j),
    decreases j,
{
    let ups = Seq::new(j as nat, |i: int| Comp::Parent);
    if j == 0 {
        assert(b + ups =~= b);
        assert(b.take(b.len() as int) =~= b);
        lemma_plain_is_normal(b);
    } else {
        let fewer = Seq::new((j - 1) as nat, |i: int| Comp::Parent);
        lemma_climb_back(b, k, j - 1);
        assert((b + ups).drop_last() =~= b + fewer);
        assert((b + ups).last() == Comp::Parent);
        let acc = b.take(b.len() - (j - 1));
        assert(acc.last() == b[b.len() - j]);
        assert(b[b.len() - j] is Normal);
        assert(acc.drop_last() =~= b.take(b.len() - j));
    }
}

proof fn lemma_descend(x: Seq<Comp>, y: Seq<Comp>, names: Seq<Comp>, j: int)
    requires
        lexical_normalize(x) == y,
        0 <= j <= names.len(),
        forall|i: int| 0 <= i < names.len() ==> (#[trigger] names[i]) is Normal,
    ensures
        lexical_normalize(x + names.take(j)) == y + names.take(j),
    decreases j,
{
    if j == 0 {
        assert(x + names.take(0) =~= x);
        assert(y + names.take(0) =~= y);
    } else {
        lemma_descend(x, y, names, j - 1);
        assert((x + names.take(j)).drop_last() =~= x + names.take(j - 1));
        assert((x + names.take(j)).last() == names[j - 1]);
        assert(names[j - 1] is Normal);
        assert((y + names.take(j - 1)).push(names[j - 1]) =~= y + names.take(j));
    }
}

proof fn lemma_common_prefix_shared(a: Seq<Comp>, b: Seq<Comp>)
    ensures
        common_prefix_len(a, b) <= a.len(),
        common_prefix_len(a, b) <= b.len(),
        forall|j: int| 0 <= j < common_prefix_len(a, b) ==> a[j] == b[j],
    decreases a.len(),
{
    if !(a.len() == 0 || b.len() == 0 || a[0] != b[0]) {
        lemma_common_prefix_shared(a.drop_first(), b.drop_first());
        assert forall|j: int| 0 <= j < common_prefix_len(a, b) implies a[j] == b[j] by {
            if j > 0 {
                assert(a.drop_first()[j - 1] == b.drop_first()[j - 1]);
            }
        }
    }
}

/// Between the components of two absolute paths without "." or ".." parts,
/// the relative components always exist (the two share the root) and lead
/// back: the base's components followed by the relative ones normalize
/// lexically to the target's. They are empty exactly when the two are equal.
pub proof fn lemma_relative_components_join_back(t: Seq<Comp>, b: Seq<Comp>)
    requires
        plain_absolute(t),
        plain_absolute(b),
    ensures
        common_prefix_len(t, b) >= 1,
        lexical_normalize(b + relative_comps(t, b)) == t,
        relative_comps(t, b).len() == 0 <==> t == b,
{
    lemma_common_prefix_shared(t, b);
    let k = common_prefix_len(t, b) as int;
    assert(k >= 1) by {
        assert(t[0] == b[0]);
    }
    let tail_b = b.subrange(k, b.len() as int);
    let tail_t = t.subrange(k, t.len() as int);
    assert forall|i: int| 0 <= i < tail_b.len() implies (#[trigger] tail_b[i]) is Normal by {
        assert(tail_b[i] == b[k + i]);
    }
    assert forall|i: int| 0 <= i < tail_t.len() implies (#[trigger] tail_t[i]) is Normal by {
        assert(tail_t[i] == t[k + i]);
    }
    lemma_climb_names(tail_b);
    let m = b.len() - k;
    let ups = Seq::new(m as nat, |i: int| Comp::Parent);
    assert(climb(tail_b) == ups);
    let rel = relative_comps(t, b);
    assert(rel == ups + tail_t);
    lemma_climb_back(b, k, m);
    assert(b.take(b.len() - m) =~= t.take(k));
    lemma_descend(b + ups, t.take(k), tail_t, tail_t.len() as int);
    assert(tail_t.take(tail_t.len() as int) =~= tail_t);
    assert(b + rel =~= (b + ups) + tail_t);
    assert(t.take(k) + tail_t =~= t);
    if rel.len() == 0 {
        assert(m == 0 && tail_t.len() == 0);
        assert(t =~= b) by {
            assert forall|j: int| 0 <= j < t.len() implies t[j] == b[j] by {}
        }
    }
    if t == b {
        if k < t.len() {
            assert(t[k] == b[k]);
            lemma_common_prefix_full(t, k);
        }
    }
}

/// The relative path of a symlink leads back to its target: for an absolute
/// target and base that `std::path::absolute` accepts, and whose absolute
/// forms have no "." or ".." parts, the relative path is the one the
/// components give (never an error), and the base's components followed by
/// it normalize lexically to the target's; it is "." exactly when both name
/// the same location.
pub proof fn lemma_relative_path_joins_back(
    target: Seq<char>,
    base: Seq<char>,
    current_dir: Result<Seq<char>, Seq<char>>,
)
    requires
        is_absolute(target),
        is_absolute(base),
    ensures
        ({
            let nt = normalized_absolute(target);
            let nb = normalized_absolute(base);
            nt is Ok && nb is Ok && plain_absolute(components(nt->Ok_0)) && plain_absolute(components(nb->Ok_0)) ==> {
                let t = components(nt->Ok_0);
                let b = components(nb->Ok_0);
                &&& spec_lexical_relative_path(target, base, current_dir) == Ok::<Seq<char>, Seq<char>>(
                    relative_text(t, b),
                )
                &&& lexical_normalize(b + relative_comps(t, b)) == t
                &&& (relative_comps(t, b).len() == 0 <==> t == b)
                &&& (t == b ==> relative_text(t, b) == seq!['.'])
            }
        }),
{
    let nt = normalized_absolute(target);
    let nb = normalized_absolute(base);
    if nt is Ok && nb is Ok && plain_absolute(components(nt->Ok_0)) && plain_absolute(components(nb->Ok_0)) {
        let t = components(nt->Ok_0);
        let b = components(nb->Ok_0);
        lemma_relative_components_join_back(t, b);
        if t == b {
            assert(relative_comps(t, b).len() == 0);
            assert(render(relative_comps(t, b)) =~= Seq::<char>::empty());
        }
    }
}

proof fn lemma_common_prefix_full(a: Seq<Comp>, k: int)
    requires
        0 <= k <= a.len(),
        common_prefix_len(a, a) == k,
    ensures
        k == a.len(),
    decreases a.len(),
{
    if a.len() > 0 {
        lemma_common_prefix_full(a.drop_first(), k - 1);
    }
}

/// The path from folder `base` to `target` for a relative symlink.
pub fn lexical_relative_path(target: &str, base: &str, current_dir: &Result<String, String>) -> (result: Result<String, String>)
    ensures
        result_text(result) == spec_lexical_relative_path(target@, base@, result_text(*current_dir)),
{
    let target_abs = match make_absolute(target, current_dir) {
        Ok(t) => t,
        Err(e) => return Err(e),
    };
    let base_abs = match make_absolute(base, current_dir) {
        Ok(b) => b,
        Err(e) => return Err(e),
    };
    let t = path_components(target_abs.as_str());
    let b = path_components(base_abs.as_str());
    let ghost tv = comps_view(t@);
    let ghost bv = comps_view(b@);
    let mut common: usize = 0;
    while common < t.len() && common < b.len() && same_component(&t[common], &b[common])
        invariant
            common <= t@.len(),
            common <= b@.len(),
            tv == comps_view(t@),
            bv == comps_view(b@),
            forall|j: int| 0 <= j < common ==> tv[j] == bv[j],
        decreases t@.len() - common,
    {
        common += 1;
    }
    proof {
        lemma_common_prefix(tv, bv, common as int);
    }
    if common == 0 {
        return Err(String::from_str("Target and link directory do not share a filesystem root"));
    }
    let mut pieces: Vec<PathComponent> = Vec::new();
    let mut j: usize = common;
    while j < b.len()
        invariant
            common <= j <= b@.len(),
            bv == comps_view(b@),
            comps_view(pieces@) == climb(bv.subrange(common as int, j as int)),
        decreases b@.len() - j,
    {
        assert(bv.subrange(common as int, j as int + 1).drop_last() =~= bv.subrange(common as int, j as int));
        assert(bv.subrange(common as int, j as int + 1).last() == comp_view(b@[j as int]));
        match &b[j] {
            PathComponent::Normal(_) => {
                pieces.push(PathComponent::ParentDir);
            },
            _ => {},
        }
        j += 1;
        assert(comps_view(pieces@) =~= climb(bv.subrange(common as int, j as int)));
    }
    let ghost climbed = comps_view(pieces@);
    let mut k: usize = common;
    while k < t.len()
        invariant
            common <= k <= t@.len(),
            tv == comps_view(t@),
            comps_view(pieces@) == climbed + tv.subrange(common as int, k as int),
        decreases t@.len() - k,
    {
        let ghost before = pieces@;
        pieces.push(copy_component(&t[k]));
        assert(comps_view(pieces@) =~= comps_view(before).push(comp_view(t@[k as int])));
        assert(tv.subrange(common as int, k as int + 1) =~= tv.subrange(common as int, k as int).push(comp_view(t@[k as int])));
        k += 1;
        assert(comps_view(pieces@) =~= climbed + tv.subrange(common as int, k as int));
    }
    assert(comps_view(pieces@) =~= relative_comps(tv, bv));
    let mut relative = render_components(&pieces);
    if relative.as_str().unicode_len() == 0 {
        relative = String::from_str(".");
        proof {
            reveal_strlit(".");
        }
    }
    assert(relative@ == relative_text(tv, bv));
    Ok(relative)
}

/// A short description of a selection: the quoted name of a single path, or
/// the number of paths.
pub open spec fn spec_selection_subject(paths: Seq<Seq<char>>) -> Seq<char> {
    if paths.len() == 1 {
        "“"@ + (match spec_file_name(paths[0]) { Some(n) => n, None => Seq::empty() }) + "”"@
    } else {
        crate::labels::decimal(paths.len()) + " items"@
    }
}

pub fn selection_subject(paths: &[String]) -> (subject: String)
    ensures
        subject@ == spec_selection_subject(paths@.map_values(|p: String| p@)),
{
    if paths.len() == 1 {
        let mut subject = String::from_str("“");
        match file_name(paths[0].as_str()) {
            Some(name) => subject.append(name.as_str()),
            None => {},
        }
        subject.append("”");
        assert(paths@.map_values(|p: String| p@)[0] == paths@[0]@);
        return subject;
    }
    let mut subject = crate::labels::decimal_string(paths.len() as u64);
    subject.append(" items");
    subject
}

} // verus!

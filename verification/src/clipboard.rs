use vstd::prelude::*;

use crate::text::{spec_trim, starts_with, trim};

verus! {

/// Whether pasting copies or moves the files.
#[derive(Clone, Copy, Debug, PartialEq, Eq, Structural)]
pub enum FileClipboardMode {
    Copy,
    Cut,
}

/// Files on the clipboard.
pub struct FileClipboard {
    pub mode: FileClipboardMode,
    pub paths: Vec<String>,
}

/// What pasted text holds.
pub enum ClipboardText {
    /// Nothing that names files.
    NoFiles,
    /// Text in the GNOME Files format ("copy" or "cut", then one URI a line),
    /// trimmed, to be decoded as that format.
    GnomeFiles(String),
    /// A list of file URIs, trimmed, to be decoded as a URI list.
    UriList(String),
    /// Absolute paths, one a line, to be copied.
    Paths(FileClipboard),
}

/// The place of the first `c` in `s`, or -1 when there is none.
pub open spec fn first_index_of(s: Seq<char>, c: char) -> int
    decreases s.len(),
{
    if s.len() == 0 {
        -1
    } else if s[0] == c {
        0
    } else {
        let rest = first_index_of(s.drop_first(), c);
        if rest < 0 {
            -1
        } else {
            rest + 1
        }
    }
}

proof fn lemma_first_index(s: Seq<char>, c: char, k: int)
    requires
        0 <= k <= s.len(),
        forall|j: int| 0 <= j < k ==> s[j] != c,
        k == s.len() || s[k] == c,
    ensures
        first_index_of(s, c) == (if k == s.len() { -1 } else { k }),
    decreases k,
{
    if k > 0 {
        lemma_first_index(s.drop_first(), c, k - 1);
    }
}

/// The text cut at every line feed.
pub open spec fn pieces(s: Seq<char>) -> Seq<Seq<char>>
    decreases s.len(),
{
    let k = first_index_of(s, '\n');
    if k < 0 || k >= s.len() {
        seq![s]
    } else {
        seq![s.take(k)] + pieces(s.skip(k + 1))
    }
}

/// The lines that are not blank, trimmed.
pub open spec fn clean(ps: Seq<Seq<char>>) -> Seq<Seq<char>>
    decreases ps.len(),
{
    if ps.len() == 0 {
        Seq::empty()
    } else {
        (if spec_trim(ps[0]).len() == 0 { Seq::empty() } else { seq![spec_trim(ps[0])] }) + clean(ps.drop_first())
    }
}

proof fn lemma_clean_nonempty(ps: Seq<Seq<char>>)
    ensures
        forall|i: int| 0 <= i < clean(ps).len() ==> (#[trigger] clean(ps)[i]).len() > 0,
    decreases ps.len(),
{
    if ps.len() > 0 {
        lemma_clean_nonempty(ps.drop_first());
        let head: Seq<Seq<char>> = if spec_trim(ps[0]).len() == 0 { Seq::empty() } else { seq![spec_trim(ps[0])] };
        assert forall|i: int| 0 <= i < clean(ps).len() implies (#[trigger] clean(ps)[i]).len() > 0 by {
            if i < head.len() {
                assert(clean(ps)[i] == head[i]);
            } else {
                assert(clean(ps)[i] == clean(ps.drop_first())[i - head.len()]);
            }
        }
    }
}

/// The non-blank lines of a text, trimmed.
pub open spec fn clean_lines(s: Seq<char>) -> Seq<Seq<char>> {
    clean(pieces(s))
}

/// The prefix of a file URI.
pub open spec fn file_uri_prefix() -> Seq<char> {
    "file://"@
}

/// What pasted text holds: after trimming, nothing; the GNOME Files format
/// when it starts with a "copy" or "cut" line; a URI list when every
/// non-blank line is a file URI; absolute paths when every non-blank line is
/// one; otherwise no files.
pub open spec fn clipboard_kind(text: Seq<char>) -> int {
    let t = spec_trim(text);
    let lines = clean_lines(t);
    if t.len() == 0 {
        0
    } else if starts_with(t, "copy\n"@) || starts_with(t, "cut\n"@) {
        1
    } else if forall|i: int| 0 <= i < lines.len() ==> starts_with(#[trigger] lines[i], file_uri_prefix()) {
        2
    } else if lines.len() > 0 && forall|i: int| 0 <= i < lines.len() ==> (#[trigger] lines[i])[0] == '/' {
        3
    } else {
        0
    }
}

pub fn starts_with_text(s: &str, prefix: &str) -> (starts: bool)
    ensures
        starts == starts_with(s@, prefix@),
{
    let n = prefix.unicode_len();
    if n > s.unicode_len() {
        return false;
    }
    let mut i: usize = 0;
    while i < n
        invariant
            n == prefix@.len(),
            n <= s@.len(),
            i <= n,
            forall|j: int| 0 <= j < i ==> s@[j] == prefix@[j],
        decreases n - i,
    {
        if s.get_char(i) != prefix.get_char(i) {
            assert(s@.subrange(0, n as int)[i as int] != prefix@[i as int]);
            return false;
        }
        i += 1;
    }
    assert(s@.subrange(0, n as int) =~= prefix@);
    true
}

/// The non-blank lines of a text, trimmed.
pub fn text_lines(s: &str) -> (lines: Vec<String>)
    ensures
        lines@.map_values(|l: String| l@) == clean_lines(s@),
{
    let n = s.unicode_len();
    let mut lines: Vec<String> = Vec::new();
    let mut p: usize = 0;
    assert(s@.skip(0) =~= s@);
    assert(lines@.map_values(|l: String| l@) + clean(pieces(s@)) =~= clean(pieces(s@)));
    loop
        invariant
            n == s@.len(),
            p <= n,
            lines@.map_values(|l: String| l@) + clean(pieces(s@.skip(p as int))) == clean_lines(s@),
        decreases n - p,
    {
        let mut k: usize = p;
        while k < n && s.get_char(k) != '\n'
            invariant
                n == s@.len(),
                p <= k <= n,
                forall|j: int| p <= j < k ==> s@[j] != '\n',
            decreases n - k,
        {
            k += 1;
        }
        let ghost rest = s@.skip(p as int);
        proof {
            assert forall|j: int| 0 <= j < k - p implies rest[j] != '\n' by {
                assert(rest[j] == s@[p + j]);
            }
            if k < n {
                assert(rest[k - p] == s@[k as int]);
            }
            lemma_first_index(rest, '\n', k - p);
        }
        let line = trim(s.substring_char(p, k));
        let ghost before = lines@.map_values(|l: String| l@);
        assert(s@.subrange(p as int, k as int) =~= rest.take(k - p));
        if line.unicode_len() > 0 {
            lines.push(line);
            assert(lines@.map_values(|l: String| l@) =~= before.push(spec_trim(rest.take(k - p))));
        }
        if k >= n {
            assert(pieces(rest) == seq![rest]);
            assert(seq![rest].drop_first() =~= Seq::<Seq<char>>::empty());
            assert(seq![rest][0] == rest);
            assert(clean(seq![rest].drop_first()) =~= Seq::<Seq<char>>::empty());
            assert(clean(pieces(rest)) =~= (if spec_trim(rest).len() == 0 {
                Seq::<Seq<char>>::empty()
            } else {
                seq![spec_trim(rest)]
            }));
            assert(rest.take(k - p) =~= rest);
            assert(lines@.map_values(|l: String| l@) =~= clean_lines(s@));
            return lines;
        }
        assert(rest.skip(k - p + 1) =~= s@.skip(k as int + 1));
        assert(pieces(rest) == seq![rest.take(k - p)] + pieces(rest.skip(k - p + 1)));
        assert((seq![rest.take(k - p)] + pieces(rest.skip(k - p + 1))).drop_first() =~= pieces(
            rest.skip(k - p + 1),
        ));
        assert((seq![rest.take(k - p)] + pieces(rest.skip(k - p + 1)))[0] == rest.take(k - p));
        assert(lines@.map_values(|l: String| l@) + clean(pieces(s@.skip(k as int + 1))) =~= clean_lines(s@));
        p = k + 1;
    }
}

fn all_start_with(lines: &Vec<String>, prefix: &str) -> (all: bool)
    ensures
        all == forall|i: int| 0 <= i < lines@.len() ==> starts_with(#[trigger] lines@[i]@, prefix@),
{
    let mut i: usize = 0;
    while i < lines.len()
        invariant
            i <= lines@.len(),
            forall|j: int| 0 <= j < i ==> starts_with(#[trigger] lines@[j]@, prefix@),
        decreases lines@.len() - i,
    {
        if !starts_with_text(lines[i].as_str(), prefix) {
            return false;
        }
        i += 1;
    }
    true
}

/// Reads files out of pasted text, by the rules of `clipboard_kind`.
pub fn clipboard_from_text(text: &str) -> (pasted: ClipboardText)
    ensures
        ({
            let t = spec_trim(text@);
            match pasted {
                ClipboardText::NoFiles => clipboard_kind(text@) == 0,
                ClipboardText::GnomeFiles(g) => clipboard_kind(text@) == 1 && g@ == t,
                ClipboardText::UriList(u) => clipboard_kind(text@) == 2 && u@ == t,
                ClipboardText::Paths(c) => clipboard_kind(text@) == 3 && c.mode == FileClipboardMode::Copy
                    && c.paths@.map_values(|l: String| l@) == clean_lines(t),
            }
        }),
{
    let trimmed = trim(text);
    if trimmed.unicode_len() == 0 {
        return ClipboardText::NoFiles;
    }
    if starts_with_text(trimmed.as_str(), "copy\n") || starts_with_text(trimmed.as_str(), "cut\n") {
        return ClipboardText::GnomeFiles(trimmed);
    }
    let lines = text_lines(trimmed.as_str());
    let ghost cl = clean_lines(trimmed@);
    assert(lines@.len() == cl.len()) by {
        assert(lines@.map_values(|l: String| l@).len() == lines@.len());
    }
    assert forall|i: int| 0 <= i < lines@.len() implies lines@[i]@ == cl[i] by {
        assert(lines@.map_values(|l: String| l@)[i] == lines@[i]@);
    }
    proof {
        lemma_clean_nonempty(pieces(trimmed@));
    }
    if all_start_with(&lines, "file://") {
        return ClipboardText::UriList(trimmed);
    }
    proof {
        if forall|i: int| 0 <= i < cl.len() ==> starts_with(#[trigger] cl[i], file_uri_prefix()) {
            assert forall|i: int| 0 <= i < lines@.len() implies starts_with(#[trigger] lines@[i]@, "file://"@) by {
                assert(lines@[i]@ == cl[i]);
            }
        }
    }
    if lines.len() > 0 && all_start_with(&lines, "/") {
        proof {
            reveal_strlit("/");
            assert forall|i: int| 0 <= i < cl.len() implies (#[trigger] cl[i])[0] == '/' by {
                assert(starts_with(lines@[i]@, "/"@));
                assert(lines@[i]@.subrange(0, 1)[0] == '/');
            }
        }
        return ClipboardText::Paths(FileClipboard { mode: FileClipboardMode::Copy, paths: lines });
    }
    proof {
        if cl.len() > 0 && forall|i: int| 0 <= i < cl.len() ==> (#[trigger] cl[i])[0] == '/' {
            reveal_strlit("/");
            assert forall|i: int| 0 <= i < lines@.len() implies starts_with(#[trigger] lines@[i]@, "/"@) by {
                assert(cl[i][0] == '/');
                assert(lines@[i]@.subrange(0, 1) =~= "/"@);
            }
        }
    }
    ClipboardText::NoFiles
}

} // verus!

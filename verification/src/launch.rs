use vstd::prelude::*;

use crate::text::{is_white_space, starts_with, white_space};

verus! {

/// The path that a `file://` URL names, as `url::Url::parse` and
/// `Url::to_file_path` of the url crate read it, or none.
pub uninterp spec fn file_url_path(url: Seq<char>) -> Option<Seq<char>>;

/// `url::Url::parse` then `Url::to_file_path` of the url crate, as text (none
/// when either fails or the path is not UTF-8).
/// Claimed: the result is `file_url_path` of the text.
#[verifier::external_body]
fn url_to_file_path(text: &str) -> (path: Option<String>)
    ensures
        match path {
            Some(p) => file_url_path(text@) == Some(p@),
            None => file_url_path(text@) is None,
        },
{
    url::Url::parse(text).ok().and_then(|url| url.to_file_path().ok()).and_then(|path| path.into_os_string().into_string().ok())
}

/// The first argument that is not an option, if any.
pub open spec fn first_operand(args: Seq<Seq<char>>) -> Option<int> {
    if exists|i: int| 0 <= i < args.len() && !starts_with(#[trigger] args[i], seq!['-']) {
        Some(choose|i: int| 0 <= i < args.len() && !starts_with(#[trigger] args[i], seq!['-']) && forall|j: int| 0 <= j < i ==> starts_with(#[trigger] args[j], seq!['-']))
    } else {
        None
    }
}

/// The folder asked for on the command line: the first argument that is not
/// an option, read as a path, or as a `file://` URL when it is one.
pub open spec fn spec_launch_argument(args: Seq<Seq<char>>) -> Option<Seq<char>> {
    match first_operand(args) {
        None => None,
        Some(i) => if starts_with(args[i], "file://"@) {
            file_url_path(args[i])
        } else {
            Some(args[i])
        },
    }
}

fn starts_with_dash(s: &str) -> (dash: bool)
    ensures
        dash == starts_with(s@, seq!['-']),
{
    let dash = s.unicode_len() > 0 && s.get_char(0) == '-';
    proof {
        if dash {
            assert(s@.subrange(0, 1) =~= seq!['-']);
        } else if s@.len() > 0 {
            assert(s@.subrange(0, 1)[0] != '-');
        }
    }
    dash
}

/// The folder asked for on the command line, before it is checked to exist.
pub fn launch_argument(args: &Vec<String>) -> (path: Option<String>)
    ensures
        match path {
            Some(p) => spec_launch_argument(args@.map_values(|a: String| a@)) == Some(p@),
            None => spec_launch_argument(args@.map_values(|a: String| a@)) is None,
        },
{
    let ghost views = args@.map_values(|a: String| a@);
    let mut i: usize = 0;
    while i < args.len()
        invariant
            views == args@.map_values(|a: String| a@),
            i <= args@.len(),
            forall|j: int| 0 <= j < i ==> starts_with(#[trigger] views[j], seq!['-']),
        decreases args@.len() - i,
    {
        assert(views[i as int] == args@[i as int]@);
        if !starts_with_dash(args[i].as_str()) {
            let arg = args[i].as_str();
            proof {
                let k = choose|k: int| 0 <= k < views.len() && !starts_with(#[trigger] views[k], seq!['-']) && forall|j: int| 0 <= j < k ==> starts_with(#[trigger] views[j], seq!['-']);
                if k < i {
                    assert(starts_with(views[k], seq!['-']));
                } else if k > i {
                    assert(starts_with(views[i as int], seq!['-']));
                }
            }
            if crate::clipboard::starts_with_text(arg, "file://") {
                return url_to_file_path(arg);
            }
            return Some(String::from_str(arg));
        }
        i += 1;
    }
    None
}

/// The place of the first white space in `s`, or its length.
pub open spec fn white_space_index(s: Seq<char>) -> int
    decreases s.len(),
{
    if s.len() == 0 || is_white_space(s[0]) {
        0
    } else {
        1 + white_space_index(s.drop_first())
    }
}

/// The place of the first character that is not white space, or the length.
pub open spec fn word_start(s: Seq<char>) -> int
    decreases s.len(),
{
    if s.len() == 0 || !is_white_space(s[0]) {
        0
    } else {
        1 + word_start(s.drop_first())
    }
}

/// The words of a text, split at white space, as `str::split_whitespace` gives them.
pub open spec fn words(s: Seq<char>) -> Seq<Seq<char>>
    decreases s.len(),
{
    let start = word_start(s);
    if start < 0 || start >= s.len() {
        Seq::empty()
    } else {
        let rest = s.skip(start);
        let end = white_space_index(rest);
        if end <= 0 || end > rest.len() {
            Seq::empty()
        } else {
            seq![rest.take(end)] + words(rest.skip(end))
        }
    }
}

proof fn lemma_word_start(s: Seq<char>, k: int)
    requires
        0 <= k <= s.len(),
        forall|j: int| 0 <= j < k ==> is_white_space(#[trigger] s[j]),
        k == s.len() || !is_white_space(s[k]),
    ensures
        word_start(s) == k,
    decreases k,
{
    if k > 0 {
        lemma_word_start(s.drop_first(), k - 1);
    }
}

proof fn lemma_white_space_index(s: Seq<char>, k: int)
    requires
        0 <= k <= s.len(),
        forall|j: int| 0 <= j < k ==> !is_white_space(#[trigger] s[j]),
        k == s.len() || is_white_space(s[k]),
    ensures
        white_space_index(s) == k,
    decreases k,
{
    if k > 0 {
        lemma_white_space_index(s.drop_first(), k - 1);
    }
}

/// The words of a text.
pub fn split_words(s: &str) -> (out: Vec<String>)
    ensures
        out@.map_values(|w: String| w@) == words(s@),
{
    let n = s.unicode_len();
    let mut out: Vec<String> = Vec::new();
    let mut p: usize = 0;
    assert(s@.skip(0) =~= s@);
    assert(out@.map_values(|w: String| w@) + words(s@) =~= words(s@));
    loop
        invariant
            n == s@.len(),
            p <= n,
            out@.map_values(|w: String| w@) + words(s@.skip(p as int)) == words(s@),
        decreases n - p,
    {
        let ghost here = s@.skip(p as int);
        let mut st: usize = p;
        while st < n && white_space(s.get_char(st))
            invariant
                n == s@.len(),
                p <= st <= n,
                forall|j: int| p <= j < st ==> is_white_space(#[trigger] s@[j]),
            decreases n - st,
        {
            st += 1;
        }
        proof {
            assert forall|j: int| 0 <= j < st - p implies is_white_space(#[trigger] here[j]) by {
                assert(here[j] == s@[p + j]);
            }
            if st < n {
                assert(here[st - p] == s@[st as int]);
            }
            lemma_word_start(here, st - p);
        }
        if st == n {
            assert(words(here) =~= Seq::<Seq<char>>::empty());
            assert(out@.map_values(|w: String| w@) + Seq::<Seq<char>>::empty() =~= out@.map_values(|w: String| w@));
            return out;
        }
        let mut end: usize = st;
        while end < n && !white_space(s.get_char(end))
            invariant
                n == s@.len(),
                st <= end <= n,
                forall|j: int| st <= j < end ==> !is_white_space(#[trigger] s@[j]),
            decreases n - end,
        {
            end += 1;
        }
        let ghost rest = here.skip(st - p);
        proof {
            assert(rest =~= s@.skip(st as int));
            assert forall|j: int| 0 <= j < end - st implies !is_white_space(#[trigger] rest[j]) by {
                assert(rest[j] == s@[st + j]);
            }
            if end < n {
                assert(rest[end - st] == s@[end as int]);
            }
            lemma_white_space_index(rest, end - st);
            assert(rest.skip(end - st) =~= s@.skip(end as int));
            assert(rest.take(end - st) =~= s@.subrange(st as int, end as int));
        }
        let ghost before = out@.map_values(|w: String| w@);
        out.push(String::from_str(s.substring_char(st, end)));
        assert(out@.map_values(|w: String| w@) =~= before.push(s@.subrange(st as int, end as int)));
        assert(words(here) == seq![rest.take(end - st)] + words(rest.skip(end - st)));
        assert(out@.map_values(|w: String| w@) + words(s@.skip(end as int)) =~= words(s@));
        p = end;
    }
}

/// The terminals tried in turn when none is configured.
pub open spec fn fallback_terminals() -> Seq<Seq<char>> {
    seq![
        "xdg-terminal-exec"@,
        "foot"@,
        "kitty"@,
        "wezterm"@,
        "alacritty"@,
        "gnome-terminal"@,
        "konsole"@,
    ]
}

/// The commands tried to open a terminal: the one configured in `$TERMINAL`
/// (its first word, with the other words as arguments), then the fallbacks.
pub open spec fn spec_terminal_candidates(terminal: Option<Seq<char>>) -> Seq<(Seq<char>, Seq<Seq<char>>)> {
    let configured: Seq<(Seq<char>, Seq<Seq<char>>)> = match terminal {
        Some(t) => if words(t).len() > 0 {
            seq![(words(t)[0], words(t).drop_first())]
        } else {
            Seq::empty()
        },
        None => Seq::empty(),
    };
    configured + fallback_terminals().map_values(|p: Seq<char>| (p, Seq::<Seq<char>>::empty()))
}

/// A command and its arguments as plain values.
pub open spec fn command_view(c: (String, Vec<String>)) -> (Seq<char>, Seq<Seq<char>>) {
    (c.0@, c.1@.map_values(|a: String| a@))
}

fn push_fallback(out: &mut Vec<(String, Vec<String>)>, program: &str)
    ensures
        final(out)@.map_values(|c: (String, Vec<String>)| command_view(c)) == old(out)@.map_values(
            |c: (String, Vec<String>)| command_view(c),
        ).push((program@, Seq::<Seq<char>>::empty())),
{
    let ghost before = out@;
    let command = (String::from_str(program), Vec::new());
    assert(command_view(command).1 =~= Seq::<Seq<char>>::empty());
    out.push(command);
    assert(out@.map_values(|c: (String, Vec<String>)| command_view(c)) =~= before.map_values(
        |c: (String, Vec<String>)| command_view(c),
    ).push((program@, Seq::<Seq<char>>::empty())));
}

/// The commands tried to open a terminal, given the value of `$TERMINAL`.
pub fn terminal_candidates(terminal: &Option<String>) -> (candidates: Vec<(String, Vec<String>)>)
    ensures
        candidates@.map_values(|c: (String, Vec<String>)| command_view(c)) == spec_terminal_candidates(
            match terminal {
                Some(t) => Some(t@),
                None => None,
            },
        ),
{
    let mut candidates: Vec<(String, Vec<String>)> = Vec::new();
    match terminal {
        Some(t) => {
            let mut parts = split_words(t.as_str());
            if parts.len() > 0 {
                let ghost all = parts@.map_values(|w: String| w@);
                let program = parts.remove(0);
                assert(parts@.map_values(|w: String| w@) =~= all.drop_first());
                candidates.push((program, parts));
            }
        },
        None => {},
    }
    let ghost configured = candidates@.map_values(|c: (String, Vec<String>)| command_view(c));
    push_fallback(&mut candidates, "xdg-terminal-exec");
    push_fallback(&mut candidates, "foot");
    push_fallback(&mut candidates, "kitty");
    push_fallback(&mut candidates, "wezterm");
    push_fallback(&mut candidates, "alacritty");
    push_fallback(&mut candidates, "gnome-terminal");
    push_fallback(&mut candidates, "konsole");
    assert(candidates@.map_values(|c: (String, Vec<String>)| command_view(c)) =~= configured + fallback_terminals().map_values(
        |p: Seq<char>| (p, Seq::<Seq<char>>::empty()),
    ));
    candidates
}

/// What happened when one terminal command was started.
pub enum SpawnOutcome {
    Spawned,
    /// The program does not exist; the next one is tried.
    NotFound(String),
    /// Starting it failed otherwise; no other is tried.
    Failed(String),
}

/// Whether the candidates after this outcome are still tried.
pub open spec fn tries_next(o: SpawnOutcome) -> bool {
    o is NotFound
}

/// What the status bar says once the terminal commands were tried with these
/// outcomes, in order: the first start or failure other than a missing
/// program decides; when every program is missing, the last error is given.
pub open spec fn spec_terminal_report(outcomes: Seq<SpawnOutcome>) -> Result<Seq<char>, Seq<char>>
    decreases outcomes.len(),
{
    if outcomes.len() == 0 {
        Err("No terminal command is configured"@)
    } else {
        match outcomes[0] {
            SpawnOutcome::Spawned => Ok("Opened terminal in this folder"@),
            SpawnOutcome::Failed(e) => Err("Could not open a terminal: "@ + e@),
            SpawnOutcome::NotFound(e) => if outcomes.len() == 1 {
                Err("Could not open a terminal: "@ + e@)
            } else {
                spec_terminal_report(outcomes.drop_first())
            },
        }
    }
}

/// The status of an attempt to open a terminal, from the outcomes of the
/// commands tried in order.
pub fn terminal_report(outcomes: &[SpawnOutcome]) -> (report: Result<String, String>)
    ensures
        match report {
            Ok(m) => spec_terminal_report(outcomes@) == Ok::<Seq<char>, Seq<char>>(m@),
            Err(e) => spec_terminal_report(outcomes@) == Err::<Seq<char>, Seq<char>>(e@),
        },
{
    let n = outcomes.len();
    if n == 0 {
        return Err(String::from_str("No terminal command is configured"));
    }
    let mut i: usize = 0;
    assert(outcomes@.skip(0) =~= outcomes@);
    loop
        invariant
            n == outcomes@.len(),
            i < n,
            spec_terminal_report(outcomes@) == spec_terminal_report(outcomes@.skip(i as int)),
        decreases n - i,
    {
        let ghost rest = outcomes@.skip(i as int);
        assert(rest[0] == outcomes@[i as int]);
        match &outcomes[i] {
            SpawnOutcome::Spawned => return Ok(String::from_str("Opened terminal in this folder")),
            SpawnOutcome::Failed(e) => {
                let mut m = String::from_str("Could not open a terminal: ");
                m.append(e.as_str());
                return Err(m);
            },
            SpawnOutcome::NotFound(e) => {
                if i + 1 == n {
                    let mut m = String::from_str("Could not open a terminal: ");
                    m.append(e.as_str());
                    return Err(m);
                }
                assert(rest.drop_first() =~= outcomes@.skip(i as int + 1));
            },
        }
        i += 1;
    }
}

} // verus!

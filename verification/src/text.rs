use vstd::prelude::*;

use crate::paths::chars_of;

verus! {

/// The characters that Unicode counts as white space.
pub open spec fn is_white_space(c: char) -> bool {
    let u = c as u32;
    (0x9 <= u <= 0xD) || u == 0x20 || u == 0x85 || u == 0xA0 || u == 0x1680 || (0x2000 <= u <= 0x200A)
        || u == 0x2028 || u == 0x2029 || u == 0x202F || u == 0x205F || u == 0x3000
}

pub fn white_space(c: char) -> (ws: bool)
    ensures
        ws == is_white_space(c),
{
    let u = c as u32;
    (0x9 <= u && u <= 0xD) || u == 0x20 || u == 0x85 || u == 0xA0 || u == 0x1680 || (0x2000 <= u && u <= 0x200A)
        || u == 0x2028 || u == 0x2029 || u == 0x202F || u == 0x205F || u == 0x3000
}

/// The place of the first character that is not white space (the length
/// when there is none).
pub open spec fn trim_start_index(s: Seq<char>) -> int
    decreases s.len(),
{
    if s.len() == 0 {
        0
    } else if is_white_space(s[0]) {
        1 + trim_start_index(s.drop_first())
    } else {
        0
    }
}

/// The place after the last character that is not white space (zero when
/// there is none).
pub open spec fn trim_end_index(s: Seq<char>) -> int
    decreases s.len(),
{
    if s.len() == 0 {
        0
    } else if is_white_space(s.last()) {
        trim_end_index(s.drop_last())
    } else {
        s.len() as int
    }
}

/// A text without its leading and trailing white space.
pub open spec fn spec_trim(s: Seq<char>) -> Seq<char> {
    let start = trim_start_index(s);
    let end = trim_end_index(s);
    if start >= end { Seq::empty() } else { s.subrange(start, end) }
}

proof fn lemma_trim_start(s: Seq<char>, i: int)
    requires
        0 <= i <= s.len(),
        forall|j: int| 0 <= j < i ==> is_white_space(s[j]),
        i == s.len() || !is_white_space(s[i]),
    ensures
        trim_start_index(s) == i,
    decreases i,
{
    if i > 0 {
        lemma_trim_start(s.drop_first(), i - 1);
    }
}

proof fn lemma_trim_end(s: Seq<char>, e: int)
    requires
        0 <= e <= s.len(),
        forall|j: int| e <= j < s.len() ==> is_white_space(s[j]),
        e == 0 || !is_white_space(s[e - 1]),
    ensures
        trim_end_index(s) == e,
    decreases s.len(),
{
    if e < s.len() {
        lemma_trim_end(s.drop_last(), e);
    }
}

/// The text without leading and trailing white space, as `str::trim` gives it.
pub fn trim(s: &str) -> (trimmed: String)
    ensures
        trimmed@ == spec_trim(s@),
{
    let chars = chars_of(s);
    let n = chars.len();
    let mut start: usize = 0;
    while start < n && white_space(chars[start])
        invariant
            n == chars@.len(),
            chars@ == s@,
            start <= n,
            forall|j: int| 0 <= j < start ==> is_white_space(chars@[j]),
        decreases n - start,
    {
        start += 1;
    }
    let mut end: usize = n;
    while end > 0 && white_space(chars[end - 1])
        invariant
            n == chars@.len(),
            chars@ == s@,
            end <= n,
            forall|j: int| end <= j < n ==> is_white_space(chars@[j]),
        decreases end,
    {
        end -= 1;
    }
    proof {
        lemma_trim_start(s@, start as int);
        lemma_trim_end(s@, end as int);
    }
    if start >= end {
        return String::new();
    }
    String::from_str(s.substring_char(start, end))
}

/// Whether a text starts with the given characters.
pub open spec fn starts_with(s: Seq<char>, prefix: Seq<char>) -> bool {
    prefix.len() <= s.len() && s.subrange(0, prefix.len() as int) == prefix
}

pub fn text_starts_with(s: &Vec<char>, prefix: &Vec<char>) -> (starts: bool)
    ensures
        starts == starts_with(s@, prefix@),
{
    if prefix.len() > s.len() {
        return false;
    }
    let mut i: usize = 0;
    while i < prefix.len()
        invariant
            prefix@.len() <= s@.len(),
            i <= prefix@.len(),
            forall|j: int| 0 <= j < i ==> s@[j] == prefix@[j],
        decreases prefix@.len() - i,
    {
        if s[i] != prefix[i] {
            proof {
                assert(s@.subrange(0, prefix@.len() as int)[i as int] != prefix@[i as int]);
            }
            return false;
        }
        i += 1;
    }
    assert(s@.subrange(0, prefix@.len() as int) =~= prefix@);
    true
}

/// Whether two texts are equal.
pub fn same_text(a: &str, b: &str) -> (same: bool)
    ensures
        same == (a@ == b@),
{
    let ca = chars_of(a);
    let cb = chars_of(b);
    if ca.len() != cb.len() {
        return false;
    }
    let mut i: usize = 0;
    while i < ca.len()
        invariant
            ca@ == a@,
            cb@ == b@,
            ca@.len() == cb@.len(),
            i <= ca@.len(),
            forall|j: int| 0 <= j < i ==> ca@[j] == cb@[j],
        decreases ca@.len() - i,
    {
        if ca[i] != cb[i] {
            return false;
        }
        i += 1;
    }
    assert(a@ =~= b@);
    true
}

/// A character in ASCII lower case: `A` to `Z` become `a` to `z`, others stay.
pub open spec fn lower_ascii(c: char) -> char {
    if 'A' <= c && c <= 'Z' {
        ((c as u32) + 32) as char
    } else {
        c
    }
}

/// A text in ASCII lower case, as `str::to_ascii_lowercase` gives it.
pub open spec fn spec_to_ascii_lowercase(s: Seq<char>) -> Seq<char> {
    s.map_values(|c: char| lower_ascii(c))
}

fn lower_letter(c: char) -> (letter: &'static str)
    requires
        'A' <= c <= 'Z',
    ensures
        letter@ == seq![lower_ascii(c)],
{
    proof {
        reveal_strlit("a");
        reveal_strlit("b");
        reveal_strlit("c");
        reveal_strlit("d");
        reveal_strlit("e");
        reveal_strlit("f");
        reveal_strlit("g");
        reveal_strlit("h");
        reveal_strlit("i");
        reveal_strlit("j");
        reveal_strlit("k");
        reveal_strlit("l");
        reveal_strlit("m");
        reveal_strlit("n");
        reveal_strlit("o");
        reveal_strlit("p");
        reveal_strlit("q");
        reveal_strlit("r");
        reveal_strlit("s");
        reveal_strlit("t");
        reveal_strlit("u");
        reveal_strlit("v");
        reveal_strlit("w");
        reveal_strlit("x");
        reveal_strlit("y");
        reveal_strlit("z");
    }
    if c == 'A' { "a" }
    else if c == 'B' { "b" }
    else if c == 'C' { "c" }
    else if c == 'D' { "d" }
    else if c == 'E' { "e" }
    else if c == 'F' { "f" }
    else if c == 'G' { "g" }
    else if c == 'H' { "h" }
    else if c == 'I' { "i" }
    else if c == 'J' { "j" }
    else if c == 'K' { "k" }
    else if c == 'L' { "l" }
    else if c == 'M' { "m" }
    else if c == 'N' { "n" }
    else if c == 'O' { "o" }
    else if c == 'P' { "p" }
    else if c == 'Q' { "q" }
    else if c == 'R' { "r" }
    else if c == 'S' { "s" }
    else if c == 'T' { "t" }
    else if c == 'U' { "u" }
    else if c == 'V' { "v" }
    else if c == 'W' { "w" }
    else if c == 'X' { "x" }
    else if c == 'Y' { "y" }
    else { "z" }
}

/// The text in ASCII lower case.
pub fn to_ascii_lowercase(s: &str) -> (lower: String)
    ensures
        lower@ == spec_to_ascii_lowercase(s@),
{
    let n = s.unicode_len();
    let mut lower = String::new();
    let mut i: usize = 0;
    while i < n
        invariant
            n == s@.len(),
            i <= n,
            lower@ == spec_to_ascii_lowercase(s@.take(i as int)),
        decreases n - i,
    {
        let c = s.get_char(i);
        if 'A' <= c && c <= 'Z' {
            lower.append(lower_letter(c));
        } else {
            lower.append(s.substring_char(i, i + 1));
        }
        assert(s@.take(i as int + 1) =~= s@.take(i as int).push(c));
        assert(lower@ =~= spec_to_ascii_lowercase(s@.take(i as int + 1)));
        i += 1;
    }
    assert(s@.take(n as int) =~= s@);
    lower
}

/// Whether `c` is a digit of a radix up to ten.
pub open spec fn is_digit_in(c: char, radix: nat) -> bool {
    '0' <= c <= '9' && (c as int) - ('0' as int) < radix
}

/// The value of a digit character.
pub open spec fn digit_value(c: char) -> nat {
    ((c as int) - ('0' as int)) as nat
}

/// The value of digits in `radix`, most significant first.
pub open spec fn digits_value(d: Seq<char>, radix: nat) -> nat
    decreases d.len(),
{
    if d.len() == 0 {
        0
    } else {
        digits_value(d.drop_last(), radix) * radix + digit_value(d.last())
    }
}

/// A number's text without its optional leading '+'.
pub open spec fn sign_stripped(s: Seq<char>) -> Seq<char> {
    if s.len() > 0 && s[0] == '+' {
        s.drop_first()
    } else {
        s
    }
}

/// What `from_str_radix` of an unsigned integer type with largest value
/// `limit` gives: an optional '+', then at least one digit of the radix, and
/// a value that fits; anything else is an error.
pub open spec fn spec_parse_unsigned(s: Seq<char>, radix: nat, limit: nat) -> Option<nat> {
    let d = sign_stripped(s);
    if d.len() == 0 || exists|i: int| 0 <= i < d.len() && !is_digit_in(#[trigger] d[i], radix) {
        None
    } else if digits_value(d, radix) > limit {
        None
    } else {
        Some(digits_value(d, radix))
    }
}

proof fn lemma_digits_value_grows(d: Seq<char>, radix: nat, i: int, j: int)
    requires
        radix >= 1,
        0 <= i <= j <= d.len(),
    ensures
        digits_value(d.take(i), radix) <= digits_value(d.take(j), radix),
    decreases j - i,
{
    if i < j {
        lemma_digits_value_grows(d, radix, i, j - 1);
        assert(d.take(j).drop_last() =~= d.take(j - 1));
        let v = digits_value(d.take(j - 1), radix);
        assert(v * radix >= v) by (nonlinear_arith)
            requires
                radix >= 1,
        ;
    }
}

/// An unsigned number in a radix from 2 to 10, as `from_str_radix` reads it.
pub fn parse_unsigned(s: &str, radix: u64, limit: u64) -> (value: Option<u64>)
    requires
        2 <= radix <= 10,
        limit >= radix,
    ensures
        match value {
            Some(v) => spec_parse_unsigned(s@, radix as nat, limit as nat) == Some(v as nat),
            None => spec_parse_unsigned(s@, radix as nat, limit as nat) is None,
        },
{
    let n = s.unicode_len();
    let start: usize = if n > 0 && s.get_char(0) == '+' { 1 } else { 0 };
    let ghost d = sign_stripped(s@);
    assert(d =~= s@.skip(start as int));
    if start == n {
        return None;
    }
    let mut acc: u64 = 0;
    let mut over = false;
    let mut i: usize = start;
    while i < n
        invariant
            n == s@.len(),
            start <= i <= n,
            d == s@.skip(start as int),
            d == sign_stripped(s@),
            2 <= radix <= 10,
            limit >= radix,
            forall|j: int| 0 <= j < i - start ==> is_digit_in(#[trigger] d[j], radix as nat),
            !over ==> acc as nat == digits_value(d.take(i - start), radix as nat) && acc <= limit,
            over ==> digits_value(d.take(i - start), radix as nat) > limit,
        decreases n - i,
    {
        let c = s.get_char(i);
        assert(d[i - start] == c);
        if !('0' <= c && c <= '9') || (c as u64) - ('0' as u64) >= radix {
            assert(!is_digit_in(d[i - start], radix as nat));
            return None;
        }
        let digit = (c as u64) - ('0' as u64);
        assert(d.take(i - start + 1).drop_last() =~= d.take(i - start));
        assert(d.take(i - start + 1).last() == c);
        if !over {
            let room = (limit - digit) / radix;
            if acc > room {
                assert(acc * radix + digit > limit) by (nonlinear_arith)
                    requires
                        acc > room,
                        room == (limit as int - digit as int) / (radix as int),
                        radix >= 2,
                        digit <= limit,
                ;
                over = true;
            } else {
                assert(acc * radix + digit <= limit) by (nonlinear_arith)
                    requires
                        acc <= room,
                        room == (limit as int - digit as int) / (radix as int),
                        radix >= 2,
                        digit <= limit,
                ;
                acc = acc * radix + digit;
            }
        } else {
            proof {
                lemma_digits_value_grows(d, radix as nat, i - start, i - start + 1);
            }
        }
        i += 1;
    }
    assert(d.take(n - start) =~= d);
    if over {
        None
    } else {
        Some(acc)
    }
}

/// A text without every repeated leading copy of `prefix`.
pub open spec fn strip_repeated(s: Seq<char>, prefix: Seq<char>) -> Seq<char>
    decreases s.len(),
{
    if prefix.len() > 0 && starts_with(s, prefix) {
        strip_repeated(s.skip(prefix.len() as int), prefix)
    } else {
        s
    }
}

fn starts_with_at(s: &str, pos: usize, prefix: &str) -> (starts: bool)
    requires
        pos <= s@.len(),
    ensures
        starts == starts_with(s@.skip(pos as int), prefix@),
{
    let n = s.unicode_len();
    let m = prefix.unicode_len();
    if m > n - pos {
        return false;
    }
    let mut i: usize = 0;
    while i < m
        invariant
            n == s@.len(),
            m == prefix@.len(),
            pos + m <= n,
            i <= m,
            forall|j: int| 0 <= j < i ==> s@[pos + j] == prefix@[j],
        decreases m - i,
    {
        if s.get_char(pos + i) != prefix.get_char(i) {
            assert(s@.skip(pos as int).subrange(0, m as int)[i as int] != prefix@[i as int]);
            return false;
        }
        i += 1;
    }
    assert(s@.skip(pos as int).subrange(0, m as int) =~= prefix@);
    true
}

/// The text without every repeated leading copy of `prefix`, as
/// `str::trim_start_matches` gives it for a text pattern.
pub fn trim_start_matches(s: &str, prefix: &str) -> (rest: String)
    ensures
        rest@ == strip_repeated(s@, prefix@),
{
    let n = s.unicode_len();
    let m = prefix.unicode_len();
    let mut pos: usize = 0;
    assert(s@.skip(0) =~= s@);
    while m > 0 && starts_with_at(s, pos, prefix)
        invariant
            n == s@.len(),
            m == prefix@.len(),
            pos <= n,
            strip_repeated(s@, prefix@) == strip_repeated(s@.skip(pos as int), prefix@),
        decreases n - pos,
    {
        assert(s@.skip(pos as int).skip(m as int) =~= s@.skip(pos + m));
        pos = pos + m;
    }
    let rest = String::from_str(s.substring_char(pos, n));
    assert(s@.subrange(pos as int, n as int) =~= s@.skip(pos as int));
    rest
}

/// Every occurrence of `from` replaced by `to`, left to right without
/// overlaps, as `str::replace` does for a non-empty pattern.
pub open spec fn replace_text(s: Seq<char>, from: Seq<char>, to: Seq<char>) -> Seq<char>
    decreases s.len(),
{
    if from.len() == 0 || s.len() < from.len() {
        s
    } else if s.take(from.len() as int) == from {
        to + replace_text(s.skip(from.len() as int), from, to)
    } else {
        seq![s[0]] + replace_text(s.drop_first(), from, to)
    }
}

/// The text with every occurrence of the non-empty `from` replaced by `to`.
pub fn replace_all_text(s: &str, from: &str, to: &str) -> (replaced: String)
    requires
        from@.len() > 0,
    ensures
        replaced@ == replace_text(s@, from@, to@),
{
    let n = s.unicode_len();
    let m = from.unicode_len();
    let mut out = String::new();
    let mut p: usize = 0;
    assert(s@.skip(0) =~= s@);
    while p < n
        invariant
            n == s@.len(),
            m == from@.len(),
            m > 0,
            p <= n,
            out@ + replace_text(s@.skip(p as int), from@, to@) == replace_text(s@, from@, to@),
        decreases n - p,
    {
        let ghost rest = s@.skip(p as int);
        if m <= n - p && starts_with_at(s, p, from) {
            assert(rest.subrange(0, m as int) =~= rest.take(m as int));
            assert(rest.skip(m as int) =~= s@.skip(p + m));
            out.append(to);
            assert(out@ + replace_text(s@.skip(p + m), from@, to@) =~= replace_text(s@, from@, to@));
            p = p + m;
        } else {
            proof {
                if m <= n - p {
                    assert(rest.subrange(0, m as int) =~= rest.take(m as int));
                }
            }
            assert(rest.drop_first() =~= s@.skip(p + 1));
            assert(s@.subrange(p as int, p + 1) =~= seq![rest[0]]);
            out.append(s.substring_char(p, p + 1));
            proof {
                if m > n - p {
                    assert(replace_text(rest, from@, to@) == rest);
                    assert(rest =~= seq![rest[0]] + s@.skip(p + 1));
                    assert(replace_text(s@.skip(p + 1), from@, to@) == s@.skip(p + 1));
                }
            }
            assert(out@ + replace_text(s@.skip(p + 1), from@, to@) =~= replace_text(s@, from@, to@));
            p = p + 1;
        }
    }
    assert(s@.skip(n as int) =~= Seq::<char>::empty());
    assert(out@ + Seq::<char>::empty() =~= out@);
    out
}

/// Whether `pattern` occurs in `s`, as `str::contains` says; the empty
/// pattern occurs in every text.
pub open spec fn contains_text(s: Seq<char>, pattern: Seq<char>) -> bool {
    exists|i: int| 0 <= i && i + pattern.len() <= s.len() && #[trigger] s.subrange(i, i + pattern.len()) == pattern
}

fn occurs_at(s: &Vec<char>, pattern: &Vec<char>, at: usize) -> (found: bool)
    requires
        at + pattern@.len() <= s@.len(),
    ensures
        found == (s@.subrange(at as int, at + pattern@.len()) == pattern@),
{
    let n = s.len();
    let mut j: usize = 0;
    while j < pattern.len()
        invariant
            at + pattern@.len() <= s@.len(),
            n == s@.len(),
            j <= pattern@.len(),
            forall|k: int| 0 <= k < j ==> s@[at + k] == pattern@[k],
        decreases pattern@.len() - j,
    {
        if s[at + j] != pattern[j] {
            assert(s@.subrange(at as int, at + pattern@.len())[j as int] != pattern@[j as int]);
            return false;
        }
        j += 1;
    }
    assert(s@.subrange(at as int, at + pattern@.len()) =~= pattern@);
    true
}

/// Whether `pattern` occurs in `s`.
pub fn text_contains(s: &str, pattern: &str) -> (found: bool)
    ensures
        found == contains_text(s@, pattern@),
{
    let sc = crate::paths::chars_of(s);
    let pc = crate::paths::chars_of(pattern);
    if pc.len() > sc.len() {
        return false;
    }
    let last = sc.len() - pc.len();
    let mut i: usize = 0;
    loop
        invariant
            sc@ == s@,
            pc@ == pattern@,
            last == sc@.len() - pc@.len(),
            i <= last,
            forall|k: int| 0 <= k < i ==> #[trigger] s@.subrange(k, k + pattern@.len()) != pattern@,
        decreases last - i,
    {
        if occurs_at(&sc, &pc, i) {
            return true;
        }
        if i == last {
            return false;
        }
        i += 1;
    }
}

/// The text a search field's input is matched with: trimmed and in ASCII
/// lower case.
pub open spec fn spec_search_query(input: Seq<char>) -> Seq<char> {
    spec_to_ascii_lowercase(spec_trim(input))
}

/// The text a search field's input is matched with.
pub fn search_query(input: &str) -> (query: String)
    ensures
        query@ == spec_search_query(input@),
{
    let trimmed = trim(input);
    to_ascii_lowercase(trimmed.as_str())
}

} // verus!

use vstd::prelude::*;

use crate::text::{parse_unsigned, spec_parse_unsigned, strip_repeated, trim, spec_trim, trim_start_matches};

verus! {

/// Whether bit `b` of `x` is set.
pub open spec fn has_bit(x: u32, b: u32) -> bool {
    (x >> b) & 1u32 == 1u32
}

/// The mask with only bit `b` set.
pub open spec fn bit_mask(b: u32) -> u32 {
    1u32 << b
}

proof fn lemma_bit_ops_at(x: u32, b: u32, c: u32)
    by (bit_vector)
    requires
        b < 32,
        c < 32,
    ensures
        (((x | (1u32 << b)) >> c) & 1u32 == 1u32) == ((((x >> c) & 1u32) == 1u32) || c == b),
        (((x & !(1u32 << b)) >> c) & 1u32 == 1u32) == ((((x >> c) & 1u32) == 1u32) && c != b),
        (x & (1u32 << b) != 0) == (((x >> b) & 1u32) == 1u32),
{
}

pub(crate) proof fn lemma_bit_ops(x: u32, b: u32)
    requires
        b < 32,
    ensures
        forall|c: u32| c < 32 ==> #[trigger] has_bit(x | bit_mask(b), c) == (has_bit(x, c) || c == b),
        forall|c: u32| c < 32 ==> #[trigger] has_bit(x & !bit_mask(b), c) == (has_bit(x, c) && c != b),
        (x & bit_mask(b) != 0) == has_bit(x, b),
{
    assert forall|c: u32| c < 32 implies #[trigger] has_bit(x | bit_mask(b), c) == (has_bit(x, c) || c == b) by {
        lemma_bit_ops_at(x, b, c);
    }
    assert forall|c: u32| c < 32 implies #[trigger] has_bit(x & !bit_mask(b), c) == (has_bit(x, c) && c != b) by {
        lemma_bit_ops_at(x, b, c);
    }
    lemma_bit_ops_at(x, b, 0);
}

proof fn lemma_equal_by_bits(x: u32, y: u32)
    by (bit_vector)
    requires
        ((x >> 0u32) & 1u32) == ((y >> 0u32) & 1u32),
        ((x >> 1u32) & 1u32) == ((y >> 1u32) & 1u32),
        ((x >> 2u32) & 1u32) == ((y >> 2u32) & 1u32),
        ((x >> 3u32) & 1u32) == ((y >> 3u32) & 1u32),
        ((x >> 4u32) & 1u32) == ((y >> 4u32) & 1u32),
        ((x >> 5u32) & 1u32) == ((y >> 5u32) & 1u32),
        ((x >> 6u32) & 1u32) == ((y >> 6u32) & 1u32),
        ((x >> 7u32) & 1u32) == ((y >> 7u32) & 1u32),
        ((x >> 8u32) & 1u32) == ((y >> 8u32) & 1u32),
        ((x >> 9u32) & 1u32) == ((y >> 9u32) & 1u32),
        ((x >> 10u32) & 1u32) == ((y >> 10u32) & 1u32),
        ((x >> 11u32) & 1u32) == ((y >> 11u32) & 1u32),
        ((x >> 12u32) & 1u32) == ((y >> 12u32) & 1u32),
        ((x >> 13u32) & 1u32) == ((y >> 13u32) & 1u32),
        ((x >> 14u32) & 1u32) == ((y >> 14u32) & 1u32),
        ((x >> 15u32) & 1u32) == ((y >> 15u32) & 1u32),
        ((x >> 16u32) & 1u32) == ((y >> 16u32) & 1u32),
        ((x >> 17u32) & 1u32) == ((y >> 17u32) & 1u32),
        ((x >> 18u32) & 1u32) == ((y >> 18u32) & 1u32),
        ((x >> 19u32) & 1u32) == ((y >> 19u32) & 1u32),
        ((x >> 20u32) & 1u32) == ((y >> 20u32) & 1u32),
        ((x >> 21u32) & 1u32) == ((y >> 21u32) & 1u32),
        ((x >> 22u32) & 1u32) == ((y >> 22u32) & 1u32),
        ((x >> 23u32) & 1u32) == ((y >> 23u32) & 1u32),
        ((x >> 24u32) & 1u32) == ((y >> 24u32) & 1u32),
        ((x >> 25u32) & 1u32) == ((y >> 25u32) & 1u32),
        ((x >> 26u32) & 1u32) == ((y >> 26u32) & 1u32),
        ((x >> 27u32) & 1u32) == ((y >> 27u32) & 1u32),
        ((x >> 28u32) & 1u32) == ((y >> 28u32) & 1u32),
        ((x >> 29u32) & 1u32) == ((y >> 29u32) & 1u32),
        ((x >> 30u32) & 1u32) == ((y >> 30u32) & 1u32),
        ((x >> 31u32) & 1u32) == ((y >> 31u32) & 1u32),
    ensures
        x == y,
{
}

proof fn lemma_bit_is_01(x: u32, c: u32)
    by (bit_vector)
    ensures
        ((x >> c) & 1u32) == 0u32 || ((x >> c) & 1u32) == 1u32,
{
}

/// A mode is decided by its bits.
proof fn lemma_bits_decide(x: u32, y: u32)
    requires
        forall|c: u32| c < 32 ==> #[trigger] has_bit(x, c) == has_bit(y, c),
    ensures
        x == y,
{
    assert forall|c: u32| c < 32 implies ((x >> c) & 1u32) == ((y >> c) & 1u32) by {
        lemma_bit_is_01(x, c);
        lemma_bit_is_01(y, c);
        assert(has_bit(x, c) == has_bit(y, c));
    }
    assert(((x >> 0u32) & 1u32) == ((y >> 0u32) & 1u32));
    assert(((x >> 1u32) & 1u32) == ((y >> 1u32) & 1u32));
    assert(((x >> 2u32) & 1u32) == ((y >> 2u32) & 1u32));
    assert(((x >> 3u32) & 1u32) == ((y >> 3u32) & 1u32));
    assert(((x >> 4u32) & 1u32) == ((y >> 4u32) & 1u32));
    assert(((x >> 5u32) & 1u32) == ((y >> 5u32) & 1u32));
    assert(((x >> 6u32) & 1u32) == ((y >> 6u32) & 1u32));
    assert(((x >> 7u32) & 1u32) == ((y >> 7u32) & 1u32));
    assert(((x >> 8u32) & 1u32) == ((y >> 8u32) & 1u32));
    assert(((x >> 9u32) & 1u32) == ((y >> 9u32) & 1u32));
    assert(((x >> 10u32) & 1u32) == ((y >> 10u32) & 1u32));
    assert(((x >> 11u32) & 1u32) == ((y >> 11u32) & 1u32));
    assert(((x >> 12u32) & 1u32) == ((y >> 12u32) & 1u32));
    assert(((x >> 13u32) & 1u32) == ((y >> 13u32) & 1u32));
    assert(((x >> 14u32) & 1u32) == ((y >> 14u32) & 1u32));
    assert(((x >> 15u32) & 1u32) == ((y >> 15u32) & 1u32));
    assert(((x >> 16u32) & 1u32) == ((y >> 16u32) & 1u32));
    assert(((x >> 17u32) & 1u32) == ((y >> 17u32) & 1u32));
    assert(((x >> 18u32) & 1u32) == ((y >> 18u32) & 1u32));
    assert(((x >> 19u32) & 1u32) == ((y >> 19u32) & 1u32));
    assert(((x >> 20u32) & 1u32) == ((y >> 20u32) & 1u32));
    assert(((x >> 21u32) & 1u32) == ((y >> 21u32) & 1u32));
    assert(((x >> 22u32) & 1u32) == ((y >> 22u32) & 1u32));
    assert(((x >> 23u32) & 1u32) == ((y >> 23u32) & 1u32));
    assert(((x >> 24u32) & 1u32) == ((y >> 24u32) & 1u32));
    assert(((x >> 25u32) & 1u32) == ((y >> 25u32) & 1u32));
    assert(((x >> 26u32) & 1u32) == ((y >> 26u32) & 1u32));
    assert(((x >> 27u32) & 1u32) == ((y >> 27u32) & 1u32));
    assert(((x >> 28u32) & 1u32) == ((y >> 28u32) & 1u32));
    assert(((x >> 29u32) & 1u32) == ((y >> 29u32) & 1u32));
    assert(((x >> 30u32) & 1u32) == ((y >> 30u32) & 1u32));
    assert(((x >> 31u32) & 1u32) == ((y >> 31u32) & 1u32));
    lemma_equal_by_bits(x, y);
}

/// Whether every mode has bit `b` set (true for no modes).
pub open spec fn all_have_bit(modes: Seq<u32>, b: u32) -> bool {
    forall|i: int| 0 <= i < modes.len() ==> has_bit(#[trigger] modes[i], b)
}

/// Toggling a permission bit for several entries: when all have it, it is
/// cleared everywhere; otherwise it is set everywhere. No other bit changes.
pub open spec fn spec_toggle(modes: Seq<u32>, b: u32) -> Seq<u32> {
    let all_set = all_have_bit(modes, b);
    modes.map_values(|m: u32| if all_set { m & !bit_mask(b) } else { m | bit_mask(b) })
}

/// The mode shared by all entries, if there is one.
pub open spec fn spec_common_mode(modes: Seq<u32>) -> Option<u32> {
    if modes.len() > 0 && forall|i: int| 0 <= i < modes.len() ==> #[trigger] modes[i] == modes[0] {
        Some(modes[0])
    } else {
        None
    }
}

pub fn common_mode(modes: &Vec<u32>) -> (common: Option<u32>)
    ensures
        common == spec_common_mode(modes@),
{
    if modes.len() == 0 {
        return None;
    }
    let first = modes[0];
    let mut i: usize = 1;
    while i < modes.len()
        invariant
            1 <= i <= modes@.len(),
            first == modes@[0],
            forall|j: int| 0 <= j < i ==> #[trigger] modes@[j] == first,
        decreases modes@.len() - i,
    {
        if modes[i] != first {
            return None;
        }
        i += 1;
    }
    Some(first)
}

/// The digits of `n` in base 8, most significant first.
pub open spec fn octal_digits(n: nat) -> Seq<char>
    decreases n,
{
    if n < 8 {
        seq![crate::labels::digit_char(n)]
    } else {
        octal_digits(n / 8) + seq![crate::labels::digit_char(n % 8)]
    }
}

/// A mode in octal, padded with zeros to four digits.
pub open spec fn spec_mode_octal(mode: u32) -> Seq<char> {
    let digits = octal_digits(mode as nat);
    if digits.len() >= 4 { digits } else { Seq::new((4 - digits.len()) as nat, |i: int| '0') + digits }
}

fn push_octal(out: &mut String, n: u32)
    ensures
        final(out)@ == old(out)@ + octal_digits(n as nat),
    decreases n,
{
    if n >= 8 {
        push_octal(out, n / 8);
    }
    out.append(octal_digit_str(n % 8));
    assert(out@ =~= old(out)@ + octal_digits(n as nat));
}

fn octal_digit_str(d: u32) -> (s: &'static str)
    requires
        d < 8,
    ensures
        s@ == seq![crate::labels::digit_char(d as nat)],
{
    proof {
        reveal_strlit("0");
        reveal_strlit("1");
        reveal_strlit("2");
        reveal_strlit("3");
        reveal_strlit("4");
        reveal_strlit("5");
        reveal_strlit("6");
        reveal_strlit("7");
    }
    if d == 0 { "0" } else if d == 1 { "1" } else if d == 2 { "2" } else if d == 3 { "3" } else if d == 4 { "4" }
    else if d == 5 { "5" } else if d == 6 { "6" } else { "7" }
}

proof fn lemma_octal_len(n: nat)
    ensures
        octal_digits(n).len() >= 1,
        n < 8 ==> octal_digits(n).len() == 1,
        8 <= n < 64 ==> octal_digits(n).len() == 2,
        64 <= n < 512 ==> octal_digits(n).len() == 3,
        n >= 512 ==> octal_digits(n).len() >= 4,
    decreases n,
{
    if n >= 8 {
        lemma_octal_len(n / 8);
    }
}

/// A mode in octal with at least four digits, as in "0644".
pub fn mode_octal(mode: u32) -> (text: String)
    ensures
        text@ == spec_mode_octal(mode),
{
    let mut text = String::new();
    proof {
        lemma_octal_len(mode as nat);
        reveal_strlit("0");
    }
    if mode < 8 {
        text.append("000");
        proof { reveal_strlit("000"); }
    } else if mode < 64 {
        text.append("00");
        proof { reveal_strlit("00"); }
    } else if mode < 512 {
        text.append("0");
    }
    push_octal(&mut text, mode);
    assert(text@ =~= spec_mode_octal(mode));
    text
}

/// Sets or clears one permission bit for all entries (see `spec_toggle`) and
/// returns the text for the octal field: the shared mode, or nothing when the
/// modes now differ.
pub fn toggle_permission_bit(current_modes: &mut Vec<u32>, bit: u32) -> (octal: String)
    requires
        bit < 32,
    ensures
        final(current_modes)@ == spec_toggle(old(current_modes)@, bit),
        octal@ == (match spec_common_mode(final(current_modes)@) {
            Some(m) => spec_mode_octal(m),
            None => Seq::empty(),
        }),
{
    let mask: u32 = 1u32 << bit;
    let mut all_set = true;
    let mut i: usize = 0;
    while i < current_modes.len()
        invariant
            i <= current_modes@.len(),
            bit < 32,
            mask == bit_mask(bit),
            all_set == forall|j: int| 0 <= j < i ==> has_bit(#[trigger] current_modes@[j], bit),
        decreases current_modes@.len() - i,
    {
        proof {
            lemma_bit_ops(current_modes@[i as int], bit);
        }
        if current_modes[i] & mask == 0 {
            all_set = false;
        }
        i += 1;
    }
    let ghost original = current_modes@;
    let mut k: usize = 0;
    while k < current_modes.len()
        invariant
            k <= current_modes@.len(),
            current_modes@.len() == original.len(),
            mask == bit_mask(bit),
            all_set == all_have_bit(original, bit),
            forall|j: int| 0 <= j < k ==> #[trigger] current_modes@[j] == spec_toggle(original, bit)[j],
            forall|j: int| k <= j < current_modes@.len() ==> #[trigger] current_modes@[j] == original[j],
        decreases current_modes@.len() - k,
    {
        let mode = current_modes[k];
        let updated = if all_set { mode & !mask } else { mode | mask };
        current_modes.set(k, updated);
        k += 1;
    }
    assert(current_modes@ =~= spec_toggle(original, bit));
    match common_mode(current_modes) {
        Some(mode) => mode_octal(mode),
        None => String::new(),
    }
}

/// Toggling a bit changes no other bit, and afterwards every entry
/// agrees on that bit; toggling twice restores modes that agreed on it.
pub proof fn lemma_toggle(modes: Seq<u32>, b: u32)
    requires
        b < 32,
    ensures
        spec_toggle(modes, b).len() == modes.len(),
        forall|i: int, c: u32| 0 <= i < modes.len() && c < 32 && c != b
            ==> #[trigger] has_bit(spec_toggle(modes, b)[i], c) == has_bit(modes[i], c),
        forall|i: int, j: int| 0 <= i < modes.len() && 0 <= j < modes.len()
            ==> has_bit(#[trigger] spec_toggle(modes, b)[i], b) == has_bit(#[trigger] spec_toggle(modes, b)[j], b),
        (all_have_bit(modes, b) || forall|i: int| 0 <= i < modes.len() ==> !has_bit(#[trigger] modes[i], b))
            ==> spec_toggle(spec_toggle(modes, b), b) == modes,
{
    let t = spec_toggle(modes, b);
    let all_set = all_have_bit(modes, b);
    assert forall|i: int, c: u32| 0 <= i < modes.len() && c < 32 implies
        #[trigger] has_bit(t[i], c) == (if c == b { !all_set } else { has_bit(modes[i], c) }) by {
        lemma_bit_ops(modes[i], b);
    }
    if all_set || forall|i: int| 0 <= i < modes.len() ==> !has_bit(#[trigger] modes[i], b) {
        let tt = spec_toggle(t, b);
        if modes.len() > 0 {
            assert(has_bit(t[0], b) == !all_set);
            if all_set {
                assert(!all_have_bit(t, b));
            } else {
                assert(all_have_bit(t, b));
            }
        }
        assert forall|i: int| 0 <= i < modes.len() implies tt[i] == modes[i] by {
            lemma_bit_ops(t[i], b);
            assert forall|c: u32| c < 32 implies #[trigger] has_bit(tt[i], c) == has_bit(modes[i], c) by {
                assert(has_bit(t[i], c) == (if c == b { !all_set } else { has_bit(modes[i], c) }));
            }
            lemma_bits_decide(tt[i], modes[i]);
        }
        assert(tt =~= modes);
    }
}

/// A toggle flips the bit for the selection as a whole: afterwards every
/// entry has bit `b` exactly when, before, not every entry had it; every
/// other bit of every entry is kept.
pub proof fn lemma_toggle_flips_bit(modes: Seq<u32>, b: u32)
    requires
        b < 32,
    ensures
        spec_toggle(modes, b).len() == modes.len(),
        forall|i: int|
            0 <= i < modes.len() ==> ((#[trigger] spec_toggle(modes, b)[i] >> b) & 1u32 == 1u32) == !(forall|j: int|
                0 <= j < modes.len() ==> (modes[j] >> b) & 1u32 == 1u32),
        forall|i: int, c: u32|
            0 <= i < modes.len() && c < 32 && c != b ==> (#[trigger] (spec_toggle(modes, b)[i] >> c) & 1u32 == 1u32)
                == ((modes[i] >> c) & 1u32 == 1u32),
{
    let t = spec_toggle(modes, b);
    assert forall|i: int| 0 <= i < modes.len() implies ((#[trigger] t[i] >> b) & 1u32 == 1u32) == !(forall|j: int|
        0 <= j < modes.len() ==> (modes[j] >> b) & 1u32 == 1u32) by {
        lemma_bit_ops(modes[i], b);
        assert(has_bit(t[i], b) == !all_have_bit(modes, b));
    }
    assert forall|i: int, c: u32| 0 <= i < modes.len() && c < 32 && c != b implies (#[trigger] (t[i] >> c) & 1u32
        == 1u32) == ((modes[i] >> c) & 1u32 == 1u32) by {
        lemma_bit_ops(modes[i], b);
        assert(has_bit(t[i], c) == has_bit(modes[i], c));
    }
}

/// How a permission edit changes the modes of its entries.
#[derive(Clone, Copy, Debug, PartialEq, Eq, Structural)]
pub enum PermissionChange {
    /// Set the `set` bits and clear the `clear` bits, keeping the others.
    Mask { set: u32, clear: u32 },
    /// Give every entry exactly this mode.
    Exact(u32),
}

/// Whether bit `b` differs between an entry's mode before and after the
/// edit, for some entry (the lists are paired up to the shorter one).
pub open spec fn bit_changed(original: Seq<u32>, current: Seq<u32>, b: u32) -> bool {
    exists|i: int| 0 <= i < original.len() && i < current.len() && has_bit(#[trigger] original[i], b) != has_bit(current[i], b)
}

/// Whether no mode has bit `b` set.
pub open spec fn none_have_bit(modes: Seq<u32>, b: u32) -> bool {
    forall|i: int| 0 <= i < modes.len() ==> !has_bit(#[trigger] modes[i], b)
}

/// A changed permission bit that every entry now has is set.
pub open spec fn bit_to_set(original: Seq<u32>, current: Seq<u32>, b: u32) -> bool {
    b < 12 && bit_changed(original, current, b) && all_have_bit(current, b)
}

/// A changed permission bit that no entry now has (and not every entry has) is cleared.
pub open spec fn bit_to_clear(original: Seq<u32>, current: Seq<u32>, b: u32) -> bool {
    b < 12 && bit_changed(original, current, b) && !all_have_bit(current, b) && none_have_bit(current, b)
}

/// The bits of the mask edit: those changed to the same value for every entry.
pub open spec fn is_mask_of(original: Seq<u32>, current: Seq<u32>, set: u32, clear: u32) -> bool {
    forall|b: u32| b < 32 ==> (#[trigger] has_bit(set, b) == bit_to_set(original, current, b) && has_bit(clear, b)
        == bit_to_clear(original, current, b))
}

/// The message when an octal mode does not parse.
pub open spec fn octal_error_text() -> Seq<char> {
    "Enter an octal mode such as 0644"@
}

/// The message when an octal mode is above 7777.
pub open spec fn mode_range_text() -> Seq<char> {
    "Permission mode must be between 0000 and 7777"@
}

/// The message when a mask edit changes nothing.
pub open spec fn no_changes_text() -> Seq<char> {
    "No permission changes to apply"@
}

/// The mode typed as octal text, without leading "0o" marks.
pub open spec fn typed_mode(octal: Seq<char>) -> Option<nat> {
    spec_parse_unsigned(strip_repeated(octal, "0o"@), 8, u32::MAX as nat)
}

fn bit_changed_exec(original: &Vec<u32>, current: &Vec<u32>, bit_index: u32) -> (changed: bool)
    requires
        bit_index < 32,
    ensures
        changed == bit_changed(original@, current@, bit_index),
{
    let bit: u32 = 1u32 << bit_index;
    let mut i: usize = 0;
    while i < original.len() && i < current.len()
        invariant
            bit_index < 32,
            bit == bit_mask(bit_index),
            i <= original@.len(),
            forall|j: int| 0 <= j < i && j < current@.len() ==> has_bit(#[trigger] original@[j], bit_index) == has_bit(current@[j], bit_index),
        decreases original@.len() - i,
    {
        let before = original[i];
        let after = current[i];
        proof {
            lemma_bit_ops(before, bit_index);
            lemma_bit_ops(after, bit_index);
        }
        if ((before & bit) != 0) != ((after & bit) != 0) {
            return true;
        }
        i += 1;
    }
    false
}

fn all_have_bit_exec(modes: &Vec<u32>, bit_index: u32, want: bool) -> (all: bool)
    requires
        bit_index < 32,
    ensures
        all == forall|i: int| 0 <= i < modes@.len() ==> has_bit(#[trigger] modes@[i], bit_index) == want,
{
    let bit: u32 = 1u32 << bit_index;
    let mut i: usize = 0;
    while i < modes.len()
        invariant
            bit_index < 32,
            bit == bit_mask(bit_index),
            i <= modes@.len(),
            forall|j: int| 0 <= j < i ==> has_bit(#[trigger] modes@[j], bit_index) == want,
        decreases modes@.len() - i,
    {
        let m = modes[i];
        proof {
            lemma_bit_ops(m, bit_index);
        }
        if ((m & bit) != 0) != want {
            return false;
        }
        i += 1;
    }
    true
}

proof fn lemma_zero_bits()
    ensures
        forall|c: u32| c < 32 ==> !#[trigger] has_bit(0u32, c),
{
    assert forall|c: u32| c < 32 implies !#[trigger] has_bit(0u32, c) by {
        assert(((0u32 >> c) & 1u32) == 0u32) by (bit_vector);
    }
}

/// What a permission edit gives: typed octal text wins and must be an octal
/// mode up to 7777 (leading "0o" marks are ignored); without it, the bits
/// changed to the same value for every entry make a mask edit, which must
/// change something.
pub open spec fn permission_outcome(original: Seq<u32>, current: Seq<u32>, octal_text: Seq<char>, change: Result<PermissionChange, Seq<char>>) -> bool {
    let octal = spec_trim(octal_text);
    if octal.len() == 0 {
        match change {
            Ok(PermissionChange::Mask { set, clear }) => is_mask_of(original, current, set, clear) && (set != 0 || clear != 0),
            Ok(PermissionChange::Exact(_)) => false,
            Err(e) => e == no_changes_text() && forall|b: u32| b < 12 ==> !#[trigger] bit_to_set(original, current, b)
                && !bit_to_clear(original, current, b),
        }
    } else {
        match typed_mode(octal) {
            None => change == Err::<PermissionChange, Seq<char>>(octal_error_text()),
            Some(mode) => if mode > 4095 {
                change == Err::<PermissionChange, Seq<char>>(mode_range_text())
            } else {
                change == Ok::<PermissionChange, Seq<char>>(PermissionChange::Exact(mode as u32))
            },
        }
    }
}

/// The change that a permission edit asks for.
pub fn permission_change(original_modes: &Vec<u32>, current_modes: &Vec<u32>, octal_text: &str) -> (change: Result<PermissionChange, String>)
    ensures
        permission_outcome(original_modes@, current_modes@, octal_text@, match change {
            Ok(c) => Ok(c),
            Err(e) => Err(e@),
        }),
{
    let octal = trim(octal_text);
    if octal.unicode_len() == 0 {
        let mut set: u32 = 0;
        let mut clear: u32 = 0;
        proof {
            lemma_zero_bits();
        }
        let mut bit_index: u32 = 0;
        while bit_index < 12
            invariant
                bit_index <= 12,
                forall|c: u32| c < 32 ==> (#[trigger] has_bit(set, c) == (c < bit_index && bit_to_set(original_modes@, current_modes@, c))
                    && has_bit(clear, c) == (c < bit_index && bit_to_clear(original_modes@, current_modes@, c))),
            decreases 12 - bit_index,
        {
            let bit: u32 = 1u32 << bit_index;
            let changed = bit_changed_exec(original_modes, current_modes, bit_index);
            let ghost old_set = set;
            let ghost old_clear = clear;
            if changed && all_have_bit_exec(current_modes, bit_index, true) {
                proof {
                    lemma_bit_ops(set, bit_index);
                }
                set = set | bit;
            } else if changed && all_have_bit_exec(current_modes, bit_index, false) {
                proof {
                    lemma_bit_ops(clear, bit_index);
                }
                clear = clear | bit;
            }
            assert forall|c: u32| c < 32 implies (#[trigger] has_bit(set, c) == (c < bit_index + 1 && bit_to_set(original_modes@, current_modes@, c))
                && has_bit(clear, c) == (c < bit_index + 1 && bit_to_clear(original_modes@, current_modes@, c))) by {
                assert(has_bit(old_set, c) == (c < bit_index && bit_to_set(original_modes@, current_modes@, c)));
                assert(has_bit(old_clear, c) == (c < bit_index && bit_to_clear(original_modes@, current_modes@, c)));
            }
            bit_index += 1;
        }
        if set == 0 && clear == 0 {
            proof {
                assert forall|b: u32| b < 12 implies !#[trigger] bit_to_set(original_modes@, current_modes@, b)
                    && !bit_to_clear(original_modes@, current_modes@, b) by {
                    assert(!has_bit(set, b) && !has_bit(clear, b));
                }
            }
            return Err(String::from_str("No permission changes to apply"));
        }
        return Ok(PermissionChange::Mask { set, clear });
    }
    let digits = trim_start_matches(octal.as_str(), "0o");
    match parse_unsigned(digits.as_str(), 8, 4294967295) {
        None => Err(String::from_str("Enter an octal mode such as 0644")),
        Some(mode) => {
            if mode > 4095 {
                Err(String::from_str("Permission mode must be between 0000 and 7777"))
            } else {
                Ok(PermissionChange::Exact(mode as u32))
            }
        },
    }
}

/// A mask edit never both sets and clears a bit, and touches only the twelve
/// permission bits.
pub proof fn lemma_mask_edit_is_consistent(original: Seq<u32>, current: Seq<u32>, set: u32, clear: u32)
    requires
        is_mask_of(original, current, set, clear),
    ensures
        forall|b: u32| b < 32 ==> !(#[trigger] has_bit(set, b) && has_bit(clear, b)),
        forall|b: u32| 12 <= b < 32 ==> !#[trigger] has_bit(set, b),
        forall|b: u32| 12 <= b < 32 ==> !#[trigger] has_bit(clear, b),
{
    assert forall|b: u32| 12 <= b < 32 implies !#[trigger] has_bit(clear, b) by {
        assert(has_bit(set, b) == bit_to_set(original, current, b));
    }
}

} // verus!

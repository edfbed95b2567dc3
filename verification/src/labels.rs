use vstd::prelude::*;

use crate::text::{digit_value, digits_value, is_digit_in};
use crate::model::{
    DeviceEntry, DeviceKind, FileEntry, FileKind, SortDirection, SortField, SortSpec, ThemeAppearance, ThemeMode,
    WindowAppearance,
};

verus! {

/// The character of a decimal digit.
pub open spec fn digit_char(d: nat) -> char {
    if d == 0 { '0' } else if d == 1 { '1' } else if d == 2 { '2' } else if d == 3 { '3' } else if d == 4 { '4' }
    else if d == 5 { '5' } else if d == 6 { '6' } else if d == 7 { '7' } else if d == 8 { '8' } else { '9' }
}

/// The decimal notation of a number, without leading zeros.
pub open spec fn decimal(n: nat) -> Seq<char>
    decreases n,
{
    if n < 10 {
        seq![digit_char(n)]
    } else {
        decimal(n / 10) + seq![digit_char(n % 10)]
    }
}

fn digit_str(d: u64) -> (s: &'static str)
    requires
        d < 10,
    ensures
        s@ == seq![digit_char(d as nat)],
{
    proof {
        reveal_strlit("0");
        reveal_strlit("1");
        reveal_strlit("2");
        reveal_strlit("3");
        reveal_strlit("4");
        reveal_strlit("5");
        reveal_strlit("6");
        reveal_strlit("7");
        reveal_strlit("8");
        reveal_strlit("9");
    }
    if d == 0 { "0" } else if d == 1 { "1" } else if d == 2 { "2" } else if d == 3 { "3" } else if d == 4 { "4" }
    else if d == 5 { "5" } else if d == 6 { "6" } else if d == 7 { "7" } else if d == 8 { "8" } else { "9" }
}

/// Appends the decimal notation of `n`.
pub fn push_decimal(out: &mut String, n: u64)
    ensures
        final(out)@ == old(out)@ + decimal(n as nat),
    decreases n,
{
    if n >= 10 {
        push_decimal(out, n / 10);
    }
    out.append(digit_str(n % 10));
    proof {
        if n >= 10 {
            assert(decimal(n as nat) == decimal((n / 10) as nat) + seq![digit_char((n % 10) as nat)]);
        }
    }
    assert(out@ =~= old(out)@ + decimal(n as nat));
}

/// The decimal notation of `n`.
pub fn decimal_string(n: u64) -> (s: String)
    ensures
        s@ == decimal(n as nat),
{
    let mut s = String::new();
    push_decimal(&mut s, n);
    assert(s@ =~= decimal(n as nat));
    s
}

/// 1024 to the power `k`, for the units used when sizes are shown.
pub open spec fn pow1024(k: nat) -> nat {
    if k == 0 { 1 } else if k == 1 { 1024 } else if k == 2 { 1048576 } else if k == 3 { 1073741824 } else { 1099511627776 }
}

/// The unit a size is shown in: bytes below 1 KB, else the largest of KB, MB,
/// GB and TB that is at most the size.
pub open spec fn byte_unit(bytes: nat) -> nat {
    if bytes < pow1024(1) { 0 } else if bytes < pow1024(2) { 1 } else if bytes < pow1024(3) { 2 } else if bytes < pow1024(4) { 3 } else { 4 }
}

pub open spec fn unit_name(unit: nat) -> Seq<char> {
    if unit == 0 { "B"@ } else if unit == 1 { "KB"@ } else if unit == 2 { "MB"@ } else if unit == 3 { "GB"@ } else { "TB"@ }
}

/// A size in tenths of its unit, rounded to the nearest tenth (halves up).
pub open spec fn size_tenths(bytes: nat) -> nat {
    let d = pow1024(byte_unit(bytes));
    (10 * bytes + d / 2) / d
}

/// A size for people: whole bytes below 1 KB; else in its unit rounded to one
/// decimal, with a trailing ".0" left out.
pub open spec fn spec_format_bytes(bytes: nat) -> Seq<char> {
    if bytes < 1024 {
        decimal(bytes) + " B"@
    } else {
        let tenths = size_tenths(bytes);
        let whole = tenths / 10;
        let tenth = tenths % 10;
        if tenth == 0 {
            decimal(whole) + " "@ + unit_name(byte_unit(bytes))
        } else {
            decimal(whole) + "."@ + decimal(tenth) + " "@ + unit_name(byte_unit(bytes))
        }
    }
}

fn unit_str(unit: usize) -> (s: &'static str)
    requires
        unit < 5,
    ensures
        s@ == unit_name(unit as nat),
{
    if unit == 0 { "B" } else if unit == 1 { "KB" } else if unit == 2 { "MB" } else if unit == 3 { "GB" } else { "TB" }
}

proof fn lemma_div_at_least(x: int, d: int)
    requires
        d > 0,
        x >= 0,
    ensures
        (x / d >= 1024) <==> (x >= 1024 * d),
{
    assert((x / d >= 1024) <==> (x >= 1024 * d)) by (nonlinear_arith)
        requires d > 0, x >= 0;
}

/// Rounding the remainder to a tenth carries into the whole part exactly
/// when the nearest tenth is the next whole number.
proof fn lemma_tenths_split(bytes: int, d: int)
    requires
        d > 0,
        bytes >= 0,
    ensures
        ({
            let q = bytes / d;
            let r = bytes % d;
            let t = (r * 10 + d / 2) / d;
            &&& 0 <= t <= 10
            &&& (10 * bytes + d / 2) / d == 10 * q + t
        }),
{
    let q = bytes / d;
    let r = bytes % d;
    let h = d / 2;
    assert(bytes == q * d + r && 0 <= r < d) by (nonlinear_arith)
        requires d > 0, bytes >= 0, q == bytes / d, r == bytes % d;
    assert(0 <= h && 2 * h <= d) by (nonlinear_arith)
        requires d > 0, h == d / 2;
    let t = (r * 10 + h) / d;
    assert(0 <= t <= 10) by (nonlinear_arith)
        requires d > 0, 0 <= r < d, 0 <= h, 2 * h <= d, t == (r * 10 + h) / d;
    assert((10 * bytes + h) / d == 10 * q + t) by (nonlinear_arith)
        requires d > 0, bytes == q * d + r, t == (r * 10 + h) / d, 0 <= r, 0 <= h;
}

/// Formats a size for people, such as "512 B", "128 KB" or "4.2 MB".
pub fn format_bytes(bytes: u64) -> (label: String)
    ensures
        label@ == spec_format_bytes(bytes as nat),
{
    if bytes < 1024 {
        let mut label = decimal_string(bytes);
        label.append(" B");
        return label;
    }
    let mut divisor: u64 = 1;
    let mut unit: usize = 0;
    while bytes / divisor >= 1024 && unit < 4
        invariant
            unit <= 4,
            divisor as nat == pow1024(unit as nat),
            bytes >= 1024,
            bytes as nat >= pow1024(unit as nat),
        decreases 4 - unit,
    {
        proof {
            lemma_div_at_least(bytes as int, divisor as int);
        }
        divisor = divisor * 1024;
        unit += 1;
    }
    proof {
        lemma_div_at_least(bytes as int, divisor as int);
        assert(unit as nat == byte_unit(bytes as nat));
        lemma_tenths_split(bytes as int, divisor as int);
    }
    let mut whole = bytes / divisor;
    let mut tenth = ((bytes % divisor) * 10 + divisor / 2) / divisor;
    if tenth == 10 {
        whole = whole + 1;
        tenth = 0;
    }
    assert(whole as nat == size_tenths(bytes as nat) / 10);
    assert(tenth as nat == size_tenths(bytes as nat) % 10);
    let mut label = decimal_string(whole);
    if tenth != 0 {
        label.append(".");
        push_decimal(&mut label, tenth);
    }
    label.append(" ");
    label.append(unit_str(unit));
    label
}

/// The decimal notation of a number is made of digits and reads back as the
/// number.
pub proof fn lemma_decimal_reads_back(n: nat)
    ensures
        decimal(n).len() >= 1,
        forall|i: int| 0 <= i < decimal(n).len() ==> is_digit_in(#[trigger] decimal(n)[i], 10),
        digits_value(decimal(n), 10) == n,
    decreases n,
{
    let d = decimal(n);
    if n < 10 {
        assert(d.drop_last() =~= Seq::<char>::empty());
        assert(d.last() == digit_char(n));
        assert(digit_value(digit_char(n)) == n);
        assert(digits_value(d, 10) == digits_value(d.drop_last(), 10) * 10 + digit_value(d.last()));
    } else {
        lemma_decimal_reads_back(n / 10);
        let head = decimal(n / 10);
        assert(d.drop_last() =~= head);
        assert(d.last() == digit_char(n % 10));
        assert(digit_value(digit_char(n % 10)) == n % 10);
        assert forall|i: int| 0 <= i < d.len() implies is_digit_in(#[trigger] d[i], 10) by {
            if i < head.len() {
                assert(d[i] == head[i]);
            }
        }
        assert(digits_value(d, 10) == digits_value(d.drop_last(), 10) * 10 + digit_value(d.last()));
        assert(digits_value(head, 10) * 10 + n % 10 == n);
    }
}

/// A size under 1 KB is shown in bytes: its label is the byte count, in
/// decimal digits that read back as the size, then a space and "B".
pub proof fn lemma_small_sizes_in_bytes(bytes: nat)
    requires
        bytes < 1024,
    ensures
        ({
            let label = spec_format_bytes(bytes);
            let digits = label.take(label.len() - 2);
            &&& label.len() >= 3
            &&& label.subrange(label.len() - 2, label.len() as int) == seq![' ', 'B']
            &&& forall|i: int| 0 <= i < digits.len() ==> is_digit_in(#[trigger] digits[i], 10)
            &&& digits_value(digits, 10) == bytes
        }),
{
    let label = spec_format_bytes(bytes);
    lemma_decimal_reads_back(bytes);
    reveal_strlit(" B");
    assert(label =~= decimal(bytes) + seq![' ', 'B']);
    assert(label.take(label.len() - 2) =~= decimal(bytes));
    assert(label.subrange(label.len() - 2, label.len() as int) =~= seq![' ', 'B']);
}

/// A size of 1 KB or more is shown as the nearest tenth of its unit:
/// the shown number of tenths, times a tenth of the unit, is within half a
/// tenth of the size.
pub proof fn lemma_format_bytes_rounds_to_nearest_tenth(bytes: nat)
    requires
        bytes >= 1024,
    ensures
        ({
            let d = pow1024(byte_unit(bytes)) as int;
            let t = size_tenths(bytes) as int;
            &&& 2 * t * d <= 20 * bytes + d
            &&& 20 * bytes + d < 2 * t * d + 2 * d
            &&& pow1024(byte_unit(bytes)) <= bytes
            &&& (byte_unit(bytes) < 4 ==> bytes < 1024 * pow1024(byte_unit(bytes)))
        }),
{
    let d = pow1024(byte_unit(bytes)) as int;
    let t = size_tenths(bytes) as int;
    let x = 10 * bytes + d / 2;
    assert(t * d <= x < t * d + d) by (nonlinear_arith)
        requires d > 0, x >= 0, t == x / d;
    assert(2 * (d / 2) <= d && d <= 2 * (d / 2) + 1) by (nonlinear_arith)
        requires d > 0;
    if d == 1 {
        assert(false);
    }
    assert(d % 2 == 0);
    assert(2 * (d / 2) == d);
    assert(2 * t * d <= 2 * x) by (nonlinear_arith)
        requires t * d <= x;
    assert(2 * x < 2 * t * d + 2 * d) by (nonlinear_arith)
        requires x < t * d + d;
}

/// "1 item" or "N items".
pub open spec fn spec_item_count_label(count: nat) -> Seq<char> {
    if count == 1 { "1 item"@ } else { decimal(count) + " items"@ }
}

pub fn item_count_label(count: u64) -> (label: String)
    ensures
        label@ == spec_item_count_label(count as nat),
{
    if count == 1 {
        return String::from_str("1 item");
    }
    let mut label = decimal_string(count);
    label.append(" items");
    label
}

/// The size column: the item count of a folder, the size of anything else,
/// and a dash while unknown.
pub open spec fn spec_size_label(entry: FileEntry) -> Seq<char> {
    if entry.kind == FileKind::Directory {
        match entry.metadata {
            Some(m) => match m.child_count {
                Some(count) => spec_item_count_label(count as nat),
                None => "—"@,
            },
            None => "—"@,
        }
    } else {
        match entry.metadata {
            Some(m) => spec_format_bytes(m.len as nat),
            None => "—"@,
        }
    }
}

pub fn size_label(entry: &FileEntry) -> (label: String)
    ensures
        label@ == spec_size_label(*entry),
{
    if entry.kind == FileKind::Directory {
        match &entry.metadata {
            Some(m) => match m.child_count {
                Some(count) => item_count_label(count),
                None => String::from_str("—"),
            },
            None => String::from_str("—"),
        }
    } else {
        match &entry.metadata {
            Some(m) => format_bytes(m.len),
            None => String::from_str("—"),
        }
    }
}

/// The icon shown for a device of the given kind.
pub open spec fn spec_device_icon(kind: DeviceKind) -> &'static str {
    match kind {
        DeviceKind::Usb => "icons/device-usb.svg",
        _ => "icons/device-drive.svg",
    }
}

/// Every device icon is a built-in asset.
pub proof fn lemma_device_icon_is_asset(kind: DeviceKind)
    ensures
        crate::assets::spec_asset_paths().contains(spec_device_icon(kind)),
{
    let a = crate::assets::spec_asset_paths();
    assert(a[22] == "icons/device-usb.svg");
    assert(a[23] == "icons/device-drive.svg");
}

pub fn device_icon(kind: DeviceKind) -> (icon: &'static str)
    ensures
        icon == spec_device_icon(kind),
{
    match kind {
        DeviceKind::Usb => "icons/device-usb.svg",
        DeviceKind::SolidState | DeviceKind::HardDisk | DeviceKind::Other => "icons/device-drive.svg",
    }
}

/// "X free of Y" when the free space is known, else the size, noting a device
/// that is not mounted.
pub open spec fn spec_device_capacity_label(device: DeviceEntry) -> Seq<char> {
    match device.available {
        Some(available) => spec_format_bytes(available as nat) + " free of "@ + spec_format_bytes(device.size as nat),
        None => if device.mount_path is None {
            "Not mounted · "@ + spec_format_bytes(device.size as nat)
        } else {
            spec_format_bytes(device.size as nat)
        },
    }
}

pub fn device_capacity_label(device: &DeviceEntry) -> (label: String)
    ensures
        label@ == spec_device_capacity_label(*device),
{
    match device.available {
        Some(available) => {
            let mut label = format_bytes(available);
            label.append(" free of ");
            let size = format_bytes(device.size);
            label.append(size.as_str());
            label
        },
        None => if device.mount_path.is_none() {
            let mut label = String::from_str("Not mounted · ");
            let size = format_bytes(device.size);
            label.append(size.as_str());
            label
        } else {
            format_bytes(device.size)
        },
    }
}

/// A column heading, with an arrow for the sort direction on the sorted column.
pub open spec fn spec_sort_label(label: Seq<char>, field: SortField, sort: SortSpec) -> Seq<char> {
    if sort.field != field {
        label
    } else {
        label + (match sort.direction {
            SortDirection::Ascending => " ↑"@,
            SortDirection::Descending => " ↓"@,
        })
    }
}

pub fn sort_label(label: &'static str, field: SortField, sort: SortSpec) -> (text: String)
    ensures
        text@ == spec_sort_label(label@, field, sort),
{
    let mut text = String::from_str(label);
    if sort.field != field {
        return text;
    }
    match sort.direction {
        SortDirection::Ascending => text.append(" ↑"),
        SortDirection::Descending => text.append(" ↓"),
    }
    text
}

/// The appearance to draw in: the forced one, or the system's.
pub open spec fn spec_resolve_theme_appearance(mode: ThemeMode, system: ThemeAppearance) -> ThemeAppearance {
    match mode {
        ThemeMode::Light => ThemeAppearance::Light,
        ThemeMode::Dark => ThemeAppearance::Dark,
        ThemeMode::System => system,
    }
}

pub fn resolve_theme_appearance(mode: ThemeMode, system_appearance: ThemeAppearance) -> (appearance: ThemeAppearance)
    ensures
        appearance == spec_resolve_theme_appearance(mode, system_appearance),
{
    match mode {
        ThemeMode::Light => ThemeAppearance::Light,
        ThemeMode::Dark => ThemeAppearance::Dark,
        ThemeMode::System => system_appearance,
    }
}

/// An explicit theme mode always wins over the system appearance, and
/// the system mode always follows it.
pub proof fn lemma_explicit_mode_overrides_system(system: ThemeAppearance)
    ensures
        spec_resolve_theme_appearance(ThemeMode::Light, system) == ThemeAppearance::Light,
        spec_resolve_theme_appearance(ThemeMode::Dark, system) == ThemeAppearance::Dark,
        spec_resolve_theme_appearance(ThemeMode::System, system) == system,
{
}

/// The theme appearance matching a window's appearance.
pub fn window_theme_appearance(appearance: WindowAppearance) -> (theme: ThemeAppearance)
    ensures
        theme == (match appearance {
            WindowAppearance::Light | WindowAppearance::VibrantLight => ThemeAppearance::Light,
            WindowAppearance::Dark | WindowAppearance::VibrantDark => ThemeAppearance::Dark,
        }),
{
    match appearance {
        WindowAppearance::Light | WindowAppearance::VibrantLight => ThemeAppearance::Light,
        WindowAppearance::Dark | WindowAppearance::VibrantDark => ThemeAppearance::Dark,
    }
}

/// The theme names chosen for each appearance.
#[derive(Clone, Debug, PartialEq, Eq)]
pub struct ThemeSettings {
    pub theme: ThemeMode,
    pub light_theme: String,
    pub dark_theme: String,
}

/// The name of the theme chosen for an appearance.
pub fn selected_theme_name(settings: &ThemeSettings, appearance: ThemeAppearance) -> (name: &str)
    ensures
        name@ == (match appearance {
            ThemeAppearance::Light => settings.light_theme@,
            ThemeAppearance::Dark => settings.dark_theme@,
        }),
{
    match appearance {
        ThemeAppearance::Light => settings.light_theme.as_str(),
        ThemeAppearance::Dark => settings.dark_theme.as_str(),
    }
}

/// The most results a file search lists.
pub const FILE_SEARCH_RESULT_LIMIT: usize = 80;

/// The status line of a file search: searching, the number of results, or
/// "80+ results" when the limit was reached.
pub open spec fn spec_file_search_status(loading: bool, result_count: nat) -> Seq<char> {
    if loading {
        "Searching…"@
    } else if result_count == FILE_SEARCH_RESULT_LIMIT {
        decimal(FILE_SEARCH_RESULT_LIMIT as nat) + "+ results"@
    } else {
        decimal(result_count) + " results"@
    }
}

pub fn file_search_status(loading: bool, result_count: usize) -> (status: String)
    ensures
        status@ == spec_file_search_status(loading, result_count as nat),
{
    if loading {
        String::from_str("Searching…")
    } else if result_count == FILE_SEARCH_RESULT_LIMIT {
        let mut status = decimal_string(FILE_SEARCH_RESULT_LIMIT as u64);
        status.append("+ results");
        status
    } else {
        let mut status = decimal_string(result_count as u64);
        status.append(" results");
        status
    }
}

/// What an empty folder listing says: its title and the line under it.
pub open spec fn spec_empty_listing_message(loading: bool, failed: bool) -> (Seq<char>, Seq<char>) {
    if loading {
        ("Opening folder…"@, ""@)
    } else if failed {
        ("Could not read this folder"@, ""@)
    } else {
        ("This folder is quiet"@, "Drop or create a file to get started."@)
    }
}

/// What an empty folder listing says, while it loads, after it failed, or
/// when the folder is empty.
pub fn empty_listing_message(loading: bool, failed: bool) -> (message: (&'static str, &'static str))
    ensures
        (message.0@, message.1@) == spec_empty_listing_message(loading, failed),
{
    if loading {
        ("Opening folder…", "")
    } else if failed {
        ("Could not read this folder", "")
    } else {
        ("This folder is quiet", "Drop or create a file to get started.")
    }
}

/// What an empty trash listing says: its title and the line under it.
pub fn empty_trash_message(loading: bool) -> (message: (&'static str, &'static str))
    ensures
        message.0@ == if loading {
            "Reading Trash…"@
        } else {
            "Trash is empty"@
        },
        message.1@ == "Deleted items from available devices appear together here."@,
{
    let title = if loading {
        "Reading Trash…"
    } else {
        "Trash is empty"
    };
    (title, "Deleted items from available devices appear together here.")
}

/// The number of rows a grid of `count` cards takes, `columns` to a row.
pub fn grid_row_count(count: usize, columns: usize) -> (rows: usize)
    requires
        columns > 0,
    ensures
        rows == (count + columns - 1) / (columns as int),
{
    let whole = count / columns;
    if count % columns == 0 {
        proof {
            vstd::arithmetic::div_mod::lemma_fundamental_div_mod(count as int, columns as int);
            vstd::arithmetic::div_mod::lemma_fundamental_div_mod_converse(
                count + columns - 1,
                columns as int,
                whole as int,
                columns - 1,
            );
        }
        whole
    } else {
        proof {
            vstd::arithmetic::div_mod::lemma_fundamental_div_mod(count as int, columns as int);
            let r = count as int % columns as int;
            let w = whole as int;
            let c = columns as int;
            assert(count == c * w + r);
            assert(0 < r < c);
            assert(count + c - 1 == c * (w + 1) + (r - 1)) by (nonlinear_arith)
                requires
                    count == c * w + r,
            ;
            assert(w < usize::MAX) by (nonlinear_arith)
                requires
                    count == c * w + r,
                    c >= 2,
                    r > 0,
                    count <= usize::MAX,
                    w >= 0,
            ;
            vstd::arithmetic::div_mod::lemma_fundamental_div_mod_converse(
                count + columns - 1,
                columns as int,
                whole + 1,
                r - 1,
            );
        }
        whole + 1
    }
}

} // verus!

use chrono::{DateTime, Local};
use std::collections::hash_map::DefaultHasher;
use std::hash::{Hash, Hasher};
use std::path::Path;
use vstd::prelude::*;

use crate::assets::spec_asset_paths;
use crate::model::{spec_directory_like, FileEntry, FileKind, FileMetadata};
use crate::paths::{file_name, spec_file_name};
use crate::labels::decimal;
use crate::text::{same_text, spec_to_ascii_lowercase, to_ascii_lowercase};

verus! {

/// The place of the last `c` in `s`, or -1 when there is none.
pub open spec fn last_index_of(s: Seq<char>, c: char) -> int
    decreases s.len(),
{
    if s.len() == 0 {
        -1
    } else if s.last() == c {
        s.len() - 1
    } else {
        last_index_of(s.drop_last(), c)
    }
}

pub(crate) proof fn lemma_last_index_bounds(s: Seq<char>, c: char)
    ensures
        -1 <= last_index_of(s, c) < s.len(),
        last_index_of(s, c) >= 0 ==> s[last_index_of(s, c)] == c,
    decreases s.len(),
{
    if s.len() > 0 && s.last() != c {
        lemma_last_index_bounds(s.drop_last(), c);
    }
}

/// The extension of a file name, as `Path::extension` reads it: the text after
/// the last '.', unless the name is "..", has no '.', or its only '.' leads it.
pub open spec fn name_extension(name: Seq<char>) -> Option<Seq<char>> {
    let i = last_index_of(name, '.');
    if name == seq!['.', '.'] || i <= 0 {
        None
    } else {
        Some(name.subrange(i + 1, name.len() as int))
    }
}

/// The extension of a path's final name.
pub open spec fn path_extension(path: Seq<char>) -> Option<Seq<char>> {
    match spec_file_name(path) {
        Some(name) => name_extension(name),
        None => None,
    }
}

/// The icon of a file by its extension, given in lower case.
pub open spec fn extension_icon(ext: Seq<char>) -> &'static str {
    if ext == "rs"@ || ext == "js"@ || ext == "jsx"@ || ext == "ts"@ || ext == "tsx"@ || ext == "py"@ || ext == "go"@ || ext == "c"@ || ext == "cc"@ || ext == "cpp"@ || ext == "h"@ || ext == "hpp"@ || ext == "java"@ || ext == "kt"@ || ext == "lua"@ || ext == "sh"@ || ext == "fish"@ || ext == "nix"@ || ext == "toml"@ || ext == "json"@ || ext == "yaml"@ || ext == "yml"@ {
        "icons/file-code.svg"
    } else if ext == "txt"@ || ext == "md"@ || ext == "markdown"@ || ext == "rst"@ || ext == "log"@ || ext == "csv"@ {
        "icons/file-text.svg"
    } else if ext == "png"@ || ext == "jpg"@ || ext == "jpeg"@ || ext == "gif"@ || ext == "webp"@ || ext == "avif"@ || ext == "svg"@ || ext == "bmp"@ || ext == "tif"@ || ext == "tiff"@ || ext == "ico"@ {
        "icons/file-image.svg"
    } else if ext == "pdf"@ || ext == "doc"@ || ext == "docx"@ || ext == "odt"@ || ext == "rtf"@ || ext == "epub"@ {
        "icons/file-document.svg"
    } else if ext == "zip"@ || ext == "tar"@ || ext == "gz"@ || ext == "bz2"@ || ext == "xz"@ || ext == "zst"@ || ext == "7z"@ || ext == "rar"@ {
        "icons/file-archive.svg"
    } else if ext == "mp3"@ || ext == "flac"@ || ext == "wav"@ || ext == "ogg"@ || ext == "m4a"@ || ext == "mp4"@ || ext == "mkv"@ || ext == "webm"@ || ext == "mov"@ || ext == "avi"@ {
        "icons/file-media.svg"
    } else {
        "icons/file-generic.svg"
    }
}

/// The icon shown for an entry.
pub open spec fn spec_file_icon_asset(entry: FileEntry) -> &'static str {
    match entry.kind {
        FileKind::Directory => if entry.metadata matches Some(m) && m.readonly {
            "icons/folder-readonly.svg"
        } else {
            "icons/folder-closed.svg"
        },
        FileKind::Symlink if spec_directory_like(entry) => "icons/folder-symlink.svg",
        FileKind::File | FileKind::Symlink => extension_icon(
            spec_to_ascii_lowercase(
                match path_extension(entry.path@) {
                    Some(e) => e,
                    None => Seq::empty(),
                },
            ),
        ),
        FileKind::Other => "icons/file-generic.svg",
    }
}

/// Every icon that an entry can be shown with is a built-in asset, whatever
/// the entry's kind, name and metadata.
pub proof fn lemma_file_icon_is_asset(entry: FileEntry)
    ensures
        spec_asset_paths().contains(spec_file_icon_asset(entry)),
{
    let a = spec_asset_paths();
    assert(a[1] == "icons/folder-closed.svg");
    assert(a[4] == "icons/folder-symlink.svg");
    assert(a[5] == "icons/folder-readonly.svg");
    assert(a[12] == "icons/file-generic.svg");
    assert(a[13] == "icons/file-code.svg");
    assert(a[14] == "icons/file-text.svg");
    assert(a[15] == "icons/file-image.svg");
    assert(a[16] == "icons/file-document.svg");
    assert(a[17] == "icons/file-archive.svg");
    assert(a[18] == "icons/file-media.svg");
}

pub(crate) fn last_dot(name: &str) -> (i: usize)
    ensures
        i as int == last_index_of(name@, '.') + 1,
{
    let mut i = name.unicode_len();
    proof {
        assert(name@.take(i as int) =~= name@);
    }
    while i > 0
        invariant
            i <= name@.len(),
            last_index_of(name@, '.') == last_index_of(name@.take(i as int), '.'),
        decreases i,
    {
        if name.get_char(i - 1) == '.' {
            return i;
        }
        assert(name@.take(i as int - 1) =~= name@.take(i as int).drop_last());
        i -= 1;
    }
    i
}

fn icon_for_extension(ext: &str) -> (icon: &'static str)
    ensures
        icon == extension_icon(ext@),
{
    if same_text(ext, "rs") || same_text(ext, "js") || same_text(ext, "jsx") || same_text(ext, "ts") || same_text(ext, "tsx") || same_text(ext, "py") || same_text(ext, "go") || same_text(ext, "c") || same_text(ext, "cc") || same_text(ext, "cpp") || same_text(ext, "h") || same_text(ext, "hpp") || same_text(ext, "java") || same_text(ext, "kt") || same_text(ext, "lua") || same_text(ext, "sh") || same_text(ext, "fish") || same_text(ext, "nix") || same_text(ext, "toml") || same_text(ext, "json") || same_text(ext, "yaml") || same_text(ext, "yml") {
        "icons/file-code.svg"
    } else if same_text(ext, "txt") || same_text(ext, "md") || same_text(ext, "markdown") || same_text(ext, "rst") || same_text(ext, "log") || same_text(ext, "csv") {
        "icons/file-text.svg"
    } else if same_text(ext, "png") || same_text(ext, "jpg") || same_text(ext, "jpeg") || same_text(ext, "gif") || same_text(ext, "webp") || same_text(ext, "avif") || same_text(ext, "svg") || same_text(ext, "bmp") || same_text(ext, "tif") || same_text(ext, "tiff") || same_text(ext, "ico") {
        "icons/file-image.svg"
    } else if same_text(ext, "pdf") || same_text(ext, "doc") || same_text(ext, "docx") || same_text(ext, "odt") || same_text(ext, "rtf") || same_text(ext, "epub") {
        "icons/file-document.svg"
    } else if same_text(ext, "zip") || same_text(ext, "tar") || same_text(ext, "gz") || same_text(ext, "bz2") || same_text(ext, "xz") || same_text(ext, "zst") || same_text(ext, "7z") || same_text(ext, "rar") {
        "icons/file-archive.svg"
    } else if same_text(ext, "mp3") || same_text(ext, "flac") || same_text(ext, "wav") || same_text(ext, "ogg") || same_text(ext, "m4a") || same_text(ext, "mp4") || same_text(ext, "mkv") || same_text(ext, "webm") || same_text(ext, "mov") || same_text(ext, "avi") {
        "icons/file-media.svg"
    } else {
        "icons/file-generic.svg"
    }
}

impl FileEntry {
    /// The extension of the entry's file name, if it has one.
    pub fn extension(&self) -> (ext: Option<String>)
        ensures
            match ext {
                Some(e) => path_extension(self.path@) == Some(e@),
                None => path_extension(self.path@) is None,
            },
    {
        let name = match file_name(self.path.as_str()) {
            Some(name) => name,
            None => return None,
        };
        let n = name.unicode_len();
        let after = last_dot(name.as_str());
        proof {
            lemma_last_index_bounds(name@, '.');
        }
        if after <= 1 || (n == 2 && name.get_char(0) == '.' && name.get_char(1) == '.') {
            proof {
                if n == 2 && name@[0] == '.' && name@[1] == '.' {
                    assert(name@ =~= seq!['.', '.']);
                }
            }
            return None;
        }
        proof {
            if name@ == seq!['.', '.'] {
                assert(n == 2 && name@[0] == '.' && name@[1] == '.');
            }
        }
        Some(String::from_str(name.as_str().substring_char(after, n)))
    }
}

/// The icon asset shown for an entry: folders by their kind and whether they
/// are read-only, files by their extension in any letter case.
pub fn file_icon_asset(entry: &FileEntry) -> (icon: &'static str)
    ensures
        icon == spec_file_icon_asset(*entry),
{
    match entry.kind {
        FileKind::Directory => {
            if entry.metadata.is_some() && entry.metadata.unwrap().readonly {
                "icons/folder-readonly.svg"
            } else {
                "icons/folder-closed.svg"
            }
        },
        FileKind::Symlink if entry.is_directory_like() => "icons/folder-symlink.svg",
        FileKind::File | FileKind::Symlink => {
            let ext = match entry.extension() {
                Some(e) => e,
                None => String::new(),
            };
            let lower = to_ascii_lowercase(ext.as_str());
            icon_for_extension(lower.as_str())
        },
        FileKind::Other => "icons/file-generic.svg",
    }
}

/// What opening a listing entry does.
pub enum OpenTarget {
    /// Show the folder, within the current root.
    Navigate(String),
    /// Hand the file to the desktop's default application.
    Launch(String),
}

/// Opens an entry: folders, and symlinks to folders, are shown; anything
/// else is launched.
pub fn open_target(entry: &FileEntry) -> (target: OpenTarget)
    ensures
        match target {
            OpenTarget::Navigate(p) => spec_directory_like(*entry) && p@ == entry.path@,
            OpenTarget::Launch(p) => !spec_directory_like(*entry) && p@ == entry.path@,
        },
{
    if entry.is_directory_like() {
        OpenTarget::Navigate(entry.path.clone())
    } else {
        OpenTarget::Launch(entry.path.clone())
    }
}

/// An item in the trash, as the trash listing gives it.
pub struct TrashEntry {
    pub name: String,
    pub kind: FileKind,
    pub len: u64,
    /// The trash info file that records where the item came from.
    pub info_path: String,
    /// Where the item was before it was trashed.
    pub original_path: String,
}

/// A trash item shown as a listing entry: found by its info file, never
/// hidden, with its size and no other metadata.
pub fn trash_entry_as_file_entry(entry: &TrashEntry) -> (file: FileEntry)
    ensures
        file.path@ == entry.info_path@,
        file.name@ == entry.name@,
        file.kind == entry.kind,
        !file.hidden,
        file.metadata == Some(
            FileMetadata {
                len: entry.len,
                child_count: None,
                mode: None,
                readonly: false,
                symlink_target_kind: None,
                modified_unix_ms: None,
            },
        ),
{
    FileEntry {
        path: entry.info_path.clone(),
        name: entry.name.clone(),
        kind: entry.kind,
        hidden: false,
        metadata: Some(
            FileMetadata {
                len: entry.len,
                child_count: None,
                mode: None,
                readonly: false,
                symlink_target_kind: None,
                modified_unix_ms: None,
            },
        ),
    }
}

/// The hash that std's `DefaultHasher::new()` gives a path. Its keys are fixed,
/// so equal paths hash alike in every process built with one toolchain.
pub uninterp spec fn default_path_hash(path: Seq<char>) -> u64;

/// `Path::hash` into a fresh `DefaultHasher` of std, then `finish`.
/// Claimed: the result is `default_path_hash` of the path text.
#[verifier::external_body]
fn hash_path(path: &str) -> (hash: u64)
    ensures
        hash == default_path_hash(path@),
{
    let mut hasher = DefaultHasher::new();
    Path::new(path).hash(&mut hasher);
    hasher.finish()
}

/// An id for a path that stays the same for the same path.
pub fn stable_path_id(path: &str) -> (id: u64)
    ensures
        id == default_path_hash(path@),
{
    hash_path(path)
}

/// Within this many seconds of 1970, every timestamp has a calendar date.
pub const DATE_RANGE_SECONDS: i64 = 8000000000000;

/// Beyond this many seconds from 1970, no timestamp has a calendar date.
pub const NO_DATE_SECONDS: i64 = 8400000000000;

/// The pattern of a date with its year.
pub open spec fn long_date_pattern() -> Seq<char> {
    "%b %e, %Y %H:%M"@
}

/// The pattern of a date without its year.
pub open spec fn short_date_pattern() -> Seq<char> {
    "%b %e, %H:%M"@
}

/// The proleptic Gregorian date of a day counted from 1970-01-01 (day 0),
/// as year, month (1 to 12) and day of the month; year 0 comes before year 1.
pub open spec fn civil_date(days: int) -> (int, int, int) {
    let z = days + 719468;
    let era = z / 146097;
    let doe = z - era * 146097;
    let yoe = (doe - doe / 1460 + doe / 36524 - doe / 146096) / 365;
    let doy = doe - (365 * yoe + yoe / 4 - yoe / 100);
    let mp = (5 * doy + 2) / 153;
    let day = doy - (153 * mp + 2) / 5 + 1;
    let month = if mp < 10 {
        mp + 3
    } else {
        mp - 9
    };
    let year = yoe + era * 400 + if month <= 2 {
        1int
    } else {
        0int
    };
    (year, month, day)
}

/// The English abbreviation of a month.
pub open spec fn month_abbreviation(month: int) -> Seq<char> {
    if month == 1 {
        "Jan"@
    } else if month == 2 {
        "Feb"@
    } else if month == 3 {
        "Mar"@
    } else if month == 4 {
        "Apr"@
    } else if month == 5 {
        "May"@
    } else if month == 6 {
        "Jun"@
    } else if month == 7 {
        "Jul"@
    } else if month == 8 {
        "Aug"@
    } else if month == 9 {
        "Sep"@
    } else if month == 10 {
        "Oct"@
    } else if month == 11 {
        "Nov"@
    } else {
        "Dec"@
    }
}

/// A number below 100 in two places, a space in front of a single digit.
pub open spec fn two_spaced(n: nat) -> Seq<char> {
    if n < 10 {
        seq![' '] + decimal(n)
    } else {
        decimal(n)
    }
}

/// A number below 100 in two places, a zero in front of a single digit.
pub open spec fn two_zeroed(n: nat) -> Seq<char> {
    if n < 10 {
        seq!['0'] + decimal(n)
    } else {
        decimal(n)
    }
}

/// A number in at least four places, zeros in front.
pub open spec fn four_zeroed(n: nat) -> Seq<char> {
    if n < 10 {
        "000"@ + decimal(n)
    } else if n < 100 {
        "00"@ + decimal(n)
    } else if n < 1000 {
        "0"@ + decimal(n)
    } else {
        decimal(n)
    }
}

/// A year as `%Y` writes it: four places from 0 to 9999, otherwise a sign
/// and at least four places.
pub open spec fn year_text(year: int) -> Seq<char> {
    if 0 <= year <= 9999 {
        four_zeroed(year as nat)
    } else if year < 0 {
        seq!['-'] + four_zeroed((-year) as nat)
    } else {
        seq!['+'] + four_zeroed(year as nat)
    }
}

/// The wall-clock time `secs` seconds after 1970-01-01 00:00 written with the
/// long pattern (`%b %e, %Y %H:%M`) or, for any other, the short one
/// (`%b %e, %H:%M`).
pub open spec fn date_text(secs: int, pattern: Seq<char>) -> Seq<char> {
    let (year, month, day) = civil_date(secs / 86400);
    let of_day = secs % 86400;
    let clock = two_zeroed((of_day / 3600) as nat) + ":"@ + two_zeroed(((of_day % 3600) / 60) as nat);
    if pattern == long_date_pattern() {
        month_abbreviation(month) + " "@ + two_spaced(day as nat) + ", "@ + year_text(year) + " "@ + clock
    } else {
        month_abbreviation(month) + " "@ + two_spaced(day as nat) + ", "@ + clock
    }
}

/// The text of the UTC time `secs` shown in a time zone `offset` seconds
/// ahead of UTC.
pub open spec fn zoned_date_text(secs: int, offset: int, pattern: Seq<char>) -> Seq<char> {
    date_text(secs + offset, pattern)
}

/// Whether `text` is the time `secs` written with `pattern` in some time
/// zone: one whose offset from UTC is less than a day either way, as every
/// offset chrono knows is.
pub open spec fn local_text_of(secs: int, pattern: Seq<char>, text: Seq<char>) -> bool {
    exists|offset: int| -86400 < offset < 86400 && text == #[trigger] zoned_date_text(secs, offset, pattern)
}

/// Whether there is a text, and it is the time `secs` written with `pattern`
/// in some time zone.
pub open spec fn dated_text(secs: int, pattern: Seq<char>, text: Option<String>) -> bool {
    match text {
        Some(t) => local_text_of(secs, pattern, t@),
        None => false,
    }
}

/// chrono's `DateTime::from_timestamp(secs, 0)`, moved to the machine's time
/// zone with `with_timezone(&Local)` and written with `format(pattern)`.
/// Claimed: every timestamp within `DATE_RANGE_SECONDS` of 1970 has a text,
/// which is its wall-clock time (proleptic Gregorian, English month names)
/// in a zone whose offset from UTC is less than a day; none beyond
/// `NO_DATE_SECONDS` has one (chrono's dates end near the years -262143 and
/// 262142). Which zone, and so which offset, the machine uses is not stated.
#[verifier::external_body]
fn local_date_text(secs: i64, pattern: &str) -> (text: Option<String>)
    requires
        pattern@ == long_date_pattern() || pattern@ == short_date_pattern(),
    ensures
        -DATE_RANGE_SECONDS <= secs <= DATE_RANGE_SECONDS ==> dated_text(secs as int, pattern@, text),
        secs < -NO_DATE_SECONDS || secs > NO_DATE_SECONDS ==> text is None,
{
    DateTime::from_timestamp(secs, 0).map(|date| date.with_timezone(&Local).format(pattern).to_string())
}

/// When an item was put in the trash, as local time with the year, or
/// "Unknown" when the timestamp has no date.
pub fn deletion_label(timestamp: i64) -> (label: String)
    ensures
        -DATE_RANGE_SECONDS <= timestamp <= DATE_RANGE_SECONDS ==> local_text_of(
            timestamp as int,
            long_date_pattern(),
            label@,
        ),
        timestamp < -NO_DATE_SECONDS || timestamp > NO_DATE_SECONDS ==> label@ == "Unknown"@,
{
    proof {
        reveal_strlit("%b %e, %Y %H:%M");
    }
    match local_date_text(timestamp, "%b %e, %Y %H:%M") {
        Some(text) => text,
        None => String::from_str("Unknown"),
    }
}

/// Floor division of milliseconds into seconds.
pub open spec fn millis_to_seconds(ms: int) -> int {
    if ms >= 0 {
        ms / 1000
    } else {
        -((-ms + 999) / 1000)
    }
}

/// When an entry was last changed, as local time without the year, or "—"
/// when that is unknown or has no date.
pub fn modified_label(entry: &FileEntry) -> (label: String)
    ensures
        match entry.metadata {
            Some(m) => match m.modified_unix_ms {
                Some(ms) => {
                    &&& -DATE_RANGE_SECONDS <= millis_to_seconds(ms as int) <= DATE_RANGE_SECONDS ==> local_text_of(
                        millis_to_seconds(ms as int),
                        short_date_pattern(),
                        label@,
                    )
                    &&& millis_to_seconds(ms as int) < -NO_DATE_SECONDS || millis_to_seconds(ms as int)
                        > NO_DATE_SECONDS ==> label@ == "—"@
                },
                None => label@ == "—"@,
            },
            None => label@ == "—"@,
        },
{
    let ms = match entry.metadata {
        Some(m) => match m.modified_unix_ms {
            Some(ms) => ms,
            None => return String::from_str("—"),
        },
        None => return String::from_str("—"),
    };
    let secs: i64 = if ms >= 0 {
        ms / 1000
    } else {
        -((-(ms as i128) + 999) / 1000) as i64
    };
    proof {
        reveal_strlit("%b %e, %H:%M");
    }
    match local_date_text(secs, "%b %e, %H:%M") {
        Some(text) => text,
        None => String::from_str("—"),
    }
}

/// The place of the first entry at a path.
pub open spec fn first_index_at(entries: Seq<FileEntry>, path: Seq<char>) -> Option<int>
    decreases entries.len(),
{
    if entries.len() == 0 {
        None
    } else if crate::paths::same_path(entries[0].path@, path) {
        Some(0)
    } else {
        match first_index_at(entries.drop_first(), path) {
            Some(i) => Some(i + 1),
            None => None,
        }
    }
}

/// The place of the first entry at a path, as the cursor and the anchor of
/// the selection are found again after the listing is sorted.
pub fn entry_index(entries: &Vec<FileEntry>, path: &str) -> (index: Option<usize>)
    ensures
        match index {
            Some(i) => first_index_at(entries@, path@) == Some(i as int),
            None => first_index_at(entries@, path@) is None,
        },
{
    let mut i: usize = 0;
    assert(entries@.skip(0) =~= entries@);
    while i < entries.len()
        invariant
            i <= entries@.len(),
            first_index_at(entries@, path@) == match first_index_at(entries@.skip(i as int), path@) {
                Some(k) => Some(k + i),
                None => None,
            },
        decreases entries@.len() - i,
    {
        assert(entries@.skip(i as int)[0] == entries@[i as int]);
        if crate::paths::paths_equal(entries[i].path.as_str(), path) {
            return Some(i);
        }
        assert(entries@.skip(i as int).drop_first() =~= entries@.skip(i as int + 1));
        i += 1;
    }
    None
}

} // verus!

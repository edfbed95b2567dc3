use vstd::prelude::*;

use crate::keymap::{keymap_actions, spec_keymap_actions, string_pairs, KeymapActionDescriptor};
use crate::text::{contains_text, spec_to_ascii_lowercase, text_contains, to_ascii_lowercase};

verus! {

/// The pages of the preferences window.
#[derive(Clone, Copy, Debug, PartialEq, Eq, Structural)]
pub enum SettingsCategory {
    Appearance,
    Keymap,
    FileView,
    Performance,
}

impl Default for SettingsCategory {
    /// The preferences open on the appearance page.
    fn default() -> (category: Self)
        ensures
            category == SettingsCategory::Appearance,
    {
        SettingsCategory::Appearance
    }
}

/// A setting that the preferences search can find.
#[derive(Clone, Copy, Debug)]
pub struct SettingsItem {
    pub category: SettingsCategory,
    pub label: &'static str,
    pub description: &'static str,
}

/// The settings the preferences search looks through, in the order it lists them.
pub open spec fn spec_settings_items() -> Seq<SettingsItem> {
    seq![
        SettingsItem { category: SettingsCategory::Appearance, label: "Theme Mode", description: "Light, Dark, or System" },
        SettingsItem { category: SettingsCategory::Appearance, label: "Reduced Motion", description: "Minimize interface animation" },
        SettingsItem { category: SettingsCategory::Keymap, label: "Keymap & Controls", description: "Search and customize shortcuts" },
        SettingsItem { category: SettingsCategory::FileView, label: "Show Hidden Files", description: "Display hidden entries" },
        SettingsItem { category: SettingsCategory::FileView, label: "Hide Gitignored Files", description: "Filter ignored files" },
        SettingsItem { category: SettingsCategory::FileView, label: "Preview Panel", description: "Show file previews" },
        SettingsItem { category: SettingsCategory::FileView, label: "Auto-mount Removable Drives", description: "Mount external drives" },
        SettingsItem { category: SettingsCategory::Performance, label: "Worker Threads", description: "Background scan concurrency" },
        SettingsItem { category: SettingsCategory::Performance, label: "Preview Cache", description: "Memory used for previews" },
    ]
}

/// The settings the preferences search looks through.
pub fn settings_items() -> (items: &'static [SettingsItem])
    ensures
        items@ == spec_settings_items(),
{
    let items: &'static [SettingsItem] = &[
        SettingsItem { category: SettingsCategory::Appearance, label: "Theme Mode", description: "Light, Dark, or System" },
        SettingsItem { category: SettingsCategory::Appearance, label: "Reduced Motion", description: "Minimize interface animation" },
        SettingsItem { category: SettingsCategory::Keymap, label: "Keymap & Controls", description: "Search and customize shortcuts" },
        SettingsItem { category: SettingsCategory::FileView, label: "Show Hidden Files", description: "Display hidden entries" },
        SettingsItem { category: SettingsCategory::FileView, label: "Hide Gitignored Files", description: "Filter ignored files" },
        SettingsItem { category: SettingsCategory::FileView, label: "Preview Panel", description: "Show file previews" },
        SettingsItem { category: SettingsCategory::FileView, label: "Auto-mount Removable Drives", description: "Mount external drives" },
        SettingsItem { category: SettingsCategory::Performance, label: "Worker Threads", description: "Background scan concurrency" },
        SettingsItem { category: SettingsCategory::Performance, label: "Preview Cache", description: "Memory used for previews" },
    ];
    assert(items@ =~= spec_settings_items());
    items
}

/// Whether a setting matches a search query (trimmed and lower case): the
/// query occurs in its label and description, joined by a space, in lower case.
pub open spec fn setting_matches(query: Seq<char>) -> spec_fn(SettingsItem) -> bool {
    |item: SettingsItem| contains_text(spec_to_ascii_lowercase(item.label@ + " "@ + item.description@), query)
}

/// The preferences search lists a setting exactly when the query occurs,
/// ignoring ASCII case, in its label and description joined by a space; in
/// particular every setting whose label or whose description contains the
/// query is listed.
pub proof fn lemma_settings_search_finds(query: Seq<char>, item: SettingsItem)
    ensures
        spec_settings_items().filter(setting_matches(query)).contains(item) <==> spec_settings_items().contains(item)
            && contains_text(spec_to_ascii_lowercase(item.label@ + " "@ + item.description@), query),
        spec_settings_items().contains(item) && (contains_text(spec_to_ascii_lowercase(item.label@), query)
            || contains_text(spec_to_ascii_lowercase(item.description@), query))
            ==> spec_settings_items().filter(setting_matches(query)).contains(item),
{
    let all = spec_settings_items();
    let p = setting_matches(query);
    let joined = item.label@ + " "@ + item.description@;
    let lower = spec_to_ascii_lowercase(joined);
    let ll = spec_to_ascii_lowercase(item.label@);
    let ld = spec_to_ascii_lowercase(item.description@);
    let offset = item.label@.len() + " "@.len();
    assert(lower.subrange(0, ll.len() as int) =~= ll);
    assert(lower.subrange(offset as int, lower.len() as int) =~= ld);
    if contains_text(ll, query) {
        let i = choose|i: int| 0 <= i && i + query.len() <= ll.len() && #[trigger] ll.subrange(i, i + query.len()) == query;
        assert(lower.subrange(i, i + query.len()) =~= ll.subrange(i, i + query.len()));
    }
    if contains_text(ld, query) {
        let i = choose|i: int| 0 <= i && i + query.len() <= ld.len() && #[trigger] ld.subrange(i, i + query.len()) == query;
        assert(lower.subrange(offset + i, offset + i + query.len()) =~= ld.subrange(i, i + query.len()));
    }
    if all.filter(p).contains(item) {
        all.lemma_filter_contains_rev(p, item);
        let k = choose|k: int| 0 <= k < all.filter(p).len() && all.filter(p)[k] == item;
        all.lemma_filter_pred(p, k);
    }
    if all.contains(item) && p(item) {
        let k = choose|k: int| 0 <= k < all.len() && all[k] == item;
        all.lemma_filter_contains(p, k);
    }
}

/// The settings that match a search query, in listing order.
pub fn settings_search_results(query: &str) -> (found: Vec<SettingsItem>)
    ensures
        found@ == spec_settings_items().filter(setting_matches(query@)),
{
    let items = settings_items();
    let ghost all = spec_settings_items();
    let ghost keep = setting_matches(query@);
    let mut found: Vec<SettingsItem> = Vec::new();
    let mut i: usize = 0;
    while i < items.len()
        invariant
            items@ == all,
            keep == setting_matches(query@),
            i <= all.len(),
            found@ == all.take(i as int).filter(keep),
        decreases all.len() - i,
    {
        assert(all.take(i as int + 1) =~= all.take(i as int).push(all[i as int]));
        proof {
            all.take(i as int).lemma_filter_push(all[i as int], keep);
        }
        let item = items[i];
        let mut text = String::from_str(item.label);
        text.append(" ");
        text.append(item.description);
        let lower = to_ascii_lowercase(text.as_str());
        if text_contains(lower.as_str(), query) {
            found.push(item);
        }
        i += 1;
    }
    assert(all.take(i as int) =~= all);
    found
}

/// Whether a command matches a keymap search query (trimmed and lower case):
/// every command matches an empty query; otherwise the query occurs, in lower
/// case, in its label, description, category or id, or in the keys of one of
/// its effective bindings.
pub open spec fn command_matches(query: Seq<char>, effective: Seq<(Seq<char>, Seq<char>)>) -> spec_fn(
    KeymapActionDescriptor,
) -> bool {
    |d: KeymapActionDescriptor|
        query.len() == 0 || contains_text(spec_to_ascii_lowercase(d.label@), query) || contains_text(
            spec_to_ascii_lowercase(d.description@),
            query,
        ) || contains_text(spec_to_ascii_lowercase(d.category@), query) || contains_text(
            spec_to_ascii_lowercase(d.id@),
            query,
        ) || exists|i: int|
            0 <= i < effective.len() && (#[trigger] effective[i]).0 == d.id@ && contains_text(
                spec_to_ascii_lowercase(effective[i].1),
                query,
            )
}

fn lower_contains(text: &str, query: &str) -> (found: bool)
    ensures
        found == contains_text(spec_to_ascii_lowercase(text@), query@),
{
    let lower = to_ascii_lowercase(text);
    text_contains(lower.as_str(), query)
}

fn bound_keys_match(id: &str, query: &str, effective: &Vec<(String, String)>) -> (found: bool)
    ensures
        found == exists|i: int|
            0 <= i < effective@.len() && (#[trigger] string_pairs(effective@)[i]).0 == id@ && contains_text(
                spec_to_ascii_lowercase(string_pairs(effective@)[i].1),
                query@,
            ),
{
    let ghost es = string_pairs(effective@);
    let mut i: usize = 0;
    while i < effective.len()
        invariant
            es == string_pairs(effective@),
            i <= effective@.len(),
            forall|j: int|
                0 <= j < i ==> !((#[trigger] es[j]).0 == id@ && contains_text(spec_to_ascii_lowercase(es[j].1), query@)),
        decreases effective@.len() - i,
    {
        assert(es[i as int] == (effective@[i as int].0@, effective@[i as int].1@));
        if crate::text::same_text(effective[i].0.as_str(), id) && lower_contains(effective[i].1.as_str(), query) {
            return true;
        }
        i += 1;
    }
    false
}

/// The keymap search lists exactly the commands of the table that the query
/// finds: all of them for an empty query; otherwise those whose label,
/// description, category or id contains the query once lower-cased, or one of
/// whose effective bindings has keys that contain it.
pub proof fn lemma_keymap_search_finds(
    query: Seq<char>,
    effective: Seq<(Seq<char>, Seq<char>)>,
    d: KeymapActionDescriptor,
)
    ensures
        spec_keymap_actions().filter(command_matches(query, effective)).contains(d) <==> spec_keymap_actions().contains(d)
            && (query.len() == 0 || contains_text(spec_to_ascii_lowercase(d.label@), query) || contains_text(
            spec_to_ascii_lowercase(d.description@),
            query,
        ) || contains_text(spec_to_ascii_lowercase(d.category@), query) || contains_text(
            spec_to_ascii_lowercase(d.id@),
            query,
        ) || exists|i: int|
            0 <= i < effective.len() && (#[trigger] effective[i]).0 == d.id@ && contains_text(
                spec_to_ascii_lowercase(effective[i].1),
                query,
            )),
{
    let all = spec_keymap_actions();
    let p = command_matches(query, effective);
    if all.filter(p).contains(d) {
        all.lemma_filter_contains_rev(p, d);
        let k = choose|k: int| 0 <= k < all.filter(p).len() && all.filter(p)[k] == d;
        all.lemma_filter_pred(p, k);
    }
    if all.contains(d) && p(d) {
        let k = choose|k: int| 0 <= k < all.len() && all[k] == d;
        all.lemma_filter_contains(p, k);
    }
}

/// The commands that the keymap editor lists for a search query, in table
/// order; `effective` are the effective bindings, as command and keys.
pub fn keymap_search_results(query: &str, effective: &Vec<(String, String)>) -> (found: Vec<KeymapActionDescriptor>)
    ensures
        found@ == spec_keymap_actions().filter(command_matches(query@, string_pairs(effective@))),
{
    let table = keymap_actions();
    let ghost all = spec_keymap_actions();
    let ghost keep = command_matches(query@, string_pairs(effective@));
    let empty = query.unicode_len() == 0;
    let mut found: Vec<KeymapActionDescriptor> = Vec::new();
    let mut i: usize = 0;
    while i < table.len()
        invariant
            table@ == all,
            keep == command_matches(query@, string_pairs(effective@)),
            empty == (query@.len() == 0),
            i <= all.len(),
            found@ == all.take(i as int).filter(keep),
        decreases all.len() - i,
    {
        assert(all.take(i as int + 1) =~= all.take(i as int).push(all[i as int]));
        proof {
            all.take(i as int).lemma_filter_push(all[i as int], keep);
        }
        let d = table[i];
        if empty || lower_contains(d.label, query) || lower_contains(d.description, query) || lower_contains(
            d.category,
            query,
        ) || lower_contains(d.id, query) || bound_keys_match(d.id, query, effective) {
            found.push(d);
        }
        i += 1;
    }
    assert(all.take(i as int) =~= all);
    found
}

} // verus!

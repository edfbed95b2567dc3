use gnil_app::settings::{keymap_search_results, settings_search_results, SettingsCategory};
use gnil_app::text::{search_query, text_contains};

#[test]
fn queries_are_trimmed_and_lower_cased() {
    assert_eq!(search_query("  Hidden FILES \t"), "hidden files");
    assert_eq!(search_query("   "), "");
    assert!(text_contains("show hidden files", "hidden"));
    assert!(text_contains("abc", ""));
    assert!(!text_contains("ab", "abc"));
    assert!(text_contains("aab", "ab"));
}

#[test]
fn the_preferences_search_matches_labels_and_descriptions() {
    let found = settings_search_results(&search_query("Hidden"));
    let labels: Vec<&str> = found.iter().map(|item| item.label).collect();
    assert_eq!(labels, vec!["Show Hidden Files"]);
    assert_eq!(found[0].category, SettingsCategory::FileView);

    let found = settings_search_results("preview");
    let labels: Vec<&str> = found.iter().map(|item| item.label).collect();
    assert_eq!(labels, vec!["Preview Panel", "Preview Cache"]);

    assert_eq!(settings_search_results("motion dark").len(), 0);
    assert_eq!(settings_search_results("").len(), 9);
    assert_eq!(settings_search_results("files display").len(), 1);
    assert_eq!(SettingsCategory::default(), SettingsCategory::Appearance);
}

#[test]
fn the_keymap_search_matches_fields_and_effective_keys() {
    let none: Vec<(String, String)> = Vec::new();
    assert_eq!(keymap_search_results("", &none).len(), gnil_app::keymap::keymap_actions().len());
    let found = keymap_search_results("select all", &none);
    assert_eq!(found.iter().map(|d| d.id).collect::<Vec<_>>(), vec!["selection.all"]);

    let effective = vec![("selection.all".to_string(), "Ctrl-Shift-Q".to_string())];
    let found = keymap_search_results("ctrl-shift-q", &effective);
    assert_eq!(found.iter().map(|d| d.id).collect::<Vec<_>>(), vec!["selection.all"]);
    assert!(keymap_search_results("zzz-no-such", &effective).is_empty());
}

use gnil_app::keymap::{
    keymap_actions, KeymapBinding, KeymapBindingKind, KeymapCommand, KeymapCommit, KeymapOverrides, PreferencesWindow,
};

fn binding(action: &str, keys: &str, kind: KeymapBindingKind) -> KeymapBinding {
    KeymapBinding { action: action.into(), keystrokes: keys.into(), kind }
}

fn window(bindings: Vec<KeymapBinding>) -> PreferencesWindow {
    PreferencesWindow::new(KeymapOverrides { bindings }, None, false)
}

fn all_parse(window: &PreferencesWindow) -> Vec<bool> {
    vec![true; window.keymap_overrides.bindings.len()]
}

#[test]
fn keymap_table_lists_every_command_once_in_order() {
    let table = keymap_actions();
    assert_eq!(table.len(), 39);
    assert_eq!(table[0].id, "selection.next");
    assert_eq!(table[38].id, "settings.open_keymap");
    let descriptor = PreferencesWindow::keymap_descriptor("file.rename").expect("rename");
    assert_eq!(descriptor.label, "Rename");
    assert_eq!(descriptor.default_keys, &["f2"]);
    assert!(PreferencesWindow::keymap_descriptor("file.fly").is_none());
}

#[test]
fn default_entries_skip_commands_without_keys() {
    let entries = PreferencesWindow::default_keymap_entries();
    assert_eq!(entries.len(), 37);
    assert_eq!(entries[0], ("selection.next", "down"));
    assert!(entries.iter().all(|(action, _)| *action != "file.open_with"));
    assert!(entries.contains(&("settings.open_keymap", "ctrl-k ctrl-s")));
}

#[test]
fn effective_bindings_drop_unbound_defaults_and_add_valid_custom_ones() {
    let window = window(vec![
        binding("file.copy", "ctrl-c", KeymapBindingKind::Unbind),
        binding("file.copy", "ctrl-insert", KeymapBindingKind::Bind),
        binding("file.nothing", "ctrl-q", KeymapBindingKind::Bind),
    ]);
    let effective = window.effective_keymap_bindings(&all_parse(&window));
    assert_eq!(effective.len(), 37);
    assert!(!effective.contains(&("file.copy".to_owned(), "ctrl-c".to_owned())));
    assert_eq!(effective.last(), Some(&("file.copy".to_owned(), "ctrl-insert".to_owned())));
}

#[test]
fn keystrokes_that_do_not_parse_are_ignored_and_reported() {
    let keymap = KeymapOverrides {
        bindings: vec![
            binding("file.copy", "ctrl-insert", KeymapBindingKind::Bind),
            binding("file.copy", "", KeymapBindingKind::Bind),
            binding("file.paste", "bogus", KeymapBindingKind::Bind),
        ],
    };
    let message = PreferencesWindow::keymap_validation_message(&keymap, &vec![true, true, false]);
    assert_eq!(message.as_deref(), Some("Ignored 2 invalid or unsupported keymap bindings."));
    let one = KeymapOverrides { bindings: vec![binding("file.fly", "ctrl-y", KeymapBindingKind::Bind)] };
    assert_eq!(
        PreferencesWindow::keymap_validation_message(&one, &vec![true]).as_deref(),
        Some("Ignored 1 invalid or unsupported keymap binding.")
    );
    let none = KeymapOverrides { bindings: vec![binding("file.copy", "ctrl-insert", KeymapBindingKind::Bind)] };
    assert_eq!(PreferencesWindow::keymap_validation_message(&none, &vec![true]), None);
}

#[test]
fn collisions_include_chord_prefixes_of_other_commands_once() {
    let window = window(Vec::new());
    let parse = all_parse(&window);
    let collisions = window.keymap_collisions("file.copy", "ctrl-k", &parse);
    assert_eq!(collisions.len(), 1);
    assert_eq!(collisions[0].action, "settings.open_keymap");
    assert_eq!(collisions[0].keystrokes, "ctrl-k ctrl-s");
    assert!(window.keymap_collisions("file.copy", "ctrl-c", &parse).is_empty());
    let clash = window.keymap_collisions("file.paste", "ctrl-c", &parse);
    assert_eq!(clash.len(), 1);
    assert_eq!(clash[0].action, "file.copy");
}

#[test]
fn capture_builds_chords_and_escape_cancels() {
    let mut window = window(Vec::new());
    assert!(!window.capture_keymap_keystroke("ctrl-a"));
    window.begin_keymap_edit("file.copy", None);
    assert!(!window.capture_keymap_keystroke("ctrl-a"));
    window.toggle_keymap_capture();
    assert!(window.capture_keymap_keystroke("ctrl-k"));
    assert!(window.capture_keymap_keystroke("ctrl-x"));
    assert_eq!(window.keymap_edit.as_ref().map(|edit| edit.input.as_str()), Some("ctrl-k ctrl-x"));
    assert!(window.capture_keymap_keystroke("escape"));
    assert!(window.keymap_edit.is_none());
}

#[test]
fn committing_an_edit_binds_the_keys() {
    let mut window = window(Vec::new());
    window.begin_keymap_edit("file.copy", None);
    window.keymap_edit.as_mut().unwrap().input = "  Ctrl-Insert ".into();
    assert_eq!(window.pending_keymap_keystrokes().as_deref(), Some("ctrl-insert"));
    let parse = all_parse(&window);
    assert_eq!(window.commit_keymap_edit(true, &parse), KeymapCommit::Applied);
    assert!(window.keymap_edit.is_none());
    let bound = &window.keymap_overrides.bindings[0];
    assert_eq!((bound.action.as_str(), bound.keystrokes.as_str(), bound.kind), ("file.copy", "ctrl-insert", KeymapBindingKind::Bind));
}

#[test]
fn invalid_keystrokes_keep_the_edit_open() {
    let mut window = window(Vec::new());
    window.begin_keymap_edit("file.copy", None);
    let parse = all_parse(&window);
    assert_eq!(window.commit_keymap_edit(true, &parse), KeymapCommit::Invalid);
    assert_eq!(window.keymap_error.as_deref(), Some("Enter valid GPUI keystrokes, for example ctrl-k ctrl-s."));
    assert!(window.keymap_edit.is_some());
    assert_eq!(window.commit_keymap_edit(true, &parse), KeymapCommit::Invalid);
    window.cancel_keymap_edit();
    assert_eq!(window.commit_keymap_edit(true, &parse), KeymapCommit::NoEdit);
}

#[test]
fn conflicting_edit_waits_then_reassigns() {
    let mut window = window(Vec::new());
    window.begin_keymap_edit("file.paste", Some("ctrl-v".into()));
    window.keymap_edit.as_mut().unwrap().input = "ctrl-c".into();
    let parse = all_parse(&window);
    assert_eq!(window.commit_keymap_edit(true, &parse), KeymapCommit::Conflict);
    assert!(window.keymap_conflict.is_some());
    assert!(window.confirm_keymap_reassign());
    assert!(window.keymap_conflict.is_none());
    let views: Vec<(String, String, KeymapBindingKind)> = window
        .keymap_overrides
        .bindings
        .iter()
        .map(|b| (b.action.clone(), b.keystrokes.clone(), b.kind))
        .collect();
    assert_eq!(
        views,
        vec![
            ("file.copy".to_owned(), "ctrl-c".to_owned(), KeymapBindingKind::Unbind),
            ("file.paste".to_owned(), "ctrl-v".to_owned(), KeymapBindingKind::Unbind),
            ("file.paste".to_owned(), "ctrl-c".to_owned(), KeymapBindingKind::Bind),
        ]
    );
    assert!(!window.confirm_keymap_reassign());
}

#[test]
fn unbinding_custom_removes_it_and_default_is_recorded_once() {
    let mut window = window(vec![binding("file.copy", "ctrl-insert", KeymapBindingKind::Bind)]);
    window.unbind_keymap_binding("file.copy", "ctrl-insert", true);
    assert!(window.keymap_overrides.bindings.is_empty());
    window.unbind_keymap_binding("file.copy", "ctrl-c", false);
    window.unbind_keymap_binding("file.copy", "ctrl-c", false);
    assert_eq!(window.keymap_overrides.bindings.len(), 1);
    assert_eq!(window.keymap_overrides.bindings[0].kind, KeymapBindingKind::Unbind);
}

#[test]
fn resetting_clears_overrides() {
    let mut window = window(vec![
        binding("file.copy", "ctrl-insert", KeymapBindingKind::Bind),
        binding("file.paste", "ctrl-v", KeymapBindingKind::Unbind),
    ]);
    window.reset_keymap_action("file.copy");
    assert_eq!(window.keymap_overrides.bindings.len(), 1);
    assert_eq!(window.keymap_overrides.bindings[0].action, "file.paste");
    window.reset_all_keymap_overrides();
    assert!(window.keymap_overrides.bindings.is_empty());
}

#[test]
fn saving_and_reloading_report_their_outcome() {
    let mut window = window(vec![binding("file.fly", "ctrl-y", KeymapBindingKind::Bind)]);
    let normalized = || KeymapOverrides { bindings: vec![binding("file.fly", "ctrl-y", KeymapBindingKind::Bind)] };
    window.save_keymap_overrides(normalized(), Err("disk full".into()), &vec![true]);
    assert_eq!(window.keymap_error.as_deref(), Some("Could not save keymap: disk full"));
    window.save_keymap_overrides(normalized(), Ok(()), &vec![true]);
    assert_eq!(window.keymap_error.as_deref(), Some("Ignored 1 invalid or unsupported keymap binding."));
    window.reload_keymap_overrides(Err("missing".into()), &Vec::new());
    assert_eq!(window.keymap_error.as_deref(), Some("Could not reload keymap: missing"));
    window.reload_keymap_overrides(Ok(KeymapOverrides::default()), &Vec::new());
    assert_eq!(window.keymap_error, None);
    assert!(window.keymap_overrides.bindings.is_empty());
    window.save_and_apply_settings(true, Err("read-only".into()));
    assert_eq!(window.keymap_error.as_deref(), Some("Could not save settings: read-only"));
    assert!(window.reduced_motion);
    window.save_and_apply_settings(false, Ok(()));
    assert_eq!(window.keymap_error.as_deref(), Some("Could not save settings: read-only"));
    assert!(!window.reduced_motion);
}

#[test]
fn saving_keeps_the_normalized_overrides() {
    let mut window = window(vec![
        binding("file.copy", "ctrl-insert", KeymapBindingKind::Bind),
        binding("file.copy", "ctrl-insert", KeymapBindingKind::Bind),
    ]);
    let normalized = KeymapOverrides { bindings: vec![binding("file.copy", "ctrl-insert", KeymapBindingKind::Bind)] };
    window.save_keymap_overrides(normalized, Ok(()), &vec![true]);
    assert_eq!(window.keymap_overrides.bindings.len(), 1);
    assert_eq!(window.keymap_overrides.bindings[0].keystrokes, "ctrl-insert");
    assert_eq!(window.keymap_error, None);
}

#[test]
fn dismissing_settings_closes_an_edit_first() {
    let mut window = window(Vec::new());
    window.begin_keymap_edit("file.copy", None);
    assert!(!window.dismiss_settings());
    assert!(window.keymap_edit.is_none());
    assert!(window.dismiss_settings());
}

#[test]
fn bindings_name_their_command() {
    let binding = PreferencesWindow::binding_for_keymap_action("file.rename", "f2", "FileManager").expect("binding");
    assert_eq!(binding.command, KeymapCommand::OpenRename);
    assert_eq!(binding.keystrokes, "f2");
    assert_eq!(binding.context, "FileManager");
    assert!(PreferencesWindow::binding_for_keymap_action("file.fly", "f2", "FileManager").is_none());
}

#[test]
fn installed_bindings_follow_the_bindings_in_force() {
    let window = window(vec![
        binding("file.copy", "ctrl-c", KeymapBindingKind::Unbind),
        binding("file.copy", "ctrl-insert", KeymapBindingKind::Bind),
    ]);
    let bindings = window.keymap_key_bindings(&all_parse(&window));
    assert_eq!(bindings.len(), 37);
    assert!(bindings.iter().all(|b| b.context == "FileManager"));
    assert_eq!(bindings[0].command, KeymapCommand::SelectNext);
    let last = bindings.last().unwrap();
    assert_eq!((last.command, last.keystrokes.as_str()), (KeymapCommand::CopySelected, "ctrl-insert"));
    assert!(!bindings.iter().any(|b| b.command == KeymapCommand::CopySelected && b.keystrokes == "ctrl-c"));
}

#[test]
fn default_keys_match_the_documented_keyboard_table() {
    let entries = PreferencesWindow::default_keymap_entries();
    for (action, keys) in [
        ("selection.previous", "up"),
        ("selection.next", "down"),
        ("selection.previous_range", "shift-up"),
        ("selection.next_range", "shift-down"),
        ("selection.toggle", "ctrl-space"),
        ("file.open", "enter"),
        ("preview.toggle", "space"),
        ("navigation.back", "alt-left"),
        ("navigation.forward", "alt-right"),
        ("navigation.up", "alt-up"),
        ("view.toggle_hidden", "ctrl-h"),
        ("favorites.toggle", "ctrl-d"),
        ("view.refresh", "f5"),
        ("file.copy", "ctrl-c"),
        ("file.cut", "ctrl-x"),
        ("file.paste", "ctrl-v"),
        ("file.copy_path", "ctrl-shift-c"),
        ("file.copy_relative_path", "ctrl-alt-c"),
        ("file.rename", "f2"),
        ("file.create_symlink", "ctrl-shift-l"),
        ("file.set_permissions", "alt-enter"),
        ("file.extract", "ctrl-e"),
        ("file.extract_to", "ctrl-shift-e"),
        ("file.trash", "delete"),
        ("file.delete_permanently", "shift-delete"),
        ("file.undo", "ctrl-z"),
        ("appearance.toggle", "ctrl-shift-t"),
        ("settings.open_keymap", "ctrl-k ctrl-s"),
    ] {
        assert!(entries.contains(&(action, keys)), "{action} is bound to {keys}");
    }
}

#[test]
fn exactly_the_described_commands_can_be_bound() {
    for descriptor in keymap_actions() {
        assert!(PreferencesWindow::keymap_descriptor(descriptor.id).is_some());
        assert!(PreferencesWindow::binding_for_keymap_action(descriptor.id, "ctrl-k", "FileManager").is_some());
    }
    assert!(PreferencesWindow::keymap_descriptor("file.fly").is_none());
    assert!(PreferencesWindow::binding_for_keymap_action("file.fly", "ctrl-k", "FileManager").is_none());
}

#[test]
fn resetting_a_command_leaves_none_of_its_bindings() {
    let mut window = window(vec![
        binding("file.copy", "ctrl-insert", KeymapBindingKind::Bind),
        binding("file.copy", "ctrl-c", KeymapBindingKind::Unbind),
        binding("file.cut", "ctrl-k ctrl-x", KeymapBindingKind::Bind),
    ]);
    window.reset_keymap_action("file.copy");
    assert!(window.keymap_overrides.bindings.iter().all(|b| b.action != "file.copy"));
    let parse = all_parse(&window);
    let effective = window.effective_keymap_bindings(&parse);
    assert!(effective.contains(&("file.copy".to_string(), "ctrl-c".to_string())));
    assert!(!effective.contains(&("file.copy".to_string(), "ctrl-insert".to_string())));
}

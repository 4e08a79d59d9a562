use agiworkforce::shortcuts::{Shortcut, ShortcutsState};

fn shortcut(id: &str, key: &str) -> Shortcut {
    Shortcut {
        id: id.to_string(),
        key: key.to_string(),
        description: format!("{} shortcut", id),
        action: id.to_string(),
        enabled: true,
    }
}

fn ids(list: &[Shortcut]) -> Vec<String> {
    list.iter().map(|s| s.id.clone()).collect()
}

#[test]
fn defaults_are_five_distinct_shortcuts() {
    let defaults = ShortcutsState::get_defaults();
    assert_eq!(
        ids(&defaults),
        vec!["open_chat", "toggle_window", "new_composer", "voice_input", "quick_capture"]
    );
    assert_eq!(defaults[0].key, "CommandOrControl+K");
    assert_eq!(defaults[1].key, "CommandOrControl+Shift+Space");
    assert!(defaults.iter().all(|s| s.enabled && s.action == s.id));
    let state = ShortcutsState::default();
    assert_eq!(state.list().len(), 5);
    assert!(ShortcutsState::new().list().is_empty());
}

#[test]
fn register_then_lookup_and_key_in_use() {
    let mut state = ShortcutsState::new();
    assert!(!state.check_key(&"Ctrl+J".to_string()));
    state.register(shortcut("jump", "Ctrl+J"), false);
    assert!(state.check_key(&"Ctrl+J".to_string()));
    assert_eq!(ids(&state.list()), vec!["jump"]);
}

#[test]
fn register_same_id_replaces() {
    let mut state = ShortcutsState::with_defaults();
    state.register(shortcut("open_chat", "Ctrl+O"), true);
    let list = state.list();
    assert_eq!(list.len(), 5);
    assert_eq!(list[0].key, "Ctrl+O");
    assert!(!state.check_key(&"CommandOrControl+K".to_string()));
    assert!(state.check_key(&"Ctrl+O".to_string()));
}

#[test]
fn unregister_removes_and_reports() {
    let mut state = ShortcutsState::with_defaults();
    let removed = state.unregister(&"voice_input".to_string()).unwrap();
    assert_eq!(removed.key, "CommandOrControl+Shift+V");
    assert_eq!(state.list().len(), 4);
    assert!(!state.check_key(&"CommandOrControl+Shift+V".to_string()));
    assert!(state.unregister(&"voice_input".to_string()).is_none());
    assert!(state.unregister(&"missing".to_string()).is_none());
}

#[test]
fn update_changes_key_and_flag() {
    let mut state = ShortcutsState::with_defaults();
    let updated = state
        .update(&"open_chat".to_string(), Some("Ctrl+Alt+C".to_string()), Some(false))
        .unwrap();
    assert_eq!(updated.key, "Ctrl+Alt+C");
    assert!(!updated.enabled);
    assert_eq!(updated.description, "Open chat interface");
    let list = state.list();
    assert_eq!(list[0].key, "Ctrl+Alt+C");
    assert!(!list[0].enabled);

    let same = state.update(&"new_composer".to_string(), None, None).unwrap();
    assert_eq!(same.key, "CommandOrControl+Shift+N");
    assert!(same.enabled);
}

#[test]
fn update_unknown_is_an_error() {
    let mut state = ShortcutsState::new();
    let err = state
        .update(&"nope".to_string(), Some("Ctrl+N".to_string()), None)
        .unwrap_err();
    assert_eq!(err, "Shortcut not found");
    assert!(state.list().is_empty());
}

#[test]
fn reset_puts_back_the_defaults() {
    let mut state = ShortcutsState::new();
    state.register(shortcut("custom", "Ctrl+U"), false);
    let result = state.reset();
    assert_eq!(ids(&result), ids(&ShortcutsState::get_defaults()));
    assert!(!state.check_key(&"Ctrl+U".to_string()));
    assert_eq!(state.list().len(), 5);
}

#[test]
fn duplicate_copies_every_field() {
    let s = shortcut("x", "Ctrl+X");
    let d = s.duplicate();
    assert_eq!(d.id, s.id);
    assert_eq!(d.key, s.key);
    assert_eq!(d.description, s.description);
    assert_eq!(d.action, s.action);
    assert_eq!(d.enabled, s.enabled);
}

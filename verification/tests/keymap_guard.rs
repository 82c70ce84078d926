use keyboard_diag::keymap::{KeyMap, KeymapGuard};

fn sample_keymap() -> KeyMap {
    let mut keymap = KeyMap::new();
    keymap.add_key(
        "ESC".to_string(),
        vec!["ESC".to_string(), "TILDE".to_string()],
    );
    keymap.add_key("SPACE".to_string(), vec!["SPACE".to_string()]);
    keymap.add_key("FN".to_string(), vec![]);
    keymap
}

#[test]
fn neutral_keymap_replaces_every_scancode() {
    let keymap = sample_keymap();
    let neutral = keymap.neutralized();
    assert_eq!(neutral.len(), 3);
    assert_eq!(neutral.entries[0].logical_name, "ESC");
    assert_eq!(neutral.entries[0].scancodes, vec!["NONE", "NONE"]);
    assert_eq!(neutral.entries[1].logical_name, "SPACE");
    assert_eq!(neutral.entries[1].scancodes, vec!["NONE"]);
    assert_eq!(neutral.entries[2].logical_name, "FN");
    assert!(neutral.entries[2].scancodes.is_empty());
}

#[test]
fn guard_returns_the_captured_keymap() {
    let (guard, neutral) = KeymapGuard::engage(sample_keymap());
    assert_eq!(neutral.entries[0].scancodes, vec!["NONE", "NONE"]);
    let restored = guard.release();
    assert_eq!(restored.len(), 3);
    assert_eq!(restored.entries[0].logical_name, "ESC");
    assert_eq!(restored.entries[0].scancodes, vec!["ESC", "TILDE"]);
    assert_eq!(restored.entries[1].logical_name, "SPACE");
    assert_eq!(restored.entries[1].scancodes, vec!["SPACE"]);
    assert_eq!(restored.entries[2].logical_name, "FN");
    assert!(restored.entries[2].scancodes.is_empty());
}

#[test]
fn empty_keymap_round_trips() {
    let (guard, neutral) = KeymapGuard::engage(KeyMap::new());
    assert_eq!(neutral.len(), 0);
    let restored = guard.release();
    assert_eq!(restored.len(), 0);
    assert!(restored.entries.is_empty());
}

#[test]
fn lookup_finds_assigned_keys_only() {
    let keymap = sample_keymap();
    let codes = keymap
        .scancodes_for(&"ESC".to_string())
        .expect("ESC is assigned");
    assert_eq!(codes, &vec!["ESC".to_string(), "TILDE".to_string()]);
    assert!(keymap.scancodes_for(&"NO_SUCH_KEY".to_string()).is_none());
}

#[test]
fn write_batch_has_one_write_per_key_per_layer() {
    let keymap = sample_keymap();
    let names = vec![
        "ESC".to_string(),
        "UNKNOWN".to_string(),
        "SPACE".to_string(),
    ];
    let ops = keymap.write_ops(&names);
    assert_eq!(ops.len(), 3);
    assert_eq!(ops[0].logical_name, "ESC");
    assert_eq!(ops[0].layer, 0);
    assert_eq!(ops[0].code, "ESC");
    assert_eq!(ops[1].logical_name, "ESC");
    assert_eq!(ops[1].layer, 1);
    assert_eq!(ops[1].code, "TILDE");
    assert_eq!(ops[2].logical_name, "SPACE");
    assert_eq!(ops[2].layer, 0);
    assert_eq!(ops[2].code, "SPACE");
}

#[test]
fn neutral_write_batch_writes_the_sentinel() {
    let keymap = sample_keymap();
    let neutral = keymap.neutralized();
    let names = vec!["ESC".to_string(), "SPACE".to_string(), "FN".to_string()];
    let ops = neutral.write_ops(&names);
    assert_eq!(ops.len(), 3);
    for op in &ops {
        assert_eq!(op.code, "NONE");
    }
}

use keyboard_diag::keymap::KeyMap;
use keyboard_diag::livescan::{KeyState, LiveScanMode};
use keyboard_diag::overlay::ColorOverlay;
use keyboard_diag::runner::TestControls;

fn sample_keymap() -> KeyMap {
    let mut keymap = KeyMap::new();
    keymap.add_key("K1".to_string(), vec!["A".to_string()]);
    keymap
}

#[test]
fn pressed_key_is_marked_and_stop_restores() {
    // Scenario: one key at address (1,1) reported pressed marks (1,1) with
    // the active color; stop hands the keymap back and re-enables controls.
    let mut controls = TestControls::new();
    let mut overlay = ColorOverlay::new();
    let mut scan = LiveScanMode::new();

    let neutral = scan.start(sample_keymap(), &mut overlay, &mut controls);
    assert!(!controls.enabled());
    assert!(overlay.is_empty());
    assert_eq!(neutral.entries[0].scancodes, vec!["NONE"]);

    let keys = vec![
        KeyState { row: 0, col: 0, pressed: false },
        KeyState { row: 1, col: 1, pressed: true },
    ];
    scan.on_matrix_changed(&keys, &mut overlay);
    let color = overlay.get(1, 1).expect("pressed key should be marked");
    assert_eq!((color.r, color.g, color.b), (255, 0, 0));
    assert_eq!(overlay.get(0, 0), None);

    let restored = scan.stop(&mut controls).expect("a scan was active");
    assert!(controls.enabled());
    assert_eq!(restored.entries[0].logical_name, "K1");
    assert_eq!(restored.entries[0].scancodes, vec!["A"]);
}

#[test]
fn overlay_is_cleared_when_a_scan_starts() {
    let mut controls = TestControls::new();
    let mut overlay = ColorOverlay::new();
    let keys = vec![KeyState { row: 2, col: 3, pressed: true }];

    let mut scan = LiveScanMode::new();
    scan.start(sample_keymap(), &mut overlay, &mut controls);
    scan.on_matrix_changed(&keys, &mut overlay);
    assert!(overlay.get(2, 3).is_some());
    scan.stop(&mut controls);

    scan.start(sample_keymap(), &mut overlay, &mut controls);
    assert!(overlay.is_empty());
    assert_eq!(overlay.get(2, 3), None);
    scan.stop(&mut controls);
}

#[test]
fn release_does_not_unmark_a_key() {
    // The live visualization only adds marks; a key reported released
    // keeps its mark until the next scan clears the overlay.
    let mut controls = TestControls::new();
    let mut overlay = ColorOverlay::new();
    let mut scan = LiveScanMode::new();
    scan.start(sample_keymap(), &mut overlay, &mut controls);

    scan.on_matrix_changed(&vec![KeyState { row: 0, col: 1, pressed: true }], &mut overlay);
    assert!(overlay.get(0, 1).is_some());
    scan.on_matrix_changed(&vec![KeyState { row: 0, col: 1, pressed: false }], &mut overlay);
    assert!(overlay.get(0, 1).is_some());

    scan.stop(&mut controls);
}

#[test]
fn stop_without_a_scan_is_a_no_op() {
    let mut controls = TestControls::new();
    let mut scan = LiveScanMode::new();
    assert!(scan.stop(&mut controls).is_none());
    assert!(controls.enabled());

    let mut overlay = ColorOverlay::new();
    scan.start(sample_keymap(), &mut overlay, &mut controls);
    assert!(scan.stop(&mut controls).is_some());
    assert!(scan.stop(&mut controls).is_none());
    assert!(controls.enabled());
}

use vispeak::hotkeys::{
    can_start_recording, input_recently_active, is_hotkey_pressed, is_key_in_hotkey, is_modifier_key, key_to_string,
    parse_hotkey, virtual_key_code, HotkeyAction, HotkeyEngine, KeyCode,
};
use vispeak::pressed_keys::PressedKeys;

fn strings(parts: &[&str]) -> Vec<String> {
    parts.iter().map(|s| s.to_string()).collect()
}

#[test]
fn key_names() {
    assert_eq!(key_to_string(KeyCode::Alt), "AltLeft");
    assert_eq!(key_to_string(KeyCode::AltGr), "AltRight");
    assert_eq!(key_to_string(KeyCode::Return), "Enter");
    assert_eq!(key_to_string(KeyCode::KeyQ), "Q");
    assert_eq!(key_to_string(KeyCode::Num7), "7");
    assert_eq!(key_to_string(KeyCode::F12), "F12");
}

#[test]
fn modifiers() {
    for m in ["ControlLeft", "ControlRight", "ShiftLeft", "ShiftRight", "AltLeft", "AltRight", "MetaLeft", "MetaRight"] {
        assert!(is_modifier_key(m));
    }
    assert!(!is_modifier_key("Control"));
    assert!(!is_modifier_key("Space"));
}

#[test]
fn hotkey_parsing() {
    assert_eq!(parse_hotkey("Control+Space"), strings(&["Control", "Space"]));
    assert_eq!(parse_hotkey("Escape"), strings(&["Escape"]));
    assert_eq!(parse_hotkey(""), strings(&[""]));
    assert_eq!(parse_hotkey("A++B"), strings(&["A", "", "B"]));
}

#[test]
fn key_membership() {
    let hk = strings(&["Control", "Space"]);
    assert!(is_key_in_hotkey("ControlLeft", &hk));
    assert!(is_key_in_hotkey("ControlRight", &hk));
    assert!(is_key_in_hotkey("Space", &hk));
    assert!(!is_key_in_hotkey("ShiftLeft", &hk));
    assert!(is_key_in_hotkey("Control", &hk));
}

#[test]
fn hotkey_matching() {
    let hk = strings(&["Control", "Space"]);
    let mut pressed = PressedKeys::new();
    assert!(!is_hotkey_pressed(&hk, &pressed));
    pressed.insert("ControlRight", 0);
    assert!(!is_hotkey_pressed(&hk, &pressed));
    pressed.insert("Space", 5);
    assert!(is_hotkey_pressed(&hk, &pressed));
    // An extra modifier spoils the match; an extra plain key does not.
    pressed.insert("ShiftLeft", 6);
    assert!(!is_hotkey_pressed(&hk, &pressed));
    pressed.remove("ShiftLeft");
    pressed.insert("A", 7);
    assert!(is_hotkey_pressed(&hk, &pressed));
    // An empty hotkey never matches.
    assert!(!is_hotkey_pressed(&Vec::new(), &pressed));
}

#[test]
fn pressed_keys_track_presses() {
    let mut p = PressedKeys::new();
    assert!(p.insert("A", 10));
    assert!(!p.insert("A", 20));
    assert!(p.contains("A"));
    assert_eq!(p.len(), 1);
    p.remove("A");
    assert!(!p.contains("A"));
    assert_eq!(p.len(), 0);
    p.remove("B");
    assert_eq!(p.len(), 0);
}

#[test]
fn stale_keys_are_found() {
    let mut p = PressedKeys::new();
    p.insert("ControlLeft", 1000);
    p.insert("Space", 2500);
    p.insert("A", 3999);
    let mut stale = p.stale_keys(None, 4000);
    stale.sort();
    assert_eq!(stale, strings(&["ControlLeft"]));
    let mut stale = p.stale_keys(Some("ControlLeft"), 6000);
    stale.sort();
    assert_eq!(stale, strings(&["Space"]));
    // The press time is refreshed by a repeated press.
    p.insert("ControlLeft", 5000);
    assert!(p.stale_keys(None, 6000).iter().all(|k| k != "ControlLeft"));
}

#[test]
fn toggle_mode_start_then_stop() {
    let mut e = HotkeyEngine::new("Control+Space", "Escape", false);
    assert_eq!(e.on_key_press("ControlLeft", 0), None);
    assert_eq!(e.on_key_press("Space", 10), Some(HotkeyAction::StartRecording));
    assert!(e.is_recording);
    // Auto-repeat of a held key does nothing.
    assert_eq!(e.on_key_press("Space", 20), None);
    assert_eq!(e.on_key_release("Space", 500), None);
    assert!(e.is_recording);
    assert_eq!(e.on_key_press("Space", 900), Some(HotkeyAction::StopRecording));
    assert!(!e.is_recording);
}

#[test]
fn cancel_hotkey_only_while_recording() {
    let mut e = HotkeyEngine::new("Control+Space", "Escape", false);
    assert_eq!(e.on_key_press("Escape", 0), None);
    e.on_key_release("Escape", 10);
    e.on_key_press("ControlLeft", 20);
    assert_eq!(e.on_key_press("Space", 30), Some(HotkeyAction::StartRecording));
    e.on_key_release("Space", 40);
    e.on_key_release("ControlLeft", 50);
    assert_eq!(e.on_key_press("Escape", 60), Some(HotkeyAction::CancelRecording));
    assert!(!e.is_recording);
}

#[test]
fn push_to_talk_release_stops() {
    let mut e = HotkeyEngine::new("Control+Space", "Escape", true);
    e.on_key_press("ControlLeft", 1000);
    assert_eq!(e.on_key_press("Space", 1000), Some(HotkeyAction::StartRecording));
    assert_eq!(e.record_start_ms, Some(1000));
    assert_eq!(e.on_key_release("Space", 2000), Some(HotkeyAction::StopRecording));
    assert!(!e.is_recording);
    // Releasing the other key afterwards does nothing more.
    assert_eq!(e.on_key_release("ControlLeft", 2100), None);
}

#[test]
fn default_settings_hold_and_release_dictates() {
    let s = vispeak::settings::Settings::default();
    let mut e = HotkeyEngine::new(&s.hotkey, &s.cancel_hotkey, s.push_to_talk);
    assert_eq!(e.on_key_press("ControlLeft", 1000), None);
    assert_eq!(e.on_key_press("Space", 1010), Some(HotkeyAction::StartRecording));
    assert_eq!(e.on_key_release("Space", 1500), Some(HotkeyAction::StopRecording));
    assert!(!e.is_recording);
}

#[test]
fn push_to_talk_quick_release_is_silent() {
    let mut e = HotkeyEngine::new("Control+Space", "Escape", true);
    e.on_key_press("ControlRight", 1000);
    assert_eq!(e.on_key_press("Space", 1000), Some(HotkeyAction::StartRecording));
    assert_eq!(e.on_key_release("ControlRight", 1299), Some(HotkeyAction::CancelRecordingSilently));
    let mut e = HotkeyEngine::new("Control+Space", "Escape", true);
    e.on_key_press("ControlRight", 1000);
    e.on_key_press("Space", 1000);
    assert_eq!(e.on_key_release("ControlRight", 1300), Some(HotkeyAction::StopRecording));
}

#[test]
fn push_to_talk_second_press_does_not_stop() {
    let mut e = HotkeyEngine::new("F9", "Escape", true);
    assert_eq!(e.on_key_press("F9", 0), Some(HotkeyAction::StartRecording));
    e.on_key_release("A", 5);
    assert!(e.is_recording);
}

#[test]
fn hotkey_settings_can_change() {
    let mut e = HotkeyEngine::new("Control+Space", "Escape", false);
    e.set_hotkey("F8");
    assert_eq!(e.hotkey, strings(&["F8"]));
    e.set_cancel_hotkey("Shift+Escape");
    assert_eq!(e.cancel_hotkey, strings(&["Shift", "Escape"]));
    assert_eq!(e.on_key_press("F8", 0), Some(HotkeyAction::StartRecording));
}

#[test]
fn stuck_keys_can_be_released() {
    let mut e = HotkeyEngine::new("Control+Space", "Escape", false);
    e.on_key_press("ControlLeft", 0);
    e.on_key_press("A", 0);
    e.release_keys(&strings(&["ControlLeft"]));
    assert!(!e.pressed.contains("ControlLeft"));
    assert!(e.pressed.contains("A"));
}

#[test]
fn virtual_key_codes() {
    assert_eq!(virtual_key_code("ControlLeft"), Some(0xA2));
    assert_eq!(virtual_key_code("MetaRight"), Some(0x5C));
    assert_eq!(virtual_key_code("Enter"), Some(0x0D));
    assert_eq!(virtual_key_code("F1"), Some(0x70));
    assert_eq!(virtual_key_code("F12"), Some(0x7B));
    assert_eq!(virtual_key_code("Q"), Some(0x51));
    assert_eq!(virtual_key_code("q"), Some(0x51));
    assert_eq!(virtual_key_code("7"), Some(0x37));
    assert_eq!(virtual_key_code("-"), None);
    assert_eq!(virtual_key_code("Control"), None);
    assert_eq!(virtual_key_code("é"), None);
}

#[test]
fn input_activity_window() {
    assert!(input_recently_active(10_000, 8_000));
    assert!(!input_recently_active(10_000, 7_000));
    // Across the wrap of the tick counter.
    assert!(input_recently_active(500, u32::MAX - 1000));
    assert!(!input_recently_active(5000, u32::MAX - 1000));
}

#[test]
fn recording_needs_a_downloaded_model() {
    assert!(can_start_recording(&Some("base".to_string()), true));
    assert!(!can_start_recording(&Some("base".to_string()), false));
    assert!(!can_start_recording(&None, true));
}

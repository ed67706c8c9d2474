use std::sync::{Arc, Mutex};

use whisperkey::hotkeys::{listener_step, parse_hotkey, HotkeyState, KeyEvent, KeySet, LogicalKey};

#[test]
fn test_parse_hotkey() {
    let hotkey = "Shift+Space";
    let parsed = parse_hotkey(hotkey);
    let mut expected = KeySet::new();
    expected.insert(LogicalKey::ShiftLeft);
    expected.insert(LogicalKey::Space);
    assert_eq!(parsed, expected);

    let hotkey = "Control+Alt+Enter";
    let parsed = parse_hotkey(hotkey);
    let mut expected = KeySet::new();
    expected.insert(LogicalKey::ControlLeft);
    expected.insert(LogicalKey::Alt);
    expected.insert(LogicalKey::Return);
    assert_eq!(parsed, expected);

    let hotkey = "Ctrl + Shift + Escape";
    let parsed = parse_hotkey(hotkey);
    let mut expected = KeySet::new();
    expected.insert(LogicalKey::ControlLeft);
    expected.insert(LogicalKey::ShiftLeft);
    expected.insert(LogicalKey::Escape);
    assert_eq!(parsed, expected);
}

#[test]
fn test_hotkey_listener_updates_state() {
    // The armed flags are published as one pair behind a lock; a reader
    // always sees a consistent pair.
    let state = Arc::new(Mutex::new(HotkeyState::new()));

    let _recording_hotkey = "Shift+Space";
    let _modifier_hotkey = "Control";

    {
        let mut state_lock = state.lock().unwrap();
        state_lock.is_recording = true;
        state_lock.is_post_processing = false;
    }

    {
        let state_lock = state.lock().unwrap();
        assert_eq!(
            *state_lock,
            HotkeyState { is_recording: true, is_post_processing: false }
        );
    }

    {
        let mut state_lock = state.lock().unwrap();
        state_lock.is_post_processing = true;
    }

    {
        let state_lock = state.lock().unwrap();
        assert_eq!(
            *state_lock,
            HotkeyState { is_recording: true, is_post_processing: true }
        );
    }
}

#[test]
fn parse_is_idempotent_and_order_independent() {
    let a = parse_hotkey("Shift+Space");
    let b = parse_hotkey("Shift+Space");
    assert_eq!(a, b);

    let c = parse_hotkey("Space+Shift");
    assert_eq!(a, c);

    let d = parse_hotkey("Ctrl+Alt+Enter");
    let e = parse_hotkey("Enter + alt + CONTROL");
    assert_eq!(d, e);
}

#[test]
fn unrecognized_tokens_contribute_no_key() {
    let with_unknown = parse_hotkey("Shift+Hyper+Space");
    let without = parse_hotkey("Shift+Space");
    assert_eq!(with_unknown, without);

    let only_unknown = parse_hotkey("Hyper");
    assert!(only_unknown.is_empty());

    let empty = parse_hotkey("");
    assert!(empty.is_empty());
}

#[test]
fn listener_derives_both_flags_from_one_snapshot() {
    let recording = parse_hotkey("Shift+Space");
    let modifier = parse_hotkey("Control");
    let mut pressed = KeySet::new();

    let s = listener_step(
        &mut pressed,
        &KeyEvent::Press(LogicalKey::ShiftLeft),
        &recording,
        &modifier,
    );
    assert_eq!(s, HotkeyState { is_recording: false, is_post_processing: false });

    let s = listener_step(
        &mut pressed,
        &KeyEvent::Press(LogicalKey::Space),
        &recording,
        &modifier,
    );
    assert_eq!(s, HotkeyState { is_recording: true, is_post_processing: false });

    let s = listener_step(
        &mut pressed,
        &KeyEvent::Press(LogicalKey::ControlLeft),
        &recording,
        &modifier,
    );
    assert_eq!(s, HotkeyState { is_recording: true, is_post_processing: true });

    let s = listener_step(
        &mut pressed,
        &KeyEvent::Release(LogicalKey::Space),
        &recording,
        &modifier,
    );
    assert_eq!(s, HotkeyState { is_recording: false, is_post_processing: true });

    let s = listener_step(&mut pressed, &KeyEvent::Other, &recording, &modifier);
    assert_eq!(s, HotkeyState { is_recording: false, is_post_processing: true });
}

#[test]
fn empty_combo_is_vacuously_active() {
    let empty_combo = parse_hotkey("");
    let modifier = parse_hotkey("Control");
    let mut pressed = KeySet::new();
    let s = listener_step(&mut pressed, &KeyEvent::Other, &empty_combo, &modifier);
    assert!(s.is_recording);
    assert!(!s.is_post_processing);
}

#[test]
fn pressed_set_tracks_presses_and_releases() {
    let mut pressed = KeySet::new();
    assert!(pressed.is_empty());
    pressed.insert(LogicalKey::Alt);
    pressed.insert(LogicalKey::Alt);
    assert!(pressed.contains(LogicalKey::Alt));
    pressed.remove(LogicalKey::Alt);
    assert!(!pressed.contains(LogicalKey::Alt));
    assert!(pressed.is_empty());
}

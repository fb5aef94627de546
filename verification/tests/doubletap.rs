use taurophone::doubletap::check_double_tap;
use taurophone::doubletap::check_double_tap_at;
use taurophone::doubletap::handle_key_event;
use taurophone::doubletap::handle_modifier_change;
use taurophone::doubletap::is_target_keycode;
use taurophone::doubletap::plan_start;
use taurophone::doubletap::target_key_for;
use taurophone::doubletap::DoubleTapListener;
use taurophone::doubletap::DoubleTapState;
use taurophone::doubletap::Key;
use taurophone::doubletap::KeyEvent;
use taurophone::doubletap::StartPlan;
use taurophone::doubletap::TargetKey;
use taurophone::doubletap::DOUBLE_TAP_THRESHOLD_MS;
use taurophone::doubletap::DOUBLE_TAP_THRESHOLD_NANOS;
use taurophone::settings::HotkeyMode;

#[test]
fn test_double_tap_detection() {
    let mut state = DoubleTapState::default();

    // First press: no double tap yet
    assert!(!check_double_tap(&mut state, true, true));
    assert!(state.last_press.is_some());

    // Release
    check_double_tap(&mut state, false, true);
    assert!(!state.key_down);

    // Second press within threshold: double tap
    assert!(check_double_tap(&mut state, true, true));
    assert!(state.last_press.is_none());
}

#[test]
fn test_double_tap_timeout() {
    let mut state = DoubleTapState::default();

    check_double_tap(&mut state, true, true);
    check_double_tap(&mut state, false, true);

    // The first press lies 500 ms back
    state.last_press = Some(state.now_nanos() - 500 * 1_000_000);

    assert!(!check_double_tap(&mut state, true, true));
}

#[test]
fn test_non_target_key_ignored() {
    let mut state = DoubleTapState::default();
    assert!(!check_double_tap(&mut state, true, false));
    assert!(state.last_press.is_none());
}

#[test]
fn test_double_tap_threshold_is_reasonable() {
    assert!(DOUBLE_TAP_THRESHOLD_MS >= 200, "Threshold too short");
    assert!(DOUBLE_TAP_THRESHOLD_MS <= 800, "Threshold too long");
    assert_eq!(DOUBLE_TAP_THRESHOLD_NANOS, DOUBLE_TAP_THRESHOLD_MS as i128 * 1_000_000);
}

#[test]
fn quick_double_tap_at_fixed_times() {
    let mut state = DoubleTapState::new();
    assert!(!check_double_tap_at(&mut state, true, true, 1_000));
    assert_eq!(state.last_press, Some(1_000));
    assert!(!check_double_tap_at(&mut state, false, true, 50_000_000));
    assert!(check_double_tap_at(&mut state, true, true, 1_000 + 399_999_999));
    assert_eq!(state.last_press, None);
    assert!(state.key_down);
}

#[test]
fn second_press_exactly_at_threshold_restarts() {
    let mut state = DoubleTapState::new();
    check_double_tap_at(&mut state, true, true, 0);
    check_double_tap_at(&mut state, false, true, 10);
    assert!(!check_double_tap_at(&mut state, true, true, 400_000_000));
    assert_eq!(state.last_press, Some(400_000_000));
}

#[test]
fn third_quick_tap_does_not_toggle_again() {
    let mut state = DoubleTapState::new();
    check_double_tap_at(&mut state, true, true, 0);
    check_double_tap_at(&mut state, false, true, 1);
    assert!(check_double_tap_at(&mut state, true, true, 2));
    check_double_tap_at(&mut state, false, true, 3);
    assert!(!check_double_tap_at(&mut state, true, true, 4));
    assert_eq!(state.last_press, Some(4));
}

#[test]
fn held_key_repeat_is_ignored() {
    let mut state = DoubleTapState::new();
    check_double_tap_at(&mut state, true, true, 0);
    assert!(!check_double_tap_at(&mut state, true, true, 5));
    assert_eq!(state.last_press, Some(0));
    assert!(state.key_down);
}

#[test]
fn clock_goes_forward() {
    let state = DoubleTapState::new();
    let a = state.now_nanos();
    let mut b = state.now_nanos();
    while b < a + 1_000_000 {
        b = state.now_nanos();
    }
    assert!(a >= 0);
    assert!(b >= a + 1_000_000);
}

#[test]
fn key_events_for_each_target() {
    let mut state = DoubleTapState::new();
    assert!(!handle_key_event(&mut state, true, TargetKey::Ctrl, KeyEvent::Press(Key::ShiftLeft)));
    assert!(state.last_press.is_none());
    assert!(!handle_key_event(&mut state, true, TargetKey::Ctrl, KeyEvent::Press(Key::ControlLeft)));
    assert!(state.last_press.is_some());
    assert!(!handle_key_event(&mut state, true, TargetKey::Ctrl, KeyEvent::Release(Key::ControlLeft)));
    assert!(handle_key_event(&mut state, true, TargetKey::Ctrl, KeyEvent::Press(Key::ControlRight)));
}

#[test]
fn stopped_listener_ignores_events() {
    let mut state = DoubleTapState::new();
    assert!(!handle_key_event(&mut state, false, TargetKey::Super, KeyEvent::Press(Key::MetaLeft)));
    assert!(state.last_press.is_none());
    assert!(!handle_key_event(&mut state, true, TargetKey::Super, KeyEvent::Other));
    assert!(!state.key_down);
}

#[test]
fn mac_modifier_changes() {
    assert!(is_target_keycode(TargetKey::Shift, 0x38));
    assert!(is_target_keycode(TargetKey::Super, 0x36));
    assert!(!is_target_keycode(TargetKey::Ctrl, 0x37));
    let mut state = DoubleTapState::new();
    assert!(!handle_modifier_change(&mut state, true, TargetKey::Super, 0x37, true));
    assert!(!handle_modifier_change(&mut state, true, TargetKey::Super, 0x37, false));
    assert!(handle_modifier_change(&mut state, true, TargetKey::Super, 0x36, true));
    assert!(!handle_modifier_change(&mut state, true, TargetKey::Super, 0x00, true));
}

#[test]
fn start_plans() {
    assert_eq!(target_key_for(HotkeyMode::DoubleTapShift), Some(TargetKey::Shift));
    assert_eq!(target_key_for(HotkeyMode::KeyCombination), None);
    assert_eq!(
        plan_start(false, HotkeyMode::DoubleTapCtrl),
        StartPlan { mark_running: true, listen_for: Some(TargetKey::Ctrl) }
    );
    assert_eq!(
        plan_start(true, HotkeyMode::DoubleTapCtrl),
        StartPlan { mark_running: false, listen_for: None }
    );
    assert_eq!(
        plan_start(false, HotkeyMode::KeyCombination),
        StartPlan { mark_running: true, listen_for: None }
    );
}

#[test]
fn listener_start_and_stop() {
    let l = DoubleTapListener::new();
    assert!(!l.is_running());
    assert_eq!(l.start(HotkeyMode::DoubleTapSuper), Some(TargetKey::Super));
    assert!(l.is_running());
    assert!(l.running_flag().load(std::sync::atomic::Ordering::SeqCst));
    assert_eq!(l.start(HotkeyMode::DoubleTapSuper), None);
    l.stop();
    assert!(!l.is_running());
    assert_eq!(l.start(HotkeyMode::KeyCombination), None);
    assert!(l.is_running());
}

use taurophone::settings::default_hotkey;
use taurophone::settings::timestamp_from_reading;
use taurophone::settings::Timestamp;
use taurophone::settings::AppSettings;
use taurophone::settings::HotkeyMode;
use taurophone::settings::Platform;
use taurophone::settings::TranscriptionHistory;

#[test]
fn test_default_hotkey_on_linux() {
    assert_eq!(default_hotkey(Platform::Linux), "Ctrl+Shift+Space");
    assert_eq!(default_hotkey(Platform::MacOs), "Super+Shift+Space");
}

#[test]
fn test_default_settings_hotkey_matches_platform() {
    let settings = AppSettings::defaults_for(Platform::Linux);
    assert_eq!(settings.hotkey, default_hotkey(Platform::Linux));
    assert_eq!(settings.hotkey_mode, HotkeyMode::KeyCombination);
}

#[test]
fn test_history_add_entry() {
    let mut history = TranscriptionHistory::default();
    assert_eq!(history.entries.len(), 0);
    assert_eq!(history.next_id, 0);

    history.add_entry("Hello".to_string());
    assert_eq!(history.entries.len(), 1);
    assert_eq!(history.entries[0].text, "Hello");
    assert_eq!(history.entries[0].id, 0);
    assert_eq!(history.next_id, 1);
}

#[test]
fn test_history_truncates_at_20() {
    let mut history = TranscriptionHistory::default();
    for i in 0..25 {
        history.add_entry(format!("Entry {}", i));
    }
    assert_eq!(history.entries.len(), 20);
    assert_eq!(history.entries[0].text, "Entry 24");
    assert_eq!(history.next_id, 25);
}

#[test]
fn test_history_newest_first() {
    let mut history = TranscriptionHistory::default();
    history.add_entry("First".to_string());
    history.add_entry("Second".to_string());
    assert_eq!(history.entries[0].text, "Second");
    assert_eq!(history.entries[1].text, "First");
}

#[test]
fn default_settings_fields() {
    let mac = AppSettings::defaults_for(Platform::MacOs);
    assert_eq!(mac.hotkey, "Super+Shift+Space");
    assert_eq!(mac.api_key, "");
    assert_eq!(mac.language, "de");
    assert_eq!(mac.microphone, "default");
    assert_eq!(HotkeyMode::default(), HotkeyMode::KeyCombination);
}

#[test]
fn history_ids_and_order_after_truncation() {
    let mut history = TranscriptionHistory::new();
    for i in 0..23 {
        history.add_entry(format!("t{}", i));
    }
    let ids: Vec<u64> = history.entries.iter().map(|e| e.id).collect();
    let expected: Vec<u64> = (3..23).rev().collect();
    assert_eq!(ids, expected);
    assert_eq!(history.entries[19].text, "t3");
}

#[test]
fn history_entries_are_timestamped_now() {
    let mut history = TranscriptionHistory::new();
    history.add_entry("x".to_string());
    let ts = history.entries[0].timestamp;
    assert!(ts.nanos < 1_000_000_000);
    // later than 2020-01-01
    assert!(ts.secs > 1_577_836_800);
}

#[test]
fn clearing_history_keeps_counting() {
    let mut history = TranscriptionHistory::new();
    history.add_entry("a".to_string());
    history.add_entry("b".to_string());
    history.clear();
    assert!(history.entries.is_empty());
    assert_eq!(history.next_id, 2);
    history.add_entry("c".to_string());
    assert_eq!(history.entries[0].id, 2);
}

#[test]
fn clock_readings_become_timestamps() {
    assert_eq!(timestamp_from_reading(Ok(1_500_000_000)), Timestamp { secs: 1, nanos: 500_000_000 });
    assert_eq!(timestamp_from_reading(Ok(0)), Timestamp { secs: 0, nanos: 0 });
    assert_eq!(timestamp_from_reading(Err(1_500_000_000)), Timestamp { secs: -2, nanos: 500_000_000 });
    assert_eq!(timestamp_from_reading(Err(3_000_000_000)), Timestamp { secs: -3, nanos: 0 });
    assert_eq!(
        timestamp_from_reading(Ok(u128::MAX)),
        Timestamp { secs: i64::MAX, nanos: 999_999_999 }
    );
    assert_eq!(timestamp_from_reading(Err(u128::MAX)), Timestamp { secs: i64::MIN, nanos: 0 });
}

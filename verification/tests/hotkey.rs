use taurophone::hotkey::hotkey_binding;
use taurophone::hotkey::hotkey_settings_changed;
use taurophone::hotkey::parse_hotkey;
use taurophone::hotkey::Hotkey;
use taurophone::hotkey::HotkeyBinding;
use taurophone::hotkey::HotkeyCode;
use taurophone::hotkey::Modifiers;
use taurophone::settings::default_hotkey;
use taurophone::settings::AppSettings;
use taurophone::settings::HotkeyMode;
use taurophone::settings::Platform;

fn mods(ctrl: bool, shift: bool, alt: bool, super_key: bool) -> Modifiers {
    Modifiers { ctrl, shift, alt, super_key }
}

#[test]
fn parses_default_hotkeys() {
    assert_eq!(
        parse_hotkey(default_hotkey(Platform::Linux)),
        Some(Hotkey { modifiers: mods(true, true, false, false), code: HotkeyCode::Space })
    );
    assert_eq!(
        parse_hotkey(default_hotkey(Platform::MacOs)),
        Some(Hotkey { modifiers: mods(false, true, false, true), code: HotkeyCode::Space })
    );
}

#[test]
fn parsing_ignores_case_and_spaces() {
    assert_eq!(
        parse_hotkey(" control + ALT+ r "),
        Some(Hotkey { modifiers: mods(true, false, true, false), code: HotkeyCode::KeyR })
    );
    assert_eq!(
        parse_hotkey("Meta+\u{3000}SPACE\t"),
        Some(Hotkey { modifiers: mods(false, false, false, true), code: HotkeyCode::Space })
    );
    assert_eq!(
        parse_hotkey("cmd+R"),
        Some(Hotkey { modifiers: mods(false, false, false, true), code: HotkeyCode::KeyR })
    );
}

#[test]
fn last_key_wins_and_unknown_parts_are_skipped() {
    assert_eq!(
        parse_hotkey("Space+Foo+r++Shift"),
        Some(Hotkey { modifiers: mods(false, true, false, false), code: HotkeyCode::KeyR })
    );
}

#[test]
fn no_key_means_no_hotkey() {
    assert_eq!(parse_hotkey(""), None);
    assert_eq!(parse_hotkey("Ctrl+Shift"), None);
    assert_eq!(parse_hotkey("Ctrl+Spac e"), None);
    assert_eq!(parse_hotkey("Ctrl+Ｒ"), None);
}

fn settings(mode: HotkeyMode, hotkey: &str) -> AppSettings {
    AppSettings {
        api_key: String::new(),
        hotkey: hotkey.to_string(),
        hotkey_mode: mode,
        language: "en".to_string(),
        microphone: "default".to_string(),
    }
}

#[test]
fn bindings_follow_the_mode() {
    assert_eq!(
        hotkey_binding(&settings(HotkeyMode::KeyCombination, "Ctrl+Shift+Space")),
        Ok(HotkeyBinding::Shortcut(Hotkey { modifiers: mods(true, true, false, false), code: HotkeyCode::Space }))
    );
    assert_eq!(
        hotkey_binding(&settings(HotkeyMode::KeyCombination, "Ctrl+Q")),
        Err("Invalid hotkey format".to_string())
    );
    assert_eq!(
        hotkey_binding(&settings(HotkeyMode::DoubleTapCtrl, "garbage")),
        Ok(HotkeyBinding::DoubleTap(HotkeyMode::DoubleTapCtrl))
    );
}

#[test]
fn changes_that_rebind() {
    let a = settings(HotkeyMode::KeyCombination, "Ctrl+Shift+Space");
    let mut b = settings(HotkeyMode::KeyCombination, "Ctrl+Shift+Space");
    b.api_key = "k".to_string();
    b.language = "fr".to_string();
    assert!(!hotkey_settings_changed(&a, &b));
    b.hotkey = "Ctrl+R".to_string();
    assert!(hotkey_settings_changed(&a, &b));
    let c = settings(HotkeyMode::DoubleTapShift, "Ctrl+Shift+Space");
    assert!(hotkey_settings_changed(&a, &c));
}

#[test]
fn spacing_and_modifier_order_do_not_matter() {
    let a = parse_hotkey(" ctrl + SHIFT + space ");
    assert_eq!(a, parse_hotkey("Shift+Ctrl+Space"));
    assert_eq!(a, parse_hotkey("Ctrl+Shift+Space"));
    assert!(a.is_some());
}

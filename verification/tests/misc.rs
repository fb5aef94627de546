use taurophone::status::Status;
use taurophone::tray::tray_click_shows_window;
use taurophone::tray::tray_menu_action;
use taurophone::tray::TrayAction;
use taurophone::whisper::api_error_message;
use taurophone::whisper::authorization_value;
use taurophone::whisper::parse_transcription;
use taurophone::whisper::transcription_from_field;

#[test]
fn status_names() {
    assert_eq!(Status::Idle.as_str(), "idle");
    assert_eq!(Status::Recording.as_str(), "recording");
    assert_eq!(Status::Transcribing.as_str(), "transcribing");
}

#[test]
fn tray_actions() {
    assert_eq!(tray_menu_action("quit"), TrayAction::Quit);
    assert_eq!(tray_menu_action("show"), TrayAction::ShowWindow);
    assert_eq!(tray_menu_action("Show"), TrayAction::Ignore);
    assert!(tray_click_shows_window(true, true));
    assert!(!tray_click_shows_window(true, false));
    assert!(!tray_click_shows_window(false, true));
}

#[test]
fn request_header_and_errors() {
    assert_eq!(authorization_value("sk-1"), "Bearer sk-1");
    assert_eq!(api_error_message("401 Unauthorized", "{}"), "API error 401 Unauthorized: {}");
}

#[test]
fn transcription_responses() {
    assert_eq!(parse_transcription(br#"{"text":"Hallo Welt"}"#), Ok("Hallo Welt".to_string()));
    assert_eq!(parse_transcription(br#"{"text":5}"#), Err("No text in response".to_string()));
    assert_eq!(parse_transcription(br#"[1,2]"#), Err("No text in response".to_string()));
    assert_eq!(parse_transcription(br#"{"Text":"x","txt":"y"}"#), Err("No text in response".to_string()));
    assert_eq!(
        parse_transcription(b"not json"),
        Err("Failed to parse response: error decoding response body".to_string())
    );
}

#[test]
fn transcription_fields() {
    assert_eq!(transcription_from_field(Some(Some("hi".to_string()))), Ok("hi".to_string()));
    assert_eq!(transcription_from_field(Some(None)), Err("No text in response".to_string()));
    assert_eq!(
        transcription_from_field(None),
        Err("Failed to parse response: error decoding response body".to_string())
    );
}

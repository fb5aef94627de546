use taurophone::controller::after_injection;
use taurophone::controller::after_recording_started;
use taurophone::controller::after_recording_stopped;
use taurophone::controller::after_stop_failed;
use taurophone::controller::begin_toggle;
use taurophone::controller::record_transcription;
use taurophone::controller::ToggleAction;
use taurophone::controller::TranscriptionNext;
use taurophone::controller::UiEvent;
use taurophone::settings::TranscriptionHistory;
use taurophone::status::Status;

fn names(events: &[UiEvent]) -> Vec<&'static str> {
    events.iter().map(|e| e.name()).collect()
}

#[test]
fn toggle_stops_or_starts() {
    assert_eq!(begin_toggle(true, &"USB".to_string()), ToggleAction::StopRecording);
    assert_eq!(begin_toggle(false, &"default".to_string()), ToggleAction::StartRecording(None));
    assert_eq!(
        begin_toggle(false, &"USB".to_string()),
        ToggleAction::StartRecording(Some("USB".to_string()))
    );
}

#[test]
fn start_results() {
    let ok = after_recording_started(Ok(()));
    assert!(matches!(ok.as_slice(), [UiEvent::StatusChanged(Status::Recording)]));
    let err = after_recording_started(Err("no mic".to_string()));
    assert!(matches!(err.as_slice(), [UiEvent::TranscriptionError(m)] if m == "no mic"));
    assert_eq!(names(&err), vec!["transcription-error"]);
}

#[test]
fn missing_api_key_returns_to_idle() {
    let (events, go) = after_recording_stopped(&String::new());
    assert!(!go);
    assert!(matches!(
        events.as_slice(),
        [
            UiEvent::StatusChanged(Status::Transcribing),
            UiEvent::StatusChanged(Status::Idle),
            UiEvent::TranscriptionError(m),
        ] if m == "API key not configured"
    ));
    let (events, go) = after_recording_stopped(&"sk".to_string());
    assert!(go);
    assert!(matches!(events.as_slice(), [UiEvent::StatusChanged(Status::Transcribing)]));
    assert!(matches!(after_stop_failed().as_slice(), [UiEvent::StatusChanged(Status::Idle)]));
}

#[test]
fn transcription_goes_to_history_then_is_typed() {
    let mut history = TranscriptionHistory::new();
    match record_transcription(&mut history, Ok("hello".to_string())) {
        TranscriptionNext::Inject(t) => assert_eq!(t, "hello"),
        TranscriptionNext::Done(_) => panic!("expected a text to type"),
    }
    assert_eq!(history.entries[0].text, "hello");
    let typed = after_injection("hello".to_string(), Ok(()));
    assert!(matches!(
        typed.as_slice(),
        [UiEvent::TranscriptionResult(t), UiEvent::StatusChanged(Status::Idle)] if t == "hello"
    ));
    assert_eq!(names(&typed), vec!["transcription-result", "status-changed"]);
    let failed = after_injection("hello".to_string(), Err("no xdotool".to_string()));
    assert!(matches!(
        failed.as_slice(),
        [UiEvent::TranscriptionError(m), UiEvent::StatusChanged(Status::Idle)] if m == "no xdotool"
    ));
}

#[test]
fn failed_transcription_leaves_history_alone() {
    let mut history = TranscriptionHistory::new();
    match record_transcription(&mut history, Err("API error 401".to_string())) {
        TranscriptionNext::Done(events) => assert!(matches!(
            events.as_slice(),
            [UiEvent::TranscriptionError(m), UiEvent::StatusChanged(Status::Idle)] if m == "API error 401"
        )),
        TranscriptionNext::Inject(_) => panic!("expected no text"),
    }
    assert!(history.entries.is_empty());
    assert_eq!(history.next_id, 0);
}

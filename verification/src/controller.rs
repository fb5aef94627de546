use vstd::prelude::*;

use crate::settings::timestamp_at;
use crate::settings::TranscriptionHistory;
use crate::status::Status;

verus! {

/// What the user interface is told.
#[derive(Debug)]
pub enum UiEvent {
    /// The status changed.
    StatusChanged(Status),
    /// Recording or transcribing failed, with this message.
    TranscriptionError(String),
    /// A transcription was typed into the focused application.
    TranscriptionResult(String),
}

pub open spec fn event_name_spec(e: UiEvent) -> Seq<char> {
    match e {
        UiEvent::StatusChanged(_) => "status-changed"@,
        UiEvent::TranscriptionError(_) => "transcription-error"@,
        UiEvent::TranscriptionResult(_) => "transcription-result"@,
    }
}

impl UiEvent {
    /// The name of the event the user interface listens for.
    pub fn name(&self) -> (r: &'static str)
        ensures
            r@ == event_name_spec(*self),
    {
        match self {
            UiEvent::StatusChanged(_) => "status-changed",
            UiEvent::TranscriptionError(_) => "transcription-error",
            UiEvent::TranscriptionResult(_) => "transcription-result",
        }
    }
}

/// What a toggle of the recording does first.
#[derive(Debug, PartialEq, Eq)]
pub enum ToggleAction {
    /// Stop the running recording.
    StopRecording,
    /// Start recording, from the named device or (none) the default one.
    StartRecording(Option<String>),
}

/// A toggle stops a running recording; otherwise it starts one from the
/// configured microphone, where `default` means the default device.
pub fn begin_toggle(is_recording: bool, microphone: &String) -> (a: ToggleAction)
    ensures
        is_recording ==> a == ToggleAction::StopRecording,
        !is_recording && microphone@ == "default"@ ==> a == ToggleAction::StartRecording(None),
        !is_recording && microphone@ != "default"@ ==> (a matches ToggleAction::StartRecording(Some(m))
            && m@ == microphone@),
{
    if is_recording {
        ToggleAction::StopRecording
    } else {
        let default_name = String::from_str("default");
        if *microphone == default_name {
            ToggleAction::StartRecording(None)
        } else {
            ToggleAction::StartRecording(Some(microphone.clone()))
        }
    }
}

/// What the user is told once a recording started, or failed to.
pub fn after_recording_started(result: Result<(), String>) -> (events: Vec<UiEvent>)
    ensures
        events@.len() == 1,
        result is Ok ==> events@[0] == UiEvent::StatusChanged(Status::Recording),
        result matches Err(e) ==> (events@[0] matches UiEvent::TranscriptionError(m) && m@ == e@),
{
    let mut events: Vec<UiEvent> = Vec::new();
    match result {
        Ok(()) => events.push(UiEvent::StatusChanged(Status::Recording)),
        Err(e) => events.push(UiEvent::TranscriptionError(e)),
    }
    events
}

/// What follows a recording that stopped with audio: the status turns to
/// transcribing; without an API key the status returns to idle, the user is
/// told why, and no transcription is made. Returns the events and whether to
/// transcribe.
pub fn after_recording_stopped(api_key: &String) -> (r: (Vec<UiEvent>, bool))
    ensures
        r.1 == (api_key@.len() > 0),
        r.0@[0] == UiEvent::StatusChanged(Status::Transcribing),
        r.1 ==> r.0@.len() == 1,
        !r.1 ==> r.0@.len() == 3 && r.0@[1] == UiEvent::StatusChanged(Status::Idle) && (
        r.0@[2] matches UiEvent::TranscriptionError(m) && m@ == "API key not configured"@),
{
    let mut events: Vec<UiEvent> = Vec::new();
    events.push(UiEvent::StatusChanged(Status::Transcribing));
    if api_key.as_str().is_empty() {
        events.push(UiEvent::StatusChanged(Status::Idle));
        events.push(UiEvent::TranscriptionError(String::from_str("API key not configured")));
        (events, false)
    } else {
        (events, true)
    }
}

/// What the user is told when stopping a recording failed: the status returns to idle.
pub fn after_stop_failed() -> (events: Vec<UiEvent>)
    ensures
        events@ == seq![UiEvent::StatusChanged(Status::Idle)],
{
    let mut events: Vec<UiEvent> = Vec::new();
    events.push(UiEvent::StatusChanged(Status::Idle));
    events
}

/// What follows a transcription attempt.
#[derive(Debug)]
pub enum TranscriptionNext {
    /// Type this text into the focused application.
    Inject(String),
    /// Nothing more to do; tell the user these events.
    Done(Vec<UiEvent>),
}

/// Handles the transcription service's answer: a text is recorded as the
/// newest history entry and is to be typed; an error is reported and the
/// status returns to idle.
pub fn record_transcription(history: &mut TranscriptionHistory, result: Result<String, String>) -> (next: TranscriptionNext)
    requires
        result is Ok ==> old(history).next_id < u64::MAX,
    ensures
        match result {
            Ok(text) => {
                &&& next matches TranscriptionNext::Inject(t) && t@ == text@
                &&& final(history).next_id == old(history).next_id + 1
                &&& final(history).items() == (seq![(old(history).next_id, text@)] + old(history).items()).take(
                    crate::settings::min_len(old(history).entries@.len() + 1int, crate::settings::HISTORY_CAPACITY as int),
                )
                &&& old(history).well_formed() ==> final(history).well_formed()
                &&& exists|ns: int| final(history).entries@[0].timestamp == timestamp_at(ns)
                &&& final(history).entries@[0].timestamp.nanos < 1_000_000_000
                &&& forall|i: int|
                    0 < i < final(history).entries@.len() ==> #[trigger] final(history).entries@[i]
                        == old(history).entries@[i - 1]
            },
            Err(e) => {
                &&& *final(history) == *old(history)
                &&& next matches TranscriptionNext::Done(events) && events@.len() == 2 && (
                events@[0] matches UiEvent::TranscriptionError(m) && m@ == e@) && events@[1]
                    == UiEvent::StatusChanged(Status::Idle)
            },
        },
{
    match result {
        Ok(text) => {
            history.add_entry(text.clone());
            TranscriptionNext::Inject(text)
        },
        Err(e) => {
            let mut events: Vec<UiEvent> = Vec::new();
            events.push(UiEvent::TranscriptionError(e));
            events.push(UiEvent::StatusChanged(Status::Idle));
            TranscriptionNext::Done(events)
        },
    }
}

/// What the user is told once a transcription was typed, or failed to be:
/// the text or the error, then the status returns to idle.
pub fn after_injection(text: String, result: Result<(), String>) -> (events: Vec<UiEvent>)
    ensures
        events@.len() == 2,
        events@[1] == UiEvent::StatusChanged(Status::Idle),
        result is Ok ==> (events@[0] matches UiEvent::TranscriptionResult(t) && t@ == text@),
        result matches Err(e) ==> (events@[0] matches UiEvent::TranscriptionError(m) && m@ == e@),
{
    let mut events: Vec<UiEvent> = Vec::new();
    match result {
        Ok(()) => events.push(UiEvent::TranscriptionResult(text)),
        Err(e) => events.push(UiEvent::TranscriptionError(e)),
    }
    events.push(UiEvent::StatusChanged(Status::Idle));
    events
}

} // verus!

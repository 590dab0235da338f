use dictation::audio::{AudioCapture, StreamShape};
use dictation::events::{
    begin_transcription, end_transcription, end_typing, hotkey_pressed, hotkey_released,
    CaptureReport, UiEvent,
};
use dictation::utterance::DictationStep;

fn first(frame: &[f32]) -> f32 {
    frame[0]
}

fn millis(samples: usize, rate: u32) -> u64 {
    ((samples as f64 / rate as f64) * 1000.0) as u64
}

#[test]
fn a_press_records_until_the_release() {
    let mut audio: AudioCapture<f32> = AudioCapture::new();
    let shape = StreamShape { channels: 1, sample_rate: 1_000 };
    assert_eq!(audio.finish_arm(Some(Ok(shape))), Ok(()));
    assert!(matches!(hotkey_pressed(&mut audio), UiEvent::HotkeyPressed));
    audio.on_data(&[1.0, 2.0, 3.0], first);
    let released = hotkey_released(&mut audio, millis);
    let heard = vec![1.0, 2.0, 3.0];
    assert!(matches!(&released.step, DictationStep::LookForModel(s, 1_000) if *s == heard));
    assert_eq!(released.events.len(), 2);
    assert!(matches!(released.events[0], UiEvent::HotkeyReleased));
    let report = CaptureReport { samples: 3, sample_rate: 1_000, duration_ms: 3 };
    assert!(matches!(released.events[1], UiEvent::CaptureDone(r) if r == report));
}

#[test]
fn a_press_of_a_closed_microphone_is_an_error() {
    let mut audio: AudioCapture<f32> = AudioCapture::new();
    let event = hotkey_pressed(&mut audio);
    assert_eq!(event.name(), "capture:error");
    assert_eq!(event.text(), Some("Audio not armed — click Start dictation first"));
    let released = hotkey_released(&mut audio, millis);
    let report = CaptureReport { samples: 0, sample_rate: 0, duration_ms: 0 };
    assert!(matches!(released.events[1], UiEvent::CaptureDone(r) if r == report));
}

#[test]
fn a_missing_model_stops_the_transcription() {
    let (event, go_on) = begin_transcription("/m/x.bin", false);
    assert!(!go_on);
    assert_eq!(event.name(), "transcribe:error");
    assert_eq!(event.text(), Some("Model file missing: /m/x.bin"));
    let (event, go_on) = begin_transcription("/m/x.bin", true);
    assert!(go_on);
    assert_eq!((event.name(), event.text()), ("transcribe:start", None));
}

#[test]
fn the_trimmed_transcript_is_typed() {
    let (event, typed) = end_transcription(Ok(" Hello world \n".to_string()));
    assert_eq!((event.name(), event.text()), ("transcript", Some(" Hello world \n")));
    assert_eq!(typed.as_deref(), Some("Hello world"));
}

#[test]
fn white_space_alone_is_not_typed() {
    let (event, typed) = end_transcription(Ok(" \n".to_string()));
    assert_eq!(event.text(), Some(" \n"));
    assert_eq!(typed, None);
}

#[test]
fn a_failed_transcription_types_nothing() {
    let (event, typed) = end_transcription(Err("whisper full: boom".to_string()));
    assert_eq!((event.name(), event.text()), ("transcribe:error", Some("whisper full: boom")));
    assert_eq!(typed, None);
}

#[test]
fn a_failure_to_type_is_told() {
    assert!(end_typing(Ok(())).is_none());
    let event = end_typing(Err("Enigo text failed: busy".to_string())).unwrap();
    assert_eq!((event.name(), event.text()), ("inject:error", Some("Enigo text failed: busy")));
}

#[test]
fn states_are_sent_by_name() {
    let on = UiEvent::ListenerState(true);
    assert_eq!((on.name(), on.text()), ("listener:state", Some("ready")));
    assert_eq!(UiEvent::ListenerState(false).text(), Some("stopped"));
    let there = UiEvent::ModelState(true);
    assert_eq!((there.name(), there.text()), ("model:state", Some("ready")));
    assert_eq!(UiEvent::ModelState(false).text(), Some("missing"));
    assert_eq!(UiEvent::HotkeyPressed.name(), "hotkey:pressed");
    assert_eq!((UiEvent::HotkeyReleased.name(), UiEvent::HotkeyReleased.text()), ("hotkey:released", None));
    let done = UiEvent::CaptureDone(CaptureReport { samples: 1, sample_rate: 2, duration_ms: 3 });
    assert_eq!((done.name(), done.text()), ("capture:done", None));
}

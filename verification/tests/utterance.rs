use dictation::audio::{AudioCapture, StreamShape};
use dictation::events::{hotkey_pressed, hotkey_released, UiEvent};
use dictation::utterance::{DictationReply, DictationStep};

fn first(frame: &[f32]) -> f32 {
    frame[0]
}

fn names(events: &[UiEvent]) -> Vec<(&str, Option<&str>)> {
    events.iter().map(|e| (e.name(), e.text())).collect()
}

fn transcribe() -> DictationStep<f32> {
    DictationStep::Transcribe(vec![1.0], 16_000)
}

#[test]
fn what_is_spoken_is_typed_once() {
    let mut audio: AudioCapture<f32> = AudioCapture::new();
    let shape = StreamShape { channels: 2, sample_rate: 48_000 };
    assert_eq!(audio.finish_arm(Some(Ok(shape))), Ok(()));
    audio.on_data(&[9.0, 9.0], first);
    hotkey_pressed(&mut audio);
    audio.on_data(&[1.0, 0.0, 2.0, 0.0], first);
    audio.on_data(&[3.0, 0.0, 4.0], first);
    let mut step = hotkey_released(&mut audio, |_, _| 0).step;
    audio.on_data(&[8.0, 8.0], first);
    let mut typed: Vec<String> = Vec::new();
    let mut heard: Vec<(Vec<f32>, u32)> = Vec::new();
    let mut told: Vec<UiEvent> = Vec::new();
    while !matches!(step, DictationStep::Finished) {
        let reply = match &step {
            DictationStep::LookForModel(_, _) => DictationReply::ModelFound(true),
            DictationStep::Transcribe(samples, rate) => {
                heard.push((samples.clone(), *rate));
                DictationReply::Transcribed(Ok(" Hello world \n".to_string()))
            }
            DictationStep::Type(text) => {
                typed.push(text.clone());
                DictationReply::Typed(Ok(()))
            }
            DictationStep::Finished => unreachable!(),
        };
        let (events, next) = step.resume("/m/x.bin", reply);
        told.extend(events);
        step = next;
    }
    assert_eq!(heard, vec![(vec![1.0, 2.0, 3.0], 48_000)]);
    assert_eq!(typed, vec!["Hello world".to_string()]);
    assert_eq!(
        names(&told),
        vec![("transcribe:start", None), ("transcript", Some(" Hello world \n"))]
    );
}

#[test]
fn without_a_model_nothing_is_transcribed() {
    let step: DictationStep<f32> = DictationStep::LookForModel(vec![1.0], 16_000);
    let (events, step) = step.resume("/m/x.bin", DictationReply::ModelFound(false));
    assert_eq!(
        names(&events),
        vec![("transcribe:error", Some("Model file missing: /m/x.bin"))]
    );
    assert!(matches!(step, DictationStep::Finished));
}

#[test]
fn without_a_text_nothing_is_typed() {
    let silence = DictationReply::Transcribed(Ok(" \n".to_string()));
    let (events, step) = transcribe().resume("/m/x.bin", silence);
    assert_eq!(names(&events), vec![("transcript", Some(" \n"))]);
    assert!(matches!(step, DictationStep::Finished));
    let failed = DictationReply::Transcribed(Err("whisper full: boom".to_string()));
    let (events, step) = transcribe().resume("/m/x.bin", failed);
    assert_eq!(names(&events), vec![("transcribe:error", Some("whisper full: boom"))]);
    assert!(matches!(step, DictationStep::Finished));
}

#[test]
fn a_text_that_cannot_be_typed_is_not_tried_again() {
    let step: DictationStep<f32> = DictationStep::Type("Hello".to_string());
    let busy = DictationReply::Typed(Err("Enigo text failed: busy".to_string()));
    let (events, step) = step.resume("/m/x.bin", busy);
    assert_eq!(names(&events), vec![("inject:error", Some("Enigo text failed: busy"))]);
    assert!(matches!(step, DictationStep::Finished));
}

#[test]
fn a_reply_that_is_not_waited_for_changes_nothing() {
    let (events, step) = transcribe().resume("/m/x.bin", DictationReply::Typed(Ok(())));
    assert!(events.is_empty());
    assert!(matches!(&step, DictationStep::Transcribe(s, 16_000) if *s == vec![1.0]));
    let (events, step) = step.resume("/m/x.bin", DictationReply::ModelFound(false));
    assert!(events.is_empty());
    assert!(matches!(step, DictationStep::Transcribe(_, _)));
}

use dictation::audio::{
    device_not_found, list_input_devices, resolve_input_device, ArmReply, ArmStep, AudioCapture, InputConfig,
    SampleFormat, StreamShape,
};

fn mean(frame: &[f32]) -> f32 {
    frame.iter().copied().sum::<f32>() / frame.len() as f32
}

fn open(channels: u16, sample_rate: u32) -> AudioCapture<f32> {
    let mut capture = AudioCapture::new();
    assert!(capture.arm(None).is_some());
    assert_eq!(capture.finish_arm(Some(Ok(StreamShape { channels, sample_rate }))), Ok(()));
    capture
}

fn names(list: &[&str]) -> Vec<Option<String>> {
    list.iter().map(|n| if *n == "?" { None } else { Some(n.to_string()) }).collect()
}

#[test]
fn a_fresh_microphone_is_closed() {
    let mut capture: AudioCapture<f32> = AudioCapture::new();
    assert!(!capture.is_armed());
    assert!(!capture.start_recording());
    assert_eq!(capture.stop_recording(), (vec![], 0));
}

#[test]
fn an_open_microphone_is_not_opened_again() {
    let capture = open(1, 16_000);
    assert!(capture.is_armed());
    assert!(capture.arm(Some("Mic".to_string())).is_none());
}

#[test]
fn what_is_heard_while_recording_is_handed_out() {
    let mut capture = open(1, 48_000);
    capture.on_data(&[9.0], mean);
    assert!(capture.start_recording());
    capture.on_data(&[1.0, 2.0], mean);
    capture.on_data(&[], mean);
    capture.on_data(&[3.0], mean);
    assert_eq!(capture.stop_recording(), (vec![1.0, 2.0, 3.0], 48_000));
    capture.on_data(&[4.0], mean);
    assert_eq!(capture.stop_recording(), (vec![], 48_000));
}

#[test]
fn a_second_press_starts_over() {
    let mut capture = open(1, 48_000);
    assert!(capture.start_recording());
    capture.on_data(&[1.0], mean);
    assert!(capture.start_recording());
    capture.on_data(&[2.0], mean);
    assert_eq!(capture.stop_recording().0, vec![2.0]);
}

#[test]
fn channels_are_mixed_frame_by_frame() {
    let mut capture = open(2, 44_100);
    assert!(capture.start_recording());
    capture.on_data(&[1.0, 3.0, 5.0, 7.0, 9.0], mean);
    assert_eq!(capture.stop_recording(), (vec![2.0, 6.0], 44_100));
    let mut capture = open(3, 44_100);
    assert!(capture.start_recording());
    capture.on_data(&[1.0, 2.0, 6.0], mean);
    capture.on_data(&[1.0, 2.0], mean);
    assert_eq!(capture.stop_recording().0, vec![3.0]);
}

#[test]
fn no_channels_are_taken_for_one() {
    let mut capture = open(0, 8_000);
    assert!(capture.start_recording());
    capture.on_data(&[1.0, 2.0], mean);
    assert_eq!(capture.stop_recording().0, vec![1.0, 2.0]);
}

#[test]
fn closing_drops_everything_and_may_be_repeated() {
    let mut capture = open(1, 48_000);
    assert!(capture.start_recording());
    capture.on_data(&[1.0], mean);
    capture.disarm();
    capture.disarm();
    assert!(!capture.is_armed());
    assert_eq!(capture.stop_recording(), (vec![], 0));
    capture.on_data(&[1.0], mean);
    assert_eq!(capture.stop_recording(), (vec![], 0));
}

#[test]
fn a_failed_opening_leaves_the_microphone_closed() {
    let mut capture: AudioCapture<f32> = AudioCapture::new();
    assert_eq!(capture.finish_arm(Some(Err("no".to_string()))), Err("no".to_string()));
    assert!(!capture.is_armed());
    assert_eq!(
        capture.finish_arm(None),
        Err("Audio worker exited without reporting ready".to_string())
    );
    assert_eq!(capture.stop_recording(), (vec![], 0));
}

fn config(format: SampleFormat) -> ArmReply {
    ArmReply::Config(Ok(InputConfig {
        shape: StreamShape { channels: 2, sample_rate: 48_000 },
        format,
    }))
}

fn error_of(step: ArmStep) -> String {
    match step {
        ArmStep::Finished(Err(e)) => e,
        other => panic!("{:?}", other),
    }
}

#[test]
fn the_default_device_is_opened_step_by_step() {
    let capture: AudioCapture<f32> = AudioCapture::new();
    let step = capture.arm(None).unwrap();
    assert!(matches!(step, ArmStep::FindDefault));
    let step = step.resume(ArmReply::Default(true));
    assert!(matches!(step, ArmStep::ReadConfig(None)));
    let step = step.resume(config(SampleFormat::F32));
    assert!(matches!(step, ArmStep::Build(_)));
    let step = step.resume(ArmReply::Stream(Ok(())));
    assert!(matches!(step, ArmStep::Play(_)));
    let step = step.resume(ArmReply::Stream(Ok(())));
    let shape = StreamShape { channels: 2, sample_rate: 48_000 };
    assert!(matches!(step, ArmStep::Finished(Ok(s)) if s == shape));
}

#[test]
fn a_named_device_is_the_first_of_its_name() {
    let capture: AudioCapture<f32> = AudioCapture::new();
    let step = capture.arm(Some("B".to_string())).unwrap();
    assert!(matches!(&step, ArmStep::FindNamed(n) if n == "B"));
    let step = step.resume(ArmReply::Devices(Ok(names(&["A", "?", "B", "B"]))));
    assert!(matches!(step, ArmStep::ReadConfig(Some(2))));
}

#[test]
fn each_failure_to_open_is_told() {
    let boom = || Err("boom".to_string());
    assert_eq!(
        error_of(ArmStep::FindDefault.resume(ArmReply::Default(false))),
        "No default input device"
    );
    let named = || ArmStep::FindNamed("My \"Mic\"".to_string());
    assert_eq!(
        error_of(named().resume(ArmReply::Devices(Err("boom".to_string())))),
        "input_devices: boom"
    );
    assert_eq!(
        error_of(named().resume(ArmReply::Devices(Ok(names(&["A", "?"]))))),
        "Input device \"My \\\"Mic\\\"\" not found; reconnect it or pick another"
    );
    let read = || ArmStep::ReadConfig(None);
    assert_eq!(
        error_of(read().resume(ArmReply::Config(Err("boom".to_string())))),
        "default_input_config: boom"
    );
    assert_eq!(
        error_of(read().resume(config(SampleFormat::Other("I16".to_string())))),
        "Unsupported sample format I16; expected F32"
    );
    let shape = StreamShape { channels: 1, sample_rate: 1 };
    assert_eq!(
        error_of(ArmStep::Build(shape).resume(ArmReply::Stream(boom()))),
        "build_input_stream: boom"
    );
    assert_eq!(
        error_of(ArmStep::Play(shape).resume(ArmReply::Stream(boom()))),
        "stream.play: boom"
    );
}

#[test]
fn a_missing_device_is_quoted() {
    assert_eq!(
        device_not_found("\"Mic\""),
        "Input device \"Mic\" not found; reconnect it or pick another"
    );
}

#[test]
fn a_reply_to_another_step_changes_nothing() {
    let step = ArmStep::FindDefault.resume(ArmReply::Stream(Ok(())));
    assert!(matches!(step, ArmStep::FindDefault));
    let step = ArmStep::Finished(Err("x".to_string())).resume(ArmReply::Default(true));
    assert_eq!(error_of(step), "x");
}

#[test]
fn offered_names_are_found_again() {
    let listing = names(&["A", "?", "B", "A"]);
    let offered = list_input_devices(Some(listing.clone()));
    assert_eq!(offered, vec!["A", "B", "A"]);
    for name in &offered {
        let i = resolve_input_device(name, &Ok(listing.clone())).unwrap();
        assert_eq!(listing[i].as_ref(), Some(name));
    }
    assert_eq!(resolve_input_device("A", &Ok(listing)), Ok(0));
    assert!(list_input_devices(None).is_empty());
}

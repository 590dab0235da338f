use dictation::transcribe::{
    accepts_positions, join_segments, needs_positions, resample_to_16k, InferenceParams,
    TranscribeReply, TranscribeStep, Transcriber, Weight, LANGUAGE,
};

const NOWHERE: &[(usize, f32)] = &[];

fn lerp(a: f32, b: f32, w: Weight<f32>) -> f32 {
    let frac = match w {
        Weight::Part(n) => n as f32 / 128.0,
        Weight::Given(frac) => frac,
    };
    a + (b - a) * frac
}

fn text(s: &str) -> Option<Result<String, String>> {
    Some(Ok(s.to_string()))
}

fn result(step: TranscribeStep<f32>) -> Result<String, String> {
    match step {
        TranscribeStep::Finished(r) => r,
        other => panic!("{:?}", other),
    }
}

fn begin(t: &Transcriber, present: bool, samples: &[f32], rate: u32) -> TranscribeStep<f32> {
    t.transcribe(present, samples, rate, NOWHERE, lerp)
}

fn infer() -> TranscribeStep<f32> {
    TranscribeStep::Infer(InferenceParams::new(), vec![1.0])
}

#[test]
fn a_missing_model_is_told() {
    let t = Transcriber::new("/m/x.bin".to_string());
    assert_eq!(t.model_path(), "/m/x.bin");
    assert_eq!(
        result(begin(&t, false, &[1.0], 16_000)),
        Err("Whisper model not found at /m/x.bin".to_string())
    );
}

#[test]
fn nothing_recorded_is_an_empty_transcript() {
    let t = Transcriber::new("/m/x.bin".to_string());
    assert_eq!(result(begin(&t, true, &[], 16_000)), Ok(String::new()));
    assert_eq!(result(begin(&t, true, &[1.0], 0)), Ok(String::new()));
}

#[test]
fn the_model_is_loaded_once() {
    let mut t = Transcriber::new("/m/x.bin".to_string());
    let step = begin(&t, true, &[1.0], 16_000);
    assert!(matches!(&step, TranscribeStep::Load(path, _) if path == "/m/x.bin"));
    let step = t.resume(step, TranscribeReply::Loaded);
    assert!(matches!(step, TranscribeStep::CreateState(_)));
    let step = t.resume(step, TranscribeReply::State(Ok(())));
    assert!(matches!(step, TranscribeStep::Infer(_, _)));
    let segments = vec![text("  Hello"), None, text(" world ")];
    let step = t.resume(step, TranscribeReply::Segments(Ok(segments)));
    assert_eq!(result(step), Ok("Hello world ".to_string()));
    assert!(matches!(begin(&t, true, &[1.0], 16_000), TranscribeStep::CreateState(_)));
}

#[test]
fn the_model_gets_the_samples_at_its_rate_and_the_language() {
    let mut t = Transcriber::new("/m/x.bin".to_string());
    let samples = [0.0f32, 0.1, 0.2, 0.3, 0.4, 0.5, 0.6];
    let step = begin(&t, true, &samples, 48_000);
    let step = t.resume(step, TranscribeReply::Loaded);
    let step = t.resume(step, TranscribeReply::State(Ok(())));
    let TranscribeStep::Infer(params, input) = step else { panic!("{:?}", step) };
    assert_eq!(input, vec![0.0, 0.3]);
    assert_eq!(LANGUAGE, "en");
    assert_eq!(params.language, "en");
    assert_eq!(params.best_of, 1);
    assert!(!params.print_special && !params.print_progress);
    assert!(!params.print_realtime && !params.print_timestamps);
}

#[test]
fn a_model_that_cannot_be_loaded_is_told_and_tried_again() {
    let mut t = Transcriber::new("/m/x.bin".to_string());
    let step = begin(&t, true, &[1.0], 16_000);
    let step = t.resume(step, TranscribeReply::LoadFailed("boom".to_string()));
    assert_eq!(result(step), Err("failed to initialise WhisperContext: boom".to_string()));
    assert!(matches!(begin(&t, true, &[1.0], 16_000), TranscribeStep::Load(_, _)));
}

#[test]
fn each_failure_of_the_model_is_told() {
    let mut t = Transcriber::new("/m/x.bin".to_string());
    let boom = || "boom".to_string();
    let created = TranscribeStep::CreateState(vec![1.0]);
    let step = t.resume(created, TranscribeReply::State(Err(boom())));
    assert_eq!(result(step), Err("create_state: boom".to_string()));
    let step = t.resume(infer(), TranscribeReply::Segments(Err(boom())));
    assert_eq!(result(step), Err("whisper full: boom".to_string()));
    let segments = vec![text("a"), Some(Err("one".to_string())), Some(Err("two".to_string()))];
    let step = t.resume(infer(), TranscribeReply::Segments(Ok(segments)));
    assert_eq!(result(step), Err("segment.to_str: one".to_string()));
}

#[test]
fn a_reply_to_another_step_of_a_run_changes_nothing() {
    let mut t = Transcriber::new("/m/x.bin".to_string());
    let step = t.resume(infer(), TranscribeReply::Loaded);
    assert!(matches!(&step, TranscribeStep::Infer(_, input) if *input == vec![1.0]));
    assert!(matches!(begin(&t, true, &[1.0], 16_000), TranscribeStep::Load(_, _)));
}

#[test]
fn segments_are_joined_in_order() {
    assert_eq!(join_segments(&vec![]), Ok(String::new()));
    assert_eq!(join_segments(&vec![text("\n\u{a0}")]), Ok(String::new()));
    assert_eq!(join_segments(&vec![text(" a"), text(" b")]), Ok("a b".to_string()));
}

#[test]
fn the_right_rate_is_left_alone() {
    let samples = [0.5f32, -0.5];
    assert_eq!(resample_to_16k(&samples, 16_000, &[(7, 0.0)], lerp), vec![0.5, -0.5]);
    let none: [f32; 0] = [];
    assert_eq!(resample_to_16k(&none, 48_000, &[(7, 0.0)], lerp), Vec::<f32>::new());
    assert_eq!(resample_to_16k(&none, 0, &[(7, 0.0)], lerp), Vec::<f32>::new());
}

#[test]
fn three_times_the_rate_picks_every_third_sample() {
    let samples: Vec<f32> = (0..11).map(|i| i as f32).collect();
    assert_eq!(resample_to_16k(&samples, 48_000, NOWHERE, lerp), vec![0.0, 3.0, 6.0]);
    assert_eq!(resample_to_16k(&samples[..7], 48_000, NOWHERE, lerp), vec![0.0, 3.0]);
    assert_eq!(resample_to_16k(&samples, 32_000, NOWHERE, lerp), vec![0.0, 2.0, 4.0, 6.0, 8.0]);
    assert_eq!(resample_to_16k(&samples[..2], 48_000, NOWHERE, lerp), Vec::<f32>::new());
}

#[test]
fn samples_are_blended_with_their_neighbours() {
    let samples = [0.0f32, 1.0, 3.0];
    let half = vec![0.0, 0.5, 1.0, 2.0, 3.0, 3.0];
    assert_eq!(resample_to_16k(&samples, 8_000, NOWHERE, lerp), half);
    let samples = [0.0f32, 1.0, 2.0, 4.0, 6.0];
    assert_eq!(resample_to_16k(&samples, 24_000, NOWHERE, lerp), vec![0.0, 1.5, 4.0]);
    let part = |a: u8, _: u8, w: Weight<()>| {
        assert_eq!((a, w), (0, Weight::Part(0)));
        a
    };
    assert_eq!(resample_to_16k(&[0u8, 9], 22_000, &[], part), vec![0]);
}

#[test]
fn whole_places_are_those_of_the_quotient() {
    for rate in [125u32, 8_000, 12_000, 22_000, 24_000, 44_000, 48_000, 96_000, 192_000] {
        let samples: Vec<f32> = (0..1_000).map(|i| (i * i % 97) as f32).collect();
        let ratio = rate as f64 / 16_000.0;
        let out_len = (samples.len() as f64 / ratio).floor() as usize;
        let expected: Vec<f32> = (0..out_len)
            .map(|i| {
                let src_pos = i as f64 * ratio;
                let idx = src_pos as usize;
                let frac = (src_pos - idx as f64) as f32;
                let s0 = samples[idx];
                let s1 = *samples.get(idx + 1).unwrap_or(&s0);
                s0 + (s1 - s0) * frac
            })
            .collect();
        assert!(!needs_positions(samples.len(), rate));
        assert_eq!(resample_to_16k(&samples, rate, NOWHERE, lerp), expected);
    }
}

#[test]
fn other_rates_need_the_places() {
    assert!(needs_positions(3, 44_101));
    assert!(needs_positions(3, 11_024));
    assert!(needs_positions(3, 44_100));
    assert!(!needs_positions(3, 16_000));
    assert!(!needs_positions(3, 48_000));
    assert!(!needs_positions(0, 44_101));
    assert!(!needs_positions(3, 0));
    let samples = [0.0f32, 1.0, 3.0, 7.0, 9.0, 9.0];
    let positions = [(0, 0.5), (2, 0.25)];
    assert!(accepts_positions(6, 44_100, &positions));
    assert_eq!(resample_to_16k(&samples, 44_100, &positions, lerp), vec![0.5, 4.0]);
}

/// Where the samples of the result lie, in floating point.
fn places(len: usize, rate: u32) -> Vec<(usize, f32)> {
    let ratio = rate as f64 / 16_000.0;
    let out_len = (len as f64 / ratio).floor() as usize;
    (0..out_len)
        .map(|i| {
            let src_pos = i as f64 * ratio;
            let idx = src_pos as usize;
            (idx, (src_pos - idx as f64) as f32)
        })
        .collect()
}

#[test]
fn places_in_floating_point_are_accepted() {
    for rate in [1u32, 7, 7_999, 11_025, 15_999, 16_001, 22_050, 44_100, 44_101, 88_200, 400_001] {
        for len in [1usize, 2, 3, 440, 441, 442, 4_410, 44_100] {
            if len as u64 * 16_000 / u64::from(rate) < 1_000_000 {
                assert!(needs_positions(len, rate));
                assert!(accepts_positions(len, rate, &places(len, rate)));
            }
        }
    }
    assert!(accepts_positions(400_000, 44_100, &places(400_000, 44_100)));
}

#[test]
fn places_of_another_rate_or_length_are_not_accepted() {
    assert!(!accepts_positions(6, 44_100, NOWHERE));
    assert!(!accepts_positions(6, 44_100, &[(0, 0.0), (2, 0.0), (5, 0.0)]));
    assert!(!accepts_positions(6, 44_100, &[(0, 0.0), (3, 0.0)]));
    assert!(!accepts_positions(6, 44_100, &[(0, 0.0), (1, 0.0)]));
    assert!(!accepts_positions(6, 44_100, &[(0, 0.0), (6, 0.0)]));
    assert!(accepts_positions(6, 48_000, NOWHERE));
    let mut whole = places(882, 44_100);
    assert_eq!(whole.len(), 320);
    assert!(accepts_positions(882, 44_100, &whole));
    whole[160] = (440, 1.0);
    assert!(accepts_positions(882, 44_100, &whole));
    whole[160] = (439, 1.0);
    assert!(!accepts_positions(882, 44_100, &whole));
    whole[160] = (442, 0.0);
    assert!(!accepts_positions(882, 44_100, &whole));
}

#[test]
fn a_constant_signal_stays_constant() {
    for rate in [8_000u32, 11_025, 16_000, 22_050, 24_000, 44_100, 48_000, 96_000] {
        for len in [1usize, 100, 441, 4_411] {
            let samples = vec![0.3f32; len];
            let out = resample_to_16k(&samples, rate, &places(len, rate), lerp);
            assert!(out.iter().all(|s| *s == 0.3));
            let m = (len as u64 * 16_000 / u64::from(rate)) as usize;
            assert!(out.len() == m || needs_positions(len, rate) && out.len() + 1 == m);
        }
    }
}

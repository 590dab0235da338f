use dictation::models::list_models;
use dictation::settings::{load, save, SaveStep, Settings};
use dictation::transcribe::DEFAULT_MODEL_URL;

#[test]
fn defaults_are_those_of_a_fresh_install() {
    let s = Settings::default();
    assert_eq!(s.hotkey, "F13");
    assert_eq!(s.model_file, "ggml-small.en.bin");
    assert_eq!(s.input_device, None);
}

#[test]
fn the_default_model_can_be_listed_and_downloaded() {
    let file = Settings::default().model_file;
    assert!(DEFAULT_MODEL_URL.ends_with(&file));
    assert_eq!(list_models(Some(vec![Some(file.clone())])), vec![file]);
}

#[test]
fn stored_settings_are_loaded_as_they_are() {
    let stored = Settings {
        hotkey: "Ctrl+K".to_string(),
        model_file: "m.bin".to_string(),
        input_device: Some("Mic".to_string()),
    };
    let s = load(Some(stored.clone()));
    assert_eq!(s.hotkey, "Ctrl+K");
    assert_eq!(s.model_file, "m.bin");
    assert_eq!(s.input_device.as_deref(), Some("Mic"));
}

#[test]
fn no_stored_settings_mean_the_defaults() {
    let s = load(None);
    assert_eq!((s.hotkey.as_str(), s.model_file.as_str()), ("F13", "ggml-small.en.bin"));
    assert!(s.input_device.is_none());
}

fn done() -> Result<String, String> {
    Ok(String::new())
}

fn failed() -> Result<String, String> {
    Err("boom".to_string())
}

#[test]
fn saving_goes_through_its_steps() {
    let new = Settings { model_file: "m.bin".to_string(), ..Settings::default() };
    let step = save(true, &new);
    assert!(matches!(&step, SaveStep::MakeDirectory(s) if s.model_file == "m.bin"));
    let step = step.resume("/d/s.json", done());
    assert!(matches!(&step, SaveStep::Encode(s) if s.hotkey == "F13" && s.model_file == "m.bin"));
    let step = step.resume("/d/s.json", Ok("{}".to_string()));
    assert!(matches!(&step, SaveStep::Write(t) if t == "{}"));
    let step = step.resume("/d/s.json", done());
    assert!(matches!(step, SaveStep::Finished(Ok(()))));
    let step = step.resume("/d/s.json", failed());
    assert!(matches!(step, SaveStep::Finished(Ok(()))));
}

#[test]
fn a_path_without_directory_needs_none() {
    let new = Settings { input_device: Some(String::new()), ..Settings::default() };
    let step = save(false, &new);
    assert!(matches!(&step, SaveStep::Encode(s) if s.input_device.as_deref() == Some("")));
}

#[test]
fn each_failure_to_save_is_told() {
    let step = SaveStep::MakeDirectory(Settings::default()).resume("/d/s.json", failed());
    assert!(matches!(&step, SaveStep::Finished(Err(e)) if e == "mkdir: boom"));
    let step = SaveStep::Encode(Settings::default()).resume("/d/s.json", failed());
    assert!(matches!(&step, SaveStep::Finished(Err(e)) if e == "boom"));
    let step = SaveStep::Write("{}".to_string()).resume("/d/s.json", failed());
    assert!(matches!(&step, SaveStep::Finished(Err(e)) if e == "write /d/s.json: boom"));
}

/// Writes settings down in a way that can be read again.
fn text_of(s: &Settings) -> String {
    serde_json::to_string(&(&s.hotkey, &s.model_file, &s.input_device)).unwrap()
}

fn settings_of(text: &str) -> Option<Settings> {
    let (hotkey, model_file, input_device) = serde_json::from_str(text).ok()?;
    Some(Settings { hotkey, model_file, input_device })
}

#[test]
fn what_was_saved_is_loaded() {
    for device in [None, Some(String::new()), Some("\"Mic\"\n\u{1F3A4}".to_string())] {
        let new = Settings {
            hotkey: "Ctrl+K".to_string(),
            model_file: "m\\.bin".to_string(),
            input_device: device.clone(),
        };
        let mut step = save(true, &new);
        let mut file = "before".to_string();
        while !matches!(step, SaveStep::Finished(_)) {
            let reply = match &step {
                SaveStep::Encode(s) => Ok(text_of(s)),
                SaveStep::Write(text) => {
                    file = text.clone();
                    done()
                }
                _ => done(),
            };
            step = step.resume("/d/s.json", reply);
        }
        let s = load(settings_of(&file));
        assert_eq!((s.hotkey.as_str(), s.model_file.as_str()), ("Ctrl+K", "m\\.bin"));
        assert_eq!(s.input_device, device);
    }
    assert_eq!(load(settings_of("{")).hotkey, "F13");
}

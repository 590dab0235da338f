use dictation::models::{list_models, model_info};
use dictation::settings::Settings;
use dictation::transcribe::{Transcriber, DEFAULT_MODEL_URL};

fn entries(names: &[&str]) -> Option<Vec<Option<String>>> {
    Some(names.iter().map(|n| if *n == "?" { None } else { Some(n.to_string()) }).collect())
}

#[test]
fn models_are_the_bin_files_in_order() {
    let listed = list_models(entries(&["b.bin", "?", "notes.txt", "a.bin", "B.bin", ".bin", "bin", "x.bin.gz", "é.bin", "b.bin"]));
    assert_eq!(listed, vec![".bin", "B.bin", "a.bin", "b.bin", "b.bin", "é.bin"]);
}

#[test]
fn the_order_is_that_of_std() {
    let names = ["z.bin", "aa.bin", "a.bin", "\u{10000}.bin", "\u{ffff}.bin", "~.bin", "Z.bin"];
    let mut sorted: Vec<String> = names.iter().map(|n| n.to_string()).collect();
    sorted.sort();
    assert_eq!(list_models(entries(&names)), sorted);
}

#[test]
fn the_order_of_the_directory_does_not_show() {
    let one = list_models(entries(&["a.bin", "b.bin", "c.bin"]));
    let other = list_models(entries(&["c.bin", "a.bin", "b.bin"]));
    assert_eq!(one, other);
}

#[test]
fn a_directory_that_cannot_be_read_holds_no_models() {
    assert!(list_models(None).is_empty());
    assert!(list_models(entries(&[])).is_empty());
}

#[test]
fn the_window_is_shown_the_chosen_model() {
    let settings = Settings { model_file: "m.bin".to_string(), ..Settings::default() };
    let t = Transcriber::new("/data/models/m.bin".to_string());
    let info = model_info(&t, true, &settings);
    assert_eq!(info.path, "/data/models/m.bin");
    assert!(info.present);
    assert_eq!(info.url, DEFAULT_MODEL_URL);
    assert_eq!(info.filename, "m.bin");
}

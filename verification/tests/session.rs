use dictation::events::UiEvent;
use dictation::hotkey::{HotkeyError, Shortcut};
use dictation::session::{Command, Reply, Rest, Session};
use dictation::settings::Settings;

fn settings(hotkey: &str, model: &str, device: Option<&str>) -> Settings {
    Settings {
        hotkey: hotkey.to_string(),
        model_file: model.to_string(),
        input_device: device.map(|d| d.to_string()),
    }
}

fn ok() -> Reply {
    Reply::Outcome(Ok(()))
}

fn err(e: &str) -> Reply {
    Reply::Outcome(Err(e.to_string()))
}

fn result(c: Command) -> Result<(), String> {
    match c {
        Command::Finished(r) => r,
        other => panic!("{:?}", other),
    }
}

fn started(hotkey: &str, model: &str, device: Option<&str>) -> Session {
    let mut s = Session::new(settings(hotkey, model, device));
    let c = s.start_listening();
    let c = s.resume(c, ok());
    let c = s.resume(c, ok());
    let c = s.resume(c, ok());
    assert_eq!(result(c), Ok(()));
    assert_eq!(s.listening_state(), "ready");
    s
}

#[test]
fn a_fresh_session_is_off() {
    let s = Session::new(settings("Ctrl+K", "m.bin", Some("Mic")));
    assert_eq!(s.listening_state(), "stopped");
    assert_eq!(s.microphone(), &None);
    assert_eq!(s.model_file(), "m.bin");
    assert_eq!(s.hotkey_label(), "Ctrl+K");
    let kept = s.get_settings();
    assert_eq!(kept.model_file, "m.bin");
    assert_eq!(kept.input_device.as_deref(), Some("Mic"));
}

#[test]
fn starting_opens_the_microphone_and_registers_the_hotkey() {
    let mut s = Session::new(settings("Ctrl+K", "m.bin", Some("Mic")));
    let c = s.start_listening();
    assert!(matches!(&c, Command::ArmToStart(Some(d), k) if d == "Mic" && k.key == "KeyK"));
    let c = s.resume(c, ok());
    assert!(matches!(&c, Command::RegisterToStart(k) if k.mods == 0x8 && k.key == "KeyK"));
    let c = s.resume(c, ok());
    assert!(matches!(&c, Command::Announce(UiEvent::ListenerState(true), None)));
    assert_eq!(s.listening_state(), "ready");
    let c = s.resume(c, ok());
    assert_eq!(result(c), Ok(()));
    assert_eq!(result(s.start_listening()), Ok(()));
}

#[test]
fn a_broken_hotkey_starts_with_the_fallback() {
    let s = Session::new(settings("no such key", "m.bin", None));
    let c = s.start_listening();
    assert!(matches!(&c, Command::ArmToStart(None, k) if k.mods == 0 && k.key == "F13"));
}

#[test]
fn a_given_shortcut_starts_as_well() {
    let s = Session::new(settings("F13", "m.bin", None));
    let k = Shortcut { mods: 1, key: "F1".to_string() };
    assert!(matches!(s.start_with(k), Command::ArmToStart(None, k) if k.mods == 1 && k.key == "F1"));
}

#[test]
fn a_start_that_fails_leaves_the_listener_off() {
    let mut s = Session::new(settings("F13", "m.bin", None));
    let c = s.start_listening();
    let c = s.resume(c, err("no mic"));
    assert_eq!(result(c), Err("Could not arm audio: no mic".to_string()));
    let c = s.start_listening();
    let c = s.resume(c, ok());
    let c = s.resume(c, err("taken"));
    assert_eq!(result(c), Err("Could not register hotkey: taken".to_string()));
    assert_eq!(s.listening_state(), "stopped");
    assert_eq!(s.microphone(), &Some(None));
    assert_eq!(result(s.stop_listening()), Ok(()));
    assert_eq!(s.microphone(), &Some(None));
}

#[test]
fn a_start_after_a_refused_hotkey_uses_the_microphone_of_the_settings() {
    let mut s = Session::new(settings("F13", "m.bin", Some("Old")));
    let c = s.start_listening();
    let c = s.resume(c, ok());
    let c = s.resume(c, err("taken"));
    assert!(matches!(c, Command::Finished(Err(_))));
    assert!(matches!(s.start_listening(), Command::ArmToStart(Some(d), _) if d == "Old"));
    let c = Session::update_settings(settings("F13", "m.bin", Some("New")));
    let c = s.resume(c, ok());
    assert_eq!(result(c), Ok(()));
    assert_eq!(s.microphone(), &Some(Some("Old".to_string())));
    let c = s.start_listening();
    assert!(matches!(&c, Command::DisarmToStart(k) if k.key == "F13"));
    let c = s.resume(c, ok());
    assert!(matches!(&c, Command::ArmToStart(Some(d), _) if d == "New"));
    let c = s.resume(c, ok());
    let c = s.resume(c, ok());
    let c = s.resume(c, ok());
    assert_eq!(result(c), Ok(()));
    assert_eq!(s.listening_state(), "ready");
    assert_eq!(s.microphone(), &Some(Some("New".to_string())));
}

#[test]
fn the_last_start_or_stop_that_succeeded_counts() {
    let mut s = Session::new(settings("F13", "m.bin", None));
    let c = s.start_listening();
    swaps(&mut s, c, |i| i == 0);
    assert_eq!(s.listening_state(), "stopped");
    let c = s.start_listening();
    swaps(&mut s, c, |_| true);
    assert_eq!(s.listening_state(), "ready");
    let c = Session::update_settings(settings("F14", "n.bin", Some("Mic")));
    swaps(&mut s, c, |i| i == 0);
    assert_eq!(s.listening_state(), "ready");
    assert_eq!(result(s.start_listening()), Ok(()));
    assert_eq!(s.listening_state(), "ready");
    let c = s.stop_listening();
    swaps(&mut s, c, |_| false);
    assert_eq!(s.listening_state(), "stopped");
    let c = Session::update_settings(settings("F15", "n.bin", None));
    swaps(&mut s, c, |_| true);
    assert_eq!(s.listening_state(), "stopped");
}

#[test]
fn stopping_gives_back_what_starting_took() {
    let mut s = started("Ctrl+K", "m.bin", None);
    let c = s.stop_listening();
    assert!(matches!(&c, Command::UnregisterToStop(k) if k.mods == 0x8 && k.key == "KeyK"));
    let c = s.resume(c, err("ignored"));
    assert!(matches!(c, Command::DisarmToStop));
    let c = s.resume(c, ok());
    assert!(matches!(&c, Command::Announce(UiEvent::ListenerState(false), None)));
    let c = s.resume(c, ok());
    assert_eq!(result(c), Ok(()));
    assert_eq!(s.listening_state(), "stopped");
    assert_eq!(result(s.stop_listening()), Ok(()));
}

#[test]
fn an_invalid_hotkey_is_refused_before_it_is_saved() {
    let c = Session::update_settings(settings("Ctrl+\"", "m.bin", None));
    assert_eq!(
        result(c),
        Err("invalid hotkey \"Ctrl+\\\"\": Couldn't recognize \"\"\" as a valid key for hotkey, if you feel like it should be, please report this to https://github.com/tauri-apps/muda".to_string())
    );
    let refused = Err(HotkeyError::EmptyToken("+".to_string()));
    let c = Session::update_with(refused, "\"+\"", settings("+", "m.bin", None));
    assert_eq!(
        result(c),
        Err("invalid hotkey \"+\": Found empty token while parsing hotkey: +".to_string())
    );
}

#[test]
fn settings_that_cannot_be_saved_do_not_apply() {
    let mut s = started("F13", "m.bin", None);
    let c = Session::update_settings(settings("F14", "n.bin", None));
    assert!(matches!(&c, Command::Save(new, k) if new.hotkey == "F14" && k.key == "F14"));
    let c = s.resume(c, err("mkdir: boom"));
    assert_eq!(result(c), Err("mkdir: boom".to_string()));
    assert_eq!(s.hotkey_label(), "F13");
    assert_eq!(s.get_settings().model_file, "m.bin");
}

#[test]
fn a_new_hotkey_applies_live() {
    let mut s = started("F13", "m.bin", None);
    let c = Session::update_settings(settings("F14", "m.bin", None));
    let c = s.resume(c, ok());
    let none = Rest { device: false, model: false };
    assert!(matches!(&c, Command::Unregister(o, k, r) if o.key == "F13" && k.key == "F14" && *r == none));
    let c = s.resume(c, err("ignored"));
    assert!(matches!(&c, Command::Register(k, _) if k.key == "F14"));
    let c = s.resume(c, ok());
    assert_eq!(result(c), Ok(()));
    assert_eq!(s.hotkey_label(), "F14");
    let c = s.stop_listening();
    assert!(matches!(&c, Command::UnregisterToStop(k) if k.key == "F14"));
}

#[test]
fn a_hotkey_that_cannot_be_registered_leaves_none_registered() {
    let mut s = started("F13", "m.bin", None);
    let c = Session::update_settings(settings("F14", "n.bin", Some("Mic")));
    let c = s.resume(c, ok());
    let c = s.resume(c, ok());
    let c = s.resume(c, err("taken"));
    let told = "register new hotkey: taken";
    assert!(matches!(&c, Command::Disarm(true, Some(e)) if e == told));
    let c = s.resume(c, ok());
    assert!(matches!(&c, Command::ArmDevice(Some(d), true, Some(e)) if d == "Mic" && e == told));
    let c = s.resume(c, ok());
    assert!(matches!(&c, Command::SwapModel(f, Some(e)) if f == "n.bin" && e == told));
    let c = s.resume(c, Reply::ModelFound(true));
    assert!(matches!(&c, Command::Announce(UiEvent::ModelState(true), Some(e)) if e == told));
    let c = s.resume(c, ok());
    assert_eq!(result(c), Err(told.to_string()));
    assert_eq!(s.hotkey_label(), "F14");
    assert_eq!(s.listening_state(), "ready");
    let c = Session::update_settings(settings("F15", "n.bin", Some("Mic")));
    let c = s.resume(c, ok());
    assert!(matches!(&c, Command::Register(k, _) if k.key == "F15"));
}

#[test]
fn a_hotkey_that_cannot_be_given_back_stays_registered() {
    let mut s = started("F13", "m.bin", None);
    let c = Session::update_settings(settings("F14", "m.bin", None));
    let c = s.resume(c, ok());
    let c = s.resume(c, err("stuck"));
    let c = s.resume(c, err("taken"));
    assert_eq!(result(c), Err("register new hotkey: taken".to_string()));
    let c = s.stop_listening();
    assert!(matches!(&c, Command::UnregisterToStop(k) if k.key == "F13"));
}

#[test]
fn a_new_microphone_is_opened() {
    let mut s = started("F13", "m.bin", None);
    let c = Session::update_settings(settings("F13", "m.bin", Some("Mic")));
    let c = s.resume(c, ok());
    assert!(matches!(c, Command::Disarm(false, None)));
    let c = s.resume(c, ok());
    assert!(matches!(&c, Command::ArmDevice(Some(d), false, None) if d == "Mic"));
    let c = s.resume(c, ok());
    assert_eq!(result(c), Ok(()));
}

#[test]
fn a_microphone_that_fails_falls_back_to_the_default() {
    let mut s = started("F13", "m.bin", None);
    let c = Session::update_settings(settings("F13", "n.bin", Some("Mic")));
    let c = s.resume(c, ok());
    assert!(matches!(c, Command::Disarm(true, None)));
    let c = s.resume(c, ok());
    let c = s.resume(c, err("gone"));
    let told = "Mic change failed, fell back to default: gone";
    assert!(matches!(&c, Command::ArmDefault(e, true) if e == told));
    let c = s.resume(c, err("gone too"));
    assert!(matches!(&c, Command::SwapModel(f, Some(e)) if f == "n.bin" && e == told));
    let c = s.resume(c, Reply::ModelFound(true));
    assert!(matches!(&c, Command::Announce(UiEvent::ModelState(true), Some(e)) if e == told));
    let c = s.resume(c, ok());
    assert_eq!(result(c), Err(told.to_string()));
    assert_eq!(s.listening_state(), "ready");
}

#[test]
fn a_microphone_that_fails_is_all_that_fails() {
    let mut s = started("F13", "m.bin", None);
    let c = Session::update_settings(settings("F13", "m.bin", Some("Mic")));
    let c = s.resume(c, ok());
    let c = s.resume(c, ok());
    let c = s.resume(c, err("gone"));
    assert!(matches!(&c, Command::ArmDefault(_, false)));
    let c = s.resume(c, ok());
    assert_eq!(result(c), Err("Mic change failed, fell back to default: gone".to_string()));
}

#[test]
fn the_first_of_two_errors_is_told() {
    let mut s = started("F13", "m.bin", None);
    let c = Session::update_settings(settings("F14", "n.bin", Some("Mic")));
    let c = s.resume(c, ok());
    let c = s.resume(c, ok());
    let c = s.resume(c, err("taken"));
    let c = s.resume(c, ok());
    let c = s.resume(c, err("gone"));
    assert!(matches!(&c, Command::ArmDefault(e, true) if e == "register new hotkey: taken"));
    let c = s.resume(c, ok());
    assert!(matches!(&c, Command::SwapModel(f, _) if f == "n.bin"));
    let c = s.resume(c, Reply::ModelFound(false));
    let c = s.resume(c, ok());
    assert_eq!(result(c), Err("register new hotkey: taken".to_string()));
}

/// Gives `reply(i)` to the step `i`, and counts how often another model is asked for.
fn swaps(s: &mut Session, first: Command, reply: impl Fn(usize) -> bool) -> usize {
    let mut c = first;
    let mut n = 0;
    let mut i = 0;
    while !matches!(c, Command::Finished(_)) {
        let swap = matches!(&c, Command::SwapModel(f, _) if f == "n.bin");
        n += usize::from(swap);
        let r = if swap {
            Reply::ModelFound(true)
        } else if reply(i) {
            ok()
        } else {
            err("no")
        };
        c = s.resume(c, r);
        i += 1;
    }
    n
}

#[test]
fn a_saved_model_is_asked_for_whatever_fails() {
    for failing in 0..256usize {
        let mut s = started("F13", "m.bin", None);
        let c = Session::update_settings(settings("F14", "n.bin", Some("Mic")));
        let saved = s.resume(c, ok());
        assert_eq!(swaps(&mut s, saved, |i| failing >> i & 1 == 0), 1);
        let again = Session::update_settings(settings("F14", "n.bin", Some("Mic")));
        assert_eq!(swaps(&mut s, again, |_| true), 0);
    }
}

#[test]
fn everything_can_change_at_once() {
    let mut s = started("F13", "m.bin", Some("Old"));
    let c = Session::update_settings(settings("F14", "n.bin", None));
    let c = s.resume(c, ok());
    let c = s.resume(c, ok());
    let c = s.resume(c, ok());
    assert!(matches!(c, Command::Disarm(true, None)));
    let c = s.resume(c, ok());
    assert!(matches!(c, Command::ArmDevice(None, true, None)));
    let c = s.resume(c, ok());
    assert!(matches!(&c, Command::SwapModel(f, None) if f == "n.bin"));
    let c = s.resume(c, ok());
    assert!(matches!(&c, Command::SwapModel(_, None)));
    let c = s.resume(c, Reply::ModelFound(false));
    assert!(matches!(&c, Command::Announce(UiEvent::ModelState(false), None)));
    let c = s.resume(c, ok());
    assert_eq!(result(c), Ok(()));
}

#[test]
fn a_listener_that_is_off_only_swaps_the_model() {
    let mut s = Session::new(settings("F13", "m.bin", None));
    let c = Session::update_settings(settings("F14", "n.bin", Some("Mic")));
    let c = s.resume(c, ok());
    assert!(matches!(&c, Command::SwapModel(f, None) if f == "n.bin"));
    let c = Session::update_settings(settings("F15", "n.bin", None));
    let c = s.resume(c, ok());
    assert_eq!(result(c), Ok(()));
    assert_eq!(s.hotkey_label(), "F15");
}

#[test]
fn what_succeeds_leaves_everything_as_the_settings_say() {
    let mut s = started("F13", "m.bin", None);
    assert_eq!(s.microphone(), &Some(None));
    let c = Session::update_settings(settings("F14", "n.bin", Some("Mic")));
    assert_eq!(swaps(&mut s, c, |_| true), 1);
    assert_eq!(s.microphone(), &Some(Some("Mic".to_string())));
    assert_eq!(s.model_file(), "n.bin");
    let c = s.stop_listening();
    assert!(matches!(&c, Command::UnregisterToStop(k) if k.key == "F14"));
    assert_eq!(swaps(&mut s, c, |_| true), 0);
    assert_eq!(s.microphone(), &None);
    let c = Session::update_settings(settings("F14", "o.bin", None));
    let c = s.resume(c, ok());
    let c = s.resume(c, Reply::ModelFound(true));
    let c = s.resume(c, ok());
    assert_eq!(result(c), Ok(()));
    assert_eq!(s.model_file(), "o.bin");
    assert_eq!(s.microphone(), &None);
}

#[test]
fn a_failed_microphone_leaves_the_default_one_open() {
    let mut s = started("F13", "m.bin", Some("Old"));
    assert_eq!(s.microphone(), &Some(Some("Old".to_string())));
    let c = Session::update_settings(settings("F13", "m.bin", Some("Mic")));
    let c = s.resume(c, ok());
    let c = s.resume(c, ok());
    assert_eq!(s.microphone(), &None);
    let c = s.resume(c, err("gone"));
    let c = s.resume(c, ok());
    assert!(matches!(c, Command::Finished(Err(_))));
    assert_eq!(s.microphone(), &Some(None));
}

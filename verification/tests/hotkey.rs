use dictation::hotkey::{
    invalid_hotkey, parse_hotkey, parse_shortcut, shortcut_or, HotkeyError, Shortcut,
    FALLBACK_HOTKEY,
};

#[test]
fn a_single_key_has_no_modifiers() {
    let k = parse_shortcut("F14").unwrap();
    assert_eq!((k.mods, k.key.as_str()), (0, "F14"));
    let k = parse_shortcut("r").unwrap();
    assert_eq!((k.mods, k.key.as_str()), (0, "KeyR"));
}

#[test]
fn modifiers_come_before_the_key() {
    let k = parse_shortcut("Ctrl+Shift+R").unwrap();
    assert_eq!((k.mods, k.key.as_str()), (0x208, "KeyR"));
    let k = parse_shortcut("CommandOrControl+Shift+Space").unwrap();
    assert!(k.mods == 0x208 || k.mods == 0x2200);
    assert_eq!(k.key, "Space");
}

#[test]
fn the_fallback_parses() {
    let k = parse_shortcut(FALLBACK_HOTKEY).unwrap();
    assert_eq!((k.mods, k.key.as_str()), (0, "F13"));
}

#[test]
fn a_text_that_is_no_hotkey_means_the_fallback() {
    for text in ["", "nonsense", "Ctrl+", "Shift+Ctrl", "Ctrl+C+A"] {
        let k = parse_hotkey(text);
        assert_eq!((k.mods, k.key.as_str()), (0, "F13"));
    }
    let k = parse_hotkey("Shift+F12");
    assert_eq!((k.mods, k.key.as_str()), (0x200, "F12"));
}

#[test]
fn an_unknown_key_is_named() {
    let e = parse_shortcut("Ctrl+Bogus").unwrap_err();
    assert!(matches!(&e, HotkeyError::UnsupportedKey(k) if k == "Bogus"));
    assert_eq!(
        e.message(),
        "Couldn't recognize \"Bogus\" as a valid key for hotkey, if you feel like it should be, please report this to https://github.com/tauri-apps/muda"
    );
}

#[test]
fn an_empty_part_is_refused() {
    let e = parse_shortcut("Ctrl++A").unwrap_err();
    assert!(matches!(&e, HotkeyError::EmptyToken(t) if t == "Ctrl++A"));
    assert_eq!(e.message(), "Found empty token while parsing hotkey: Ctrl++A");
}

#[test]
fn modifiers_alone_are_refused() {
    let e = parse_shortcut("Shift+Ctrl").unwrap_err();
    assert!(matches!(&e, HotkeyError::InvalidFormat(t) if t == "Shift+Ctrl"));
    assert_eq!(
        e.message(),
        "Invalid hotkey format: \"Shift+Ctrl\", an hotkey should have the modifiers first and only one main key, for example: \"Shift + Alt + K\""
    );
}

#[test]
fn messages_are_those_of_the_parser() {
    for text in ["Ctrl+Bogus", "Ctrl++A", "Shift+Ctrl", "A+B", ""] {
        let theirs = text.parse::<global_hotkey::hotkey::HotKey>().unwrap_err().to_string();
        assert_eq!(parse_shortcut(text).unwrap_err().message(), theirs);
    }
}

#[test]
fn a_refusal_quotes_the_hotkey() {
    let e = HotkeyError::EmptyToken("+".to_string());
    assert_eq!(
        invalid_hotkey("\"+\"", &e),
        "invalid hotkey \"+\": Found empty token while parsing hotkey: +"
    );
}

#[test]
fn the_fallback_is_for_what_was_not_parsed() {
    let key = |name: &str| Shortcut { mods: 1, key: name.to_string() };
    assert_eq!(shortcut_or(Ok(key("KeyA")), key("KeyB")).key, "KeyA");
    let refused = Err(HotkeyError::EmptyToken("+".to_string()));
    let k = shortcut_or(refused, key("KeyB"));
    assert_eq!((k.mods, k.key.as_str()), (1, "KeyB"));
}

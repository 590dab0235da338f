//! The dictation hotkey: from the text in the settings to a key combination.

use std::str::FromStr;

use global_hotkey::hotkey::{HotKey, HotKeyParseError};
use vstd::prelude::*;

use crate::text::join;

verus! {

/// The hotkey that stands in for one that cannot be parsed (a corrupt file, a typo). F13
/// has no modifiers and is unlikely to be pressed by accident.
pub const FALLBACK_HOTKEY: &'static str = "F13";

/// A key combination that can be registered with the system.
#[derive(Debug)]
pub struct Shortcut {
    /// The modifier keys, one bit each.
    pub mods: u32,
    /// The name of the key, such as `F13` or `KeyR`.
    pub key: String,
}

/// The model of a [`Shortcut`].
pub struct ShortcutView {
    pub mods: u32,
    pub key: Seq<char>,
}

impl View for Shortcut {
    type V = ShortcutView;

    open spec fn view(&self) -> ShortcutView {
        ShortcutView { mods: self.mods, key: self.key@ }
    }
}

impl Clone for Shortcut {
    fn clone(&self) -> (r: Self)
        ensures
            r == *self,
    {
        Shortcut { mods: self.mods, key: self.key.clone() }
    }
}

/// Why a text is no hotkey.
#[derive(Debug)]
pub enum HotkeyError {
    /// The key, which is given, has no known name.
    UnsupportedKey(String),
    /// There is nothing between two plus signs of the text.
    EmptyToken(String),
    /// The text has no key, or something behind its key.
    InvalidFormat(String),
}

/// The model of a [`HotkeyError`].
pub enum HotkeyErrorView {
    UnsupportedKey(Seq<char>),
    EmptyToken(Seq<char>),
    InvalidFormat(Seq<char>),
}

impl View for HotkeyError {
    type V = HotkeyErrorView;

    open spec fn view(&self) -> HotkeyErrorView {
        match self {
            HotkeyError::UnsupportedKey(t) => HotkeyErrorView::UnsupportedKey(t@),
            HotkeyError::EmptyToken(t) => HotkeyErrorView::EmptyToken(t@),
            HotkeyError::InvalidFormat(t) => HotkeyErrorView::InvalidFormat(t@),
        }
    }
}

/// What the hotkey parser makes of a text: the modifiers where `CommandOrControl` is the
/// command key (macOS), the modifiers where it is the control key (elsewhere), and the
/// name of the key; or the error.
pub uninterp spec fn hotkey_parse(text: Seq<char>) -> Result<
    (u32, u32, Seq<char>),
    HotkeyErrorView,
>;

/// Whether `text` is a hotkey, and `s` is one that it stands for.
pub open spec fn spells(text: Seq<char>, s: ShortcutView) -> bool {
    match hotkey_parse(text) {
        Ok((command, control, key)) => (s.mods == command || s.mods == control) && s.key == key,
        Err(_) => false,
    }
}

/// The key combination of [`FALLBACK_HOTKEY`].
pub open spec fn fallback_shortcut() -> ShortcutView {
    ShortcutView { mods: 0, key: FALLBACK_HOTKEY@ }
}

/// Whether `s` is what pressing the hotkey `text` means: what the text spells, or the
/// fallback where it spells nothing.
pub open spec fn denotes(text: Seq<char>, s: ShortcutView) -> bool {
    if hotkey_parse(text) is Ok {
        spells(text, s)
    } else {
        s == fallback_shortcut()
    }
}

/// The text that tells the user about a [`HotkeyError`].
pub open spec fn error_message(e: HotkeyErrorView) -> Seq<char> {
    match e {
        HotkeyErrorView::UnsupportedKey(t) => "Couldn't recognize \""@ + t
            + "\" as a valid key for hotkey, if you feel like it should be, please report this to https://github.com/tauri-apps/muda"@,
        HotkeyErrorView::EmptyToken(t) => "Found empty token while parsing hotkey: "@ + t,
        HotkeyErrorView::InvalidFormat(t) => "Invalid hotkey format: \""@ + t
            + "\", an hotkey should have the modifiers first and only one main key, for example: \"Shift + Alt + K\""@,
    }
}

impl HotkeyError {
    /// The text that tells the user about the error.
    pub fn message(&self) -> (r: String)
        ensures
            r@ == error_message(self@),
    {
        match self {
            HotkeyError::UnsupportedKey(t) => join("Couldn't recognize \"", t).concat(
                "\" as a valid key for hotkey, if you feel like it should be, please report this to https://github.com/tauri-apps/muda",
            ),
            HotkeyError::EmptyToken(t) => join("Found empty token while parsing hotkey: ", t),
            HotkeyError::InvalidFormat(t) => join("Invalid hotkey format: \"", t).concat(
                "\", an hotkey should have the modifiers first and only one main key, for example: \"Shift + Alt + K\"",
            ),
        }
    }
}

/// Calls `HotKey::from_str` of `global_hotkey`, which splits the text at plus signs,
/// takes all but the last part as modifiers and the last as the key. The contract claims
/// that success, the key and the error depend on the text alone; that the modifiers do
/// too, but for the two readings of `CommandOrControl`, of which the system's own is
/// taken; and that `F13` is a hotkey without modifiers.
#[verifier::external_body]
fn hotkey_from_str(text: &str) -> (r: Result<Shortcut, HotkeyError>)
    ensures
        r is Ok ==> spells(text@, r->Ok_0@),
        r is Err ==> hotkey_parse(text@) is Err && hotkey_parse(text@)->Err_0 == r->Err_0@,
        text@ == FALLBACK_HOTKEY@ ==> r is Ok && r->Ok_0@ == fallback_shortcut(),
{
    match HotKey::from_str(text) {
        Ok(k) => Ok(Shortcut { mods: k.mods.bits(), key: k.key.to_string() }),
        Err(HotKeyParseError::UnsupportedKey(t)) => Err(HotkeyError::UnsupportedKey(t)),
        Err(HotKeyParseError::EmptyToken(t)) => Err(HotkeyError::EmptyToken(t)),
        Err(HotKeyParseError::InvalidFormat(t)) => Err(HotkeyError::InvalidFormat(t)),
    }
}

/// The key combination that `text` spells, or why it spells none.
pub fn parse_shortcut(text: &str) -> (r: Result<Shortcut, HotkeyError>)
    ensures
        r is Ok <==> hotkey_parse(text@) is Ok,
        r matches Ok(s) ==> spells(text@, s@),
        r matches Err(e) ==> (hotkey_parse(text@) matches Err(x) && x == e@),
        text@ == FALLBACK_HOTKEY@ ==> (r matches Ok(s) && s@ == fallback_shortcut()),
{
    hotkey_from_str(text)
}

/// The key combination of the hotkey `s`, and that of [`FALLBACK_HOTKEY`] where `s` is no
/// hotkey.
pub fn parse_hotkey(s: &str) -> (r: Shortcut)
    ensures
        denotes(s@, r@),
        s@ == FALLBACK_HOTKEY@ ==> r@ == fallback_shortcut(),
{
    let fallback: Shortcut = match parse_shortcut(FALLBACK_HOTKEY) {
        Ok(k) => k,
        Err(_) => vstd::pervasive::unreached(),
    };
    shortcut_or(parse_shortcut(s), fallback)
}

/// The key combination that was parsed, and `fallback` where there is none.
pub fn shortcut_or(parsed: Result<Shortcut, HotkeyError>, fallback: Shortcut) -> (r: Shortcut)
    ensures
        r == (match parsed {
            Ok(k) => k,
            Err(_) => fallback,
        }),
{
    match parsed {
        Ok(k) => k,
        Err(_) => fallback,
    }
}

/// What the user reads when a hotkey is refused. `quoted` is the hotkey in quotes.
pub fn invalid_hotkey(quoted: &str, error: &HotkeyError) -> (r: String)
    ensures
        r@ == "invalid hotkey "@ + quoted@ + ": "@ + error_message(error@),
{
    join("invalid hotkey ", quoted).concat(": ").concat(error.message().as_str())
}

/// Every text stands for a shortcut, so that no hotkey in the settings can keep the app
/// from listening. A text that is accepted as a hotkey stands for what it spells.
pub proof fn law_every_hotkey_denotes_a_shortcut(text: Seq<char>, s: ShortcutView)
    ensures
        exists|k: ShortcutView| denotes(text, k),
        hotkey_parse(text) is Ok ==> (denotes(text, s) <==> spells(text, s)),
        hotkey_parse(text) is Err ==> (denotes(text, s) <==> s == fallback_shortcut()),
{
    match hotkey_parse(text) {
        Ok((command, _, key)) => {
            assert(denotes(text, ShortcutView { mods: command, key }));
        },
        Err(_) => {
            assert(denotes(text, fallback_shortcut()));
        },
    }
}

/// A text that the parser takes means the key that the parser gives, with one of its two
/// readings of the modifiers; a text that it refuses means F13 alone.
pub proof fn law_what_a_hotkey_means(text: Seq<char>, s: ShortcutView)
    ensures
        hotkey_parse(text) matches Ok((command, control, key)) ==> (denotes(text, s) <==> s.key
            == key && (s.mods == command || s.mods == control)),
        hotkey_parse(text) matches Ok(_) ==> (denotes(text, s) <==> spells(text, s)),
        hotkey_parse(text) is Err ==> (denotes(text, s) <==> s.key == "F13"@ && s.mods == 0),
        hotkey_parse(text) is Err ==> !spells(text, s),
{
}

/// What the user is told of a refused hotkey names what was refused, all of it.
pub proof fn law_refusals_name_what_was_refused(t: Seq<char>)
    ensures
        error_message(HotkeyErrorView::UnsupportedKey(t)) == "Couldn't recognize \""@ + t
            + "\" as a valid key for hotkey, if you feel like it should be, please report this to https://github.com/tauri-apps/muda"@,
        error_message(HotkeyErrorView::EmptyToken(t))
            == "Found empty token while parsing hotkey: "@ + t,
        error_message(HotkeyErrorView::InvalidFormat(t)) == "Invalid hotkey format: \""@ + t
            + "\", an hotkey should have the modifiers first and only one main key, for example: \"Shift + Alt + K\""@,
{
}

/// Shortcuts and errors are seen as they are: every modifier and every character.
pub proof fn law_shortcuts_are_seen_as_they_are(s: Shortcut, text: String)
    ensures
        s@.mods == s.mods,
        s@.key == s.key@,
        HotkeyError::UnsupportedKey(text)@ == HotkeyErrorView::UnsupportedKey(text@),
        HotkeyError::EmptyToken(text)@ == HotkeyErrorView::EmptyToken(text@),
        HotkeyError::InvalidFormat(text)@ == HotkeyErrorView::InvalidFormat(text@),
{
}

} // verus!

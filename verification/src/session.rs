//! The listener: whether it is on, with which settings, and what each command does to it.
//!
//! A command is carried out in steps. Each step names the work that the system has to do
//! next, and the reply to that work decides what follows.

use vstd::prelude::*;

use crate::events::{listener_state, listener_text, UiEvent, UiEventView};
use crate::hotkey::{
    denotes, error_message, hotkey_parse, invalid_hotkey, parse_hotkey, parse_shortcut, spells,
    HotkeyError, HotkeyErrorView, Shortcut, ShortcutView,
};
use crate::settings::{copy_device, same_device, Settings, SettingsView};
use crate::text::{debug_text, join, opt_view, quoted, reply_view};

verus! {

/// Whether the listener is on, and with which settings.
pub struct Session {
    /// Whether the dictation hotkey is armed.
    active: bool,
    /// The settings in force.
    settings: Settings,
    /// The shortcut that is registered with the system, so that exactly this one can be
    /// unregistered after the hotkey in the settings has changed.
    registered_shortcut: Option<Shortcut>,
    /// The microphone that is open, if one is: this one, or the default one.
    microphone: Option<Option<String>>,
    /// The model file that the next transcription uses.
    model_file: String,
}

/// The model of a [`Session`].
pub struct SessionView {
    pub active: bool,
    pub settings: SettingsView,
    pub registered: Option<ShortcutView>,
    pub microphone: Option<Option<Seq<char>>>,
    pub model_file: Seq<char>,
}

/// An optional shortcut, as its model.
pub open spec fn shortcut_view(s: Option<Shortcut>) -> Option<ShortcutView> {
    match s {
        Some(k) => Some(k@),
        None => None,
    }
}

/// A microphone that may be open, with its name as characters.
pub open spec fn microphone_view(m: Option<Option<String>>) -> Option<Option<Seq<char>>> {
    match m {
        Some(device) => Some(opt_view(device)),
        None => None,
    }
}

impl View for Session {
    type V = SessionView;

    closed spec fn view(&self) -> SessionView {
        SessionView {
            active: self.active,
            settings: self.settings@,
            registered: shortcut_view(self.registered_shortcut),
            microphone: microphone_view(self.microphone),
            model_file: self.model_file@,
        }
    }
}

/// Where a command has got to: the work that comes next, or the end.
#[derive(Debug)]
pub enum Command {
    /// To start: close the microphone, which is not the one in the settings; the shortcut
    /// is to be registered later.
    DisarmToStart(Shortcut),
    /// To start: open this microphone; the shortcut is to be registered then.
    ArmToStart(Option<String>, Shortcut),
    /// To start: register this shortcut.
    RegisterToStart(Shortcut),
    /// To stop: unregister this shortcut.
    UnregisterToStop(Shortcut),
    /// To stop: close the microphone.
    DisarmToStop,
    /// To change the settings: write them to disk. The shortcut is that of their hotkey.
    Save(Settings, Shortcut),
    /// To change the hotkey: unregister the first shortcut; the second is to be registered
    /// then. The rest is still to be changed.
    Unregister(Shortcut, Shortcut, Rest),
    /// To change the hotkey: register this shortcut. The rest is still to be changed.
    Register(Shortcut, Rest),
    /// To change the microphone: close it. The flag is whether the model is still to be
    /// changed, and the text is the error to report at the end.
    Disarm(bool, Option<String>),
    /// To change the microphone: open this one. The flag is whether the model is still to
    /// be changed, and the text is the error to report at the end.
    ArmDevice(Option<String>, bool, Option<String>),
    /// The microphone failed to open: open the default one. The text is the error to report
    /// at the end, and the flag is whether the model is still to be changed.
    ArmDefault(String, bool),
    /// To change the model: use this file from now on, and see whether it is there. The
    /// text is the error to report at the end.
    SwapModel(String, Option<String>),
    /// Tell the window. The text is the error to report at the end.
    Announce(UiEvent, Option<String>),
    /// Nothing is left to do.
    Finished(Result<(), String>),
}

/// What a change of settings has still to apply besides the hotkey.
#[derive(Clone, Copy, Debug, PartialEq, Eq, Structural)]
pub struct Rest {
    /// Whether the microphone is to be changed.
    pub device: bool,
    /// Whether the model is to be changed.
    pub model: bool,
}

/// What the work of a step came to.
#[derive(Debug)]
pub enum Reply {
    /// It was done, or failed.
    Outcome(Result<(), String>),
    /// The model file was looked for, and is there or not.
    ModelFound(bool),
}

/// The model of a [`Command`].
pub enum CommandView {
    DisarmToStart(ShortcutView),
    ArmToStart(Option<Seq<char>>, ShortcutView),
    RegisterToStart(ShortcutView),
    UnregisterToStop(ShortcutView),
    DisarmToStop,
    Save(SettingsView, ShortcutView),
    Unregister(ShortcutView, ShortcutView, Rest),
    Register(ShortcutView, Rest),
    Disarm(bool, Option<Seq<char>>),
    ArmDevice(Option<Seq<char>>, bool, Option<Seq<char>>),
    ArmDefault(Seq<char>, bool),
    SwapModel(Seq<char>, Option<Seq<char>>),
    Announce(UiEventView, Option<Seq<char>>),
    Finished(Result<(), Seq<char>>),
}

impl View for Command {
    type V = CommandView;

    open spec fn view(&self) -> CommandView {
        match self {
            Command::DisarmToStart(k) => CommandView::DisarmToStart(k@),
            Command::ArmToStart(d, k) => CommandView::ArmToStart(opt_view(*d), k@),
            Command::RegisterToStart(k) => CommandView::RegisterToStart(k@),
            Command::UnregisterToStop(k) => CommandView::UnregisterToStop(k@),
            Command::DisarmToStop => CommandView::DisarmToStop,
            Command::Save(s, k) => CommandView::Save(s@, k@),
            Command::Unregister(old_key, k, rest) => CommandView::Unregister(old_key@, k@, *rest),
            Command::Register(k, rest) => CommandView::Register(k@, *rest),
            Command::Disarm(model, e) => CommandView::Disarm(*model, opt_view(*e)),
            Command::ArmDevice(d, model, e) => CommandView::ArmDevice(
                opt_view(*d),
                *model,
                opt_view(*e),
            ),
            Command::ArmDefault(e, model) => CommandView::ArmDefault(e@, *model),
            Command::SwapModel(file, e) => CommandView::SwapModel(file@, opt_view(*e)),
            Command::Announce(event, e) => CommandView::Announce(event@, opt_view(*e)),
            Command::Finished(r) => CommandView::Finished(reply_view(*r)),
        }
    }
}

/// The model of a [`Reply`].
pub enum ReplyView {
    Outcome(Result<(), Seq<char>>),
    ModelFound(bool),
}

impl View for Reply {
    type V = ReplyView;

    open spec fn view(&self) -> ReplyView {
        match self {
            Reply::Outcome(r) => ReplyView::Outcome(reply_view(*r)),
            Reply::ModelFound(b) => ReplyView::ModelFound(*b),
        }
    }
}

/// The end of a command: with the error, if there was one.
pub open spec fn end(error: Option<Seq<char>>) -> CommandView {
    match error {
        Some(e) => CommandView::Finished(Err(e)),
        None => CommandView::Finished(Ok(())),
    }
}

/// What is done about the model once the microphone is settled. `error` is what is to be
/// reported at the end.
pub open spec fn change_model(s: SessionView, model: bool, error: Option<Seq<char>>) -> CommandView {
    if model {
        CommandView::SwapModel(s.settings.model_file, error)
    } else {
        end(error)
    }
}

/// What is done about the rest once the hotkey is settled. `error` is what is to be
/// reported at the end.
pub open spec fn change_rest(s: SessionView, rest: Rest, error: Option<Seq<char>>) -> CommandView {
    if rest.device {
        CommandView::Disarm(rest.model, error)
    } else {
        change_model(s, rest.model, error)
    }
}

/// What is to be reported where the microphone failed to open with `e`: that, unless there
/// was an error before.
pub open spec fn microphone_error(error: Option<Seq<char>>, e: Seq<char>) -> Seq<char> {
    match error {
        Some(first) => first,
        None => "Mic change failed, fell back to default: "@ + e,
    }
}

/// What is done once `new` is on disk: the settings are in force, and what differs from
/// the former ones is applied. The hotkey and the microphone are only touched while the
/// listener is on. `k` is the shortcut of the new hotkey.
pub open spec fn apply_settings(s: SessionView, new: SettingsView, k: ShortcutView) -> (
    SessionView,
    CommandView,
) {
    let rest = Rest {
        device: s.active && s.settings.input_device != new.input_device,
        model: s.settings.model_file != new.model_file,
    };
    let changed = SessionView { settings: new, ..s };
    (
        changed,
        if s.active && s.settings.hotkey != new.hotkey {
            match s.registered {
                Some(old_key) => CommandView::Unregister(old_key, k, rest),
                None => CommandView::Register(k, rest),
            }
        } else {
            change_rest(changed, rest, None)
        },
    )
}

/// The session, and the step that follows, once the work of `c` came to `reply`. A reply
/// that `c` does not wait for changes nothing.
pub open spec fn next(s: SessionView, c: CommandView, reply: ReplyView) -> (
    SessionView,
    CommandView,
) {
    match (c, reply) {
        (CommandView::DisarmToStart(k), ReplyView::Outcome(_)) => (
            SessionView { microphone: None, ..s },
            CommandView::ArmToStart(s.settings.input_device, k),
        ),
        (CommandView::ArmToStart(device, k), ReplyView::Outcome(Ok(_))) => (
            SessionView { microphone: Some(device), ..s },
            CommandView::RegisterToStart(k),
        ),
        (CommandView::ArmToStart(_, _), ReplyView::Outcome(Err(e))) => (
            s,
            CommandView::Finished(Err("Could not arm audio: "@ + e)),
        ),
        (CommandView::RegisterToStart(k), ReplyView::Outcome(Ok(_))) => (
            SessionView { active: true, registered: Some(k), ..s },
            CommandView::Announce(UiEventView::ListenerState(true), None),
        ),
        (CommandView::RegisterToStart(_), ReplyView::Outcome(Err(e))) => (
            s,
            CommandView::Finished(Err("Could not register hotkey: "@ + e)),
        ),
        (CommandView::UnregisterToStop(_), ReplyView::Outcome(_)) => (
            s,
            CommandView::DisarmToStop,
        ),
        (CommandView::DisarmToStop, ReplyView::Outcome(_)) => (
            SessionView { active: false, microphone: None, ..s },
            CommandView::Announce(UiEventView::ListenerState(false), None),
        ),
        (CommandView::Save(new, k), ReplyView::Outcome(Ok(_))) => apply_settings(s, new, k),
        (CommandView::Save(_, _), ReplyView::Outcome(Err(e))) => (
            s,
            CommandView::Finished(Err(e)),
        ),
        (CommandView::Unregister(_, k, rest), ReplyView::Outcome(Ok(_))) => (
            SessionView { registered: None, ..s },
            CommandView::Register(k, rest),
        ),
        (CommandView::Unregister(_, k, rest), ReplyView::Outcome(Err(_))) => (
            s,
            CommandView::Register(k, rest),
        ),
        (CommandView::Register(k, rest), ReplyView::Outcome(Ok(_))) => (
            SessionView { registered: Some(k), ..s },
            change_rest(s, rest, None),
        ),
        (CommandView::Register(_, rest), ReplyView::Outcome(Err(e))) => (
            s,
            change_rest(s, rest, Some("register new hotkey: "@ + e)),
        ),
        (CommandView::Disarm(model, error), ReplyView::Outcome(_)) => (
            SessionView { microphone: None, ..s },
            CommandView::ArmDevice(s.settings.input_device, model, error),
        ),
        (CommandView::ArmDevice(device, model, error), ReplyView::Outcome(Ok(_))) => (
            SessionView { microphone: Some(device), ..s },
            change_model(s, model, error),
        ),
        (CommandView::ArmDevice(_, model, error), ReplyView::Outcome(Err(e))) => (
            s,
            CommandView::ArmDefault(microphone_error(error, e), model),
        ),
        (CommandView::ArmDefault(error, model), ReplyView::Outcome(Ok(_))) => (
            SessionView { microphone: Some(None), ..s },
            change_model(s, model, Some(error)),
        ),
        (CommandView::ArmDefault(error, model), ReplyView::Outcome(Err(_))) => (
            s,
            change_model(s, model, Some(error)),
        ),
        (CommandView::SwapModel(file, error), ReplyView::ModelFound(b)) => (
            SessionView { model_file: file, ..s },
            CommandView::Announce(UiEventView::ModelState(b), error),
        ),
        (CommandView::Announce(_, error), ReplyView::Outcome(_)) => (s, end(error)),
        _ => (s, c),
    }
}

/// How starting begins; `k` is the shortcut of the hotkey in the settings. A start that
/// failed may have left a microphone open, and the settings may name another one by now.
pub open spec fn start_first(s: SessionView, k: ShortcutView) -> CommandView {
    if s.active {
        CommandView::Finished(Ok(()))
    } else if s.microphone is Some && s.microphone != Some(s.settings.input_device) {
        CommandView::DisarmToStart(k)
    } else {
        CommandView::ArmToStart(s.settings.input_device, k)
    }
}

/// The session, and how stopping begins.
pub open spec fn stop_first(s: SessionView) -> (SessionView, CommandView) {
    if !s.active {
        (s, CommandView::Finished(Ok(())))
    } else {
        (
            SessionView { registered: None, ..s },
            match s.registered {
                Some(k) => CommandView::UnregisterToStop(k),
                None => CommandView::DisarmToStop,
            },
        )
    }
}

/// A listener that is off.
pub open spec fn fresh_session(settings: SettingsView) -> SessionView {
    SessionView {
        active: false,
        settings,
        registered: None,
        microphone: None,
        model_file: settings.model_file,
    }
}

/// What the user reads when the hotkey `text` is refused for the reason `e`.
pub open spec fn refusal(text: Seq<char>, e: HotkeyErrorView) -> Seq<char> {
    "invalid hotkey "@ + debug_text(text) + ": "@ + error_message(e)
}

impl Session {
    /// A listener that is off.
    pub fn new(settings: Settings) -> (r: Self)
        ensures
            r@ == fresh_session(settings@),
    {
        let model_file: String = settings.model_file.clone();
        Session {
            active: false,
            settings,
            registered_shortcut: None,
            microphone: None,
            model_file,
        }
    }

    /// The hotkey in the settings.
    pub fn hotkey_label(&self) -> (r: String)
        ensures
            r@ == self@.settings.hotkey,
    {
        self.settings.hotkey.clone()
    }

    /// How the window calls the listener: `ready` where it is on, and `stopped` where it is
    /// off.
    pub fn listening_state(&self) -> (r: &'static str)
        ensures
            r@ == listener_text(self@.active),
    {
        listener_state(self.active)
    }

    /// The settings in force.
    pub fn get_settings(&self) -> (r: Settings)
        ensures
            r@ == self@.settings,
    {
        self.settings.clone()
    }

    /// The microphone that is open, if one is: this one, or the default one.
    pub fn microphone(&self) -> (r: &Option<Option<String>>)
        ensures
            microphone_view(*r) == self@.microphone,
    {
        &self.microphone
    }

    /// The model file that the next transcription uses.
    pub fn model_file(&self) -> (r: &str)
        ensures
            r@ == self@.model_file,
    {
        self.model_file.as_str()
    }

    /// How starting begins: with nothing to do where the listener is on, and otherwise with
    /// opening the microphone in the settings, once no other one is open.
    pub fn start_listening(&self) -> (r: Command)
        ensures
            exists|k: ShortcutView|
                denotes(self@.settings.hotkey, k) && r@ == #[trigger] start_first(self@, k),
    {
        let shortcut: Shortcut = parse_hotkey(self.settings.hotkey.as_str());
        let ghost k = shortcut@;
        let r: Command = self.start_with(shortcut);
        assert(r@ == start_first(self@, k));
        r
    }

    /// How starting begins; `shortcut` is that of the hotkey in the settings.
    pub fn start_with(&self, shortcut: Shortcut) -> (r: Command)
        ensures
            r@ == start_first(self@, shortcut@),
    {
        if self.active {
            return Command::Finished(Ok(()));
        }
        if let Some(open) = &self.microphone {
            if !same_device(open, &self.settings.input_device) {
                return Command::DisarmToStart(shortcut);
            }
        }
        Command::ArmToStart(copy_device(&self.settings.input_device), shortcut)
    }

    /// How stopping begins: with nothing to do where the listener is off, and otherwise
    /// with giving the registered shortcut back.
    pub fn stop_listening(&mut self) -> (r: Command)
        ensures
            (final(self)@, r@) == stop_first(old(self)@),
    {
        if !self.active {
            return Command::Finished(Ok(()));
        }
        match self.registered_shortcut.take() {
            Some(k) => Command::UnregisterToStop(k),
            None => Command::DisarmToStop,
        }
    }

    /// How a change of settings begins: with writing them to disk. A hotkey that cannot be
    /// parsed is refused before anything is written.
    pub fn update_settings(new_settings: Settings) -> (r: Command)
        ensures
            match hotkey_parse(new_settings@.hotkey) {
                Ok(_) => r@ matches CommandView::Save(s, k) && s == new_settings@ && spells(
                    new_settings@.hotkey,
                    k,
                ),
                Err(e) => r@ == CommandView::Finished(
                    Err(refusal(new_settings@.hotkey, e)),
                ),
            },
    {
        let parsed: Result<Shortcut, HotkeyError> = parse_shortcut(new_settings.hotkey.as_str());
        let q: String = quoted(new_settings.hotkey.as_str());
        Session::update_with(parsed, q.as_str(), new_settings)
    }

    /// How a change of settings begins. `parsed` is what parsing the new hotkey gave, and
    /// `quoted` that hotkey in quotes.
    pub fn update_with(
        parsed: Result<Shortcut, HotkeyError>,
        quoted: &str,
        new_settings: Settings,
    ) -> (r: Command)
        ensures
            r@ == (match parsed {
                Ok(k) => CommandView::Save(new_settings@, k@),
                Err(e) => CommandView::Finished(
                    Err("invalid hotkey "@ + quoted@ + ": "@ + error_message(e@)),
                ),
            }),
    {
        match parsed {
            Ok(k) => Command::Save(new_settings, k),
            Err(e) => Command::Finished(Err(invalid_hotkey(quoted, &e))),
        }
    }

    /// What is done about the model once the microphone is settled.
    fn change_model(&self, model: bool, error: Option<String>) -> (r: Command)
        ensures
            r@ == change_model(self@, model, opt_view(error)),
    {
        if model {
            Command::SwapModel(self.settings.model_file.clone(), error)
        } else {
            Command::ended(error)
        }
    }

    /// What is done about the rest once the hotkey is settled.
    fn change_rest(&self, rest: Rest, error: Option<String>) -> (r: Command)
        ensures
            r@ == change_rest(self@, rest, opt_view(error)),
    {
        if rest.device {
            Command::Disarm(rest.model, error)
        } else {
            self.change_model(rest.model, error)
        }
    }

    /// Puts `new` in force, now that it is on disk.
    fn apply_settings(&mut self, new: Settings, shortcut: Shortcut) -> (r: Command)
        ensures
            (final(self)@, r@) == apply_settings(old(self)@, new@, shortcut@),
    {
        let hotkey: bool = self.active && self.settings.hotkey != new.hotkey;
        let rest = Rest {
            device: self.active && !same_device(&self.settings.input_device, &new.input_device),
            model: self.settings.model_file != new.model_file,
        };
        self.settings = new;
        if hotkey {
            match &self.registered_shortcut {
                Some(old_key) => Command::Unregister(old_key.clone(), shortcut, rest),
                None => Command::Register(shortcut, rest),
            }
        } else {
            self.change_rest(rest, None)
        }
    }

    /// The step that follows `command` once its work came to `reply`.
    pub fn resume(&mut self, command: Command, reply: Reply) -> (r: Command)
        ensures
            (final(self)@, r@) == next(old(self)@, command@, reply@),
    {
        match (command, reply) {
            (Command::DisarmToStart(k), Reply::Outcome(_)) => {
                self.microphone = None;
                Command::ArmToStart(copy_device(&self.settings.input_device), k)
            },
            (Command::ArmToStart(device, k), Reply::Outcome(Ok(_))) => {
                self.microphone = Some(device);
                Command::RegisterToStart(k)
            },
            (Command::ArmToStart(_, _), Reply::Outcome(Err(e))) => Command::Finished(
                Err(join("Could not arm audio: ", e.as_str())),
            ),
            (Command::RegisterToStart(k), Reply::Outcome(Ok(_))) => {
                self.registered_shortcut = Some(k);
                self.active = true;
                Command::Announce(UiEvent::ListenerState(true), None)
            },
            (Command::RegisterToStart(_), Reply::Outcome(Err(e))) => Command::Finished(
                Err(join("Could not register hotkey: ", e.as_str())),
            ),
            (Command::UnregisterToStop(_), Reply::Outcome(_)) => Command::DisarmToStop,
            (Command::DisarmToStop, Reply::Outcome(_)) => {
                self.microphone = None;
                self.active = false;
                Command::Announce(UiEvent::ListenerState(false), None)
            },
            (Command::Save(new, k), Reply::Outcome(Ok(_))) => self.apply_settings(new, k),
            (Command::Save(_, _), Reply::Outcome(Err(e))) => Command::Finished(Err(e)),
            (Command::Unregister(_, k, rest), Reply::Outcome(Ok(_))) => {
                self.registered_shortcut = None;
                Command::Register(k, rest)
            },
            (Command::Unregister(_, k, rest), Reply::Outcome(Err(_))) => Command::Register(k, rest),
            (Command::Register(k, rest), Reply::Outcome(Ok(_))) => {
                self.registered_shortcut = Some(k);
                self.change_rest(rest, None)
            },
            (Command::Register(_, rest), Reply::Outcome(Err(e))) => self.change_rest(
                rest,
                Some(join("register new hotkey: ", e.as_str())),
            ),
            (Command::Disarm(model, error), Reply::Outcome(_)) => {
                self.microphone = None;
                Command::ArmDevice(copy_device(&self.settings.input_device), model, error)
            },
            (Command::ArmDevice(device, model, error), Reply::Outcome(Ok(_))) => {
                self.microphone = Some(device);
                self.change_model(model, error)
            },
            (Command::ArmDevice(_, model, error), Reply::Outcome(Err(e))) => {
                let told: String = match error {
                    Some(first) => first,
                    None => join("Mic change failed, fell back to default: ", e.as_str()),
                };
                Command::ArmDefault(told, model)
            },
            (Command::ArmDefault(error, model), Reply::Outcome(Ok(_))) => {
                self.microphone = Some(None);
                self.change_model(model, Some(error))
            },
            (Command::ArmDefault(error, model), Reply::Outcome(Err(_))) => self.change_model(
                model,
                Some(error),
            ),
            (Command::SwapModel(file, error), Reply::ModelFound(b)) => {
                self.model_file = file;
                Command::Announce(UiEvent::ModelState(b), error)
            },
            (Command::Announce(_, error), Reply::Outcome(_)) => Command::ended(error),
            (command, _) => command,
        }
    }
}

impl Command {
    /// The end of a command: with the error, if there was one.
    fn ended(error: Option<String>) -> (r: Command)
        ensures
            r@ == end(opt_view(error)),
    {
        match error {
            Some(e) => Command::Finished(Err(e)),
            None => Command::Finished(Ok(())),
        }
    }
}

/// What holds of a session between two commands, whatever failed: a listener that is off
/// has no shortcut registered, and the model in force is that of the settings.
pub open spec fn consistent(s: SessionView) -> bool {
    &&& s.registered is Some ==> s.active
    &&& s.model_file == s.settings.model_file
}

/// Whether everything is as the settings say: a listener that is on has the shortcut of the
/// hotkey registered and the microphone of the settings open, one that is off has neither,
/// and the model in force is that of the settings.
pub open spec fn agrees(s: SessionView) -> bool {
    &&& s.model_file == s.settings.model_file
    &&& listens_as_set(s)
}

/// The part of [`agrees`] that is not about the model.
pub open spec fn listens_as_set(s: SessionView) -> bool {
    if s.active {
        s.microphone == Some(s.settings.input_device) && has_hotkey(s)
    } else {
        s.microphone is None && s.registered is None
    }
}

/// Whether the shortcut of the hotkey in the settings is registered.
pub open spec fn has_hotkey(s: SessionView) -> bool {
    s.registered matches Some(k) && denotes(s.settings.hotkey, k)
}

/// Whether the model in force is that of the settings, or `change` says that it is still to
/// be changed.
pub open spec fn model_settled(s: SessionView, change: bool) -> bool {
    change || s.model_file == s.settings.model_file
}

/// Whether the microphone of the settings is open, or `change` says that it is still to be
/// changed.
pub open spec fn microphone_settled(s: SessionView, change: bool) -> bool {
    change || s.microphone == Some(s.settings.input_device)
}

/// What holds of a session while the command `c` is under way, whatever failed.
pub open spec fn under_way(s: SessionView, c: CommandView) -> bool {
    match c {
        CommandView::DisarmToStart(_) => consistent(s) && !s.active,
        CommandView::ArmToStart(_, _) => consistent(s) && !s.active,
        CommandView::RegisterToStart(_) => consistent(s) && !s.active,
        CommandView::UnregisterToStop(_) => consistent(s) && s.active && s.registered is None,
        CommandView::DisarmToStop => consistent(s) && s.active && s.registered is None,
        CommandView::Unregister(_, _, rest) => s.active && model_settled(s, rest.model),
        CommandView::Register(_, rest) => s.active && model_settled(s, rest.model),
        CommandView::Disarm(model, _) => s.active && model_settled(s, model),
        CommandView::ArmDevice(_, model, _) => s.active && model_settled(s, model),
        CommandView::ArmDefault(_, model) => s.active && model_settled(s, model),
        CommandView::SwapModel(file, _) => file == s.settings.model_file && consistent(
            SessionView { model_file: file, ..s },
        ),
        _ => consistent(s),
    }
}

/// What holds of a session while the command `c` is under way and nothing has failed.
pub open spec fn on_course(s: SessionView, c: CommandView) -> bool {
    match c {
        CommandView::DisarmToStart(k) => consistent(s) && !s.active && denotes(
            s.settings.hotkey,
            k,
        ),
        CommandView::ArmToStart(device, k) => consistent(s) && !s.active && device
            == s.settings.input_device && denotes(s.settings.hotkey, k),
        CommandView::RegisterToStart(k) => consistent(s) && !s.active && microphone_settled(
            s,
            false,
        ) && denotes(s.settings.hotkey, k),
        CommandView::UnregisterToStop(_) => s.active && s.registered is None && model_settled(
            s,
            false,
        ),
        CommandView::DisarmToStop => s.active && s.registered is None && model_settled(s, false),
        CommandView::Save(new, k) => agrees(s) && denotes(new.hotkey, k),
        CommandView::Unregister(_, k, rest) => s.active && denotes(s.settings.hotkey, k)
            && microphone_settled(s, rest.device) && model_settled(s, rest.model),
        CommandView::Register(k, rest) => s.active && denotes(s.settings.hotkey, k)
            && microphone_settled(s, rest.device) && model_settled(s, rest.model),
        CommandView::Disarm(model, None) => s.active && has_hotkey(s) && model_settled(s, model),
        CommandView::ArmDevice(device, model, None) => s.active && device
            == s.settings.input_device && has_hotkey(s) && model_settled(s, model),
        CommandView::SwapModel(file, None) => file == s.settings.model_file && listens_as_set(s),
        CommandView::Announce(_, None) => agrees(s),
        CommandView::Finished(Ok(_)) => agrees(s),
        _ => true,
    }
}

/// Whether `reply` is of the kind that `c` waits for.
pub open spec fn awaits(c: CommandView, reply: ReplyView) -> bool {
    match c {
        CommandView::SwapModel(_, _) => reply is ModelFound,
        CommandView::Finished(_) => false,
        _ => reply is Outcome,
    }
}

/// How many replies a command waits for at most.
pub open spec fn replies_left(c: CommandView) -> nat {
    match c {
        CommandView::Save(_, _) => 8,
        CommandView::Unregister(_, _, _) => 7,
        CommandView::Register(_, _) => 6,
        CommandView::Disarm(_, _) => 5,
        CommandView::ArmDevice(_, _, _) => 4,
        CommandView::ArmDefault(_, _) => 3,
        CommandView::DisarmToStart(_) => 4,
        CommandView::ArmToStart(_, _) => 3,
        CommandView::UnregisterToStop(_) => 3,
        CommandView::RegisterToStart(_) => 2,
        CommandView::DisarmToStop => 2,
        CommandView::SwapModel(_, _) => 2,
        CommandView::Announce(_, _) => 1,
        CommandView::Finished(_) => 0,
    }
}

/// The end of the command `c` where all that it asks for is done; `present` is whether the
/// model file is found, should it be looked for.
pub open spec fn done_well(s: SessionView, c: CommandView, present: bool) -> (
    SessionView,
    CommandView,
)
    decreases replies_left(c),
{
    if c is Finished {
        (s, c)
    } else {
        let reply = if c is SwapModel {
            ReplyView::ModelFound(present)
        } else {
            ReplyView::Outcome(Ok(()))
        };
        let (s2, c2) = next(s, c, reply);
        done_well(s2, c2, present)
    }
}

/// Whether `c` will ask for the model `file`, or asks for it now.
pub open spec fn owes_model(s: SessionView, c: CommandView, file: Seq<char>) -> bool {
    &&& s.settings.model_file == file
    &&& match c {
        CommandView::Unregister(_, _, rest) => rest.model,
        CommandView::Register(_, rest) => rest.model,
        CommandView::Disarm(model, _) => model,
        CommandView::ArmDevice(_, model, _) => model,
        CommandView::ArmDefault(_, model) => model,
        CommandView::SwapModel(f, _) => f == file,
        _ => false,
    }
}

/// The session, and the step that is reached, once the replies came in one after the other.
pub open spec fn run(s: SessionView, c: CommandView, replies: Seq<ReplyView>) -> (
    SessionView,
    CommandView,
)
    decreases replies.len(),
{
    if replies.len() == 0 {
        (s, c)
    } else {
        let (s2, c2) = run(s, c, replies.drop_last());
        next(s2, c2, replies.last())
    }
}

/// A fresh session is consistent, and every command leaves a consistent session so,
/// whatever the replies are.
pub proof fn law_session_stays_consistent(
    s: SessionView,
    k: ShortcutView,
    new: SettingsView,
    replies: Seq<ReplyView>,
)
    ensures
        consistent(fresh_session(new)),
        consistent(s) ==> {
            let (after, last) = run(s, start_first(s, k), replies);
            last is Finished ==> consistent(after)
        },
        consistent(s) ==> {
            let (after, last) = run(stop_first(s).0, stop_first(s).1, replies);
            last is Finished ==> consistent(after)
        },
        consistent(s) ==> {
            let (after, last) = run(s, CommandView::Save(new, k), replies);
            last is Finished ==> consistent(after)
        },
{
    if consistent(s) {
        lemma_stays_under_way(s, start_first(s, k), replies);
        lemma_stays_under_way(stop_first(s).0, stop_first(s).1, replies);
        lemma_stays_under_way(s, CommandView::Save(new, k), replies);
    }
}

proof fn lemma_stays_under_way(s: SessionView, c: CommandView, replies: Seq<ReplyView>)
    requires
        under_way(s, c),
    ensures
        under_way(run(s, c, replies).0, run(s, c, replies).1),
    decreases replies.len(),
{
    if replies.len() > 0 {
        lemma_stays_under_way(s, c, replies.drop_last());
        let (s2, c2) = run(s, c, replies.drop_last());
        lemma_under_way_after_reply(s2, c2, replies.last());
    }
}

proof fn lemma_under_way_after_reply(s: SessionView, c: CommandView, reply: ReplyView)
    requires
        under_way(s, c),
    ensures
        under_way(next(s, c, reply).0, next(s, c, reply).1),
{
}

/// A command together with the replies to its steps.
pub enum Call {
    /// Starting, with the shortcut of the hotkey.
    Start(ShortcutView, Seq<ReplyView>),
    /// Stopping.
    Stop(Seq<ReplyView>),
    /// Changing the settings to these, with the shortcut of their hotkey.
    Update(SettingsView, ShortcutView, Seq<ReplyView>),
}

/// The session, and the step that is reached, after a call.
pub open spec fn called(s: SessionView, call: Call) -> (SessionView, CommandView) {
    match call {
        Call::Start(k, replies) => run(s, start_first(s, k), replies),
        Call::Stop(replies) => run(stop_first(s).0, stop_first(s).1, replies),
        Call::Update(new, k, replies) => run(s, CommandView::Save(new, k), replies),
    }
}

/// The session after one call after the other.
pub open spec fn after_calls(s: SessionView, calls: Seq<Call>) -> SessionView
    decreases calls.len(),
{
    if calls.len() == 0 {
        s
    } else {
        called(after_calls(s, calls.drop_last()), calls.last()).0
    }
}

/// Whether each of the calls was carried out to its end before the next one came.
pub open spec fn carried_out(s: SessionView, calls: Seq<Call>) -> bool
    decreases calls.len(),
{
    calls.len() > 0 ==> {
        &&& carried_out(s, calls.drop_last())
        &&& called(after_calls(s, calls.drop_last()), calls.last()).1 is Finished
    }
}

/// Whether a command has ended well.
pub open spec fn succeeded(c: CommandView) -> bool {
    c matches CommandView::Finished(Ok(_))
}

/// Whether the last start or stop among the calls that succeeded was a start; `None` where
/// none succeeded.
pub open spec fn last_success(s: SessionView, calls: Seq<Call>) -> Option<bool>
    decreases calls.len(),
{
    if calls.len() == 0 {
        None
    } else {
        let before = after_calls(s, calls.drop_last());
        if calls.last() !is Update && succeeded(called(before, calls.last()).1) {
            Some(calls.last() is Start)
        } else {
            last_success(s, calls.drop_last())
        }
    }
}

/// Over any history of calls, the window is told `ready` exactly where the last start or
/// stop that succeeded was a start. A change of settings never alters it.
pub proof fn law_listening_state_follows_the_last_success(
    settings: SettingsView,
    calls: Seq<Call>,
    s: SessionView,
    new: SettingsView,
    k: ShortcutView,
    replies: Seq<ReplyView>,
)
    requires
        carried_out(fresh_session(settings), calls),
    ensures
        after_calls(fresh_session(settings), calls).active == (last_success(
            fresh_session(settings),
            calls,
        ) == Some(true)),
        listener_text(after_calls(fresh_session(settings), calls).active) == (if last_success(
            fresh_session(settings),
            calls,
        ) == Some(true) {
            "ready"@
        } else {
            "stopped"@
        }),
        run(s, CommandView::Save(new, k), replies).0.active == s.active,
    decreases calls.len(),
{
    let fresh = fresh_session(settings);
    lemma_updating(s, CommandView::Save(new, k), replies);
    if calls.len() > 0 {
        let earlier = calls.drop_last();
        let before = after_calls(fresh, earlier);
        law_listening_state_follows_the_last_success(settings, earlier, s, new, k, replies);
        match calls.last() {
            Call::Start(key, r) => {
                if before.active {
                    lemma_finished_stays(before, Ok(()), r);
                } else {
                    lemma_starting(before, key, r);
                }
            },
            Call::Stop(r) => {
                lemma_stopping(stop_first(before).0, stop_first(before).1, r);
            },
            Call::Update(n, key, r) => {
                lemma_updating(before, CommandView::Save(n, key), r);
            },
        }
    }
}

proof fn lemma_finished_stays(
    s: SessionView,
    result: Result<(), Seq<char>>,
    replies: Seq<ReplyView>,
)
    ensures
        run(s, CommandView::Finished(result), replies) == (s, CommandView::Finished(result)),
    decreases replies.len(),
{
    if replies.len() > 0 {
        lemma_finished_stays(s, result, replies.drop_last());
    }
}

/// What holds while the listener is being stopped: it is on until the microphone is closed,
/// and nothing is left to fail then.
spec fn stopping(s: SessionView, c: CommandView) -> bool {
    match c {
        CommandView::UnregisterToStop(_) => s.active,
        CommandView::DisarmToStop => s.active,
        CommandView::Announce(_, error) => error is None && !s.active,
        CommandView::Finished(result) => result is Ok && !s.active,
        _ => false,
    }
}

proof fn lemma_stopping(s: SessionView, c: CommandView, replies: Seq<ReplyView>)
    requires
        stopping(s, c),
    ensures
        stopping(run(s, c, replies).0, run(s, c, replies).1),
    decreases replies.len(),
{
    if replies.len() > 0 {
        lemma_stopping(s, c, replies.drop_last());
        let (s2, c2) = run(s, c, replies.drop_last());
        assert(stopping(s2, c2));
    }
}

/// Whether `c` is a step of a change of settings, or the end.
spec fn updates(c: CommandView) -> bool {
    match c {
        CommandView::DisarmToStart(_) => false,
        CommandView::ArmToStart(_, _) => false,
        CommandView::RegisterToStart(_) => false,
        CommandView::UnregisterToStop(_) => false,
        CommandView::DisarmToStop => false,
        _ => true,
    }
}

proof fn lemma_updating(s: SessionView, c: CommandView, replies: Seq<ReplyView>)
    requires
        updates(c),
    ensures
        updates(run(s, c, replies).1),
        run(s, c, replies).0.active == s.active,
    decreases replies.len(),
{
    if replies.len() > 0 {
        lemma_updating(s, c, replies.drop_last());
        let (s2, c2) = run(s, c, replies.drop_last());
        lemma_updating_after_reply(s2, c2, replies.last());
    }
}

proof fn lemma_updating_after_reply(s: SessionView, c: CommandView, reply: ReplyView)
    requires
        updates(c),
    ensures
        updates(next(s, c, reply).1),
        next(s, c, reply).0.active == s.active,
{
}

/// A fresh session agrees with its settings, and every command that succeeds leaves a
/// session that agrees so: one that starts the listener with the shortcut of the hotkey,
/// one that stops it, and one that saves settings with the shortcut that their hotkey
/// spells. A start of a listener that is off, and a stop of one that is on, even make it
/// agree where it did not because something failed before.
pub proof fn law_session_agrees_after_success(
    s: SessionView,
    k: ShortcutView,
    new: SettingsView,
    new_key: ShortcutView,
    replies: Seq<ReplyView>,
)
    ensures
        agrees(fresh_session(new)),
        (agrees(s) || consistent(s) && !s.active) && denotes(s.settings.hotkey, k) ==> {
            let (after, last) = run(s, start_first(s, k), replies);
            succeeded(last) ==> agrees(after)
        },
        agrees(s) || consistent(s) && s.active ==> {
            let (after, last) = run(stop_first(s).0, stop_first(s).1, replies);
            succeeded(last) ==> agrees(after)
        },
        agrees(s) && spells(new.hotkey, new_key) ==> {
            let (after, last) = run(s, CommandView::Save(new, new_key), replies);
            succeeded(last) ==> agrees(after)
        },
{
    if (agrees(s) || consistent(s) && !s.active) && denotes(s.settings.hotkey, k) {
        lemma_stays_on_course(s, start_first(s, k), replies);
    }
    if agrees(s) || consistent(s) && s.active {
        lemma_stays_on_course(stop_first(s).0, stop_first(s).1, replies);
    }
    if agrees(s) && spells(new.hotkey, new_key) {
        lemma_stays_on_course(s, CommandView::Save(new, new_key), replies);
    }
}

proof fn lemma_stays_on_course(s: SessionView, c: CommandView, replies: Seq<ReplyView>)
    requires
        on_course(s, c),
    ensures
        on_course(run(s, c, replies).0, run(s, c, replies).1),
    decreases replies.len(),
{
    if replies.len() > 0 {
        lemma_stays_on_course(s, c, replies.drop_last());
        let (s2, c2) = run(s, c, replies.drop_last());
        lemma_on_course_after_reply(s2, c2, replies.last());
    }
}

proof fn lemma_on_course_after_reply(s: SessionView, c: CommandView, reply: ReplyView)
    requires
        on_course(s, c),
    ensures
        on_course(next(s, c, reply).0, next(s, c, reply).1),
{
}

/// Each reply that a command waits for brings it closer to its end, and other replies
/// change nothing.
pub proof fn law_commands_end(s: SessionView, c: CommandView, reply: ReplyView)
    ensures
        awaits(c, reply) ==> replies_left(next(s, c, reply).1) < replies_left(c),
        !awaits(c, reply) ==> next(s, c, reply) == (s, c),
        replies_left(c) == 0 <==> c is Finished,
{
}

/// Starting a listener that is on, and stopping one that is off, does nothing.
pub proof fn law_start_and_stop_are_idempotent(s: SessionView, k: ShortcutView)
    ensures
        s.active ==> start_first(s, k) == CommandView::Finished(Ok(())),
        !s.active ==> stop_first(s) == (s, CommandView::Finished(Ok(()))),
{
}

/// A start that works out registers the shortcut of the hotkey, opens the microphone and
/// turns the listener on, and the stop that follows takes exactly that shortcut back and
/// leaves the session as it was before.
pub proof fn law_stop_undoes_start(s: SessionView, k: ShortcutView, present: bool)
    requires
        consistent(s),
        !s.active,
        s.microphone is None,
    ensures
        ({
            let on = SessionView {
                active: true,
                registered: Some(k),
                microphone: Some(s.settings.input_device),
                ..s
            };
            &&& done_well(s, start_first(s, k), present) == (on, CommandView::Finished(Ok(())))
            &&& stop_first(on).1 == CommandView::UnregisterToStop(k)
            &&& done_well(stop_first(on).0, stop_first(on).1, present) == (
                s,
                CommandView::Finished(Ok(())),
            )
        }),
{
    reveal_with_fuel(done_well, 5);
}

/// A start that fails changes nothing but which microphone is open: none is then, or the one
/// in the settings. It stays open where the hotkey is refused; the next start uses it if the
/// settings still name it, and closes it first if they name another one.
pub proof fn law_failed_start_leaves_the_listener_off(
    s: SessionView,
    k: ShortcutView,
    e: Seq<char>,
    replies: Seq<ReplyView>,
    new: SettingsView,
)
    requires
        consistent(s),
        !s.active,
    ensures
        ({
            let (after, last) = run(s, start_first(s, k), replies);
            last matches CommandView::Finished(Err(_)) ==> after == (SessionView {
                microphone: after.microphone,
                ..s
            }) && (after.microphone is None || after.microphone == Some(s.settings.input_device))
        }),
        next(
            s,
            CommandView::ArmToStart(s.settings.input_device, k),
            ReplyView::Outcome(Err(e)),
        ) == (s, CommandView::Finished(Err("Could not arm audio: "@ + e))),
        next(s, CommandView::RegisterToStart(k), ReplyView::Outcome(Err(e))) == (
            s,
            CommandView::Finished(Err("Could not register hotkey: "@ + e)),
        ),
        ({
            let open = SessionView {
                microphone: Some(s.settings.input_device),
                settings: new,
                ..s
            };
            start_first(open, k) == if new.input_device == s.settings.input_device {
                CommandView::ArmToStart(new.input_device, k)
            } else {
                CommandView::DisarmToStart(k)
            }
        }),
{
    lemma_starting(s, k, replies);
}

/// What a start has changed of the session `s` by the time it has got to `c`.
spec fn starting(s: SessionView, after: SessionView, c: CommandView) -> bool {
    let usable = after.microphone is None || after.microphone == Some(s.settings.input_device);
    let off = SessionView { microphone: after.microphone, ..s };
    match c {
        CommandView::DisarmToStart(_) => after == s,
        CommandView::ArmToStart(device, _) => after == off && usable && device
            == s.settings.input_device,
        CommandView::RegisterToStart(_) => after == off && usable,
        CommandView::Announce(_, error) => error is None && after == SessionView {
            active: true,
            registered: after.registered,
            ..off
        },
        CommandView::Finished(Ok(_)) => after == SessionView {
            active: true,
            registered: after.registered,
            ..off
        },
        CommandView::Finished(Err(_)) => after == off && usable,
        _ => false,
    }
}

proof fn lemma_starting(s: SessionView, k: ShortcutView, replies: Seq<ReplyView>)
    requires
        !s.active,
    ensures
        starting(s, run(s, start_first(s, k), replies).0, run(s, start_first(s, k), replies).1),
    decreases replies.len(),
{
    if replies.len() > 0 {
        lemma_starting(s, k, replies.drop_last());
        let (s2, c2) = run(s, start_first(s, k), replies.drop_last());
        lemma_starting_after_reply(s, s2, c2, replies.last());
    }
}

proof fn lemma_starting_after_reply(
    s: SessionView,
    s2: SessionView,
    c: CommandView,
    reply: ReplyView,
)
    requires
        starting(s, s2, c),
    ensures
        starting(s, next(s2, c, reply).0, next(s2, c, reply).1),
{
}

/// The settings change only when new ones are safely on disk, and then to exactly these.
pub proof fn law_settings_change_only_once_saved(s: SessionView, c: CommandView, reply: ReplyView)
    ensures
        stop_first(s).0.settings == s.settings,
        ({
            let after = next(s, c, reply).0.settings;
            match (c, reply) {
                (CommandView::Save(new, _), ReplyView::Outcome(Ok(_))) => after == new,
                _ => after == s.settings,
            }
        }),
{
}

/// A change of settings that could not be saved leaves the session as it was.
pub proof fn law_failed_save_changes_nothing(
    s: SessionView,
    new: SettingsView,
    k: ShortcutView,
    e: Seq<char>,
)
    ensures
        next(s, CommandView::Save(new, k), ReplyView::Outcome(Err(e))) == (
            s,
            CommandView::Finished(Err(e)),
        ),
{
}

/// A change of settings that works out ends well, with the new settings in force. While
/// the listener is on, a new hotkey applies at once: its shortcut is the registered one,
/// and the former one is given back first.
pub proof fn law_hotkey_change_applies_live(
    s: SessionView,
    new: SettingsView,
    k: ShortcutView,
    present: bool,
)
    ensures
        ({
            let (after, last) = done_well(s, CommandView::Save(new, k), present);
            &&& last == CommandView::Finished(Ok(()))
            &&& after.settings == new
            &&& after.active == s.active
            &&& after.registered == if s.active && s.settings.hotkey != new.hotkey {
                Some(k)
            } else {
                s.registered
            }
        }),
        ({
            let (saved, c) = apply_settings(s, new, k);
            s.active && s.settings.hotkey != new.hotkey ==> match s.registered {
                Some(old_key) => c matches CommandView::Unregister(o, n, _) && o == old_key && n
                    == k,
                None => c matches CommandView::Register(n, _) && n == k,
            }
        }),
{
    reveal_with_fuel(done_well, 9);
}

/// Once settings with another model are saved, the new model is asked for before the
/// command ends, and is in force then, whatever the replies are.
pub proof fn law_saved_model_is_asked_for(
    s: SessionView,
    new: SettingsView,
    k: ShortcutView,
    replies: Seq<ReplyView>,
)
    requires
        consistent(s),
        s.settings.model_file != new.model_file,
        replies.len() > 0,
        replies[0] == ReplyView::Outcome(Ok(())),
        run(s, CommandView::Save(new, k), replies).1 is Finished,
    ensures
        exists|n: int|
            0 < n < replies.len() && asks_for_model(
                #[trigger] run(s, CommandView::Save(new, k), replies.take(n)).1,
                new.model_file,
            ),
        run(s, CommandView::Save(new, k), replies).0.model_file == new.model_file,
{
    lemma_model_is_owed(s, new, k, replies);
    lemma_stays_under_way(s, CommandView::Save(new, k), replies);
}

/// Whether `c` asks for the model `file`.
pub open spec fn asks_for_model(c: CommandView, file: Seq<char>) -> bool {
    c matches CommandView::SwapModel(f, _) && f == file
}

/// From the save on, the command owes the model until it has asked for it.
proof fn lemma_model_is_owed(
    s: SessionView,
    new: SettingsView,
    k: ShortcutView,
    replies: Seq<ReplyView>,
)
    requires
        s.settings.model_file != new.model_file,
        replies.len() > 0,
        replies[0] == ReplyView::Outcome(Ok(())),
    ensures
        run(s, CommandView::Save(new, k), replies).0.settings == new,
        owes_model(
            run(s, CommandView::Save(new, k), replies).0,
            run(s, CommandView::Save(new, k), replies).1,
            new.model_file,
        ) || exists|n: int|
            0 < n < replies.len() && asks_for_model(
                #[trigger] run(s, CommandView::Save(new, k), replies.take(n)).1,
                new.model_file,
            ),
    decreases replies.len(),
{
    let first = CommandView::Save(new, k);
    let before = replies.drop_last();
    if replies.len() == 1 {
        assert(run(s, first, before) == (s, first));
    } else {
        lemma_model_is_owed(s, new, k, before);
        lemma_save_is_over(s, new, k, before);
        assert(replies.take(replies.len() - 1) =~= before);
        let (s2, c2) = run(s, first, before);
        if !owes_model(s2, c2, new.model_file) {
            let n = choose|n: int|
                0 < n < before.len() && asks_for_model(
                    #[trigger] run(s, first, before.take(n)).1,
                    new.model_file,
                );
            assert(replies.take(n) =~= before.take(n));
        }
    }
}

/// Once the settings are saved, the command does not save again.
proof fn lemma_save_is_over(
    s: SessionView,
    new: SettingsView,
    k: ShortcutView,
    replies: Seq<ReplyView>,
)
    requires
        replies.len() > 0,
        replies[0] == ReplyView::Outcome(Ok(())),
    ensures
        run(s, CommandView::Save(new, k), replies).1 !is Save,
    decreases replies.len(),
{
    let before = replies.drop_last();
    if replies.len() == 1 {
        assert(run(s, CommandView::Save(new, k), before) == (s, CommandView::Save(new, k)));
    } else {
        lemma_save_is_over(s, new, k, before);
    }
}

/// A shortcut counts as registered exactly from the reply that it is to the reply that it
/// is no more, or to the stop of the listener. In particular, where the former shortcut
/// was given back and the new one is refused, none is left.
pub proof fn law_registered_shortcut_follows_the_system(
    s: SessionView,
    c: CommandView,
    reply: ReplyView,
)
    ensures
        next(s, c, reply).0.registered == (match (c, reply) {
            (CommandView::RegisterToStart(k), ReplyView::Outcome(Ok(_))) => Some(k),
            (CommandView::Register(k, _), ReplyView::Outcome(Ok(_))) => Some(k),
            (CommandView::Unregister(_, _, _), ReplyView::Outcome(Ok(_))) => None,
            _ => s.registered,
        }),
        stop_first(s).0.registered == (if s.active {
            None
        } else {
            s.registered
        }),
{
}

/// A hotkey that is refused by the system does not keep the rest from being changed: the
/// microphone and the model follow, and the refusal is what is reported, also where the
/// microphone fails besides.
pub proof fn law_refused_hotkey_does_not_stop_the_rest(
    s: SessionView,
    k: ShortcutView,
    rest: Rest,
    e: Seq<char>,
    e2: Seq<char>,
)
    ensures
        next(s, CommandView::Register(k, rest), ReplyView::Outcome(Err(e))) == (
            s,
            change_rest(s, rest, Some("register new hotkey: "@ + e)),
        ),
        microphone_error(Some("register new hotkey: "@ + e), e2) == "register new hotkey: "@ + e,
{
}

/// While the listener is off, a change of settings touches neither the hotkey nor the
/// microphone: once they are saved, at most the model is changed.
pub proof fn law_idle_listener_is_not_disturbed(s: SessionView, new: SettingsView, k: ShortcutView)
    requires
        !s.active,
    ensures
        apply_settings(s, new, k) == (
            SessionView { settings: new, ..s },
            if s.settings.model_file != new.model_file {
                CommandView::SwapModel(new.model_file, None)
            } else {
                CommandView::Finished(Ok(()))
            },
        ),
{
}

/// Where the new microphone cannot be opened, the default one is tried, the model is
/// changed all the same, and the error is reported at the end; the listener stays on.
pub proof fn law_failed_microphone_falls_back(
    s: SessionView,
    device: Option<Seq<char>>,
    model: bool,
    e: Seq<char>,
    fallback: Result<(), Seq<char>>,
    present: bool,
)
    ensures
        ({
            let told = "Mic change failed, fell back to default: "@ + e;
            let (s1, c1) = next(
                s,
                CommandView::ArmDevice(device, model, None),
                ReplyView::Outcome(Err(e)),
            );
            let (s2, c2) = next(s1, c1, ReplyView::Outcome(fallback));
            &&& c1 == CommandView::ArmDefault(told, model)
            &&& c2 == change_model(s, model, Some(told))
            &&& s2.active == s.active
            &&& s2.microphone == if fallback is Ok {
                Some(None)
            } else {
                s.microphone
            }
            &&& done_well(s2, c2, present).1 == CommandView::Finished(Err(told))
            &&& done_well(s2, c2, present).0.model_file == if model {
                s.settings.model_file
            } else {
                s.model_file
            }
        }),
{
    reveal_with_fuel(done_well, 4);
}

/// A start goes its whole way, whatever the settings hold: a microphone that is open but not
/// the one in the settings is closed, the one in the settings is opened, exactly the shortcut
/// that was given is registered, and with that the listener is on and the window is told.
pub proof fn law_start_goes_its_whole_way(s: SessionView, k: ShortcutView, told: ReplyView)
    requires
        !s.active,
        told is Outcome,
    ensures
        ({
            let done = ReplyView::Outcome(Ok(()));
            let device = s.settings.input_device;
            let (s0, c0) = if s.microphone is Some && s.microphone != Some(device) {
                next(s, CommandView::DisarmToStart(k), told)
            } else {
                (s, start_first(s, k))
            };
            let (s1, c1) = next(s0, c0, done);
            let (s2, c2) = next(s1, c1, done);
            let (s3, c3) = next(s2, c2, told);
            &&& s.microphone is Some && s.microphone != Some(device) ==> start_first(s, k)
                == CommandView::DisarmToStart(k)
            &&& s0.active == s.active && s0.settings == s.settings && s0.registered == s.registered
            &&& s0.model_file == s.model_file
            &&& s0.microphone is None || s0.microphone == Some(device)
            &&& c0 == CommandView::ArmToStart(device, k)
            &&& c1 == CommandView::RegisterToStart(k)
            &&& s1 == (SessionView { microphone: Some(device), ..s })
            &&& c2 == CommandView::Announce(UiEventView::ListenerState(true), None)
            &&& s2 == (SessionView {
                active: true,
                registered: Some(k),
                microphone: Some(device),
                ..s
            })
            &&& c3 == CommandView::Finished(Ok(())) && s3 == s2
        }),
{
}

/// A stop goes its whole way, whatever fails: the registered shortcut, if there is one, is
/// given back, the microphone is closed, and with that the listener is off and the window is
/// told. Nothing else changes.
pub proof fn law_stop_goes_its_whole_way(
    s: SessionView,
    unregistered: Result<(), Seq<char>>,
    closed: Result<(), Seq<char>>,
    told: Result<(), Seq<char>>,
)
    requires
        s.active,
    ensures
        ({
            let (s0, c0) = stop_first(s);
            let (s1, c1) = match s.registered {
                Some(k) => next(s0, CommandView::UnregisterToStop(k), ReplyView::Outcome(unregistered)),
                None => (s0, c0),
            };
            let (s2, c2) = next(s1, c1, ReplyView::Outcome(closed));
            let (s3, c3) = next(s2, c2, ReplyView::Outcome(told));
            &&& s.registered matches Some(k) ==> c0 == CommandView::UnregisterToStop(k)
            &&& s0 == (SessionView { registered: None, ..s })
            &&& c1 == CommandView::DisarmToStop && s1 == s0
            &&& c2 == CommandView::Announce(UiEventView::ListenerState(false), None)
            &&& s2 == (SessionView { active: false, registered: None, microphone: None, ..s })
            &&& c3 == CommandView::Finished(Ok(())) && s3 == s2
        }),
{
}

/// What a change of settings does once they are saved, whatever they hold. The new settings
/// are in force. While the listener is on, a hotkey that differs is registered in place of
/// the former one, and a microphone that differs is opened in place of the former one. A
/// model that differs is used from then on. Nothing else is done, and nothing that is the
/// same is touched.
pub proof fn law_saved_settings_are_applied(s: SessionView, new: SettingsView, k: ShortcutView)
    ensures
        ({
            let (saved, first) = next(s, CommandView::Save(new, k), ReplyView::Outcome(Ok(())));
            let rest = Rest {
                device: s.active && s.settings.input_device != new.input_device,
                model: s.settings.model_file != new.model_file,
            };
            &&& saved == (SessionView { settings: new, ..s })
            &&& s.active && s.settings.hotkey != new.hotkey && s.registered is Some ==> first
                == CommandView::Unregister(s.registered->Some_0, k, rest)
            &&& s.active && s.settings.hotkey != new.hotkey && s.registered is None ==> first
                == CommandView::Register(k, rest)
            &&& !(s.active && s.settings.hotkey != new.hotkey) ==> {
                &&& rest.device ==> first == CommandView::Disarm(rest.model, None)
                &&& !rest.device && rest.model ==> first == CommandView::SwapModel(
                    new.model_file,
                    None,
                )
                &&& !rest.device && !rest.model ==> first == CommandView::Finished(Ok(()))
            }
        }),
{
}

/// How a new hotkey is put in place of the former one: the former one is given back, or is
/// kept in mind where that fails, and the new one is registered. Then the microphone and the
/// model follow, as far as they are to be changed, and a refusal of the hotkey is kept to be
/// told at the end.
pub proof fn law_hotkey_is_replaced(
    s: SessionView,
    former: ShortcutView,
    k: ShortcutView,
    rest: Rest,
    e: Seq<char>,
)
    ensures
        next(s, CommandView::Unregister(former, k, rest), ReplyView::Outcome(Ok(()))) == (
            SessionView { registered: None, ..s },
            CommandView::Register(k, rest),
        ),
        next(s, CommandView::Unregister(former, k, rest), ReplyView::Outcome(Err(e))) == (
            s,
            CommandView::Register(k, rest),
        ),
        ({
            let (after, then) = next(
                s,
                CommandView::Register(k, rest),
                ReplyView::Outcome(Ok(())),
            );
            &&& after == (SessionView { registered: Some(k), ..s })
            &&& rest.device ==> then == CommandView::Disarm(rest.model, None)
            &&& !rest.device && rest.model ==> then == CommandView::SwapModel(
                s.settings.model_file,
                None,
            )
            &&& !rest.device && !rest.model ==> then == CommandView::Finished(Ok(()))
        }),
        ({
            let (after, then) = next(
                s,
                CommandView::Register(k, rest),
                ReplyView::Outcome(Err(e)),
            );
            let told = "register new hotkey: "@ + e;
            &&& after == s
            &&& rest.device ==> then == CommandView::Disarm(rest.model, Some(told))
            &&& !rest.device && rest.model ==> then == CommandView::SwapModel(
                s.settings.model_file,
                Some(told),
            )
            &&& !rest.device && !rest.model ==> then == CommandView::Finished(Err(told))
        }),
{
}

/// How a new microphone is put in place of the former one: the former one is closed, the one
/// in the settings is opened, or the default one where that fails. Then the model follows, if
/// it is to be changed. The first error is kept to be told at the end.
pub proof fn law_microphone_is_replaced(
    s: SessionView,
    device: Option<Seq<char>>,
    model: bool,
    error: Option<Seq<char>>,
    closed: Result<(), Seq<char>>,
    e: Seq<char>,
    told: Seq<char>,
)
    ensures
        next(s, CommandView::Disarm(model, error), ReplyView::Outcome(closed)) == (
            SessionView { microphone: None, ..s },
            CommandView::ArmDevice(s.settings.input_device, model, error),
        ),
        ({
            let (after, then) = next(
                s,
                CommandView::ArmDevice(device, model, error),
                ReplyView::Outcome(Ok(())),
            );
            &&& after == (SessionView { microphone: Some(device), ..s })
            &&& model ==> then == CommandView::SwapModel(s.settings.model_file, error)
            &&& !model && error is None ==> then == CommandView::Finished(Ok(()))
            &&& !model && error is Some ==> then == CommandView::Finished(Err(error->Some_0))
        }),
        next(s, CommandView::ArmDevice(device, model, error), ReplyView::Outcome(Err(e))) == (
            s,
            CommandView::ArmDefault(
                if error is Some {
                    error->Some_0
                } else {
                    "Mic change failed, fell back to default: "@ + e
                },
                model,
            ),
        ),
        ({
            let (after, then) = next(
                s,
                CommandView::ArmDefault(told, model),
                ReplyView::Outcome(Ok(())),
            );
            &&& after == (SessionView { microphone: Some(None), ..s })
            &&& model ==> then == CommandView::SwapModel(s.settings.model_file, Some(told))
            &&& !model ==> then == CommandView::Finished(Err(told))
        }),
        ({
            let (after, then) = next(
                s,
                CommandView::ArmDefault(told, model),
                ReplyView::Outcome(Err(e)),
            );
            &&& after == s
            &&& model ==> then == CommandView::SwapModel(s.settings.model_file, Some(told))
            &&& !model ==> then == CommandView::Finished(Err(told))
        }),
{
}

/// How a new model is put in place of the former one: the file is the one that was asked
/// for, the window is told whether it is there, and then an error that was kept is told.
pub proof fn law_model_is_replaced(
    s: SessionView,
    file: Seq<char>,
    error: Option<Seq<char>>,
    found: bool,
    told: Result<(), Seq<char>>,
    event: UiEventView,
)
    ensures
        next(s, CommandView::SwapModel(file, error), ReplyView::ModelFound(found)) == (
            SessionView { model_file: file, ..s },
            CommandView::Announce(UiEventView::ModelState(found), error),
        ),
        next(s, CommandView::Announce(event, error), ReplyView::Outcome(told)) == (
            s,
            if error is Some {
                CommandView::Finished(Err(error->Some_0))
            } else {
                CommandView::Finished(Ok(()))
            },
        ),
{
}

/// A fresh listener is off, has no shortcut and no microphone, and uses the settings and the
/// model that it was given.
pub proof fn law_fresh_listener_is_off(settings: SettingsView)
    ensures
        !fresh_session(settings).active,
        fresh_session(settings).settings == settings,
        fresh_session(settings).registered is None,
        fresh_session(settings).microphone is None,
        fresh_session(settings).model_file == settings.model_file,
{
}

/// What the user reads of a refused hotkey quotes it and gives the reason.
pub proof fn law_refusal_quotes_the_hotkey(text: Seq<char>, e: HotkeyErrorView)
    ensures
        refusal(text, e) == "invalid hotkey "@ + debug_text(text) + ": "@ + error_message(e),
{
}

/// Replies and steps are seen as they are: every setting, every shortcut and every character.
pub proof fn law_commands_are_seen_as_they_are(
    k: Shortcut,
    former: Shortcut,
    settings: Settings,
    device: Option<String>,
    text: String,
    error: Option<String>,
    event: UiEvent,
    rest: Rest,
    b: bool,
)
    ensures
        Reply::Outcome(Ok(()))@ == ReplyView::Outcome(Ok(())),
        Reply::Outcome(Err(text))@ == ReplyView::Outcome(Err(text@)),
        Reply::ModelFound(b)@ == ReplyView::ModelFound(b),
        Command::DisarmToStart(k)@ == CommandView::DisarmToStart(k@),
        Command::ArmToStart(device, k)@ == CommandView::ArmToStart(opt_view(device), k@),
        Command::RegisterToStart(k)@ == CommandView::RegisterToStart(k@),
        Command::UnregisterToStop(k)@ == CommandView::UnregisterToStop(k@),
        Command::DisarmToStop@ == CommandView::DisarmToStop,
        Command::Save(settings, k)@ == CommandView::Save(settings@, k@),
        Command::Unregister(former, k, rest)@ == CommandView::Unregister(former@, k@, rest),
        Command::Register(k, rest)@ == CommandView::Register(k@, rest),
        Command::Disarm(b, error)@ == CommandView::Disarm(b, opt_view(error)),
        Command::ArmDevice(device, b, error)@ == CommandView::ArmDevice(
            opt_view(device),
            b,
            opt_view(error),
        ),
        Command::ArmDefault(text, b)@ == CommandView::ArmDefault(text@, b),
        Command::SwapModel(text, error)@ == CommandView::SwapModel(text@, opt_view(error)),
        Command::Announce(event, error)@ == CommandView::Announce(event@, opt_view(error)),
        Command::Finished(Ok(()))@ == CommandView::Finished(Ok(())),
        Command::Finished(Err(text))@ == CommandView::Finished(Err(text@)),
        microphone_view(Some(device)) == Some(opt_view(device)),
        microphone_view(None) is None,
{
}

} // verus!

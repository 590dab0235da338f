//! User settings, and what loading and saving them comes to.

use vstd::prelude::*;

use crate::text::{join, opt_view, result_view};

verus! {

/// What the user can set.
#[derive(Debug)]
pub struct Settings {
    /// The dictation hotkey, such as `F13` or `CommandOrControl+Shift+Space`.
    pub hotkey: String,
    /// The name of the model file in the models directory.
    pub model_file: String,
    /// The name of the microphone; `None` is the system's default.
    pub input_device: Option<String>,
}

/// The model of [`Settings`].
pub struct SettingsView {
    pub hotkey: Seq<char>,
    pub model_file: Seq<char>,
    pub input_device: Option<Seq<char>>,
}

impl View for Settings {
    type V = SettingsView;

    open spec fn view(&self) -> SettingsView {
        SettingsView {
            hotkey: self.hotkey@,
            model_file: self.model_file@,
            input_device: opt_view(self.input_device),
        }
    }
}

/// The settings of a fresh install.
pub open spec fn default_settings() -> SettingsView {
    SettingsView { hotkey: "F13"@, model_file: "ggml-small.en.bin"@, input_device: None }
}

impl Default for Settings {
    fn default() -> (r: Self)
        ensures
            r@ == default_settings(),
    {
        Settings {
            hotkey: "F13".to_owned(),
            model_file: "ggml-small.en.bin".to_owned(),
            input_device: None,
        }
    }
}

/// Whether the two name the same microphone.
pub(crate) fn same_device(a: &Option<String>, b: &Option<String>) -> (r: bool)
    ensures
        r == (opt_view(*a) == opt_view(*b)),
{
    match (a, b) {
        (Some(x), Some(y)) => *x == *y,
        (None, None) => true,
        _ => false,
    }
}

/// The same device name once more.
pub(crate) fn copy_device(d: &Option<String>) -> (r: Option<String>)
    ensures
        r == *d,
{
    match d {
        Some(x) => Some(x.clone()),
        None => None,
    }
}

impl Clone for Settings {
    fn clone(&self) -> (r: Self)
        ensures
            r == *self,
    {
        Settings {
            hotkey: self.hotkey.clone(),
            model_file: self.model_file.clone(),
            input_device: copy_device(&self.input_device),
        }
    }
}

/// Optional settings, as their model.
pub open spec fn stored_view(stored: Option<Settings>) -> Option<SettingsView> {
    match stored {
        Some(s) => Some(s@),
        None => None,
    }
}

/// The settings to start with where the settings file holds `stored`: these, or the
/// defaults.
pub open spec fn loaded(stored: Option<SettingsView>) -> SettingsView {
    match stored {
        Some(s) => s,
        None => default_settings(),
    }
}

/// The settings to start with. `stored` is what the settings file holds, and `None` where
/// there is no file or it is malformed: then the defaults apply, so that nothing here can
/// keep the app from starting.
pub fn load(stored: Option<Settings>) -> (r: Settings)
    ensures
        stored matches Some(s) ==> r == s,
        r@ == loaded(stored_view(stored)),
{
    match stored {
        Some(s) => s,
        None => Settings::default(),
    }
}

/// Where the writing of the settings file has got to: the work that comes next, or the end.
#[derive(Debug)]
pub enum SaveStep {
    /// Create the directory of the file; these settings are to be written then.
    MakeDirectory(Settings),
    /// Turn these settings into the text of the file.
    Encode(Settings),
    /// Write this text to the file.
    Write(String),
    /// Nothing is left to do.
    Finished(Result<(), String>),
}

/// The model of a [`SaveStep`].
pub enum SaveStepView {
    MakeDirectory(SettingsView),
    Encode(SettingsView),
    Write(Seq<char>),
    Finished(Result<(), Seq<char>>),
}

impl View for SaveStep {
    type V = SaveStepView;

    open spec fn view(&self) -> SaveStepView {
        match self {
            SaveStep::MakeDirectory(s) => SaveStepView::MakeDirectory(s@),
            SaveStep::Encode(s) => SaveStepView::Encode(s@),
            SaveStep::Write(t) => SaveStepView::Write(t@),
            SaveStep::Finished(Ok(u)) => SaveStepView::Finished(Ok(*u)),
            SaveStep::Finished(Err(e)) => SaveStepView::Finished(Err(e@)),
        }
    }
}

/// How saving `settings` begins. `has_parent` is whether the path of the file names a
/// directory.
pub open spec fn save_first(has_parent: bool, settings: SettingsView) -> SaveStepView {
    if has_parent {
        SaveStepView::MakeDirectory(settings)
    } else {
        SaveStepView::Encode(settings)
    }
}

/// The step that follows `step` once it has reported `reply`. `path` is that of the file.
pub open spec fn save_next(
    step: SaveStepView,
    path: Seq<char>,
    reply: Result<Seq<char>, Seq<char>>,
) -> SaveStepView {
    match (step, reply) {
        (SaveStepView::MakeDirectory(s), Ok(_)) => SaveStepView::Encode(s),
        (SaveStepView::MakeDirectory(_), Err(e)) => SaveStepView::Finished(Err("mkdir: "@ + e)),
        (SaveStepView::Encode(_), Ok(text)) => SaveStepView::Write(text),
        (SaveStepView::Encode(_), Err(e)) => SaveStepView::Finished(Err(e)),
        (SaveStepView::Write(_), Ok(_)) => SaveStepView::Finished(Ok(())),
        (SaveStepView::Write(_), Err(e)) => SaveStepView::Finished(
            Err("write "@ + path + ": "@ + e),
        ),
        (SaveStepView::Finished(_), _) => step,
    }
}

/// How saving `settings` begins. `has_parent` is whether the path of the file names a
/// directory.
pub fn save(has_parent: bool, settings: &Settings) -> (r: SaveStep)
    ensures
        r@ == save_first(has_parent, settings@),
{
    if has_parent {
        SaveStep::MakeDirectory(settings.clone())
    } else {
        SaveStep::Encode(settings.clone())
    }
}

impl SaveStep {
    /// The step that follows this one once it has reported `reply`: the text that it made,
    /// where it makes one, or its error.
    pub fn resume(self, path: &str, reply: Result<String, String>) -> (r: SaveStep)
        ensures
            r@ == save_next(self@, path@, result_view(reply)),
    {
        match (self, reply) {
            (SaveStep::MakeDirectory(s), Ok(_)) => SaveStep::Encode(s),
            (SaveStep::MakeDirectory(_), Err(e)) => SaveStep::Finished(
                Err(join("mkdir: ", e.as_str())),
            ),
            (SaveStep::Encode(_), Ok(text)) => SaveStep::Write(text),
            (SaveStep::Encode(_), Err(e)) => SaveStep::Finished(Err(e)),
            (SaveStep::Write(_), Ok(_)) => SaveStep::Finished(Ok(())),
            (SaveStep::Write(_), Err(e)) => SaveStep::Finished(
                Err(join("write ", path).concat(": ").concat(e.as_str())),
            ),
            (SaveStep::Finished(r), _) => SaveStep::Finished(r),
        }
    }
}

/// The step that saving `settings` has got to once the replies came in one after the other.
pub open spec fn save_run(
    has_parent: bool,
    settings: SettingsView,
    path: Seq<char>,
    replies: Seq<Result<Seq<char>, Seq<char>>>,
) -> SaveStepView
    decreases replies.len(),
{
    if replies.len() == 0 {
        save_first(has_parent, settings)
    } else {
        save_next(
            save_run(has_parent, settings, path, replies.drop_last()),
            path,
            replies.last(),
        )
    }
}

/// The settings that were given are those that are encoded, the file is written with
/// exactly the text that encoding them gave, and saving succeeds exactly where every step
/// does.
pub proof fn law_saving_writes_what_was_encoded(
    has_parent: bool,
    settings: SettingsView,
    path: Seq<char>,
    made: Result<Seq<char>, Seq<char>>,
    encoded: Result<Seq<char>, Seq<char>>,
    written: Result<Seq<char>, Seq<char>>,
)
    ensures
        ({
            let first = if has_parent {
                save_next(save_first(has_parent, settings), path, made)
            } else {
                save_first(has_parent, settings)
            };
            let second = save_next(first, path, encoded);
            let last = save_next(second, path, written);
            &&& first matches SaveStepView::Encode(s) ==> s == settings
            &&& has_parent ==> (first is Encode <==> made is Ok)
            &&& second matches SaveStepView::Write(text) ==> encoded == Ok::<
                Seq<char>,
                Seq<char>,
            >(text)
            &&& last is Finished
            &&& last == SaveStepView::Finished(Ok(())) <==> (has_parent ==> made is Ok)
                && encoded is Ok && written is Ok
        }),
{
}

/// What was saved is what is loaded, whatever the file held before: saving encodes the
/// settings that were given and writes the text that this gave, so that settings which are
/// read back out of that text are loaded as they were. `text_of` is how settings are
/// encoded, and `settings_of` how the text of the file is read, for which it is enough that
/// it undoes the encoding of these settings.
pub proof fn law_loading_gives_back_what_was_saved(
    has_parent: bool,
    settings: SettingsView,
    path: Seq<char>,
    replies: Seq<Result<Seq<char>, Seq<char>>>,
    text_of: spec_fn(SettingsView) -> Seq<char>,
    settings_of: spec_fn(Seq<char>) -> Option<SettingsView>,
    before: Seq<char>,
)
    requires
        settings_of(text_of(settings)) == Some(settings),
        encodes_with(has_parent, settings, path, replies, text_of),
        save_run(has_parent, settings, path, replies) == SaveStepView::Finished(Ok(())),
    ensures
        file_after(has_parent, settings, path, replies, before) == text_of(settings),
        loaded(settings_of(file_after(has_parent, settings, path, replies, before))) == settings,
{
    lemma_file_after(has_parent, settings, path, replies, text_of, before);
}

/// Whether each step that encodes is answered, where it succeeds, with what `text_of` makes
/// of its settings.
pub open spec fn encodes_with(
    has_parent: bool,
    settings: SettingsView,
    path: Seq<char>,
    replies: Seq<Result<Seq<char>, Seq<char>>>,
    text_of: spec_fn(SettingsView) -> Seq<char>,
) -> bool
    decreases replies.len(),
{
    replies.len() > 0 ==> {
        &&& encodes_with(has_parent, settings, path, replies.drop_last(), text_of)
        &&& (save_run(has_parent, settings, path, replies.drop_last()), replies.last()) matches (
            SaveStepView::Encode(s),
            Ok(text),
        ) ==> text == text_of(s)
    }
}

/// What the file holds once the replies came in, `before` being what it held before: the
/// text of the last step that wrote and succeeded.
pub open spec fn file_after(
    has_parent: bool,
    settings: SettingsView,
    path: Seq<char>,
    replies: Seq<Result<Seq<char>, Seq<char>>>,
    before: Seq<char>,
) -> Seq<char>
    decreases replies.len(),
{
    if replies.len() == 0 {
        before
    } else {
        match (save_run(has_parent, settings, path, replies.drop_last()), replies.last()) {
            (SaveStepView::Write(text), Ok(_)) => text,
            _ => file_after(has_parent, settings, path, replies.drop_last(), before),
        }
    }
}

proof fn lemma_file_after(
    has_parent: bool,
    settings: SettingsView,
    path: Seq<char>,
    replies: Seq<Result<Seq<char>, Seq<char>>>,
    text_of: spec_fn(SettingsView) -> Seq<char>,
    before: Seq<char>,
)
    requires
        encodes_with(has_parent, settings, path, replies, text_of),
    ensures
        match save_run(has_parent, settings, path, replies) {
            SaveStepView::MakeDirectory(s) => s == settings,
            SaveStepView::Encode(s) => s == settings,
            SaveStepView::Write(text) => text == text_of(settings),
            SaveStepView::Finished(Ok(_)) => file_after(
                has_parent,
                settings,
                path,
                replies,
                before,
            ) == text_of(settings),
            SaveStepView::Finished(Err(_)) => true,
        },
    decreases replies.len(),
{
    if replies.len() > 0 {
        lemma_file_after(has_parent, settings, path, replies.drop_last(), text_of, before);
    }
}

/// The settings of a fresh install, and what is loaded: what was stored, field by field, or
/// these.
pub proof fn law_stored_settings_come_before_the_defaults(s: Settings)
    ensures
        loaded(stored_view(Some(s))).hotkey == s.hotkey@,
        loaded(stored_view(Some(s))).model_file == s.model_file@,
        s.input_device matches Some(d) ==> loaded(stored_view(Some(s))).input_device == Some(d@),
        s.input_device is None ==> loaded(stored_view(Some(s))).input_device is None,
        loaded(stored_view(None)).hotkey == "F13"@,
        loaded(stored_view(None)).model_file == "ggml-small.en.bin"@,
        loaded(stored_view(None)).input_device is None,
{
}

/// A step of saving that fails ends it, with an error that tells the step and the reason.
pub proof fn law_failed_saving_is_told(s: SettingsView, text: Seq<char>, path: Seq<char>, e: Seq<char>)
    ensures
        save_next(SaveStepView::MakeDirectory(s), path, Err(e)) == SaveStepView::Finished(
            Err("mkdir: "@ + e),
        ),
        save_next(SaveStepView::Encode(s), path, Err(e)) == SaveStepView::Finished(Err(e)),
        save_next(SaveStepView::Write(text), path, Err(e)) == SaveStepView::Finished(
            Err("write "@ + path + ": "@ + e),
        ),
{
}

/// Saving goes its whole way where nothing fails: the directory, where there is one, then
/// the encoding of exactly these settings, then the writing of exactly that text.
pub proof fn law_saving_goes_its_whole_way(
    s: SettingsView,
    path: Seq<char>,
    made: Seq<char>,
    text: Seq<char>,
    written: Seq<char>,
)
    ensures
        save_first(true, s) == SaveStepView::MakeDirectory(s),
        save_next(SaveStepView::MakeDirectory(s), path, Ok(made)) == SaveStepView::Encode(s),
        save_first(false, s) == SaveStepView::Encode(s),
        save_next(SaveStepView::Encode(s), path, Ok(text)) == SaveStepView::Write(text),
        save_next(SaveStepView::Write(text), path, Ok(written)) == SaveStepView::Finished(Ok(())),
{
}

/// Once the settings were saved, or could not be, nothing more happens to them.
pub proof fn law_saving_ends_for_good(
    result: Result<(), Seq<char>>,
    path: Seq<char>,
    reply: Result<Seq<char>, Seq<char>>,
)
    ensures
        save_next(SaveStepView::Finished(result), path, reply) == SaveStepView::Finished(result),
{
}

/// Settings and the steps of saving are seen as they are, field by field.
pub proof fn law_settings_are_seen_as_they_are(s: Settings, text: String)
    ensures
        s@.hotkey == s.hotkey@,
        s@.model_file == s.model_file@,
        s.input_device matches Some(d) ==> s@.input_device == Some(d@),
        s.input_device is None ==> s@.input_device is None,
        SaveStep::MakeDirectory(s)@ == SaveStepView::MakeDirectory(s@),
        SaveStep::Encode(s)@ == SaveStepView::Encode(s@),
        SaveStep::Write(text)@ == SaveStepView::Write(text@),
        SaveStep::Finished(Ok(()))@ == SaveStepView::Finished(Ok(())),
        SaveStep::Finished(Err(text))@ == SaveStepView::Finished(Err(text@)),
{
}

} // verus!

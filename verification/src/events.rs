//! What the window is told, and what a press and a release of the hotkey bring about.

use vstd::prelude::*;

use crate::audio::AudioCapture;
use crate::text::{
    join, law_trimming_keeps_what_stands_between, lemma_trimmed, lemma_trimmed_start_idempotent,
    opt_view, result_view, trim, trimmed, white_space,
};
use crate::transcribe::{law_transcript_is_all_of_the_text, transcript};
use crate::utterance::{DictationStep, DictationStepView};

verus! {

/// What was recorded between a press and a release.
#[derive(Clone, Copy, Debug, PartialEq, Eq, Structural)]
pub struct CaptureReport {
    /// The number of samples.
    pub samples: usize,
    /// The rate of the samples.
    pub sample_rate: u32,
    /// How long the recording is, in milliseconds.
    pub duration_ms: u64,
}

/// A message to the window.
#[derive(Debug)]
pub enum UiEvent {
    /// The hotkey was armed, or disarmed.
    ListenerState(bool),
    /// The model file is there, or missing.
    ModelState(bool),
    /// The hotkey went down, and recording started.
    HotkeyPressed,
    /// The hotkey went up.
    HotkeyReleased,
    /// Recording could not start.
    CaptureError(String),
    /// Recording is over.
    CaptureDone(CaptureReport),
    /// Transcription begins.
    TranscribeStart,
    /// The text that was heard.
    Transcript(String),
    /// There is no text.
    TranscribeError(String),
    /// The text could not be typed.
    InjectError(String),
}

/// The model of a [`UiEvent`].
pub enum UiEventView {
    ListenerState(bool),
    ModelState(bool),
    HotkeyPressed,
    HotkeyReleased,
    CaptureError(Seq<char>),
    CaptureDone(CaptureReport),
    TranscribeStart,
    Transcript(Seq<char>),
    TranscribeError(Seq<char>),
    InjectError(Seq<char>),
}

impl View for UiEvent {
    type V = UiEventView;

    open spec fn view(&self) -> UiEventView {
        match self {
            UiEvent::ListenerState(b) => UiEventView::ListenerState(*b),
            UiEvent::ModelState(b) => UiEventView::ModelState(*b),
            UiEvent::HotkeyPressed => UiEventView::HotkeyPressed,
            UiEvent::HotkeyReleased => UiEventView::HotkeyReleased,
            UiEvent::CaptureError(e) => UiEventView::CaptureError(e@),
            UiEvent::CaptureDone(r) => UiEventView::CaptureDone(*r),
            UiEvent::TranscribeStart => UiEventView::TranscribeStart,
            UiEvent::Transcript(t) => UiEventView::Transcript(t@),
            UiEvent::TranscribeError(e) => UiEventView::TranscribeError(e@),
            UiEvent::InjectError(e) => UiEventView::InjectError(e@),
        }
    }
}

/// The name under which an event is sent.
pub open spec fn event_name(e: UiEventView) -> Seq<char> {
    match e {
        UiEventView::ListenerState(_) => "listener:state"@,
        UiEventView::ModelState(_) => "model:state"@,
        UiEventView::HotkeyPressed => "hotkey:pressed"@,
        UiEventView::HotkeyReleased => "hotkey:released"@,
        UiEventView::CaptureError(_) => "capture:error"@,
        UiEventView::CaptureDone(_) => "capture:done"@,
        UiEventView::TranscribeStart => "transcribe:start"@,
        UiEventView::Transcript(_) => "transcript"@,
        UiEventView::TranscribeError(_) => "transcribe:error"@,
        UiEventView::InjectError(_) => "inject:error"@,
    }
}

/// The text that is sent along with an event, where it is one.
pub open spec fn event_text(e: UiEventView) -> Option<Seq<char>> {
    match e {
        UiEventView::ListenerState(b) => Some(listener_text(b)),
        UiEventView::ModelState(b) => Some(
            if b {
                "ready"@
            } else {
                "missing"@
            },
        ),
        UiEventView::HotkeyPressed => None,
        UiEventView::HotkeyReleased => None,
        UiEventView::CaptureError(t) => Some(t),
        UiEventView::CaptureDone(_) => None,
        UiEventView::TranscribeStart => None,
        UiEventView::Transcript(t) => Some(t),
        UiEventView::TranscribeError(t) => Some(t),
        UiEventView::InjectError(t) => Some(t),
    }
}

/// How the window calls a listener that is armed, or not.
pub open spec fn listener_text(active: bool) -> Seq<char> {
    if active {
        "ready"@
    } else {
        "stopped"@
    }
}

/// How the window calls a listener that is armed, or not.
pub(crate) fn listener_state(active: bool) -> (r: &'static str)
    ensures
        r@ == listener_text(active),
{
    if active {
        "ready"
    } else {
        "stopped"
    }
}

impl UiEvent {
    /// The name under which the event is sent.
    pub fn name(&self) -> (r: &'static str)
        ensures
            r@ == event_name(self@),
    {
        match self {
            UiEvent::ListenerState(_) => "listener:state",
            UiEvent::ModelState(_) => "model:state",
            UiEvent::HotkeyPressed => "hotkey:pressed",
            UiEvent::HotkeyReleased => "hotkey:released",
            UiEvent::CaptureError(_) => "capture:error",
            UiEvent::CaptureDone(_) => "capture:done",
            UiEvent::TranscribeStart => "transcribe:start",
            UiEvent::Transcript(_) => "transcript",
            UiEvent::TranscribeError(_) => "transcribe:error",
            UiEvent::InjectError(_) => "inject:error",
        }
    }

    /// The text that is sent along with the event, where it is one.
    pub fn text(&self) -> (r: Option<&str>)
        ensures
            r is Some <==> event_text(self@) is Some,
            r matches Some(t) ==> event_text(self@) == Some(t@),
    {
        match self {
            UiEvent::ListenerState(b) => Some(listener_state(*b)),
            UiEvent::ModelState(b) => Some(
                if *b {
                    "ready"
                } else {
                    "missing"
                },
            ),
            UiEvent::CaptureError(t) => Some(t.as_str()),
            UiEvent::Transcript(t) => Some(t.as_str()),
            UiEvent::TranscribeError(t) => Some(t.as_str()),
            UiEvent::InjectError(t) => Some(t.as_str()),
            _ => None,
        }
    }
}

/// Takes a press of the hotkey: recording starts where the microphone is open.
pub fn hotkey_pressed<S: Copy>(audio: &mut AudioCapture<S>) -> (r: UiEvent)
    requires
        old(audio)@.wf(),
    ensures
        final(audio)@ == old(audio)@.pressed(),
        final(audio)@.wf(),
        r@ == (if old(audio)@.armed {
            UiEventView::HotkeyPressed
        } else {
            UiEventView::CaptureError("Audio not armed — click Start dictation first"@)
        }),
{
    if audio.start_recording() {
        UiEvent::HotkeyPressed
    } else {
        UiEvent::CaptureError("Audio not armed — click Start dictation first".to_owned())
    }
}

/// What a release of the hotkey leaves to do.
pub struct Released<S> {
    /// What the window is told, in this order.
    pub events: Vec<UiEvent>,
    /// How to go on with what was recorded.
    pub step: DictationStep<S>,
}

/// Takes a release of the hotkey: recording stops. `millis` is how long so many samples of
/// a rate last; a rate of 0, which is that of a closed microphone, lasts no time.
pub fn hotkey_released<S: Copy, F: Fn(usize, u32) -> u64>(
    audio: &mut AudioCapture<S>,
    millis: F,
) -> (r: Released<S>)
    requires
        old(audio)@.wf(),
        forall|n: usize, rate: u32| rate > 0 ==> call_requires(millis, (n, rate)),
    ensures
        final(audio)@ == old(audio)@.released(),
        final(audio)@.wf(),
        r.step@ == DictationStepView::LookForModel(
            old(audio)@.samples,
            old(audio)@.sample_rate,
        ),
        r.events@.len() == 2,
        r.events@[0]@ == UiEventView::HotkeyReleased,
        r.events@[1]@ matches UiEventView::CaptureDone(report) && {
            &&& report.samples == old(audio)@.samples.len()
            &&& report.sample_rate == old(audio)@.sample_rate
            &&& report.sample_rate == 0 ==> report.duration_ms == 0
            &&& report.sample_rate > 0 ==> call_ensures(
                millis,
                (report.samples, report.sample_rate),
                report.duration_ms,
            )
        },
{
    let (samples, sample_rate) = audio.stop_recording();
    let n: usize = samples.len();
    let duration_ms: u64 = if sample_rate > 0 {
        millis(n, sample_rate)
    } else {
        0
    };
    let mut events: Vec<UiEvent> = Vec::new();
    events.push(UiEvent::HotkeyReleased);
    events.push(UiEvent::CaptureDone(CaptureReport { samples: n, sample_rate, duration_ms }));
    Released { events, step: DictationStep::LookForModel(samples, sample_rate) }
}

/// What comes before a transcription: what the window is told, and whether to go on.
/// `present` is whether the model file, which is expected at `model_path`, is there.
pub fn begin_transcription(model_path: &str, present: bool) -> (r: (UiEvent, bool))
    ensures
        r.1 == present,
        r.0@ == (if present {
            UiEventView::TranscribeStart
        } else {
            UiEventView::TranscribeError("Model file missing: "@ + model_path@)
        }),
{
    if !present {
        return (UiEvent::TranscribeError(join("Model file missing: ", model_path)), false);
    }
    (UiEvent::TranscribeStart, true)
}

/// The text to type once a transcription is over, where there is one.
pub open spec fn text_to_type(result: Result<Seq<char>, Seq<char>>) -> Option<Seq<char>> {
    match result {
        Ok(text) => if trimmed(text).len() > 0 {
            Some(trimmed(text))
        } else {
            None
        },
        Err(_) => None,
    }
}

/// What comes after a transcription: what the window is told, and the text to type.
pub fn end_transcription(result: Result<String, String>) -> (r: (UiEvent, Option<String>))
    ensures
        r.0@ == (match result {
            Ok(text) => UiEventView::Transcript(text@),
            Err(e) => UiEventView::TranscribeError(e@),
        }),
        opt_view(r.1) == text_to_type(result_view(result)),
{
    match result {
        Ok(text) => {
            let t: String = trim(text.as_str()).to_owned();
            let to_type: Option<String> = if !t.as_str().is_empty() {
                Some(t)
            } else {
                None
            };
            (UiEvent::Transcript(text), to_type)
        },
        Err(e) => (UiEvent::TranscribeError(e), None),
    }
}

/// What the window is told once the text was typed, or could not be.
pub fn end_typing(result: Result<(), String>) -> (r: Option<UiEvent>)
    ensures
        result is Ok ==> r is None,
        result matches Err(e) ==> (r matches Some(event) && event@ == UiEventView::InjectError(e@)),
{
    match result {
        Ok(_) => None,
        Err(e) => Some(UiEvent::InjectError(e)),
    }
}

/// What is typed is neither empty nor padded with white space, it is a piece of the
/// transcript, and a transcript of white space alone types nothing.
pub proof fn law_typed_text_is_trimmed(text: Seq<char>)
    ensures
        trimmed(text).len() > 0 ==> !white_space(trimmed(text)[0]) && !white_space(
            trimmed(text).last(),
        ),
        exists|i: int, j: int|
            0 <= i <= j <= text.len() && trimmed(text) == #[trigger] text.subrange(i, j),
        trimmed(text).len() == 0 <==> forall|i: int| 0 <= i < text.len() ==> white_space(text[i]),
{
    lemma_trimmed(text);
}

/// What was said is what is typed: where the model hears `texts`, their text in order is
/// typed, without the white space around it, and nothing where that is all there is.
pub proof fn law_what_was_said_is_typed(texts: Seq<Seq<char>>)
    ensures
        text_to_type(
            transcript(Seq::new(texts.len(), |i: int| Some(Ok::<Seq<char>, Seq<char>>(texts[i])))),
        ) == (if trimmed(texts.flatten()).len() > 0 {
            Some(trimmed(texts.flatten()))
        } else {
            None
        }),
{
    law_transcript_is_all_of_the_text(texts);
    lemma_trimmed_start_idempotent(texts.flatten());
}

/// Each event is sent under its name, with its whole text: what was heard, what went wrong,
/// or how the listener and the model stand.
pub proof fn law_events_carry_their_text(t: Seq<char>, report: CaptureReport)
    ensures
        event_name(UiEventView::Transcript(t)) == "transcript"@,
        event_name(UiEventView::TranscribeStart) == "transcribe:start"@,
        event_name(UiEventView::TranscribeError(t)) == "transcribe:error"@,
        event_name(UiEventView::InjectError(t)) == "inject:error"@,
        event_name(UiEventView::CaptureError(t)) == "capture:error"@,
        event_name(UiEventView::CaptureDone(report)) == "capture:done"@,
        event_name(UiEventView::HotkeyPressed) == "hotkey:pressed"@,
        event_name(UiEventView::HotkeyReleased) == "hotkey:released"@,
        event_text(UiEventView::Transcript(t)) == Some(t),
        event_text(UiEventView::TranscribeError(t)) == Some(t),
        event_text(UiEventView::InjectError(t)) == Some(t),
        event_text(UiEventView::CaptureError(t)) == Some(t),
        event_text(UiEventView::TranscribeStart) is None,
        event_text(UiEventView::CaptureDone(report)) is None,
        event_text(UiEventView::HotkeyPressed) is None,
        event_text(UiEventView::HotkeyReleased) is None,
        forall|on: bool| #[trigger]
            event_name(UiEventView::ListenerState(on)) == "listener:state"@ && event_text(
                UiEventView::ListenerState(on),
            ) == Some(
                if on {
                    "ready"@
                } else {
                    "stopped"@
                },
            ),
        forall|there: bool| #[trigger]
            event_name(UiEventView::ModelState(there)) == "model:state"@ && event_text(
                UiEventView::ModelState(there),
            ) == Some(
                if there {
                    "ready"@
                } else {
                    "missing"@
                },
            ),
{
}

/// What is typed of a transcript is all that stands between the white space at its two ends,
/// however long it is; nothing is typed where there is only white space, or no transcript.
pub proof fn law_all_but_the_white_space_around_is_typed(
    before: Seq<char>,
    text: Seq<char>,
    after: Seq<char>,
    e: Seq<char>,
)
    requires
        forall|i: int| 0 <= i < before.len() ==> white_space(before[i]),
        forall|i: int| 0 <= i < after.len() ==> white_space(after[i]),
        text.len() > 0 ==> !white_space(text[0]) && !white_space(text.last()),
    ensures
        text.len() > 0 ==> text_to_type(Ok(before + text + after)) == Some(text),
        text.len() == 0 ==> text_to_type(Ok(before + text + after)) is None,
        text_to_type(Err(e)) is None,
{
    if text.len() > 0 {
        law_trimming_keeps_what_stands_between(before, text, after);
    } else {
        lemma_trimmed(before + text + after);
    }
}

/// Events are seen as they are, with every character.
pub proof fn law_events_are_seen_as_they_are(text: String, report: CaptureReport, b: bool)
    ensures
        UiEvent::ListenerState(b)@ == UiEventView::ListenerState(b),
        UiEvent::ModelState(b)@ == UiEventView::ModelState(b),
        UiEvent::HotkeyPressed@ == UiEventView::HotkeyPressed,
        UiEvent::HotkeyReleased@ == UiEventView::HotkeyReleased,
        UiEvent::CaptureError(text)@ == UiEventView::CaptureError(text@),
        UiEvent::CaptureDone(report)@ == UiEventView::CaptureDone(report),
        UiEvent::TranscribeStart@ == UiEventView::TranscribeStart,
        UiEvent::Transcript(text)@ == UiEventView::Transcript(text@),
        UiEvent::TranscribeError(text)@ == UiEventView::TranscribeError(text@),
        UiEvent::InjectError(text)@ == UiEventView::InjectError(text@),
{
}

} // verus!

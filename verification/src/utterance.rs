//! From the release of the hotkey to the text that is typed.

use vstd::prelude::*;

use crate::audio::{
    law_nothing_is_kept_while_not_recording, law_release_gives_what_was_heard, AudioView,
};
use crate::events::{
    begin_transcription, end_transcription, end_typing,
    law_all_but_the_white_space_around_is_typed, text_to_type, UiEvent, UiEventView,
};
use crate::inject::{send_first, SendStepView};
use crate::text::{reply_view, result_view, trimmed, white_space};

verus! {

/// What has become of a recording: the work that comes next, or the end.
#[derive(Debug)]
pub enum DictationStep<S> {
    /// See whether the model file is there; these samples of this rate are to be
    /// transcribed then.
    LookForModel(Vec<S>, u32),
    /// Transcribe these samples of this rate.
    Transcribe(Vec<S>, u32),
    /// Type this text.
    Type(String),
    /// Nothing is left to do.
    Finished,
}

/// What the work of a step came to.
#[derive(Debug)]
pub enum DictationReply {
    /// Whether the model file is there.
    ModelFound(bool),
    /// The transcript, or the error.
    Transcribed(Result<String, String>),
    /// The text was typed, or could not be.
    Typed(Result<(), String>),
}

/// The model of a [`DictationStep`].
pub enum DictationStepView<S> {
    LookForModel(Seq<S>, u32),
    Transcribe(Seq<S>, u32),
    Type(Seq<char>),
    Finished,
}

/// The model of a [`DictationReply`].
pub enum DictationReplyView {
    ModelFound(bool),
    Transcribed(Result<Seq<char>, Seq<char>>),
    Typed(Result<(), Seq<char>>),
}

impl<S> View for DictationStep<S> {
    type V = DictationStepView<S>;

    open spec fn view(&self) -> DictationStepView<S> {
        match self {
            DictationStep::LookForModel(samples, rate) => DictationStepView::LookForModel(
                samples@,
                *rate,
            ),
            DictationStep::Transcribe(samples, rate) => DictationStepView::Transcribe(
                samples@,
                *rate,
            ),
            DictationStep::Type(text) => DictationStepView::Type(text@),
            DictationStep::Finished => DictationStepView::Finished,
        }
    }
}

impl View for DictationReply {
    type V = DictationReplyView;

    open spec fn view(&self) -> DictationReplyView {
        match self {
            DictationReply::ModelFound(b) => DictationReplyView::ModelFound(*b),
            DictationReply::Transcribed(r) => DictationReplyView::Transcribed(result_view(*r)),
            DictationReply::Typed(r) => DictationReplyView::Typed(reply_view(*r)),
        }
    }
}

/// Events, as their models.
pub open spec fn event_views(events: Seq<UiEvent>) -> Seq<UiEventView> {
    events.map_values(|e: UiEvent| e@)
}

/// What the window is told, in this order, and the step that follows, once the work of
/// `step` came to `reply`. The model file is expected at `model_path`. A reply that `step`
/// does not wait for changes nothing.
pub open spec fn dictation_next<S>(
    step: DictationStepView<S>,
    model_path: Seq<char>,
    reply: DictationReplyView,
) -> (Seq<UiEventView>, DictationStepView<S>) {
    match (step, reply) {
        (
            DictationStepView::LookForModel(samples, rate),
            DictationReplyView::ModelFound(found),
        ) => if found {
            (seq![UiEventView::TranscribeStart], DictationStepView::Transcribe(samples, rate))
        } else {
            (
                seq![UiEventView::TranscribeError("Model file missing: "@ + model_path)],
                DictationStepView::Finished,
            )
        },
        (DictationStepView::Transcribe(_, _), DictationReplyView::Transcribed(result)) => (
            seq![
                match result {
                    Ok(text) => UiEventView::Transcript(text),
                    Err(e) => UiEventView::TranscribeError(e),
                },
            ],
            match text_to_type(result) {
                Some(text) => DictationStepView::Type(text),
                None => DictationStepView::Finished,
            },
        ),
        (DictationStepView::Type(_), DictationReplyView::Typed(result)) => (
            match result {
                Ok(_) => Seq::empty(),
                Err(e) => seq![UiEventView::InjectError(e)],
            },
            DictationStepView::Finished,
        ),
        _ => (Seq::empty(), step),
    }
}

impl<S> DictationStep<S> {
    /// What the window is told, in this order, and the step that follows this one once its
    /// work came to `reply`. The model file is expected at `model_path`.
    pub fn resume(self, model_path: &str, reply: DictationReply) -> (r: (
        Vec<UiEvent>,
        DictationStep<S>,
    ))
        ensures
            (event_views(r.0@), r.1@) == dictation_next(self@, model_path@, reply@),
    {
        let mut events: Vec<UiEvent> = Vec::new();
        let next: DictationStep<S> = match (self, reply) {
            (DictationStep::LookForModel(samples, rate), DictationReply::ModelFound(found)) => {
                let (event, go_on) = begin_transcription(model_path, found);
                events.push(event);
                if go_on {
                    DictationStep::Transcribe(samples, rate)
                } else {
                    DictationStep::Finished
                }
            },
            (DictationStep::Transcribe(_, _), DictationReply::Transcribed(result)) => {
                let (event, text) = end_transcription(result);
                events.push(event);
                match text {
                    Some(t) => DictationStep::Type(t),
                    None => DictationStep::Finished,
                }
            },
            (DictationStep::Type(_), DictationReply::Typed(result)) => {
                if let Some(event) = end_typing(result) {
                    events.push(event);
                }
                DictationStep::Finished
            },
            (step, _) => step,
        };
        assert(event_views(events@) =~= dictation_next(self@, model_path@, reply@).0);
        (events, next)
    }
}

/// The step that is reached once the replies came in one after the other.
pub open spec fn dictation_run<S>(
    first: DictationStepView<S>,
    model_path: Seq<char>,
    replies: Seq<DictationReplyView>,
) -> DictationStepView<S>
    decreases replies.len(),
{
    if replies.len() == 0 {
        first
    } else {
        dictation_next(
            dictation_run(first, model_path, replies.drop_last()),
            model_path,
            replies.last(),
        ).1
    }
}

/// The texts that were handed over to be typed while the replies came in, in this order.
pub open spec fn typed<S>(
    first: DictationStepView<S>,
    model_path: Seq<char>,
    replies: Seq<DictationReplyView>,
) -> Seq<Seq<char>>
    decreases replies.len(),
{
    if replies.len() == 0 {
        Seq::empty()
    } else {
        let before = typed(first, model_path, replies.drop_last());
        match (dictation_run(first, model_path, replies.drop_last()), replies.last()) {
            (DictationStepView::Type(text), DictationReplyView::Typed(_)) => before.push(text),
            _ => before,
        }
    }
}

/// What transcribing came to, once it was asked for: the samples, their rate and the result.
pub open spec fn transcribed<S>(
    first: DictationStepView<S>,
    model_path: Seq<char>,
    replies: Seq<DictationReplyView>,
) -> Option<(Seq<S>, u32, Result<Seq<char>, Seq<char>>)>
    decreases replies.len(),
{
    if replies.len() == 0 {
        None
    } else {
        match (dictation_run(first, model_path, replies.drop_last()), replies.last()) {
            (
                DictationStepView::Transcribe(samples, rate),
                DictationReplyView::Transcribed(result),
            ) => Some((samples, rate, result)),
            _ => transcribed(first, model_path, replies.drop_last()),
        }
    }
}

/// A recording is transcribed at most once, as it was recorded. Once all is done, the text
/// of the transcript has been handed over to be typed exactly once, without the white space
/// around it, and nothing else has; where there is no such text, nothing has at all.
pub proof fn law_each_transcript_is_typed_once<S>(
    samples: Seq<S>,
    rate: u32,
    model_path: Seq<char>,
    replies: Seq<DictationReplyView>,
)
    ensures
        ({
            let first = DictationStepView::LookForModel(samples, rate);
            let heard = transcribed(first, model_path, replies);
            &&& heard matches Some((s, r, _)) ==> s == samples && r == rate
            &&& typed(first, model_path, replies).len() <= 1
            &&& dictation_run(first, model_path, replies) is Finished ==> typed(
                first,
                model_path,
                replies,
            ) == (match heard {
                Some((_, _, result)) => match text_to_type(result) {
                    Some(text) => seq![text],
                    None => Seq::empty(),
                },
                None => Seq::empty(),
            })
        }),
{
    lemma_dictation(samples, rate, model_path, replies);
}

proof fn lemma_dictation<S>(
    samples: Seq<S>,
    rate: u32,
    model_path: Seq<char>,
    replies: Seq<DictationReplyView>,
)
    ensures
        ({
            let first = DictationStepView::LookForModel(samples, rate);
            let heard = transcribed(first, model_path, replies);
            let done = typed(first, model_path, replies);
            match dictation_run(first, model_path, replies) {
                DictationStepView::LookForModel(s, r) => s == samples && r == rate && heard is None
                    && done == Seq::<Seq<char>>::empty(),
                DictationStepView::Transcribe(s, r) => s == samples && r == rate && heard is None
                    && done == Seq::<Seq<char>>::empty(),
                DictationStepView::Type(text) => (heard matches Some((s, r, result)) && s
                    == samples && r == rate && text_to_type(result) == Some(text)) && done == Seq::<
                    Seq<char>,
                >::empty(),
                DictationStepView::Finished => match heard {
                    Some((s, r, result)) => s == samples && r == rate && done == (
                    match text_to_type(result) {
                        Some(text) => seq![text],
                        None => Seq::empty(),
                    }),
                    None => done == Seq::<Seq<char>>::empty(),
                },
            }
        }),
    decreases replies.len(),
{
    if replies.len() > 0 {
        lemma_dictation(samples, rate, model_path, replies.drop_last());
        let first = DictationStepView::LookForModel(samples, rate);
        if let DictationStepView::Type(text) = dictation_run(
            first,
            model_path,
            replies.drop_last(),
        ) {
            assert(Seq::<Seq<char>>::empty().push(text) =~= seq![text]);
        }
    }
}

/// What is spoken between a press and a release of the hotkey is typed, once. `blocks` is
/// what the open microphone delivers in that time, brought down to one channel; what it
/// delivers before the press and after the release has no part in it. All of `blocks` is
/// transcribed, at the rate of the microphone, and where the model makes `text` of it, this
/// text, without the white space around it, is handed over to be typed exactly once, to a
/// keyboard that types it as it is.
pub proof fn law_what_is_spoken_is_typed_once<S>(
    v: AudioView<S>,
    before: Seq<Seq<S>>,
    blocks: Seq<Seq<S>>,
    after: Seq<Seq<S>>,
    model_path: Seq<char>,
    replies: Seq<DictationReplyView>,
    text: Seq<char>,
)
    requires
        v.wf(),
        v.armed,
        ({
            let spoken = v.heard_all(before).pressed().heard_all(blocks);
            let first = DictationStepView::LookForModel(spoken.samples, spoken.sample_rate);
            &&& dictation_run(first, model_path, replies) is Finished
            &&& transcribed(first, model_path, replies) matches Some((_, _, result)) && result
                == Ok::<Seq<char>, Seq<char>>(text)
        }),
        trimmed(text).len() > 0,
    ensures
        ({
            let spoken = v.heard_all(before).pressed().heard_all(blocks);
            let first = DictationStepView::LookForModel(spoken.samples, spoken.sample_rate);
            &&& transcribed(first, model_path, replies) == Some(
                (blocks.flatten(), v.sample_rate, Ok::<Seq<char>, Seq<char>>(text)),
            )
            &&& typed(first, model_path, replies) == seq![trimmed(text)]
            &&& spoken.released().heard_all(after) == spoken.released()
            &&& spoken.released().samples.len() == 0
        }),
        send_first(true, trimmed(text)) == SendStepView::Type(trimmed(text)),
        send_first(false, trimmed(text)) == SendStepView::SetUp(trimmed(text)),
{
    let ready = v.heard_all(before);
    let spoken = ready.pressed().heard_all(blocks);
    lemma_hearing_changes_samples_only(v, before);
    law_release_gives_what_was_heard(ready, blocks);
    law_nothing_is_kept_while_not_recording(spoken.released(), after);
    law_each_transcript_is_typed_once(spoken.samples, spoken.sample_rate, model_path, replies);
}

proof fn lemma_hearing_changes_samples_only<S>(v: AudioView<S>, blocks: Seq<Seq<S>>)
    ensures
        v.heard_all(blocks) == (AudioView { samples: v.heard_all(blocks).samples, ..v }),
    decreases blocks.len(),
{
    if blocks.len() > 0 {
        lemma_hearing_changes_samples_only(v, blocks.drop_last());
    }
}

/// Every recording goes its whole way, whatever its length and rate: where the model file is
/// there it is transcribed, as it was recorded; a transcript with a text is typed, but for
/// the white space around it; and with that all is done. The window is told of each turn.
pub proof fn law_every_recording_goes_its_whole_way<S>(
    samples: Seq<S>,
    rate: u32,
    model_path: Seq<char>,
    before: Seq<char>,
    text: Seq<char>,
    after: Seq<char>,
    e: Seq<char>,
)
    requires
        forall|i: int| 0 <= i < before.len() ==> white_space(before[i]),
        forall|i: int| 0 <= i < after.len() ==> white_space(after[i]),
        text.len() > 0 ==> !white_space(text[0]) && !white_space(text.last()),
    ensures
        dictation_next(
            DictationStepView::LookForModel(samples, rate),
            model_path,
            DictationReplyView::ModelFound(true),
        ) == (
            seq![UiEventView::TranscribeStart],
            DictationStepView::Transcribe(samples, rate),
        ),
        dictation_next(
            DictationStepView::LookForModel(samples, rate),
            model_path,
            DictationReplyView::ModelFound(false),
        ) == (
            seq![UiEventView::TranscribeError("Model file missing: "@ + model_path)],
            DictationStepView::<S>::Finished,
        ),
        dictation_next(
            DictationStepView::Transcribe(samples, rate),
            model_path,
            DictationReplyView::Transcribed(Ok(before + text + after)),
        ) == (
            seq![UiEventView::Transcript(before + text + after)],
            if text.len() > 0 {
                DictationStepView::<S>::Type(text)
            } else {
                DictationStepView::<S>::Finished
            },
        ),
        dictation_next(
            DictationStepView::Transcribe(samples, rate),
            model_path,
            DictationReplyView::Transcribed(Err(e)),
        ) == (seq![UiEventView::TranscribeError(e)], DictationStepView::<S>::Finished),
        dictation_next(
            DictationStepView::<S>::Type(text),
            model_path,
            DictationReplyView::Typed(Ok(())),
        ) == (Seq::<UiEventView>::empty(), DictationStepView::<S>::Finished),
        dictation_next(
            DictationStepView::<S>::Type(text),
            model_path,
            DictationReplyView::Typed(Err(e)),
        ) == (seq![UiEventView::InjectError(e)], DictationStepView::<S>::Finished),
{
    law_all_but_the_white_space_around_is_typed(before, text, after, e);
}

/// Events are told one by one, in their order.
pub proof fn law_event_views_are_in_order(events: Seq<UiEvent>, i: int)
    ensures
        event_views(events).len() == events.len(),
        0 <= i < events.len() ==> event_views(events)[i] == events[i]@,
{
}

/// A reply that a step does not wait for changes nothing, and tells the window nothing.
pub proof fn law_other_replies_change_nothing<S>(
    samples: Seq<S>,
    rate: u32,
    text: Seq<char>,
    model_path: Seq<char>,
    reply: DictationReplyView,
)
    ensures
        reply !is ModelFound ==> dictation_next(
            DictationStepView::LookForModel(samples, rate),
            model_path,
            reply,
        ) == (Seq::<UiEventView>::empty(), DictationStepView::LookForModel(samples, rate)),
        reply !is Transcribed ==> dictation_next(
            DictationStepView::Transcribe(samples, rate),
            model_path,
            reply,
        ) == (Seq::<UiEventView>::empty(), DictationStepView::Transcribe(samples, rate)),
        reply !is Typed ==> dictation_next(DictationStepView::<S>::Type(text), model_path, reply)
            == (Seq::<UiEventView>::empty(), DictationStepView::<S>::Type(text)),
        dictation_next(DictationStepView::<S>::Finished, model_path, reply) == (
            Seq::<UiEventView>::empty(),
            DictationStepView::<S>::Finished,
        ),
{
}

/// Replies and steps are seen as they are: every sample, every character, and no error for a
/// result.
pub proof fn law_dictation_is_seen_as_it_is<S>(
    samples: Vec<S>,
    rate: u32,
    text: String,
    found: bool,
)
    ensures
        DictationReply::ModelFound(found)@ == DictationReplyView::ModelFound(found),
        DictationReply::Transcribed(Ok(text))@ == DictationReplyView::Transcribed(Ok(text@)),
        DictationReply::Transcribed(Err(text))@ == DictationReplyView::Transcribed(Err(text@)),
        DictationReply::Typed(Ok(()))@ == DictationReplyView::Typed(Ok(())),
        DictationReply::Typed(Err(text))@ == DictationReplyView::Typed(Err(text@)),
        DictationStep::LookForModel(samples, rate)@ == DictationStepView::LookForModel(
            samples@,
            rate,
        ),
        DictationStep::Transcribe(samples, rate)@ == DictationStepView::Transcribe(samples@, rate),
        DictationStep::<S>::Type(text)@ == DictationStepView::<S>::Type(text@),
        DictationStep::<S>::Finished@ == DictationStepView::<S>::Finished,
{
}

} // verus!

//! Typing text into the app that has the focus.

use vstd::prelude::*;

use crate::text::{join, reply_view};

verus! {

/// What types the text. It is set up at the first text to type, so that a failure shows
/// then and not when the app starts.
pub struct Injector {
    /// Whether the keyboard is set up.
    ready: bool,
}

impl View for Injector {
    type V = bool;

    closed spec fn view(&self) -> bool {
        self.ready
    }
}

/// Where the typing of a text has got to: the work that comes next, or the end.
#[derive(Debug)]
pub enum SendStep {
    /// Set up the keyboard; this text is to be typed then.
    SetUp(String),
    /// Type this text.
    Type(String),
    /// Nothing is left to do.
    Finished(Result<(), String>),
}

/// The model of a [`SendStep`].
pub enum SendStepView {
    SetUp(Seq<char>),
    Type(Seq<char>),
    Finished(Result<(), Seq<char>>),
}

impl View for SendStep {
    type V = SendStepView;

    open spec fn view(&self) -> SendStepView {
        match self {
            SendStep::SetUp(t) => SendStepView::SetUp(t@),
            SendStep::Type(t) => SendStepView::Type(t@),
            SendStep::Finished(Ok(u)) => SendStepView::Finished(Ok(*u)),
            SendStep::Finished(Err(e)) => SendStepView::Finished(Err(e@)),
        }
    }
}

/// How the typing of `text` begins, with a keyboard that is set up or not.
pub open spec fn send_first(ready: bool, text: Seq<char>) -> SendStepView {
    if text.len() == 0 {
        SendStepView::Finished(Ok(()))
    } else if ready {
        SendStepView::Type(text)
    } else {
        SendStepView::SetUp(text)
    }
}

/// Whether the keyboard is set up, and the step that follows, once `step` has reported
/// `reply`.
pub open spec fn send_next(
    ready: bool,
    step: SendStepView,
    reply: Result<(), Seq<char>>,
) -> (bool, SendStepView) {
    match (step, reply) {
        (SendStepView::SetUp(text), Ok(_)) => (true, SendStepView::Type(text)),
        (SendStepView::SetUp(_), Err(e)) => (
            ready,
            SendStepView::Finished(Err("Enigo init failed: "@ + e)),
        ),
        (SendStepView::Type(_), Ok(_)) => (ready, SendStepView::Finished(Ok(()))),
        (SendStepView::Type(_), Err(e)) => (
            ready,
            SendStepView::Finished(Err("Enigo text failed: "@ + e)),
        ),
        (SendStepView::Finished(_), _) => (ready, step),
    }
}

impl Injector {
    /// With a keyboard that is not set up.
    pub fn new() -> (r: Self)
        ensures
            !r@,
    {
        Injector { ready: false }
    }

    /// How the typing of `text` begins. An empty text is typed at once.
    pub fn send(&self, text: &str) -> (r: SendStep)
        ensures
            r@ == send_first(self@, text@),
    {
        if text.is_empty() {
            SendStep::Finished(Ok(()))
        } else if self.ready {
            SendStep::Type(text.to_owned())
        } else {
            SendStep::SetUp(text.to_owned())
        }
    }

    /// The step that follows `step` once it has reported `reply`.
    pub fn resume(&mut self, step: SendStep, reply: Result<(), String>) -> (r: SendStep)
        ensures
            (final(self)@, r@) == send_next(old(self)@, step@, reply_view(reply)),
    {
        match (step, reply) {
            (SendStep::SetUp(text), Ok(_)) => {
                self.ready = true;
                SendStep::Type(text)
            },
            (SendStep::SetUp(_), Err(e)) => SendStep::Finished(
                Err(join("Enigo init failed: ", e.as_str())),
            ),
            (SendStep::Type(_), Ok(_)) => SendStep::Finished(Ok(())),
            (SendStep::Type(_), Err(e)) => SendStep::Finished(
                Err(join("Enigo text failed: ", e.as_str())),
            ),
            (SendStep::Finished(r), _) => SendStep::Finished(r),
        }
    }
}

/// The keyboard is set up at most once: after it was, each text is typed right away, and
/// a failure to type does not undo it. Until it was, each text tries again.
pub proof fn law_keyboard_is_set_up_once(
    ready: bool,
    step: SendStepView,
    reply: Result<(), Seq<char>>,
    text: Seq<char>,
)
    ensures
        ready ==> send_next(ready, step, reply).0,
        ready ==> send_first(ready, text) !is SetUp,
        !ready && text.len() > 0 ==> send_first(ready, text) == SendStepView::SetUp(text),
        !ready && reply is Err ==> !send_next(ready, step, reply).0,
{
}

/// The text that is typed is the text that was sent, whether the keyboard had to be set
/// up for it or not, and sending succeeds exactly where all of its steps do.
pub proof fn law_text_is_typed_as_sent(
    text: Seq<char>,
    set_up: Result<(), Seq<char>>,
    typed: Result<(), Seq<char>>,
)
    requires
        text.len() > 0,
    ensures
        send_first(true, text) == SendStepView::Type(text),
        send_next(true, SendStepView::Type(text), typed).1 == SendStepView::Finished(Ok(()))
            <==> typed is Ok,
        ({
            let (ready, second) = send_next(false, send_first(false, text), set_up);
            let (_, last) = send_next(ready, second, typed);
            &&& set_up is Ok ==> second == SendStepView::Type(text)
            &&& last == SendStepView::Finished(Ok(())) <==> set_up is Ok && typed is Ok
        }),
{
}

/// Every text is typed, from the first to the last character, and once: where nothing fails,
/// the keyboard is set up if it was not, the text is typed, and that is all. Where something
/// fails, the error is told and nothing more is tried.
pub proof fn law_sending_types_the_whole_text(ready: bool, text: Seq<char>, e: Seq<char>)
    requires
        text.len() > 0,
    ensures
        send_first(ready, Seq::empty()) == SendStepView::Finished(Ok(())),
        send_first(true, text) == SendStepView::Type(text),
        send_first(false, text) == SendStepView::SetUp(text),
        send_next(ready, SendStepView::SetUp(text), Ok(())) == (true, SendStepView::Type(text)),
        send_next(ready, SendStepView::Type(text), Ok(())) == (
            ready,
            SendStepView::Finished(Ok(())),
        ),
        send_next(ready, SendStepView::SetUp(text), Err(e)) == (
            ready,
            SendStepView::Finished(Err("Enigo init failed: "@ + e)),
        ),
        send_next(ready, SendStepView::Type(text), Err(e)) == (
            ready,
            SendStepView::Finished(Err("Enigo text failed: "@ + e)),
        ),
{
}

/// Once a text was sent, or could not be, nothing more happens to it.
pub proof fn law_sending_ends_for_good(
    ready: bool,
    result: Result<(), Seq<char>>,
    reply: Result<(), Seq<char>>,
)
    ensures
        send_next(ready, SendStepView::Finished(result), reply) == (
            ready,
            SendStepView::Finished(result),
        ),
{
}

/// The steps of sending are seen as they are, with every character.
pub proof fn law_sending_is_seen_as_it_is(text: String)
    ensures
        SendStep::SetUp(text)@ == SendStepView::SetUp(text@),
        SendStep::Type(text)@ == SendStepView::Type(text@),
        SendStep::Finished(Ok(()))@ == SendStepView::Finished(Ok(())),
        SendStep::Finished(Err(text))@ == SendStepView::Finished(Err(text@)),
{
}

} // verus!

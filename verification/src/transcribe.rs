//! Speech to text: when the model runs, on which samples, and what becomes of its output.

use vstd::prelude::*;

use crate::text::{
    join, law_trimming_the_start_keeps_the_rest, lemma_trimmed_start, result_view, trim_start,
    trimmed_start, white_space,
};

verus! {

/// Where the default model can be had.
pub const DEFAULT_MODEL_URL: &'static str =
    "https://huggingface.co/ggerganov/whisper.cpp/resolve/main/ggml-small.en.bin";

/// The rate, in samples per second, that the model takes.
pub const MODEL_RATE: u32 = 16_000;

/// The language that the model listens for.
pub const LANGUAGE: &'static str = "en";

/// A model file, which is loaded at the first transcription.
pub struct Transcriber {
    /// Where the file is expected.
    model_path: String,
    /// Whether the model has been loaded.
    loaded: bool,
}

/// The model of a [`Transcriber`].
pub struct TranscriberView {
    pub model_path: Seq<char>,
    pub loaded: bool,
}

impl View for Transcriber {
    type V = TranscriberView;

    closed spec fn view(&self) -> TranscriberView {
        TranscriberView { model_path: self.model_path@, loaded: self.loaded }
    }
}

/// How the model is run.
#[derive(Debug)]
pub struct InferenceParams {
    /// Out of how many candidates the greedy sampling picks.
    pub best_of: i32,
    /// The language that is spoken.
    pub language: &'static str,
    /// Whether the model prints special tokens.
    pub print_special: bool,
    /// Whether the model prints how far it has got.
    pub print_progress: bool,
    /// Whether the model prints its output while it runs.
    pub print_realtime: bool,
    /// Whether the model prints time stamps.
    pub print_timestamps: bool,
}

/// The model of an [`InferenceParams`].
pub struct InferenceParamsView {
    pub best_of: i32,
    pub language: Seq<char>,
    pub print_special: bool,
    pub print_progress: bool,
    pub print_realtime: bool,
    pub print_timestamps: bool,
}

impl View for InferenceParams {
    type V = InferenceParamsView;

    open spec fn view(&self) -> InferenceParamsView {
        InferenceParamsView {
            best_of: self.best_of,
            language: self.language@,
            print_special: self.print_special,
            print_progress: self.print_progress,
            print_realtime: self.print_realtime,
            print_timestamps: self.print_timestamps,
        }
    }
}

/// How the model is run for every transcription: for English, with one candidate, and
/// without printing anything.
pub open spec fn inference_params() -> InferenceParamsView {
    InferenceParamsView {
        best_of: 1,
        language: "en"@,
        print_special: false,
        print_progress: false,
        print_realtime: false,
        print_timestamps: false,
    }
}

/// Where a transcription has got to: the work that comes next, or the end. The samples that
/// it carries are those that the model gets, at the rate [`MODEL_RATE`].
#[derive(Debug)]
pub enum TranscribeStep<S> {
    /// Load the model file at this path.
    Load(String, Vec<S>),
    /// Create the state of a run.
    CreateState(Vec<S>),
    /// Run the model on these samples and read the segments of its output.
    Infer(InferenceParams, Vec<S>),
    /// Nothing is left to do: the transcript, or the error.
    Finished(Result<String, String>),
}

/// What a step of a transcription reported.
#[derive(Debug)]
pub enum TranscribeReply {
    /// The model is loaded.
    Loaded,
    /// The model could not be loaded.
    LoadFailed(String),
    /// Whether the state was created.
    State(Result<(), String>),
    /// The segments of the output. `None` is a segment that is not there, and an error
    /// one that is no text.
    Segments(Result<Vec<Option<Result<String, String>>>, String>),
}

/// The model of a [`TranscribeStep`].
pub enum TranscribeStepView<S> {
    Load(Seq<char>, Seq<S>),
    CreateState(Seq<S>),
    Infer(InferenceParamsView, Seq<S>),
    Finished(Result<Seq<char>, Seq<char>>),
}

impl<S> View for TranscribeStep<S> {
    type V = TranscribeStepView<S>;

    open spec fn view(&self) -> TranscribeStepView<S> {
        match self {
            TranscribeStep::Load(path, input) => TranscribeStepView::Load(path@, input@),
            TranscribeStep::CreateState(input) => TranscribeStepView::CreateState(input@),
            TranscribeStep::Infer(params, input) => TranscribeStepView::Infer(params@, input@),
            TranscribeStep::Finished(r) => TranscribeStepView::Finished(result_view(*r)),
        }
    }
}

impl<S> TranscribeStepView<S> {
    /// The samples that the model gets; none at the end.
    pub open spec fn input(self) -> Seq<S> {
        match self {
            TranscribeStepView::Load(_, input) => input,
            TranscribeStepView::CreateState(input) => input,
            TranscribeStepView::Infer(_, input) => input,
            TranscribeStepView::Finished(_) => Seq::empty(),
        }
    }
}

/// The segments of an output, as their characters.
pub open spec fn segments_view(segments: Seq<Option<Result<String, String>>>) -> Seq<
    Option<Result<Seq<char>, Seq<char>>>,
> {
    Seq::new(
        segments.len(),
        |i: int|
            match segments[i] {
                Some(r) => Some(result_view(r)),
                None => None,
            },
    )
}

/// The texts of the segments one behind the other, or the first error among them.
pub open spec fn joined(segments: Seq<Option<Result<Seq<char>, Seq<char>>>>) -> Result<
    Seq<char>,
    Seq<char>,
>
    decreases segments.len(),
{
    if segments.len() == 0 {
        Ok(Seq::empty())
    } else {
        match (joined(segments.drop_last()), segments.last()) {
            (Err(e), _) => Err(e),
            (Ok(text), None) => Ok(text),
            (Ok(text), Some(Ok(more))) => Ok(text + more),
            (Ok(_), Some(Err(e))) => Err("segment.to_str: "@ + e),
        }
    }
}

/// The transcript that the segments make.
pub open spec fn transcript(segments: Seq<Option<Result<Seq<char>, Seq<char>>>>) -> Result<
    Seq<char>,
    Seq<char>,
> {
    match joined(segments) {
        Ok(text) => Ok(trimmed_start(text)),
        Err(e) => Err(e),
    }
}

/// How the transcription of `samples` samples begins. `present` is whether the model file
/// is there, and `input` are the samples at the rate of the model.
pub open spec fn transcribe_first<S>(
    t: TranscriberView,
    present: bool,
    samples: nat,
    sample_rate: u32,
    input: Seq<S>,
) -> TranscribeStepView<S> {
    if !present {
        TranscribeStepView::Finished(Err("Whisper model not found at "@ + t.model_path))
    } else if samples == 0 || sample_rate == 0 {
        TranscribeStepView::Finished(Ok(Seq::empty()))
    } else if !t.loaded {
        TranscribeStepView::Load(t.model_path, input)
    } else {
        TranscribeStepView::CreateState(input)
    }
}

/// The transcriber, and the step that follows, once `step` has reported `reply`. A reply
/// that `step` does not wait for changes nothing.
pub open spec fn transcribe_next<S>(
    t: TranscriberView,
    step: TranscribeStepView<S>,
    reply: TranscribeReply,
) -> (TranscriberView, TranscribeStepView<S>) {
    match (step, reply) {
        (TranscribeStepView::Load(_, input), TranscribeReply::Loaded) => (
            TranscriberView { loaded: true, ..t },
            TranscribeStepView::CreateState(input),
        ),
        (TranscribeStepView::Load(_, _), TranscribeReply::LoadFailed(e)) => (
            t,
            TranscribeStepView::Finished(Err("failed to initialise WhisperContext: "@ + e@)),
        ),
        (TranscribeStepView::CreateState(input), TranscribeReply::State(Ok(_))) => (
            t,
            TranscribeStepView::Infer(inference_params(), input),
        ),
        (TranscribeStepView::CreateState(_), TranscribeReply::State(Err(e))) => (
            t,
            TranscribeStepView::Finished(Err("create_state: "@ + e@)),
        ),
        (TranscribeStepView::Infer(_, _), TranscribeReply::Segments(Ok(segments))) => (
            t,
            TranscribeStepView::Finished(transcript(segments_view(segments@))),
        ),
        (TranscribeStepView::Infer(_, _), TranscribeReply::Segments(Err(e))) => (
            t,
            TranscribeStepView::Finished(Err("whisper full: "@ + e@)),
        ),
        _ => (t, step),
    }
}

/// The transcript that the segments make.
pub fn join_segments(segments: &Vec<Option<Result<String, String>>>) -> (r: Result<String, String>)
    ensures
        result_view(r) == transcript(segments_view(segments@)),
{
    let ghost all = segments_view(segments@);
    let mut text: String = String::new();
    let mut i: usize = 0;
    while i < segments.len()
        invariant
            i <= segments@.len(),
            all == segments_view(segments@),
            joined(all.take(i as int)) == Ok::<Seq<char>, Seq<char>>(text@),
        decreases segments@.len() - i,
    {
        assert(all.take(i + 1).drop_last() =~= all.take(i as int));
        assert(all.take(i + 1).last() == all[i as int]);
        match &segments[i] {
            None => {},
            Some(Ok(s)) => {
                text.append(s.as_str());
            },
            Some(Err(e)) => {
                let m: String = join("segment.to_str: ", e.as_str());
                proof {
                    assert(joined(all.take(i + 1)) == Err::<Seq<char>, Seq<char>>(m@));
                    lemma_first_error(all, i + 1);
                }
                return Err(m);
            },
        }
        i = i + 1;
    }
    assert(all.take(i as int) =~= all);
    Ok(trim_start(text.as_str()).to_owned())
}

/// An error among the first segments is the error of all.
proof fn lemma_first_error(segments: Seq<Option<Result<Seq<char>, Seq<char>>>>, n: int)
    requires
        0 <= n <= segments.len(),
        joined(segments.take(n)) is Err,
    ensures
        joined(segments) == joined(segments.take(n)),
    decreases segments.len(),
{
    if n == segments.len() {
        assert(segments.take(n) =~= segments);
    } else {
        assert(segments.drop_last().take(n) =~= segments.take(n));
        lemma_first_error(segments.drop_last(), n);
    }
}

impl Transcriber {
    /// For the model file at `model_path`, which is not loaded yet.
    pub fn new(model_path: String) -> (r: Self)
        ensures
            r@ == (TranscriberView { model_path: model_path@, loaded: false }),
    {
        Transcriber { model_path, loaded: false }
    }

    /// Where the model file is expected.
    pub fn model_path(&self) -> (r: &str)
        ensures
            r@ == self@.model_path,
    {
        self.model_path.as_str()
    }

    /// How the transcription of `samples` begins. `present` is whether the model file is
    /// there; `positions` and `blend` are those of [`resample_to_16k`].
    pub fn transcribe<S: Copy, W: Copy, B: Fn(S, S, Weight<W>) -> S>(
        &self,
        present: bool,
        samples: &[S],
        sample_rate: u32,
        positions: &[(usize, W)],
        blend: B,
    ) -> (r: TranscribeStep<S>)
        requires
            present ==> positions_fit(samples@.len(), sample_rate, positions@),
            forall|a: S, b: S, w: Weight<W>| call_requires(blend, (a, b, w)),
        ensures
            r@ == transcribe_first(self@, present, samples@.len(), sample_rate, r@.input()),
            r@ !is Finished ==> resampled(samples@, sample_rate, positions@, blend, r@.input()),
            present && samples@.len() > 0 && sample_rate > 0 ==> r@ is Load || r@ is CreateState,
    {
        if !present {
            return TranscribeStep::Finished(
                Err(join("Whisper model not found at ", self.model_path.as_str())),
            );
        }
        if samples.len() == 0 || sample_rate == 0 {
            return TranscribeStep::Finished(Ok(String::new()));
        }
        let input: Vec<S> = resample_to_16k(samples, sample_rate, positions, blend);
        if !self.loaded {
            TranscribeStep::Load(self.model_path.as_str().to_owned(), input)
        } else {
            TranscribeStep::CreateState(input)
        }
    }

    /// The step that follows `step` once it has reported `reply`.
    pub fn resume<S>(&mut self, step: TranscribeStep<S>, reply: TranscribeReply) -> (r:
        TranscribeStep<S>)
        ensures
            (final(self)@, r@) == transcribe_next(old(self)@, step@, reply),
    {
        match (step, reply) {
            (TranscribeStep::Load(_, input), TranscribeReply::Loaded) => {
                self.loaded = true;
                TranscribeStep::CreateState(input)
            },
            (
                TranscribeStep::Load(_, _),
                TranscribeReply::LoadFailed(e),
            ) => TranscribeStep::Finished(
                Err(join("failed to initialise WhisperContext: ", e.as_str())),
            ),
            (
                TranscribeStep::CreateState(input),
                TranscribeReply::State(Ok(_)),
            ) => TranscribeStep::Infer(InferenceParams::new(), input),
            (
                TranscribeStep::CreateState(_),
                TranscribeReply::State(Err(e)),
            ) => TranscribeStep::Finished(Err(join("create_state: ", e.as_str()))),
            (
                TranscribeStep::Infer(_, _),
                TranscribeReply::Segments(Ok(segments)),
            ) => TranscribeStep::Finished(join_segments(&segments)),
            (
                TranscribeStep::Infer(_, _),
                TranscribeReply::Segments(Err(e)),
            ) => TranscribeStep::Finished(Err(join("whisper full: ", e.as_str()))),
            (step, _) => step,
        }
    }
}

impl InferenceParams {
    /// How the model is run for every transcription.
    pub fn new() -> (r: Self)
        ensures
            r@ == inference_params(),
    {
        InferenceParams {
            best_of: 1,
            language: LANGUAGE,
            print_special: false,
            print_progress: false,
            print_realtime: false,
            print_timestamps: false,
        }
    }
}

/// The two samples that stand at and behind the place `i`; the last sample stands for the
/// one behind it.
pub open spec fn neighbours<S>(samples: Seq<S>, i: int) -> (S, S) {
    (
        samples[i],
        if i + 1 < samples.len() {
            samples[i + 1]
        } else {
            samples[i]
        },
    )
}

/// How far a sample of the result lies behind the first of its two neighbours.
#[derive(Debug, PartialEq, Eq)]
pub enum Weight<W> {
    /// So many 128ths of the way to the second neighbour.
    Part(u32),
    /// As given.
    Given(W),
}

/// Below how many samples the places of the result are found by whole numbers.
pub const EXACT_LIMIT: u64 = 0x4000_0000_0000;

/// Whether the places at which `len` samples at the rate `src_rate` are read to bring them
/// to [`MODEL_RATE`] are whole 128ths, and can be found by whole numbers.
pub open spec fn exact(len: nat, src_rate: u32) -> bool {
    src_rate > 0 && src_rate % 125 == 0 && len < EXACT_LIMIT
}

/// Whether the places at which the samples are read have to be given.
pub open spec fn must_be_given(len: nat, src_rate: u32) -> bool {
    len > 0 && src_rate > 0 && src_rate != MODEL_RATE && !exact(len, src_rate)
}

/// Below how many samples the places that are given are held to the rate.
pub const GIVEN_LIMIT: u64 = 0x1_0000_0000;

/// Whether `got` is `n / d` rounded down after a computation that may have fallen short of
/// the quotient by a trifle: then one less than the quotient where that is a whole number.
pub open spec fn rounds_down(n: int, d: int, got: int) -> bool {
    got == n / d || n % d == 0 && got == n / d - 1
}

/// Whether `positions`, where they are needed, are those of `len` samples at the rate
/// `src_rate`: they lie within the samples, there are as many as there are samples at
/// [`MODEL_RATE`] in the same time, and each lies at the same time as its sample.
pub open spec fn positions_fit<W>(len: nat, src_rate: u32, positions: Seq<(usize, W)>) -> bool {
    must_be_given(len, src_rate) ==> {
        &&& forall|i: int| 0 <= i < positions.len() ==> (#[trigger] positions[i]).0 < len
        &&& len < GIVEN_LIMIT ==> {
            &&& rounds_down(len * MODEL_RATE, src_rate as int, positions.len() as int)
            &&& forall|i: int|
                0 <= i < positions.len() ==> rounds_down(
                    i * src_rate,
                    MODEL_RATE as int,
                    (#[trigger] positions[i]).0 as int,
                )
        }
    }
}

/// How many samples there are at [`MODEL_RATE`] in the time of `len` samples at the rate
/// `src_rate`.
pub open spec fn exact_len(len: nat, src_rate: u32) -> nat {
    (len * MODEL_RATE as nat) / src_rate as nat
}

/// Where the sample `i` of the result lies among samples at the rate `src_rate`: at or
/// behind which of them, and how many 128ths behind it.
pub open spec fn exact_place(i: int, src_rate: u32) -> (int, int) {
    (
        (i * src_rate as int) / MODEL_RATE as int,
        (i * src_rate as int) % MODEL_RATE as int / 125,
    )
}

/// Whether `out` is `samples` brought from the rate `src_rate` to [`MODEL_RATE`]: each of its
/// samples is the blend of the neighbours of its place.
pub open spec fn resampled<S, W, B: Fn(S, S, Weight<W>) -> S>(
    samples: Seq<S>,
    src_rate: u32,
    positions: Seq<(usize, W)>,
    blend: B,
    out: Seq<S>,
) -> bool {
    if src_rate == MODEL_RATE || samples.len() == 0 {
        out == samples
    } else if exact(samples.len(), src_rate) {
        &&& out.len() == exact_len(samples.len(), src_rate)
        &&& forall|i: int|
            0 <= i < out.len() ==> {
                let (idx, part) = exact_place(i, src_rate);
                let (a, b) = neighbours(samples, idx);
                call_ensures(blend, (a, b, Weight::<W>::Part(part as u32)), #[trigger] out[i])
            }
    } else {
        &&& out.len() == positions.len()
        &&& forall|i: int|
            0 <= i < out.len() ==> {
                let (a, b) = neighbours(samples, positions[i].0 as int);
                call_ensures(blend, (a, b, Weight::Given(positions[i].1)), #[trigger] out[i])
            }
    }
}

/// Whether [`resample_to_16k`] has to be given the places at which `len` samples at the rate
/// `src_rate` are read.
pub fn needs_positions(len: usize, src_rate: u32) -> (r: bool)
    ensures
        r == must_be_given(len as nat, src_rate),
{
    len > 0 && src_rate > 0 && src_rate != MODEL_RATE && !(src_rate % 125 == 0 && (len as u64)
        < EXACT_LIMIT)
}

/// Whether `got` is `n / d` rounded down, or one less where the quotient is a whole number.
fn rounded_down(n: u64, d: u64, got: u64) -> (r: bool)
    requires
        d > 0,
    ensures
        r == rounds_down(n as int, d as int, got as int),
{
    let q: u64 = n / d;
    got == q || (n % d == 0 && q > 0 && got == q - 1)
}

/// Whether [`resample_to_16k`] takes these places for `len` samples at the rate `src_rate`.
pub fn accepts_positions<W: Copy>(len: usize, src_rate: u32, positions: &[(usize, W)]) -> (r: bool)
    ensures
        r == positions_fit(len as nat, src_rate, positions@),
{
    if !needs_positions(len, src_rate) {
        return true;
    }
    let held: bool = (len as u64) < GIVEN_LIMIT;
    let rate: u64 = src_rate as u64;
    let scaled: u64 = if held {
        len as u64 * 16_000
    } else {
        0
    };
    if held && !rounded_down(scaled, rate, positions.len() as u64) {
        return false;
    }
    let mut i: usize = 0;
    while i < positions.len()
        invariant
            i <= positions@.len(),
            rate == src_rate,
            must_be_given(len as nat, src_rate),
            held == (len < GIVEN_LIMIT),
            held ==> scaled == len * 16_000 && positions@.len() <= scaled as int / rate as int,
            forall|k: int| 0 <= k < i ==> (#[trigger] positions@[k]).0 < len,
            held ==> forall|k: int|
                0 <= k < i ==> rounds_down(
                    k * src_rate,
                    MODEL_RATE as int,
                    (#[trigger] positions@[k]).0 as int,
                ),
        decreases positions@.len() - i,
    {
        let (idx, _) = positions[i];
        assert(positions@[i as int].0 == idx);
        if idx >= len {
            return false;
        }
        if held {
            proof {
                lemma_place_within(i as int, rate as int, scaled as int);
            }
            if !rounded_down(i as u64 * rate, 16_000, idx as u64) {
                return false;
            }
        }
        i = i + 1;
    }
    true
}

/// The samples with the place `idx` and the one behind it.
fn neighbours_at<S: Copy>(samples: &[S], idx: usize) -> (r: (S, S))
    requires
        idx < samples@.len(),
    ensures
        r == neighbours(samples@, idx as int),
{
    let a: S = samples[idx];
    let b: S = if idx < samples.len() - 1 {
        samples[idx + 1]
    } else {
        a
    };
    (a, b)
}

/// `samples` brought from the rate `src_rate` to [`MODEL_RATE`] by linear interpolation:
/// `blend` makes a sample of its two neighbours and of how far it lies behind the first.
/// Samples that have the right rate already, and no samples at all, are left as they are.
///
/// Where [`needs_positions`] says so, each of `positions` says where the next sample of the
/// result lies in `samples`: at or behind which place, and how far behind it.
pub fn resample_to_16k<S: Copy, W: Copy, B: Fn(S, S, Weight<W>) -> S>(
    samples: &[S],
    src_rate: u32,
    positions: &[(usize, W)],
    blend: B,
) -> (r: Vec<S>)
    requires
        src_rate > 0 || samples@.len() == 0,
        positions_fit(samples@.len(), src_rate, positions@),
        forall|a: S, b: S, w: Weight<W>| call_requires(blend, (a, b, w)),
    ensures
        resampled(samples@, src_rate, positions@, blend, r@),
{
    let mut out: Vec<S> = Vec::new();
    if src_rate == MODEL_RATE || samples.len() == 0 {
        let mut i: usize = 0;
        while i < samples.len()
            invariant
                i <= samples@.len(),
                out@ == samples@.take(i as int),
            decreases samples@.len() - i,
        {
            out.push(samples[i]);
            assert(out@ =~= samples@.take(i + 1));
            i = i + 1;
        }
        assert(out@ =~= samples@);
    } else if !needs_positions(samples.len(), src_rate) {
        let len: usize = samples.len();
        let scaled: u64 = len as u64 * 16_000;
        let rate: u64 = src_rate as u64;
        let out_len: u64 = scaled / rate;
        let mut i: u64 = 0;
        while i < out_len
            invariant
                i <= out_len,
                out@.len() == i,
                rate == src_rate,
                len == samples@.len(),
                exact(len as nat, src_rate),
                scaled == len * 16_000,
                out_len == scaled as int / rate as int,
                forall|a: S, b: S, w: Weight<W>| call_requires(blend, (a, b, w)),
                forall|k: int|
                    0 <= k < i ==> {
                        let (idx, part) = exact_place(k, src_rate);
                        let (a, b) = neighbours(samples@, idx);
                        call_ensures(
                            blend,
                            (a, b, Weight::<W>::Part(part as u32)),
                            #[trigger] out@[k],
                        )
                    },
            decreases out_len - i,
        {
            proof {
                lemma_place_within(i as int, rate as int, scaled as int);
            }
            let at: u64 = i * rate;
            let idx: usize = (at / 16_000) as usize;
            let part: u32 = (at % 16_000 / 125) as u32;
            assert(exact_place(i as int, src_rate) == (idx as int, part as int));
            let (a, b) = neighbours_at(samples, idx);
            let s: S = blend(a, b, Weight::Part(part));
            out.push(s);
            i = i + 1;
        }
    } else {
        let mut i: usize = 0;
        while i < positions.len()
            invariant
                i <= positions@.len(),
                out@.len() == i,
                forall|k: int|
                    0 <= k < positions@.len() ==> (#[trigger] positions@[k]).0 < samples@.len(),
                forall|a: S, b: S, w: Weight<W>| call_requires(blend, (a, b, w)),
                forall|k: int|
                    0 <= k < i ==> {
                        let (a, b) = neighbours(samples@, positions@[k].0 as int);
                        call_ensures(blend, (a, b, Weight::Given(positions@[k].1)), #[trigger] out@[k])
                    },
            decreases positions@.len() - i,
        {
            let (idx, weight) = positions[i];
            assert(positions@[i as int].0 < samples@.len());
            let (a, b) = neighbours_at(samples, idx);
            let s: S = blend(a, b, Weight::Given(weight));
            out.push(s);
            i = i + 1;
        }
    }
    out
}

/// A place before the end of the result lies before the end of what is read.
proof fn lemma_place_within(i: int, rate: int, scaled: int)
    requires
        rate > 0,
        0 <= i < scaled / rate,
    ensures
        0 <= i * rate < scaled,
{
    assert(0 <= i * rate < scaled) by (nonlinear_arith)
        requires
            rate > 0,
            0 <= i < scaled / rate,
    ;
}

/// At a multiple of [`MODEL_RATE`], such as 48 kHz, resampling picks samples: every third
/// one at 48 kHz. It is enough that `blend` gives the first neighbour where the distance to
/// it is nothing.
pub proof fn law_multiples_pick_samples<S, W, B: Fn(S, S, Weight<W>) -> S>(
    samples: Seq<S>,
    src_rate: u32,
    positions: Seq<(usize, W)>,
    blend: B,
    out: Seq<S>,
)
    requires
        src_rate > 0,
        src_rate % MODEL_RATE == 0,
        samples.len() < EXACT_LIMIT,
        resampled(samples, src_rate, positions, blend, out),
        forall|a: S, b: S, r: S|
            #[trigger] call_ensures(blend, (a, b, Weight::<W>::Part(0)), r) ==> r == a,
    ensures
        out.len() == samples.len() / (src_rate / MODEL_RATE) as nat,
        forall|i: int|
            0 <= i < out.len() ==> #[trigger] out[i] == samples[i * (src_rate / MODEL_RATE)],
{
    let k: int = (src_rate / MODEL_RATE) as int;
    let n: int = samples.len() as int;
    assert(src_rate == 16_000 * k && k >= 1);
    if src_rate == MODEL_RATE || n == 0 {
        assert(n == 0 ==> n / k == 0) by (nonlinear_arith)
            requires
                k >= 1,
        ;
        assert forall|i: int| 0 <= i < out.len() implies #[trigger] out[i] == samples[i * k] by {
            assert(i * 1 == i);
        }
    } else {
        assert((n * 16_000) / (16_000 * k) == n / k) by {
            vstd::arithmetic::div_mod::lemma_div_multiples_vanish_quotient(16_000, n, k);
        }
        assert(out.len() == n / k);
        assert forall|i: int| 0 <= i < out.len() implies #[trigger] out[i] == samples[i * k] by {
            let p: int = i * k;
            assert(i * src_rate == 16_000 * p) by (nonlinear_arith)
                requires
                    src_rate == 16_000 * k,
                    p == i * k,
            ;
            assert(exact_place(i, src_rate) == (p, 0int));
            let (a, b) = neighbours(samples, p);
            assert(call_ensures(blend, (a, b, Weight::<W>::Part(0)), out[i]));
        }
    }
}

/// At a multiple of [`MODEL_RATE`], what was recorded first is resampled to what comes
/// first, whatever is recorded after it.
pub proof fn law_multiples_keep_what_came_before<S, W, B: Fn(S, S, Weight<W>) -> S>(
    before: Seq<S>,
    after: Seq<S>,
    src_rate: u32,
    positions_before: Seq<(usize, W)>,
    positions: Seq<(usize, W)>,
    blend: B,
    out_before: Seq<S>,
    out: Seq<S>,
)
    requires
        src_rate > 0,
        src_rate % MODEL_RATE == 0,
        before.len() + after.len() < EXACT_LIMIT,
        resampled(before, src_rate, positions_before, blend, out_before),
        resampled(before + after, src_rate, positions, blend, out),
        forall|a: S, b: S, r: S|
            #[trigger] call_ensures(blend, (a, b, Weight::<W>::Part(0)), r) ==> r == a,
    ensures
        out_before.is_prefix_of(out),
{
    let k: int = (src_rate / MODEL_RATE) as int;
    let n: int = before.len() as int;
    assert(k >= 1);
    law_multiples_pick_samples(before, src_rate, positions_before, blend, out_before);
    law_multiples_pick_samples(before + after, src_rate, positions, blend, out);
    vstd::arithmetic::div_mod::lemma_div_is_ordered(n, (before + after).len() as int, k);
    assert forall|i: int| 0 <= i < out_before.len() implies #[trigger] out_before[i]
        == out[i] by {
        assert(0 <= i * k < n) by (nonlinear_arith)
            requires
                k >= 1,
                0 <= i < n / k,
        ;
    }
    assert(out_before =~= out.subrange(0, out_before.len() as int));
}

/// The result lasts as long as what was recorded: it has as many samples as there are at
/// [`MODEL_RATE`] in that time, or one less where that is a whole number and the places were
/// given.
pub proof fn law_resampling_keeps_the_duration<S, W, B: Fn(S, S, Weight<W>) -> S>(
    samples: Seq<S>,
    src_rate: u32,
    positions: Seq<(usize, W)>,
    blend: B,
    out: Seq<S>,
)
    requires
        src_rate > 0,
        src_rate == MODEL_RATE || exact(samples.len(), src_rate) || samples.len() < GIVEN_LIMIT,
        positions_fit(samples.len(), src_rate, positions),
        resampled(samples, src_rate, positions, blend, out),
    ensures
        rounds_down(samples.len() * MODEL_RATE, src_rate as int, out.len() as int),
        exact_len(samples.len(), src_rate) - 1 <= out.len() <= exact_len(samples.len(), src_rate),
        !must_be_given(samples.len(), src_rate) ==> out.len() == exact_len(samples.len(), src_rate),
        out.len() * src_rate <= samples.len() * MODEL_RATE <= (out.len() + 1) * src_rate,
        !must_be_given(samples.len(), src_rate) ==> samples.len() * MODEL_RATE < (out.len() + 1)
            * src_rate,
{
    let n: int = samples.len() as int * 16_000;
    let d: int = src_rate as int;
    let q: int = n / d;
    if samples.len() == 0 {
        assert(0int / d == 0) by (nonlinear_arith)
            requires
                d > 0,
        ;
    }
    if src_rate == MODEL_RATE {
        assert(d == 16_000);
        assert((samples.len() as int * 16_000) / 16_000 == samples.len());
    }
    assert(!must_be_given(samples.len(), src_rate) ==> out.len() == q);
    assert(q * d <= n < (q + 1) * d) by (nonlinear_arith)
        requires
            d > 0,
            q == n / d,
    ;
    if n % d == 0 {
        assert(q * d == n) by (nonlinear_arith)
            requires
                d > 0,
                q == n / d,
                n % d == 0,
        ;
        assert((q - 1) * d <= n) by (nonlinear_arith)
            requires
                q * d == n,
                d > 0,
        ;
    }
}

/// A signal that does not change stays what it is, at every rate and to the last sample. It
/// is enough that `blend` makes of two equal neighbours the same again.
pub proof fn law_constant_signal_stays_constant<S, W, B: Fn(S, S, Weight<W>) -> S>(
    samples: Seq<S>,
    c: S,
    src_rate: u32,
    positions: Seq<(usize, W)>,
    blend: B,
    out: Seq<S>,
)
    requires
        src_rate > 0,
        positions_fit(samples.len(), src_rate, positions),
        resampled(samples, src_rate, positions, blend, out),
        forall|i: int| 0 <= i < samples.len() ==> samples[i] == c,
        forall|w: Weight<W>, r: S| #[trigger] call_ensures(blend, (c, c, w), r) ==> r == c,
    ensures
        forall|i: int| 0 <= i < out.len() ==> out[i] == c,
{
    assert forall|i: int| 0 <= i < out.len() implies out[i] == c by {
        if src_rate == MODEL_RATE || samples.len() == 0 {
        } else if exact(samples.len(), src_rate) {
            lemma_place_within(i, src_rate as int, samples.len() as int * 16_000);
            let (idx, part) = exact_place(i, src_rate);
            assert(neighbours(samples, idx) == (c, c));
            assert(call_ensures(blend, (c, c, Weight::<W>::Part(part as u32)), out[i]));
        } else {
            assert(positions[i].0 < samples.len());
            assert(neighbours(samples, positions[i].0 as int) == (c, c));
            assert(call_ensures(blend, (c, c, Weight::Given(positions[i].1)), out[i]));
        }
    }
}

/// The places have to be given exactly where there is something to resample and the rate is
/// no multiple of 125, or the recording is beyond what whole numbers are used for.
pub proof fn law_when_places_are_needed(len: nat, src_rate: u32)
    ensures
        must_be_given(len, src_rate) <==> len > 0 && src_rate > 0 && src_rate != 16_000 && (src_rate
            % 125 != 0 || len >= 0x4000_0000_0000),
{
}

/// Which places are taken: as many as there are samples at 16 kHz in the time of the
/// recording, each at the time of its sample, rounded down to a sample of the recording.
/// Where a number is whole it may be one less, and every place lies within the recording.
pub proof fn law_places_taken_are_those_of_the_rate<W>(
    len: nat,
    src_rate: u32,
    positions: Seq<(usize, W)>,
)
    requires
        0 < len < 0x1_0000_0000,
        src_rate > 0,
        src_rate % 125 != 0,
    ensures
        positions_fit(len, src_rate, positions) <==> {
            let n = positions.len();
            &&& n * src_rate <= len * 16_000 < (n + 1) * src_rate || (n + 1) * src_rate == len
                * 16_000
            &&& forall|i: int|
                0 <= i < n ==> {
                    let p = (#[trigger] positions[i]).0;
                    p < len && (p * 16_000 <= i * src_rate < (p + 1) * 16_000 || (p + 1) * 16_000
                        == i * src_rate)
                }
        },
{
    let n: int = positions.len() as int;
    lemma_rounds_down(len as int * 16_000, src_rate as int, n);
    assert forall|i: int|
        0 <= i < n implies {
            let p = (#[trigger] positions[i]).0;
            rounds_down(i * src_rate, 16_000, p as int) <==> (p * 16_000 <= i * src_rate < (p + 1)
                * 16_000 || (p + 1) * 16_000 == i * src_rate)
        } by {
        lemma_rounds_down(i * src_rate, 16_000, positions[i].0 as int);
    }
}

/// Places that are not needed are not looked at, and those of a recording too long to be held
/// to its rate only have to lie within it.
pub proof fn law_other_places_only_lie_within<W>(
    len: nat,
    src_rate: u32,
    positions: Seq<(usize, W)>,
)
    ensures
        len == 0 || src_rate == 0 || src_rate == 16_000 ==> positions_fit(len, src_rate, positions),
        src_rate % 125 == 0 && len < 0x4000_0000_0000 ==> positions_fit(len, src_rate, positions),
        len >= 0x1_0000_0000 && (forall|i: int|
            0 <= i < positions.len() ==> (#[trigger] positions[i]).0 < len) ==> positions_fit(
            len,
            src_rate,
            positions,
        ),
{
}

proof fn lemma_rounds_down(n: int, d: int, got: int)
    requires
        d > 0,
    ensures
        rounds_down(n, d, got) <==> (got * d <= n < (got + 1) * d || (got + 1) * d == n),
{
    let q: int = n / d;
    assert(n == q * d + n % d && 0 <= n % d < d) by {
        vstd::arithmetic::div_mod::lemma_fundamental_div_mod(n, d);
        vstd::arithmetic::mul::lemma_mul_is_commutative(d, q);
        vstd::arithmetic::div_mod::lemma_mod_bound(n, d);
    }
    assert((got * d <= n < (got + 1) * d) <==> got == q) by (nonlinear_arith)
        requires
            d > 0,
            q * d <= n < q * d + d,
    ;
    assert((got + 1) * d == n <==> (n == q * d && got + 1 == q)) by (nonlinear_arith)
        requires
            d > 0,
            q * d <= n < q * d + d,
    ;
}

/// Each sample of the result is blended of the sample of the recording at its time and of
/// the one behind it (the last one stands for the one behind it), and of how far its time
/// lies between them. Here the time lies a whole number of 128ths between them.
pub proof fn law_samples_are_blended_at_their_time<S, W, B: Fn(S, S, Weight<W>) -> S>(
    samples: Seq<S>,
    src_rate: u32,
    positions: Seq<(usize, W)>,
    blend: B,
    out: Seq<S>,
    i: int,
    idx: int,
    part: int,
)
    requires
        resampled(samples, src_rate, positions, blend, out),
        src_rate > 0,
        src_rate % 125 == 0,
        src_rate != 16_000,
        0 < samples.len() < 0x4000_0000_0000,
        0 <= i < out.len(),
        idx * 16_000 + part * 125 == i * src_rate,
        0 <= part < 128,
    ensures
        0 <= idx < samples.len(),
        call_ensures(
            blend,
            (
                samples[idx],
                if idx + 1 < samples.len() {
                    samples[idx + 1]
                } else {
                    samples[idx]
                },
                Weight::<W>::Part(part as u32),
            ),
            out[i],
        ),
{
    lemma_place_within(i, src_rate as int, samples.len() as int * 16_000);
    let at: int = i * src_rate as int;
    assert(at / 16_000 == idx && at % 16_000 / 125 == part);
    assert(exact_place(i, src_rate) == (idx, part));
    assert(neighbours(samples, idx) == (
        samples[idx],
        if idx + 1 < samples.len() {
            samples[idx + 1]
        } else {
            samples[idx]
        },
    ));
}

/// Where the places are given, each sample of the result is blended of the sample of the
/// recording at its place and of the one behind it (the last one stands for the one behind
/// it), and of the distance given with the place.
pub proof fn law_samples_are_blended_at_given_places<S, W, B: Fn(S, S, Weight<W>) -> S>(
    samples: Seq<S>,
    src_rate: u32,
    positions: Seq<(usize, W)>,
    blend: B,
    out: Seq<S>,
    i: int,
)
    requires
        resampled(samples, src_rate, positions, blend, out),
        positions_fit(samples.len(), src_rate, positions),
        src_rate % 125 != 0,
        samples.len() > 0,
    ensures
        out.len() == positions.len(),
        0 <= i < out.len() ==> positions[i].0 < samples.len() && call_ensures(
            blend,
            (
                samples[positions[i].0 as int],
                if positions[i].0 + 1 < samples.len() {
                    samples[positions[i].0 + 1]
                } else {
                    samples[positions[i].0 as int]
                },
                Weight::Given(positions[i].1),
            ),
            out[i],
        ),
{
    if 0 <= i < out.len() {
        let p: int = positions[i].0 as int;
        assert(positions[i].0 < samples.len());
        assert(neighbours(samples, p) == (
            samples[p],
            if p + 1 < samples.len() {
                samples[p + 1]
            } else {
                samples[p]
            },
        ));
    }
}

/// At every rate, the result runs through the recording in time: with a `blend` that gives
/// its first neighbour, sample `i` of the result is the sample of the recording at the time
/// of `i`, rounded down; with one that gives its second, it is the sample behind that. Where
/// the time is whole and the places were given, it may be that of one sample before.
pub proof fn law_result_runs_through_the_recording<S, W, B: Fn(S, S, Weight<W>) -> S>(
    samples: Seq<S>,
    src_rate: u32,
    positions: Seq<(usize, W)>,
    blend: B,
    out: Seq<S>,
    i: int,
)
    requires
        resampled(samples, src_rate, positions, blend, out),
        positions_fit(samples.len(), src_rate, positions),
        src_rate > 0,
        samples.len() < 0x1_0000_0000,
        0 <= i < out.len(),
    ensures
        ({
            let p = (i * src_rate) / 16_000;
            let whole = (i * src_rate) % 16_000 == 0;
            &&& 0 <= p < samples.len()
            &&& (forall|a: S, b: S, w: Weight<W>, r: S| #[trigger]
                call_ensures(blend, (a, b, w), r) ==> r == a) ==> out[i] == samples[p] || (whole
                && src_rate % 125 != 0 && p > 0 && out[i] == samples[p - 1])
            &&& src_rate != 16_000 && (forall|a: S, b: S, w: Weight<W>, r: S| #[trigger]
                call_ensures(blend, (a, b, w), r) ==> r == b) ==> (out[i] == if p + 1
                < samples.len() {
                samples[p + 1]
            } else {
                samples[p]
            }) || (whole && src_rate % 125 != 0 && p > 0 && out[i] == samples[p])
        }),
{
    let rate: int = src_rate as int;
    let n: int = samples.len() as int * 16_000;
    let p: int = (i * src_rate) / 16_000;
    law_resampling_keeps_the_duration(samples, src_rate, positions, blend, out);
    assert(0 <= i * rate < n) by (nonlinear_arith)
        requires
            0 <= i < out.len(),
            out.len() * rate <= n,
            rate > 0,
    ;
    assert(0 <= p < samples.len());
    if src_rate == MODEL_RATE {
        assert(p == i);
    } else if src_rate % 125 == 0 {
        let part: int = (i * src_rate) % 16_000 / 125;
        let k: int = rate / 125;
        assert(i * rate == 125 * (i * k)) by (nonlinear_arith)
            requires
                rate == 125 * k,
        ;
        let m: int = i * k;
        assert((125 * m) % 16_000 == 125 * (m % 128));
        law_samples_are_blended_at_their_time(
            samples,
            src_rate,
            positions,
            blend,
            out,
            i,
            p,
            part,
        );
    } else {
        law_samples_are_blended_at_given_places(samples, src_rate, positions, blend, out, i);
        assert(rounds_down(i * src_rate, 16_000, positions[i].0 as int));
    }
}

/// The result lasts as long as the recording: at 16 kHz, what is missing of it is less than
/// one sample, and at most one where the places were given.
pub proof fn law_result_lasts_as_long_as_the_recording<S, W, B: Fn(S, S, Weight<W>) -> S>(
    samples: Seq<S>,
    src_rate: u32,
    positions: Seq<(usize, W)>,
    blend: B,
    out: Seq<S>,
)
    requires
        resampled(samples, src_rate, positions, blend, out),
        positions_fit(samples.len(), src_rate, positions),
        src_rate > 0,
        samples.len() < 0x1_0000_0000 || (src_rate % 125 == 0 && samples.len() < 0x4000_0000_0000),
    ensures
        out.len() * src_rate <= samples.len() * 16_000 <= (out.len() + 1) * src_rate,
        src_rate % 125 == 0 ==> samples.len() * 16_000 < (out.len() + 1) * src_rate,
{
    law_resampling_keeps_the_duration(samples, src_rate, positions, blend, out);
}

/// A recording that already has the rate of the model, and no recording at all, are left as
/// they are, sample by sample.
pub proof fn law_right_rate_changes_nothing<S, W, B: Fn(S, S, Weight<W>) -> S>(
    samples: Seq<S>,
    src_rate: u32,
    positions: Seq<(usize, W)>,
    blend: B,
    out: Seq<S>,
)
    requires
        resampled(samples, src_rate, positions, blend, out),
        src_rate == 16_000 || samples.len() == 0,
    ensures
        out.len() == samples.len(),
        forall|i: int| 0 <= i < samples.len() ==> out[i] == samples[i],
{
}

/// A transcript never begins with white space.
pub proof fn law_transcript_has_no_leading_space(
    segments: Seq<Option<Result<Seq<char>, Seq<char>>>>,
)
    ensures
        transcript(segments) matches Ok(text) ==> text.len() == 0 || !white_space(text[0]),
{
    if let Ok(text) = joined(segments) {
        lemma_trimmed_start(text);
    }
}

/// Where every segment is there and is text, the transcript is these texts in their order,
/// without the white space that they begin with.
pub proof fn law_transcript_is_all_of_the_text(texts: Seq<Seq<char>>)
    ensures
        transcript(
            Seq::new(texts.len(), |i: int| Some(Ok::<Seq<char>, Seq<char>>(texts[i]))),
        ) == Ok::<Seq<char>, Seq<char>>(trimmed_start(texts.flatten())),
{
    lemma_joined_texts(texts);
}

proof fn lemma_joined_texts(texts: Seq<Seq<char>>)
    ensures
        joined(
            Seq::new(texts.len(), |i: int| Some(Ok::<Seq<char>, Seq<char>>(texts[i]))),
        ) == Ok::<Seq<char>, Seq<char>>(texts.flatten()),
    decreases texts.len(),
{
    let all = Seq::new(texts.len(), |i: int| Some(Ok::<Seq<char>, Seq<char>>(texts[i])));
    if texts.len() == 0 {
        assert(texts.flatten() =~= Seq::empty());
    } else {
        let front = texts.drop_last();
        lemma_joined_texts(front);
        assert(all.drop_last() =~= Seq::new(
            front.len(),
            |i: int| Some(Ok::<Seq<char>, Seq<char>>(front[i])),
        ));
        assert(texts =~= front.push(texts.last()));
        front.lemma_flatten_push(texts.last());
    }
}

/// Nothing recorded makes an empty transcript, for which the model is not even loaded. A
/// model is loaded at most once, and a failed run does not undo it; where it could not be
/// loaded, the next transcription tries again.
pub proof fn law_model_runs_only_for_samples<S>(
    t: TranscriberView,
    samples: nat,
    sample_rate: u32,
    input: Seq<S>,
    step: TranscribeStepView<S>,
    reply: TranscribeReply,
)
    ensures
        samples == 0 || sample_rate == 0 ==> transcribe_first(
            t,
            true,
            samples,
            sample_rate,
            input,
        ) == TranscribeStepView::<S>::Finished(Ok(Seq::empty())),
        t.loaded ==> transcribe_first(t, true, samples, sample_rate, input) !is Load
            && transcribe_next(t, step, reply).0 == t,
        reply is LoadFailed ==> transcribe_next(t, step, reply).0 == t,
        transcribe_next(t, step, reply).0.model_path == t.model_path,
{
}

/// The model runs on the samples that the transcription began with, brought to its rate,
/// and in one way only: the samples stay the same from step to step, and every run that
/// begins is one for English.
pub proof fn law_model_gets_the_samples<S>(
    t: TranscriberView,
    step: TranscribeStepView<S>,
    reply: TranscribeReply,
)
    ensures
        ({
            let after = transcribe_next(t, step, reply).1;
            &&& after !is Finished ==> after.input() == step.input()
            &&& after is Infer && step !is Infer ==> after == TranscribeStepView::Infer(
                inference_params(),
                step.input(),
            )
        }),
{
}

/// Every recording is transcribed: where the model file is there, there is at least one
/// sample, and the rate is not 0, the model runs, on the input that the transcription began
/// with, and is loaded first if it was not. It ends at once only where the file is missing
/// or nothing was recorded.
pub proof fn law_every_recording_is_transcribed<S>(
    t: TranscriberView,
    samples: nat,
    sample_rate: u32,
    input: Seq<S>,
)
    ensures
        samples > 0 && sample_rate > 0 && t.loaded ==> transcribe_first(
            t,
            true,
            samples,
            sample_rate,
            input,
        ) == TranscribeStepView::CreateState(input),
        samples > 0 && sample_rate > 0 && !t.loaded ==> transcribe_first(
            t,
            true,
            samples,
            sample_rate,
            input,
        ) == TranscribeStepView::Load(t.model_path, input),
        samples == 0 || sample_rate == 0 ==> transcribe_first(
            t,
            true,
            samples,
            sample_rate,
            input,
        ) == TranscribeStepView::<S>::Finished(Ok(Seq::empty())),
        transcribe_first(t, false, samples, sample_rate, input) == TranscribeStepView::<
            S,
        >::Finished(Err("Whisper model not found at "@ + t.model_path)),
{
}

/// A transcription goes its whole way where nothing fails: the model is loaded, its state
/// is created, it runs on all of the input, for English and without printing, and the text
/// of its segments is the result. Where a step fails, it ends with an error that tells the
/// step and the reason.
pub proof fn law_transcription_goes_its_whole_way<S>(
    t: TranscriberView,
    path: Seq<char>,
    input: Seq<S>,
    params: InferenceParamsView,
    segments: Vec<Option<Result<String, String>>>,
    e: String,
)
    ensures
        transcribe_next(t, TranscribeStepView::Load(path, input), TranscribeReply::Loaded) == (
            TranscriberView { model_path: t.model_path, loaded: true },
            TranscribeStepView::CreateState(input),
        ),
        ({
            let (after, step) = transcribe_next(
                t,
                TranscribeStepView::CreateState(input),
                TranscribeReply::State(Ok(())),
            );
            &&& after == t
            &&& step matches TranscribeStepView::Infer(with, on) && {
                &&& on == input
                &&& with.language == "en"@
                &&& with.best_of == 1
                &&& !with.print_special && !with.print_progress
                &&& !with.print_realtime && !with.print_timestamps
            }
        }),
        transcribe_next(
            t,
            TranscribeStepView::Infer(params, input),
            TranscribeReply::Segments(Ok(segments)),
        ) == (t, TranscribeStepView::<S>::Finished(transcript(segments_view(segments@)))),
        transcribe_next(t, TranscribeStepView::Load(path, input), TranscribeReply::LoadFailed(e))
            == (
            t,
            TranscribeStepView::<S>::Finished(
                Err("failed to initialise WhisperContext: "@ + e@),
            ),
        ),
        transcribe_next(
            t,
            TranscribeStepView::CreateState(input),
            TranscribeReply::State(Err(e)),
        ) == (t, TranscribeStepView::<S>::Finished(Err("create_state: "@ + e@))),
        transcribe_next(
            t,
            TranscribeStepView::Infer(params, input),
            TranscribeReply::Segments(Err(e)),
        ) == (t, TranscribeStepView::<S>::Finished(Err("whisper full: "@ + e@))),
        forall|i: int|
            0 <= i < segments@.len() ==> {
                let seen = segments_view(segments@);
                &&& seen.len() == segments@.len()
                &&& (#[trigger] segments@[i]) matches Some(Ok(text)) ==> seen[i] == Some(
                    Ok::<Seq<char>, Seq<char>>(text@),
                )
                &&& segments@[i] matches Some(Err(x)) ==> seen[i] == Some(
                    Err::<Seq<char>, Seq<char>>(x@),
                )
                &&& segments@[i] is None ==> seen[i] is None
            },
{
}

/// Segments are joined one by one: the text of one run of segments and then that of the
/// next, a segment that is not there adding nothing, and the first error is that of all.
pub proof fn law_segments_are_joined_one_by_one(
    a: Seq<Option<Result<Seq<char>, Seq<char>>>>,
    b: Seq<Option<Result<Seq<char>, Seq<char>>>>,
    text: Seq<char>,
    e: Seq<char>,
)
    ensures
        joined(a + b) == (match (joined(a), joined(b)) {
            (Ok(x), Ok(y)) => Ok::<Seq<char>, Seq<char>>(x + y),
            (Ok(_), Err(y)) => Err(y),
            (Err(x), _) => Err(x),
        }),
        joined(seq![Some(Ok(text))]) == Ok::<Seq<char>, Seq<char>>(text),
        joined(seq![Some(Err(e))]) == Err::<Seq<char>, Seq<char>>("segment.to_str: "@ + e),
        joined(seq![None]) == Ok::<Seq<char>, Seq<char>>(Seq::empty()),
        joined(Seq::empty()) == Ok::<Seq<char>, Seq<char>>(Seq::empty()),
    decreases b.len(),
{
    reveal_with_fuel(joined, 2);
    if b.len() == 0 {
        assert(a + b =~= a);
        if let Ok(x) = joined(a) {
            assert(x + Seq::<char>::empty() =~= x);
        }
    } else {
        assert((a + b).drop_last() =~= a + b.drop_last());
        assert((a + b).last() == b.last());
        law_segments_are_joined_one_by_one(a, b.drop_last(), text, e);
        if let (Ok(x), Ok(y)) = (joined(a), joined(b.drop_last())) {
            if let Some(Ok(more)) = b.last() {
                assert((x + y) + more =~= x + (y + more));
            }
        }
    }
    assert(Seq::<char>::empty() + text =~= text);
    assert(seq![Some(Ok::<Seq<char>, Seq<char>>(text))].drop_last() =~= Seq::empty());
    assert(seq![Some(Err::<Seq<char>, Seq<char>>(e))].drop_last() =~= Seq::empty());
    assert(seq![None::<Result<Seq<char>, Seq<char>>>].drop_last() =~= Seq::empty());
}

/// The transcript is the text of the segments but for the white space that it begins with,
/// whatever its length, and an error of the segments is the error of the transcript.
pub proof fn law_transcript_is_the_joined_text(
    segments: Seq<Option<Result<Seq<char>, Seq<char>>>>,
    space: Seq<char>,
    rest: Seq<char>,
)
    requires
        forall|i: int| 0 <= i < space.len() ==> white_space(space[i]),
        rest.len() > 0 ==> !white_space(rest[0]),
    ensures
        joined(segments) == Ok::<Seq<char>, Seq<char>>(space + rest) ==> transcript(segments)
            == Ok::<Seq<char>, Seq<char>>(rest),
        joined(segments) matches Err(e) ==> transcript(segments) == Err::<Seq<char>, Seq<char>>(e),
{
    law_trimming_the_start_keeps_the_rest(space, rest);
}

/// How many replies a transcription waits for at most.
pub open spec fn replies_to_transcribe<S>(step: TranscribeStepView<S>) -> nat {
    match step {
        TranscribeStepView::Load(_, _) => 3,
        TranscribeStepView::CreateState(_) => 2,
        TranscribeStepView::Infer(_, _) => 1,
        TranscribeStepView::Finished(_) => 0,
    }
}

/// Whether `reply` is of the kind that `step` waits for.
pub open spec fn transcribe_awaits<S>(step: TranscribeStepView<S>, reply: TranscribeReply) -> bool {
    match step {
        TranscribeStepView::Load(_, _) => reply is Loaded || reply is LoadFailed,
        TranscribeStepView::CreateState(_) => reply is State,
        TranscribeStepView::Infer(_, _) => reply is Segments,
        TranscribeStepView::Finished(_) => false,
    }
}

/// Each reply that a step waits for brings the transcription closer to its end, and other
/// replies change nothing.
pub proof fn law_transcription_ends<S>(
    t: TranscriberView,
    step: TranscribeStepView<S>,
    reply: TranscribeReply,
)
    ensures
        transcribe_awaits(step, reply) ==> replies_to_transcribe(
            transcribe_next(t, step, reply).1,
        ) < replies_to_transcribe(step),
        !transcribe_awaits(step, reply) ==> transcribe_next(t, step, reply) == (t, step),
{
}

/// The steps of a transcription are seen as they are: every sample and every character.
pub proof fn law_transcription_is_seen_as_it_is<S>(
    text: String,
    input: Vec<S>,
    params: InferenceParams,
)
    ensures
        TranscribeStep::Load(text, input)@ == TranscribeStepView::Load(text@, input@),
        TranscribeStep::CreateState(input)@ == TranscribeStepView::CreateState(input@),
        TranscribeStep::Infer(params, input)@ == TranscribeStepView::Infer(params@, input@),
        TranscribeStep::<S>::Finished(Ok(text))@ == TranscribeStepView::<S>::Finished(Ok(text@)),
        TranscribeStep::<S>::Finished(Err(text))@ == TranscribeStepView::<S>::Finished(Err(text@)),
        params@.language == params.language@,
        params@.best_of == params.best_of,
        params@.print_special == params.print_special,
        params@.print_progress == params.print_progress,
        params@.print_realtime == params.print_realtime,
        params@.print_timestamps == params.print_timestamps,
        TranscribeStepView::Load(text@, input@).input() == input@,
        TranscribeStepView::CreateState(input@).input() == input@,
        TranscribeStepView::Infer(params@, input@).input() == input@,
{
}

} // verus!

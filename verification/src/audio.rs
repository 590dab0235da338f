//! Microphone capture: opening the device, and what is kept of its samples.
//!
//! The stream is opened once and kept running, so that pressing the hotkey only flips a
//! flag: what arrives while the flag is set is kept, and the rest is dropped.

use vstd::prelude::*;
use vstd::slice::slice_subrange;

use crate::listing::{known_names, listed_names, names_view, readable};
use crate::text::{debug_text, join, opt_view, quoted, views};

verus! {

/// A microphone that is open or closed, and the samples of the recording under way.
pub struct AudioCapture<S> {
    /// Whether the stream of the microphone is open.
    armed: bool,
    /// Whether what arrives is kept.
    recording: bool,
    /// What has been kept since recording started.
    samples: Vec<S>,
    /// The rate of the open stream; 0 while there is none.
    sample_rate: u32,
    /// The number of channels of the open stream; 0 while there is none.
    channels: u16,
}

/// The model of an [`AudioCapture`].
#[verifier::ext_equal]
pub struct AudioView<S> {
    pub armed: bool,
    pub recording: bool,
    pub samples: Seq<S>,
    pub sample_rate: u32,
    pub channels: u16,
}

impl<S> View for AudioCapture<S> {
    type V = AudioView<S>;

    closed spec fn view(&self) -> AudioView<S> {
        AudioView {
            armed: self.armed,
            recording: self.recording,
            samples: self.samples@,
            sample_rate: self.sample_rate,
            channels: self.channels,
        }
    }
}

impl<S> AudioView<S> {
    /// A closed microphone has no rate and records nothing, and samples are held only
    /// while recording.
    pub open spec fn wf(self) -> bool {
        &&& !self.armed ==> !self.recording && self.sample_rate == 0 && self.channels == 0
        &&& !self.recording ==> self.samples.len() == 0
    }

    /// The closed microphone.
    pub open spec fn closed_down() -> Self {
        AudioView {
            armed: false,
            recording: false,
            samples: Seq::empty(),
            sample_rate: 0,
            channels: 0,
        }
    }

    /// The microphone whose stream has just been opened.
    pub open spec fn opened(shape: StreamShape) -> Self {
        AudioView {
            armed: true,
            recording: false,
            samples: Seq::empty(),
            sample_rate: shape.sample_rate,
            channels: shape.channels,
        }
    }

    /// After a press of the hotkey.
    pub open spec fn pressed(self) -> Self {
        if self.armed {
            AudioView { recording: true, samples: Seq::empty(), ..self }
        } else {
            self
        }
    }

    /// After the stream has delivered `mono`.
    pub open spec fn heard(self, mono: Seq<S>) -> Self {
        if self.recording {
            AudioView { samples: self.samples + mono, ..self }
        } else {
            self
        }
    }

    /// After the stream has delivered each of `blocks` in turn.
    pub open spec fn heard_all(self, blocks: Seq<Seq<S>>) -> Self
        decreases blocks.len(),
    {
        if blocks.len() == 0 {
            self
        } else {
            self.heard_all(blocks.drop_last()).heard(blocks.last())
        }
    }

    /// After a release of the hotkey.
    pub open spec fn released(self) -> Self {
        AudioView { recording: false, samples: Seq::empty(), ..self }
    }
}

/// The channels and the rate of a stream.
#[derive(Clone, Copy, Debug, PartialEq, Eq, Structural)]
pub struct StreamShape {
    pub channels: u16,
    pub sample_rate: u32,
}

/// How a device encodes a sample.
#[derive(Debug)]
pub enum SampleFormat {
    /// Floating point of 32 bits, which is what the capture takes.
    F32,
    /// Another encoding, by its name.
    Other(String),
}

/// What a device offers when it is opened with its default configuration.
#[derive(Debug)]
pub struct InputConfig {
    pub shape: StreamShape,
    pub format: SampleFormat,
}

/// Where the opening of a microphone has got to: the work that comes next, or the end.
#[derive(Debug)]
pub enum ArmStep {
    /// Look up the default input device.
    FindDefault,
    /// List the input devices, to find the one of this name.
    FindNamed(String),
    /// Read the configuration of the device at this place of the list, and of the default
    /// device where there is no place.
    ReadConfig(Option<usize>),
    /// Build a stream of this shape.
    Build(StreamShape),
    /// Start the stream.
    Play(StreamShape),
    /// Nothing is left to do.
    Finished(Result<StreamShape, String>),
}

/// What a step of opening reported.
#[derive(Debug)]
pub enum ArmReply {
    /// Whether there is a default input device.
    Default(bool),
    /// The names of the input devices; `None` for a device that does not tell its name.
    Devices(Result<Vec<Option<String>>, String>),
    /// The configuration of the device.
    Config(Result<InputConfig, String>),
    /// Whether the stream was built, or started.
    Stream(Result<(), String>),
}

/// The model of an [`ArmStep`].
pub enum ArmStepView {
    FindDefault,
    FindNamed(Seq<char>),
    ReadConfig(Option<usize>),
    Build(StreamShape),
    Play(StreamShape),
    Finished(Result<StreamShape, Seq<char>>),
}

impl View for ArmStep {
    type V = ArmStepView;

    open spec fn view(&self) -> ArmStepView {
        match self {
            ArmStep::FindDefault => ArmStepView::FindDefault,
            ArmStep::FindNamed(t) => ArmStepView::FindNamed(t@),
            ArmStep::ReadConfig(i) => ArmStepView::ReadConfig(*i),
            ArmStep::Build(s) => ArmStepView::Build(*s),
            ArmStep::Play(s) => ArmStepView::Play(*s),
            ArmStep::Finished(Ok(s)) => ArmStepView::Finished(Ok(*s)),
            ArmStep::Finished(Err(e)) => ArmStepView::Finished(Err(e@)),
        }
    }
}

/// Whether the first device of the name `target` is at the place `i`.
pub open spec fn first_named(names: Seq<Option<Seq<char>>>, target: Seq<char>, i: int) -> bool {
    &&& 0 <= i < names.len()
    &&& names[i] == Some(target)
    &&& forall|j: int| 0 <= j < i ==> names[j] != Some(target)
}

/// Whether some device has the name `target`.
pub open spec fn is_listed(names: Seq<Option<Seq<char>>>, target: Seq<char>) -> bool {
    names.contains(Some(target))
}

/// What the user reads when the microphone `target` is not there.
pub open spec fn not_found_message(target: Seq<char>) -> Seq<char> {
    "Input device "@ + debug_text(target) + " not found; reconnect it or pick another"@
}

/// What the user reads when a microphone is not there. `quoted` is its name in quotes.
pub fn device_not_found(quoted: &str) -> (r: String)
    ensures
        r@ == "Input device "@ + quoted@ + " not found; reconnect it or pick another"@,
{
    join("Input device ", quoted).concat(" not found; reconnect it or pick another")
}

/// The place of the device `target` in the listing, or why there is none.
pub fn resolve_input_device(target: &str, listing: &Result<Vec<Option<String>>, String>) -> (r:
    Result<usize, String>)
    ensures
        match *listing {
            Ok(names) => match r {
                Ok(i) => first_named(names_view(names@), target@, i as int),
                Err(e) => !is_listed(names_view(names@), target@) && e@ == not_found_message(
                    target@,
                ),
            },
            Err(e) => r matches Err(m) && m@ == "input_devices: "@ + e@,
        },
{
    match listing {
        Err(e) => Err(join("input_devices: ", e.as_str())),
        Ok(names) => {
            let ghost all = names_view(names@);
            let wanted: String = target.to_owned();
            let mut i: usize = 0;
            while i < names.len()
                invariant
                    i <= names@.len(),
                    all == names_view(names@),
                    wanted@ == target@,
                    *listing == Ok::<Vec<Option<String>>, String>(*names),
                    forall|j: int| 0 <= j < i ==> all[j] != Some(target@),
                decreases names@.len() - i,
            {
                assert(all[i as int] == opt_view(names@[i as int]));
                if let Some(n) = &names[i] {
                    if *n == wanted {
                        return Ok(i);
                    }
                }
                i = i + 1;
            }
            Err(device_not_found(quoted(target).as_str()))
        },
    }
}

/// The names to offer in the settings; none where the devices could not be listed.
pub fn list_input_devices(listing: Option<Vec<Option<String>>>) -> (r: Vec<String>)
    ensures
        views(r@) == listed_names(listing),
{
    readable(listing)
}

/// Each name that is offered in the settings is found again: the device that it leads to
/// has that name.
pub proof fn law_offered_names_resolve(names: Seq<Option<Seq<char>>>, name: Seq<char>)
    ensures
        known_names(names).contains(name) <==> is_listed(names, name),
        is_listed(names, name) <==> exists|i: int| first_named(names, name, i),
        is_listed(names, name) <==> exists|i: int|
            0 <= i < names.len() && #[trigger] names[i] == Some(name),
        forall|i: int|
            first_named(names, name, i) ==> 0 <= i < names.len() && names[i] == Some(name)
                && forall|j: int| 0 <= j < i ==> names[j] != Some(name),
        forall|i: int, j: int|
            first_named(names, name, i) && first_named(names, name, j) ==> i == j,
{
    lemma_known_names_contains(names, name);
    if is_listed(names, name) {
        let k = choose|k: int| 0 <= k < names.len() && names[k] == Some(name);
        lemma_first_named_exists(names, name, k);
    }
    assert forall|i: int, j: int|
        first_named(names, name, i) && first_named(names, name, j) implies i == j by {
        if i < j {
            assert(names[i] != Some(name));
        } else if j < i {
            assert(names[j] != Some(name));
        }
    }
}

proof fn lemma_known_names_contains(names: Seq<Option<Seq<char>>>, name: Seq<char>)
    ensures
        known_names(names).contains(name) <==> is_listed(names, name),
    decreases names.len(),
{
    if names.len() > 0 {
        let front = names.drop_last();
        lemma_known_names_contains(front, name);
        assert(names =~= front.push(names.last()));
        assert(is_listed(names, name) <==> is_listed(front, name) || names.last() == Some(name)) by {
            if is_listed(names, name) {
                let k = choose|k: int| 0 <= k < names.len() && names[k] == Some(name);
                if k < front.len() {
                    assert(front[k] == Some(name));
                }
            }
            if is_listed(front, name) {
                let k = choose|k: int| 0 <= k < front.len() && front[k] == Some(name);
                assert(names[k] == Some(name));
            }
            if names.last() == Some(name) {
                assert(names[names.len() - 1] == Some(name));
            }
        }
        let shorter = known_names(front);
        if let Some(n) = names.last() {
            assert(shorter.push(n).contains(name) <==> shorter.contains(name) || n == name) by {
                if shorter.push(n).contains(name) {
                    let k = choose|k: int|
                        0 <= k < shorter.push(n).len() && shorter.push(n)[k] == name;
                    if k < shorter.len() {
                        assert(shorter[k] == name);
                    }
                }
                if shorter.contains(name) {
                    let k = choose|k: int| 0 <= k < shorter.len() && shorter[k] == name;
                    assert(shorter.push(n)[k] == name);
                }
                if n == name {
                    assert(shorter.push(n)[shorter.len() as int] == name);
                }
            }
        }
    }
}

proof fn lemma_first_named_exists(names: Seq<Option<Seq<char>>>, name: Seq<char>, k: int)
    requires
        0 <= k < names.len(),
        names[k] == Some(name),
    ensures
        exists|i: int| first_named(names, name, i),
    decreases k,
{
    if exists|j: int| 0 <= j < k && names[j] == Some(name) {
        let j = choose|j: int| 0 <= j < k && names[j] == Some(name);
        lemma_first_named_exists(names, name, j);
    } else {
        assert(first_named(names, name, k));
    }
}

/// The step that follows `step` once it has reported `reply`. A reply that `step` does
/// not wait for changes nothing.
pub open spec fn arm_next(step: ArmStepView, reply: ArmReply, next: ArmStepView) -> bool {
    match (step, reply) {
        (ArmStepView::FindDefault, ArmReply::Default(found)) => next == if found {
            ArmStepView::ReadConfig(None)
        } else {
            ArmStepView::Finished(Err("No default input device"@))
        },
        (ArmStepView::FindNamed(target), ArmReply::Devices(Ok(names))) => if is_listed(
            names_view(names@),
            target,
        ) {
            next matches ArmStepView::ReadConfig(Some(i)) && first_named(
                names_view(names@),
                target,
                i as int,
            )
        } else {
            next == ArmStepView::Finished(Err(not_found_message(target)))
        },
        (ArmStepView::FindNamed(_), ArmReply::Devices(Err(e))) => next == ArmStepView::Finished(
            Err("input_devices: "@ + e@),
        ),
        (ArmStepView::ReadConfig(_), ArmReply::Config(Ok(config))) => next == (match config.format {
            SampleFormat::F32 => ArmStepView::Build(config.shape),
            SampleFormat::Other(name) => ArmStepView::Finished(
                Err("Unsupported sample format "@ + name@ + "; expected F32"@),
            ),
        }),
        (ArmStepView::ReadConfig(_), ArmReply::Config(Err(e))) => next == ArmStepView::Finished(
            Err("default_input_config: "@ + e@),
        ),
        (ArmStepView::Build(shape), ArmReply::Stream(Ok(_))) => next == ArmStepView::Play(shape),
        (ArmStepView::Build(_), ArmReply::Stream(Err(e))) => next == ArmStepView::Finished(
            Err("build_input_stream: "@ + e@),
        ),
        (ArmStepView::Play(shape), ArmReply::Stream(Ok(_))) => next == ArmStepView::Finished(
            Ok(shape),
        ),
        (ArmStepView::Play(_), ArmReply::Stream(Err(e))) => next == ArmStepView::Finished(
            Err("stream.play: "@ + e@),
        ),
        _ => next == step,
    }
}

impl ArmStep {
    /// The step that follows this one once it has reported `reply`.
    pub fn resume(self, reply: ArmReply) -> (r: ArmStep)
        ensures
            arm_next(self@, reply, r@),
    {
        match (self, reply) {
            (ArmStep::FindDefault, ArmReply::Default(found)) => if found {
                ArmStep::ReadConfig(None)
            } else {
                ArmStep::Finished(Err("No default input device".to_owned()))
            },
            (ArmStep::FindNamed(target), ArmReply::Devices(listing)) => {
                let found: Result<usize, String> = resolve_input_device(
                    target.as_str(),
                    &listing,
                );
                proof {
                    if let Ok(names) = listing {
                        law_offered_names_resolve(names_view(names@), target@);
                    }
                }
                match found {
                    Ok(i) => ArmStep::ReadConfig(Some(i)),
                    Err(e) => ArmStep::Finished(Err(e)),
                }
            },
            (ArmStep::ReadConfig(_), ArmReply::Config(Ok(config))) => match config.format {
                SampleFormat::F32 => ArmStep::Build(config.shape),
                SampleFormat::Other(name) => ArmStep::Finished(
                    Err(join("Unsupported sample format ", name.as_str()).concat("; expected F32")),
                ),
            },
            (ArmStep::ReadConfig(_), ArmReply::Config(Err(e))) => ArmStep::Finished(
                Err(join("default_input_config: ", e.as_str())),
            ),
            (ArmStep::Build(shape), ArmReply::Stream(Ok(_))) => ArmStep::Play(shape),
            (ArmStep::Build(_), ArmReply::Stream(Err(e))) => ArmStep::Finished(
                Err(join("build_input_stream: ", e.as_str())),
            ),
            (ArmStep::Play(shape), ArmReply::Stream(Ok(_))) => ArmStep::Finished(Ok(shape)),
            (ArmStep::Play(_), ArmReply::Stream(Err(e))) => ArmStep::Finished(
                Err(join("stream.play: ", e.as_str())),
            ),
            (step, _) => step,
        }
    }
}

/// How many replies the opening of a microphone waits for at most.
pub open spec fn replies_to_arm(step: ArmStepView) -> nat {
    match step {
        ArmStepView::FindDefault => 4,
        ArmStepView::FindNamed(_) => 4,
        ArmStepView::ReadConfig(_) => 3,
        ArmStepView::Build(_) => 2,
        ArmStepView::Play(_) => 1,
        ArmStepView::Finished(_) => 0,
    }
}

/// Whether `reply` is of the kind that `step` waits for.
pub open spec fn arm_awaits(step: ArmStepView, reply: ArmReply) -> bool {
    match step {
        ArmStepView::FindDefault => reply is Default,
        ArmStepView::FindNamed(_) => reply is Devices,
        ArmStepView::ReadConfig(_) => reply is Config,
        ArmStepView::Build(_) => reply is Stream,
        ArmStepView::Play(_) => reply is Stream,
        ArmStepView::Finished(_) => false,
    }
}

/// Each reply that a step waits for brings the opening of the microphone closer to its end.
pub proof fn law_arming_ends(step: ArmStepView, reply: ArmReply, next: ArmStepView)
    requires
        arm_awaits(step, reply),
        arm_next(step, reply, next),
    ensures
        replies_to_arm(next) < replies_to_arm(step),
{
}

/// Once the device is found, the stream has the shape that the device reported, and the
/// opening succeeds exactly where the device was read, speaks 32-bit floating point, and
/// its stream was built and started.
pub proof fn law_stream_has_the_reported_shape(
    place: Option<usize>,
    config: Result<InputConfig, String>,
    built: Result<(), String>,
    played: Result<(), String>,
    s1: ArmStepView,
    s2: ArmStepView,
    s3: ArmStepView,
    shape: StreamShape,
)
    requires
        arm_next(ArmStepView::ReadConfig(place), ArmReply::Config(config), s1),
        arm_next(s1, ArmReply::Stream(built), s2),
        arm_next(s2, ArmReply::Stream(played), s3),
    ensures
        s3 is Finished,
        s3 == ArmStepView::Finished(Ok(shape)) <==> (config matches Ok(c) && c.format is F32
            && c.shape == shape) && built is Ok && played is Ok,
{
}

/// The frame number `k` of interleaved samples: one sample of each channel.
pub open spec fn frame<S>(data: Seq<S>, channels: nat, k: int) -> Seq<S> {
    data.subrange(k * channels, (k + 1) * channels)
}

/// Whether `out` is what `mix` makes of the frame.
pub open spec fn mixes<S, F: Fn(&[S]) -> S>(mix: F, frame: Seq<S>, out: S) -> bool {
    exists|f: &[S]| f@ == frame && #[trigger] call_ensures(mix, (f,), out)
}

/// Whether `mono` is `data` brought down to one channel: the data itself where there is
/// one channel, and otherwise one mixed sample for each complete frame.
pub open spec fn downmixed<S, F: Fn(&[S]) -> S>(
    data: Seq<S>,
    channels: nat,
    mix: F,
    mono: Seq<S>,
) -> bool {
    if channels <= 1 {
        mono == data
    } else {
        &&& mono.len() == data.len() / channels
        &&& forall|k: int|
            0 <= k < mono.len() ==> mixes(mix, frame(data, channels, k), #[trigger] mono[k])
    }
}

/// Appends `data`, brought down to one channel, to `samples`.
fn append_mono<S: Copy, F: Fn(&[S]) -> S>(
    samples: &mut Vec<S>,
    data: &[S],
    channels: usize,
    mix: F,
)
    requires
        channels > 1 ==> forall|f: &[S]| f@.len() == channels ==> call_requires(mix, (f,)),
    ensures
        final(samples)@.take(old(samples)@.len() as int) == old(samples)@,
        downmixed(
            data@,
            channels as nat,
            mix,
            final(samples)@.skip(old(samples)@.len() as int),
        ),
        final(samples)@.len() >= old(samples)@.len(),
{
    let ghost kept = samples@;
    let n: usize = data.len();
    if channels <= 1 {
        let mut i: usize = 0;
        while i < n
            invariant
                n == data@.len(),
                i <= n,
                samples@ == kept + data@.take(i as int),
            decreases n - i,
        {
            samples.push(data[i]);
            assert(samples@ =~= kept + data@.take(i + 1));
            i = i + 1;
        }
        assert(samples@.skip(kept.len() as int) =~= data@);
        assert(samples@.take(kept.len() as int) =~= kept);
    } else {
        let ghost c = channels as nat;
        let ghost mut mono: Seq<S> = Seq::empty();
        let mut start: usize = 0;
        assert(samples@ =~= kept + mono);
        while n - start >= channels
            invariant
                n == data@.len(),
                start <= n,
                channels > 1,
                c == channels,
                forall|f: &[S]| f@.len() == channels ==> call_requires(mix, (f,)),
                samples@ == kept + mono,
                start == mono.len() * c,
                forall|k: int|
                    0 <= k < mono.len() ==> mixes(mix, frame(data@, c, k), #[trigger] mono[k]),
            decreases n - start,
        {
            let f: &[S] = slice_subrange(data, start, start + channels);
            let out: S = mix(f);
            samples.push(out);
            proof {
                let k = mono.len() as int;
                assert((k + 1) * c == k * c + c) by (nonlinear_arith);
                assert(f@ =~= frame(data@, c, k));
                assert(mixes(mix, frame(data@, c, k), out));
                let longer = mono.push(out);
                assert forall|j: int| 0 <= j < longer.len() implies mixes(
                    mix,
                    frame(data@, c, j),
                    #[trigger] longer[j],
                ) by {
                    if j < k {
                        assert(longer[j] == mono[j]);
                    }
                }
                mono = longer;
                assert(samples@ =~= kept + mono);
            }
            start = start + channels;
        }
        proof {
            let len = n as int;
            let k = mono.len() as int;
            assert(k == len / (c as int)) by (nonlinear_arith)
                requires
                    k * c <= len < k * c + c,
                    c > 0,
            ;
            assert(samples@.skip(kept.len() as int) =~= mono);
            assert(samples@.take(kept.len() as int) =~= kept);
        }
    }
}

impl<S: Copy> AudioCapture<S> {
    /// A closed microphone.
    pub fn new() -> (r: Self)
        ensures
            r@ == AudioView::<S>::closed_down(),
            r@.wf(),
    {
        let r = AudioCapture {
            armed: false,
            recording: false,
            samples: Vec::new(),
            sample_rate: 0,
            channels: 0,
        };
        assert(r@ =~= AudioView::<S>::closed_down());
        r
    }

    /// Whether the stream is open.
    pub fn is_armed(&self) -> (r: bool)
        ensures
            r == self@.armed,
    {
        self.armed
    }

    /// How to open the stream of the device `device_name`, and of the default device for
    /// `None`. There is nothing to do where a stream is open already.
    pub fn arm(&self, device_name: Option<String>) -> (r: Option<ArmStep>)
        ensures
            self@.armed <==> r is None,
            r matches Some(step) ==> step@ == (match opt_view(device_name) {
                None => ArmStepView::FindDefault,
                Some(name) => ArmStepView::FindNamed(name),
            }),
    {
        if self.armed {
            return None;
        }
        match device_name {
            None => Some(ArmStep::FindDefault),
            Some(name) => Some(ArmStep::FindNamed(name)),
        }
    }

    /// Takes what opening the stream came to: the shape of the stream or the error, and
    /// `None` where the thread that was to open it is gone. A failure leaves the
    /// microphone closed.
    pub fn finish_arm(&mut self, report: Option<Result<StreamShape, String>>) -> (r: Result<
        (),
        String,
    >)
        requires
            old(self)@.wf(),
            !old(self)@.armed,
        ensures
            final(self)@.wf(),
            match report {
                Some(Ok(shape)) => r is Ok && final(self)@ == AudioView::<S>::opened(shape),
                Some(Err(e)) => (r matches Err(m) && m@ == e@) && final(self)@ == old(self)@,
                None => (r matches Err(m) && m@ == "Audio worker exited without reporting ready"@)
                    && final(self)@ == old(self)@,
            },
    {
        match report {
            Some(Ok(shape)) => {
                self.armed = true;
                self.sample_rate = shape.sample_rate;
                self.channels = shape.channels;
                assert(self@ =~= AudioView::<S>::opened(shape));
                Ok(())
            },
            Some(Err(e)) => Err(e),
            None => Err("Audio worker exited without reporting ready".to_owned()),
        }
    }

    /// Closes the microphone, which may be closed already.
    pub fn disarm(&mut self)
        ensures
            final(self)@ == AudioView::<S>::closed_down(),
            final(self)@.wf(),
    {
        self.recording = false;
        self.armed = false;
        self.samples = Vec::new();
        self.sample_rate = 0;
        self.channels = 0;
        assert(self@ =~= AudioView::<S>::closed_down());
    }

    /// Starts to keep samples, with none kept so far. Does nothing and returns `false`
    /// where the microphone is closed.
    pub fn start_recording(&mut self) -> (r: bool)
        requires
            old(self)@.wf(),
        ensures
            r == old(self)@.armed,
            final(self)@ == old(self)@.pressed(),
            final(self)@.wf(),
    {
        if !self.armed {
            return false;
        }
        self.samples = Vec::new();
        self.recording = true;
        assert(self@ =~= old(self)@.pressed());
        true
    }

    /// Stops keeping samples, and hands out those kept and the rate of the stream.
    pub fn stop_recording(&mut self) -> (r: (Vec<S>, u32))
        requires
            old(self)@.wf(),
        ensures
            r.0@ == old(self)@.samples,
            r.1 == old(self)@.sample_rate,
            final(self)@ == old(self)@.released(),
            final(self)@.wf(),
    {
        self.recording = false;
        let mut samples: Vec<S> = Vec::new();
        std::mem::swap(&mut samples, &mut self.samples);
        assert(self@ =~= old(self)@.released());
        (samples, self.sample_rate)
    }

    /// Takes what the stream delivers. While recording, it is brought down to one channel
    /// with `mix`, which makes one sample of a frame, and kept; otherwise it is dropped.
    pub fn on_data<F: Fn(&[S]) -> S>(&mut self, data: &[S], mix: F)
        requires
            old(self)@.wf(),
            old(self)@.recording && old(self)@.channels > 1 ==> forall|f: &[S]|
                f@.len() == old(self)@.channels ==> call_requires(mix, (f,)),
        ensures
            final(self)@.wf(),
            !old(self)@.recording ==> final(self)@ == old(self)@,
            old(self)@.recording ==> {
                let mono = final(self)@.samples.skip(old(self)@.samples.len() as int);
                &&& downmixed(data@, old(self)@.channels as nat, mix, mono)
                &&& final(self)@ == old(self)@.heard(mono)
            },
            old(self)@.recording && old(self)@.channels <= 1 ==> {
                &&& final(self)@.samples.len() == old(self)@.samples.len() + data@.len()
                &&& forall|k: int|
                    0 <= k < data@.len() ==> final(self)@.samples[old(self)@.samples.len() + k]
                        == #[trigger] data@[k]
            },
            old(self)@.recording && old(self)@.channels > 1 ==> final(self)@.samples.len()
                == old(self)@.samples.len() + data@.len() / old(self)@.channels as nat,
            old(self)@.samples.is_prefix_of(final(self)@.samples),
    {
        if !self.recording {
            return;
        }
        append_mono(&mut self.samples, data, self.channels as usize, mix);
        proof {
            let kept = old(self)@.samples;
            let mono = self@.samples.skip(kept.len() as int);
            assert(self@.samples =~= self@.samples.take(kept.len() as int) + mono);
            assert(self@ =~= old(self)@.heard(mono));
        }
    }
}

/// What is spoken between a press and a release of the hotkey is handed out whole and in
/// order, and nothing from before the press is.
pub proof fn law_release_gives_what_was_heard<S>(v: AudioView<S>, blocks: Seq<Seq<S>>)
    requires
        v.armed,
    ensures
        v.pressed().heard_all(blocks).samples == blocks.flatten(),
        v.pressed().heard_all(blocks) == (AudioView { samples: blocks.flatten(), ..v.pressed() }),
    decreases blocks.len(),
{
    if blocks.len() == 0 {
        assert(blocks.flatten() =~= Seq::empty());
    } else {
        let front = blocks.drop_last();
        law_release_gives_what_was_heard(v, front);
        assert(blocks =~= front.push(blocks.last()));
        front.lemma_flatten_push(blocks.last());
    }
}

/// What the stream delivers while the hotkey is up leaves no trace.
pub proof fn law_nothing_is_kept_while_not_recording<S>(v: AudioView<S>, blocks: Seq<Seq<S>>)
    requires
        !v.recording,
    ensures
        v.heard_all(blocks) == v,
    decreases blocks.len(),
{
    if blocks.len() > 0 {
        law_nothing_is_kept_while_not_recording(v, blocks.drop_last());
    }
}

/// Whatever happens to a microphone, it stays well-formed; in particular a closed one has
/// the rate 0, and a second release hands out nothing.
pub proof fn law_capture_stays_well_formed<S>(v: AudioView<S>, mono: Seq<S>, shape: StreamShape)
    requires
        v.wf(),
    ensures
        AudioView::<S>::closed_down().wf(),
        AudioView::<S>::opened(shape).wf(),
        v.pressed().wf(),
        v.heard(mono).wf(),
        v.released().wf(),
        v.released().released() == v.released(),
        v.released().samples.len() == 0,
        !v.armed ==> v == AudioView::<S>::closed_down() && v.pressed() == v,
{
    if !v.armed {
        assert(v =~= AudioView::<S>::closed_down());
    }
}

/// A microphone that is chosen by its name is opened by its name: where a device of that
/// name is listed, the first one is read, at whatever place it stands, and where there is
/// none the user is told. The default device never takes its place.
pub proof fn law_named_microphone_is_the_one_opened(
    target: Seq<char>,
    names: Vec<Option<String>>,
    next: ArmStepView,
)
    requires
        arm_next(ArmStepView::FindNamed(target), ArmReply::Devices(Ok(names)), next),
    ensures
        forall|i: int|
            {
                &&& 0 <= i < names@.len()
                &&& #[trigger] names@[i] is Some
                &&& names@[i]->Some_0@ == target
                &&& forall|j: int|
                    0 <= j < i && (#[trigger] names@[j]) is Some ==> names@[j]->Some_0@ != target
            } ==> next == ArmStepView::ReadConfig(Some(i as usize)) && i as usize == i,
        (forall|j: int|
            0 <= j < names@.len() && (#[trigger] names@[j]) is Some ==> names@[j]->Some_0@
                != target) ==> next == ArmStepView::Finished(
            Err(
                "Input device "@ + debug_text(target)
                    + " not found; reconnect it or pick another"@,
            ),
        ),
        next matches ArmStepView::ReadConfig(place) ==> place is Some && place->Some_0
            < names@.len() && (names@[place->Some_0 as int] matches Some(n) && n@ == target),
{
    let all = names_view(names@);
    assert(forall|j: int| 0 <= j < names@.len() ==> #[trigger] all[j] == opt_view(names@[j]));
    assert forall|i: int|
        {
            &&& 0 <= i < names@.len()
            &&& #[trigger] names@[i] is Some
            &&& names@[i]->Some_0@ == target
            &&& forall|j: int|
                0 <= j < i && (#[trigger] names@[j]) is Some ==> names@[j]->Some_0@ != target
        } implies next == ArmStepView::ReadConfig(Some(i as usize)) && i as usize == i by {
        assert(all[i] == Some(target));
        assert forall|j: int| 0 <= j < i implies all[j] != Some(target) by {
            assert(all[j] == opt_view(names@[j]));
        }
        assert(first_named(all, target, i));
        law_offered_names_resolve(all, target);
    }
    if forall|j: int|
        0 <= j < names@.len() && (#[trigger] names@[j]) is Some ==> names@[j]->Some_0@ != target {
        if is_listed(all, target) {
            let k = choose|k: int| 0 <= k < all.len() && all[k] == Some(target);
            assert(all[k] == opt_view(names@[k]));
            assert(names@[k] is Some);
        }
    }
    if next is ReadConfig {
        let place = next->ReadConfig_0;
        assert(all[place->Some_0 as int] == opt_view(names@[place->Some_0 as int]));
    }
}

/// The whole way from a device to its stream, and each way in which it can end before: the
/// default device is read where there is one; a device whose samples are 32-bit floating
/// point gets a stream of the shape that it reported; and each error is told as it came.
pub proof fn law_microphone_opens_or_tells_why(
    shape: StreamShape,
    place: Option<usize>,
    encoding: String,
    e: String,
    target: Seq<char>,
    next: ArmStepView,
)
    ensures
        arm_next(ArmStepView::FindDefault, ArmReply::Default(true), next) ==> next
            == ArmStepView::ReadConfig(None),
        arm_next(ArmStepView::FindDefault, ArmReply::Default(false), next) ==> next
            == ArmStepView::Finished(Err("No default input device"@)),
        arm_next(ArmStepView::FindNamed(target), ArmReply::Devices(Err(e)), next) ==> next
            == ArmStepView::Finished(Err("input_devices: "@ + e@)),
        arm_next(
            ArmStepView::ReadConfig(place),
            ArmReply::Config(Ok(InputConfig { shape, format: SampleFormat::F32 })),
            next,
        ) ==> next == ArmStepView::Build(shape),
        arm_next(
            ArmStepView::ReadConfig(place),
            ArmReply::Config(Ok(InputConfig { shape, format: SampleFormat::Other(encoding) })),
            next,
        ) ==> next == ArmStepView::Finished(
            Err("Unsupported sample format "@ + encoding@ + "; expected F32"@),
        ),
        arm_next(ArmStepView::ReadConfig(place), ArmReply::Config(Err(e)), next) ==> next
            == ArmStepView::Finished(Err("default_input_config: "@ + e@)),
        arm_next(ArmStepView::Build(shape), ArmReply::Stream(Ok(())), next) ==> next
            == ArmStepView::Play(shape),
        arm_next(ArmStepView::Build(shape), ArmReply::Stream(Err(e)), next) ==> next
            == ArmStepView::Finished(Err("build_input_stream: "@ + e@)),
        arm_next(ArmStepView::Play(shape), ArmReply::Stream(Ok(())), next) ==> next
            == ArmStepView::Finished(Ok(shape)),
        arm_next(ArmStepView::Play(shape), ArmReply::Stream(Err(e)), next) ==> next
            == ArmStepView::Finished(Err("stream.play: "@ + e@)),
{
}

/// One channel is kept as it is, sample by sample and to the last one.
pub proof fn law_one_channel_is_kept_whole<S, F: Fn(&[S]) -> S>(
    data: Seq<S>,
    channels: nat,
    mix: F,
    mono: Seq<S>,
)
    requires
        channels <= 1,
        downmixed(data, channels, mix, mono),
    ensures
        mono.len() == data.len(),
        forall|k: int| 0 <= k < data.len() ==> mono[k] == data[k],
{
}

/// Of several channels, each complete frame becomes one sample, which is mixed of exactly
/// the samples of that frame; what is left over at the end is less than a frame.
pub proof fn law_each_frame_becomes_one_sample<S, F: Fn(&[S]) -> S>(
    data: Seq<S>,
    channels: nat,
    mix: F,
    mono: Seq<S>,
    k: int,
)
    requires
        channels > 1,
        downmixed(data, channels, mix, mono),
    ensures
        mono.len() * channels <= data.len() < (mono.len() + 1) * channels,
        0 <= k < mono.len() ==> exists|f: &[S]|
            {
                &&& f@.len() == channels
                &&& forall|c: int|
                    0 <= c < channels ==> #[trigger] f@[c] == data[k * channels + c]
                &&& #[trigger] call_ensures(mix, (f,), mono[k])
            },
{
    let n: int = data.len() as int;
    let c: int = channels as int;
    assert((n / c) * c <= n < (n / c + 1) * c) by (nonlinear_arith)
        requires
            c > 1,
            n >= 0,
    ;
    if 0 <= k < mono.len() {
        assert(mixes(mix, frame(data, channels, k), mono[k]));
        let f = choose|f: &[S]|
            f@ == frame(data, channels, k) && #[trigger] call_ensures(mix, (f,), mono[k]);
        let m: int = mono.len() as int;
        assert(0 <= k * c && k * c + c == (k + 1) * c && (k + 1) * c <= m * c) by (nonlinear_arith)
            requires
                0 <= k < m,
                c > 1,
        ;
        assert(f@.len() == channels);
        assert(forall|d: int| 0 <= d < channels ==> #[trigger] f@[d] == data[k * channels + d]);
    }
}

/// What a microphone does at each turn, whatever it held before: opened, it has the shape of
/// its stream and records nothing; pressed while open, it records from nothing; what arrives
/// then is put behind what is there; released, it stays open and holds nothing; closed, it
/// has neither rate nor samples.
pub proof fn law_capture_turns<S>(v: AudioView<S>, shape: StreamShape, mono: Seq<S>)
    ensures
        ({
            let o = AudioView::<S>::opened(shape);
            &&& o.armed && !o.recording && o.samples.len() == 0
            &&& o.sample_rate == shape.sample_rate && o.channels == shape.channels
        }),
        ({
            let c = AudioView::<S>::closed_down();
            !c.armed && !c.recording && c.samples.len() == 0 && c.sample_rate == 0
        }),
        ({
            let p = v.pressed();
            &&& p.armed == v.armed && p.sample_rate == v.sample_rate && p.channels == v.channels
            &&& v.armed ==> p.recording && p.samples.len() == 0
            &&& !v.armed ==> p == v
        }),
        ({
            let h = v.heard(mono);
            &&& h.armed == v.armed && h.recording == v.recording
            &&& h.sample_rate == v.sample_rate && h.channels == v.channels
            &&& v.recording ==> h.samples.len() == v.samples.len() + mono.len()
            &&& v.recording ==> forall|i: int|
                0 <= i < v.samples.len() ==> h.samples[i] == v.samples[i]
            &&& v.recording ==> forall|i: int|
                0 <= i < mono.len() ==> h.samples[v.samples.len() + i] == mono[i]
            &&& !v.recording ==> h == v
        }),
        ({
            let r = v.released();
            &&& r.armed == v.armed && r.sample_rate == v.sample_rate && r.channels == v.channels
            &&& !r.recording && r.samples.len() == 0
        }),
{
}

/// A reply that a step of opening does not wait for changes nothing.
pub proof fn law_other_replies_keep_the_step(
    step: ArmStepView,
    reply: ArmReply,
    next: ArmStepView,
)
    requires
        arm_next(step, reply, next),
    ensures
        step is FindDefault && reply !is Default ==> next == step,
        step is FindNamed && reply !is Devices ==> next == step,
        step is ReadConfig && reply !is Config ==> next == step,
        step is Build && reply !is Stream ==> next == step,
        step is Play && reply !is Stream ==> next == step,
        step is Finished ==> next == step,
{
}

/// The steps of opening are seen as they are.
pub proof fn law_opening_is_seen_as_it_is(text: String, place: Option<usize>, shape: StreamShape)
    ensures
        ArmStep::FindDefault@ == ArmStepView::FindDefault,
        ArmStep::FindNamed(text)@ == ArmStepView::FindNamed(text@),
        ArmStep::ReadConfig(place)@ == ArmStepView::ReadConfig(place),
        ArmStep::Build(shape)@ == ArmStepView::Build(shape),
        ArmStep::Play(shape)@ == ArmStepView::Play(shape),
        ArmStep::Finished(Ok(shape))@ == ArmStepView::Finished(Ok(shape)),
        ArmStep::Finished(Err(text))@ == ArmStepView::Finished(Err(text@)),
{
}

} // verus!

# dictation

A local hold-to-talk dictation app: hold a hotkey, speak, release, and what was said is
typed into the app that has the focus.

The library under `src/` decides; it touches no device, file, model or window. It is
verified with [Verus](https://github.com/verus-lang/verus). The program under `app/`
does the work that the library asks for and hands the replies back.

| Module | What it decides |
|---|---|
| `session` | the listener: starting, stopping, changing the settings |
| `hotkey` | the key combination that a hotkey in the settings stands for |
| `audio` | opening a microphone, and which samples are kept |
| `transcribe` | when the speech model runs, on what, and what its output comes to |
| `inject` | typing the transcript |
| `utterance` | the way from a recording to the text that is typed |
| `events` | what a press and a release bring about, and what the window is told |
| `models` | the model files to choose from |
| `settings` | the defaults, and the steps of saving |
| `listing`, `text` | lists of names; white space, order and quoting of strings |

An operation that needs the system is cut into steps. A step names the work to do next;
`resume` takes the reply and gives the next step. What `resume` may answer is stated by a
spec function next to it, and the `law_` functions state what holds over whole runs.

Samples are of a type that the caller picks, and what needs floating-point arithmetic
(mixing a frame, blending two samples, the length of a recording) comes in as a function.
For a sample rate that is no multiple of 125, the places at which a recording is read to
bring it to the rate of the model come in as a list, which is held to that rate and to the
length of the recording, where that has fewer than 2^32 samples.

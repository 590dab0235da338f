//! The decisions of a hold-to-talk dictation app: hold a hotkey, speak, release, and what
//! was said is typed into the app that has the focus.
//!
//! Nothing here touches a device, a file, a model or a window. Each operation that needs
//! one is cut into steps: a step names the work to do, and the reply to it decides the
//! next step.

pub mod audio;
pub mod events;
pub mod hotkey;
pub mod inject;
pub mod listing;
pub mod models;
pub mod session;
pub mod settings;
pub mod text;
pub mod transcribe;
pub mod utterance;

//! Verified core of a local voice-dictation tool: hotkey recognition,
//! recording state, caret placement, paste planning, settings, model
//! registry and history bookkeeping.

pub mod caret_position;
pub mod text;
pub mod pressed_keys;
pub mod hotkeys;
pub mod paste;
pub mod audio;
pub mod paths;
pub mod models;
pub mod settings;
pub mod history;
pub mod icon;
pub mod transcribe;
pub mod vad;
pub mod ducking;
pub mod overlay;

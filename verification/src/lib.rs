//! Decision logic of a desktop speech-to-text tool: recording state,
//! double-tap detection, hotkey parsing, settings and history handling.

pub mod audio;
pub mod clock;
pub mod controller;
pub mod doubletap;
pub mod hotkey;
pub mod settings;
pub mod status;
pub mod text;
pub mod tray;
pub mod wav;
pub mod whisper;

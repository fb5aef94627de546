# taurophone

The decision logic of a system-wide speech-to-text desktop tool, written in
Verus and proved against its contracts.

- `src/` is the verified library:
  - `doubletap`: double-tap detection of a modifier key (timing, key
    classification, the listener's start/stop flag);
  - `hotkey`: parsing of key-combination texts such as `Ctrl+Shift+Space`,
    and which keyboard binding the settings ask for;
  - `audio`: choice of input device and configuration, mono mix-down of
    captured sample buffers, start/stop outcomes of a recording;
  - `wav`: WAVE encoding of a recording with hound;
  - `settings`: hotkey modes, default settings, the transcription history;
  - `controller`: what a toggle of the recording does and what the user
    interface is told at each step;
  - `whisper`: the pieces of the transcription request and response;
  - `status`, `tray`, `text`: small helpers.
- `app/` is the desktop application around it: Tauri commands and setup,
  audio capture with cpal, keyboard hooks, HTTP, clipboard and files.
- `tests/` runs the library on concrete values.

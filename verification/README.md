# Mebal

A replay buffer for continuous video recording: the desktop and system audio
are encoded continuously into a circular buffer of packets, and a hotkey saves
the last N seconds to an MP4 file.

## Layout

- `src/` — the library, verified with Verus:
  - `buffer/` — the circular packet buffer (age and byte-budget eviction,
    PTS windowing with GOP overfetch) and H.264 NAL inspection;
  - `config.rs` — configuration fields, defaults, validation and restart rules;
  - `hotkey/` — key codes, modifier sets and the hotkey grammar;
  - `writer/` — keyframe trimming and the muxing plan (stream rebasing, stale
    audio skipping);
  - `capture/` — the decisions of the video capture loop (output selection,
    conversion pass, strictly increasing PTS, reconnect limit), encoder
    selection and options, and the audio sample/PTS arithmetic;
  - `app.rs` — replay file naming and the save-guard decisions;
  - `text.rs` — splitting and trimming as `str` does.
- `app/` — the Windows program around the library: DXGI/D3D11 capture, FFmpeg
  encoding and muxing, WASAPI audio, the keyboard hook, TOML files and the CLI.
- `tests/` — tests of the library.

//! Mebal: a replay buffer for continuous video recording.
//!
//! The library holds the verified core of the recorder: the circular packet
//! buffer, the configuration rules, the hotkey grammar, keyframe trimming and
//! the muxing plan of the writer, and the timestamp arithmetic of capture.

pub mod app;
pub mod buffer;
pub mod capture;
pub mod config;
pub mod error;
pub mod hotkey;
pub mod text;
pub mod writer;

pub use buffer::PacketBuffer;
pub use capture::audio::AudioCaptureManager;
pub use capture::CaptureManager;
pub use config::{Config, GOP_INTERVAL_SECS};
pub use writer::VideoWriter;

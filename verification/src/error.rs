//! Error type of the library.

use vstd::prelude::*;

verus! {

/// Main error type for Mebal operations.
#[derive(Debug, Clone, PartialEq, Eq)]
pub enum MebalError {
    /// An FFmpeg call failed with the given error code.
    Ffmpeg(i32),
    Encoder(String),
    /// An I/O operation failed; the message describes it.
    Io(String),
    Config(String),
    Buffer(String),
    Capture(String),
    Hotkey(String),
    VideoWrite(String),
}

/// Result type alias for Mebal operations.
pub type MebalResult<T> = Result<T, MebalError>;

/// Builds a `String` with the characters of `s`.
pub fn owned(s: &str) -> (r: String)
    ensures
        r@ == s@,
{
    String::from_str(s)
}

/// Concatenates a message prefix and a detail.
pub fn message(prefix: &str, detail: &str) -> (r: String)
    ensures
        r@ == prefix@ + detail@,
{
    let p = String::from_str(prefix);
    p.concat(detail)
}

} // verus!

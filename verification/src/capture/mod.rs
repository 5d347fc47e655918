//! Video capture: the decisions of the capture loop.
//!
//! The desktop is captured as GPU textures, converted when needed (HDR
//! tone-mapping or scaling), encoded by a hardware encoder and the encoded
//! packets are pushed into the buffer. The library decides which display is
//! captured, which conversion runs, the timestamps of the frames and how often
//! statistics are reported; the GPU and encoder calls run outside it.

use crate::config::Config;
use crate::error::MebalError;
use vstd::prelude::*;

pub mod audio;
pub mod dxgi;
pub mod encoder_setup;

verus! {

/// Reconnect attempts after the desktop duplication is lost, before capture fails.
pub const MAX_RECONNECT_RETRIES: u32 = 20;

/// Manages continuous video capture.
pub struct CaptureManager {
    config: Config,
}

/// The GPU pass between the captured texture and the encoder's frame.
#[derive(Debug, Clone, Copy, PartialEq, Eq, Structural)]
pub enum ConversionPath {
    /// The captured texture is copied straight into the encoder frame.
    Direct,
    /// SDR capture at another size: a BGRA pass scales it.
    Scale,
    /// HDR capture: FP16 scRGB is tone-mapped to SDR sRGB.
    HdrToneMap,
}

/// Whether `c` is an ASCII digit.
pub open spec fn is_digit(c: char) -> bool {
    '0' <= c <= '9'
}

/// The value of a string of decimal digits.
pub open spec fn digits_value(s: Seq<char>) -> int
    decreases s.len(),
{
    if s.len() == 0 {
        0
    } else {
        digits_value(s.drop_last()) * 10 + (s.last() as int - '0' as int)
    }
}

/// The digits of a number string: without its leading `+`, if any.
pub open spec fn unsigned_digits(s: Seq<char>) -> Seq<char> {
    if s.len() > 0 && s[0] == '+' {
        s.drop_first()
    } else {
        s
    }
}

/// Whether every character is a decimal digit.
pub open spec fn all_digits(t: Seq<char>) -> bool {
    forall|i: int| 0 <= i < t.len() ==> is_digit(#[trigger] t[i])
}

/// What `str::parse::<u32>` gives: an optional `+`, then one or more decimal
/// digits whose value fits in `u32`.
pub open spec fn spec_parse_u32(s: Seq<char>) -> Option<u32> {
    let t = unsigned_digits(s);
    if t.len() > 0 && all_digits(t) && digits_value(t) <= u32::MAX {
        Some(digits_value(t) as u32)
    } else {
        None
    }
}

proof fn lemma_digits_value_nonneg(s: Seq<char>)
    requires
        forall|i: int| 0 <= i < s.len() ==> is_digit(#[trigger] s[i]),
    ensures
        digits_value(s) >= 0,
    decreases s.len(),
{
    if s.len() > 0 {
        lemma_digits_value_nonneg(s.drop_last());
    }
}

/// Appending digits never lowers the value.
proof fn lemma_digits_value_grows(s: Seq<char>, k: int)
    requires
        0 <= k <= s.len(),
        forall|i: int| 0 <= i < s.len() ==> is_digit(#[trigger] s[i]),
    ensures
        digits_value(s.take(k)) <= digits_value(s),
    decreases s.len() - k,
{
    if k < s.len() {
        lemma_digits_value_grows(s, k + 1);
        assert(s.take(k + 1).drop_last() =~= s.take(k));
        lemma_digits_value_nonneg(s.take(k));
    } else {
        assert(s.take(k) =~= s);
    }
}

/// Parses an unsigned decimal number as `str::parse::<u32>` does.
pub fn parse_u32(s: &str) -> (r: Option<u32>)
    ensures
        r == spec_parse_u32(s@),
{
    let n = s.unicode_len();
    let start: usize = if n > 0 && s.get_char(0) == '+' {
        1
    } else {
        0
    };
    let ghost t = unsigned_digits(s@);
    assert(t =~= s@.skip(start as int));
    if start == n {
        return None;
    }
    let mut value: u64 = 0;
    let mut i: usize = start;
    while i < n
        invariant
            n == s@.len(),
            start <= i <= n,
            start < n,
            t =~= s@.skip(start as int),
            t == unsigned_digits(s@),
            forall|j: int| 0 <= j < i - start ==> is_digit(#[trigger] t[j]),
            value == digits_value(t.take(i - start)),
            value <= u32::MAX,
        decreases n - i,
    {
        let c = s.get_char(i);
        let ghost k = i - start;
        proof {
            assert(t[k] == c);
            assert(t.take(k + 1).drop_last() =~= t.take(k));
            assert(t.take(k + 1).last() == c);
        }
        if !('0' <= c && c <= '9') {
            assert(!is_digit(t[k]));
            assert(!all_digits(t));
            return None;
        }
        let d = (c as u32 - '0' as u32) as u64;
        value = value * 10 + d;
        assert(value == digits_value(t.take(k + 1)));
        if value > 0xffff_ffff {
            proof {
                if all_digits(t) {
                    lemma_digits_value_grows(t, k + 1);
                }
            }
            return None;
        }
        i = i + 1;
    }
    proof {
        assert(t.take(n - start) =~= t);
    }
    Some(value as u32)
}

/// The display output a configuration captures: the number its capture source
/// names, or the first output.
pub fn capture_output_index(capture_source: &Option<String>) -> (r: u32)
    ensures
        r == (match *capture_source {
            Some(s) => match spec_parse_u32(s@) {
                Some(v) => v,
                None => 0,
            },
            None => 0,
        }),
{
    match capture_source {
        Some(s) => match parse_u32(s.as_str()) {
            Some(v) => v,
            None => 0,
        },
        None => 0,
    }
}

/// The conversion pass: tone-mapping for HDR, scaling for an SDR capture whose
/// size differs from the encode size, none otherwise.
pub fn conversion_path(hdr: bool, capture_w: u32, capture_h: u32, enc_w: u32, enc_h: u32) -> (r:
    ConversionPath)
    ensures
        r == (if hdr {
            ConversionPath::HdrToneMap
        } else if capture_w != enc_w || capture_h != enc_h {
            ConversionPath::Scale
        } else {
            ConversionPath::Direct
        }),
{
    if hdr {
        ConversionPath::HdrToneMap
    } else if capture_w != enc_w || capture_h != enc_h {
        ConversionPath::Scale
    } else {
        ConversionPath::Direct
    }
}

/// The PTS of the next frame: the wall-clock PTS, raised to one past the last
/// PTS when it is not above it, so that frame PTS strictly increase.
pub open spec fn spec_next_pts(candidate: i64, last_pts: i64) -> i64 {
    if candidate <= last_pts {
        (last_pts + 1) as i64
    } else {
        candidate
    }
}

/// The PTS of the next frame, strictly above the last one.
pub fn next_video_pts(candidate: i64, last_pts: i64) -> (r: i64)
    requires
        candidate <= last_pts ==> last_pts < i64::MAX,
    ensures
        r == spec_next_pts(candidate, last_pts),
        r > last_pts,
        r >= candidate,
{
    if candidate <= last_pts {
        last_pts + 1
    } else {
        candidate
    }
}

/// Whether capture statistics are reported after `frame_count` frames: once
/// per second of frames (`u64::is_multiple_of`, so never for 0 fps but at 0).
pub fn should_report_stats(frame_count: u64, fps: u32) -> (r: bool)
    ensures
        r == (if fps == 0 {
            frame_count == 0
        } else {
            frame_count % (fps as u64) == 0
        }),
{
    if fps == 0 {
        frame_count == 0
    } else {
        frame_count % (fps as u64) == 0
    }
}

/// State of the capture loop between two events.
#[derive(Debug, Clone, Copy, PartialEq, Eq, Structural)]
pub struct CaptureLoop {
    /// PTS of the last frame submitted to the encoder (-1 before the first).
    pub last_pts: i64,
    /// Frames submitted to the encoder.
    pub frame_count: u64,
    /// Whether a captured frame is held, to be encoded again while the desktop
    /// does not change.
    pub has_frame: bool,
    /// Reconnect attempts made since the desktop duplication was lost (0 while
    /// capturing).
    pub reconnect_attempts: u32,
}

/// What happened in the capture loop.
#[derive(Debug, Clone, Copy, PartialEq, Eq, Structural)]
pub enum CaptureEvent {
    /// Cancellation was seen (at the top of the loop, or before a reconnect attempt).
    Cancelled,
    /// A new desktop frame was copied into an encoder frame; `candidate_pts` is
    /// the wall-clock PTS (elapsed seconds since the capture epoch times fps).
    FrameCaptured { candidate_pts: i64 },
    /// The desktop did not change; `candidate_pts` as above.
    FrameUnchanged { candidate_pts: i64 },
    /// Acquiring a frame failed: the desktop duplication was lost.
    CaptureLost,
    /// A reconnect attempt succeeded.
    Reconnected,
    /// A reconnect attempt failed.
    ReconnectFailed,
}

/// What the capture loop does next.
#[derive(Debug, Clone, Copy, PartialEq, Eq, Structural)]
pub enum CaptureAction {
    /// Leave the loop; the encoder is flushed unless capture was cancelled.
    Stop,
    /// Submit the held frame with this PTS, drain the encoder into the buffer,
    /// and log the buffer statistics when `report_stats` holds.
    Encode { pts: i64, report_stats: bool },
    /// Nothing to encode: wait for the next frame.
    NextFrame,
    /// Try to reconnect the desktop duplication; `attempt` counts from 1.
    Reconnect { attempt: u32 },
    /// Give up: reconnecting failed `MAX_RECONNECT_RETRIES` times or was
    /// cancelled; capture ends with an error.
    Fail,
}

impl CaptureLoop {
    /// The state before the first frame.
    pub fn new() -> (r: CaptureLoop)
        ensures
            r == (CaptureLoop { last_pts: -1i64, frame_count: 0u64, has_frame: false, reconnect_attempts: 0u32 }),
    {
        CaptureLoop { last_pts: -1, frame_count: 0, has_frame: false, reconnect_attempts: 0 }
    }

    /// Whether the reconnect count is within its limit.
    pub open spec fn wf(self) -> bool {
        self.reconnect_attempts <= MAX_RECONNECT_RETRIES
    }

    /// Whether encoding a frame with `candidate_pts` stays in range: the frame
    /// count and the raised PTS fit their types.
    pub open spec fn can_encode(self, candidate_pts: i64) -> bool {
        &&& self.frame_count < u64::MAX
        &&& candidate_pts <= self.last_pts ==> self.last_pts < i64::MAX
    }
}

/// Encoding the held frame: its PTS is the candidate raised above the last PTS,
/// the frame is counted, and statistics are due once per second of frames.
pub open spec fn spec_encode(s: CaptureLoop, candidate_pts: i64, fps: u32) -> (CaptureLoop, CaptureAction) {
    let pts = spec_next_pts(candidate_pts, s.last_pts);
    let count = (s.frame_count + 1) as u64;
    (
        CaptureLoop { last_pts: pts, frame_count: count, has_frame: true, reconnect_attempts: s.reconnect_attempts },
        CaptureAction::Encode {
            pts,
            report_stats: if fps == 0 {
                count == 0
            } else {
                count % (fps as u64) == 0
            },
        },
    )
}

/// The next state and action of the capture loop after an event.
pub open spec fn spec_capture_step(s: CaptureLoop, e: CaptureEvent, fps: u32) -> (CaptureLoop, CaptureAction) {
    match e {
        CaptureEvent::Cancelled => if s.reconnect_attempts > 0 {
            (s, CaptureAction::Fail)
        } else {
            (s, CaptureAction::Stop)
        },
        CaptureEvent::FrameCaptured { candidate_pts } => spec_encode(s, candidate_pts, fps),
        CaptureEvent::FrameUnchanged { candidate_pts } => if s.has_frame {
            spec_encode(s, candidate_pts, fps)
        } else {
            (s, CaptureAction::NextFrame)
        },
        CaptureEvent::CaptureLost => (
            CaptureLoop { reconnect_attempts: 1, ..s },
            CaptureAction::Reconnect { attempt: 1 },
        ),
        CaptureEvent::ReconnectFailed => if s.reconnect_attempts < MAX_RECONNECT_RETRIES {
            (
                CaptureLoop { reconnect_attempts: (s.reconnect_attempts + 1) as u32, ..s },
                CaptureAction::Reconnect { attempt: (s.reconnect_attempts + 1) as u32 },
            )
        } else {
            (s, CaptureAction::Fail)
        },
        CaptureEvent::Reconnected => (
            CaptureLoop { has_frame: false, reconnect_attempts: 0, ..s },
            CaptureAction::NextFrame,
        ),
    }
}

/// The decision of the capture loop after an event: encode the held frame with
/// a strictly increasing PTS, wait, reconnect (at most `MAX_RECONNECT_RETRIES`
/// times), stop or fail.
pub fn capture_step(s: CaptureLoop, e: CaptureEvent, fps: u32) -> (r: (CaptureLoop, CaptureAction))
    requires
        e matches CaptureEvent::FrameCaptured { candidate_pts } ==> s.can_encode(candidate_pts),
        e matches CaptureEvent::FrameUnchanged { candidate_pts } ==> s.has_frame ==> s.can_encode(
            candidate_pts,
        ),
    ensures
        r == spec_capture_step(s, e, fps),
{
    match e {
        CaptureEvent::Cancelled => if s.reconnect_attempts > 0 {
            (s, CaptureAction::Fail)
        } else {
            (s, CaptureAction::Stop)
        },
        CaptureEvent::FrameCaptured { candidate_pts } => encode_step(s, candidate_pts, fps),
        CaptureEvent::FrameUnchanged { candidate_pts } => if s.has_frame {
            encode_step(s, candidate_pts, fps)
        } else {
            (s, CaptureAction::NextFrame)
        },
        CaptureEvent::CaptureLost => (
            CaptureLoop {
                last_pts: s.last_pts,
                frame_count: s.frame_count,
                has_frame: s.has_frame,
                reconnect_attempts: 1,
            },
            CaptureAction::Reconnect { attempt: 1 },
        ),
        CaptureEvent::ReconnectFailed => if s.reconnect_attempts < MAX_RECONNECT_RETRIES {
            let attempt = s.reconnect_attempts + 1;
            (
                CaptureLoop {
                    last_pts: s.last_pts,
                    frame_count: s.frame_count,
                    has_frame: s.has_frame,
                    reconnect_attempts: attempt,
                },
                CaptureAction::Reconnect { attempt },
            )
        } else {
            (s, CaptureAction::Fail)
        },
        CaptureEvent::Reconnected => (
            CaptureLoop {
                last_pts: s.last_pts,
                frame_count: s.frame_count,
                has_frame: false,
                reconnect_attempts: 0,
            },
            CaptureAction::NextFrame,
        ),
    }
}

/// Encodes the held frame (see `spec_encode`).
fn encode_step(s: CaptureLoop, candidate_pts: i64, fps: u32) -> (r: (CaptureLoop, CaptureAction))
    requires
        s.can_encode(candidate_pts),
    ensures
        r == spec_encode(s, candidate_pts, fps),
{
    let pts = next_video_pts(candidate_pts, s.last_pts);
    let count = s.frame_count + 1;
    let report_stats = should_report_stats(count, fps);
    (
        CaptureLoop { last_pts: pts, frame_count: count, has_frame: true, reconnect_attempts: s.reconnect_attempts },
        CaptureAction::Encode { pts, report_stats },
    )
}

/// Law: every frame submitted to the encoder gets a PTS above the one before,
/// which becomes the new last PTS; the frame count grows by one.
pub proof fn lemma_capture_pts_strictly_increase(s: CaptureLoop, e: CaptureEvent, fps: u32)
    requires
        e matches CaptureEvent::FrameCaptured { candidate_pts } ==> s.can_encode(candidate_pts),
        e matches CaptureEvent::FrameUnchanged { candidate_pts } ==> s.has_frame ==> s.can_encode(
            candidate_pts,
        ),
    ensures
        ({
            let (t, a) = spec_capture_step(s, e, fps);
            &&& a matches CaptureAction::Encode { pts, .. } ==> pts > s.last_pts && t.last_pts == pts
                && t.frame_count == s.frame_count + 1
            &&& !(a is Encode) ==> t.last_pts == s.last_pts && t.frame_count == s.frame_count
        }),
{
}

/// Law: the reconnect count stays within `MAX_RECONNECT_RETRIES`, and capture
/// fails only when the last allowed attempt failed or cancellation came while
/// reconnecting.
pub proof fn lemma_capture_reconnect_bounded(s: CaptureLoop, e: CaptureEvent, fps: u32)
    requires
        s.wf(),
    ensures
        spec_capture_step(s, e, fps).0.wf(),
        spec_capture_step(s, e, fps).1 is Fail ==> (e is ReconnectFailed && s.reconnect_attempts
            == MAX_RECONNECT_RETRIES) || (e is Cancelled && s.reconnect_attempts > 0),
        spec_capture_step(s, e, fps).1 matches CaptureAction::Reconnect { attempt } ==> 1 <= attempt
            <= MAX_RECONNECT_RETRIES,
{
}

impl CaptureManager {
    /// The configuration captured with.
    pub closed spec fn config_spec(&self) -> Config {
        self.config
    }

    /// Creates a capture manager once FFmpeg has been initialised; `ffmpeg_init`
    /// is the outcome of that initialisation (an FFmpeg error code on failure).
    pub fn new(config: &Config, ffmpeg_init: Result<(), i32>) -> (r: Result<Self, MebalError>)
        ensures
            match ffmpeg_init {
                Ok(()) => r matches Ok(m) && m.config_spec() == *config,
                Err(code) => r == Err::<Self, MebalError>(MebalError::Ffmpeg(code)),
            },
    {
        match ffmpeg_init {
            Ok(()) => Ok(CaptureManager { config: config.clone() }),
            Err(code) => Err(MebalError::Ffmpeg(code)),
        }
    }

    /// The configuration captured with.
    pub fn config(&self) -> (r: &Config)
        ensures
            *r == self.config_spec(),
    {
        &self.config
    }

    /// The display output to capture.
    pub fn output_index(&self) -> (r: u32)
        ensures
            r == (match self.config_spec().capture_source {
                Some(s) => match spec_parse_u32(s@) {
                    Some(v) => v,
                    None => 0,
                },
                None => 0,
            }),
    {
        capture_output_index(&self.config.capture_source)
    }
}

} // verus!

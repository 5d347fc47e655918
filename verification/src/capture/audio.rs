//! System audio capture: the arithmetic between captured PCM samples, encoder
//! frames and buffer timestamps.
//!
//! Interleaved PCM from the output device is accumulated, cut into encoder
//! frames of `frame_size` samples per channel and de-interleaved into planes;
//! the encoder's packets are given PTS in the buffer timebase (1/fps), aligned
//! with video by the capture epoch.

use crate::buffer::trunc_div;
use crate::config::Config;
use vstd::prelude::*;

verus! {

/// Manages system audio capture.
pub struct AudioCaptureManager {
    config: Config,
}

impl AudioCaptureManager {
    /// The configuration captured with.
    pub closed spec fn config_spec(&self) -> Config {
        self.config
    }

    /// An audio capture manager for a configuration.
    pub fn new(config: &Config) -> (r: Self)
        ensures
            r.config_spec() == *config,
    {
        AudioCaptureManager { config: config.clone() }
    }

    /// The configuration captured with.
    pub fn config(&self) -> (r: &Config)
        ensures
            *r == self.config_spec(),
    {
        &self.config
    }
}

/// The buffer PTS of an encoder packet: the encoder PTS (in 1/sample_rate)
/// converted to 1/fps, rounded toward zero, plus the base PTS of the capture
/// start.
pub open spec fn spec_buffer_pts(base: int, encoder_pts: int, fps: int, sample_rate: int) -> int {
    base + trunc_div(encoder_pts * fps, sample_rate)
}

/// The buffer PTS of an encoder packet, or `None` for the encoder's priming
/// packets, whose PTS is negative.
pub fn audio_buffer_pts(audio_base_pts: i64, encoder_pts: i64, fps: u32, sample_rate: u32) -> (r:
    Option<i64>)
    requires
        sample_rate > 0,
        i64::MIN <= encoder_pts * fps <= i64::MAX,
        i64::MIN <= spec_buffer_pts(
            audio_base_pts as int,
            encoder_pts as int,
            fps as int,
            sample_rate as int,
        ) <= i64::MAX,
    ensures
        ({
            let p = spec_buffer_pts(
                audio_base_pts as int,
                encoder_pts as int,
                fps as int,
                sample_rate as int,
            );
            if p < 0 {
                r is None
            } else {
                r == Some(p as i64)
            }
        }),
{
    let scaled = encoder_pts * fps as i64;
    let q: i64 = if scaled >= 0 {
        (scaled as u64 / sample_rate as u64) as i64
    } else {
        let magnitude = (-(scaled as i128)) as u64;
        let m = (magnitude / sample_rate as u64) as i128;
        (-m) as i64
    };
    let buffer_pts = audio_base_pts + q;
    if buffer_pts < 0 {
        None
    } else {
        Some(buffer_pts)
    }
}

/// One encoder frame of planar samples: `planes[c][s]` is sample `s` of channel `c`
/// of the interleaved `pcm`, whose sample `s` of channel `c` is at `s * channels + c`.
pub open spec fn is_deinterleaved<T>(pcm: Seq<T>, channels: int, frame_size: int, planes: Seq<
    Vec<T>,
>) -> bool {
    &&& planes.len() == channels
    &&& forall|c: int|
        0 <= c < channels ==> (#[trigger] planes[c])@.len() == frame_size && forall|s: int|
            0 <= s < frame_size ==> (#[trigger] planes[c]@[s]) == pcm[s * channels + c]
}

/// De-interleaves the first `frame_size` samples of each channel into planes.
pub fn deinterleave<T: Copy>(pcm: &[T], channels: usize, frame_size: usize) -> (planes: Vec<Vec<T>>)
    requires
        frame_size * channels <= pcm@.len(),
    ensures
        is_deinterleaved(pcm@, channels as int, frame_size as int, planes@),
{
    let total = pcm.len();
    let mut planes: Vec<Vec<T>> = Vec::new();
    let mut c: usize = 0;
    while c < channels
        invariant
            total == pcm@.len(),
            frame_size * channels <= pcm@.len(),
            c <= channels,
            planes@.len() == c,
            forall|x: int|
                0 <= x < c ==> (#[trigger] planes@[x])@.len() == frame_size && forall|s: int|
                    0 <= s < frame_size ==> (#[trigger] planes@[x]@[s]) == pcm@[s * channels + x],
        decreases channels - c,
    {
        let mut plane: Vec<T> = Vec::with_capacity(frame_size);
        let mut s: usize = 0;
        while s < frame_size
            invariant
                total == pcm@.len(),
                frame_size * channels <= pcm@.len(),
                c < channels,
                s <= frame_size,
                plane@.len() == s,
                forall|y: int| 0 <= y < s ==> (#[trigger] plane@[y]) == pcm@[y * channels + c],
            decreases frame_size - s,
        {
            proof {
                assert(s * channels + c < frame_size * channels) by (nonlinear_arith)
                    requires
                        s < frame_size,
                        c < channels,
                ;
            }
            plane.push(pcm[s * channels + c]);
            s = s + 1;
        }
        planes.push(plane);
        c = c + 1;
    }
    planes
}

/// Interleaved PCM samples waiting to be cut into encoder frames, and the
/// encoder PTS (in samples) of the next frame.
pub struct PcmAccumulator<T> {
    samples: Vec<T>,
    channels: usize,
    frame_size: usize,
    next_pts: i64,
}

impl<T: Copy> PcmAccumulator<T> {
    /// The interleaved samples not yet taken.
    pub closed spec fn pending(&self) -> Seq<T> {
        self.samples@
    }

    /// Number of interleaved channels.
    pub closed spec fn channels_spec(&self) -> usize {
        self.channels
    }

    /// Samples per channel in one encoder frame.
    pub closed spec fn frame_size_spec(&self) -> usize {
        self.frame_size
    }

    /// Encoder PTS of the next frame, in samples.
    pub closed spec fn next_pts_spec(&self) -> i64 {
        self.next_pts
    }

    /// Number of interleaved samples one frame takes.
    pub open spec fn frame_len(&self) -> int {
        self.frame_size_spec() * self.channels_spec()
    }

    /// An empty accumulator whose first frame has PTS 0.
    pub fn new(channels: usize, frame_size: usize) -> (r: Self)
        ensures
            r.pending() == Seq::<T>::empty(),
            r.channels_spec() == channels,
            r.frame_size_spec() == frame_size,
            r.next_pts_spec() == 0,
    {
        PcmAccumulator { samples: Vec::new(), channels, frame_size, next_pts: 0 }
    }

    /// Appends captured samples.
    pub fn extend(&mut self, chunk: &[T])
        ensures
            final(self).pending() == old(self).pending() + chunk@,
            final(self).channels_spec() == old(self).channels_spec(),
            final(self).frame_size_spec() == old(self).frame_size_spec(),
            final(self).next_pts_spec() == old(self).next_pts_spec(),
    {
        let mut i: usize = 0;
        let ghost start = self.samples@;
        while i < chunk.len()
            invariant
                i <= chunk@.len(),
                self.samples@ == start + chunk@.take(i as int),
                self.channels == old(self).channels,
                self.frame_size == old(self).frame_size,
                self.next_pts == old(self).next_pts,
                start == old(self).samples@,
            decreases chunk.len() - i,
        {
            self.samples.push(chunk[i]);
            i = i + 1;
            assert(chunk@.take(i as int) =~= chunk@.take(i - 1).push(chunk@[i - 1]));
        }
        assert(chunk@.take(chunk@.len() as int) =~= chunk@);
    }

    /// Whether a whole frame is pending.
    pub fn has_frame(&self) -> (r: bool)
        requires
            self.frame_len() <= usize::MAX,
        ensures
            r == (self.pending().len() >= self.frame_len()),
    {
        self.samples.len() >= self.frame_size * self.channels
    }

    /// Takes the oldest frame: its planes and its encoder PTS; the next frame's
    /// PTS is `frame_size` samples later.
    pub fn take_frame(&mut self) -> (r: (Vec<Vec<T>>, i64))
        requires
            old(self).frame_len() <= old(self).pending().len(),
            old(self).frame_size_spec() <= i64::MAX,
            old(self).next_pts_spec() + old(self).frame_size_spec() <= i64::MAX,
        ensures
            is_deinterleaved(
                old(self).pending(),
                old(self).channels_spec() as int,
                old(self).frame_size_spec() as int,
                r.0@,
            ),
            r.1 == old(self).next_pts_spec(),
            final(self).pending() == old(self).pending().skip(old(self).frame_len()),
            final(self).next_pts_spec() == old(self).next_pts_spec() + old(self).frame_size_spec(),
            final(self).channels_spec() == old(self).channels_spec(),
            final(self).frame_size_spec() == old(self).frame_size_spec(),
    {
        let len = self.samples.len();
        let n = self.frame_size * self.channels;
        let planes = deinterleave(self.samples.as_slice(), self.channels, self.frame_size);
        let mut rest: Vec<T> = Vec::new();
        let mut i: usize = n;
        while i < self.samples.len()
            invariant
                n <= i <= self.samples@.len(),
                n == old(self).frame_len(),
                self.samples@ == old(self).samples@,
                rest@ == self.samples@.subrange(n as int, i as int),
            decreases self.samples.len() - i,
        {
            rest.push(self.samples[i]);
            i = i + 1;
            assert(self.samples@.subrange(n as int, i as int) =~= self.samples@.subrange(
                n as int,
                i - 1,
            ).push(self.samples@[i - 1]));
        }
        assert(self.samples@.subrange(n as int, self.samples@.len() as int) =~= self.samples@.skip(
            n as int,
        ));
        let pts = self.next_pts;
        self.samples = rest;
        self.next_pts = self.next_pts + self.frame_size as i64;
        (planes, pts)
    }
}

/// What the audio capture loop saw.
#[derive(Debug, Clone, Copy, PartialEq, Eq, Structural)]
pub enum AudioEvent {
    /// Cancellation was seen at the top of the loop.
    Cancelled,
    /// Captured samples arrived (and were appended to the accumulator).
    Samples,
    /// No samples within the wait.
    Timeout,
    /// The device stream ended; whether cancellation was seen by then.
    Disconnected { cancelled: bool },
}

/// What the audio capture loop does next.
#[derive(Debug, Clone, Copy, PartialEq, Eq, Structural)]
pub enum AudioAction {
    /// Encode every whole frame that is pending, then wait again.
    EncodeFrames,
    /// Wait for samples again.
    Wait,
    /// Leave the loop; flush the encoder into the buffer when `flush` holds.
    Stop { flush: bool },
}

/// The decision of the audio capture loop after an event: samples are
/// encoded frame by frame; the loop stops on cancellation or when the device
/// stream ends, and the encoder is flushed only when capture was not cancelled
/// (stale packets would race into a cleared buffer).
pub fn audio_step(event: AudioEvent) -> (r: AudioAction)
    ensures
        r == (match event {
            AudioEvent::Cancelled => AudioAction::Stop { flush: false },
            AudioEvent::Samples => AudioAction::EncodeFrames,
            AudioEvent::Timeout => AudioAction::Wait,
            AudioEvent::Disconnected { cancelled } => AudioAction::Stop { flush: !cancelled },
        }),
{
    match event {
        AudioEvent::Cancelled => AudioAction::Stop { flush: false },
        AudioEvent::Samples => AudioAction::EncodeFrames,
        AudioEvent::Timeout => AudioAction::Wait,
        AudioEvent::Disconnected { cancelled } => AudioAction::Stop { flush: !cancelled },
    }
}

/// Law: the conversion to buffer PTS keeps the order of encoder PTS.
pub proof fn lemma_buffer_pts_monotone(base: int, e1: int, e2: int, fps: int, sample_rate: int)
    requires
        e1 <= e2,
        fps >= 0,
        sample_rate > 0,
    ensures
        spec_buffer_pts(base, e1, fps, sample_rate) <= spec_buffer_pts(base, e2, fps, sample_rate),
{
    let a = e1 * fps;
    let b = e2 * fps;
    assert(a <= b) by (nonlinear_arith)
        requires
            e1 <= e2,
            fps >= 0,
            a == e1 * fps,
            b == e2 * fps,
    ;
    if a >= 0 {
        assert(a / sample_rate <= b / sample_rate) by (nonlinear_arith)
            requires
                0 <= a <= b,
                sample_rate > 0,
        ;
    } else if b >= 0 {
        assert((-a) / sample_rate >= 0) by (nonlinear_arith)
            requires
                -a > 0,
                sample_rate > 0,
        ;
        assert(b / sample_rate >= 0) by (nonlinear_arith)
            requires
                b >= 0,
                sample_rate > 0,
        ;
    } else {
        assert((-b) / sample_rate <= (-a) / sample_rate) by (nonlinear_arith)
            requires
                0 < -b <= -a,
                sample_rate > 0,
        ;
    }
}

/// Law: `k` whole seconds of samples after the capture start are `k * fps`
/// frames of buffer PTS after the base PTS.
pub proof fn lemma_buffer_pts_whole_seconds(base: int, k: int, fps: int, sample_rate: int)
    requires
        k >= 0,
        fps >= 0,
        sample_rate > 0,
    ensures
        spec_buffer_pts(base, k * sample_rate, fps, sample_rate) == base + k * fps,
{
    assert(k * sample_rate * fps == (k * fps) * sample_rate) by (nonlinear_arith);
    assert(k * sample_rate * fps >= 0) by (nonlinear_arith)
        requires
            k >= 0,
            fps >= 0,
            sample_rate > 0,
    ;
    assert(((k * fps) * sample_rate) / sample_rate == k * fps) by (nonlinear_arith)
        requires
            sample_rate > 0,
    ;
}

} // verus!

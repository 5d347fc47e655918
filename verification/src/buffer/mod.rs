//! Circular buffer for encoded media packets.
//!
//! Stores H.264 video and AAC audio packets in insertion order, evicting by
//! wall-clock age and byte-size limits. Retrieval uses PTS-based windowing with
//! GOP compensation for keyframe alignment.

use std::collections::VecDeque;
use std::sync::Arc;
use std::time::{Duration, Instant};
use vstd::prelude::*;

mod packet;

pub use packet::{
    bytes_contents, h264_nal_unit_type, is_h264_keyframe_nal, is_h264_pps,
    is_h264_sps, spec_nal_unit_type, ExBytes, Packet, PacketType, H264_NAL_IDR,
    H264_NAL_PPS, H264_NAL_SPS, H264_NAL_TYPE_MASK,
};

verus! {

/// Parameters of the audio stream, set once by audio capture and read by the writer.
#[derive(Debug)]
pub struct AudioParams {
    pub sample_rate: u32,
    pub channels: u16,
    pub frame_size: u32,
    pub extradata: Vec<u8>,
}

impl AudioParams {
    /// Field-wise equality of two parameter sets (the extradata by its bytes).
    pub open spec fn same(self, other: AudioParams) -> bool {
        &&& self.sample_rate == other.sample_rate
        &&& self.channels == other.channels
        &&& self.frame_size == other.frame_size
        &&& self.extradata@ == other.extradata@
    }
}

impl Clone for AudioParams {
    fn clone(&self) -> (r: Self)
        ensures
            r.same(*self),
    {
        AudioParams {
            sample_rate: self.sample_rate,
            channels: self.channels,
            frame_size: self.frame_size,
            extradata: copy_bytes(&self.extradata),
        }
    }
}

/// A copy of a byte vector.
pub fn copy_bytes(v: &Vec<u8>) -> (r: Vec<u8>)
    ensures
        r@ == v@,
{
    let mut r: Vec<u8> = Vec::with_capacity(v.len());
    let mut i: usize = 0;
    while i < v.len()
        invariant
            i <= v.len(),
            r@ == v@.take(i as int),
        decreases v.len() - i,
    {
        r.push(v[i]);
        i = i + 1;
        assert(r@ =~= v@.take(i as int));
    }
    assert(v@.take(v.len() as int) =~= v@);
    r
}

/// The packets behind a sequence of shared handles.
pub open spec fn unarc(s: Seq<Arc<Packet>>) -> Seq<Packet> {
    s.map_values(|p: Arc<Packet>| *p)
}

/// Total payload bytes of a sequence of packets.
pub open spec fn seq_bytes(s: Seq<Packet>) -> nat
    decreases s.len(),
{
    if s.len() == 0 {
        0
    } else {
        seq_bytes(s.drop_last()) + s.last().size()
    }
}

/// VBR headroom: 1.25x
pub const VBR_HEADROOM_NUM: usize = 5;

pub const VBR_HEADROOM_DEN: usize = 4;

/// Byte budget for `duration_secs` of video at `bitrate_kbps`, with 1.25x VBR headroom.
pub open spec fn spec_max_bytes(bitrate_kbps: int, duration_secs: int) -> int {
    (bitrate_kbps * 1024 / 8) * duration_secs * 5 / 4
}

/// Whether the byte budget can be computed in `usize` arithmetic.
pub open spec fn max_bytes_fits(bitrate_kbps: int, duration_secs: int) -> bool {
    &&& bitrate_kbps * 1024 <= usize::MAX
    &&& (bitrate_kbps * 1024 / 8) * duration_secs * 5 <= usize::MAX
}

/// Byte budget for `duration_secs` of video at `bitrate_kbps`, with 1.25x VBR headroom.
pub fn max_bytes_for(bitrate_kbps: usize, duration_secs: u32) -> (r: usize)
    requires
        max_bytes_fits(bitrate_kbps as int, duration_secs as int),
    ensures
        r == spec_max_bytes(bitrate_kbps as int, duration_secs as int),
{
    let per_sec = bitrate_kbps * 1024 / 8;
    assert(per_sec * duration_secs <= per_sec * duration_secs * 5) by (nonlinear_arith)
        requires
            per_sec >= 0,
            duration_secs >= 0,
    ;
    let total = per_sec * duration_secs as usize;
    total * VBR_HEADROOM_NUM / VBR_HEADROOM_DEN
}

/// Index of the first packet whose PTS is at least `cutoff` (the length if none).
/// On PTS-ordered contents this is the partition point of `pts < cutoff`.
pub open spec fn first_at_or_after(s: Seq<Packet>, cutoff: int) -> int
    decreases s.len(),
{
    if s.len() == 0 {
        0
    } else if s[0].pts >= cutoff {
        0
    } else {
        1 + first_at_or_after(s.drop_first(), cutoff)
    }
}

/// The first position `j >= k` from which the remaining packets fit in `max`
/// bytes, or at which at most one packet remains.
pub open spec fn size_cut(s: Seq<Packet>, k: int, max: int) -> int
    decreases s.len() - k,
{
    if k >= s.len() - 1 || seq_bytes(s.skip(k)) <= max {
        k
    } else {
        size_cut(s, k + 1, max)
    }
}

/// What `push(packet)` may leave: the contents with the packet appended, with
/// some oldest packets removed for age (the first `k`), and then the fewest
/// further oldest packets removed so that the rest fit the byte budget or only
/// one packet remains.
pub open spec fn pushed_contents(s: Seq<Packet>, k: int, max: int) -> Seq<Packet> {
    s.skip(size_cut(s, k, max))
}

/// The maximum age of a packet in nanoseconds.
pub open spec fn max_age_nanos(max_duration_secs: u32) -> int {
    max_duration_secs * 1_000_000_000
}

/// The age of a packet at clock reading `now`, in nanoseconds (0 for a packet
/// stamped after `now`).
pub open spec fn packet_age(now: u64, p: Packet) -> int {
    if now >= p.timestamp {
        now - p.timestamp
    } else {
        0
    }
}

/// Number of leading packets older than `max_age` at `now`: the packets
/// evicted for age.
pub open spec fn age_cut(s: Seq<Packet>, now: u64, max_age: int) -> int
    decreases s.len(),
{
    if s.len() == 0 {
        0
    } else if packet_age(now, s[0]) > max_age {
        1 + age_cut(s.drop_first(), now, max_age)
    } else {
        0
    }
}

/// Whether `after` is what pushing `p` onto `before` leaves when the packets
/// are aged at clock reading `now`.
pub open spec fn final_state_at(
    before: Seq<Packet>,
    p: Packet,
    now: u64,
    max_duration_secs: u32,
    max_bytes: usize,
    after: Seq<Packet>,
) -> bool {
    after == pushed_contents(
        before.push(p),
        age_cut(before.push(p), now, max_age_nanos(max_duration_secs)),
        max_bytes as int,
    )
}

/// PTS of the cutoff for a retrieval window: `duration + gop` seconds before the last PTS.
pub open spec fn window_cutoff(last_pts: int, duration_secs: int, gop_secs: int, fps: int) -> int {
    last_pts - (duration_secs + gop_secs) * fps
}

/// Quotient of integer division rounded toward zero, as Rust's `/` computes it.
pub open spec fn trunc_div(a: int, b: int) -> int {
    if a >= 0 {
        a / b
    } else {
        -((-a) / b)
    }
}

/// A value that is set once: the first value set is kept.
pub open spec fn set_once<T>(current: Option<T>, v: T) -> Option<T> {
    match current {
        Some(c) => Some(c),
        None => Some(v),
    }
}

/// Snapshot of buffer occupancy.
#[derive(Debug, Clone, Copy)]
pub struct BufferStats {
    pub packet_count: usize,
    pub total_bytes: usize,
    pub max_bytes: usize,
    pub duration_secs: u32,
}

struct BufferInner {
    packets: VecDeque<Arc<Packet>>,
    total_bytes: usize,
    max_bytes: usize,
}

/// Circular buffer of encoded media packets.
pub struct PacketBuffer {
    inner: BufferInner,
    max_duration_secs: u32,
    fps: u32,
    gop_secs: u32,
    /// SPS/PPS: set once by the encoder, read by the writer.
    codec_extradata: Option<Vec<u8>>,
    /// Set once by audio capture, read by the writer.
    audio_params: Option<AudioParams>,
    /// Start of the buffer's clock.
    epoch: Instant,
    /// The clock reading of the latest push (0 before the first).
    latest_reading: u64,
}

/// `std::time::Instant`, the start of a buffer's clock.
#[verifier::external_type_specification]
#[verifier::external_body]
pub struct ExInstant(Instant);

/// Calls `Instant::now`; nothing is claimed of the time it returns.
#[verifier::external_body]
fn instant_now() -> Instant {
    Instant::now()
}

/// Calls `Instant::elapsed`; nothing is claimed of the duration, which depends
/// on the clock.
#[verifier::external_body]
fn elapsed_since(start: &Instant) -> Duration {
    start.elapsed()
}

/// Calls `Duration::as_nanos`; nothing is claimed of the result, since a
/// `Duration` is opaque to the library.
#[verifier::external_body]
fn duration_nanos(d: &Duration) -> u128 {
    d.as_nanos()
}

/// Calls `Arc::clone`; claims that the new handle refers to the same packet.
#[verifier::external_body]
pub(crate) fn share(p: &Arc<Packet>) -> (r: Arc<Packet>)
    ensures
        *r == **p,
{
    Arc::clone(p)
}

/// Appending a packet adds its size to the byte count.
pub proof fn lemma_seq_bytes_push(s: Seq<Packet>, p: Packet)
    ensures
        seq_bytes(s.push(p)) == seq_bytes(s) + p.size(),
{
    assert(s.push(p).drop_last() =~= s);
}

/// The byte count is the first packet's size plus that of the rest.
pub proof fn lemma_seq_bytes_drop_first(s: Seq<Packet>)
    requires
        s.len() > 0,
    ensures
        seq_bytes(s) == s[0].size() + seq_bytes(s.drop_first()),
    decreases s.len(),
{
    if s.len() > 1 {
        lemma_seq_bytes_drop_first(s.drop_last());
        assert(s.drop_last().drop_first() =~= s.drop_first().drop_last());
    } else {
        assert(s.drop_first() =~= Seq::<Packet>::empty());
        assert(s.drop_last() =~= Seq::<Packet>::empty());
    }
}

/// Dropping the first of the packets from `k` on leaves those from `k + 1` on.
proof fn lemma_skip_step(s: Seq<Packet>, k: int)
    requires
        0 <= k < s.len(),
    ensures
        s.skip(k).drop_first() =~= s.skip(k + 1),
        s.skip(k)[0] == s[k],
{
}

/// Appending a handle appends the packet it refers to.
proof fn lemma_unarc_push(s: Seq<Arc<Packet>>, p: Arc<Packet>)
    ensures
        unarc(s.push(p)) =~= unarc(s).push(*p),
{
}

/// Dropping the first handle drops the first packet.
proof fn lemma_unarc_drop_first(s: Seq<Arc<Packet>>)
    requires
        s.len() > 0,
    ensures
        unarc(s.drop_first()) =~= unarc(s).drop_first(),
{
}

/// `size_cut` lies between `k` and the last position, and what it leaves fits
/// or is a single packet.
pub proof fn lemma_size_cut(s: Seq<Packet>, k: int, max: int)
    requires
        0 <= k <= s.len(),
    ensures
        k <= size_cut(s, k, max) <= s.len(),
        k < s.len() ==> size_cut(s, k, max) < s.len(),
        seq_bytes(s.skip(size_cut(s, k, max))) <= max || s.len() - size_cut(s, k, max) <= 1,
    decreases s.len() - k,
{
    if !(k >= s.len() - 1 || seq_bytes(s.skip(k)) <= max) {
        lemma_size_cut(s, k + 1, max);
    }
}

impl PacketBuffer {
    #[verifier::type_invariant]
    spec fn inv(self) -> bool {
        self.inner.total_bytes == seq_bytes(unarc(self.inner.packets@))
    }

    /// The buffered packets, oldest first.
    pub closed spec fn packets(&self) -> Seq<Packet> {
        unarc(self.inner.packets@)
    }

    /// Total payload bytes held.
    pub open spec fn total_bytes(&self) -> nat {
        seq_bytes(self.packets())
    }

    /// The byte budget.
    pub closed spec fn max_bytes(&self) -> usize {
        self.inner.max_bytes
    }

    /// Maximum wall-clock age of a packet, in seconds.
    pub closed spec fn max_duration_secs(&self) -> u32 {
        self.max_duration_secs
    }

    /// Frames per second of the PTS timebase.
    pub closed spec fn fps(&self) -> u32 {
        self.fps
    }

    /// Seconds of overfetch for keyframe alignment.
    pub closed spec fn gop_secs(&self) -> u32 {
        self.gop_secs
    }

    /// The codec extradata, once set.
    pub closed spec fn codec_extradata(&self) -> Option<Seq<u8>> {
        match self.codec_extradata {
            Some(v) => Some(v@),
            None => None,
        }
    }

    /// The audio parameters, once set.
    pub closed spec fn audio_params(&self) -> Option<AudioParams> {
        self.audio_params
    }

    /// The clock reading at which the latest push aged its packets (0 before
    /// the first push). Readings never go backwards.
    pub closed spec fn latest_reading(&self) -> u64 {
        self.latest_reading
    }

    /// The cutoff PTS of `get_packets_for_duration(duration_secs)` on non-empty contents.
    pub open spec fn cutoff_for(&self, duration_secs: u32) -> int {
        window_cutoff(
            self.packets().last().pts as int,
            duration_secs as int,
            self.gop_secs() as int,
            self.fps() as int,
        )
    }

    /// Whether the window arithmetic of `get_packets_for_duration` stays in `i64`.
    pub open spec fn window_fits(&self, duration_secs: u32) -> bool {
        self.packets().len() > 0 ==> {
            &&& (duration_secs + self.gop_secs()) * self.fps() <= i64::MAX
            &&& self.cutoff_for(duration_secs) >= i64::MIN
        }
    }

    /// Duration spanned by the PTS of the first and last packets, in whole seconds.
    pub open spec fn spec_duration_secs(&self) -> u32 {
        if self.packets().len() >= 2 {
            trunc_div(
                self.packets().last().pts - self.packets()[0].pts,
                self.fps() as int,
            ) as u32
        } else {
            0
        }
    }

    /// Whether `stats` can compute the PTS span: a non-zero fps and no `i64` overflow.
    pub open spec fn span_fits(&self) -> bool {
        self.packets().len() >= 2 ==> {
            &&& self.fps() > 0
            &&& i64::MIN <= self.packets().last().pts - self.packets()[0].pts <= i64::MAX
        }
    }

    /// Whether `push(packet)` can count the packet's bytes in `usize`.
    pub fn can_push(&self, packet: &Packet) -> (r: bool)
        ensures
            r == (self.total_bytes() + packet.size() <= usize::MAX),
    {
        proof {
            use_type_invariant(self);
        }
        let n = packet.len();
        n <= usize::MAX - self.inner.total_bytes
    }

    /// Whether `get_packets_for_duration(duration_secs)` computes its cutoff in `i64`.
    pub fn window_defined(&self, duration_secs: u32) -> (r: bool)
        ensures
            r == self.window_fits(duration_secs),
    {
        let n = self.inner.packets.len();
        if n == 0 {
            return true;
        }
        let fetch = duration_secs as i128 + self.gop_secs as i128;
        let fps = self.fps as i128;
        assert(0 <= fetch * fps <= 0x2_0000_0000 * 0x1_0000_0000) by (nonlinear_arith)
            requires
                0 <= fetch <= 0x2_0000_0000,
                0 <= fps <= 0x1_0000_0000,
        ;
        let span = fetch * fps;
        let last = self.inner.packets[n - 1].pts as i128;
        span <= i64::MAX as i128 && last - span >= i64::MIN as i128
    }

    /// Whether `stats` can compute the PTS span: a non-zero fps and no `i64` overflow.
    pub fn stats_defined(&self) -> (r: bool)
        ensures
            r == self.span_fits(),
    {
        let n = self.inner.packets.len();
        if n < 2 {
            return true;
        }
        let span = self.inner.packets[n - 1].pts as i128 - self.inner.packets[0].pts as i128;
        self.fps > 0 && i64::MIN as i128 <= span && span <= i64::MAX as i128
    }

    /// An empty buffer that keeps packets for `max_duration_secs` of wall-clock
    /// time within the byte budget of that duration at `bitrate_kbps`.
    pub fn new(max_duration_secs: u32, fps: u32, bitrate_kbps: usize, gop_secs: u32) -> (b: Self)
        requires
            fps * max_duration_secs <= u32::MAX,
            max_bytes_fits(bitrate_kbps as int, max_duration_secs as int),
        ensures
            b.packets() == Seq::<Packet>::empty(),
            b.max_bytes() == spec_max_bytes(bitrate_kbps as int, max_duration_secs as int),
            b.max_duration_secs() == max_duration_secs,
            b.fps() == fps,
            b.gop_secs() == gop_secs,
            b.codec_extradata() == None::<Seq<u8>>,
            b.audio_params() == None::<AudioParams>,
            b.latest_reading() == 0,
    {
        let estimated_packets = (fps * max_duration_secs) as usize;
        let max_bytes = max_bytes_for(bitrate_kbps, max_duration_secs);
        let packets: VecDeque<Arc<Packet>> = VecDeque::with_capacity(estimated_packets);
        proof {
            assert(unarc(packets@) =~= Seq::<Packet>::empty());
        }
        PacketBuffer {
            inner: BufferInner { packets, total_bytes: 0, max_bytes },
            max_duration_secs,
            fps,
            gop_secs,
            codec_extradata: None,
            audio_params: None,
            epoch: instant_now(),
            latest_reading: 0,
        }
    }

    /// Reads the buffer's clock: nanoseconds since the buffer was created
    /// (saturating at `u64::MAX`). Packets are stamped with it.
    pub fn clock_nanos(&self) -> u64 {
        let d = elapsed_since(&self.epoch);
        let n = duration_nanos(&d);
        if n > 0xffff_ffff_ffff_ffff {
            0xffff_ffff_ffff_ffff
        } else {
            n as u64
        }
    }

    /// Appends a packet, then evicts packets older than the maximum duration and,
    /// while over the byte budget, the oldest packets but the last one.
    ///
    /// Ages are taken at a reading of the buffer's clock; `push_at` says what
    /// follows for each reading.
    pub fn push(&mut self, packet: Packet)
        requires
            old(self).total_bytes() + packet.size() <= usize::MAX,
        ensures
            exists|now: u64|
                now >= packet.timestamp && now >= old(self).latest_reading() && final(self).latest_reading()
                    == now && #[trigger] final_state_at(
                    old(self).packets(),
                    packet,
                    now,
                    old(self).max_duration_secs(),
                    old(self).max_bytes(),
                    final(self).packets(),
                ),
            final(self).max_bytes() == old(self).max_bytes(),
            final(self).max_duration_secs() == old(self).max_duration_secs(),
            final(self).fps() == old(self).fps(),
            final(self).gop_secs() == old(self).gop_secs(),
            final(self).codec_extradata() == old(self).codec_extradata(),
            final(self).audio_params() == old(self).audio_params(),
    {
        // The clock only moves forward and packets are stamped from it, so its
        // reading is at least the packet's stamp and the previous reading; the
        // maximum makes that hold for any stamp.
        let mut now = self.clock_nanos();
        if packet.timestamp > now {
            now = packet.timestamp;
        }
        if self.latest_reading > now {
            now = self.latest_reading;
        }
        proof {
            use_type_invariant(&*self);
        }
        self.latest_reading = now;
        self.push_at(packet, now);
        assert(final_state_at(old(self).packets(), packet, now, old(self).max_duration_secs(), old(self).max_bytes(), self.packets()));
    }

    /// Appends a packet, then, at clock reading `now`, evicts the leading
    /// packets older than the maximum duration and, while over the byte budget,
    /// the oldest packets but the last one.
    pub fn push_at(&mut self, packet: Packet, now: u64)
        requires
            old(self).total_bytes() + packet.size() <= usize::MAX,
        ensures
            final(self).packets() == pushed_contents(
                old(self).packets().push(packet),
                age_cut(old(self).packets().push(packet), now, max_age_nanos(old(self).max_duration_secs())),
                old(self).max_bytes() as int,
            ),
            final(self).max_bytes() == old(self).max_bytes(),
            final(self).max_duration_secs() == old(self).max_duration_secs(),
            final(self).fps() == old(self).fps(),
            final(self).gop_secs() == old(self).gop_secs(),
            final(self).codec_extradata() == old(self).codec_extradata(),
            final(self).audio_params() == old(self).audio_params(),
            final(self).latest_reading() == old(self).latest_reading(),
    {
        proof {
            use_type_invariant(&*self);
        }
        let ghost s = old(self).packets().push(packet);
        let mut inner = BufferInner {
            packets: VecDeque::new(),
            total_bytes: 0,
            max_bytes: self.inner.max_bytes,
        };
        proof {
            assert(unarc(inner.packets@) =~= Seq::<Packet>::empty());
        }
        std::mem::swap(&mut inner, &mut self.inner);
        let packet_size = packet.len();
        proof {
            lemma_seq_bytes_push(unarc(inner.packets@), packet);
        }
        inner.total_bytes = inner.total_bytes + packet_size;
        let ghost before = inner.packets@;
        let shared = Arc::new(packet);
        let ghost shared_ghost = shared;
        inner.packets.push_back(shared);
        proof {
            lemma_unarc_push(before, shared_ghost);
            assert(unarc(inner.packets@) =~= s);
        }
        Self::evict_old_packets(&mut inner, self.max_duration_secs, now, Ghost(s));
        self.inner = inner;
    }

    /// Evicts the leading packets whose age at `now` exceeds the maximum
    /// duration, then the oldest packets but the last while over the byte budget.
    fn evict_old_packets(
        inner: &mut BufferInner,
        max_duration_secs: u32,
        now: u64,
        Ghost(s): Ghost<Seq<Packet>>,
    )
        requires
            unarc(old(inner).packets@) == s,
            old(inner).total_bytes == seq_bytes(s),
        ensures
            unarc(final(inner).packets@) == pushed_contents(
                s,
                age_cut(s, now, max_age_nanos(max_duration_secs)),
                old(inner).max_bytes as int,
            ),
            final(inner).total_bytes == seq_bytes(unarc(final(inner).packets@)),
            final(inner).max_bytes == old(inner).max_bytes,
    {
        let max_age: u64 = max_duration_secs as u64 * 1_000_000_000;
        let ghost m = max_age_nanos(max_duration_secs);
        let ghost mut i: int = 0;
        assert(s.skip(0) =~= s);
        loop
            invariant_except_break
                max_age == m,
                0 <= i <= s.len(),
                unarc(inner.packets@) == s.skip(i),
                inner.total_bytes == seq_bytes(s.skip(i)),
                inner.max_bytes == old(inner).max_bytes,
                age_cut(s, now, m) == i + age_cut(s.skip(i), now, m),
            ensures
                0 <= i <= s.len(),
                unarc(inner.packets@) == s.skip(i),
                inner.total_bytes == seq_bytes(s.skip(i)),
                inner.max_bytes == old(inner).max_bytes,
                age_cut(s, now, m) == i,
            decreases s.len() - i,
        {
            if inner.packets.len() == 0 {
                proof {
                    assert(s.skip(i).len() == 0);
                }
                break;
            }
            let ts = inner.packets[0].timestamp;
            let age: u64 = if now >= ts {
                now - ts
            } else {
                0
            };
            proof {
                lemma_skip_step(s, i);
                assert(age == packet_age(now, s.skip(i)[0]));
            }
            if age <= max_age {
                break;
            }
            proof {
                lemma_seq_bytes_drop_first(s.skip(i));
                lemma_unarc_drop_first(inner.packets@);
            }
            let removed = inner.packets.pop_front();
            match removed {
                Some(p) => {
                    let n = p.len();
                    inner.total_bytes = inner.total_bytes - n;
                },
                None => {},
            }
            proof {
                i = i + 1;
            }
        }
        let ghost k_age = i;
        let ghost mut k: int = i;
        let max_bytes = inner.max_bytes;
        while inner.total_bytes > max_bytes && inner.packets.len() > 1
            invariant
                0 <= k_age <= k <= s.len(),
                k_age == age_cut(s, now, m),
                unarc(inner.packets@) == s.skip(k),
                inner.total_bytes == seq_bytes(s.skip(k)),
                inner.max_bytes == max_bytes,
                max_bytes == old(inner).max_bytes,
                size_cut(s, k_age, max_bytes as int) == size_cut(s, k, max_bytes as int),
            decreases s.len() - k,
        {
            proof {
                lemma_skip_step(s, k);
                lemma_seq_bytes_drop_first(s.skip(k));
                lemma_unarc_drop_first(inner.packets@);
                assert(size_cut(s, k, max_bytes as int) == size_cut(s, k + 1, max_bytes as int));
            }
            let removed = inner.packets.pop_front();
            match removed {
                Some(p) => {
                    let n = p.len();
                    inner.total_bytes = inner.total_bytes - n;
                },
                None => {},
            }
            proof {
                k = k + 1;
            }
        }
        proof {
            assert(size_cut(s, k, max_bytes as int) == k);
        }
    }

    /// Returns the packets of the last `duration_secs` plus the GOP overfetch:
    /// all packets from the first whose PTS is at least
    /// `last_pts - (duration_secs + gop_secs) * fps` on.
    pub fn get_packets_for_duration(&self, duration_secs: u32) -> (r: Vec<Arc<Packet>>)
        requires
            self.window_fits(duration_secs),
        ensures
            self.packets().len() == 0 ==> r@.len() == 0,
            self.packets().len() > 0 ==> unarc(r@) == self.packets().skip(
                first_at_or_after(self.packets(), self.cutoff_for(duration_secs)),
            ),
            self.packets().len() > 0 ==> ({
                let s = self.packets();
                let cutoff = s.last().pts - (duration_secs + self.gop_secs()) * self.fps();
                let omitted = s.len() - r@.len();
                &&& 1 <= r@.len() <= s.len()
                &&& unarc(r@) == s.skip(omitted)
                &&& (*r@[0]).pts >= cutoff
                &&& forall|i: int| 0 <= i < omitted ==> (#[trigger] s[i]).pts < cutoff
            }),
    {
        proof {
            if self.packets().len() > 0 {
                lemma_window_exact(self.packets(), self.cutoff_for(duration_secs));
            }
        }
        let n = self.inner.packets.len();
        if n == 0 {
            return Vec::new();
        }
        let ghost ps = self.packets();
        let last_pts = self.inner.packets[n - 1].pts;
        let gop_secs = self.gop_secs as i64;
        let fps = self.fps as i64;
        let fetch_secs = duration_secs as i64 + gop_secs;
        let cutoff_pts = last_pts - fetch_secs * fps;
        let mut start_idx: usize = 0;
        assert(ps.skip(0) =~= ps);
        while start_idx < n && self.inner.packets[start_idx].pts < cutoff_pts
            invariant
                n == self.inner.packets@.len(),
                ps == self.packets(),
                ps.len() == n,
                cutoff_pts == self.cutoff_for(duration_secs),
                start_idx <= n,
                first_at_or_after(ps, cutoff_pts as int) == start_idx + first_at_or_after(
                    ps.skip(start_idx as int),
                    cutoff_pts as int,
                ),
            decreases n - start_idx,
        {
            proof {
                let t = ps.skip(start_idx as int);
                assert(t[0] == ps[start_idx as int]);
                assert(t.drop_first() =~= ps.skip(start_idx + 1));
            }
            start_idx = start_idx + 1;
        }
        proof {
            let t = ps.skip(start_idx as int);
            if start_idx < n {
                assert(t[0] == ps[start_idx as int]);
            }
        }
        let mut packets: Vec<Arc<Packet>> = Vec::with_capacity(n - start_idx);
        let mut i: usize = start_idx;
        while i < n
            invariant
                n == self.inner.packets@.len(),
                ps == self.packets(),
                start_idx <= i <= n,
                unarc(packets@) == ps.subrange(start_idx as int, i as int),
            decreases n - i,
        {
            let p = share(&self.inner.packets[i]);
            proof {
                lemma_unarc_push(packets@, p);
            }
            packets.push(p);
            i = i + 1;
            proof {
                assert(ps.subrange(start_idx as int, i as int) =~= ps.subrange(
                    start_idx as int,
                    i - 1,
                ).push(ps[i - 1]));
            }
        }
        proof {
            assert(ps.subrange(start_idx as int, n as int) =~= ps.skip(start_idx as int));
        }
        packets
    }

    /// Occupancy: packet count, bytes held, byte budget and the PTS span in seconds.
    pub fn stats(&self) -> (r: BufferStats)
        requires
            self.span_fits(),
        ensures
            r.packet_count == self.packets().len(),
            r.total_bytes == self.total_bytes(),
            r.max_bytes == self.max_bytes(),
            r.duration_secs == self.spec_duration_secs(),
    {
        proof {
            use_type_invariant(self);
        }
        let n = self.inner.packets.len();
        let duration_secs: u32 = if n >= 2 {
            let first_pts = self.inner.packets[0].pts;
            let last_pts = self.inner.packets[n - 1].pts;
            let span = last_pts - first_pts;
            let q: i128 = if span >= 0 {
                (span as u64 / self.fps as u64) as i128
            } else {
                let magnitude = (-(span as i128)) as u64;
                -((magnitude / self.fps as u64) as i128)
            };
            #[verifier::truncate]
            (q as u32)
        } else {
            0
        };
        BufferStats {
            packet_count: n,
            total_bytes: self.inner.total_bytes,
            max_bytes: self.inner.max_bytes,
            duration_secs,
        }
    }

    /// Removes all packets; the byte budget and settings stay.
    pub fn clear(&mut self)
        ensures
            final(self).packets() == Seq::<Packet>::empty(),
            final(self).max_bytes() == old(self).max_bytes(),
            final(self).max_duration_secs() == old(self).max_duration_secs(),
            final(self).fps() == old(self).fps(),
            final(self).gop_secs() == old(self).gop_secs(),
            final(self).codec_extradata() == old(self).codec_extradata(),
            final(self).audio_params() == old(self).audio_params(),
            final(self).latest_reading() == old(self).latest_reading(),
    {
        let packets: VecDeque<Arc<Packet>> = VecDeque::new();
        proof {
            assert(unarc(packets@) =~= Seq::<Packet>::empty());
        }
        self.inner = BufferInner { packets, total_bytes: 0, max_bytes: self.inner.max_bytes };
    }

    /// Changes the age limit, timebase, overfetch and byte budget; held packets stay.
    pub fn reconfigure(&mut self, max_duration_secs: u32, fps: u32, bitrate_kbps: usize, gop_secs: u32)
        requires
            max_bytes_fits(bitrate_kbps as int, max_duration_secs as int),
        ensures
            final(self).packets() == old(self).packets(),
            final(self).max_bytes() == spec_max_bytes(bitrate_kbps as int, max_duration_secs as int),
            final(self).max_duration_secs() == max_duration_secs,
            final(self).fps() == fps,
            final(self).gop_secs() == gop_secs,
            final(self).codec_extradata() == old(self).codec_extradata(),
            final(self).audio_params() == old(self).audio_params(),
            final(self).latest_reading() == old(self).latest_reading(),
    {
        proof {
            use_type_invariant(&*self);
        }
        self.max_duration_secs = max_duration_secs;
        self.fps = fps;
        self.gop_secs = gop_secs;
        let max_bytes = max_bytes_for(bitrate_kbps, max_duration_secs);
        self.inner.max_bytes = max_bytes;
    }

    /// Sets the codec extradata; only the first value set is kept.
    pub fn set_codec_extradata(&mut self, data: Vec<u8>)
        ensures
            final(self).codec_extradata() == set_once(old(self).codec_extradata(), data@),
            final(self).packets() == old(self).packets(),
            final(self).max_bytes() == old(self).max_bytes(),
            final(self).max_duration_secs() == old(self).max_duration_secs(),
            final(self).fps() == old(self).fps(),
            final(self).gop_secs() == old(self).gop_secs(),
            final(self).audio_params() == old(self).audio_params(),
            final(self).latest_reading() == old(self).latest_reading(),
    {
        proof {
            use_type_invariant(&*self);
        }
        if self.codec_extradata.is_none() {
            self.codec_extradata = Some(data);
        }
    }

    /// A copy of the codec extradata, if set.
    pub fn get_codec_extradata(&self) -> (r: Option<Vec<u8>>)
        ensures
            r.is_some() == self.codec_extradata().is_some(),
            r.is_some() ==> r.unwrap()@ == self.codec_extradata().unwrap(),
    {
        match &self.codec_extradata {
            Some(v) => Some(copy_bytes(v)),
            None => None,
        }
    }

    /// Sets the audio parameters; only the first value set is kept.
    pub fn set_audio_params(&mut self, params: AudioParams)
        ensures
            final(self).audio_params() == set_once(old(self).audio_params(), params),
            final(self).packets() == old(self).packets(),
            final(self).max_bytes() == old(self).max_bytes(),
            final(self).max_duration_secs() == old(self).max_duration_secs(),
            final(self).fps() == old(self).fps(),
            final(self).gop_secs() == old(self).gop_secs(),
            final(self).codec_extradata() == old(self).codec_extradata(),
            final(self).latest_reading() == old(self).latest_reading(),
    {
        proof {
            use_type_invariant(&*self);
        }
        if self.audio_params.is_none() {
            self.audio_params = Some(params);
        }
    }

    /// A copy of the audio parameters, if set.
    pub fn get_audio_params(&self) -> (r: Option<AudioParams>)
        ensures
            r.is_some() == self.audio_params().is_some(),
            r.is_some() ==> r.unwrap().same(self.audio_params().unwrap()),
    {
        match &self.audio_params {
            Some(a) => Some(a.clone()),
            None => None,
        }
    }
}

/// Law: what a push leaves fits the byte budget, unless at most one packet remains.
pub proof fn lemma_push_within_budget(s: Seq<Packet>, k: int, max: int)
    requires
        0 <= k <= s.len(),
    ensures
        seq_bytes(pushed_contents(s, k, max)) <= max || pushed_contents(s, k, max).len() <= 1,
{
    lemma_size_cut(s, k, max);
}

/// Law: a push keeps insertion order: what it leaves is the tail of the old
/// contents followed by the new packet, which stays unless it is itself older
/// than the age limit.
pub proof fn lemma_push_keeps_order(old: Seq<Packet>, p: Packet, k: int, max: int)
    requires
        0 <= k <= old.len() + 1,
    ensures
        ({
            let r = pushed_contents(old.push(p), k, max);
            &&& r.len() <= old.len() + 1
            &&& forall|i: int|
                0 <= i < r.len() ==> #[trigger] r[i] == old.push(p)[old.len() + 1 - r.len() + i]
            &&& k <= old.len() ==> r.len() >= 1 && r.last() == p
        }),
{
    let s = old.push(p);
    lemma_size_cut(s, k, max);
}

/// Law: packets are evicted for size only while the contents exceed the
/// budget: had the last packet evicted for size stayed, the budget would be
/// exceeded.
pub proof fn lemma_size_eviction_minimal(s: Seq<Packet>, k: int, max: int)
    requires
        0 <= k <= s.len(),
        size_cut(s, k, max) > k,
    ensures
        seq_bytes(s.skip(size_cut(s, k, max) - 1)) > max,
    decreases s.len() - k,
{
    if size_cut(s, k + 1, max) > k + 1 {
        lemma_size_eviction_minimal(s, k + 1, max);
    }
}

/// Whether packets are in non-decreasing PTS order.
pub open spec fn pts_ordered(s: Seq<Packet>) -> bool {
    forall|i: int, j: int| 0 <= i <= j < s.len() ==> s[i].pts <= s[j].pts
}

/// Law: a retrieval window leaves out only packets whose PTS is below the
/// cutoff, and on PTS-ordered contents it holds exactly the packets whose PTS
/// is at least the cutoff.
pub proof fn lemma_window_exact(s: Seq<Packet>, cutoff: int)
    ensures
        0 <= first_at_or_after(s, cutoff) <= s.len(),
        forall|i: int| 0 <= i < first_at_or_after(s, cutoff) ==> (#[trigger] s[i]).pts < cutoff,
        pts_ordered(s) ==> forall|i: int|
            first_at_or_after(s, cutoff) <= i < s.len() ==> (#[trigger] s[i]).pts >= cutoff,
    decreases s.len(),
{
    if s.len() > 0 && s[0].pts < cutoff {
        let t = s.drop_first();
        lemma_window_exact(t, cutoff);
        assert forall|i: int| 0 <= i < first_at_or_after(s, cutoff) implies (#[trigger] s[i]).pts
            < cutoff by {
            if i > 0 {
                assert(s[i] == t[i - 1]);
            }
        }
        if pts_ordered(s) {
            assert(pts_ordered(t)) by {
                assert forall|i: int, j: int| 0 <= i <= j < t.len() implies t[i].pts <= t[j].pts by {
                    assert(t[i] == s[i + 1] && t[j] == s[j + 1]);
                }
            }
            assert forall|i: int| first_at_or_after(s, cutoff) <= i < s.len() implies (
            #[trigger] s[i]).pts >= cutoff by {
                assert(s[i] == t[i - 1]);
            }
        }
    } else if s.len() > 0 && pts_ordered(s) {
        assert forall|i: int| first_at_or_after(s, cutoff) <= i < s.len() implies (
        #[trigger] s[i]).pts >= cutoff by {
            assert(s[0].pts <= s[i].pts);
        }
    }
}

/// Law: pushing packets in PTS order keeps the contents in PTS order, so that a
/// retrieval window (`lemma_window_exact`) holds exactly the packets at or
/// after its cutoff.
pub proof fn lemma_push_keeps_pts_order(old: Seq<Packet>, p: Packet, k: int, max: int)
    requires
        0 <= k <= old.len() + 1,
        pts_ordered(old),
        old.len() > 0 ==> old.last().pts <= p.pts,
    ensures
        pts_ordered(pushed_contents(old.push(p), k, max)),
{
    let s = old.push(p);
    lemma_size_cut(s, k, max);
    assert(pts_ordered(s)) by {
        assert forall|i: int, j: int| 0 <= i <= j < s.len() implies s[i].pts <= s[j].pts by {
            if j == s.len() - 1 && i < j {
                assert(old[i].pts <= old.last().pts);
            }
        }
    }
    let c = size_cut(s, k, max);
    let r = s.skip(c);
    assert forall|i: int, j: int| 0 <= i <= j < r.len() implies r[i].pts <= r[j].pts by {
        assert(r[i] == s[i + c] && r[j] == s[j + c]);
    }
}

/// Whether packets are in non-decreasing capture-time order (pushed as captured).
pub open spec fn timestamps_ordered(s: Seq<Packet>) -> bool {
    forall|i: int, j: int| 0 <= i <= j < s.len() ==> s[i].timestamp <= s[j].timestamp
}

/// The age cut is the first packet not older than the limit (or the length):
/// every packet before it is older than the limit.
pub proof fn lemma_age_cut(s: Seq<Packet>, now: u64, max_age: int)
    ensures
        0 <= age_cut(s, now, max_age) <= s.len(),
        forall|i: int| 0 <= i < age_cut(s, now, max_age) ==> packet_age(now, #[trigger] s[i]) > max_age,
        age_cut(s, now, max_age) < s.len() ==> packet_age(now, s[age_cut(s, now, max_age)]) <= max_age,
    decreases s.len(),
{
    if s.len() > 0 && packet_age(now, s[0]) > max_age {
        let t = s.drop_first();
        lemma_age_cut(t, now, max_age);
        assert forall|i: int| 0 <= i < age_cut(s, now, max_age) implies packet_age(
            now,
            #[trigger] s[i],
        ) > max_age by {
            if i > 0 {
                assert(s[i] == t[i - 1]);
            }
        }
    }
}

/// Law: a push evicts for age exactly the packets older than the limit. With
/// packets pushed in capture order, at any clock reading: every packet evicted
/// for age is older than the limit, no packet older than the limit remains, and
/// the new packet stays unless it is itself older than the limit.
pub proof fn lemma_push_evicts_exactly_aged(old: Seq<Packet>, p: Packet, now: u64, max_age: int, max: int)
    requires
        timestamps_ordered(old.push(p)),
    ensures
        ({
            let s = old.push(p);
            let k = age_cut(s, now, max_age);
            let r = pushed_contents(s, k, max);
            &&& forall|i: int| 0 <= i < k ==> packet_age(now, #[trigger] s[i]) > max_age
            &&& forall|i: int| 0 <= i < r.len() ==> packet_age(now, #[trigger] r[i]) <= max_age
            &&& packet_age(now, p) <= max_age ==> r.len() >= 1 && r.last() == p
        }),
{
    let s = old.push(p);
    lemma_age_cut(s, now, max_age);
    let k = age_cut(s, now, max_age);
    lemma_size_cut(s, k, max);
    let c = size_cut(s, k, max);
    let r = pushed_contents(s, k, max);
    assert forall|i: int| 0 <= i < r.len() implies packet_age(now, #[trigger] r[i]) <= max_age by {
        assert(r[i] == s[i + c]);
        assert(s[k].timestamp <= s[i + c].timestamp);
    }
    if packet_age(now, p) <= max_age {
        assert(s[s.len() - 1] == p);
        if k == s.len() {
            assert(false);
        }
        lemma_push_keeps_order(old, p, k, max);
    }
}

/// Law: after a push aged at clock reading `now` (which `push` takes at least
/// as late as the new packet's stamp), with packets pushed in capture order, no
/// kept packet is more than `max_duration_secs` seconds older than `now`, and
/// the new packet is kept when it is within the limit itself.
pub proof fn lemma_push_leaves_no_stale_packet(
    before: Seq<Packet>,
    p: Packet,
    now: u64,
    max_duration_secs: u32,
    max_bytes: usize,
    after: Seq<Packet>,
)
    requires
        timestamps_ordered(before.push(p)),
        now >= p.timestamp,
        final_state_at(before, p, now, max_duration_secs, max_bytes, after),
    ensures
        forall|i: int| 0 <= i < after.len() ==> now <= (#[trigger] after[i]).timestamp + max_duration_secs * 1_000_000_000,
        now <= p.timestamp + max_duration_secs * 1_000_000_000 ==> after.len() >= 1 && after.last() == p,
{
    let m = max_age_nanos(max_duration_secs);
    lemma_push_evicts_exactly_aged(before, p, now, m, max_bytes as int);
    assert forall|i: int| 0 <= i < after.len() implies now <= (#[trigger] after[i]).timestamp
        + max_duration_secs * 1_000_000_000 by {
        assert(packet_age(now, after[i]) <= m);
    }
}

/// Law: the retrieval cutoff is a PTS value, `duration + gop` seconds of
/// frames before the last packet's PTS: `last_pts - (duration_secs +
/// gop_secs) * fps`, whatever the number of packets or their interleaving.
pub proof fn lemma_cutoff_is_pts_window(b: PacketBuffer, duration_secs: u32)
    requires
        b.packets().len() > 0,
    ensures
        b.cutoff_for(duration_secs) == b.packets()[b.packets().len() - 1].pts - (duration_secs
            + b.gop_secs()) * b.fps(),
{
}

/// Law: the byte budget is 1.25 times `duration_secs` seconds of
/// `bitrate_kbps` (kibibits per second, 128 bytes each), rounded down.
pub proof fn lemma_max_bytes_is_headroom_of_bitrate(bitrate_kbps: int, duration_secs: int)
    requires
        bitrate_kbps >= 0,
        duration_secs >= 0,
    ensures
        4 * spec_max_bytes(bitrate_kbps, duration_secs) <= 5 * (bitrate_kbps * 128 * duration_secs),
        5 * (bitrate_kbps * 128 * duration_secs) < 4 * spec_max_bytes(bitrate_kbps, duration_secs) + 4,
{
    let x = bitrate_kbps * 128 * duration_secs;
    assert(bitrate_kbps * 1024 / 8 == bitrate_kbps * 128);
    assert((bitrate_kbps * 1024 / 8) * duration_secs == x);
    assert(x * 5 >= 0) by (nonlinear_arith)
        requires
            x == bitrate_kbps * 128 * duration_secs,
            bitrate_kbps >= 0,
            duration_secs >= 0,
    ;
}

/// Law: division rounded toward zero: the quotient times the divisor has the
/// dividend's sign and is within one divisor of it, never beyond it.
pub proof fn lemma_trunc_div_toward_zero(a: int, b: int)
    requires
        b > 0,
    ensures
        a >= 0 ==> 0 <= trunc_div(a, b) * b <= a < trunc_div(a, b) * b + b,
        a < 0 ==> trunc_div(a, b) * b - b < a <= trunc_div(a, b) * b <= 0,
{
    if a >= 0 {
        assert(0 <= (a / b) * b <= a < (a / b) * b + b) by (nonlinear_arith)
            requires
                a >= 0,
                b > 0,
        ;
    } else {
        let m = -a;
        assert(0 <= (m / b) * b <= m < (m / b) * b + b) by (nonlinear_arith)
            requires
                m > 0,
                b > 0,
        ;
        assert(trunc_div(a, b) * b == -((m / b) * b)) by (nonlinear_arith)
            requires
                trunc_div(a, b) == -(m / b),
        ;
    }
}

/// Law: the byte budget grows with the bitrate and with the duration.
pub proof fn lemma_max_bytes_monotone(b1: int, d1: int, b2: int, d2: int)
    requires
        0 <= b1 <= b2,
        0 <= d1 <= d2,
    ensures
        spec_max_bytes(b1, d1) <= spec_max_bytes(b2, d2),
{
    let p1 = b1 * 1024 / 8;
    let p2 = b2 * 1024 / 8;
    assert(p1 <= p2) by (nonlinear_arith)
        requires
            0 <= b1 <= b2,
            p1 == b1 * 1024 / 8,
            p2 == b2 * 1024 / 8,
    ;
    assert(p1 * d1 * 5 <= p2 * d2 * 5) by (nonlinear_arith)
        requires
            0 <= p1 <= p2,
            0 <= d1 <= d2,
    ;
    assert(p1 * d1 * 5 / 4 <= p2 * d2 * 5 / 4) by (nonlinear_arith)
        requires
            0 <= p1 * d1 * 5 <= p2 * d2 * 5,
    ;
}

/// Law: once a value is set, setting another keeps the first.
pub proof fn lemma_set_once_keeps_first<T>(current: Option<T>, a: T, b: T)
    ensures
        set_once(set_once(current, a), b) == set_once(current, a),
        current is None ==> set_once(set_once(current, a), b) == Some(a),
{
}

} // verus!

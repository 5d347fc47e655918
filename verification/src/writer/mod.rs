//! Video file writer for saving replay clips: the stream parameters of the
//! output container and the plan of what is written to which stream with which
//! timestamps. The container itself is written by the muxer outside the library.

use crate::buffer::{copy_bytes, share, unarc, AudioParams, Packet, PacketType};
use crate::config::Config;
use crate::error::{owned, MebalError};
use std::sync::Arc;
use vstd::prelude::*;

verus! {

/// Video stream parameters for the output container.
#[derive(Debug)]
pub struct VideoParams {
    pub width: u32,
    pub height: u32,
    pub fps: u32,
    pub bitrate_kbps: usize,
    pub extradata: Vec<u8>,
}

/// Video writer for saving replay clips.
pub struct VideoWriter {
    video_params: VideoParams,
    audio_params: Option<AudioParams>,
    audio_bitrate_kbps: usize,
}

/// Index of the first video keyframe (the length if none); audio keyframes do not count.
pub open spec fn first_video_keyframe(s: Seq<Packet>) -> int
    decreases s.len(),
{
    if s.len() == 0 {
        0
    } else if s[0].is_video_keyframe() {
        0
    } else {
        1 + first_video_keyframe(s.drop_first())
    }
}

/// The first video keyframe is within the packets, no packet before it is a
/// video keyframe, and it is one unless it is the length.
pub proof fn lemma_first_video_keyframe(s: Seq<Packet>)
    ensures
        0 <= first_video_keyframe(s) <= s.len(),
        forall|i: int| 0 <= i < first_video_keyframe(s) ==> !(#[trigger] s[i]).is_video_keyframe(),
        first_video_keyframe(s) < s.len() ==> s[first_video_keyframe(s)].is_video_keyframe(),
    decreases s.len(),
{
    if s.len() > 0 && !s[0].is_video_keyframe() {
        lemma_first_video_keyframe(s.drop_first());
        assert forall|i: int| 0 <= i < first_video_keyframe(s) implies !(
        #[trigger] s[i]).is_video_keyframe() by {
            if i > 0 {
                assert(s[i] == s.drop_first()[i - 1]);
            }
        }
    }
}

/// Find the index of the first video keyframe (ignores audio keyframes).
pub fn find_first_keyframe(packets: &[Arc<Packet>]) -> (r: Option<usize>)
    ensures
        first_video_keyframe(unarc(packets@)) < packets@.len() ==> r == Some(
            first_video_keyframe(unarc(packets@)) as usize,
        ),
        first_video_keyframe(unarc(packets@)) == packets@.len() ==> r is None,
{
    let ghost s = unarc(packets@);
    proof {
        lemma_first_video_keyframe(s);
    }
    let mut i: usize = 0;
    while i < packets.len()
        invariant
            s == unarc(packets@),
            i <= packets@.len(),
            forall|j: int| 0 <= j < i ==> !(#[trigger] s[j]).is_video_keyframe(),
        decreases packets.len() - i,
    {
        if packets[i].is_keyframe && packets[i].packet_type == PacketType::Video {
            proof {
                lemma_first_video_keyframe_at(s, i as int);
            }
            return Some(i);
        }
        i = i + 1;
    }
    proof {
        lemma_first_video_keyframe_none(s);
    }
    None
}

/// A video keyframe with none before it is the first.
proof fn lemma_first_video_keyframe_at(s: Seq<Packet>, i: int)
    requires
        0 <= i < s.len(),
        s[i].is_video_keyframe(),
        forall|j: int| 0 <= j < i ==> !(#[trigger] s[j]).is_video_keyframe(),
    ensures
        first_video_keyframe(s) == i,
    decreases i,
{
    if i > 0 {
        assert forall|j: int| 0 <= j < i - 1 implies !(
        #[trigger] s.drop_first()[j]).is_video_keyframe() by {
            assert(s.drop_first()[j] == s[j + 1]);
        }
        lemma_first_video_keyframe_at(s.drop_first(), i - 1);
    }
}

/// Without a video keyframe the first is at the length.
proof fn lemma_first_video_keyframe_none(s: Seq<Packet>)
    requires
        forall|j: int| 0 <= j < s.len() ==> !(#[trigger] s[j]).is_video_keyframe(),
    ensures
        first_video_keyframe(s) == s.len(),
    decreases s.len(),
{
    if s.len() > 0 {
        assert forall|j: int| 0 <= j < s.len() - 1 implies !(
        #[trigger] s.drop_first()[j]).is_video_keyframe() by {
            assert(s.drop_first()[j] == s[j + 1]);
        }
        lemma_first_video_keyframe_none(s.drop_first());
    }
}

/// Trimmed packets: from the first video keyframe on, or none if there is none.
pub open spec fn spec_trim(s: Seq<Packet>) -> Seq<Packet> {
    if first_video_keyframe(s) < s.len() {
        s.skip(first_video_keyframe(s))
    } else {
        Seq::<Packet>::empty()
    }
}

/// Trim packets to start from a keyframe; empty when there is no video keyframe.
pub fn trim_to_keyframe(packets: Vec<Arc<Packet>>) -> (r: Vec<Arc<Packet>>)
    ensures
        unarc(r@) == spec_trim(unarc(packets@)),
{
    let ghost s = unarc(packets@);
    proof {
        lemma_first_video_keyframe(s);
    }
    let n = packets.len();
    let sl = packets.as_slice();
    assert(unarc(sl@) == s);
    assert(s.len() == n);
    let found = find_first_keyframe(sl);
    match found {
        Some(keyframe_idx) => {
            assert(first_video_keyframe(s) == keyframe_idx);
            let mut rest = packets;
            let tail = rest.split_off(keyframe_idx);
            proof {
                assert(unarc(tail@) =~= s.skip(keyframe_idx as int));
            }
            tail
        },
        None => {
            assert(first_video_keyframe(s) == s.len());
            let r: Vec<Arc<Packet>> = Vec::new();
            proof {
                assert(unarc(r@) =~= Seq::<Packet>::empty());
            }
            r
        },
    }
}

/// Where a packet goes in the output and with which rebased timestamps.
#[derive(Debug, Clone, Copy, PartialEq, Eq, Structural)]
pub struct MuxEntry {
    /// Index of the packet among the trimmed packets.
    pub packet_index: usize,
    /// The stream the packet is written to.
    pub stream: PacketType,
    /// PTS, rebased so that the stream starts at 0.
    pub pts: i64,
    /// DTS, rebased so that the stream starts at 0.
    pub dts: i64,
}

/// Rebasing offsets: the PTS and DTS of the first packet of each stream (0 if none).
pub struct StreamOffsets {
    pub video_pts: i64,
    pub video_dts: i64,
    pub audio_pts: i64,
    pub audio_dts: i64,
}

/// Index of the first packet of the given type (the length if none).
pub open spec fn first_of_type(s: Seq<Packet>, t: PacketType) -> int
    decreases s.len(),
{
    if s.len() == 0 {
        0
    } else if s[0].packet_type == t {
        0
    } else {
        1 + first_of_type(s.drop_first(), t)
    }
}

/// The PTS of the first packet of type `t`, or 0.
pub open spec fn first_pts(s: Seq<Packet>, t: PacketType) -> i64 {
    if first_of_type(s, t) < s.len() {
        s[first_of_type(s, t)].pts
    } else {
        0
    }
}

/// The DTS of the first packet of type `t`, or 0.
pub open spec fn first_dts(s: Seq<Packet>, t: PacketType) -> i64 {
    if first_of_type(s, t) < s.len() {
        s[first_of_type(s, t)].dts
    } else {
        0
    }
}

/// The rebasing offsets of a packet sequence.
pub open spec fn spec_offsets(s: Seq<Packet>) -> StreamOffsets {
    StreamOffsets {
        video_pts: first_pts(s, PacketType::Video),
        video_dts: first_dts(s, PacketType::Video),
        audio_pts: first_pts(s, PacketType::Audio),
        audio_dts: first_dts(s, PacketType::Audio),
    }
}

/// The muxing plan of the first `n` packets, with the last audio DTS written.
/// Video packets are rebased to the first video packet. Audio packets, when
/// there is an audio stream, are rebased to the first audio packet, and one
/// whose rebased DTS is not above the last written audio DTS is skipped.
pub open spec fn mux_prefix(s: Seq<Packet>, n: int, has_audio: bool) -> (Seq<MuxEntry>, Option<int>)
    decreases n,
{
    if n <= 0 {
        (Seq::<MuxEntry>::empty(), None)
    } else {
        let (entries, last) = mux_prefix(s, n - 1, has_audio);
        let p = s[n - 1];
        let o = spec_offsets(s);
        if p.packet_type == PacketType::Video {
            (
                entries.push(
                    MuxEntry {
                        packet_index: (n - 1) as usize,
                        stream: PacketType::Video,
                        pts: (p.pts - o.video_pts) as i64,
                        dts: (p.dts - o.video_dts) as i64,
                    },
                ),
                last,
            )
        } else if !has_audio {
            (entries, last)
        } else {
            let rebased = p.dts - o.audio_dts;
            if last matches Some(l) && rebased <= l {
                (entries, last)
            } else {
                (
                    entries.push(
                        MuxEntry {
                            packet_index: (n - 1) as usize,
                            stream: PacketType::Audio,
                            pts: (p.pts - o.audio_pts) as i64,
                            dts: rebased as i64,
                        },
                    ),
                    Some(rebased),
                )
            }
        }
    }
}

/// Whether the `i`-th packet's timestamp arithmetic stays in `i64`.
pub open spec fn mux_step_fits(s: Seq<Packet>, i: int, has_audio: bool) -> bool {
    let p = s[i];
    let o = spec_offsets(s);
    let last = mux_prefix(s, i, has_audio).1;
    if p.packet_type == PacketType::Video {
        &&& i64::MIN <= p.pts - o.video_pts <= i64::MAX
        &&& i64::MIN <= p.dts - o.video_dts <= i64::MAX
    } else if !has_audio {
        true
    } else {
        &&& i64::MIN <= p.dts - o.audio_dts <= i64::MAX
        &&& !(last matches Some(l) && p.dts - o.audio_dts <= l) ==> i64::MIN <= p.pts
            - o.audio_pts <= i64::MAX
    }
}

/// Whether the timestamp arithmetic of muxing `s` stays in `i64`.
pub open spec fn mux_fits(s: Seq<Packet>, has_audio: bool) -> bool {
    forall|i: int| 0 <= i < s.len() ==> mux_step_fits(s, i, has_audio)
}

/// The muxing plan of a packet sequence.
pub open spec fn spec_mux_entries(s: Seq<Packet>, has_audio: bool) -> Seq<MuxEntry> {
    mux_prefix(s, s.len() as int, has_audio).0
}

/// What is written: the packets trimmed to a keyframe, and where each goes.
pub struct MuxPlan {
    pub packets: Vec<Arc<Packet>>,
    pub entries: Vec<MuxEntry>,
}

/// A packet of type `t` with none before it is the first of that type.
proof fn lemma_first_of_type_at(s: Seq<Packet>, t: PacketType, i: int)
    requires
        0 <= i < s.len(),
        s[i].packet_type == t,
        forall|j: int| 0 <= j < i ==> (#[trigger] s[j]).packet_type != t,
    ensures
        first_of_type(s, t) == i,
    decreases i,
{
    if i > 0 {
        assert forall|j: int| 0 <= j < i - 1 implies (#[trigger] s.drop_first()[j]).packet_type
            != t by {
            assert(s.drop_first()[j] == s[j + 1]);
        }
        lemma_first_of_type_at(s.drop_first(), t, i - 1);
    }
}

/// Without a packet of type `t` the first is at the length.
proof fn lemma_first_of_type_none(s: Seq<Packet>, t: PacketType)
    requires
        forall|j: int| 0 <= j < s.len() ==> (#[trigger] s[j]).packet_type != t,
    ensures
        first_of_type(s, t) == s.len(),
    decreases s.len(),
{
    if s.len() > 0 {
        assert forall|j: int| 0 <= j < s.len() - 1 implies (#[trigger] s.drop_first()[j]).packet_type
            != t by {
            assert(s.drop_first()[j] == s[j + 1]);
        }
        lemma_first_of_type_none(s.drop_first(), t);
    }
}

/// The PTS and DTS of the first packet of the given type, or zeros.
fn first_timestamps(packets: &Vec<Arc<Packet>>, t: PacketType) -> (r: (i64, i64))
    ensures
        r.0 == first_pts(unarc(packets@), t),
        r.1 == first_dts(unarc(packets@), t),
{
    let ghost s = unarc(packets@);
    let mut i: usize = 0;
    while i < packets.len()
        invariant
            s == unarc(packets@),
            i <= packets@.len(),
            forall|j: int| 0 <= j < i ==> (#[trigger] s[j]).packet_type != t,
        decreases packets.len() - i,
    {
        if packets[i].packet_type == t {
            proof {
                lemma_first_of_type_at(s, t, i as int);
            }
            return (packets[i].pts, packets[i].dts);
        }
        i = i + 1;
    }
    proof {
        lemma_first_of_type_none(s, t);
    }
    (0, 0)
}

/// The rebasing offsets of the packets.
pub fn stream_offsets(packets: &Vec<Arc<Packet>>) -> (r: StreamOffsets)
    ensures
        r == spec_offsets(unarc(packets@)),
{
    let (video_pts, video_dts) = first_timestamps(packets, PacketType::Video);
    let (audio_pts, audio_dts) = first_timestamps(packets, PacketType::Audio);
    StreamOffsets { video_pts, video_dts, audio_pts, audio_dts }
}

/// The muxing plan of trimmed packets: which packet goes to which stream with
/// which rebased timestamps.
pub fn mux_entries(packets: &Vec<Arc<Packet>>, has_audio: bool) -> (r: Vec<MuxEntry>)
    requires
        mux_fits(unarc(packets@), has_audio),
    ensures
        r@ == spec_mux_entries(unarc(packets@), has_audio),
{
    let ghost s = unarc(packets@);
    let o = stream_offsets(packets);
    let mut entries: Vec<MuxEntry> = Vec::new();
    let mut last_audio_dts: Option<i64> = None;
    let mut i: usize = 0;
    while i < packets.len()
        invariant
            s == unarc(packets@),
            o == spec_offsets(s),
            mux_fits(s, has_audio),
            i <= packets@.len(),
            mux_prefix(s, i as int, has_audio).0 == entries@,
            mux_prefix(s, i as int, has_audio).1 == (match last_audio_dts {
                Some(l) => Some(l as int),
                None => None,
            }),
        decreases packets.len() - i,
    {
        let p = &packets[i];
        proof {
            assert(mux_step_fits(s, i as int, has_audio));
        }
        match p.packet_type {
            PacketType::Video => {
                entries.push(
                    MuxEntry {
                        packet_index: i,
                        stream: PacketType::Video,
                        pts: p.pts - o.video_pts,
                        dts: p.dts - o.video_dts,
                    },
                );
            },
            PacketType::Audio => {
                if has_audio {
                    let rebased_dts = p.dts - o.audio_dts;
                    let skip = match last_audio_dts {
                        Some(last) => rebased_dts <= last,
                        None => false,
                    };
                    if !skip {
                        last_audio_dts = Some(rebased_dts);
                        entries.push(
                            MuxEntry {
                                packet_index: i,
                                stream: PacketType::Audio,
                                pts: p.pts - o.audio_pts,
                                dts: rebased_dts,
                            },
                        );
                    }
                }
            },
        }
        i = i + 1;
    }
    entries
}

/// New handles to the same packets.
pub fn share_all(packets: &Vec<Arc<Packet>>) -> (r: Vec<Arc<Packet>>)
    ensures
        unarc(r@) == unarc(packets@),
{
    let mut r: Vec<Arc<Packet>> = Vec::new();
    let mut i: usize = 0;
    while i < packets.len()
        invariant
            i <= packets@.len(),
            unarc(r@) == unarc(packets@).take(i as int),
        decreases packets.len() - i,
    {
        let p = share(&packets[i]);
        let ghost before = r@;
        r.push(p);
        proof {
            assert(unarc(r@) =~= unarc(before).push(*p));
            assert(unarc(packets@).take(i + 1) =~= unarc(packets@).take(i as int).push(*packets@[i as int]));
        }
        i = i + 1;
    }
    assert(unarc(packets@).take(packets@.len() as int) =~= unarc(packets@));
    r
}

/// Whether the timestamp arithmetic of muxing the packets stays in `i64`.
pub fn mux_fits_check(packets: &Vec<Arc<Packet>>, has_audio: bool) -> (r: bool)
    ensures
        r == mux_fits(unarc(packets@), has_audio),
{
    let ghost s = unarc(packets@);
    let o = stream_offsets(packets);
    let mut last_audio_dts: Option<i64> = None;
    let mut i: usize = 0;
    while i < packets.len()
        invariant
            s == unarc(packets@),
            o == spec_offsets(s),
            i <= packets@.len(),
            forall|j: int| 0 <= j < i ==> mux_step_fits(s, j, has_audio),
            mux_prefix(s, i as int, has_audio).1 == (match last_audio_dts {
                Some(l) => Some(l as int),
                None => None,
            }),
        decreases packets.len() - i,
    {
        let p = &packets[i];
        let in_range = |x: i128| -> (b: bool)
            ensures
                b == (i64::MIN <= x <= i64::MAX),
            { i64::MIN as i128 <= x && x <= i64::MAX as i128 };
        match p.packet_type {
            PacketType::Video => {
                let ok = in_range(p.pts as i128 - o.video_pts as i128) && in_range(
                    p.dts as i128 - o.video_dts as i128,
                );
                if !ok {
                    assert(!mux_step_fits(s, i as int, has_audio));
                    return false;
                }
            },
            PacketType::Audio => {
                if has_audio {
                    let rebased = p.dts as i128 - o.audio_dts as i128;
                    if !in_range(rebased) {
                        assert(!mux_step_fits(s, i as int, has_audio));
                        return false;
                    }
                    let rebased_dts = rebased as i64;
                    let skip = match last_audio_dts {
                        Some(last) => rebased_dts <= last,
                        None => false,
                    };
                    if !skip {
                        if !in_range(p.pts as i128 - o.audio_pts as i128) {
                            assert(!mux_step_fits(s, i as int, has_audio));
                            return false;
                        }
                        last_audio_dts = Some(rebased_dts);
                    }
                }
            },
        }
        proof {
            assert(mux_step_fits(s, i as int, has_audio));
        }
        i = i + 1;
    }
    true
}

/// The error a write gives for a packet list, if any: none to write, or no
/// video keyframe among them.
pub open spec fn spec_plan_error(s: Seq<Packet>) -> Option<Seq<char>> {
    if s.len() == 0 {
        Some("No packets to write"@)
    } else if spec_trim(s).len() == 0 {
        Some("No keyframe found in packets"@)
    } else {
        None
    }
}

impl VideoWriter {
    /// Parameters of the video stream.
    pub closed spec fn video_params_spec(&self) -> VideoParams {
        self.video_params
    }

    /// Parameters of the audio stream, when there is one.
    pub closed spec fn audio_params_spec(&self) -> Option<AudioParams> {
        self.audio_params
    }

    /// Bitrate of the audio stream in kbps.
    pub closed spec fn audio_bitrate_kbps_spec(&self) -> usize {
        self.audio_bitrate_kbps
    }

    /// A writer for the configured video stream, with the encoder's extradata
    /// and, when audio was captured, its parameters.
    pub fn new(config: &Config, codec_extradata: Vec<u8>, audio_params: Option<AudioParams>) -> (w: Self)
        ensures
            w.video_params_spec().width == config.resolution.0,
            w.video_params_spec().height == config.resolution.1,
            w.video_params_spec().fps == config.fps,
            w.video_params_spec().bitrate_kbps == config.bitrate_kbps,
            w.video_params_spec().extradata@ == codec_extradata@,
            w.audio_params_spec() == audio_params,
            w.audio_bitrate_kbps_spec() == config.audio_bitrate_kbps,
    {
        VideoWriter {
            video_params: VideoParams {
                width: config.resolution.0,
                height: config.resolution.1,
                fps: config.fps,
                bitrate_kbps: config.bitrate_kbps,
                extradata: codec_extradata,
            },
            audio_params,
            audio_bitrate_kbps: config.audio_bitrate_kbps,
        }
    }

    /// Parameters of the video stream.
    pub fn video_params(&self) -> (r: &VideoParams)
        ensures
            *r == self.video_params_spec(),
    {
        &self.video_params
    }

    /// Parameters of the audio stream, when there is one.
    pub fn audio_params(&self) -> (r: &Option<AudioParams>)
        ensures
            *r == self.audio_params_spec(),
    {
        &self.audio_params
    }

    /// Bitrate of the audio stream in kbps.
    pub fn audio_bitrate_kbps(&self) -> (r: usize)
        ensures
            r == self.audio_bitrate_kbps_spec(),
    {
        self.audio_bitrate_kbps
    }

    /// Whether `plan(packets)` can rebase the timestamps in `i64`.
    pub fn plan_defined(&self, packets: &Vec<Arc<Packet>>) -> (r: bool)
        ensures
            r == mux_fits(spec_trim(unarc(packets@)), self.audio_params_spec() is Some),
    {
        let copy = share_all(packets);
        let trimmed = trim_to_keyframe(copy);
        mux_fits_check(&trimmed, self.audio_params.is_some())
    }

    /// Plans a write: fails when there are no packets or no video keyframe;
    /// otherwise keeps the packets from the first video keyframe on and says
    /// where each goes. Audio packets are written only when the writer has
    /// audio parameters.
    pub fn plan(&self, packets: Vec<Arc<Packet>>) -> (r: Result<MuxPlan, MebalError>)
        requires
            mux_fits(spec_trim(unarc(packets@)), self.audio_params_spec() is Some),
        ensures
            match spec_plan_error(unarc(packets@)) {
                Some(msg) => r matches Err(MebalError::VideoWrite(m)) && m@ == msg,
                None => r matches Ok(plan) && unarc(plan.packets@) == spec_trim(unarc(packets@))
                    && plan.entries@ == spec_mux_entries(
                    spec_trim(unarc(packets@)),
                    self.audio_params_spec() is Some,
                ),
            },
    {
        if packets.len() == 0 {
            return Err(MebalError::VideoWrite(owned("No packets to write")));
        }
        let trimmed = trim_to_keyframe(packets);
        if trimmed.len() == 0 {
            return Err(MebalError::VideoWrite(owned("No keyframe found in packets")));
        }
        let has_audio = self.audio_params.is_some();
        let entries = mux_entries(&trimmed, has_audio);
        Ok(MuxPlan { packets: trimmed, entries })
    }
}

impl VideoParams {
    /// A copy of the parameters.
    pub fn duplicate(&self) -> (r: VideoParams)
        ensures
            r.width == self.width,
            r.height == self.height,
            r.fps == self.fps,
            r.bitrate_kbps == self.bitrate_kbps,
            r.extradata@ == self.extradata@,
    {
        VideoParams {
            width: self.width,
            height: self.height,
            fps: self.fps,
            bitrate_kbps: self.bitrate_kbps,
            extradata: copy_bytes(&self.extradata),
        }
    }
}

/// Law: trimming keeps the packets from the first video keyframe on: the
/// result is empty exactly when there is no video keyframe, and otherwise
/// starts with one and drops no video keyframe.
pub proof fn lemma_trim_starts_on_keyframe(s: Seq<Packet>)
    ensures
        spec_trim(s).len() == 0 <==> forall|i: int| 0 <= i < s.len() ==> !(#[trigger] s[i]).is_video_keyframe(),
        spec_trim(s).len() > 0 ==> {
            &&& spec_trim(s)[0].is_video_keyframe()
            &&& spec_trim(s) == s.skip(s.len() - spec_trim(s).len())
            &&& forall|i: int| 0 <= i < s.len() - spec_trim(s).len() ==> !(#[trigger] s[i]).is_video_keyframe()
        },
{
    lemma_first_video_keyframe(s);
    if first_video_keyframe(s) < s.len() {
        assert(s.skip(first_video_keyframe(s))[0] == s[first_video_keyframe(s)]);
    }
}

/// The audio entries of a plan prefix: each DTS is at most the last audio DTS
/// written, audio DTS strictly increase, and packet indices strictly increase.
proof fn lemma_mux_prefix_order(s: Seq<Packet>, n: int, has_audio: bool)
    requires
        0 <= n <= s.len(),
        s.len() <= usize::MAX,
        mux_fits(s, has_audio),
    ensures
        ({
            let (e, last) = mux_prefix(s, n, has_audio);
            &&& forall|i: int|
                0 <= i < e.len() && (#[trigger] e[i]).stream == PacketType::Audio ==> (last matches Some(l)
                    && e[i].dts as int <= l)
            &&& forall|i: int, j: int|
                0 <= i < j < e.len() && (#[trigger] e[i]).stream == PacketType::Audio && (
                #[trigger] e[j]).stream == PacketType::Audio ==> e[i].dts < e[j].dts
            &&& forall|i: int| 0 <= i < e.len() ==> (#[trigger] e[i]).packet_index < n
            &&& forall|i: int, j: int|
                0 <= i < j < e.len() ==> (#[trigger] e[i]).packet_index < (#[trigger] e[j]).packet_index
        }),
    decreases n,
{
    if n > 0 {
        lemma_mux_prefix_order(s, n - 1, has_audio);
        assert(mux_step_fits(s, n - 1, has_audio));
        let (e0, last0) = mux_prefix(s, n - 1, has_audio);
        let (e, last) = mux_prefix(s, n, has_audio);
        let p = s[n - 1];
        let o = spec_offsets(s);
        if e.len() == e0.len() + 1 {
            assert(forall|i: int| 0 <= i < e0.len() ==> e[i] == e0[i]);
            let x = e[e0.len() as int];
            assert(x.packet_index == n - 1);
            if x.stream == PacketType::Audio {
                let rebased = p.dts - o.audio_dts;
                assert(last == Some(rebased));
                assert(x.dts == rebased);
                assert(!(last0 matches Some(l) && rebased <= l));
            } else {
                assert(last == last0);
            }
            assert forall|i: int|
                0 <= i < e.len() && (#[trigger] e[i]).stream == PacketType::Audio implies (last matches Some(
                l) && e[i].dts as int <= l) by {
                if i < e0.len() {
                    assert(e[i] == e0[i]);
                }
            }
            assert forall|i: int, j: int|
                0 <= i < j < e.len() && (#[trigger] e[i]).stream == PacketType::Audio && (
                #[trigger] e[j]).stream == PacketType::Audio implies e[i].dts < e[j].dts by {
                assert(e[i] == e0[i]);
                if j < e0.len() {
                    assert(e[j] == e0[j]);
                }
            }
            assert forall|i: int, j: int|
                0 <= i < j < e.len() implies (#[trigger] e[i]).packet_index < (
                #[trigger] e[j]).packet_index by {
                assert(e[i] == e0[i]);
                if j < e0.len() {
                    assert(e[j] == e0[j]);
                }
            }
        } else {
            assert(e == e0);
            assert(last == last0);
        }
    }
}

/// Law: in a muxing plan, packets keep their order, and the audio DTS written
/// strictly increase (audio packets whose rebased DTS does not are skipped).
pub proof fn lemma_mux_order(s: Seq<Packet>, has_audio: bool)
    requires
        s.len() <= usize::MAX,
        mux_fits(s, has_audio),
    ensures
        ({
            let e = spec_mux_entries(s, has_audio);
            &&& forall|i: int| 0 <= i < e.len() ==> (#[trigger] e[i]).packet_index < s.len()
            &&& forall|i: int, j: int|
                0 <= i < j < e.len() ==> (#[trigger] e[i]).packet_index < (#[trigger] e[j]).packet_index
            &&& forall|i: int, j: int|
                0 <= i < j < e.len() && (#[trigger] e[i]).stream == PacketType::Audio && (
                #[trigger] e[j]).stream == PacketType::Audio ==> e[i].dts < e[j].dts
        }),
{
    lemma_mux_prefix_order(s, s.len() as int, has_audio);
}

/// Law: a plan of trimmed packets begins with the keyframe, written to the
/// video stream at PTS and DTS 0.
pub proof fn lemma_mux_starts_at_zero(s: Seq<Packet>, has_audio: bool)
    requires
        s.len() > 0,
        s[0].packet_type == PacketType::Video,
    ensures
        spec_mux_entries(s, has_audio).len() > 0,
        spec_mux_entries(s, has_audio)[0] == (MuxEntry {
            packet_index: 0,
            stream: PacketType::Video,
            pts: 0,
            dts: 0,
        }),
{
    lemma_mux_prefix_first(s, s.len() as int, has_audio);
}

/// A plan prefix of packets that start with video begins with that packet at 0.
proof fn lemma_mux_prefix_first(s: Seq<Packet>, n: int, has_audio: bool)
    requires
        1 <= n <= s.len(),
        s[0].packet_type == PacketType::Video,
    ensures
        mux_prefix(s, n, has_audio).0.len() > 0,
        mux_prefix(s, n, has_audio).0[0] == (MuxEntry {
            packet_index: 0,
            stream: PacketType::Video,
            pts: 0,
            dts: 0,
        }),
    decreases n,
{
    if n > 1 {
        lemma_mux_prefix_first(s, n - 1, has_audio);
    } else {
        assert(first_of_type(s, PacketType::Video) == 0);
        assert(mux_prefix(s, 0, has_audio).0.len() == 0);
    }
}

} // verus!

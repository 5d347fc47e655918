//! Packet representation for encoded media data.

use bytes::Bytes;
use vstd::prelude::*;

verus! {

/// `bytes::Bytes`, the reference-counted byte buffer a packet's payload lives in.
#[verifier::external_type_specification]
#[verifier::external_body]
pub struct ExBytes(Bytes);

/// The bytes that a `Bytes` buffer holds.
pub uninterp spec fn bytes_contents(b: Bytes) -> Seq<u8>;

/// Calls `Bytes::len`; claims that it is the number of bytes the buffer holds.
#[verifier::external_body]
fn bytes_len(b: &Bytes) -> (n: usize)
    ensures
        n == bytes_contents(*b).len(),
{
    b.len()
}

/// Calls `Bytes::from(Vec<u8>)`; claims that the new buffer holds the vector's bytes.
#[verifier::external_body]
fn bytes_from_vec(v: Vec<u8>) -> (b: Bytes)
    ensures
        bytes_contents(b) == v@,
{
    Bytes::from(v)
}

/// `Bytes::clone`: claims that the clone holds the same bytes.
pub assume_specification[ <Bytes as Clone>::clone ](b: &Bytes) -> (r: Bytes)
    ensures
        bytes_contents(r) == bytes_contents(*b),
;

/// Type of media packet.
#[derive(Debug, Clone, Copy, PartialEq, Eq, Structural)]
pub enum PacketType {
    /// Video frame data (H.264/H.265)
    Video,
    /// Audio data (AAC)
    Audio,
}

/// A packet of encoded media data.
#[derive(Clone)]
pub struct Packet {
    /// Raw encoded data
    pub data: Bytes,
    /// Type of packet
    pub packet_type: PacketType,
    /// Capture time, in nanoseconds on the buffer's clock (`PacketBuffer::clock_nanos`)
    pub timestamp: u64,
    /// Presentation timestamp (in buffer timebase: 1/fps)
    pub pts: i64,
    /// Decode timestamp (in buffer timebase: 1/fps)
    pub dts: i64,
    /// Duration (in stream timebase)
    pub duration: i64,
    /// Whether this is a keyframe
    pub is_keyframe: bool,
    /// Stream index from the encoder
    pub stream_index: usize,
}

impl Packet {
    /// Number of payload bytes.
    pub open spec fn size(self) -> nat {
        bytes_contents(self.data).len()
    }

    /// Whether this packet is a video keyframe (audio keyframes do not count).
    pub open spec fn is_video_keyframe(self) -> bool {
        self.is_keyframe && self.packet_type == PacketType::Video
    }

    /// Create a new packet with default timestamps.
    pub fn new(data: Vec<u8>, packet_type: PacketType, timestamp: u64) -> (p: Self)
        ensures
            bytes_contents(p.data) == data@,
            p.packet_type == packet_type,
            p.timestamp == timestamp,
            p.pts == 0,
            p.dts == 0,
            p.duration == 0,
            !p.is_keyframe,
            p.stream_index == 0,
    {
        Packet {
            data: bytes_from_vec(data),
            packet_type,
            timestamp,
            pts: 0,
            dts: 0,
            duration: 0,
            is_keyframe: false,
            stream_index: 0,
        }
    }

    /// Number of payload bytes.
    pub fn len(&self) -> (n: usize)
        ensures
            n == self.size(),
    {
        bytes_len(&self.data)
    }
}

/// Mask of the NAL unit type in the first byte of an H.264 NAL unit.
pub const H264_NAL_TYPE_MASK: u8 = 0x1F;

/// NAL unit type of an IDR slice (keyframe).
pub const H264_NAL_IDR: u8 = 5;

/// NAL unit type of a sequence parameter set.
pub const H264_NAL_SPS: u8 = 7;

/// NAL unit type of a picture parameter set.
pub const H264_NAL_PPS: u8 = 8;

/// The NAL unit type of an Annex-B H.264 unit: the low five bits of the byte
/// after a 4-byte or 3-byte start code, for units of at least five bytes.
pub open spec fn spec_nal_unit_type(d: Seq<u8>) -> Option<u8> {
    if d.len() < 5 {
        None
    } else if d[0] == 0 && d[1] == 0 && d[2] == 0 && d[3] == 1 {
        Some(d[4] & H264_NAL_TYPE_MASK)
    } else if d[0] == 0 && d[1] == 0 && d[2] == 1 {
        Some(d[3] & H264_NAL_TYPE_MASK)
    } else {
        None
    }
}

/// Reads the NAL unit type of an H.264 unit that starts with a start code.
pub fn h264_nal_unit_type(data: &[u8]) -> (r: Option<u8>)
    ensures
        r == spec_nal_unit_type(data@),
{
    if data.len() < 5 {
        return None;
    }
    let offset: usize = if data[0] == 0 && data[1] == 0 && data[2] == 0 && data[3] == 1 {
        4
    } else if data[0] == 0 && data[1] == 0 && data[2] == 1 {
        3
    } else {
        return None;
    };
    Some(data[offset] & H264_NAL_TYPE_MASK)
}

/// Whether a NAL unit type is an IDR slice.
pub fn is_h264_keyframe_nal(nal_type: u8) -> (r: bool)
    ensures
        r == (nal_type == H264_NAL_IDR),
{
    nal_type == H264_NAL_IDR
}

/// Whether the unit is a sequence parameter set.
pub fn is_h264_sps(data: &[u8]) -> (r: bool)
    ensures
        r == (spec_nal_unit_type(data@) == Some(H264_NAL_SPS)),
{
    match h264_nal_unit_type(data) {
        Some(t) => t == H264_NAL_SPS,
        None => false,
    }
}

/// Whether the unit is a picture parameter set.
pub fn is_h264_pps(data: &[u8]) -> (r: bool)
    ensures
        r == (spec_nal_unit_type(data@) == Some(H264_NAL_PPS)),
{
    match h264_nal_unit_type(data) {
        Some(t) => t == H264_NAL_PPS,
        None => false,
    }
}

} // verus!

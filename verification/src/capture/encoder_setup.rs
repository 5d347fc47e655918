//! Encoder setup for the hardware H.264 pipeline: which encoders are tried in
//! which order, and the settings and options each is opened with.

use crate::config::{Config, GOP_INTERVAL_SECS};
use crate::error::owned;
use vstd::prelude::*;

verus! {

/// Availability of one hardware encoder.
#[derive(Debug, Clone, PartialEq, Eq)]
pub struct EncoderInfo {
    pub name: String,
    pub available: bool,
}

/// The hardware encoders that are probed: FFmpeg codec name and display name.
pub open spec fn spec_known_encoders() -> Seq<(Seq<char>, Seq<char>)> {
    seq![("h264_nvenc"@, "NVIDIA NVENC"@), ("h264_amf"@, "AMD AMF"@)]
}

/// The hardware encoders that are probed: FFmpeg codec name and display name.
pub fn known_encoders() -> (r: Vec<(String, String)>)
    ensures
        r@.len() == spec_known_encoders().len(),
        forall|i: int|
            0 <= i < r@.len() ==> (#[trigger] r@[i]).0@ == spec_known_encoders()[i].0 && r@[i].1@
                == spec_known_encoders()[i].1,
{
    let mut r: Vec<(String, String)> = Vec::new();
    r.push((owned("h264_nvenc"), owned("NVIDIA NVENC")));
    r.push((owned("h264_amf"), owned("AMD AMF")));
    r
}

/// Pairs each known encoder's display name with whether its codec was found.
pub fn encoder_info(available: &Vec<bool>) -> (r: Vec<EncoderInfo>)
    requires
        available@.len() == spec_known_encoders().len(),
    ensures
        r@.len() == spec_known_encoders().len(),
        forall|i: int|
            0 <= i < r@.len() ==> (#[trigger] r@[i]).name@ == spec_known_encoders()[i].1
                && r@[i].available == available@[i],
{
    let known = known_encoders();
    let mut r: Vec<EncoderInfo> = Vec::new();
    let mut i: usize = 0;
    while i < known.len()
        invariant
            known@.len() == spec_known_encoders().len(),
            forall|j: int|
                0 <= j < known@.len() ==> (#[trigger] known@[j]).1@ == spec_known_encoders()[j].1,
            available@.len() == known@.len(),
            i <= known@.len(),
            r@.len() == i,
            forall|j: int|
                0 <= j < i ==> (#[trigger] r@[j]).name@ == spec_known_encoders()[j].1
                    && r@[j].available == available@[j],
        decreases known.len() - i,
    {
        r.push(EncoderInfo { name: known[i].1.clone(), available: available[i] });
        i = i + 1;
    }
    r
}

/// The encoders to try, in order: the one the configuration names, or else
/// NVENC and then AMF.
pub fn encoder_candidates(config: &Config) -> (r: Vec<String>)
    ensures
        config.encoder matches Some(name) ==> r@.len() == 1 && r@[0]@ == name@,
        config.encoder is None ==> r@.len() == 2 && r@[0]@ == "h264_nvenc"@ && r@[1]@
            == "h264_amf"@,
{
    let mut r: Vec<String> = Vec::new();
    match &config.encoder {
        Some(name) => {
            r.push(name.clone());
        },
        None => {
            r.push(owned("h264_nvenc"));
            r.push(owned("h264_amf"));
        },
    }
    r
}

/// Private options an encoder is opened with.
pub open spec fn spec_encoder_options(codec: Seq<char>) -> Seq<(Seq<char>, Seq<char>)> {
    if codec == "h264_nvenc"@ {
        seq![("preset"@, "p4"@), ("tune"@, "ll"@), ("rc"@, "cbr"@), ("zerolatency"@, "1"@)]
    } else if codec == "h264_amf"@ {
        seq![("usage"@, "lowlatency"@), ("rc"@, "cbr"@)]
    } else {
        seq![]
    }
}

/// Low-latency constant-bitrate options for the known hardware encoders.
pub fn encoder_options(codec_name: &str) -> (r: Vec<(String, String)>)
    ensures
        r@.len() == spec_encoder_options(codec_name@).len(),
        forall|i: int|
            0 <= i < r@.len() ==> (#[trigger] r@[i]).0@ == spec_encoder_options(codec_name@)[i].0
                && r@[i].1@ == spec_encoder_options(codec_name@)[i].1,
{
    let mut r: Vec<(String, String)> = Vec::new();
    if crate::text::str_eq(codec_name, "h264_nvenc") {
        r.push((owned("preset"), owned("p4")));
        r.push((owned("tune"), owned("ll")));
        r.push((owned("rc"), owned("cbr")));
        r.push((owned("zerolatency"), owned("1")));
    } else if crate::text::str_eq(codec_name, "h264_amf") {
        r.push((owned("usage"), owned("lowlatency")));
        r.push((owned("rc"), owned("cbr")));
    }
    r
}

/// Settings of the video encoder.
#[derive(Debug, Clone, Copy, PartialEq, Eq, Structural)]
pub struct EncoderSettings {
    pub width: u32,
    pub height: u32,
    /// Time base is 1/fps and the frame rate fps/1.
    pub fps: u32,
    /// Bits per second.
    pub bit_rate: usize,
    /// Frames between keyframes.
    pub gop: u32,
}

impl EncoderSettings {
    /// The settings a configuration asks for: its resolution and fps, its
    /// bitrate in bits per second, and a keyframe every `GOP_INTERVAL_SECS`.
    pub fn from_config(config: &Config) -> (r: EncoderSettings)
        requires
            config.bitrate_kbps * 1000 <= usize::MAX,
            config.fps * GOP_INTERVAL_SECS <= u32::MAX,
        ensures
            r.width == config.resolution.0,
            r.height == config.resolution.1,
            r.fps == config.fps,
            r.bit_rate == config.bitrate_kbps * 1000,
            r.gop == config.fps * GOP_INTERVAL_SECS,
    {
        EncoderSettings {
            width: config.resolution.0,
            height: config.resolution.1,
            fps: config.fps,
            bit_rate: config.bitrate_kbps * 1000,
            gop: config.fps * GOP_INTERVAL_SECS,
        }
    }
}

/// Law: both known hardware encoders are opened for low-latency
/// constant-bitrate encoding: their options set the rate control `rc` to `cbr`
/// (and no other value), NVENC with the low-latency tune and zero latency, AMF
/// with the low-latency usage; any other codec gets no private options.
pub proof fn lemma_encoders_use_cbr(other: Seq<char>)
    requires
        other != "h264_nvenc"@,
        other != "h264_amf"@,
    ensures
        exists|i: int|
            0 <= i < spec_encoder_options("h264_nvenc"@).len() && spec_encoder_options("h264_nvenc"@)[i]
                == ("rc"@, "cbr"@),
        exists|i: int|
            0 <= i < spec_encoder_options("h264_amf"@).len() && spec_encoder_options("h264_amf"@)[i]
                == ("rc"@, "cbr"@),
        forall|i: int|
            0 <= i < spec_encoder_options("h264_nvenc"@).len() && spec_encoder_options("h264_nvenc"@)[i].0
                == "rc"@ ==> spec_encoder_options("h264_nvenc"@)[i].1 == "cbr"@,
        forall|i: int|
            0 <= i < spec_encoder_options("h264_amf"@).len() && spec_encoder_options("h264_amf"@)[i].0
                == "rc"@ ==> spec_encoder_options("h264_amf"@)[i].1 == "cbr"@,
        exists|i: int|
            0 <= i < spec_encoder_options("h264_nvenc"@).len() && spec_encoder_options("h264_nvenc"@)[i]
                == ("tune"@, "ll"@),
        exists|i: int|
            0 <= i < spec_encoder_options("h264_nvenc"@).len() && spec_encoder_options("h264_nvenc"@)[i]
                == ("zerolatency"@, "1"@),
        exists|i: int|
            0 <= i < spec_encoder_options("h264_amf"@).len() && spec_encoder_options("h264_amf"@)[i]
                == ("usage"@, "lowlatency"@),
        spec_encoder_options(other).len() == 0,
{
    reveal_strlit("h264_nvenc");
    reveal_strlit("h264_amf");
    reveal_strlit("rc");
    reveal_strlit("cbr");
    reveal_strlit("preset");
    reveal_strlit("tune");
    reveal_strlit("zerolatency");
    reveal_strlit("usage");
    assert("h264_amf"@ != "h264_nvenc"@) by {
        assert("h264_amf"@.len() != "h264_nvenc"@.len());
    }
    let nv = spec_encoder_options("h264_nvenc"@);
    let amf = spec_encoder_options("h264_amf"@);
    assert(nv[2] == ("rc"@, "cbr"@));
    assert(nv[1] == ("tune"@, "ll"@));
    assert(nv[3] == ("zerolatency"@, "1"@));
    assert(amf[1] == ("rc"@, "cbr"@));
    assert(amf[0] == ("usage"@, "lowlatency"@));
    assert("preset"@ != "rc"@) by {
        assert("preset"@.len() != "rc"@.len());
    }
    assert("tune"@ != "rc"@) by {
        assert("tune"@.len() != "rc"@.len());
    }
    assert("zerolatency"@ != "rc"@) by {
        assert("zerolatency"@.len() != "rc"@.len());
    }
    assert("usage"@ != "rc"@) by {
        assert("usage"@.len() != "rc"@.len());
    }
}

/// Law: the encoders probed are NVIDIA NVENC (`h264_nvenc`) and AMD AMF
/// (`h264_amf`), in that order, and without a configured encoder they are the
/// candidates, in the same order.
pub proof fn lemma_known_encoders()
    ensures
        spec_known_encoders().len() == 2,
        spec_known_encoders()[0] == ("h264_nvenc"@, "NVIDIA NVENC"@),
        spec_known_encoders()[1] == ("h264_amf"@, "AMD AMF"@),
{
}

} // verus!

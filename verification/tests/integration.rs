//! Buffer → trim pipeline with synthetic packets.

use bytes::Bytes;
use mebal::buffer::{Packet, PacketBuffer, PacketType};
use mebal::config::{Config, PartialConfig, GOP_INTERVAL_SECS};
use mebal::writer::{find_first_keyframe, trim_to_keyframe};
use std::sync::Arc;

fn default_config() -> Config {
    Config::default_for(dirs::video_dir().map(|p| p.to_string_lossy().into_owned()))
}


/// Build a synthetic video packet.
fn video_packet(pts: i64, is_keyframe: bool, size: usize) -> Packet {
    Packet {
        data: Bytes::from(vec![0xABu8; size]),
        packet_type: PacketType::Video,
        timestamp: 0,
        pts,
        dts: pts,
        duration: 1,
        is_keyframe,
        stream_index: 0,
    }
}

/// Build a synthetic audio packet.
fn audio_packet(pts: i64, size: usize) -> Packet {
    Packet {
        data: Bytes::from(vec![0xCDu8; size]),
        packet_type: PacketType::Audio,
        timestamp: 0,
        pts,
        dts: pts,
        duration: 1024,
        is_keyframe: true,
        stream_index: 1,
    }
}

/// Populate a buffer with `seconds` of synthetic video, placing a keyframe
/// every `gop_frames` frames, interleaved with audio packets.
fn fill_buffer(buffer: &mut PacketBuffer, seconds: u32, fps: u32, gop_frames: u32, include_audio: bool) {
    let total_frames = (seconds * fps) as i64;
    for i in 0..total_frames {
        let is_key = (i as u32) % gop_frames == 0;
        buffer.push(video_packet(i, is_key, 4096));

        if include_audio && i % 2 == 0 {
            buffer.push(audio_packet(i, 256));
        }
    }
}

fn test_config() -> Config {
    Config {
        buffer_duration_secs: 60,
        save_duration_secs: 5,
        bitrate_kbps: 8000,
        fps: 60,
        output_directory: "/tmp/mebal_test".to_string(),
        output_prefix: "test".to_string(),
        hotkey: "F9".to_string(),
        resolution: (1920, 1080),
        capture_source: None,
        encoder: None,
        audio_enabled: false,
        audio_bitrate_kbps: 192,
    }
}

#[test]
fn buffer_to_trim_pipeline_produces_keyframe_aligned_output() {
    let config = test_config();
    let mut buffer = PacketBuffer::new(
        config.buffer_duration_secs,
        config.fps,
        config.total_bitrate_kbps(),
        GOP_INTERVAL_SECS,
    );

    // 10 seconds of video at 60 fps, keyframe every 60 frames (1 s)
    fill_buffer(&mut buffer, 10, 60, 60, false);

    let packets = buffer.get_packets_for_duration(config.save_duration_secs);
    assert!(!packets.is_empty(), "should retrieve packets from buffer");

    let trimmed = trim_to_keyframe(packets);
    assert!(!trimmed.is_empty(), "should find a keyframe to trim to");
    assert!(trimmed[0].is_keyframe, "first packet after trim must be a keyframe");
    assert_eq!(trimmed[0].packet_type, PacketType::Video, "first keyframe must be a video packet");
}

#[test]
fn trim_returns_empty_when_no_keyframes_present() {
    let packets: Vec<Arc<Packet>> = (0..100).map(|i| Arc::new(video_packet(i, false, 128))).collect();

    let trimmed = trim_to_keyframe(packets);
    assert!(trimmed.is_empty(), "no keyframes → empty result");
}

#[test]
fn find_first_keyframe_skips_audio_keyframes() {
    let packets = vec![
        Arc::new(audio_packet(0, 64)), // audio is_keyframe=true, should be ignored
        Arc::new(video_packet(1, false, 128)),
        Arc::new(video_packet(2, true, 128)), // first *video* keyframe
        Arc::new(video_packet(3, false, 128)),
    ];

    assert_eq!(find_first_keyframe(&packets), Some(2));
}

#[test]
fn buffer_preserves_packet_ordering_with_interleaved_streams() {
    let mut buffer = PacketBuffer::new(60, 60, 8000, 1);
    fill_buffer(&mut buffer, 3, 60, 60, true);

    let packets = buffer.get_packets_for_duration(60);

    // Verify insertion order is preserved (PTS non-decreasing)
    for window in packets.windows(2) {
        assert!(window[1].pts >= window[0].pts, "packets must stay in insertion order");
    }

    // Verify we have both audio and video
    let has_video = packets.iter().any(|p| p.packet_type == PacketType::Video);
    let has_audio = packets.iter().any(|p| p.packet_type == PacketType::Audio);
    assert!(has_video, "must have video packets");
    assert!(has_audio, "must have audio packets");
}

#[test]
fn buffer_evicts_by_size_limit() {
    let mut buffer = PacketBuffer::new(300, 60, 1000, 1);

    // Push way more data than the budget allows (~2 MB)
    for i in 0..500i64 {
        buffer.push(video_packet(i, i % 60 == 0, 4096));
    }

    let stats = buffer.stats();
    assert!(
        stats.total_bytes <= stats.max_bytes,
        "total_bytes ({}) must not exceed max_bytes ({})",
        stats.total_bytes,
        stats.max_bytes,
    );
}

#[test]
fn config_deserializes_with_missing_fields() {
    // A file that sets no field: every field falls back to its default.
    let config = Config::from_partial(PartialConfig::default(), None);
    assert_eq!(config.buffer_duration_secs, 300);
    assert_eq!(config.save_duration_secs, 30);
    assert_eq!(config.fps, 60);
    assert!(config.audio_enabled);
}

#[test]
fn config_validation_rejects_zero_fps() {
    let mut config = default_config();
    config.fps = 0;
    assert!(config.validate().is_err());
}

#[test]
fn config_validation_rejects_save_exceeding_buffer() {
    let mut config = default_config();
    config.save_duration_secs = config.buffer_duration_secs; // equal → fails (needs room for GOP)
    assert!(config.validate().is_err());
}

#[test]
fn buffer_reconfigure_updates_parameters() {
    let mut buffer = PacketBuffer::new(60, 30, 4000, 1);

    // Fill with some data
    for i in 0..100i64 {
        buffer.push(video_packet(i, i % 30 == 0, 1024));
    }

    let old_stats = buffer.stats();

    // Reconfigure to a higher bitrate → larger max_bytes
    buffer.reconfigure(120, 60, 16000, 2);

    let new_stats = buffer.stats();
    assert!(
        new_stats.max_bytes > old_stats.max_bytes,
        "max_bytes should increase with higher bitrate and duration"
    );
}

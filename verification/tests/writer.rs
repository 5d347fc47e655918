use mebal::buffer::{AudioParams, Packet, PacketType};
use mebal::config::Config;
use mebal::error::MebalError;
use mebal::writer::{find_first_keyframe, mux_entries, trim_to_keyframe, MuxEntry, VideoWriter};
use std::sync::Arc;

fn default_config() -> Config {
    Config::default_for(dirs::video_dir().map(|p| p.to_string_lossy().into_owned()))
}


fn create_test_packet(pts: i64, is_keyframe: bool) -> Arc<Packet> {
    Arc::new(Packet {
        data: bytes::Bytes::from(vec![0u8; 100]),
        packet_type: PacketType::Video,
        timestamp: 0,
        pts,
        dts: pts,
        duration: 1,
        is_keyframe,
        stream_index: 0,
    })
}

fn audio(pts: i64, dts: i64) -> Arc<Packet> {
    Arc::new(Packet {
        data: bytes::Bytes::from(vec![0u8; 50]),
        packet_type: PacketType::Audio,
        timestamp: 0,
        pts,
        dts,
        duration: 1,
        is_keyframe: true,
        stream_index: 1,
    })
}

#[test]
fn test_find_first_keyframe() {
    let packets = vec![
        create_test_packet(0, false),
        create_test_packet(1, false),
        create_test_packet(2, true),
        create_test_packet(3, false),
    ];

    assert_eq!(find_first_keyframe(&packets), Some(2));
}

#[test]
fn test_find_first_keyframe_ignores_audio() {
    let packets = vec![
        // Audio keyframe should be skipped
        Arc::new(Packet {
            data: bytes::Bytes::from(vec![0u8; 50]),
            packet_type: PacketType::Audio,
            timestamp: 0,
            pts: 0,
            dts: 0,
            duration: 1,
            is_keyframe: true,
            stream_index: 0,
        }),
        create_test_packet(1, false),
        create_test_packet(2, true),
    ];

    assert_eq!(find_first_keyframe(&packets), Some(2));
}

#[test]
fn test_trim_to_keyframe() {
    let packets = vec![
        create_test_packet(0, false),
        create_test_packet(1, false),
        create_test_packet(2, true),
        create_test_packet(3, false),
    ];

    let trimmed = trim_to_keyframe(packets);
    assert_eq!(trimmed.len(), 2);
    assert!(trimmed[0].is_keyframe);
}

fn writer(with_audio: bool) -> VideoWriter {
    let mut config = default_config();
    config.resolution = (1280, 720);
    config.fps = 30;
    let audio = if with_audio {
        Some(AudioParams { sample_rate: 48000, channels: 2, frame_size: 1024, extradata: vec![] })
    } else {
        None
    };
    VideoWriter::new(&config, vec![1, 2, 3], audio)
}

#[test]
fn writer_new_takes_stream_parameters_from_config() {
    let w = writer(true);
    assert_eq!(w.video_params().width, 1280);
    assert_eq!(w.video_params().height, 720);
    assert_eq!(w.video_params().fps, 30);
    assert_eq!(w.video_params().bitrate_kbps, 8000);
    assert_eq!(w.video_params().extradata, vec![1, 2, 3]);
    assert_eq!(w.audio_bitrate_kbps(), 192);
    assert_eq!(w.audio_params().as_ref().unwrap().sample_rate, 48000);
}

#[test]
fn plan_rejects_empty_and_keyframeless_input() {
    let w = writer(false);
    match w.plan(Vec::new()) {
        Err(MebalError::VideoWrite(m)) => assert_eq!(m, "No packets to write"),
        _ => panic!("expected an error"),
    }
    match w.plan(vec![create_test_packet(0, false), audio(0, 0)]) {
        Err(MebalError::VideoWrite(m)) => assert_eq!(m, "No keyframe found in packets"),
        _ => panic!("expected an error"),
    }
}

#[test]
fn plan_rebases_streams_and_skips_stale_audio() {
    let packets = vec![
        audio(5, 5),
        create_test_packet(10, true),
        audio(11, 11),
        create_test_packet(11, false),
        audio(12, 12),
        audio(12, 12), // not above the last audio DTS: skipped
        audio(9, 9),   // goes backward: skipped
        create_test_packet(12, false),
        audio(14, 14),
    ];
    let plan = writer(true).plan(packets).unwrap();
    assert_eq!(plan.packets.len(), 8);
    assert_eq!(plan.packets[0].pts, 10);
    let v = PacketType::Video;
    let a = PacketType::Audio;
    let e = |i, s, p, d| MuxEntry { packet_index: i, stream: s, pts: p, dts: d };
    assert_eq!(
        plan.entries,
        vec![e(0, v, 0, 0), e(1, a, 0, 0), e(2, v, 1, 1), e(3, a, 1, 1), e(6, v, 2, 2), e(7, a, 3, 3)]
    );

    // Without an audio stream, audio packets are not written.
    let plan = writer(false).plan(vec![create_test_packet(3, true), audio(4, 4)]).unwrap();
    assert_eq!(plan.entries, vec![e(0, v, 0, 0)]);
    assert_eq!(plan.packets.len(), 2);
}

#[test]
fn mux_entries_offsets_are_per_stream() {
    let packets = vec![create_test_packet(100, true), audio(40, 38), audio(41, 39)];
    let entries = mux_entries(&packets, true);
    assert_eq!(entries[1].pts, 0);
    assert_eq!(entries[1].dts, 0);
    assert_eq!(entries[2].pts, 1);
    assert_eq!(entries[2].dts, 1);
}

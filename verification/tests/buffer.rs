use mebal::buffer::{
    h264_nal_unit_type, is_h264_keyframe_nal, is_h264_pps, is_h264_sps, max_bytes_for, AudioParams,
    Packet, PacketBuffer, PacketType,
};

fn create_test_packet(data: Vec<u8>, pts: i64) -> Packet {
    let mut packet = Packet::new(data, PacketType::Video, 0);
    packet.pts = pts;
    packet.dts = pts;
    packet
}

#[test]
fn test_push_and_get() {
    let mut buffer = PacketBuffer::new(60, 30, 8000, 2);

    // Add some packets
    for i in 0..10 {
        let packet = create_test_packet(vec![i as u8; 100], i);
        buffer.push(packet);
    }

    let stats = buffer.stats();
    assert_eq!(stats.packet_count, 10);
    assert_eq!(stats.total_bytes, 1000);
}

#[test]
fn test_get_packets_for_duration() {
    let fps = 30;
    let mut buffer = PacketBuffer::new(60, fps, 8000, 2);

    // Add 5 seconds of packets (150 packets at 30fps)
    for i in 0..150i64 {
        let packet = create_test_packet(vec![0u8; 100], i);
        buffer.push(packet);
    }

    // Request last 3 seconds — with 2s GOP compensation, fetches 5s worth
    let packets = buffer.get_packets_for_duration(3);
    // cutoff_pts = 149 - (3+2)*30 = 149 - 150 = -1, so all 150 packets returned
    assert_eq!(packets.len(), 150);

    // Request last 1 second — with 2s GOP, fetches 3s worth
    let packets = buffer.get_packets_for_duration(1);
    // cutoff_pts = 149 - (1+2)*30 = 149 - 90 = 59, packets with pts >= 59
    assert_eq!(packets.len(), 91); // pts 59..=149
}

#[test]
fn test_clear() {
    let mut buffer = PacketBuffer::new(60, 30, 8000, 2);

    for i in 0..5 {
        buffer.push(create_test_packet(vec![i as u8; 100], i));
    }

    buffer.clear();

    let stats = buffer.stats();
    assert_eq!(stats.packet_count, 0);
    assert_eq!(stats.total_bytes, 0);
}

#[test]
fn test_gop_compensation_overfetch() {
    let fps = 60;
    let gop_secs = 2;
    let mut buffer = PacketBuffer::new(300, fps, 8000, gop_secs);

    // Add 10 seconds of packets (600 packets at 60fps)
    for i in 0..600i64 {
        let packet = create_test_packet(vec![0u8; 100], i);
        buffer.push(packet);
    }

    // Request 5 seconds — should over-fetch by gop_secs (2s), so 7s total
    let packets = buffer.get_packets_for_duration(5);
    // cutoff_pts = 599 - (5+2)*60 = 599 - 420 = 179
    // Packets with pts >= 179: pts 179..=599 = 421 packets
    assert_eq!(packets.len(), 421);

    // Verify the over-fetch: 421 packets at 60fps = 7 seconds worth
    let first_pts = packets.first().unwrap().pts;
    let last_pts = packets.last().unwrap().pts;
    let fetched_duration = (last_pts - first_pts) as f64 / fps as f64;
    assert!(fetched_duration >= 6.9 && fetched_duration <= 7.1);
}

#[test]
fn test_stats_pts_based_duration() {
    let fps = 60;
    let mut buffer = PacketBuffer::new(300, fps, 8000, 2);

    // Add 5 seconds of packets
    for i in 0..(5 * fps as i64) {
        let packet = create_test_packet(vec![0u8; 100], i);
        buffer.push(packet);
    }

    let stats = buffer.stats();
    // (299 - 0) / 60 = 4 (integer division)
    assert_eq!(stats.duration_secs, 4);
}

#[test]
fn test_bitrate_based_max_bytes() {
    let buffer = PacketBuffer::new(60, 30, 8000, 2);
    let stats = buffer.stats();
    assert_eq!(stats.max_bytes, max_bytes_for(8000, 60));
}

#[test]
fn test_packet_creation() {
    let data = vec![1, 2, 3, 4, 5];
    let packet = Packet::new(data.clone(), PacketType::Video, 0);

    assert_eq!(packet.data.as_ref(), data.as_slice());
    assert_eq!(packet.packet_type, PacketType::Video);
    assert_eq!(packet.data.len(), 5);
}

#[test]
fn test_h264_nal_detection() {
    // SPS with 4-byte start code
    let sps = vec![0x00, 0x00, 0x00, 0x01, 0x67, 0x42, 0x00, 0x0A];
    assert_eq!(h264_nal_unit_type(&sps), Some(7));
    assert!(is_h264_sps(&sps));

    // PPS with 3-byte start code
    let pps = vec![0x00, 0x00, 0x01, 0x68, 0xCE, 0x3C, 0x80];
    assert_eq!(h264_nal_unit_type(&pps), Some(8));
    assert!(is_h264_pps(&pps));

    // IDR slice (keyframe)
    let idr = vec![0x00, 0x00, 0x00, 0x01, 0x65, 0x88, 0x84, 0x00];
    assert_eq!(h264_nal_unit_type(&idr), Some(5));
    assert!(is_h264_keyframe_nal(5));
}

#[test]
fn nal_unit_type_rejects_short_and_unprefixed_units() {
    assert_eq!(h264_nal_unit_type(&[0x00, 0x00, 0x01, 0x65]), None);
    assert_eq!(h264_nal_unit_type(&[0x01, 0x00, 0x00, 0x01, 0x65]), None);
    assert!(!is_h264_sps(&[0x00, 0x00, 0x01, 0x68, 0x00]));
    assert!(!is_h264_keyframe_nal(1));
}

#[test]
fn packet_len_counts_payload_bytes() {
    let packet = Packet::new(vec![7u8; 37], PacketType::Audio, 0);
    assert_eq!(packet.len(), 37);
    assert_eq!(packet.pts, 0);
    assert!(!packet.is_keyframe);
}

#[test]
fn max_bytes_formula_exact_value() {
    // 8000 kbps = 1_024_000 bytes/s; 60 s; 1.25x headroom
    assert_eq!(max_bytes_for(8000, 60), 76_800_000);
    assert_eq!(max_bytes_for(1, 1), 160);
    assert_eq!(max_bytes_for(0, 60), 0);
}

#[test]
fn push_evicts_by_size_but_keeps_newest() {
    // Budget of 160 bytes: 1 kbps for 1 s with headroom.
    let mut buffer = PacketBuffer::new(1, 30, 1, 0);
    for i in 0..5 {
        buffer.push(create_test_packet(vec![0u8; 100], i));
        let stats = buffer.stats();
        assert!(stats.total_bytes <= stats.max_bytes || stats.packet_count <= 1);
    }
    let packets = buffer.get_packets_for_duration(1000);
    assert_eq!(packets.len(), 1);
    assert_eq!(packets[0].pts, 4);

    // A packet larger than the whole budget still stays on its own.
    buffer.push(create_test_packet(vec![0u8; 1000], 5));
    let stats = buffer.stats();
    assert_eq!(stats.packet_count, 1);
    assert_eq!(stats.total_bytes, 1000);
}

#[test]
fn push_evicts_packets_older_than_max_duration() {
    let mut buffer = PacketBuffer::new(5, 30, 8000, 2);
    let s = 1_000_000_000u64;
    // Stamped at 0 and pushed at 10 s: older than 5 s, evicted at once.
    let mut stale = Packet::new(vec![0u8; 10], PacketType::Video, 0);
    stale.pts = 0;
    buffer.push_at(stale, 10 * s);
    assert_eq!(buffer.stats().packet_count, 0);

    let mut fresh = create_test_packet(vec![0u8; 10], 1);
    fresh.timestamp = 10 * s;
    buffer.push_at(fresh, 10 * s);
    assert_eq!(buffer.stats().packet_count, 1);
    assert_eq!(buffer.stats().total_bytes, 10);
}

#[test]
fn stats_duration_rounds_toward_zero_for_backward_pts() {
    let mut buffer = PacketBuffer::new(60, 60, 8000, 2);
    buffer.push(create_test_packet(vec![0u8; 10], 130));
    buffer.push(create_test_packet(vec![0u8; 10], 0));
    // (0 - 130) / 60 = -2 (toward zero), as u32 wraps.
    assert_eq!(buffer.stats().duration_secs, (-2i64) as u32);
    buffer.clear();
    buffer.push(create_test_packet(vec![0u8; 10], 0));
    assert_eq!(buffer.stats().duration_secs, 0);
}

#[test]
fn window_holds_packets_from_cutoff_on() {
    let mut buffer = PacketBuffer::new(60, 10, 8000, 1);
    for i in 0..50i64 {
        buffer.push(create_test_packet(vec![0u8; 10], i));
    }
    // cutoff = 49 - (2 + 1) * 10 = 19
    let packets = buffer.get_packets_for_duration(2);
    assert_eq!(packets.len(), 31);
    assert_eq!(packets[0].pts, 19);
    assert!(packets.iter().all(|p| p.pts >= 19));

    let empty = PacketBuffer::new(60, 10, 8000, 1);
    assert!(empty.get_packets_for_duration(5).is_empty());
}

#[test]
fn codec_extradata_keeps_first_value() {
    let mut buffer = PacketBuffer::new(60, 30, 8000, 2);
    assert_eq!(buffer.get_codec_extradata(), None);
    buffer.set_codec_extradata(vec![1, 2, 3]);
    buffer.set_codec_extradata(vec![9, 9]);
    assert_eq!(buffer.get_codec_extradata(), Some(vec![1, 2, 3]));
}

#[test]
fn audio_params_keep_first_value() {
    let mut buffer = PacketBuffer::new(60, 30, 8000, 2);
    assert!(buffer.get_audio_params().is_none());
    buffer.set_audio_params(AudioParams {
        sample_rate: 48000,
        channels: 2,
        frame_size: 1024,
        extradata: vec![0x11, 0x90],
    });
    buffer.set_audio_params(AudioParams {
        sample_rate: 44100,
        channels: 1,
        frame_size: 960,
        extradata: vec![],
    });
    let params = buffer.get_audio_params().unwrap();
    assert_eq!(params.sample_rate, 48000);
    assert_eq!(params.channels, 2);
    assert_eq!(params.frame_size, 1024);
    assert_eq!(params.extradata, vec![0x11, 0x90]);
}

#[test]
fn reconfigure_keeps_packets_and_sets_budget() {
    let mut buffer = PacketBuffer::new(60, 30, 4000, 1);
    for i in 0..3 {
        buffer.push(create_test_packet(vec![0u8; 10], i));
    }
    buffer.reconfigure(10, 60, 100, 2);
    let stats = buffer.stats();
    assert_eq!(stats.packet_count, 3);
    assert_eq!(stats.max_bytes, max_bytes_for(100, 10));
}

#[test]
fn push_at_evicts_exactly_the_packets_past_the_age_limit() {
    let s = 1_000_000_000u64;
    let mut buffer = PacketBuffer::new(5, 30, 8000, 2);
    // Packets stamped at 0 s, 0 s, 1 s and 2 s.
    for (i, t) in [0u64, 0, 1, 2].iter().enumerate() {
        let mut p = create_test_packet(vec![0u8; 10], i as i64);
        p.timestamp = t * s;
        buffer.push_at(p, t * s);
    }
    assert_eq!(buffer.stats().packet_count, 4);
    // At 6 s the two packets of 0 s are 6 s old and go; the one of 1 s is
    // exactly 5 s old and stays.
    let mut p = create_test_packet(vec![0u8; 10], 4);
    p.timestamp = 6 * s;
    buffer.push_at(p, 6 * s);
    let kept: Vec<i64> = buffer.get_packets_for_duration(100).iter().map(|p| p.pts).collect();
    assert_eq!(kept, vec![2, 3, 4]);
    // At 20 s every packet, the new one (stamped 6 s) too, is past the limit.
    let mut p = create_test_packet(vec![0u8; 10], 5);
    p.timestamp = 6 * s;
    buffer.push_at(p, 20 * s);
    assert_eq!(buffer.stats().packet_count, 0);
    assert_eq!(buffer.stats().total_bytes, 0);
}

#[test]
fn push_at_young_packets_window_matches_cutoff() {
    let mut buffer = PacketBuffer::new(60, 30, 8000, 2);
    for i in 0..150i64 {
        buffer.push_at(create_test_packet(vec![0u8; 100], i), 0);
    }
    assert_eq!(buffer.get_packets_for_duration(3).len(), 150);
    let r = buffer.get_packets_for_duration(1);
    assert_eq!((r.len(), r[0].pts, r[90].pts), (91, 59, 149));
}

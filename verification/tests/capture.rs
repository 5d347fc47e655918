use mebal::capture::audio::{
    audio_buffer_pts, audio_step, deinterleave, AudioAction, AudioEvent, PcmAccumulator,
};
use mebal::capture::dxgi::{capture_format, CaptureFormat};
use mebal::capture::encoder_setup::{
    encoder_candidates, encoder_info, encoder_options, known_encoders, EncoderSettings,
};
use mebal::capture::{
    capture_output_index, capture_step, conversion_path, next_video_pts, parse_u32,
    should_report_stats, CaptureAction, CaptureEvent, CaptureLoop, ConversionPath,
    MAX_RECONNECT_RETRIES,
};
use mebal::config::Config;
use mebal::error::MebalError;
use mebal::{AudioCaptureManager, CaptureManager};

fn default_config() -> Config {
    Config::default_for(dirs::video_dir().map(|p| p.to_string_lossy().into_owned()))
}


#[test]
fn parse_u32_follows_std() {
    for s in ["0", "7", "+12", "4294967295", "00042", "", "+", "-1", "4294967296", "1a", " 1", "99999999999999999999"] {
        assert_eq!(parse_u32(s), s.parse::<u32>().ok(), "input {:?}", s);
    }
}

#[test]
fn output_index_from_capture_source() {
    assert_eq!(capture_output_index(&None), 0);
    assert_eq!(capture_output_index(&Some("2".to_string())), 2);
    assert_eq!(capture_output_index(&Some("HDMI-1".to_string())), 0);
}

#[test]
fn conversion_path_choice() {
    assert_eq!(conversion_path(true, 1920, 1080, 1920, 1080), ConversionPath::HdrToneMap);
    assert_eq!(conversion_path(false, 2560, 1440, 1920, 1080), ConversionPath::Scale);
    assert_eq!(conversion_path(false, 1920, 1080, 1920, 1080), ConversionPath::Direct);
    assert_eq!(capture_format(true), CaptureFormat::Rgba16Float);
    assert_eq!(capture_format(false), CaptureFormat::Bgra8Unorm);
}

#[test]
fn video_pts_strictly_increase() {
    assert_eq!(next_video_pts(10, 5), 10);
    assert_eq!(next_video_pts(5, 5), 6);
    assert_eq!(next_video_pts(0, -1), 0);
    let mut last = -1;
    for candidate in [0, 0, 0, 3, 2, 7] {
        let p = next_video_pts(candidate, last);
        assert!(p > last);
        last = p;
    }
    assert_eq!(last, 7);
}

#[test]
fn stats_reported_once_per_second_of_frames() {
    assert!(should_report_stats(120, 60));
    assert!(!should_report_stats(121, 60));
    assert!(should_report_stats(0, 0));
    assert!(!should_report_stats(5, 0));
    assert_eq!(MAX_RECONNECT_RETRIES, 20);
}

#[test]
fn capture_manager_needs_ffmpeg() {
    let config = default_config();
    let m = CaptureManager::new(&config, Ok(())).unwrap();
    assert_eq!(m.config().fps, 60);
    assert_eq!(m.output_index(), 0);
    assert!(matches!(CaptureManager::new(&config, Err(-22)), Err(MebalError::Ffmpeg(-22))));
    let a = AudioCaptureManager::new(&config);
    assert_eq!(a.config().audio_bitrate_kbps, 192);
}

#[test]
fn audio_pts_conversion() {
    // 48000 samples at 48 kHz = 1 s = 60 frames at 60 fps
    assert_eq!(audio_buffer_pts(100, 48000, 60, 48000), Some(160));
    assert_eq!(audio_buffer_pts(0, 1024, 60, 48000), Some(1));
    // Priming packets: negative PTS is skipped; division rounds toward zero.
    assert_eq!(audio_buffer_pts(0, -1024, 60, 48000), None);
    assert_eq!(audio_buffer_pts(5, -1024, 60, 48000), Some(4));
    assert_eq!(audio_buffer_pts(0, -2048, 60, 48000), None);
}

#[test]
fn deinterleave_into_planes() {
    let pcm = [1.0f32, 2.0, 3.0, 4.0, 5.0, 6.0, 7.0];
    let planes = deinterleave(&pcm, 2, 3);
    assert_eq!(planes, vec![vec![1.0, 3.0, 5.0], vec![2.0, 4.0, 6.0]]);
}

#[test]
fn pcm_accumulator_cuts_frames() {
    let mut acc: PcmAccumulator<f32> = PcmAccumulator::new(2, 2);
    acc.extend(&[1.0, 2.0, 3.0]);
    assert!(!acc.has_frame());
    acc.extend(&[4.0, 5.0, 6.0, 7.0, 8.0, 9.0]);
    assert!(acc.has_frame());
    let (planes, pts) = acc.take_frame();
    assert_eq!(pts, 0);
    assert_eq!(planes, vec![vec![1.0, 3.0], vec![2.0, 4.0]]);
    let (planes, pts) = acc.take_frame();
    assert_eq!(pts, 2);
    assert_eq!(planes, vec![vec![5.0, 7.0], vec![6.0, 8.0]]);
    assert!(!acc.has_frame());
}

#[test]
fn encoder_order_and_options() {
    let mut config = default_config();
    assert_eq!(encoder_candidates(&config), vec!["h264_nvenc".to_string(), "h264_amf".to_string()]);
    config.encoder = Some("h264_qsv".to_string());
    assert_eq!(encoder_candidates(&config), vec!["h264_qsv".to_string()]);

    let o = encoder_options("h264_nvenc");
    assert_eq!(o.len(), 4);
    assert_eq!(o[0], ("preset".to_string(), "p4".to_string()));
    assert_eq!(o[3], ("zerolatency".to_string(), "1".to_string()));
    let o = encoder_options("h264_amf");
    assert_eq!(o, vec![("usage".to_string(), "lowlatency".to_string()), ("rc".to_string(), "cbr".to_string())]);
    assert!(encoder_options("libx264").is_empty());

    let s = EncoderSettings::from_config(&default_config());
    assert_eq!(s.gop, 120);
    assert_eq!(s.bit_rate, 8_000_000);
    assert_eq!((s.width, s.height, s.fps), (2560, 1440, 60));
}

#[test]
fn encoder_info_pairs_names_with_availability() {
    assert_eq!(known_encoders()[1], ("h264_amf".to_string(), "AMD AMF".to_string()));
    let info = encoder_info(&vec![false, true]);
    assert_eq!(info[0].name, "NVIDIA NVENC");
    assert!(!info[0].available);
    assert_eq!(info[1].name, "AMD AMF");
    assert!(info[1].available);
}

#[test]
fn capture_loop_encodes_with_increasing_pts() {
    let s = CaptureLoop::new();
    assert_eq!(s.last_pts, -1);
    // Nothing captured yet: an unchanged desktop encodes nothing.
    let (s, a) = capture_step(s, CaptureEvent::FrameUnchanged { candidate_pts: 0 }, 2);
    assert_eq!(a, CaptureAction::NextFrame);
    let (s, a) = capture_step(s, CaptureEvent::FrameCaptured { candidate_pts: 0 }, 2);
    assert_eq!(a, CaptureAction::Encode { pts: 0, report_stats: false });
    // Same wall-clock PTS again: raised to one past the last.
    let (s, a) = capture_step(s, CaptureEvent::FrameUnchanged { candidate_pts: 0 }, 2);
    assert_eq!(a, CaptureAction::Encode { pts: 1, report_stats: true });
    let (s, a) = capture_step(s, CaptureEvent::FrameCaptured { candidate_pts: 5 }, 2);
    assert_eq!(a, CaptureAction::Encode { pts: 5, report_stats: false });
    assert_eq!(s.frame_count, 3);
    assert!(s.has_frame);
    let (_, a) = capture_step(s, CaptureEvent::Cancelled, 2);
    assert_eq!(a, CaptureAction::Stop);
}

#[test]
fn capture_loop_reconnects_a_bounded_number_of_times() {
    let s = CaptureLoop::new();
    let (s, _) = capture_step(s, CaptureEvent::FrameCaptured { candidate_pts: 3 }, 60);
    let (mut s, a) = capture_step(s, CaptureEvent::CaptureLost, 60);
    assert_eq!(a, CaptureAction::Reconnect { attempt: 1 });
    for attempt in 2..=MAX_RECONNECT_RETRIES {
        let (t, a) = capture_step(s, CaptureEvent::ReconnectFailed, 60);
        assert_eq!(a, CaptureAction::Reconnect { attempt });
        s = t;
    }
    let (_, a) = capture_step(s, CaptureEvent::ReconnectFailed, 60);
    assert_eq!(a, CaptureAction::Fail);
    // Cancelled while reconnecting fails; a successful reconnect drops the held frame.
    let (_, a) = capture_step(s, CaptureEvent::Cancelled, 60);
    assert_eq!(a, CaptureAction::Fail);
    let (s, a) = capture_step(s, CaptureEvent::Reconnected, 60);
    assert_eq!(a, CaptureAction::NextFrame);
    assert_eq!((s.has_frame, s.reconnect_attempts, s.last_pts), (false, 0, 3));
}

#[test]
fn audio_loop_flushes_only_when_not_cancelled() {
    assert_eq!(audio_step(AudioEvent::Cancelled), AudioAction::Stop { flush: false });
    assert_eq!(audio_step(AudioEvent::Disconnected { cancelled: false }), AudioAction::Stop { flush: true });
    assert_eq!(audio_step(AudioEvent::Disconnected { cancelled: true }), AudioAction::Stop { flush: false });
    assert_eq!(audio_step(AudioEvent::Samples), AudioAction::EncodeFrames);
    assert_eq!(audio_step(AudioEvent::Timeout), AudioAction::Wait);
}

use mebal::config::{Config, PartialConfig};
use mebal::error::MebalError;

fn default_config() -> Config {
    Config::default_for(dirs::video_dir().map(|p| p.to_string_lossy().into_owned()))
}


#[test]
fn test_default_config() {
    let config = default_config();
    assert_eq!(config.buffer_duration_secs, 300);
    assert_eq!(config.save_duration_secs, 30);
    assert_eq!(config.bitrate_kbps, 8000);
    assert_eq!(config.fps, 60);
    assert_eq!(config.resolution, (2560, 1440));
    assert!(config.encoder.is_none());
    assert!(config.audio_enabled);
    assert_eq!(config.audio_bitrate_kbps, 192);
}

#[test]
fn test_validate() {
    let mut config = default_config();
    assert!(config.validate().is_ok());

    config.save_duration_secs = 400;
    assert!(config.validate().is_err());
}

fn message_of(r: Result<(), MebalError>) -> String {
    match r {
        Err(MebalError::Config(m)) => m,
        other => panic!("unexpected {:?}", other),
    }
}

#[test]
fn validate_reports_first_broken_rule() {
    let mut config = default_config();
    config.buffer_duration_secs = 0;
    assert_eq!(message_of(config.validate()), "Buffer duration must be greater than 0");

    let mut config = default_config();
    config.save_duration_secs = 0;
    assert_eq!(message_of(config.validate()), "Save duration must be greater than 0");

    let mut config = default_config();
    config.save_duration_secs = 299;
    assert_eq!(
        message_of(config.validate()),
        "Save duration + GOP compensation (2s) must not exceed buffer duration"
    );
    config.save_duration_secs = 298;
    assert!(config.validate().is_ok());
    config.save_duration_secs = u32::MAX;
    config.buffer_duration_secs = u32::MAX;
    assert_eq!(
        message_of(config.validate()),
        "Save duration + GOP compensation (2s) must not exceed buffer duration"
    );

    let mut config = default_config();
    config.bitrate_kbps = 0;
    assert_eq!(message_of(config.validate()), "Bitrate must be greater than 0");

    let mut config = default_config();
    config.fps = 0;
    assert_eq!(message_of(config.validate()), "FPS must be greater than 0");

    let mut config = default_config();
    config.resolution = (1920, 0);
    assert_eq!(message_of(config.validate()), "Resolution must be valid");
}

#[test]
fn total_bitrate_adds_audio_when_enabled() {
    let mut config = default_config();
    assert_eq!(config.total_bitrate_kbps(), 8192);
    config.audio_enabled = false;
    assert_eq!(config.total_bitrate_kbps(), 8000);
}

#[test]
fn needs_restart_only_for_capture_settings() {
    let config = default_config();
    let mut other = config.clone();
    assert!(!config.needs_restart(&other));
    other.hotkey = "F10".to_string();
    other.save_duration_secs = 10;
    other.output_prefix = "clip".to_string();
    assert!(!config.needs_restart(&other));
    other.encoder = Some("h264_amf".to_string());
    assert!(config.needs_restart(&other));
    let mut other = config.clone();
    other.fps = 30;
    assert!(config.needs_restart(&other));
    let mut other = config.clone();
    other.buffer_duration_secs = 100;
    assert!(config.needs_restart(&other));
}

#[test]
fn from_partial_fills_missing_fields_with_defaults() {
    let partial = PartialConfig {
        fps: Some(30),
        hotkey: Some("Ctrl+F10".to_string()),
        encoder: Some("h264_nvenc".to_string()),
        ..PartialConfig::default()
    };
    let config = Config::from_partial(partial, None);
    assert_eq!(config.fps, 30);
    assert_eq!(config.hotkey, "Ctrl+F10");
    assert_eq!(config.encoder.as_deref(), Some("h264_nvenc"));
    assert_eq!(config.buffer_duration_secs, 300);
    assert_eq!(config.output_prefix, "replay");
    assert_eq!(config.resolution, (2560, 1440));
    assert_eq!(config.audio_bitrate_kbps, 192);
}

#[test]
fn config_path_ends_in_mebal_config_toml() {
    if let Ok(path) = Config::config_path() {
        let p = std::path::Path::new(&path);
        assert!(p.ends_with("mebal/config.toml") || p.ends_with("mebal\\config.toml"));
    }
}

#[test]
fn default_output_dir_is_under_video_dir_or_recordings() {
    let dir = default_config().output_directory;
    assert!(dir == "./recordings" || std::path::Path::new(&dir).ends_with("mebal"));
    assert_eq!(mebal::config::output_dir_from(None), "./recordings");
    let joined = mebal::config::output_dir_from(Some("/home/u/Videos".to_string()));
    assert_eq!(std::path::Path::new(&joined), std::path::Path::new("/home/u/Videos/mebal"));
    assert_eq!(Config::default_for(None).output_directory, "./recordings");
}

#[test]
fn config_path_from_directory_lookup() {
    let p = Config::config_path_from(Some("/home/u/.config".to_string())).unwrap();
    assert_eq!(std::path::Path::new(&p), std::path::Path::new("/home/u/.config/mebal/config.toml"));
    match Config::config_path_from(None) {
        Err(MebalError::Config(m)) => assert_eq!(m, "Failed to determine config directory"),
        other => panic!("unexpected {:?}", other),
    }
}

use mebal::app::{replay_filename, replay_output_path, save_step, SaveAction, SaveEvent, TIMESTAMP_FORMAT};
use mebal::config::Config;
use mebal::text::{split_on, str_eq, trim};
use std::path::Path;

fn default_config() -> Config {
    Config::default_for(dirs::video_dir().map(|p| p.to_string_lossy().into_owned()))
}


#[test]
fn replay_names() {
    assert_eq!(replay_filename("replay", "20240101_120000"), "replay_20240101_120000.mp4");
    let mut config = default_config();
    config.output_directory = "/videos".to_string();
    config.output_prefix = "clip".to_string();
    let p = replay_output_path(&config, "T");
    assert_eq!(Path::new(&p), Path::new("/videos/clip_T.mp4"));
    let stamp = chrono::Local::now().format(TIMESTAMP_FORMAT).to_string();
    let now = replay_output_path(&config, &stamp);
    let name = Path::new(&now).file_name().unwrap().to_string_lossy().to_string();
    assert!(name.starts_with("clip_") && name.ends_with(".mp4"));
    assert_eq!(name.len(), "clip_".len() + 15 + ".mp4".len());
}

#[test]
fn text_helpers() {
    assert_eq!(split_on("a+b++c", '+'), vec!["a", "b", "", "c"]);
    assert_eq!(split_on("", '+'), vec![""]);
    assert_eq!(trim("  x y \t\n"), "x y");
    assert_eq!(trim("\u{2003}é\u{85}"), "é");
    assert_eq!(trim("   "), "");
    assert!(str_eq("ab", "ab"));
    assert!(!str_eq("ab", "abc"));
    assert_eq!(trim(trim(" q ")), trim(" q "));
}

#[test]
fn save_guard_ignores_a_second_save_and_is_released_on_every_path() {
    // A request while a save runs is ignored and the guard stays held.
    assert_eq!(save_step(true, SaveEvent::Requested), (true, SaveAction::Ignore));
    // A free guard is taken.
    assert_eq!(save_step(false, SaveEvent::Requested), (true, SaveAction::CreateOutputDirectory));
    // Every ending releases it.
    assert_eq!(
        save_step(true, SaveEvent::OutputDirectory { created: false }),
        (false, SaveAction::ReleaseWithError)
    );
    assert_eq!(save_step(true, SaveEvent::OutputDirectory { created: true }), (true, SaveAction::FetchPackets));
    assert_eq!(
        save_step(true, SaveEvent::PacketsFetched { count: 0 }),
        (false, SaveAction::ReleaseNothingToSave)
    );
    assert_eq!(save_step(true, SaveEvent::PacketsFetched { count: 3 }), (true, SaveAction::WritePackets));
    assert_eq!(save_step(true, SaveEvent::WriteFinished), (false, SaveAction::Release));
}

//! Configuration of Mebal: its fields, their defaults, and the rules a
//! configuration must satisfy.
//!
//! The configuration file is `config.toml` in the `mebal` directory of the
//! platform's configuration directory.

use crate::error::{owned, MebalError};
use vstd::prelude::*;

verus! {

/// Default buffer duration in seconds (5 minutes).
pub const DEFAULT_BUFFER_DURATION: u32 = 300;

/// Default save duration in seconds.
pub const DEFAULT_SAVE_DURATION: u32 = 30;

/// Default video bitrate in kbps (8 Mbps).
pub const DEFAULT_BITRATE_KBPS: usize = 8000;

/// Default audio bitrate in kbps.
pub const DEFAULT_AUDIO_BITRATE_KBPS: usize = 192;

/// Default frames per second.
pub const DEFAULT_FPS: u32 = 60;

/// Seconds between keyframes; a saved clip is fetched this much longer so that
/// it can start on a keyframe.
pub const GOP_INTERVAL_SECS: u32 = 2;

/// What `Path::new(base).join(child)` gives, as a string, under the path
/// syntax of the platform the library is built for.
pub uninterp spec fn spec_path_join(base: Seq<char>, child: Seq<char>) -> Seq<char>;

/// Calls `Path::join` on `base` and `child` (converting from and to strings);
/// claims that the result is `spec_path_join` of the two, which depends on the
/// two strings alone.
#[verifier::external_body]
pub(crate) fn path_join(base: &str, child: &str) -> (r: String)
    ensures
        r@ == spec_path_join(base@, child@),
{
    std::path::Path::new(base).join(child).to_string_lossy().into_owned()
}

/// Calls `dirs::config_dir`; nothing is claimed of the result, which depends on
/// the environment.
#[verifier::external_body]
pub(crate) fn config_dir() -> Option<String> {
    match dirs::config_dir() {
        Some(p) => Some(p.to_string_lossy().into_owned()),
        None => None,
    }
}

/// The output directory for a given video directory: its `mebal` subdirectory,
/// or `./recordings` when there is none.
pub open spec fn spec_output_dir(video: Option<Seq<char>>) -> Seq<char> {
    match video {
        Some(d) => spec_path_join(d, "mebal"@),
        None => "./recordings"@,
    }
}

/// The default output directory for the user's video directory (looked up by
/// the caller): its `mebal` subdirectory, or `./recordings` when there is none.
pub fn output_dir_from(video: Option<String>) -> (r: String)
    ensures
        r@ == spec_output_dir(opt_view(video)),
{
    match video {
        Some(d) => path_join(d.as_str(), "mebal"),
        None => owned("./recordings"),
    }
}

/// Default output filename prefix.
pub fn default_output_prefix() -> (r: String)
    ensures
        r@ == "replay"@,
{
    owned("replay")
}

/// Default hotkey combination.
pub fn default_hotkey() -> (r: String)
    ensures
        r@ == "F9"@,
{
    owned("F9")
}

/// Default video resolution.
pub fn default_resolution() -> (r: (u32, u32))
    ensures
        r == (2560u32, 1440u32),
{
    (2560, 1440)
}

/// Default buffer duration in seconds.
pub fn default_buffer_duration() -> (r: u32)
    ensures
        r == DEFAULT_BUFFER_DURATION,
{
    DEFAULT_BUFFER_DURATION
}

/// Default save duration in seconds.
pub fn default_save_duration() -> (r: u32)
    ensures
        r == DEFAULT_SAVE_DURATION,
{
    DEFAULT_SAVE_DURATION
}

/// Default video bitrate in kbps.
pub fn default_bitrate_kbps() -> (r: usize)
    ensures
        r == DEFAULT_BITRATE_KBPS,
{
    DEFAULT_BITRATE_KBPS
}

/// Default frames per second.
pub fn default_fps() -> (r: u32)
    ensures
        r == DEFAULT_FPS,
{
    DEFAULT_FPS
}

/// Audio capture is enabled by default.
pub fn default_audio_enabled() -> (r: bool)
    ensures
        r,
{
    true
}

/// Default audio bitrate in kbps.
pub fn default_audio_bitrate_kbps() -> (r: usize)
    ensures
        r == DEFAULT_AUDIO_BITRATE_KBPS,
{
    DEFAULT_AUDIO_BITRATE_KBPS
}

/// Application configuration.
#[derive(Debug)]
pub struct Config {
    /// Duration of the circular buffer in seconds
    pub buffer_duration_secs: u32,
    /// Duration of saved clips in seconds
    pub save_duration_secs: u32,
    /// Video bitrate in kbps
    pub bitrate_kbps: usize,
    /// Frames per second
    pub fps: u32,
    /// Output directory for saved replays
    pub output_directory: String,
    /// Output filename prefix
    pub output_prefix: String,
    /// Hotkey combination for triggering save
    pub hotkey: String,
    /// Video resolution (width, height)
    pub resolution: (u32, u32),
    /// Capture source (output index), or None for the primary display
    pub capture_source: Option<String>,
    /// Encoder to use, or None for auto-detect
    pub encoder: Option<String>,
    /// Whether audio capture is enabled
    pub audio_enabled: bool,
    /// Audio bitrate in kbps
    pub audio_bitrate_kbps: usize,
}

/// The characters of an optional string.
pub open spec fn opt_view(o: Option<String>) -> Option<Seq<char>> {
    match o {
        Some(s) => Some(s@),
        None => None,
    }
}

/// A copy of an optional string.
pub fn copy_opt(o: &Option<String>) -> (r: Option<String>)
    ensures
        r == *o,
{
    match o {
        Some(s) => Some(s.clone()),
        None => None,
    }
}

/// Whether two optional strings are equal.
pub fn opt_str_eq(a: &Option<String>, b: &Option<String>) -> (r: bool)
    ensures
        r == (opt_view(*a) == opt_view(*b)),
{
    match (a, b) {
        (Some(x), Some(y)) => *x == *y,
        (None, None) => true,
        _ => false,
    }
}

impl Clone for Config {
    fn clone(&self) -> (r: Self)
        ensures
            r == *self,
    {
        Config {
            buffer_duration_secs: self.buffer_duration_secs,
            save_duration_secs: self.save_duration_secs,
            bitrate_kbps: self.bitrate_kbps,
            fps: self.fps,
            output_directory: self.output_directory.clone(),
            output_prefix: self.output_prefix.clone(),
            hotkey: self.hotkey.clone(),
            resolution: self.resolution,
            capture_source: copy_opt(&self.capture_source),
            encoder: copy_opt(&self.encoder),
            audio_enabled: self.audio_enabled,
            audio_bitrate_kbps: self.audio_bitrate_kbps,
        }
    }
}

impl Config {
    /// The default configuration, for the user's video directory (looked up by
    /// the caller; `None` when there is none).
    pub fn default_for(video_dir: Option<String>) -> (r: Self)
        ensures
            r.is_default_for(opt_view(video_dir)),
    {
        Config {
            buffer_duration_secs: DEFAULT_BUFFER_DURATION,
            save_duration_secs: DEFAULT_SAVE_DURATION,
            bitrate_kbps: DEFAULT_BITRATE_KBPS,
            fps: DEFAULT_FPS,
            output_directory: output_dir_from(video_dir),
            output_prefix: default_output_prefix(),
            hotkey: default_hotkey(),
            resolution: default_resolution(),
            capture_source: None,
            encoder: None,
            audio_enabled: true,
            audio_bitrate_kbps: DEFAULT_AUDIO_BITRATE_KBPS,
        }
    }
}

/// A configuration as read from a file: a field that the file leaves out is `None`.
#[derive(Debug, Default)]
pub struct PartialConfig {
    pub buffer_duration_secs: Option<u32>,
    pub save_duration_secs: Option<u32>,
    pub bitrate_kbps: Option<usize>,
    pub fps: Option<u32>,
    pub output_directory: Option<String>,
    pub output_prefix: Option<String>,
    pub hotkey: Option<String>,
    pub resolution: Option<(u32, u32)>,
    pub capture_source: Option<String>,
    pub encoder: Option<String>,
    pub audio_enabled: Option<bool>,
    pub audio_bitrate_kbps: Option<usize>,
}

/// The value of an optional field, or its default.
pub open spec fn or_default<T>(o: Option<T>, d: T) -> T {
    match o {
        Some(v) => v,
        None => d,
    }
}

/// What `config_path` gives for a configuration-directory lookup result.
pub open spec fn spec_config_path_result(dir: Option<Seq<char>>, r: Result<String, MebalError>) -> bool {
    match dir {
        Some(d) => r matches Ok(p) && p@ == spec_path_join(spec_path_join(d, "mebal"@), "config.toml"@),
        None => r matches Err(MebalError::Config(m)) && m@ == "Failed to determine config directory"@,
    }
}

/// The first rule a configuration breaks, as its message.
pub open spec fn spec_validation_error(c: Config) -> Option<Seq<char>> {
    if !(c.buffer_duration_secs > 0) {
        Some("Buffer duration must be greater than 0"@)
    } else if !(c.save_duration_secs > 0) {
        Some("Save duration must be greater than 0"@)
    } else if !(c.save_duration_secs + GOP_INTERVAL_SECS <= c.buffer_duration_secs) {
        Some("Save duration + GOP compensation (2s) must not exceed buffer duration"@)
    } else if !(c.bitrate_kbps > 0) {
        Some("Bitrate must be greater than 0"@)
    } else if !(c.fps > 0) {
        Some("FPS must be greater than 0"@)
    } else if !(c.resolution.0 > 0 && c.resolution.1 > 0) {
        Some("Resolution must be valid"@)
    } else {
        None
    }
}

impl Config {
    /// Whether this is the default configuration for the given video directory.
    pub open spec fn is_default_for(self, video_dir: Option<Seq<char>>) -> bool {
        &&& self.buffer_duration_secs == DEFAULT_BUFFER_DURATION
        &&& self.save_duration_secs == DEFAULT_SAVE_DURATION
        &&& self.bitrate_kbps == DEFAULT_BITRATE_KBPS
        &&& self.fps == DEFAULT_FPS
        &&& self.output_directory@ == spec_output_dir(video_dir)
        &&& self.output_prefix@ == "replay"@
        &&& self.hotkey@ == "F9"@
        &&& self.resolution == (2560u32, 1440u32)
        &&& self.capture_source is None
        &&& self.encoder is None
        &&& self.audio_enabled
        &&& self.audio_bitrate_kbps == DEFAULT_AUDIO_BITRATE_KBPS
    }

    /// Whether every rule holds.
    pub open spec fn spec_valid(self) -> bool {
        spec_validation_error(self) is None
    }

    /// Validate configuration values: durations, bitrate, fps and resolution
    /// must be positive, and the save duration plus the GOP compensation must
    /// fit in the buffer duration.
    pub fn validate(&self) -> (r: Result<(), MebalError>)
        ensures
            match spec_validation_error(*self) {
                None => r is Ok,
                Some(msg) => r matches Err(MebalError::Config(m)) && m@ == msg,
            },
    {
        if !(self.buffer_duration_secs > 0) {
            return Err(MebalError::Config(owned("Buffer duration must be greater than 0")));
        }
        if !(self.save_duration_secs > 0) {
            return Err(MebalError::Config(owned("Save duration must be greater than 0")));
        }
        if !(self.save_duration_secs as u64 + GOP_INTERVAL_SECS as u64 <= self.buffer_duration_secs as u64) {
            return Err(
                MebalError::Config(
                    owned("Save duration + GOP compensation (2s) must not exceed buffer duration"),
                ),
            );
        }
        if !(self.bitrate_kbps > 0) {
            return Err(MebalError::Config(owned("Bitrate must be greater than 0")));
        }
        if !(self.fps > 0) {
            return Err(MebalError::Config(owned("FPS must be greater than 0")));
        }
        if !(self.resolution.0 > 0 && self.resolution.1 > 0) {
            return Err(MebalError::Config(owned("Resolution must be valid")));
        }
        Ok(())
    }

    /// The bitrate of everything recorded: video, plus audio when it is enabled.
    pub open spec fn spec_total_bitrate(self) -> int {
        self.bitrate_kbps + if self.audio_enabled {
            self.audio_bitrate_kbps as int
        } else {
            0
        }
    }

    /// The bitrate of everything recorded: video, plus audio when it is enabled.
    pub fn total_bitrate_kbps(&self) -> (r: usize)
        requires
            self.spec_total_bitrate() <= usize::MAX,
        ensures
            r == self.spec_total_bitrate(),
    {
        if self.audio_enabled {
            self.bitrate_kbps + self.audio_bitrate_kbps
        } else {
            self.bitrate_kbps
        }
    }

    /// Whether moving from this configuration to `new` needs a capture restart:
    /// resolution, fps, encoder, bitrate, capture source, audio or buffer
    /// duration changed.
    pub open spec fn spec_needs_restart(self, new: Config) -> bool {
        ||| self.resolution != new.resolution
        ||| self.fps != new.fps
        ||| opt_view(self.encoder) != opt_view(new.encoder)
        ||| self.bitrate_kbps != new.bitrate_kbps
        ||| opt_view(self.capture_source) != opt_view(new.capture_source)
        ||| self.audio_enabled != new.audio_enabled
        ||| self.buffer_duration_secs != new.buffer_duration_secs
    }

    /// Whether moving from this configuration to `new` needs a capture restart.
    pub fn needs_restart(&self, new: &Config) -> (r: bool)
        ensures
            r == self.spec_needs_restart(*new),
    {
        self.resolution.0 != new.resolution.0 || self.resolution.1 != new.resolution.1 || self.fps
            != new.fps || !opt_str_eq(&self.encoder, &new.encoder) || self.bitrate_kbps
            != new.bitrate_kbps || !opt_str_eq(&self.capture_source, &new.capture_source)
            || self.audio_enabled != new.audio_enabled || self.buffer_duration_secs
            != new.buffer_duration_secs
    }

    /// The configuration file path: `config.toml` in the `mebal` directory of the
    /// platform's configuration directory. The directory is looked up in the
    /// environment; `config_path_from` says what follows for each lookup result.
    pub fn config_path() -> (r: Result<String, MebalError>)
        ensures
            exists|dir: Option<Seq<char>>| spec_config_path_result(dir, r),
    {
        let dir = config_dir();
        let ghost d = opt_view(dir);
        let r = Self::config_path_from(dir);
        assert(spec_config_path_result(d, r));
        r
    }

    /// The configuration file path for a configuration directory: `config.toml`
    /// in its `mebal` subdirectory, or an error when there is no directory.
    pub fn config_path_from(dir: Option<String>) -> (r: Result<String, MebalError>)
        ensures
            spec_config_path_result(opt_view(dir), r),
    {
        match dir {
            Some(dir) => {
                let app_dir = path_join(dir.as_str(), "mebal");
                let p = path_join(app_dir.as_str(), "config.toml");
                Ok(p)
            },
            None => Err(MebalError::Config(owned("Failed to determine config directory"))),
        }
    }

    /// The configuration a file describes: each field the file leaves out takes
    /// its default.
    pub fn from_partial(p: PartialConfig, video_dir: Option<String>) -> (r: Config)
        ensures
            r.buffer_duration_secs == or_default(p.buffer_duration_secs, DEFAULT_BUFFER_DURATION),
            r.save_duration_secs == or_default(p.save_duration_secs, DEFAULT_SAVE_DURATION),
            r.bitrate_kbps == or_default(p.bitrate_kbps, DEFAULT_BITRATE_KBPS),
            r.fps == or_default(p.fps, DEFAULT_FPS),
            match p.output_directory {
                Some(d) => r.output_directory == d,
                None => r.output_directory@ == spec_output_dir(opt_view(video_dir)),
            },
            match p.output_prefix {
                Some(d) => r.output_prefix == d,
                None => r.output_prefix@ == "replay"@,
            },
            match p.hotkey {
                Some(d) => r.hotkey == d,
                None => r.hotkey@ == "F9"@,
            },
            r.resolution == or_default(p.resolution, (2560u32, 1440u32)),
            r.capture_source == p.capture_source,
            r.encoder == p.encoder,
            r.audio_enabled == or_default(p.audio_enabled, true),
            r.audio_bitrate_kbps == or_default(p.audio_bitrate_kbps, DEFAULT_AUDIO_BITRATE_KBPS),
    {
        Config {
            buffer_duration_secs: match p.buffer_duration_secs {
                Some(v) => v,
                None => default_buffer_duration(),
            },
            save_duration_secs: match p.save_duration_secs {
                Some(v) => v,
                None => default_save_duration(),
            },
            bitrate_kbps: match p.bitrate_kbps {
                Some(v) => v,
                None => default_bitrate_kbps(),
            },
            fps: match p.fps {
                Some(v) => v,
                None => default_fps(),
            },
            output_directory: match p.output_directory {
                Some(v) => v,
                None => output_dir_from(video_dir),
            },
            output_prefix: match p.output_prefix {
                Some(v) => v,
                None => default_output_prefix(),
            },
            hotkey: match p.hotkey {
                Some(v) => v,
                None => default_hotkey(),
            },
            resolution: match p.resolution {
                Some(v) => v,
                None => default_resolution(),
            },
            capture_source: p.capture_source,
            encoder: p.encoder,
            audio_enabled: match p.audio_enabled {
                Some(v) => v,
                None => default_audio_enabled(),
            },
            audio_bitrate_kbps: match p.audio_bitrate_kbps {
                Some(v) => v,
                None => default_audio_bitrate_kbps(),
            },
        }
    }
}

/// Values given on the command line, which take precedence over the file.
#[derive(Debug, Default)]
pub struct CliOverrides {
    pub hotkey: Option<String>,
    pub buffer_duration: Option<u32>,
    pub save_duration: Option<u32>,
    pub output: Option<String>,
    pub no_audio: bool,
}

impl Config {
    /// Applies command-line values: each given value replaces the configured
    /// one, and `no_audio` disables audio; every other field stays.
    pub fn apply_overrides(&mut self, o: CliOverrides)
        ensures
            final(self).hotkey == or_default(o.hotkey, old(self).hotkey),
            final(self).buffer_duration_secs == or_default(o.buffer_duration, old(self).buffer_duration_secs),
            final(self).save_duration_secs == or_default(o.save_duration, old(self).save_duration_secs),
            final(self).output_directory == or_default(o.output, old(self).output_directory),
            final(self).audio_enabled == (old(self).audio_enabled && !o.no_audio),
            final(self).bitrate_kbps == old(self).bitrate_kbps,
            final(self).fps == old(self).fps,
            final(self).output_prefix == old(self).output_prefix,
            final(self).resolution == old(self).resolution,
            final(self).capture_source == old(self).capture_source,
            final(self).encoder == old(self).encoder,
            final(self).audio_bitrate_kbps == old(self).audio_bitrate_kbps,
    {
        if let Some(hotkey) = o.hotkey {
            self.hotkey = hotkey;
        }
        if let Some(duration) = o.buffer_duration {
            self.buffer_duration_secs = duration;
        }
        if let Some(duration) = o.save_duration {
            self.save_duration_secs = duration;
        }
        if let Some(output) = o.output {
            self.output_directory = output;
        }
        if o.no_audio {
            self.audio_enabled = false;
        }
    }
}

/// Law: a configuration is valid exactly when the buffer and save durations,
/// the bitrate, the fps and both resolution sides are positive and the save
/// duration plus the 2 s GOP compensation fits in the buffer duration; and an
/// invalid one is reported with the message of its first broken rule.
pub proof fn lemma_validation_rules(c: Config)
    ensures
        c.spec_valid() <==> (c.buffer_duration_secs > 0 && c.save_duration_secs > 0
            && c.save_duration_secs + 2 <= c.buffer_duration_secs && c.bitrate_kbps > 0 && c.fps > 0
            && c.resolution.0 > 0 && c.resolution.1 > 0),
        c.buffer_duration_secs == 0 ==> spec_validation_error(c) == Some(
            "Buffer duration must be greater than 0"@,
        ),
        c.buffer_duration_secs > 0 && c.save_duration_secs == 0 ==> spec_validation_error(c) == Some(
            "Save duration must be greater than 0"@,
        ),
        c.buffer_duration_secs > 0 && c.save_duration_secs > 0 && c.save_duration_secs + 2
            > c.buffer_duration_secs ==> spec_validation_error(c) == Some(
            "Save duration + GOP compensation (2s) must not exceed buffer duration"@,
        ),
{
}

/// Law: the recorded bitrate is the video bitrate, plus the audio bitrate
/// exactly when audio is enabled.
pub proof fn lemma_total_bitrate(c: Config)
    ensures
        c.audio_enabled ==> c.spec_total_bitrate() == c.bitrate_kbps + c.audio_bitrate_kbps,
        !c.audio_enabled ==> c.spec_total_bitrate() == c.bitrate_kbps,
{
}

/// Law: the default configuration is a 300 s buffer, 30 s saves, 8000 kbps,
/// 60 fps, 2560x1440, prefix `replay`, hotkey `F9`, audio on at 192 kbps, no
/// capture source or encoder chosen, and saves to the `mebal` folder of the
/// video directory, or `./recordings` without one.
pub proof fn lemma_default_values(c: Config, video_dir: Option<Seq<char>>)
    requires
        c.is_default_for(video_dir),
    ensures
        c.buffer_duration_secs == 300,
        c.save_duration_secs == 30,
        c.bitrate_kbps == 8000,
        c.fps == 60,
        c.resolution == (2560u32, 1440u32),
        c.output_prefix@ == "replay"@,
        c.hotkey@ == "F9"@,
        c.audio_enabled,
        c.audio_bitrate_kbps == 192,
        c.capture_source is None,
        c.encoder is None,
        video_dir matches Some(d) ==> c.output_directory@ == spec_path_join(d, "mebal"@),
        video_dir is None ==> c.output_directory@ == "./recordings"@,
{
}

/// Law: the default configuration satisfies every rule.
pub proof fn lemma_default_is_valid(c: Config, video_dir: Option<Seq<char>>)
    requires
        c.is_default_for(video_dir),
    ensures
        c.spec_valid(),
{
}

/// Law: a change to any capture setting (resolution, fps, encoder, bitrate,
/// capture source, audio on/off, buffer duration) needs a capture restart, and
/// a change to nothing else (output directory, prefix, hotkey, save duration,
/// audio bitrate) does not.
pub proof fn lemma_restart_exactly_on_capture_settings(a: Config, b: Config)
    ensures
        a.resolution != b.resolution ==> a.spec_needs_restart(b),
        a.fps != b.fps ==> a.spec_needs_restart(b),
        opt_view(a.encoder) != opt_view(b.encoder) ==> a.spec_needs_restart(b),
        a.bitrate_kbps != b.bitrate_kbps ==> a.spec_needs_restart(b),
        opt_view(a.capture_source) != opt_view(b.capture_source) ==> a.spec_needs_restart(b),
        a.audio_enabled != b.audio_enabled ==> a.spec_needs_restart(b),
        a.buffer_duration_secs != b.buffer_duration_secs ==> a.spec_needs_restart(b),
        (a.resolution == b.resolution && a.fps == b.fps && opt_view(a.encoder) == opt_view(b.encoder)
            && a.bitrate_kbps == b.bitrate_kbps && opt_view(a.capture_source) == opt_view(
            b.capture_source,
        ) && a.audio_enabled == b.audio_enabled && a.buffer_duration_secs
            == b.buffer_duration_secs) ==> !a.spec_needs_restart(b),
{
}

/// Law: a configuration needs no restart to move to itself, and the need is symmetric.
pub proof fn lemma_needs_restart_reflexive_symmetric(a: Config, b: Config)
    ensures
        !a.spec_needs_restart(a),
        a.spec_needs_restart(b) == b.spec_needs_restart(a),
{
}

} // verus!

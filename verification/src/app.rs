//! Shared application behaviour: naming and placing saved replays.

use crate::config::{path_join, spec_path_join, Config};
use vstd::prelude::*;

verus! {

/// Format (chrono `strftime` syntax) of the local date and time in a replay's
/// file name; the clock is read by the caller.
pub const TIMESTAMP_FORMAT: &'static str = "%Y%m%d_%H%M%S";

/// The file name of a replay: the prefix, an underscore, the timestamp and `.mp4`.
pub open spec fn spec_replay_filename(prefix: Seq<char>, timestamp: Seq<char>) -> Seq<char> {
    prefix + "_"@ + timestamp + ".mp4"@
}

/// The file name of a replay saved at `timestamp`.
pub fn replay_filename(prefix: &str, timestamp: &str) -> (r: String)
    ensures
        r@ == spec_replay_filename(prefix@, timestamp@),
{
    let r = String::from_str(prefix);
    let r = r.concat("_");
    let r = r.concat(timestamp);
    r.concat(".mp4")
}

/// The path a replay saved at `timestamp` is written to: its file name in the
/// configured output directory.
pub fn replay_output_path(config: &Config, timestamp: &str) -> (r: String)
    ensures
        r@ == spec_path_join(
            config.output_directory@,
            spec_replay_filename(config.output_prefix@, timestamp@),
        ),
{
    let name = replay_filename(config.output_prefix.as_str(), timestamp);
    path_join(config.output_directory.as_str(), name.as_str())
}

/// What has happened while saving a replay.
#[derive(Debug, Clone, Copy, PartialEq, Eq, Structural)]
pub enum SaveEvent {
    /// A save was requested.
    Requested,
    /// Whether the output directory could be created.
    OutputDirectory { created: bool },
    /// How many packets the buffer holds for the clip.
    PacketsFetched { count: usize },
    /// The writer finished, successfully, with an error or by panicking.
    WriteFinished,
}

/// What to do next while saving a replay.
#[derive(Debug, Clone, Copy, PartialEq, Eq, Structural)]
pub enum SaveAction {
    /// Another save is in progress: do nothing and report success.
    Ignore,
    /// Create the output directory (the guard is now held).
    CreateOutputDirectory,
    /// Fetch the clip's packets from the buffer.
    FetchPackets,
    /// Report the directory error (the guard is released).
    ReleaseWithError,
    /// Nothing to save: report success (the guard is released).
    ReleaseNothingToSave,
    /// Write the packets to the output file.
    WritePackets,
    /// Report success; a write error is only logged (the guard is released).
    Release,
}

/// The save guard and the next action after an event: `saving` is the guard
/// before the event, the result holds the guard after it.
pub open spec fn spec_save_step(saving: bool, event: SaveEvent) -> (bool, SaveAction) {
    match event {
        SaveEvent::Requested => if saving {
            (true, SaveAction::Ignore)
        } else {
            (true, SaveAction::CreateOutputDirectory)
        },
        SaveEvent::OutputDirectory { created } => if created {
            (saving, SaveAction::FetchPackets)
        } else {
            (false, SaveAction::ReleaseWithError)
        },
        SaveEvent::PacketsFetched { count } => if count == 0 {
            (false, SaveAction::ReleaseNothingToSave)
        } else {
            (saving, SaveAction::WritePackets)
        },
        SaveEvent::WriteFinished => (false, SaveAction::Release),
    }
}

/// The decision after each event of a save, and the save guard after it.
pub fn save_step(saving: bool, event: SaveEvent) -> (r: (bool, SaveAction))
    ensures
        r == spec_save_step(saving, event),
{
    match event {
        SaveEvent::Requested => if saving {
            (true, SaveAction::Ignore)
        } else {
            (true, SaveAction::CreateOutputDirectory)
        },
        SaveEvent::OutputDirectory { created } => if created {
            (saving, SaveAction::FetchPackets)
        } else {
            (false, SaveAction::ReleaseWithError)
        },
        SaveEvent::PacketsFetched { count } => if count == 0 {
            (false, SaveAction::ReleaseNothingToSave)
        } else {
            (saving, SaveAction::WritePackets)
        },
        SaveEvent::WriteFinished => (false, SaveAction::Release),
    }
}

/// Whether an action ends a save.
pub open spec fn ends_save(a: SaveAction) -> bool {
    ||| a is Ignore
    ||| a is ReleaseWithError
    ||| a is ReleaseNothingToSave
    ||| a is Release
}

/// The event that answers an action that does not end a save.
pub open spec fn next_event(a: SaveAction, created: bool, count: usize) -> SaveEvent {
    match a {
        SaveAction::CreateOutputDirectory => SaveEvent::OutputDirectory { created },
        SaveAction::FetchPackets => SaveEvent::PacketsFetched { count },
        _ => SaveEvent::WriteFinished,
    }
}

/// The guard and actions of a whole save, from its request: the directory is
/// created or not (`created`), and the buffer holds `count` packets. The
/// writer always finishes (its errors and panics end as `WriteFinished`).
pub open spec fn spec_save_run(saving: bool, created: bool, count: usize) -> Seq<(bool, SaveAction)> {
    let s1 = spec_save_step(saving, SaveEvent::Requested);
    if ends_save(s1.1) {
        seq![s1]
    } else {
        let s2 = spec_save_step(s1.0, next_event(s1.1, created, count));
        if ends_save(s2.1) {
            seq![s1, s2]
        } else {
            let s3 = spec_save_step(s2.0, next_event(s2.1, created, count));
            if ends_save(s3.1) {
                seq![s1, s2, s3]
            } else {
                let s4 = spec_save_step(s3.0, next_event(s3.1, created, count));
                seq![s1, s2, s3, s4]
            }
        }
    }
}

/// Law: at most one save runs at a time. A request while the guard is held
/// is ignored and leaves the guard held; a request while it is free takes it.
pub proof fn lemma_one_save_at_a_time(saving: bool)
    ensures
        saving ==> spec_save_step(saving, SaveEvent::Requested) == (true, SaveAction::Ignore),
        !saving ==> spec_save_step(saving, SaveEvent::Requested) == (
            true,
            SaveAction::CreateOutputDirectory,
        ),
{
}

/// Law: a save that took the guard releases it on every path (directory
/// error, nothing to save, write finished), and holds it until then.
pub proof fn lemma_save_releases_guard(created: bool, count: usize)
    ensures
        ({
            let run = spec_save_run(false, created, count);
            &&& run.len() >= 2
            &&& ends_save(run.last().1)
            &&& run.last().0 == false
            &&& forall|i: int| 0 <= i < run.len() - 1 ==> (#[trigger] run[i]).0 && !ends_save(run[i].1)
        }),
{
}

/// Law: a replay's file name is the prefix, an underscore, the timestamp and
/// the `.mp4` extension, in that order and nothing else.
pub proof fn lemma_replay_filename_shape(prefix: Seq<char>, timestamp: Seq<char>)
    ensures
        ({
            let n = spec_replay_filename(prefix, timestamp);
            let p = prefix.len() as int;
            let t = timestamp.len() as int;
            &&& n.len() == p + t + 5
            &&& n.subrange(0, p) == prefix
            &&& n[p] == '_'
            &&& n.subrange(p + 1, p + 1 + t) == timestamp
            &&& n.subrange(p + 1 + t, p + t + 5) == seq!['.', 'm', 'p', '4']
        }),
{
    reveal_strlit("_");
    reveal_strlit(".mp4");
    let n = spec_replay_filename(prefix, timestamp);
    let p = prefix.len() as int;
    let t = timestamp.len() as int;
    assert(n.subrange(0, p) =~= prefix);
    assert(n.subrange(p + 1, p + 1 + t) =~= timestamp);
    assert(n.subrange(p + 1 + t, p + t + 5) =~= seq!['.', 'm', 'p', '4']);
}

} // verus!

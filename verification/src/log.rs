//! The log: which lines are kept and shown, and when the file of the log is put aside.

use crate::model::Settings;
use crate::path::{parent, parent_of};
use crate::text::opt_text;
use vstd::prelude::*;

verus! {

/// What a line of the log tells.
#[derive(Debug, Clone, Copy, PartialEq, Eq, Structural)]
pub enum LogKind {
    /// What happened.
    Note,
    /// What is of interest only to a user who asks for details.
    Detail,
    /// That something begins, which may take a while.
    Start,
}

/// Whether a line goes to the file of the log.
pub open spec fn is_kept(kind: LogKind, settings: Settings) -> bool {
    match kind {
        LogKind::Note | LogKind::Start => true,
        LogKind::Detail => settings.verbose && !settings.quiet,
    }
}

/// Whether a line is printed.
pub open spec fn is_shown(kind: LogKind, settings: Settings) -> bool {
    match kind {
        LogKind::Note => !settings.quiet,
        LogKind::Detail | LogKind::Start => settings.verbose && !settings.quiet,
    }
}

/// Where a line goes: whether to the file of the log, and whether to the screen.
pub fn log_targets(kind: LogKind, settings: &Settings) -> (r: (bool, bool))
    ensures
        r.0 == is_kept(kind, *settings),
        r.1 == is_shown(kind, *settings),
{
    let detailed = settings.verbose && !settings.quiet;
    match kind {
        LogKind::Note => (true, !settings.quiet),
        LogKind::Detail => (detailed, detailed),
        LogKind::Start => (true, detailed),
    }
}

/// A line of the log, with the time at which it was written.
pub fn log_line(timestamp: &str, message: &str) -> (r: String)
    ensures
        r@ == timestamp@ + ": "@ + message@,
{
    let mut line = timestamp.to_string();
    line.append(": ");
    line.append(message);
    line
}

/// Where the log is kept, and how large it may get.
#[derive(Debug)]
pub struct LogConfig {
    pub path: String,
    pub max_bytes: u64,
}

impl LogConfig {
    /// The log that the settings ask for.
    pub fn from_settings(settings: &Settings) -> (r: Option<LogConfig>)
        ensures
            match r {
                Some(c) => opt_text(settings.log_file) == Some(c.path@) && c.max_bytes
                    == settings.log_file_max_bytes,
                None => settings.log_file is None,
            },
    {
        match &settings.log_file {
            Some(path) => Some(
                LogConfig { path: path.clone(), max_bytes: settings.log_file_max_bytes },
            ),
            None => None,
        }
    }

    /// The directory of the log.
    pub fn directory(&self) -> (r: Option<String>)
        ensures
            opt_text(r) == parent(self.path@),
    {
        parent_of(self.path.as_str())
    }
}

/// Where the log goes that is put aside, where it is; nowhere otherwise.
pub open spec fn rotated(path: Seq<char>, max_bytes: u64, len: Option<u64>) -> Option<Seq<char>> {
    match len {
        Some(n) if n >= max_bytes => Some(path + ".1"@),
        _ => None,
    }
}

/// A log is put aside exactly where it has reached its size, under its own name with a number.
pub proof fn full_log_is_put_aside(path: Seq<char>, max_bytes: u64, n: u64)
    ensures
        n < max_bytes ==> rotated(path, max_bytes, Some(n)) is None,
        n >= max_bytes ==> rotated(path, max_bytes, Some(n)) == Some(path + seq!['.', '1']),
        rotated(path, max_bytes, None) is None,
{
    reveal_strlit(".1");
    assert(path + ".1"@ =~= path + seq!['.', '1']);
}

/// Where the log goes that is put aside, where the log has reached its size; what was put aside
/// before is removed. `len` is the size of the log, if there is one.
pub fn rotate_log_file(config: &LogConfig, len: Option<u64>) -> (r: Option<String>)
    ensures
        opt_text(r) == match len {
            Some(n) if n >= config.max_bytes => Some(config.path@ + ".1"@),
            _ => None,
        },
        opt_text(r) == rotated(config.path@, config.max_bytes, len),
{
    match len {
        Some(n) => {
            if n < config.max_bytes {
                return None;
            }
            let mut rotated = config.path.clone();
            rotated.append(".1");
            Some(rotated)
        },
        None => None,
    }
}

/// A user who asks for quiet is shown nothing, and is kept everything that happened.
pub proof fn quiet_shows_nothing(kind: LogKind, settings: Settings)
    requires
        settings.quiet,
    ensures
        !is_shown(kind, settings),
        kind != LogKind::Detail ==> is_kept(kind, settings),
{
}

/// What is shown is kept.
pub proof fn what_is_shown_is_kept(kind: LogKind, settings: Settings)
    ensures
        is_shown(kind, settings) ==> is_kept(kind, settings),
{
}

/// Who asks for details is shown all that there is; who does not is shown what happened and no
/// details, unless quiet is asked for.
pub proof fn details_are_shown_on_request(settings: Settings)
    requires
        !settings.quiet,
    ensures
        is_shown(LogKind::Note, settings),
        is_shown(LogKind::Detail, settings) == settings.verbose,
        is_shown(LogKind::Start, settings) == settings.verbose,
        is_kept(LogKind::Detail, settings) == settings.verbose,
        is_kept(LogKind::Start, settings),
{
}

} // verus!

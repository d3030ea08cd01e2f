//! Writing a file: into a temporary file first, which takes the place of the target when it is
//! complete.

use crate::error::{ErrorView, WallpaperError};
use crate::path::{parent, parent_of, temp_path, temporary_file_is_another, unique_temp_path};
use vstd::prelude::*;

verus! {

/// A file to write. The process and the time make the name of the temporary file unique.
pub struct WriteJob {
    pub path: String,
    pub pid: u32,
    pub nanos: u64,
}

/// How far the writing is.
pub enum WriteStage {
    /// The directory of the file is made.
    MakeDir,
    /// The temporary file is written, in full.
    Write,
    /// The temporary file is renamed.
    Rename,
    /// The temporary file is removed; the writing failed.
    Remove(WallpaperError),
    Over,
}

/// What the writing asks for.
pub enum WriteAction {
    MakeDir(String),
    /// Write the bytes to the file and bring them to the disk.
    Write(String),
    Rename { from: String, to: String },
    /// Remove the file; whether that succeeds does not matter.
    Remove(String),
    Finish(Result<(), WallpaperError>),
}

/// What an action brought about.
pub enum WriteEvent {
    Outcome(Result<(), WallpaperError>),
    Done,
}

/// Whether an event can follow the action of a stage.
pub open spec fn write_fits(at: WriteStage, event: WriteEvent) -> bool {
    match at {
        WriteStage::MakeDir | WriteStage::Write | WriteStage::Rename => event is Outcome,
        WriteStage::Remove(_) => event is Done,
        WriteStage::Over => false,
    }
}

/// The temporary file.
pub open spec fn write_temp(job: WriteJob) -> Seq<char> {
    temp_path(job.path@, job.pid as nat, job.nanos as nat)
}

/// Whether the writing ends with `error`.
pub open spec fn write_fails(error: ErrorView, next: WriteStage, action: WriteAction) -> bool {
    next is Over && (action matches WriteAction::Finish(Err(e)) && e@ == error)
}

/// Whether the temporary file is removed, because of `error`.
pub open spec fn gives_up(
    job: WriteJob,
    error: ErrorView,
    next: WriteStage,
    action: WriteAction,
) -> bool {
    &&& next matches WriteStage::Remove(e) && e@ == error
    &&& action matches WriteAction::Remove(path) && path@ == write_temp(job)
}

/// Whether a stage and an action follow when `event` comes at a stage.
pub open spec fn write_advances(
    job: WriteJob,
    at: WriteStage,
    event: WriteEvent,
    next: WriteStage,
    action: WriteAction,
) -> bool {
    match (at, event) {
        (WriteStage::MakeDir, WriteEvent::Outcome(Err(e))) => write_fails(e@, next, action),
        (WriteStage::MakeDir, WriteEvent::Outcome(Ok(_))) => {
            &&& next is Write
            &&& action matches WriteAction::Write(path) && path@ == write_temp(job)
        },
        (WriteStage::Write, WriteEvent::Outcome(Ok(_))) => {
            &&& next is Rename
            &&& action matches WriteAction::Rename { from, to } && from@ == write_temp(job) && to@
                == job.path@
        },
        (WriteStage::Write, WriteEvent::Outcome(Err(e))) => gives_up(job, e@, next, action),
        (WriteStage::Rename, WriteEvent::Outcome(Err(e))) => gives_up(job, e@, next, action),
        (WriteStage::Rename, WriteEvent::Outcome(Ok(_))) => next is Over && action
            == WriteAction::Finish(Ok(())),
        (WriteStage::Remove(e), WriteEvent::Done) => write_fails(e@, next, action),
        _ => false,
    }
}

/// Starts to write a file. A path without a directory is refused.
pub fn write_bytes_atomic(job: &WriteJob) -> (r: (WriteStage, WriteAction))
    ensures
        match parent(job.path@) {
            Some(dir) => r.0 is MakeDir && (r.1 matches WriteAction::MakeDir(path) && path@ == dir),
            None => write_fails(ErrorView::Message("Invalid path: "@ + job.path@), r.0, r.1),
        },
{
    match parent_of(job.path.as_str()) {
        Some(dir) => (WriteStage::MakeDir, WriteAction::MakeDir(dir)),
        None => {
            let mut text = "Invalid path: ".to_string();
            text.append(job.path.as_str());
            (WriteStage::Over, WriteAction::Finish(Err(WallpaperError::Message(text))))
        },
    }
}

/// The next step of the writing.
pub fn write_step(job: &WriteJob, at: WriteStage, event: WriteEvent) -> (r: (
    WriteStage,
    WriteAction,
))
    requires
        write_fits(at, event),
    ensures
        write_advances(*job, at, event, r.0, r.1),
{
    match (at, event) {
        (WriteStage::MakeDir, WriteEvent::Outcome(Err(e))) => (
            WriteStage::Over,
            WriteAction::Finish(Err(e)),
        ),
        (WriteStage::MakeDir, WriteEvent::Outcome(Ok(_))) => (
            WriteStage::Write,
            WriteAction::Write(unique_temp_path(job.path.as_str(), job.pid, job.nanos)),
        ),
        (WriteStage::Write, WriteEvent::Outcome(Ok(_))) => (
            WriteStage::Rename,
            WriteAction::Rename {
                from: unique_temp_path(job.path.as_str(), job.pid, job.nanos),
                to: job.path.clone(),
            },
        ),
        (WriteStage::Write, WriteEvent::Outcome(Err(e))) => (
            WriteStage::Remove(e),
            WriteAction::Remove(unique_temp_path(job.path.as_str(), job.pid, job.nanos)),
        ),
        (WriteStage::Rename, WriteEvent::Outcome(Err(e))) => (
            WriteStage::Remove(e),
            WriteAction::Remove(unique_temp_path(job.path.as_str(), job.pid, job.nanos)),
        ),
        (WriteStage::Rename, WriteEvent::Outcome(Ok(_))) => (
            WriteStage::Over,
            WriteAction::Finish(Ok(())),
        ),
        (WriteStage::Remove(e), WriteEvent::Done) => (
            WriteStage::Over,
            WriteAction::Finish(Err(e)),
        ),
        _ => vstd::pervasive::unreached(),
    }
}

/// The target is touched by a rename alone, and only when the temporary file was written in full.
pub proof fn target_is_replaced_whole(
    job: WriteJob,
    at: WriteStage,
    event: WriteEvent,
    next: WriteStage,
    action: WriteAction,
)
    requires
        write_fits(at, event),
        write_advances(job, at, event, next, action),
    ensures
        action matches WriteAction::Rename { to, .. } ==> at is Write && (event
            matches WriteEvent::Outcome(Ok(_))) && to@ == job.path@,
        action matches WriteAction::Write(path) ==> path@ != job.path@,
        action matches WriteAction::Remove(path) ==> path@ != job.path@,
{
    temporary_file_is_another(job.path@, job.pid as nat, job.nanos as nat);
}

/// When the writing fails after the temporary file was begun, that file is removed before the
/// writing ends.
pub proof fn failed_writing_is_cleaned_up(
    job: WriteJob,
    at: WriteStage,
    event: WriteEvent,
    next: WriteStage,
    action: WriteAction,
)
    requires
        write_fits(at, event),
        write_advances(job, at, event, next, action),
        action matches WriteAction::Finish(Err(_)),
    ensures
        at is MakeDir || at is Remove,
{
}

} // verus!

//! Downloading a file: into a temporary file first, which takes the place of the target when it
//! is complete.
//!
//! A download is a machine. `step` takes the stage that it is at and what the last action brought
//! about, and gives the next stage and the next action.

use crate::checksum::{checksum_text, compute_checksum};
use crate::error::{
    ErrorView, WallpaperError, ensure_http_success, error_text, failure, status_error,
};
use crate::model::{Settings, copy_bytes};
use crate::number::{size_text, size_words};
use crate::path::{
    extension, extension_of, file_name, file_name_of, join_path, parent, parent_of, path_join,
    temp_path, unique_temp_path,
};
use crate::text::{begins_with, opt_text, same, starts_with, texts};
use vstd::prelude::*;

verus! {

// ------------------------------------------------------------------------------------------
// Sizes
// ------------------------------------------------------------------------------------------

/// Why an image of the given size is refused; `None` where it is large enough. `size` is `None`
/// where the image cannot be read.
pub open spec fn size_error(
    min: Option<(u32, u32)>,
    size: Option<(u32, u32)>,
    path: Seq<char>,
) -> Option<ErrorView> {
    match min {
        None => None,
        Some((min_width, min_height)) => match size {
            None => Some(
                ErrorView::Message("Unable to read image dimensions for "@ + path + "."@),
            ),
            Some((width, height)) => if width < min_width || height < min_height {
                Some(ErrorView::MinResolution { width, height, min_width, min_height })
            } else {
                None
            },
        },
    }
}

/// Refuses an image that is smaller than allowed or cannot be read.
pub fn enforce_min_resolution(
    min: Option<(u32, u32)>,
    size: Option<(u32, u32)>,
    path: &str,
) -> (r: Result<(), WallpaperError>)
    ensures
        match r {
            Ok(_) => size_error(min, size, path@) is None,
            Err(e) => size_error(min, size, path@) == Some(e@),
        },
{
    let (min_width, min_height) = match min {
        Some(m) => m,
        None => {
            return Ok(());
        },
    };
    match size {
        None => {
            let mut text = "Unable to read image dimensions for ".to_string();
            text.append(path);
            text.append(".");
            Err(WallpaperError::Message(text))
        },
        Some((width, height)) => if width < min_width || height < min_height {
            Err(WallpaperError::MinResolution { width, height, min_width, min_height })
        } else {
            Ok(())
        },
    }
}

/// What is told about a downloaded image that is refused; nothing about one that is large enough
/// or where there is no minimum. `size` is the size of the image, or why it cannot be read.
pub open spec fn refusal_text(
    min: Option<(u32, u32)>,
    size: Result<(u32, u32), Seq<char>>,
    path: Seq<char>,
) -> Option<Seq<char>> {
    match (min, size) {
        (None, _) => None,
        (Some(_), Err(why)) => Some(
            "Could not read image dimensions for "@ + path + ": "@ + why,
        ),
        (Some(least), Ok(found)) => if found.0 < least.0 || found.1 < least.1 {
            Some(
                "Downloaded image "@ + size_words(found) + " below minimum "@ + size_words(least)
                    + "; skipping."@,
            )
        } else {
            None
        },
    }
}

/// What is told about a downloaded image that is refused.
pub fn refusal_note(
    min: Option<(u32, u32)>,
    size: &Result<(u32, u32), String>,
    path: &str,
) -> (r: Option<String>)
    ensures
        opt_text(r) == refusal_text(
            min,
            match *size {
                Ok(found) => Ok(found),
                Err(why) => Err(why@),
            },
            path@,
        ),
{
    let least = match min {
        Some(m) => m,
        None => {
            return None;
        },
    };
    match size {
        Err(why) => {
            let mut text = "Could not read image dimensions for ".to_string();
            text.append(path);
            text.append(": ");
            text.append(why.as_str());
            Some(text)
        },
        Ok(found) => {
            if found.0 >= least.0 && found.1 >= least.1 {
                return None;
            }
            let mut text = "Downloaded image ".to_string();
            text.append(size_text(*found).as_str());
            text.append(" below minimum ");
            text.append(size_text(least).as_str());
            text.append("; skipping.");
            Some(text)
        },
    }
}

// ------------------------------------------------------------------------------------------
// The machine
// ------------------------------------------------------------------------------------------

/// What a download is for.
pub enum Style {
    /// A file by itself.
    Plain,
    /// A wallpaper of Bing: files of the same schedule in its directory give way to it, and its
    /// metadata is kept beside it. It is copied to its end, whether or not the user cancels.
    Bing { resolution: String, prefix: String, dir: String, metadata: Vec<u8> },
}

/// What is downloaded and where to.
pub struct Job {
    pub url: String,
    pub target: String,
    pub temp: String,
    pub force: bool,
    pub min_resolution: Option<(u32, u32)>,
    pub style: Style,
}

/// How far a download is.
pub enum Stage {
    /// The target is looked for.
    Look,
    /// The directory is made.
    MakeDir,
    /// A leftover temporary file is removed.
    Clear,
    /// The server is asked.
    Open,
    /// The temporary file is created.
    Create,
    /// It is asked whether the user has canceled; only of a plain download.
    Poll,
    /// A piece is read.
    Read,
    /// A piece is written.
    Write,
    /// The temporary file is brought to disk.
    Sync,
    /// The directory is listed.
    List,
    /// Older files are removed.
    Sweep,
    /// The temporary file takes the place of the target.
    Rename,
    /// The image is measured.
    Measure,
    /// An image that was refused is removed.
    Reject(WallpaperError),
    /// The metadata is written.
    Info,
    /// The temporary file of a failed download is removed.
    Fail(WallpaperError),
    /// The target is read for its checksum.
    Hash { skipped: bool },
    /// The download is over.
    Over,
}

/// What is to be done next.
pub enum Action {
    LookFor(String),
    MakeDir(String),
    /// Whether a removal succeeds does not matter.
    RemoveFiles(Vec<String>),
    Send(String),
    CreateFile(String),
    AskCanceled,
    ReadPiece,
    WritePiece,
    SyncFile,
    ListDir(String),
    RenameFile { from: String, to: String },
    MeasureImage(String),
    WriteFile { path: String, bytes: Vec<u8> },
    ReadFile(String),
    Finish(Result<DownloadedImage, WallpaperError>),
}

/// What an action brought about.
pub enum Event {
    Found(bool),
    Done,
    Outcome(Result<(), WallpaperError>),
    /// The status of the answer, or why there is none.
    Answer(Result<u16, SendError>),
    Canceled(bool),
    /// How many bytes were read; none at the end.
    Piece(Result<usize, String>),
    Listing(Result<Vec<String>, WallpaperError>),
    /// The size of an image that can be read.
    Size(Option<(u32, u32)>),
    /// The contents of a file, if there is one.
    Contents(Result<Option<Vec<u8>>, WallpaperError>),
}

/// Why a request got no answer.
pub struct SendError {
    pub timeout: bool,
    pub text: String,
}

/// A file that is there now.
#[derive(Debug)]
pub struct DownloadedImage {
    pub path: String,
    /// Whether the file was there before.
    pub skipped: bool,
    pub image_url: String,
    pub checksum: Option<String>,
}

/// Whether an event can follow the action of a stage.
pub open spec fn fits(at: Stage, event: Event) -> bool {
    match at {
        Stage::Look => event is Found,
        Stage::MakeDir | Stage::Create | Stage::Write | Stage::Sync | Stage::Rename
        | Stage::Info => event is Outcome,
        Stage::Clear | Stage::Sweep | Stage::Reject(_) | Stage::Fail(_) => event is Done,
        Stage::Open => event is Answer,
        Stage::Poll => event is Canceled,
        Stage::Read => event is Piece,
        Stage::List => event is Listing,
        Stage::Measure => event is Size,
        Stage::Hash { .. } => event is Contents,
        Stage::Over => false,
    }
}

/// The error for a request without an answer.
pub open spec fn send_error(job: Job, e: SendError) -> ErrorView {
    match job.style {
        Style::Plain => ErrorView::Request { timeout: e.timeout, text: e.text@ },
        Style::Bing { resolution, .. } => ErrorView::Download {
            resolution: resolution@,
            source: e.text@,
        },
    }
}

/// The error for an answer that is no success.
pub open spec fn answer_error(job: Job, status: u16) -> Option<ErrorView> {
    match job.style {
        Style::Plain => status_error(status, job.url@),
        Style::Bing { resolution, .. } => if status == 200 {
            None
        } else {
            Some(ErrorView::DownloadStatus { resolution: resolution@, status })
        },
    }
}

/// The error for a piece that cannot be written.
pub open spec fn write_error(job: Job, e: ErrorView) -> ErrorView {
    match job.style {
        Style::Plain => e,
        Style::Bing { resolution, .. } => ErrorView::Download {
            resolution: resolution@,
            source: error_text(e),
        },
    }
}

/// The error for a piece that cannot be read.
pub open spec fn read_error(job: Job, text: Seq<char>) -> ErrorView {
    match job.style {
        Style::Plain => ErrorView::Io(text),
        Style::Bing { resolution, .. } => ErrorView::Download {
            resolution: resolution@,
            source: text,
        },
    }
}

/// Whether a file of the directory gives way to the target: another image of the same schedule.
pub open spec fn gives_way(path: Seq<char>, target: Seq<char>, prefix: Seq<char>) -> bool {
    &&& path != target
    &&& extension(path) == Some("jpg"@)
    &&& match file_name(path) {
        Some(name) => begins_with(name, prefix.push('-')),
        None => false,
    }
}

/// Whether `action` removes the one file `path`.
pub open spec fn removes(action: Action, path: Seq<char>) -> bool {
    action matches Action::RemoveFiles(list) && texts(list@) == seq![path]
}

/// Whether the download goes on to fail with `error`: the temporary file is removed first.
pub open spec fn fails(job: Job, error: ErrorView, next: Stage, action: Action) -> bool {
    &&& next matches Stage::Fail(e) && e@ == error
    &&& removes(action, job.temp@)
}

/// Whether the download ends with a file.
pub open spec fn succeeds(
    job: Job,
    skipped: bool,
    checksum: Option<Seq<char>>,
    next: Stage,
    action: Action,
) -> bool {
    &&& next is Over
    &&& action matches Action::Finish(Ok(image)) && image.path@ == job.target@ && image.image_url@
        == job.url@ && image.skipped == skipped && opt_text(image.checksum) == checksum
}

/// Whether the download ends with `error`.
pub open spec fn ends_with(error: ErrorView, next: Stage, action: Action) -> bool {
    &&& next is Over
    &&& action matches Action::Finish(Err(e)) && e@ == error
}

/// What follows once the target is there and large enough.
pub open spec fn settles(job: Job, next: Stage, action: Action) -> bool {
    match job.style {
        Style::Plain => succeeds(job, false, None, next, action),
        Style::Bing { dir, metadata, .. } => {
            &&& next is Info
            &&& action matches Action::WriteFile { path, bytes } && path@ == path_join(
                dir@,
                "info.xml"@,
            ) && bytes@ == metadata@
        },
    }
}

/// Whether a download goes on to the next piece: a plain one asks first whether the user has
/// canceled, one of a Bing image reads on without asking.
pub open spec fn copies_on(job: Job, next: Stage, action: Action) -> bool {
    match job.style {
        Style::Plain => next is Poll && action is AskCanceled,
        Style::Bing { .. } => next is Read && action is ReadPiece,
    }
}

/// Whether a download at the stage `at` goes on to `next` with `action` after `event`.
pub open spec fn advances(job: Job, at: Stage, event: Event, next: Stage, action: Action) -> bool {
    match (at, event) {
        (Stage::Look, Event::Found(found)) => if found && !job.force {
            match job.style {
                Style::Plain => succeeds(job, true, None, next, action),
                Style::Bing { .. } => {
                    &&& next == Stage::Hash { skipped: true }
                    &&& action matches Action::ReadFile(path) && path@ == job.target@
                },
            }
        } else {
            match (job.style, parent(job.target@)) {
                (Style::Plain, Some(dir)) => {
                    &&& next is MakeDir
                    &&& action matches Action::MakeDir(path) && path@ == dir
                },
                _ => next is Clear && removes(action, job.temp@),
            }
        },
        (Stage::MakeDir, Event::Outcome(Ok(_))) => match job.style {
            Style::Plain => next is Clear && removes(action, job.temp@),
            Style::Bing { .. } => {
                &&& next is Open
                &&& action matches Action::Send(url) && url@ == job.url@
            },
        },
        (Stage::MakeDir, Event::Outcome(Err(e))) => match job.style {
            Style::Plain => ends_with(e@, next, action),
            Style::Bing { .. } => fails(job, e@, next, action),
        },
        (Stage::Clear, Event::Done) => match job.style {
            Style::Plain => {
                &&& next is Open
                &&& action matches Action::Send(url) && url@ == job.url@
            },
            Style::Bing { dir, .. } => {
                &&& next is MakeDir
                &&& action matches Action::MakeDir(path) && path@ == dir@
            },
        },
        (Stage::Open, Event::Answer(Err(e))) => fails(job, send_error(job, e), next, action),
        (Stage::Open, Event::Answer(Ok(status))) => match answer_error(job, status) {
            Some(error) => fails(job, error, next, action),
            None => {
                &&& next is Create
                &&& action matches Action::CreateFile(path) && path@ == job.temp@
            },
        },
        (Stage::Create, Event::Outcome(Ok(_))) => copies_on(job, next, action),
        (Stage::Poll, Event::Canceled(canceled)) => if canceled {
            fails(job, ErrorView::Canceled, next, action)
        } else {
            next is Read && action is ReadPiece
        },
        (Stage::Read, Event::Piece(Ok(count))) => if count == 0 {
            next is Sync && action is SyncFile
        } else {
            next is Write && action is WritePiece
        },
        (Stage::Read, Event::Piece(Err(text))) => fails(
            job,
            read_error(job, text@),
            next,
            action,
        ),
        (Stage::Write, Event::Outcome(Ok(_))) => copies_on(job, next, action),
        (Stage::Sync, Event::Outcome(Ok(_))) => match job.style {
            Style::Plain => replaces(job, next, action),
            Style::Bing { dir, .. } => {
                &&& next is List
                &&& action matches Action::ListDir(path) && path@ == dir@
            },
        },
        (Stage::List, Event::Listing(Ok(paths))) => match job.style {
            Style::Plain => replaces(job, next, action),
            Style::Bing { prefix, .. } => {
                &&& next is Sweep
                &&& action matches Action::RemoveFiles(gone) && texts(gone@) == texts(
                    paths@,
                ).filter(|p: Seq<char>| gives_way(p, job.target@, prefix@))
            },
        },
        (Stage::List, Event::Listing(Err(e))) => fails(job, e@, next, action),
        (Stage::Sweep, Event::Done) => replaces(job, next, action),
        (Stage::Rename, Event::Outcome(Ok(_))) => if job.min_resolution is None {
            settles(job, next, action)
        } else {
            &&& next is Measure
            &&& action matches Action::MeasureImage(path) && path@ == job.target@
        },
        (Stage::Measure, Event::Size(size)) => match size_error(
            job.min_resolution,
            size,
            job.target@,
        ) {
            Some(error) => {
                &&& next matches Stage::Reject(e) && e@ == error
                &&& removes(action, job.target@)
            },
            None => settles(job, next, action),
        },
        (Stage::Reject(e), Event::Done) => fails(job, e@, next, action),
        (Stage::Info, Event::Outcome(Ok(_))) => {
            &&& next == Stage::Hash { skipped: false }
            &&& action matches Action::ReadFile(path) && path@ == job.target@
        },
        (Stage::Write, Event::Outcome(Err(e))) => fails(job, write_error(job, e@), next, action),
        (Stage::Create, Event::Outcome(Err(e))) | (Stage::Sync, Event::Outcome(Err(e))) | (
            Stage::Rename,
            Event::Outcome(Err(e)),
        ) | (Stage::Info, Event::Outcome(Err(e))) => fails(job, e@, next, action),
        (Stage::Fail(e), Event::Done) => ends_with(e@, next, action),
        (Stage::Hash { skipped }, Event::Contents(Ok(contents))) => succeeds(
            job,
            skipped,
            match contents {
                Some(bytes) => Some(checksum_text(bytes@)),
                None => None,
            },
            next,
            action,
        ),
        (Stage::Hash { .. }, Event::Contents(Err(e))) => ends_with(e@, next, action),
        _ => false,
    }
}

/// Whether the temporary file takes the place of the target.
pub open spec fn replaces(job: Job, next: Stage, action: Action) -> bool {
    &&& next is Rename
    &&& action matches Action::RenameFile { from, to } && from@ == job.temp@ && to@ == job.target@
}

fn remove_one(path: &str) -> (r: Action)
    ensures
        removes(r, path@),
{
    let list = vec![path.to_string()];
    assert(texts(list@) =~= seq![path@]);
    Action::RemoveFiles(list)
}

fn fail(job: &Job, error: WallpaperError) -> (r: (Stage, Action))
    ensures
        fails(*job, error@, r.0, r.1),
{
    (Stage::Fail(error), remove_one(job.temp.as_str()))
}

fn end(error: WallpaperError) -> (r: (Stage, Action))
    ensures
        ends_with(error@, r.0, r.1),
{
    (Stage::Over, Action::Finish(Err(error)))
}

fn succeed(job: &Job, skipped: bool, checksum: Option<String>) -> (r: (Stage, Action))
    ensures
        succeeds(*job, skipped, opt_text(checksum), r.0, r.1),
{
    (
        Stage::Over,
        Action::Finish(
            Ok(
                DownloadedImage {
                    path: job.target.clone(),
                    skipped,
                    image_url: job.url.clone(),
                    checksum,
                },
            ),
        ),
    )
}

fn copy_on(job: &Job) -> (r: (Stage, Action))
    ensures
        copies_on(*job, r.0, r.1),
{
    match &job.style {
        Style::Plain => (Stage::Poll, Action::AskCanceled),
        Style::Bing { .. } => (Stage::Read, Action::ReadPiece),
    }
}

fn replace_target(job: &Job) -> (r: (Stage, Action))
    ensures
        replaces(*job, r.0, r.1),
{
    (Stage::Rename, Action::RenameFile { from: job.temp.clone(), to: job.target.clone() })
}

fn settle(job: &Job) -> (r: (Stage, Action))
    ensures
        settles(*job, r.0, r.1),
{
    match &job.style {
        Style::Plain => succeed(job, false, None),
        Style::Bing { dir, metadata, .. } => (
            Stage::Info,
            Action::WriteFile {
                path: join_path(dir.as_str(), "info.xml"),
                bytes: copy_bytes(metadata),
            },
        ),
    }
}

/// Whether a file of the directory gives way to the target.
pub fn is_replaced(path: &str, target: &str, prefix: &str) -> (r: bool)
    ensures
        r == gives_way(path@, target@, prefix@),
{
    if same(path, target) {
        return false;
    }
    match extension_of(path) {
        Some(ext) => {
            if !same(ext.as_str(), "jpg") {
                return false;
            }
        },
        None => {
            return false;
        },
    }
    let mut start = prefix.to_string();
    start.push('-');
    match file_name_of(path) {
        Some(name) => starts_with(name.as_str(), start.as_str()),
        None => false,
    }
}

/// The files of the directory that give way to the target.
fn replaced_files(paths: &Vec<String>, target: &str, prefix: &str) -> (r: Vec<String>)
    ensures
        texts(r@) == texts(paths@).filter(|p: Seq<char>| gives_way(p, target@, prefix@)),
{
    let mut out: Vec<String> = Vec::new();
    let ghost all = texts(paths@);
    let ghost gone = |p: Seq<char>| gives_way(p, target@, prefix@);
    let mut i: usize = 0;
    proof {
        reveal(Seq::filter);
        assert(texts(out@) =~= all.take(0).filter(gone));
    }
    while i < paths.len()
        invariant
            i <= paths@.len(),
            all == texts(paths@),
            gone == (|p: Seq<char>| gives_way(p, target@, prefix@)),
            texts(out@) == all.take(i as int).filter(gone),
        decreases paths@.len() - i,
    {
        proof {
            reveal(Seq::filter);
            assert(all.take(i + 1).drop_last() =~= all.take(i as int));
            assert(all.take(i + 1).last() == paths@[i as int]@);
        }
        let ghost before = out@;
        if is_replaced(paths[i].as_str(), target, prefix) {
            out.push(paths[i].clone());
            assert(texts(out@) =~= texts(before).push(paths@[i as int]@));
        }
        i += 1;
    }
    assert(all.take(i as int) =~= all);
    out
}

/// The next stage and action of a download.
pub fn step(job: &Job, at: Stage, event: Event) -> (r: (Stage, Action))
    requires
        fits(at, event),
    ensures
        advances(*job, at, event, r.0, r.1),
{
    match (at, event) {
        (Stage::Look, Event::Found(found)) => {
            if found && !job.force {
                return match &job.style {
                    Style::Plain => succeed(job, true, None),
                    Style::Bing { .. } => (
                        Stage::Hash { skipped: true },
                        Action::ReadFile(job.target.clone()),
                    ),
                };
            }
            if let Style::Plain = &job.style {
                if let Some(dir) = parent_of(job.target.as_str()) {
                    return (Stage::MakeDir, Action::MakeDir(dir));
                }
            }
            (Stage::Clear, remove_one(job.temp.as_str()))
        },
        (Stage::MakeDir, Event::Outcome(Ok(_))) => match &job.style {
            Style::Plain => (Stage::Clear, remove_one(job.temp.as_str())),
            Style::Bing { .. } => (Stage::Open, Action::Send(job.url.clone())),
        },
        (Stage::MakeDir, Event::Outcome(Err(e))) => match &job.style {
            Style::Plain => end(e),
            Style::Bing { .. } => fail(job, e),
        },
        (Stage::Clear, Event::Done) => match &job.style {
            Style::Plain => (Stage::Open, Action::Send(job.url.clone())),
            Style::Bing { dir, .. } => (Stage::MakeDir, Action::MakeDir(dir.clone())),
        },
        (Stage::Open, Event::Answer(Err(e))) => match &job.style {
            Style::Plain => fail(job, WallpaperError::Request { timeout: e.timeout, text: e.text }),
            Style::Bing { resolution, .. } => fail(
                job,
                WallpaperError::Download { resolution: resolution.clone(), source: e.text },
            ),
        },
        (Stage::Open, Event::Answer(Ok(status))) => match &job.style {
            Style::Plain => match ensure_http_success(status, job.url.as_str()) {
                Ok(_) => (Stage::Create, Action::CreateFile(job.temp.clone())),
                Err(e) => fail(job, e),
            },
            Style::Bing { resolution, .. } => if status == 200 {
                (Stage::Create, Action::CreateFile(job.temp.clone()))
            } else {
                fail(
                    job,
                    WallpaperError::DownloadStatus { resolution: resolution.clone(), status },
                )
            },
        },
        (Stage::Create, Event::Outcome(Ok(_))) => copy_on(job),
        (Stage::Poll, Event::Canceled(canceled)) => if canceled {
            fail(job, WallpaperError::Canceled)
        } else {
            (Stage::Read, Action::ReadPiece)
        },
        (Stage::Read, Event::Piece(Ok(count))) => if count == 0 {
            (Stage::Sync, Action::SyncFile)
        } else {
            (Stage::Write, Action::WritePiece)
        },
        (Stage::Read, Event::Piece(Err(text))) => match &job.style {
            Style::Plain => fail(job, WallpaperError::Io(text)),
            Style::Bing { resolution, .. } => fail(
                job,
                WallpaperError::Download { resolution: resolution.clone(), source: text },
            ),
        },
        (Stage::Write, Event::Outcome(Ok(_))) => copy_on(job),
        (Stage::Sync, Event::Outcome(Ok(_))) => match &job.style {
            Style::Plain => replace_target(job),
            Style::Bing { dir, .. } => (Stage::List, Action::ListDir(dir.clone())),
        },
        (Stage::List, Event::Listing(Ok(paths))) => match &job.style {
            Style::Plain => replace_target(job),
            Style::Bing { prefix, .. } => (
                Stage::Sweep,
                Action::RemoveFiles(
                    replaced_files(&paths, job.target.as_str(), prefix.as_str()),
                ),
            ),
        },
        (Stage::List, Event::Listing(Err(e))) => fail(job, e),
        (Stage::Sweep, Event::Done) => replace_target(job),
        (Stage::Rename, Event::Outcome(Ok(_))) => if job.min_resolution.is_none() {
            settle(job)
        } else {
            (Stage::Measure, Action::MeasureImage(job.target.clone()))
        },
        (Stage::Measure, Event::Size(size)) => match enforce_min_resolution(
            job.min_resolution,
            size,
            job.target.as_str(),
        ) {
            Ok(_) => settle(job),
            Err(e) => (Stage::Reject(e), remove_one(job.target.as_str())),
        },
        (Stage::Reject(e), Event::Done) => fail(job, e),
        (Stage::Info, Event::Outcome(Ok(_))) => (
            Stage::Hash { skipped: false },
            Action::ReadFile(job.target.clone()),
        ),
        (Stage::Create, Event::Outcome(Err(e))) => fail(job, e),
        (Stage::Write, Event::Outcome(Err(e))) => match &job.style {
            Style::Plain => fail(job, e),
            Style::Bing { resolution, .. } => fail(
                job,
                WallpaperError::Download { resolution: resolution.clone(), source: e.message() },
            ),
        },
        (Stage::Sync, Event::Outcome(Err(e))) => fail(job, e),
        (Stage::Rename, Event::Outcome(Err(e))) => fail(job, e),
        (Stage::Info, Event::Outcome(Err(e))) => fail(job, e),
        (Stage::Fail(e), Event::Done) => end(e),
        (Stage::Hash { skipped }, Event::Contents(Ok(contents))) => {
            let checksum = match contents {
                Some(bytes) => Some(compute_checksum(&bytes)),
                None => None,
            };
            succeed(job, skipped, checksum)
        },
        (Stage::Hash { .. }, Event::Contents(Err(e))) => end(e),
        _ => vstd::pervasive::unreached(),
    }
}

/// The download of a file by itself.
pub fn plain_job(url: &str, target: &str, settings: &Settings, pid: u32, nanos: u64) -> (r: Job)
    ensures
        r.url@ == url@,
        r.target@ == target@,
        r.temp@ == temp_path(target@, pid as nat, nanos as nat),
        r.force == settings.force,
        r.min_resolution == settings.min_resolution,
        r.style is Plain,
{
    Job {
        url: url.to_string(),
        target: target.to_string(),
        temp: unique_temp_path(target, pid, nanos),
        force: settings.force,
        min_resolution: settings.min_resolution,
        style: Style::Plain,
    }
}

/// Begins the download of a file; offline, it fails at once.
pub fn download_to_path(job: &Job, offline: bool) -> (r: (Stage, Action))
    ensures
        if offline {
            ends_with(
                ErrorView::Message("Offline mode is enabled; downloads are disabled."@),
                r.0,
                r.1,
            )
        } else {
            begins(*job, r.0, r.1)
        },
{
    if offline {
        return end(failure("Offline mode is enabled; downloads are disabled."));
    }
    (Stage::Look, Action::LookFor(job.target.clone()))
}

/// Whether a download begins: its target is looked for.
pub open spec fn begins(job: Job, next: Stage, action: Action) -> bool {
    &&& next is Look
    &&& action matches Action::LookFor(path) && path@ == job.target@
}

// ------------------------------------------------------------------------------------------
// Laws
// ------------------------------------------------------------------------------------------

/// A course of a download: the stages that it goes through, the event at each of them, and the
/// action that follows the event.
pub struct Course {
    pub stages: Seq<Stage>,
    pub events: Seq<Event>,
    pub actions: Seq<Action>,
}

/// Whether the step `i` of a course is one that the download takes.
pub open spec fn step_taken(job: Job, c: Course, i: int) -> bool {
    &&& fits(c.stages[i], c.events[i])
    &&& advances(job, c.stages[i], c.events[i], c.stages[i + 1], c.actions[i])
}

/// Whether a download can take this course.
pub open spec fn possible(job: Job, c: Course) -> bool {
    &&& c.stages.len() == c.events.len() + 1
    &&& c.actions.len() == c.events.len()
    &&& c.stages[0] is Look
    &&& forall|i: int| 0 <= i < c.events.len() ==> #[trigger] step_taken(job, c, i)
}

spec fn phase(at: Stage) -> int {
    match at {
        Stage::Look => 0,
        Stage::MakeDir | Stage::Clear | Stage::Open => 1,
        Stage::Create | Stage::Poll | Stage::Read | Stage::Write | Stage::Sync | Stage::List
        | Stage::Sweep => 2,
        Stage::Rename => 3,
        Stage::Measure | Stage::Reject(_) | Stage::Info => 4,
        Stage::Fail(_) => 5,
        Stage::Hash { .. } => 6,
        Stage::Over => 7,
    }
}

proof fn lemma_phases(job: Job, c: Course, i: int, j: int)
    requires
        possible(job, c),
        0 <= i <= j < c.stages.len(),
    ensures
        phase(c.stages[i]) <= phase(c.stages[j]),
    decreases j - i,
{
    if i < j {
        lemma_phases(job, c, i, j - 1);
        assert(step_taken(job, c, j - 1));
    }
}

/// A download that fails after it created its temporary file has just removed that file, unless
/// the file had taken the place of the target before.
pub proof fn failure_leaves_no_temporary_file(job: Job, c: Course, created: int, failed: int)
    requires
        possible(job, c),
        0 <= created < failed < c.actions.len(),
        c.actions[created] is CreateFile,
        c.actions[failed] matches Action::Finish(Err(_)),
    ensures
        removes(c.actions[failed - 1], job.temp@) || c.stages[failed] is Hash,
{
    assert(step_taken(job, c, created));
    assert(step_taken(job, c, failed));
    assert(step_taken(job, c, failed - 1));
    lemma_phases(job, c, created + 1, failed);
    assert(phase(c.stages[created + 1]) == 2);
}

/// The target is replaced only by a temporary file that holds the whole answer and has been
/// brought to disk.
pub proof fn target_is_replaced_by_complete_files(job: Job, c: Course, i: int)
    requires
        possible(job, c),
        0 <= i < c.actions.len(),
        c.actions[i] is RenameFile,
    ensures
        exists|end: int|
            0 <= end < i && #[trigger] c.stages[end] is Read && c.events[end] == Event::Piece(
                Ok(0),
            ) && c.stages[end + 1] is Sync && c.events[end + 1] matches Event::Outcome(Ok(_)),
        c.actions[i] matches Action::RenameFile { from, to } && from@ == job.temp@ && to@
            == job.target@,
{
    assert(step_taken(job, c, i));
    let sync = if c.stages[i] is Sync {
        i
    } else if c.stages[i] is List {
        assert(step_taken(job, c, i - 1));
        i - 1
    } else {
        assert(c.stages[i] is Sweep);
        assert(step_taken(job, c, i - 1));
        assert(c.stages[i - 1] is List);
        assert(step_taken(job, c, i - 2));
        i - 2
    };
    assert(c.stages[sync] is Sync);
    assert(step_taken(job, c, sync));
    assert(step_taken(job, c, sync - 1));
    assert(c.stages[sync - 1] is Read);
}

/// A plain download reads a piece only right after the user was asked and had not canceled; one of
/// a Bing image never asks, so that a cancel does not end it.
pub proof fn only_plain_downloads_are_canceled(job: Job, c: Course, i: int)
    requires
        possible(job, c),
        0 <= i < c.actions.len(),
    ensures
        job.style is Plain && c.actions[i] is ReadPiece ==> c.events[i] == Event::Canceled(false),
        job.style is Bing ==> !(c.actions[i] is AskCanceled),
{
    assert(step_taken(job, c, i));
}

/// A file that is there already is not asked for again, unless the download is forced.
pub proof fn present_file_is_not_requested(job: Job, c: Course, i: int)
    requires
        possible(job, c),
        c.events.len() > 0,
        c.events[0] == Event::Found(true),
        !job.force,
        0 <= i < c.actions.len(),
    ensures
        !(c.actions[i] is Send),
{
    assert(step_taken(job, c, 0));
    assert(step_taken(job, c, i));
    if i > 0 {
        lemma_phases(job, c, 1, i);
    }
}

/// No file but the temporary file, the target and what gives way to it is ever removed.
pub proof fn only_own_files_are_removed(job: Job, c: Course, i: int, path: Seq<char>)
    requires
        possible(job, c),
        0 <= i < c.actions.len(),
        c.actions[i] matches Action::RemoveFiles(list) && texts(list@).contains(path),
    ensures
        path == job.temp@ || path == job.target@ || (job.style matches Style::Bing { prefix, .. }
            && gives_way(path, job.target@, prefix@)),
{
    assert(step_taken(job, c, i));
    let list = c.actions[i]->RemoveFiles_0;
    if c.stages[i] is List && c.events[i] matches Event::Listing(Ok(_)) {
        let paths = c.events[i]->Listing_0->Ok_0;
        if let Style::Bing { prefix, .. } = job.style {
            let p = |p: Seq<char>| gives_way(p, job.target@, prefix@);
            let k = choose|k: int| 0 <= k < texts(list@).len() && texts(list@)[k] == path;
            texts(paths@).lemma_filter_pred(p, k);
        }
    }
}

/// An image is refused exactly where a size is asked for and it is less wide, less high, or cannot
/// be read; what is told of it goes with that.
pub proof fn small_images_are_refused(min: (u32, u32), size: (u32, u32), path: Seq<char>)
    ensures
        size_error(Some(min), Some(size), path) is None <==> size.0 >= min.0 && size.1 >= min.1,
        size_error(Some(min), None, path) is Some,
        size_error(None, Some(size), path) is None,
        size_error(None, None, path) is None,
        size_error(Some(min), Some(size), path) matches Some(e) ==> e == (
        ErrorView::MinResolution {
            width: size.0,
            height: size.1,
            min_width: min.0,
            min_height: min.1,
        }),
        refusal_text(Some(min), Ok(size), path) is None <==> size.0 >= min.0 && size.1 >= min.1,
        refusal_text(None, Ok(size), path) is None,
{
}

/// An image that is refused is removed, and the download fails; one that is large enough stays.
pub proof fn refused_image_is_removed(
    job: Job,
    min: (u32, u32),
    size: (u32, u32),
    next: Stage,
    action: Action,
)
    requires
        job.min_resolution == Some(min),
        advances(job, Stage::Measure, Event::Size(Some(size)), next, action),
    ensures
        size.0 < min.0 || size.1 < min.1 ==> next is Reject && (action matches Action::RemoveFiles(
            gone,
        ) && texts(gone@) == seq![job.target@]),
        size.0 >= min.0 && size.1 >= min.1 ==> !(next is Reject) && !(action is RemoveFiles),
{
}

/// A download is measured wherever a size is asked for, at the file that it replaced.
pub proof fn downloads_are_measured(job: Job, next: Stage, action: Action)
    requires
        advances(job, Stage::Rename, Event::Outcome(Ok(())), next, action),
    ensures
        job.min_resolution is Some <==> action is MeasureImage,
        action matches Action::MeasureImage(path) ==> path@ == job.target@,
{
}

/// What a download gives is its own target, from its own address, with the checksum of what the
/// target holds, if that is asked for.
pub proof fn download_gives_its_target(job: Job, at: Stage, event: Event, next: Stage, action: Action)
    requires
        fits(at, event),
        advances(job, at, event, next, action),
        action matches Action::Finish(Ok(_)),
    ensures
        action matches Action::Finish(Ok(image)) && image.path@ == job.target@ && image.image_url@
            == job.url@ && (event matches Event::Contents(Ok(Some(bytes))) ==> opt_text(
            image.checksum,
        ) == Some(checksum_text(bytes@))) && (job.style is Bing ==> at is Hash),
{
}

/// What a server sends with another status than 200 is not written anywhere.
pub proof fn only_successes_are_written(job: Job, status: u16, next: Stage, action: Action)
    requires
        advances(job, Stage::Open, Event::Answer(Ok(status)), next, action),
    ensures
        action is CreateFile <==> status == 200,
        action matches Action::CreateFile(path) ==> path@ == job.temp@,
{
}

/// A wallpaper of Bing keeps its metadata beside it.
pub proof fn metadata_is_kept_beside(job: Job, next: Stage, action: Action)
    requires
        job.min_resolution is None,
        advances(job, Stage::Rename, Event::Outcome(Ok(())), next, action),
    ensures
        job.style matches Style::Bing { dir, metadata, .. } ==> (action matches Action::WriteFile {
            path,
            bytes,
        } && path@ == path_join(dir@, "info.xml"@) && bytes@ == metadata@),
        job.style is Plain ==> action matches Action::Finish(Ok(_)),
{
}

/// A file gives way to a new wallpaper only as another image of the same schedule.
pub proof fn only_images_of_the_schedule_give_way(
    path: Seq<char>,
    target: Seq<char>,
    prefix: Seq<char>,
)
    ensures
        gives_way(path, target, prefix) <==> path != target && extension(path) == Some("jpg"@) && (
        file_name(path) matches Some(name) && name.len() > prefix.len() && name.take(
            prefix.len() as int,
        ) == prefix && name[prefix.len() as int] == '-'),
{
    if let Some(name) = file_name(path) {
        let p = prefix.push('-');
        if name.len() >= p.len() {
            let head = name.subrange(0, p.len() as int);
            if head == p {
                assert(name.take(prefix.len() as int) =~= prefix) by {
                    assert forall|i: int| 0 <= i < prefix.len() implies name[i] == prefix[i] by {
                        assert(head[i] == p[i]);
                    }
                }
                assert(head[prefix.len() as int] == '-');
            }
            if name.take(prefix.len() as int) == prefix && name[prefix.len() as int] == '-' {
                assert(head =~= p) by {
                    assert forall|i: int| 0 <= i < p.len() implies head[i] == p[i] by {
                        if i < prefix.len() {
                            assert(name.take(prefix.len() as int)[i] == prefix[i]);
                        }
                    }
                }
            }
        }
    }
}

/// The server is asked at the address of the download, once its directory is there.
pub proof fn own_address_is_asked(job: Job, at: Stage, event: Event, next: Stage, action: Action)
    requires
        fits(at, event),
        advances(job, at, event, next, action),
    ensures
        action matches Action::Send(url) ==> url@ == job.url@ && next is Open,
        at is Look && event == Event::Found(false) ==> !(action matches Action::Finish(_)),
        at is Look && event == Event::Found(true) && job.force ==> !(action matches Action::Finish(
            _,
        )) && !(next is Hash),
{
}

/// Each step of a download works on the files of the download: it looks for, measures and sums
/// its target, fills its temporary file, and makes, lists and tidies the directory of the target.
pub proof fn own_files_are_worked_on(job: Job, at: Stage, event: Event, next: Stage, action: Action)
    requires
        fits(at, event),
        advances(job, at, event, next, action),
    ensures
        action matches Action::ReadFile(path) ==> path@ == job.target@ && next is Hash,
        action matches Action::CreateFile(path) ==> path@ == job.temp@ && next is Create,
        action matches Action::RenameFile { from, to } ==> from@ == job.temp@ && to@ == job.target@
            && next is Rename,
        action matches Action::MakeDir(path) ==> match job.style {
            Style::Plain => parent(job.target@) == Some(path@),
            Style::Bing { dir, .. } => path@ == dir@,
        },
        action matches Action::ListDir(path) ==> (job.style matches Style::Bing { dir, .. } && path@
            == dir@),
        action matches Action::WriteFile { path, .. } ==> (job.style matches Style::Bing { dir, .. }
            && path@ == path_join(dir@, "info.xml"@)),
{
}

/// What fails on the way is told in the end, once the temporary file is gone.
pub proof fn failed_download_is_told(
    job: Job,
    e: WallpaperError,
    at: Stage,
    next: Stage,
    action: Action,
    last: Stage,
    end: Action,
)
    requires
        at is Create || at is Sync || at is Rename || at is Info,
        advances(job, at, Event::Outcome(Err(e)), next, action),
        advances(job, next, Event::Done, last, end),
    ensures
        action matches Action::RemoveFiles(gone) && texts(gone@) == seq![job.temp@],
        end matches Action::Finish(Err(told)) && told@ == e@,
{
}

/// A piece that came is written, and the next one read; with an empty one the file is complete,
/// and takes the place of its target.
pub proof fn pieces_are_written_until_the_end(
    job: Job,
    count: usize,
    next: Stage,
    action: Action,
    after: Stage,
    then_done: Action,
)
    requires
        advances(job, Stage::Read, Event::Piece(Ok(count)), next, action),
        advances(job, Stage::Sync, Event::Outcome(Ok(())), after, then_done),
    ensures
        count > 0 ==> next is Write && action is WritePiece,
        count == 0 ==> next is Sync && action is SyncFile,
        job.style is Plain ==> (then_done matches Action::RenameFile { from, to } && from@
            == job.temp@ && to@ == job.target@),
{
}

/// A download begins by looking for its own target.
pub proof fn own_target_is_looked_for(job: Job, next: Stage, action: Action)
    requires
        begins(job, next, action),
    ensures
        next is Look,
        action matches Action::LookFor(path) && path@ == job.target@,
{
}

/// An image that is refused is told of in the end as it was measured.
pub proof fn refused_image_is_told_of(
    job: Job,
    min: (u32, u32),
    size: (u32, u32),
    a: Stage,
    removed: Action,
    b: Stage,
    cleared: Action,
    c: Stage,
    end: Action,
)
    requires
        job.min_resolution == Some(min),
        size.0 < min.0 || size.1 < min.1,
        advances(job, Stage::Measure, Event::Size(Some(size)), a, removed),
        a is Reject ==> advances(job, a, Event::Done, b, cleared),
        b is Fail ==> advances(job, b, Event::Done, c, end),
    ensures
        a is Reject,
        b is Fail,
        end matches Action::Finish(Err(told)) && told@ == (ErrorView::MinResolution {
            width: size.0,
            height: size.1,
            min_width: min.0,
            min_height: min.1,
        }),
{
}

} // verus!

//! What the sources have in common when they fetch: the actions that they ask for and the events
//! that these bring about.

use crate::download::{DownloadedImage, SendError};
use crate::error::{ErrorView, WallpaperError};
use crate::model::{CacheIndex, CandidateView, WallpaperCandidate, WallpaperSource, candidates};
use crate::sources::FetchResult;
use crate::sources::apod::ApodResponse;
use crate::text::texts;
use vstd::prelude::*;

verus! {

/// What a source asks for.
pub enum FetchAction {
    /// Read the index of a day.
    ReadIndex(String),
    /// Look for files.
    LookFor(Vec<String>),
    ReadFile(String),
    WriteFile { path: String, text: String },
    MakeDir(String),
    /// Put a candidate into the index of a day.
    Upsert { date: String, candidate: WallpaperCandidate },
    /// Note that a source is not to be tried again; whether that succeeds does not matter.
    WriteSkip { date: String, source: WallpaperSource, reason: String },
    /// Ask a server.
    Get(String),
    /// Read what the server sent.
    ReadBody,
    /// Download a wallpaper of Bing.
    DownloadImage { url_base: String, resolution: String, metadata: Vec<u8> },
    /// Download a file.
    DownloadFile { url: String, target: String },
    /// Fit an image to the display; whether that succeeds does not matter.
    Crop(String),
    Finish(Result<FetchResult, WallpaperError>),
}

/// What an action brought about.
pub enum FetchEvent {
    Index(Result<Option<CacheIndex>, WallpaperError>),
    /// For each file that was looked for, whether it is there.
    Present(Vec<bool>),
    /// The contents of a file, if there is one.
    Contents(Result<Option<Vec<u8>>, WallpaperError>),
    Outcome(Result<(), WallpaperError>),
    Done,
    /// The status of an answer, or why there is none.
    Answer(Result<u16, SendError>),
    Body(Result<Vec<u8>, WallpaperError>),
    Text(Result<String, WallpaperError>),
    Picture(Result<ApodResponse, WallpaperError>),
    Downloaded(Result<DownloadedImage, WallpaperError>),
}

/// Whether an action reaches for the network.
pub open spec fn uses_network(action: FetchAction) -> bool {
    ||| action is Get
    ||| action is ReadBody
    ||| action is DownloadImage
    ||| action is DownloadFile
}

/// Whether `action` looks for the one file `path`.
pub open spec fn looks_for(action: FetchAction, path: Seq<char>) -> bool {
    action matches FetchAction::LookFor(list) && texts(list@) == seq![path]
}

/// Whether `action` ends the fetch with one candidate.
pub open spec fn finishes(action: FetchAction, candidate: CandidateView, skipped: bool) -> bool {
    action matches FetchAction::Finish(Ok(found)) && candidates(found.candidates@) == seq![
        candidate,
    ] && found.skipped_download == skipped
}

/// Whether `action` ends the fetch with `error`.
pub open spec fn fails_with(action: FetchAction, error: ErrorView) -> bool {
    action matches FetchAction::Finish(Err(e)) && e@ == error
}

/// Whether `action` puts a candidate into the index of a day.
pub open spec fn upserts(action: FetchAction, day: Seq<char>, c: CandidateView) -> bool {
    action matches FetchAction::Upsert { date, candidate } && date@ == day && candidate@ == c
}

/// Looks for one file.
pub fn look_for(path: String) -> (r: FetchAction)
    ensures
        looks_for(r, path@),
{
    let list = vec![path];
    assert(texts(list@) =~= seq![path@]);
    FetchAction::LookFor(list)
}

/// Ends the fetch with one candidate.
pub fn finish_with(candidate: WallpaperCandidate, skipped: bool) -> (r: FetchAction)
    ensures
        finishes(r, candidate@, skipped),
{
    let found = FetchResult::single(candidate, skipped);
    assert(candidates(found.candidates@) =~= seq![candidate@]);
    FetchAction::Finish(Ok(found))
}

/// The paths of candidates.
pub open spec fn paths_of(list: Seq<CandidateView>) -> Seq<Seq<char>> {
    list.map_values(|c: CandidateView| c.local_path)
}

/// Looks for the files of candidates.
pub fn look_for_candidates(list: &Vec<WallpaperCandidate>) -> (r: FetchAction)
    ensures
        r matches FetchAction::LookFor(paths) && texts(paths@) == paths_of(candidates(list@)),
{
    FetchAction::LookFor(paths_of_candidates(list))
}

/// The paths of candidates.
pub fn paths_of_candidates(list: &Vec<WallpaperCandidate>) -> (r: Vec<String>)
    ensures
        texts(r@) == paths_of(candidates(list@)),
{
    let ghost all = paths_of(candidates(list@));
    let mut out: Vec<String> = Vec::new();
    let mut i: usize = 0;
    while i < list.len()
        invariant
            i <= list@.len(),
            all == paths_of(candidates(list@)),
            texts(out@) == all.take(i as int),
        decreases list@.len() - i,
    {
        let ghost before = out@;
        out.push(list[i].local_path.clone());
        assert(texts(out@) =~= texts(before).push(list@[i as int].local_path@));
        assert(all.take(i + 1) =~= all.take(i as int).push(list@[i as int].local_path@));
        i += 1;
    }
    assert(all.take(i as int) =~= all);
    out
}

} // verus!

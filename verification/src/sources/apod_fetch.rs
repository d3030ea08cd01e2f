//! Fetching the picture of the day.

use crate::cache::{find_candidate_by_id, listed, with_id};
use crate::date::{Date, date_of, date_text, fallback_date_label, has_year_before, is_year_before};
use crate::error::{ErrorView, WallpaperError, ensure_http_success, failure, status_error};
use crate::form::{append_pair, with_pair};
use crate::model::{CandidateView, WallpaperCandidate, WallpaperSource};
use crate::path::{join_path, path_join};
use crate::sources::apod::{ApodResponse, ApodSettings};
use crate::sources::bing::decoded;
use crate::sources::fetch::{
    FetchAction, FetchEvent, fails_with, finish_with, finishes, look_for, looks_for, upserts,
    uses_network,
};
use crate::text::{opt_text, same, stripped, texts, trim};
use crate::xml::utf8_text;
use vstd::prelude::*;

verus! {

/// What is said of a day whose picture of the day is no image.
pub open spec fn not_an_image() -> Seq<char> {
    "APOD media type is not an image; skipping."@
}

/// The address that is asked for the picture of a day.
pub open spec fn apod_url(settings: ApodSettings, date: Seq<char>) -> Seq<char> {
    (match settings.url_override {
        Some(url) => url@,
        None => "https://api.nasa.gov/planetary/apod"@,
    }) + "?"@ + with_pair(
        with_pair(Seq::empty(), "api_key"@, settings.api_key@),
        "date"@,
        date,
    )
}

/// The address that is asked for the picture of a day.
pub fn build_apod_url(settings: &ApodSettings, date: &str) -> (r: String)
    ensures
        r@ == apod_url(*settings, date@),
{
    let empty = String::new();
    assert(empty@ =~= Seq::<char>::empty());
    let query = append_pair(
        append_pair(empty, "api_key", settings.api_key.as_str()),
        "date",
        date,
    );
    let mut out = match &settings.url_override {
        Some(url) => url.clone(),
        None => "https://api.nasa.gov/planetary/apod".to_string(),
    };
    out.append("?");
    out.append(query.as_str());
    out
}

/// What is fetched: the picture of one day.
pub struct ApodJob {
    pub date: String,
    /// The directory of the pictures of that day.
    pub media_dir: String,
    pub force: bool,
    pub offline: bool,
    pub settings: ApodSettings,
}

/// How far a fetch is. `label` is the day whose picture is asked for, and `fallback` says whether
/// another may still be asked for in its place.
pub enum ApodStage {
    /// The index of the day is read.
    ReadIndex { label: String, fallback: bool },
    /// The file of the candidate of the index is looked for.
    Look { candidate: WallpaperCandidate, label: String, fallback: bool },
    /// The note that the day has no image is looked for.
    LookSkip { label: String, fallback: bool },
    /// The note that the day has no image is read.
    ReadSkip,
    /// The server is asked.
    Ask { label: String, fallback: bool },
    /// The answer is read.
    Body { label: String, fallback: bool },
    /// It is noted that the day has no image.
    WriteSkip,
    /// The directory is made.
    MakeDir { picture: ApodResponse, url: String, label: String },
    /// The picture is downloaded.
    Download { picture: ApodResponse, url: String, label: String },
    /// The picture is fitted to the display.
    Crop(WallpaperCandidate),
    /// The candidate is put into the index.
    Store(WallpaperCandidate),
    Over,
}

/// Whether an event can follow the action of a stage.
pub open spec fn apod_fits(at: ApodStage, event: FetchEvent) -> bool {
    match at {
        ApodStage::ReadIndex { .. } => event is Index,
        ApodStage::Look { .. } | ApodStage::LookSkip { .. } => event matches FetchEvent::Present(
            present,
        ) && present@.len() == 1,
        ApodStage::ReadSkip => event is Contents,
        ApodStage::Ask { .. } => event is Answer,
        ApodStage::Body { .. } => event is Picture,
        ApodStage::WriteSkip | ApodStage::MakeDir { .. } | ApodStage::Store(_) => event is Outcome,
        ApodStage::Download { .. } => event is Downloaded,
        ApodStage::Crop(_) => event is Done,
        ApodStage::Over => false,
    }
}

/// The id of the picture of a day.
pub open spec fn apod_id(date: Seq<char>) -> Seq<char> {
    "apod-"@ + date
}

/// The file that notes that a day has no image.
pub open spec fn apod_skip_file(job: ApodJob) -> Seq<char> {
    path_join(job.media_dir@, "apod_skip.txt"@)
}

/// Whether the fetch ends with `error`.
pub open spec fn apod_fails(error: ErrorView, next: ApodStage, action: FetchAction) -> bool {
    next is Over && fails_with(action, error)
}

/// Whether the fetch asks the server for the picture of `label`; offline it fails.
pub open spec fn apod_asks(
    job: ApodJob,
    label: Seq<char>,
    fallback: bool,
    next: ApodStage,
    action: FetchAction,
) -> bool {
    if job.offline {
        apod_fails(
            ErrorView::Message(
                "Offline mode enabled; no cached APOD wallpaper for "@ + job.date@ + "."@,
            ),
            next,
            action,
        )
    } else {
        &&& next matches ApodStage::Ask { label: l, fallback: f } && l@ == label && f == fallback
        &&& action matches FetchAction::Get(url) && url@ == apod_url(job.settings, label)
    }
}

/// What follows when the cache has no picture to use: the note that the day has no image is
/// looked for, unless the fetch is forced.
pub open spec fn checks_skip(
    job: ApodJob,
    label: Seq<char>,
    fallback: bool,
    next: ApodStage,
    action: FetchAction,
) -> bool {
    if job.force {
        apod_asks(job, label, fallback, next, action)
    } else {
        &&& next matches ApodStage::LookSkip { label: l, fallback: f } && l@ == label && f
            == fallback
        &&& looks_for(action, apod_skip_file(job))
    }
}

/// What a note that a day has no image says.
pub open spec fn skip_text(contents: Result<Option<Vec<u8>>, WallpaperError>) -> Seq<char> {
    match contents {
        Ok(Some(bytes)) => match decoded(bytes@) {
            Some(text) if stripped(text).len() > 0 => text,
            _ => not_an_image(),
        },
        _ => not_an_image(),
    }
}

/// Whether `other` is the label of the day one year before the day of `label`.
pub open spec fn is_fallback(label: Seq<char>, other: Seq<char>) -> bool {
    &&& has_fallback(label)
    &&& exists|e: Date|
        #![trigger date_text(e)]
        is_year_before(date_of(label).unwrap(), e) && other == date_text(e)
}

/// Whether a label spells a day that has a day one year before it.
pub open spec fn has_fallback(label: Seq<char>) -> bool {
    date_of(label) is Some && has_year_before(date_of(label).unwrap())
}

/// The address of the picture: the large one, if there is one.
pub open spec fn picture_url(p: ApodResponse) -> Seq<char> {
    match p.hdurl {
        Some(url) => url@,
        None => p.url@,
    }
}

/// What follows an answer: an image is downloaded; for anything else the picture of the year
/// before is asked for, once, and else it is noted that the day has no image.
pub open spec fn apod_takes(
    job: ApodJob,
    label: Seq<char>,
    fallback: bool,
    p: ApodResponse,
    next: ApodStage,
    action: FetchAction,
) -> bool {
    if p.media_type@ != "image"@ {
        if fallback && has_fallback(label) {
            &&& next matches ApodStage::ReadIndex { label: l, fallback: f } && is_fallback(
                label,
                l@,
            ) && !f
            &&& action matches FetchAction::ReadIndex(date) && date@ == job.date@
        } else if job.force {
            apod_fails(ErrorView::Message(not_an_image()), next, action)
        } else {
            &&& next is WriteSkip
            &&& action matches FetchAction::WriteFile { path, text } && path@ == apod_skip_file(
                job,
            ) && text@ == not_an_image()
        }
    } else if picture_url(p).len() == 0 {
        apod_fails(ErrorView::Message("APOD response missing image URL."@), next, action)
    } else {
        &&& next matches ApodStage::MakeDir { picture, url, label: l } && picture == p && url@
            == picture_url(p) && l@ == label
        &&& action matches FetchAction::MakeDir(dir) && dir@ == job.media_dir@
    }
}

/// The candidate for a picture that was downloaded.
pub open spec fn apod_candidate(
    job: ApodJob,
    p: ApodResponse,
    url: Seq<char>,
    label: Seq<char>,
    path: Seq<char>,
) -> CandidateView {
    CandidateView {
        id: apod_id(job.date@),
        source: WallpaperSource::Apod,
        title: opt_text(p.title),
        description: opt_text(p.explanation),
        attribution: opt_text(p.copyright),
        info_url: None,
        image_url: url,
        local_path: path,
        date: label,
        metadata_xml: None,
        checksum: None,
    }
}

/// Whether a fetch at the stage `at` goes on to `next` with `action` after `event`.
pub open spec fn apod_advances(
    job: ApodJob,
    at: ApodStage,
    event: FetchEvent,
    next: ApodStage,
    action: FetchAction,
) -> bool {
    match (at, event) {
        (ApodStage::ReadIndex { .. }, FetchEvent::Index(Err(e))) => apod_fails(e@, next, action),
        (ApodStage::ReadIndex { label, fallback }, FetchEvent::Index(Ok(index))) => match with_id(
            listed(index),
            apod_id(job.date@),
        ) {
            Some(c) => {
                &&& next matches ApodStage::Look { candidate, label: l, fallback: f }
                    && candidate@ == c && l == label && f == fallback
                &&& looks_for(action, c.local_path)
            },
            None => checks_skip(job, label@, fallback, next, action),
        },
        (ApodStage::Look { candidate, label, fallback }, FetchEvent::Present(present)) => {
            if present@[0] && (!job.force || job.offline) {
                next is Over && finishes(action, candidate@, false)
            } else {
                checks_skip(job, label@, fallback, next, action)
            }
        },
        (ApodStage::LookSkip { label, fallback }, FetchEvent::Present(present)) => if present@[0] {
            &&& next is ReadSkip
            &&& action matches FetchAction::ReadFile(path) && path@ == apod_skip_file(job)
        } else {
            apod_asks(job, label@, fallback, next, action)
        },
        (ApodStage::ReadSkip, FetchEvent::Contents(contents)) => apod_fails(
            ErrorView::Message(skip_text(contents)),
            next,
            action,
        ),
        (ApodStage::Ask { .. }, FetchEvent::Answer(Err(e))) => apod_fails(
            ErrorView::Request { timeout: e.timeout, text: e.text@ },
            next,
            action,
        ),
        (ApodStage::Ask { label, fallback }, FetchEvent::Answer(Ok(status))) => match status_error(
            status,
            apod_url(job.settings, label@),
        ) {
            Some(error) => apod_fails(error, next, action),
            None => {
                &&& next matches ApodStage::Body { label: l, fallback: f } && l == label && f
                    == fallback
                &&& action is ReadBody
            },
        },
        (ApodStage::Body { .. }, FetchEvent::Picture(Err(e))) => apod_fails(e@, next, action),
        (ApodStage::Body { label, fallback }, FetchEvent::Picture(Ok(p))) => apod_takes(
            job,
            label@,
            fallback,
            p,
            next,
            action,
        ),
        (ApodStage::WriteSkip, FetchEvent::Outcome(Ok(_))) => apod_fails(
            ErrorView::Message(not_an_image()),
            next,
            action,
        ),
        (ApodStage::MakeDir { picture, url, label }, FetchEvent::Outcome(Ok(_))) => {
            &&& next == ApodStage::Download { picture, url, label }
            &&& action matches FetchAction::DownloadFile { url: u, target } && u@ == url@
                && target@ == path_join(job.media_dir@, "apod_"@ + job.date@ + ".jpg"@)
        },
        (ApodStage::Download { .. }, FetchEvent::Downloaded(Err(e))) => apod_fails(
            e@,
            next,
            action,
        ),
        (ApodStage::Download { picture, url, label }, FetchEvent::Downloaded(Ok(image))) => {
            let c = apod_candidate(job, picture, url@, label@, image.path@);
            if job.settings.crop {
                &&& next matches ApodStage::Crop(kept) && kept@ == c
                &&& action matches FetchAction::Crop(path) && path@ == image.path@
            } else {
                &&& next matches ApodStage::Store(kept) && kept@ == c
                &&& upserts(action, job.date@, c)
            }
        },
        (ApodStage::Crop(c), FetchEvent::Done) => {
            &&& next matches ApodStage::Store(kept) && kept@ == c@
            &&& upserts(action, job.date@, c@)
        },
        (ApodStage::Store(c), FetchEvent::Outcome(Ok(_))) => next is Over && finishes(
            action,
            c@,
            false,
        ),
        (ApodStage::WriteSkip, FetchEvent::Outcome(Err(e))) | (
            ApodStage::MakeDir { .. },
            FetchEvent::Outcome(Err(e)),
        ) | (ApodStage::Store(_), FetchEvent::Outcome(Err(e))) => apod_fails(e@, next, action),
        _ => false,
    }
}

fn apod_fail(error: WallpaperError) -> (r: (ApodStage, FetchAction))
    ensures
        apod_fails(error@, r.0, r.1),
{
    (ApodStage::Over, FetchAction::Finish(Err(error)))
}

fn apod_ask(job: &ApodJob, label: String, fallback: bool) -> (r: (ApodStage, FetchAction))
    ensures
        apod_asks(*job, label@, fallback, r.0, r.1),
{
    if job.offline {
        let mut text = "Offline mode enabled; no cached APOD wallpaper for ".to_string();
        text.append(job.date.as_str());
        text.append(".");
        return apod_fail(WallpaperError::Message(text));
    }
    let url = build_apod_url(&job.settings, label.as_str());
    (ApodStage::Ask { label, fallback }, FetchAction::Get(url))
}

/// The file that notes that a day has no image.
pub fn apod_skip_path(job: &ApodJob) -> (r: String)
    ensures
        r@ == apod_skip_file(*job),
{
    join_path(job.media_dir.as_str(), "apod_skip.txt")
}

fn check_skip(job: &ApodJob, label: String, fallback: bool) -> (r: (ApodStage, FetchAction))
    ensures
        checks_skip(*job, label@, fallback, r.0, r.1),
{
    if job.force {
        return apod_ask(job, label, fallback);
    }
    (ApodStage::LookSkip { label, fallback }, look_for(apod_skip_path(job)))
}

/// What a note that a day has no image says.
pub fn read_apod_skip(contents: Result<Option<Vec<u8>>, WallpaperError>) -> (r: String)
    ensures
        r@ == skip_text(contents),
{
    if let Ok(Some(bytes)) = contents {
        if let Some(text) = utf8_text(&bytes) {
            if !trim(text.as_str()).as_str().is_empty() {
                return text;
            }
        }
    }
    "APOD media type is not an image; skipping.".to_string()
}

fn take(job: &ApodJob, label: String, fallback: bool, p: ApodResponse) -> (r: (
    ApodStage,
    FetchAction,
))
    ensures
        apod_takes(*job, label@, fallback, p, r.0, r.1),
{
    if !same(p.media_type.as_str(), "image") {
        if fallback {
            if let Some(other) = fallback_date_label(label.as_str()) {
                return (
                    ApodStage::ReadIndex { label: other, fallback: false },
                    FetchAction::ReadIndex(job.date.clone()),
                );
            }
        }
        if job.force {
            return apod_fail(failure("APOD media type is not an image; skipping."));
        }
        return (
            ApodStage::WriteSkip,
            FetchAction::WriteFile {
                path: apod_skip_path(job),
                text: "APOD media type is not an image; skipping.".to_string(),
            },
        );
    }
    let url = match &p.hdurl {
        Some(large) => large.clone(),
        None => p.url.clone(),
    };
    if url.as_str().is_empty() {
        return apod_fail(failure("APOD response missing image URL."));
    }
    (
        ApodStage::MakeDir { picture: p, url, label },
        FetchAction::MakeDir(job.media_dir.clone()),
    )
}

/// Begins to fetch the picture of a day: the index of the day is read.
pub fn fetch_apod_candidate(job: &ApodJob) -> (r: (ApodStage, FetchAction))
    ensures
        r.0 matches ApodStage::ReadIndex { label, fallback } && label@ == job.date@ && fallback,
        r.1 matches FetchAction::ReadIndex(date) && date@ == job.date@,
{
    (
        ApodStage::ReadIndex { label: job.date.clone(), fallback: true },
        FetchAction::ReadIndex(job.date.clone()),
    )
}

/// The next stage and action of a fetch.
pub fn apod_step(job: &ApodJob, at: ApodStage, event: FetchEvent) -> (r: (ApodStage, FetchAction))
    requires
        apod_fits(at, event),
    ensures
        apod_advances(*job, at, event, r.0, r.1),
{
    match (at, event) {
        (ApodStage::ReadIndex { .. }, FetchEvent::Index(Err(e))) => apod_fail(e),
        (ApodStage::ReadIndex { label, fallback }, FetchEvent::Index(Ok(index))) => {
            let mut id = "apod-".to_string();
            id.append(job.date.as_str());
            match find_candidate_by_id(index.as_ref(), id.as_str()) {
                Some(candidate) => {
                    let path = candidate.local_path.clone();
                    (ApodStage::Look { candidate, label, fallback }, look_for(path))
                },
                None => check_skip(job, label, fallback),
            }
        },
        (ApodStage::Look { candidate, label, fallback }, FetchEvent::Present(present)) => {
            if present[0] && (!job.force || job.offline) {
                (ApodStage::Over, finish_with(candidate, false))
            } else {
                check_skip(job, label, fallback)
            }
        },
        (ApodStage::LookSkip { label, fallback }, FetchEvent::Present(present)) => if present[0] {
            (ApodStage::ReadSkip, FetchAction::ReadFile(apod_skip_path(job)))
        } else {
            apod_ask(job, label, fallback)
        },
        (ApodStage::ReadSkip, FetchEvent::Contents(contents)) => apod_fail(
            WallpaperError::Message(read_apod_skip(contents)),
        ),
        (ApodStage::Ask { .. }, FetchEvent::Answer(Err(e))) => apod_fail(
            WallpaperError::Request { timeout: e.timeout, text: e.text },
        ),
        (ApodStage::Ask { label, fallback }, FetchEvent::Answer(Ok(status))) => {
            let url = build_apod_url(&job.settings, label.as_str());
            match ensure_http_success(status, url.as_str()) {
                Ok(_) => (ApodStage::Body { label, fallback }, FetchAction::ReadBody),
                Err(e) => apod_fail(e),
            }
        },
        (ApodStage::Body { .. }, FetchEvent::Picture(Err(e))) => apod_fail(e),
        (ApodStage::Body { label, fallback }, FetchEvent::Picture(Ok(p))) => take(
            job,
            label,
            fallback,
            p,
        ),
        (ApodStage::WriteSkip, FetchEvent::Outcome(Ok(_))) => apod_fail(
            failure("APOD media type is not an image; skipping."),
        ),
        (ApodStage::MakeDir { picture, url, label }, FetchEvent::Outcome(Ok(_))) => {
            let mut name = "apod_".to_string();
            name.append(job.date.as_str());
            name.append(".jpg");
            let action = FetchAction::DownloadFile {
                url: url.clone(),
                target: join_path(job.media_dir.as_str(), name.as_str()),
            };
            (ApodStage::Download { picture, url, label }, action)
        },
        (ApodStage::Download { .. }, FetchEvent::Downloaded(Err(e))) => apod_fail(e),
        (ApodStage::Download { picture, url, label }, FetchEvent::Downloaded(Ok(image))) => {
            let path = image.path.clone();
            let mut id = "apod-".to_string();
            id.append(job.date.as_str());
            let c = WallpaperCandidate {
                id,
                source: WallpaperSource::Apod,
                title: picture.title,
                description: picture.explanation,
                attribution: picture.copyright,
                info_url: None,
                image_url: url,
                local_path: image.path,
                date: label,
                metadata_xml: None,
                checksum: None,
            };
            if job.settings.crop {
                return (ApodStage::Crop(c), FetchAction::Crop(path));
            }
            let action = FetchAction::Upsert { date: job.date.clone(), candidate: c.clone() };
            (ApodStage::Store(c), action)
        },
        (ApodStage::Crop(c), FetchEvent::Done) => {
            let action = FetchAction::Upsert { date: job.date.clone(), candidate: c.clone() };
            (ApodStage::Store(c), action)
        },
        (ApodStage::Store(c), FetchEvent::Outcome(Ok(_))) => (
            ApodStage::Over,
            finish_with(c, false),
        ),
        (ApodStage::WriteSkip, FetchEvent::Outcome(Err(e))) => apod_fail(e),
        (ApodStage::MakeDir { .. }, FetchEvent::Outcome(Err(e))) => apod_fail(e),
        (ApodStage::Store(_), FetchEvent::Outcome(Err(e))) => apod_fail(e),
        _ => vstd::pervasive::unreached(),
    }
}

// ------------------------------------------------------------------------------------------
// Laws
// ------------------------------------------------------------------------------------------

/// A course of a fetch: the stages that it goes through, the event at each of them, and the
/// action that follows the event.
pub struct ApodCourse {
    pub stages: Seq<ApodStage>,
    pub events: Seq<FetchEvent>,
    pub actions: Seq<FetchAction>,
}

/// Whether the step `i` of a course is one that the fetch takes.
pub open spec fn apod_step_taken(job: ApodJob, c: ApodCourse, i: int) -> bool {
    &&& apod_fits(c.stages[i], c.events[i])
    &&& apod_advances(job, c.stages[i], c.events[i], c.stages[i + 1], c.actions[i])
}

/// Whether a fetch can take this course.
pub open spec fn apod_possible(job: ApodJob, c: ApodCourse) -> bool {
    &&& c.stages.len() == c.events.len() + 1
    &&& c.actions.len() == c.events.len()
    &&& c.stages[0] matches ApodStage::ReadIndex { label, fallback } && label@ == job.date@
        && fallback
    &&& forall|i: int| 0 <= i < c.events.len() ==> #[trigger] apod_step_taken(job, c, i)
}

spec fn local_stage(at: ApodStage) -> bool {
    ||| at is ReadIndex
    ||| at is Look
    ||| at is LookSkip
    ||| at is ReadSkip
    ||| at is Over
}

proof fn lemma_offline_stages(job: ApodJob, c: ApodCourse, i: int)
    requires
        apod_possible(job, c),
        job.offline,
        0 <= i < c.stages.len(),
    ensures
        local_stage(c.stages[i]),
    decreases i,
{
    if i > 0 {
        lemma_offline_stages(job, c, i - 1);
        assert(apod_step_taken(job, c, i - 1));
    }
}

/// Offline, nothing is ever asked of NASA and nothing is downloaded.
pub proof fn offline_apod_uses_no_network(job: ApodJob, c: ApodCourse, i: int)
    requires
        apod_possible(job, c),
        job.offline,
        0 <= i < c.actions.len(),
    ensures
        !uses_network(c.actions[i]),
{
    lemma_offline_stages(job, c, i);
    assert(apod_step_taken(job, c, i));
}

/// A picture of the cache whose file is there ends the fetch at once, unless it is forced.
pub proof fn cached_picture_is_reused(job: ApodJob, c: ApodCourse, i: int)
    requires
        apod_possible(job, c),
        0 <= i < c.actions.len(),
        !job.force || job.offline,
        c.stages[i] is Look,
        c.events[i] matches FetchEvent::Present(present) && present@[0],
    ensures
        c.stages[i] matches ApodStage::Look { candidate, .. } && finishes(
            c.actions[i],
            candidate@,
            false,
        ),
{
    assert(apod_step_taken(job, c, i));
}

/// A day that was noted as having no image is not asked for again, unless the fetch is forced.
pub proof fn noted_day_is_not_asked_for(job: ApodJob, c: ApodCourse, k: int, i: int)
    requires
        apod_possible(job, c),
        0 <= k <= i < c.actions.len(),
        c.stages[k] is LookSkip,
        c.events[k] matches FetchEvent::Present(present) && present@[0],
    ensures
        !uses_network(c.actions[i]),
{
    assert(apod_step_taken(job, c, k));
    assert(apod_step_taken(job, c, i));
    if i > k {
        assert(apod_step_taken(job, c, k + 1));
        if i > k + 1 {
            assert(apod_step_taken(job, c, k + 2));
        }
    }
}

spec fn may_fall_back(at: ApodStage) -> bool {
    match at {
        ApodStage::ReadIndex { fallback, .. } => fallback,
        ApodStage::Look { fallback, .. } => fallback,
        ApodStage::LookSkip { fallback, .. } => fallback,
        ApodStage::Ask { fallback, .. } => fallback,
        ApodStage::Body { fallback, .. } => fallback,
        _ => false,
    }
}

proof fn lemma_no_second_fallback(job: ApodJob, c: ApodCourse, k: int, i: int)
    requires
        apod_possible(job, c),
        0 <= k <= i < c.stages.len(),
        !may_fall_back(c.stages[k]),
    ensures
        !may_fall_back(c.stages[i]),
    decreases i,
{
    if k < i {
        lemma_no_second_fallback(job, c, k, i - 1);
        assert(apod_step_taken(job, c, i - 1));
    }
}

/// The picture of the year before is tried once only: an answer that is no image sends the fetch
/// back to the index at most once.
pub proof fn fallback_happens_once(job: ApodJob, c: ApodCourse, i: int, j: int)
    requires
        apod_possible(job, c),
        0 <= i < j < c.actions.len(),
        c.stages[i] is Body,
        c.actions[i] is ReadIndex,
    ensures
        !(c.stages[j] is Body && c.actions[j] is ReadIndex),
{
    assert(apod_step_taken(job, c, i));
    assert(apod_step_taken(job, c, j));
    lemma_no_second_fallback(job, c, i + 1, j);
}

/// The picture of an answer is downloaded in full resolution: from the large address where the
/// answer has one, and only without it from the other. It is the address of the candidate, too.
pub proof fn full_resolution_is_downloaded(
    job: ApodJob,
    label: String,
    fallback: bool,
    p: ApodResponse,
    next: ApodStage,
    action: FetchAction,
    then: ApodStage,
    download: FetchAction,
    image: crate::download::DownloadedImage,
    last: ApodStage,
    kept: FetchAction,
)
    requires
        p.media_type@ == "image"@,
        apod_advances(
            job,
            ApodStage::Body { label, fallback },
            FetchEvent::Picture(Ok(p)),
            next,
            action,
        ),
        p.hdurl matches Some(large) ==> large@.len() > 0,
        p.hdurl is None ==> p.url@.len() > 0,
        apod_advances(job, next, FetchEvent::Outcome(Ok(())), then, download),
        apod_advances(job, then, FetchEvent::Downloaded(Ok(image)), last, kept),
    ensures
        next is MakeDir,
        download matches FetchAction::DownloadFile { url, .. } && url@ == (if p.hdurl is Some {
            p.hdurl->0@
        } else {
            p.url@
        }),
        match last {
            ApodStage::Crop(c) => c@.image_url == download->DownloadFile_url@ && c@.local_path
                == image.path@,
            ApodStage::Store(c) => c@.image_url == download->DownloadFile_url@ && c@.local_path
                == image.path@,
            _ => false,
        },
{
}

/// NASA is asked for the day, with the key of the settings.
pub proof fn picture_is_asked_for_by_day_and_key(settings: ApodSettings, date: Seq<char>)
    requires
        crate::form::form_plain_text(date),
        crate::form::form_plain_text(settings.api_key@),
        settings.url_override is None,
    ensures
        apod_url(settings, date) == "https://api.nasa.gov/planetary/apod?api_key="@
            + settings.api_key@ + "&date="@ + date,
{
    reveal_strlit("https://api.nasa.gov/planetary/apod?api_key=");
    reveal_strlit("https://api.nasa.gov/planetary/apod");
    reveal_strlit("?");
    reveal_strlit("api_key");
    reveal_strlit("date");
    reveal_strlit("&date=");
    crate::form::plain_text_is_not_changed("api_key"@);
    crate::form::plain_text_is_not_changed("date"@);
    crate::form::plain_text_is_not_changed(date);
    crate::form::plain_text_is_not_changed(settings.api_key@);
    assert(apod_url(settings, date) =~= "https://api.nasa.gov/planetary/apod?api_key="@
        + settings.api_key@ + "&date="@ + date);
}

/// An answer that is no image is never downloaded: the picture of the year before is looked for,
/// and where that has been tried it is noted, unless forced, that the day has no image.
pub proof fn only_images_are_downloaded(
    job: ApodJob,
    label: String,
    fallback: bool,
    p: ApodResponse,
    next: ApodStage,
    action: FetchAction,
)
    requires
        p.media_type@ != "image"@,
        apod_advances(
            job,
            ApodStage::Body { label, fallback },
            FetchEvent::Picture(Ok(p)),
            next,
            action,
        ),
    ensures
        !uses_network(action),
        !(next is MakeDir) && !(next is Download),
        !fallback && job.force ==> (action matches FetchAction::Finish(Err(_))),
        !fallback && !job.force ==> (action matches FetchAction::WriteFile { path, text } && path@
            == path_join(job.media_dir@, "apod_skip.txt"@) && text@
            == "APOD media type is not an image; skipping."@),
        fallback && has_fallback(label@) ==> (next matches ApodStage::ReadIndex { label: l, fallback: f }
            && !f && is_fallback(label@, l@)),
{
}

/// The picture that stands in for that of a day is of one year before.
pub proof fn fallback_is_of_the_year_before(label: Seq<char>, other: Seq<char>, d: Date)
    requires
        date_of(label) == Some(d),
        d.valid(),
        crate::date::FIRST_YEAR < d.year,
        is_fallback(label, other),
    ensures
        exists|e: Date| #[trigger]
            date_text(e) == other && e.year == d.year - 1 && ((d.month == 2 && d.day == 29) || (
            e.month == d.month && e.day == d.day)),
{
    let e = choose|e: Date|
        #![trigger date_text(e)]
        is_year_before(date_of(label).unwrap(), e) && other == date_text(e);
    crate::date::year_before_keeps_the_day(d, e);
    assert(date_text(e) == other);
}

/// A picture is kept under the day that was asked for, with what NASA tells of it and with the day
/// that it is of; it is fitted to the display where the settings say so.
pub proof fn picture_is_kept(
    job: ApodJob,
    picture: ApodResponse,
    url: String,
    label: String,
    image: crate::download::DownloadedImage,
    next: ApodStage,
    action: FetchAction,
    then: ApodStage,
    stored: FetchAction,
)
    requires
        apod_advances(
            job,
            ApodStage::Download { picture, url, label },
            FetchEvent::Downloaded(Ok(image)),
            next,
            action,
        ),
        job.settings.crop ==> apod_advances(job, next, FetchEvent::Done, then, stored),
        !job.settings.crop ==> then == next && stored == action,
    ensures
        job.settings.crop ==> (action matches FetchAction::Crop(path) && path@ == image.path@),
        stored matches FetchAction::Upsert { date, candidate: c } && date@ == job.date@ && c@.id
            == "apod-"@ + job.date@ && c@.source is Apod && c@.title == opt_text(picture.title)
            && c@.description == opt_text(picture.explanation) && c@.attribution == opt_text(
            picture.copyright,
        ) && c@.image_url == url@ && c@.local_path == image.path@ && c@.date == label@,
{
}

/// NASA is asked where neither the index of the day has its picture nor a note says that it has
/// no image; when forced, whatever they say.
pub proof fn missing_picture_is_asked_for(
    job: ApodJob,
    label: String,
    fallback: bool,
    candidate: WallpaperCandidate,
    present: Vec<bool>,
    next: ApodStage,
    action: FetchAction,
)
    requires
        !job.offline,
        present@.len() == 1,
        (job.force && apod_advances(
            job,
            ApodStage::Look { candidate, label, fallback },
            FetchEvent::Present(present),
            next,
            action,
        )) || (!present@[0] && apod_advances(
            job,
            ApodStage::LookSkip { label, fallback },
            FetchEvent::Present(present),
            next,
            action,
        )),
    ensures
        action matches FetchAction::Get(url) && url@ == apod_url(job.settings, label@),
{
}

/// What fails on the way is told as it is, and ends the fetch.
pub proof fn failure_of_apod_is_told(
    job: ApodJob,
    at: ApodStage,
    event: FetchEvent,
    e: WallpaperError,
    next: ApodStage,
    action: FetchAction,
)
    requires
        apod_advances(job, at, event, next, action),
        at is ReadIndex && event == FetchEvent::Index(Err(e)) || at is Body && event
            == FetchEvent::Picture(Err(e)) || at is Download && event == FetchEvent::Downloaded(
            Err(e),
        ) || (at is WriteSkip || at is MakeDir || at is Store) && event == FetchEvent::Outcome(
            Err(e),
        ),
    ensures
        next is Over,
        action matches FetchAction::Finish(Err(told)) && told@ == e@,
{
}

/// An answer is read if its status is 200, and else the fetch fails.
pub proof fn only_good_answers_of_apod_are_read(
    job: ApodJob,
    at: ApodStage,
    status: u16,
    next: ApodStage,
    action: FetchAction,
)
    requires
        at is Ask,
        apod_advances(job, at, FetchEvent::Answer(Ok(status)), next, action),
    ensures
        status == 200 <==> action is ReadBody,
        status != 200 ==> (action matches FetchAction::Finish(Err(_))),
{
}

/// A day whose picture is no image, and for which no other day is asked, is noted as such beside
/// its files, unless the fetch is forced; the fetch fails either way.
pub proof fn day_without_image_is_noted(
    job: ApodJob,
    label: String,
    p: ApodResponse,
    next: ApodStage,
    action: FetchAction,
    end: ApodStage,
    last: FetchAction,
)
    requires
        p.media_type@ != "image"@,
        apod_advances(
            job,
            ApodStage::Body { label, fallback: false },
            FetchEvent::Picture(Ok(p)),
            next,
            action,
        ),
        apod_advances(
            job,
            ApodStage::WriteSkip,
            FetchEvent::Outcome(Ok(())),
            end,
            last,
        ),
    ensures
        !job.force ==> next is WriteSkip && (action matches FetchAction::WriteFile { path, text }
            && path@ == path_join(job.media_dir@, "apod_skip.txt"@) && text@
            == "APOD media type is not an image; skipping."@),
        job.force ==> (action matches FetchAction::Finish(Err(told)) && told@ == ErrorView::Message(
            "APOD media type is not an image; skipping."@,
        )),
        last matches FetchAction::Finish(Err(told)) && told@ == ErrorView::Message(
            "APOD media type is not an image; skipping."@,
        ),
{
}

/// The picture is cropped where the settings ask for it, and is kept either way.
pub proof fn picture_is_cropped_on_request(
    job: ApodJob,
    picture: ApodResponse,
    url: String,
    label: String,
    image: crate::download::DownloadedImage,
    next: ApodStage,
    action: FetchAction,
)
    requires
        apod_advances(
            job,
            ApodStage::Download { picture, url, label },
            FetchEvent::Downloaded(Ok(image)),
            next,
            action,
        ),
    ensures
        job.settings.crop ==> (action matches FetchAction::Crop(path) && path@ == image.path@),
        !job.settings.crop ==> (action matches FetchAction::Upsert { date, candidate } && date@
            == job.date@ && candidate@.local_path == image.path@),
{
}

/// The files of the picture are handled where they belong: its directory is made, the note of its
/// day is read, and the file that the cache names is looked for.
pub proof fn own_places_are_used(
    job: ApodJob,
    at: ApodStage,
    event: FetchEvent,
    next: ApodStage,
    action: FetchAction,
)
    requires
        apod_fits(at, event),
        apod_advances(job, at, event, next, action),
    ensures
        action matches FetchAction::MakeDir(dir) ==> dir@ == job.media_dir@,
        action matches FetchAction::ReadFile(path) ==> path@ == path_join(
            job.media_dir@,
            "apod_skip.txt"@,
        ),
        action matches FetchAction::LookFor(list) ==> list@.len() == 1 && (match next {
            ApodStage::Look { candidate, .. } => list@[0]@ == candidate@.local_path,
            _ => list@[0]@ == path_join(job.media_dir@, "apod_skip.txt"@),
        }),
        action matches FetchAction::ReadIndex(date) ==> date@ == job.date@,
{
    if let FetchAction::LookFor(list) = action {
        assert(texts(list@).len() == list@.len());
        if list@.len() > 0 {
            assert(texts(list@)[0] == list@[0]@);
        }
    }
}

/// The day that is asked for, and whether another day may stand in for it, stay the same from the
/// cache to the answer.
pub proof fn day_stays_the_same(
    job: ApodJob,
    label: String,
    fallback: bool,
    at: ApodStage,
    event: FetchEvent,
    next: ApodStage,
    action: FetchAction,
)
    requires
        apod_advances(job, at, event, next, action),
        at == (ApodStage::ReadIndex { label, fallback }) || at == (ApodStage::LookSkip {
            label,
            fallback,
        }) || at == (ApodStage::Ask { label, fallback }) || (at matches ApodStage::Look {
            label: l,
            fallback: f,
            ..
        } && l == label && f == fallback),
    ensures
        next matches ApodStage::Look { label: l, fallback: f, .. } ==> l@ == label@ && f
            == fallback,
        next matches ApodStage::LookSkip { label: l, fallback: f } ==> l@ == label@ && f
            == fallback,
        next matches ApodStage::Ask { label: l, fallback: f } ==> l@ == label@ && f == fallback,
        next matches ApodStage::Body { label: l, fallback: f } ==> l@ == label@ && f == fallback,
        action is Get ==> next is Ask,
        action is ReadBody ==> next is Body,
        action is ReadFile ==> next is ReadSkip,
        action is LookFor ==> next is Look || next is LookSkip,
{
}

} // verus!

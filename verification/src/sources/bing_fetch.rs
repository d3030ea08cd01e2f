//! Fetching the wallpaper of the day of Bing.

use crate::cache::{find_candidate, find_candidates_by_source, of_source};
use crate::checksum::{checksum_text, compute_checksum};
use crate::download::{DownloadedImage, Job, Style};
use crate::error::{
    ErrorView, WallpaperError, ensure_http_success, error_text, failure, status_error,
};
use crate::model::{
    CacheIndex, CandidateView, Settings, WallpaperCandidate, WallpaperSource, candidates,
    copy_bytes,
};
use crate::path::{
    join_path, lies_in, parent, parent_of, path_join, path_lies_in, temp_path, unique_temp_path,
};
use crate::sources::bing::{
    BingMetadata, BingSettings, archive_url, build_archive_url, date_of_document, date_of_text,
    decoded, document, document_date, metadata_of, plain_filename, sanitize_filename, text_date,
};
use crate::sources::fetch::{
    FetchAction, FetchEvent, fails_with, finish_with, finishes, look_for, look_for_candidates,
    looks_for, paths_of, upserts, uses_network,
};
use crate::text::{
    Class, begins_with, letters, opt_text, replace, replaced, same, starts_with, text_of, texts,
    trim_start, trim_start_of,
};
use crate::xml::{XmlNode, first_text, node_views, parse_nodes, text_named, utf8_text};
use vstd::prelude::*;

verus! {

// ------------------------------------------------------------------------------------------
// What the cache has
// ------------------------------------------------------------------------------------------

/// How the ids of a country's candidates of one day begin.
pub open spec fn id_prefix(date: Seq<char>, country: Seq<char>) -> Seq<char> {
    "bing-"@ + date + "-"@ + country + "-"@
}

/// The candidates of one day for a country: those whose ids say so, or, for `en-US`, any
/// candidate of Bing.
pub open spec fn country_matches(
    all: Seq<CandidateView>,
    date: Seq<char>,
    country: Seq<char>,
) -> Seq<CandidateView> {
    let named = all.filter(|c: CandidateView| c.source == WallpaperSource::Bing).filter(
        |c: CandidateView| begins_with(c.id, id_prefix(date, country)),
    );
    if named.len() == 0 && country == "en-US"@ {
        match of_source(all, WallpaperSource::Bing) {
            Some(c) => seq![c],
            None => Seq::empty(),
        }
    } else {
        named
    }
}

/// The candidates of one day for a country.
pub fn matches_for_country(index: Option<&CacheIndex>, date: &str, country: &str) -> (r: Vec<
    WallpaperCandidate,
>)
    ensures
        candidates(r@) == country_matches(
            match index {
                Some(i) => i@.candidates,
                None => Seq::empty(),
            },
            date@,
            country@,
        ),
{
    let mut prefix = "bing-".to_string();
    prefix.append(date);
    prefix.append("-");
    prefix.append(country);
    prefix.append("-");
    let list = find_candidates_by_source(index, WallpaperSource::Bing);
    let ghost all = candidates(list@);
    let ghost p = |c: CandidateView| begins_with(c.id, id_prefix(date@, country@));
    let mut out: Vec<WallpaperCandidate> = Vec::new();
    let mut i: usize = 0;
    proof {
        reveal(Seq::filter);
        assert(candidates(out@) =~= all.take(0).filter(p));
        if index is None {
            assert(all =~= Seq::<CandidateView>::empty().filter(
                |c: CandidateView| c.source == WallpaperSource::Bing,
            ));
        }
    }
    while i < list.len()
        invariant
            i <= list@.len(),
            all == candidates(list@),
            prefix@ == id_prefix(date@, country@),
            p == (|c: CandidateView| begins_with(c.id, id_prefix(date@, country@))),
            candidates(out@) == all.take(i as int).filter(p),
        decreases list@.len() - i,
    {
        proof {
            reveal(Seq::filter);
            assert(all.take(i + 1).drop_last() =~= all.take(i as int));
            assert(all.take(i + 1).last() == list@[i as int]@);
        }
        let ghost before = out@;
        if starts_with(list[i].id.as_str(), prefix.as_str()) {
            out.push(list[i].clone());
            assert(candidates(out@) =~= candidates(before).push(list@[i as int]@));
        }
        i += 1;
    }
    assert(all.take(i as int) =~= all);
    assert(candidates(out@).len() == out@.len());
    if out.len() == 0 && same(country, "en-US") {
        match find_candidate(index, WallpaperSource::Bing) {
            Some(c) => {
                out.push(c);
                assert(candidates(out@) =~= seq![c@]);
            },
            None => {
                assert(candidates(out@) =~= Seq::<CandidateView>::empty());
            },
        }
    }
    out
}

/// The resolution that an id ends with: what follows its last hyphen.
pub open spec fn id_resolution(id: Seq<char>) -> Seq<char>
    decreases id.len(),
{
    if id.len() == 0 || id.last() == '-' {
        Seq::empty()
    } else {
        id_resolution(id.drop_last()).push(id.last())
    }
}

/// The place of a text in a list; the length of the list where it is not there.
pub open spec fn place(list: Seq<Seq<char>>, t: Seq<char>) -> int
    decreases list.len(),
{
    if list.len() == 0 || list[0] == t {
        0
    } else {
        1 + place(list.drop_first(), t)
    }
}

/// How early the resolution of a candidate is tried.
pub open spec fn rank(c: CandidateView, resolutions: Seq<Seq<char>>) -> int {
    place(resolutions, id_resolution(c.id))
}

/// Whether the candidate `i` can be preferred: its file is there, and lies in the cache if the
/// file of any candidate that is there does.
pub open spec fn eligible(
    all: Seq<CandidateView>,
    present: Seq<bool>,
    dir: Seq<char>,
    i: int,
) -> bool {
    &&& present[i]
    &&& lies_in(all[i].local_path, dir) || forall|j: int|
        0 <= j < all.len() && present[j] ==> !lies_in((#[trigger] all[j]).local_path, dir)
}

/// Whether the candidate `i` is the one to use: the first of those with the resolution that is
/// tried earliest; the first of all where no file is there.
pub open spec fn is_best(
    all: Seq<CandidateView>,
    present: Seq<bool>,
    dir: Seq<char>,
    resolutions: Seq<Seq<char>>,
    i: int,
) -> bool {
    &&& 0 <= i < all.len()
    &&& if exists|j: int| 0 <= j < all.len() && #[trigger] present[j] {
        &&& eligible(all, present, dir, i)
        &&& forall|j: int|
            0 <= j < all.len() && #[trigger] eligible(all, present, dir, j) ==> rank(
                all[i],
                resolutions,
            ) < rank(all[j], resolutions) || (rank(all[i], resolutions) == rank(
                all[j],
                resolutions,
            ) && i <= j)
    } else {
        i == 0
    }
}

fn resolution_of_id(id: &str) -> (r: String)
    ensures
        r@ == id_resolution(id@),
{
    let v = letters(id);
    let mut from: usize = v.len();
    assert(v@.take(v@.len() as int) =~= v@);
    assert(v@.skip(from as int) =~= Seq::<char>::empty());
    assert(id_resolution(v@) =~= id_resolution(v@.take(from as int)) + v@.skip(from as int));
    while from > 0 && v[from - 1] != '-'
        invariant
            from <= v@.len(),
            id_resolution(v@) == id_resolution(v@.take(from as int)) + v@.skip(from as int),
        decreases from,
    {
        let ghost t = v@.take(from as int);
        assert(t.drop_last() =~= v@.take(from - 1));
        assert(id_resolution(t).last() == v@[from - 1]);
        assert(id_resolution(t) + v@.skip(from as int) =~= id_resolution(v@.take(from - 1))
            + v@.skip(from - 1));
        from -= 1;
    }
    assert(id_resolution(v@.take(from as int)) =~= Seq::<char>::empty());
    assert(v@.subrange(from as int, v@.len() as int) =~= v@.skip(from as int));
    let r = text_of(&v, from, v.len());
    assert(r@ =~= id_resolution(v@));
    r
}

fn place_of(list: &Vec<String>, t: &str) -> (r: usize)
    ensures
        r == place(texts(list@), t@),
        r <= list@.len(),
{
    let ghost all = texts(list@);
    let mut i: usize = 0;
    assert(all.skip(0) =~= all);
    while i < list.len() && !same(list[i].as_str(), t)
        invariant
            i <= list@.len(),
            all == texts(list@),
            place(all, t@) == i + place(all.skip(i as int), t@),
        decreases list@.len() - i,
    {
        assert(all.skip(i as int)[0] == list@[i as int]@);
        assert(all.skip(i as int).drop_first() =~= all.skip(i + 1));
        i += 1;
    }
    if i < list.len() {
        assert(all.skip(i as int)[0] == list@[i as int]@);
    }
    i
}

/// The candidate to use, by its position; `present` says for each whether its file is there.
pub fn best_candidate(
    list: &Vec<WallpaperCandidate>,
    present: &Vec<bool>,
    dir: &str,
    resolutions: &Vec<String>,
) -> (r: usize)
    requires
        list@.len() > 0,
        present@.len() == list@.len(),
    ensures
        is_best(candidates(list@), present@, dir@, texts(resolutions@), r as int),
{
    let ghost all = candidates(list@);
    let mut some_in_cache = false;
    let mut i: usize = 0;
    while i < list.len()
        invariant
            i <= list@.len(),
            all == candidates(list@),
            present@.len() == list@.len(),
            some_in_cache <==> exists|j: int|
                0 <= j < i && present@[j] && lies_in((#[trigger] all[j]).local_path, dir@),
        decreases list@.len() - i,
    {
        if present[i] && path_lies_in(list[i].local_path.as_str(), dir) {
            assert(lies_in(all[i as int].local_path, dir@));
            some_in_cache = true;
        }
        i += 1;
    }
    let mut best: usize = 0;
    let mut best_rank: usize = 0;
    let mut found = false;
    i = 0;
    while i < list.len()
        invariant
            i <= list@.len(),
            all == candidates(list@),
            present@.len() == list@.len(),
            some_in_cache <==> exists|j: int|
                0 <= j < all.len() && present@[j] && lies_in(
                    (#[trigger] all[j]).local_path,
                    dir@,
                ),
            !found ==> best == 0 && forall|j: int|
                0 <= j < i ==> !#[trigger] eligible(all, present@, dir@, j),
            found ==> {
                &&& best < i
                &&& eligible(all, present@, dir@, best as int)
                &&& best_rank == rank(all[best as int], texts(resolutions@))
                &&& forall|j: int|
                    0 <= j < i && #[trigger] eligible(all, present@, dir@, j) ==> best_rank < rank(
                        all[j],
                        texts(resolutions@),
                    ) || (best_rank == rank(all[j], texts(resolutions@)) && best <= j)
            },
        decreases list@.len() - i,
    {
        let fit = present[i] && (!some_in_cache || path_lies_in(
            list[i].local_path.as_str(),
            dir,
        ));
        proof {
            if present@[i as int] && !some_in_cache {
                assert forall|j: int| 0 <= j < all.len() && present@[j] implies !lies_in(
                    (#[trigger] all[j]).local_path,
                    dir@,
                ) by {}
            }
            if some_in_cache {
                let w = choose|j: int|
                    0 <= j < all.len() && present@[j] && lies_in(
                        (#[trigger] all[j]).local_path,
                        dir@,
                    );
                assert(present@[w] && lies_in(all[w].local_path, dir@));
            }
            assert(fit == eligible(all, present@, dir@, i as int));
        }
        if fit {
            let r = place_of(resolutions, resolution_of_id(list[i].id.as_str()).as_str());
            if !found || r < best_rank {
                best = i;
                best_rank = r;
                found = true;
            }
        }
        i += 1;
    }
    proof {
        if exists|j: int| 0 <= j < all.len() && #[trigger] present@[j] {
            let j = choose|j: int| 0 <= j < all.len() && #[trigger] present@[j];
            if some_in_cache {
                let w = choose|j: int|
                    0 <= j < all.len() && present@[j] && lies_in(
                        (#[trigger] all[j]).local_path,
                        dir@,
                    );
                assert(eligible(all, present@, dir@, w));
            } else {
                assert(eligible(all, present@, dir@, j));
            }
            assert(found);
        } else {
            assert(!found) by {
                if found {
                    assert(present@[best as int]);
                }
            }
        }
    }
    best
}

// ------------------------------------------------------------------------------------------
// One image
// ------------------------------------------------------------------------------------------

/// The name of an image at Bing.
pub open spec fn image_name(url_base: Seq<char>, resolution: Seq<char>) -> Seq<char> {
    url_base + "_"@ + resolution + ".jpg"@
}

/// The address of an image.
pub open spec fn image_url(
    proto: Seq<char>,
    host: Seq<char>,
    url_base: Seq<char>,
    resolution: Seq<char>,
) -> Seq<char> {
    proto + "://"@ + host + "/"@ + trim_start(image_name(url_base, resolution), Class::One('/'))
}

/// How the names of the files of a schedule begin; with several countries, the country is part
/// of it.
pub open spec fn file_prefix(name: Seq<char>, country: Seq<char>, countries: nat) -> Seq<char> {
    if countries > 1 {
        name + "-"@ + country
    } else {
        name
    }
}

/// The name of the file that an image is kept in.
pub open spec fn image_file(
    prefix: Seq<char>,
    filename: Option<Seq<char>>,
    url_base: Seq<char>,
    resolution: Seq<char>,
) -> Seq<char> {
    prefix + "-"@ + match filename {
        Some(name) => plain_filename(name),
        None => replaced(image_name(url_base, resolution), "/th?id="@, ""@),
    }
}

/// The download of an image of Bing. It starts by looking for its target.
pub fn download_image(
    url_base: &str,
    resolution: &str,
    bing: &BingSettings,
    country: &str,
    settings: &Settings,
    metadata: &Vec<u8>,
    media_dir: &str,
    pid: u32,
    nanos: u64,
) -> (r: Job)
    ensures
        r.url@ == image_url(settings.proto@, bing.host@, url_base@, resolution@),
        r.force == settings.force,
        r.min_resolution == settings.min_resolution,
        r.target@ == path_join(
            media_dir@,
            image_file(
                file_prefix(settings.auto_update_name@, country@, bing.countries@.len()),
                opt_text(settings.filename),
                url_base@,
                resolution@,
            ),
        ),
        r.temp@ == temp_path(r.target@, pid as nat, nanos as nat),
        r.style matches Style::Bing { resolution: res, prefix, dir, metadata: kept } && res@
            == resolution@ && prefix@ == file_prefix(
            settings.auto_update_name@,
            country@,
            bing.countries@.len(),
        ) && dir@ == media_dir@ && kept@ == metadata@,
{
    let mut file = url_base.to_string();
    file.append("_");
    file.append(resolution);
    file.append(".jpg");
    let mut url = settings.proto.clone();
    url.append("://");
    url.append(bing.host.as_str());
    url.append("/");
    url.append(trim_start_of(file.as_str(), Class::One('/')).as_str());
    let mut prefix = settings.auto_update_name.clone();
    if bing.countries.len() > 1 {
        prefix.append("-");
        prefix.append(country);
    }
    let name = match &settings.filename {
        Some(asked) => sanitize_filename(asked.as_str()),
        None => {
            proof {
                reveal_strlit("/th?id=");
            }
            replace(file.as_str(), "/th?id=", "")
        },
    };
    let mut local = prefix.clone();
    local.append("-");
    local.append(name.as_str());
    let target = join_path(media_dir, local.as_str());
    let temp = unique_temp_path(target.as_str(), pid, nanos);
    Job {
        url,
        target,
        temp,
        force: settings.force,
        min_resolution: settings.min_resolution,
        style: Style::Bing {
            resolution: resolution.to_string(),
            prefix,
            dir: media_dir.to_string(),
            metadata: copy_bytes(metadata),
        },
    }
}

// ------------------------------------------------------------------------------------------
// The response
// ------------------------------------------------------------------------------------------

/// What a response of Bing says about the wallpaper of a day.
pub struct BingPage {
    pub url_base: String,
    pub body: Vec<u8>,
    pub text: String,
    pub metadata: BingMetadata,
    pub date: Option<String>,
}

/// Why a response cannot be used; `None` where it can.
pub open spec fn page_error(body: Seq<u8>) -> Option<ErrorView> {
    match document(body) {
        None => Some(ErrorView::MetadataParse),
        Some(nodes) => if text_named(nodes, "urlBase"@) is None {
            Some(ErrorView::MissingImageUrl)
        } else {
            None
        },
    }
}

impl BingPage {
    /// Whether this is what a response with the given text and nodes says.
    pub open spec fn says(
        self,
        text: Seq<char>,
        nodes: Seq<(Seq<char>, Option<Seq<char>>)>,
    ) -> bool {
        &&& text_named(nodes, "urlBase"@) == Some(self.url_base@)
        &&& self.text@ == text
        &&& opt_text(self.metadata.headline) == text_named(nodes, "headline"@)
        &&& opt_text(self.metadata.copyright) == text_named(nodes, "copyright"@)
        &&& opt_text(self.metadata.copyright_link) == text_named(nodes, "copyrightlink"@)
        &&& opt_text(self.date) == document_date(nodes)
    }

    /// Whether this is what the response `body` says.
    pub open spec fn reads(self, body: Seq<u8>) -> bool {
        &&& page_error(body) is None
        &&& self.body@ == body
        &&& decoded(body) is Some
        &&& document(body) is Some
        &&& self.says(decoded(body).unwrap(), document(body).unwrap())
    }
}

/// What a response says, given its text and its nodes.
pub fn page_of(body: Vec<u8>, text: String, nodes: &Vec<XmlNode>) -> (r: Result<
    BingPage,
    WallpaperError,
>)
    ensures
        match r {
            Ok(page) => page.body@ == body@ && page.says(text@, node_views(nodes@)),
            Err(e) => text_named(node_views(nodes@), "urlBase"@) is None && e@
                == ErrorView::MissingImageUrl,
        },
{
    match first_text(nodes, "urlBase") {
        Some(url_base) => Ok(
            BingPage {
                url_base,
                body,
                text,
                metadata: metadata_of(nodes),
                date: date_of_document(nodes),
            },
        ),
        None => Err(WallpaperError::MissingImageUrl),
    }
}

/// What a response says.
pub fn read_page(body: Vec<u8>) -> (r: Result<BingPage, WallpaperError>)
    ensures
        match r {
            Ok(page) => page.reads(body@),
            Err(e) => page_error(body@) == Some(e@),
        },
{
    match utf8_text(&body) {
        Some(text) => match parse_nodes(text.as_str()) {
            Some(nodes) => page_of(body, text, &nodes),
            None => Err(WallpaperError::MetadataParse),
        },
        None => Err(WallpaperError::MetadataParse),
    }
}

// ------------------------------------------------------------------------------------------
// The machine
// ------------------------------------------------------------------------------------------

/// What is fetched: the wallpaper of one day for one country.
pub struct BingJob {
    pub date: String,
    pub country: String,
    pub resolutions: Vec<String>,
    pub day: i32,
    /// The directory of the files of Bing of that day.
    pub media_dir: String,
    pub force: bool,
    pub offline: bool,
    pub refresh_metadata: bool,
}

/// How far a fetch is.
pub enum BingStage {
    /// The index of the day is read.
    ReadIndex,
    /// The files of the candidates of the index are looked for.
    Look(Vec<WallpaperCandidate>),
    /// The file of a candidate without checksum is read.
    Sum(WallpaperCandidate),
    /// A candidate is put back with its checksum.
    Keep(WallpaperCandidate),
    /// The file of a candidate's metadata is looked for.
    CheckInfo(WallpaperCandidate),
    /// The file of a candidate's metadata is written.
    WriteInfo(WallpaperCandidate),
    /// The server is asked.
    Ask,
    /// The answer is read.
    Body,
    /// The resolution at the position `at` is downloaded.
    Fetch { page: BingPage, at: usize, last: Option<WallpaperError> },
    /// A new candidate is put into the index.
    Store { candidate: WallpaperCandidate, skipped: bool },
    /// It is noted that Bing has no wallpaper that is large enough.
    Skip(WallpaperError),
    Over,
}

/// Whether an event can follow the action of a stage.
pub open spec fn bing_fits(job: BingJob, at: BingStage, event: FetchEvent) -> bool {
    match at {
        BingStage::ReadIndex => event is Index,
        BingStage::Look(list) => event matches FetchEvent::Present(present) && present@.len()
            == list@.len() && list@.len() > 0,
        BingStage::Sum(_) => event is Contents,
        BingStage::Keep(_) | BingStage::WriteInfo(_) | BingStage::Store { .. } => event is Outcome,
        BingStage::CheckInfo(_) => event matches FetchEvent::Present(present) && present@.len()
            == 1,
        BingStage::Ask => event is Answer,
        BingStage::Body => event is Body,
        BingStage::Fetch { at, .. } => event is Downloaded && at < job.resolutions.len(),
        BingStage::Skip(_) => event is Done,
        BingStage::Over => false,
    }
}

/// Whether the fetch ends with `error`.
pub open spec fn bing_fails(error: ErrorView, next: BingStage, action: FetchAction) -> bool {
    next is Over && fails_with(action, error)
}

/// Whether the fetch ends with a candidate of the cache.
pub open spec fn reuses(c: CandidateView, next: BingStage, action: FetchAction) -> bool {
    next is Over && finishes(action, c, true)
}

/// The file with the metadata of a candidate, and what it holds, where the file is missing and
/// can be written.
pub open spec fn missing_info(c: CandidateView, present: bool) -> Option<(Seq<char>, Seq<char>)> {
    match (parent(c.local_path), c.metadata_xml) {
        (Some(dir), Some(xml)) if !present => Some((path_join(dir, "info.xml"@), xml)),
        _ => None,
    }
}

/// The file with the metadata of a candidate, and what it holds, where the file is missing and
/// can be written.
pub fn ensure_info_file(candidate: &WallpaperCandidate, present: bool) -> (r: Option<
    (String, String),
>)
    ensures
        match r {
            Some(info) => missing_info(candidate@, present) == Some((info.0@, info.1@)),
            None => missing_info(candidate@, present) is None,
        },
{
    let dir = match parent_of(candidate.local_path.as_str()) {
        Some(dir) => dir,
        None => return None,
    };
    if present {
        return None;
    }
    match &candidate.metadata_xml {
        Some(xml) => Some((join_path(dir.as_str(), "info.xml"), xml.clone())),
        None => None,
    }
}

/// What follows when a candidate of the cache is used: its metadata is kept beside it.
pub open spec fn uses_cached(c: CandidateView, next: BingStage, action: FetchAction) -> bool {
    match parent(c.local_path) {
        Some(dir) => {
            &&& next matches BingStage::CheckInfo(kept) && kept@ == c
            &&& looks_for(action, path_join(dir, "info.xml"@))
        },
        None => reuses(c, next, action),
    }
}

/// What follows when the cache has nothing to use: Bing is asked, unless offline.
pub open spec fn asks(job: BingJob, next: BingStage, action: FetchAction) -> bool {
    if job.offline {
        bing_fails(
            ErrorView::Message(
                "Offline mode enabled; no cached Bing wallpaper for "@ + job.date@ + " ("@
                    + job.country@ + ")."@,
            ),
            next,
            action,
        )
    } else {
        &&& next is Ask
        &&& action matches FetchAction::Get(url) && url@ == archive_url(
            job.day as int,
            Some(job.country@),
        )
    }
}

/// What follows for a candidate of the cache whose file is there: it is used, unless its
/// metadata is to be refreshed and is of another day.
pub open spec fn judges(
    job: BingJob,
    c: CandidateView,
    next: BingStage,
    action: FetchAction,
) -> bool {
    if job.offline || !job.refresh_metadata {
        uses_cached(c, next, action)
    } else {
        match c.metadata_xml {
            Some(xml) if text_date(xml) == Some(job.date@) => uses_cached(c, next, action),
            _ => asks(job, next, action),
        }
    }
}

/// What follows for the candidate of the cache that is the one to use, if any is.
pub open spec fn considers(
    job: BingJob,
    c: CandidateView,
    present: bool,
    next: BingStage,
    action: FetchAction,
) -> bool {
    if present && (!job.force || job.offline) {
        if c.checksum is None {
            &&& next matches BingStage::Sum(kept) && kept@ == c
            &&& action matches FetchAction::ReadFile(path) && path@ == c.local_path
        } else {
            judges(job, c, next, action)
        }
    } else {
        asks(job, next, action)
    }
}

/// What follows once `tried` resolutions have been tried: the next one, or the last error.
pub open spec fn tries(
    job: BingJob,
    body: Seq<u8>,
    tried: int,
    last: Option<ErrorView>,
    next: BingStage,
    action: FetchAction,
) -> bool {
    if tried < job.resolutions@.len() {
        &&& next matches BingStage::Fetch { page, at, last: kept } && page.reads(body) && at
            == tried && opt_error(kept) == last
        &&& action matches FetchAction::DownloadImage { url_base, resolution, metadata }
            && document(body) is Some && text_named(document(body).unwrap(), "urlBase"@) == Some(
            url_base@,
        ) && resolution@ == job.resolutions@[tried]@ && metadata@ == body
    } else {
        bing_fails(
            match last {
                Some(e) => e,
                None => ErrorView::Message("Unable to download wallpaper for any resolution."@),
            },
            next,
            action,
        )
    }
}

/// The value of an optional error.
pub open spec fn opt_error(e: Option<WallpaperError>) -> Option<ErrorView> {
    match e {
        Some(e) => Some(e@),
        None => None,
    }
}

/// The candidate for an image that was downloaded.
pub open spec fn new_candidate(
    job: BingJob,
    page: BingPage,
    resolution: Seq<char>,
    image: DownloadedImage,
) -> CandidateView {
    CandidateView {
        id: id_prefix(job.date@, job.country@) + resolution,
        source: WallpaperSource::Bing,
        title: opt_text(page.metadata.headline),
        description: None,
        attribution: opt_text(page.metadata.copyright),
        info_url: opt_text(page.metadata.copyright_link),
        image_url: image.image_url@,
        local_path: image.path@,
        date: match page.date {
            Some(d) => d@,
            None => job.date@,
        },
        metadata_xml: Some(page.text@),
        checksum: opt_text(image.checksum),
    }
}

/// Whether a fetch at the stage `at` goes on to `next` with `action` after `event`.
pub open spec fn bing_advances(
    job: BingJob,
    at: BingStage,
    event: FetchEvent,
    next: BingStage,
    action: FetchAction,
) -> bool {
    match (at, event) {
        (BingStage::ReadIndex, FetchEvent::Index(Err(e))) => bing_fails(e@, next, action),
        (BingStage::ReadIndex, FetchEvent::Index(Ok(index))) => {
            let found = country_matches(
                crate::cache::listed(index),
                job.date@,
                job.country@,
            );
            if found.len() == 0 {
                asks(job, next, action)
            } else {
                &&& next matches BingStage::Look(list) && candidates(list@) == found
                &&& action matches FetchAction::LookFor(paths) && texts(paths@) == paths_of(found)
            }
        },
        (BingStage::Look(list), FetchEvent::Present(present)) => exists|i: int|
            {
                &&& #[trigger] is_best(
                    candidates(list@),
                    present@,
                    job.media_dir@,
                    texts(job.resolutions@),
                    i,
                )
                &&& considers(job, candidates(list@)[i], present@[i], next, action)
            },
        (BingStage::Sum(c), FetchEvent::Contents(Ok(Some(bytes)))) => {
            let summed = CandidateView { checksum: Some(checksum_text(bytes@)), ..c@ };
            &&& next matches BingStage::Keep(kept) && kept@ == summed
            &&& upserts(action, job.date@, summed)
        },
        (BingStage::Sum(c), FetchEvent::Contents(_)) => judges(job, c@, next, action),
        (BingStage::Keep(c), FetchEvent::Outcome(Ok(_))) => judges(job, c@, next, action),
        (BingStage::CheckInfo(c), FetchEvent::Present(present)) => match missing_info(
            c@,
            present@[0],
        ) {
            Some(info) => {
                &&& next matches BingStage::WriteInfo(kept) && kept@ == c@
                &&& action matches FetchAction::WriteFile { path, text } && path@ == info.0
                    && text@ == info.1
            },
            None => reuses(c@, next, action),
        },
        (BingStage::WriteInfo(c), FetchEvent::Outcome(Ok(_))) => reuses(c@, next, action),
        (BingStage::Ask, FetchEvent::Answer(Err(e))) => bing_fails(
            ErrorView::Request { timeout: e.timeout, text: e.text@ },
            next,
            action,
        ),
        (BingStage::Ask, FetchEvent::Answer(Ok(status))) => match status_error(
            status,
            archive_url(job.day as int, Some(job.country@)),
        ) {
            Some(error) => bing_fails(error, next, action),
            None => next is Body && action is ReadBody,
        },
        (BingStage::Body, FetchEvent::Body(Err(e))) => bing_fails(e@, next, action),
        (BingStage::Body, FetchEvent::Body(Ok(body))) => match page_error(body@) {
            Some(error) => bing_fails(error, next, action),
            None => tries(job, body@, 0, None, next, action),
        },
        (BingStage::Fetch { page, at, last }, FetchEvent::Downloaded(Ok(image))) => {
            let c = new_candidate(job, page, job.resolutions@[at as int]@, image);
            &&& next matches BingStage::Store { candidate, skipped } && candidate@ == c && skipped
                == image.skipped
            &&& upserts(action, job.date@, c)
        },
        (BingStage::Fetch { page, at, last }, FetchEvent::Downloaded(Err(e))) => match e@ {
            ErrorView::MinResolution { .. } => {
                &&& next matches BingStage::Skip(kept) && kept@ == e@
                &&& action matches FetchAction::WriteSkip { date, source, reason } && date@
                    == job.date@ && source == WallpaperSource::Bing && reason@ == "min_resolution"@
            },
            ErrorView::DownloadStatus { status, .. } if status == 404 => tries(
                job,
                page.body@,
                at + 1,
                opt_error(last),
                next,
                action,
            ),
            _ => tries(job, page.body@, at + 1, Some(e@), next, action),
        },
        (BingStage::Store { candidate, skipped }, FetchEvent::Outcome(Ok(_))) => {
            next is Over && finishes(action, candidate@, skipped)
        },
        (BingStage::Skip(e), FetchEvent::Done) => bing_fails(e@, next, action),
        (BingStage::Keep(_), FetchEvent::Outcome(Err(e))) | (
            BingStage::WriteInfo(_),
            FetchEvent::Outcome(Err(e)),
        ) | (BingStage::Store { .. }, FetchEvent::Outcome(Err(e))) => bing_fails(e@, next, action),
        _ => false,
    }
}

/// Whether a stage can be reached: it holds what the response said.
pub open spec fn bing_sound(at: BingStage) -> bool {
    match at {
        BingStage::Fetch { page, .. } => page.reads(page.body@),
        BingStage::CheckInfo(c) => parent(c@.local_path) is Some,
        _ => true,
    }
}

fn bing_fail(error: WallpaperError) -> (r: (BingStage, FetchAction))
    ensures
        bing_fails(error@, r.0, r.1),
{
    (BingStage::Over, FetchAction::Finish(Err(error)))
}

fn use_cached(c: WallpaperCandidate) -> (r: (BingStage, FetchAction))
    ensures
        uses_cached(c@, r.0, r.1),
        bing_sound(r.0),
{
    match parent_of(c.local_path.as_str()) {
        Some(dir) => {
            let path = join_path(dir.as_str(), "info.xml");
            (BingStage::CheckInfo(c), look_for(path))
        },
        None => (BingStage::Over, finish_with(c, true)),
    }
}

fn ask(job: &BingJob) -> (r: (BingStage, FetchAction))
    ensures
        asks(*job, r.0, r.1),
        bing_sound(r.0),
{
    if job.offline {
        let mut text = "Offline mode enabled; no cached Bing wallpaper for ".to_string();
        text.append(job.date.as_str());
        text.append(" (");
        text.append(job.country.as_str());
        text.append(").");
        return bing_fail(WallpaperError::Message(text));
    }
    let url = build_archive_url(job.day, Some(job.country.as_str()));
    (BingStage::Ask, FetchAction::Get(url))
}

fn judge(job: &BingJob, c: WallpaperCandidate) -> (r: (BingStage, FetchAction))
    ensures
        judges(*job, c@, r.0, r.1),
        bing_sound(r.0),
{
    if job.offline || !job.refresh_metadata {
        return use_cached(c);
    }
    let current = match &c.metadata_xml {
        Some(xml) => match date_of_text(xml.as_str()) {
            Some(label) => same(label.as_str(), job.date.as_str()),
            None => false,
        },
        None => false,
    };
    if current {
        use_cached(c)
    } else {
        ask(job)
    }
}

fn try_next(job: &BingJob, page: BingPage, tried: usize, last: Option<WallpaperError>) -> (r: (
    BingStage,
    FetchAction,
))
    requires
        page.reads(page.body@),
        tried <= job.resolutions@.len(),
    ensures
        tries(*job, page.body@, tried as int, opt_error(last), r.0, r.1),
        bing_sound(r.0),
{
    if tried < job.resolutions.len() {
        let action = FetchAction::DownloadImage {
            url_base: page.url_base.clone(),
            resolution: job.resolutions[tried].clone(),
            metadata: copy_bytes(&page.body),
        };
        return (BingStage::Fetch { page, at: tried, last }, action);
    }
    match last {
        Some(e) => bing_fail(e),
        None => bing_fail(failure("Unable to download wallpaper for any resolution.")),
    }
}

fn candidate_for(job: &BingJob, page: BingPage, at: usize, image: DownloadedImage) -> (r:
    WallpaperCandidate)
    requires
        at < job.resolutions@.len(),
    ensures
        r@ == new_candidate(*job, page, job.resolutions@[at as int]@, image),
{
    let mut id = "bing-".to_string();
    id.append(job.date.as_str());
    id.append("-");
    id.append(job.country.as_str());
    id.append("-");
    id.append(job.resolutions[at].as_str());
    WallpaperCandidate {
        id,
        source: WallpaperSource::Bing,
        title: page.metadata.headline,
        description: None,
        attribution: page.metadata.copyright,
        info_url: page.metadata.copyright_link,
        image_url: image.image_url,
        local_path: image.path,
        date: match page.date {
            Some(d) => d,
            None => job.date.clone(),
        },
        metadata_xml: Some(page.text),
        checksum: image.checksum,
    }
}

/// Begins to fetch: the index of the day is read.
pub fn fetch_bing_candidate(job: &BingJob) -> (r: (BingStage, FetchAction))
    ensures
        r.0 is ReadIndex,
        r.1 matches FetchAction::ReadIndex(date) && date@ == job.date@,
{
    (BingStage::ReadIndex, FetchAction::ReadIndex(job.date.clone()))
}

/// The next stage and action of a fetch.
pub fn bing_step(job: &BingJob, at: BingStage, event: FetchEvent) -> (r: (BingStage, FetchAction))
    requires
        bing_fits(*job, at, event),
        bing_sound(at),
    ensures
        bing_advances(*job, at, event, r.0, r.1),
        bing_sound(r.0),
{
    match (at, event) {
        (BingStage::ReadIndex, FetchEvent::Index(Err(e))) => bing_fail(e),
        (BingStage::ReadIndex, FetchEvent::Index(Ok(index))) => {
            let list = matches_for_country(
                index.as_ref(),
                job.date.as_str(),
                job.country.as_str(),
            );
            assert(candidates(list@).len() == list@.len());
            if list.len() == 0 {
                return ask(job);
            }
            let action = look_for_candidates(&list);
            (BingStage::Look(list), action)
        },
        (BingStage::Look(list), FetchEvent::Present(present)) => {
            let best = best_candidate(
                &list,
                &present,
                job.media_dir.as_str(),
                &job.resolutions,
            );
            let c = list[best].clone();
            assert(candidates(list@)[best as int] == c@);
            if present[best] && (!job.force || job.offline) {
                if c.checksum.is_none() {
                    let path = c.local_path.clone();
                    return (BingStage::Sum(c), FetchAction::ReadFile(path));
                }
                return judge(job, c);
            }
            ask(job)
        },
        (BingStage::Sum(c), FetchEvent::Contents(contents)) => {
            if let Ok(Some(bytes)) = contents {
                let mut summed = c;
                summed.checksum = Some(compute_checksum(&bytes));
                let action = FetchAction::Upsert {
                    date: job.date.clone(),
                    candidate: summed.clone(),
                };
                return (BingStage::Keep(summed), action);
            }
            judge(job, c)
        },
        (BingStage::Keep(c), FetchEvent::Outcome(Ok(_))) => judge(job, c),
        (BingStage::CheckInfo(c), FetchEvent::Present(present)) => {
            if let Some((path, text)) = ensure_info_file(&c, present[0]) {
                return (BingStage::WriteInfo(c), FetchAction::WriteFile { path, text });
            }
            (BingStage::Over, finish_with(c, true))
        },
        (BingStage::WriteInfo(c), FetchEvent::Outcome(Ok(_))) => (
            BingStage::Over,
            finish_with(c, true),
        ),
        (BingStage::Ask, FetchEvent::Answer(Err(e))) => bing_fail(
            WallpaperError::Request { timeout: e.timeout, text: e.text },
        ),
        (BingStage::Ask, FetchEvent::Answer(Ok(status))) => {
            let url = build_archive_url(job.day, Some(job.country.as_str()));
            match ensure_http_success(status, url.as_str()) {
                Ok(_) => (BingStage::Body, FetchAction::ReadBody),
                Err(e) => bing_fail(e),
            }
        },
        (BingStage::Body, FetchEvent::Body(Err(e))) => bing_fail(e),
        (BingStage::Body, FetchEvent::Body(Ok(body))) => match read_page(body) {
            Ok(page) => try_next(job, page, 0, None),
            Err(e) => bing_fail(e),
        },
        (BingStage::Fetch { page, at, last: _ }, FetchEvent::Downloaded(Ok(image))) => {
            let skipped = image.skipped;
            let candidate = candidate_for(job, page, at, image);
            let action = FetchAction::Upsert {
                date: job.date.clone(),
                candidate: candidate.clone(),
            };
            (BingStage::Store { candidate, skipped }, action)
        },
        (BingStage::Fetch { page, at, last }, FetchEvent::Downloaded(Err(e))) => match e {
            WallpaperError::MinResolution { width, height, min_width, min_height } => (
                BingStage::Skip(
                    WallpaperError::MinResolution { width, height, min_width, min_height },
                ),
                FetchAction::WriteSkip {
                    date: job.date.clone(),
                    source: WallpaperSource::Bing,
                    reason: "min_resolution".to_string(),
                },
            ),
            WallpaperError::DownloadStatus { resolution, status } => if status == 404 {
                try_next(job, page, at + 1, last)
            } else {
                try_next(
                    job,
                    page,
                    at + 1,
                    Some(WallpaperError::DownloadStatus { resolution, status }),
                )
            },
            other => try_next(job, page, at + 1, Some(other)),
        },
        (BingStage::Store { candidate, skipped }, FetchEvent::Outcome(Ok(_))) => (
            BingStage::Over,
            finish_with(candidate, skipped),
        ),
        (BingStage::Skip(e), FetchEvent::Done) => bing_fail(e),
        (BingStage::Keep(_), FetchEvent::Outcome(Err(e))) => bing_fail(e),
        (BingStage::WriteInfo(_), FetchEvent::Outcome(Err(e))) => bing_fail(e),
        (BingStage::Store { .. }, FetchEvent::Outcome(Err(e))) => bing_fail(e),
        _ => vstd::pervasive::unreached(),
    }
}

// ------------------------------------------------------------------------------------------
// Laws
// ------------------------------------------------------------------------------------------

/// A course of a fetch: the stages that it goes through, the event at each of them, and the
/// action that follows the event.
pub struct BingCourse {
    pub stages: Seq<BingStage>,
    pub events: Seq<FetchEvent>,
    pub actions: Seq<FetchAction>,
}

/// Whether the step `i` of a course is one that the fetch takes.
pub open spec fn bing_step_taken(job: BingJob, c: BingCourse, i: int) -> bool {
    &&& bing_fits(job, c.stages[i], c.events[i])
    &&& bing_advances(job, c.stages[i], c.events[i], c.stages[i + 1], c.actions[i])
}

/// Whether a fetch can take this course.
pub open spec fn bing_possible(job: BingJob, c: BingCourse) -> bool {
    &&& c.stages.len() == c.events.len() + 1
    &&& c.actions.len() == c.events.len()
    &&& c.stages[0] is ReadIndex
    &&& forall|i: int| 0 <= i < c.events.len() ==> #[trigger] bing_step_taken(job, c, i)
}

spec fn local_stage(at: BingStage) -> bool {
    !(at is Ask) && !(at is Body) && !(at is Fetch) && !(at is Store) && !(at is Skip)
}

proof fn lemma_offline_stages(job: BingJob, c: BingCourse, i: int)
    requires
        bing_possible(job, c),
        job.offline,
        0 <= i < c.stages.len(),
    ensures
        local_stage(c.stages[i]),
    decreases i,
{
    if i > 0 {
        lemma_offline_stages(job, c, i - 1);
        assert(bing_step_taken(job, c, i - 1));
    }
}

/// Offline, nothing is ever asked of Bing and nothing is downloaded.
pub proof fn offline_bing_uses_no_network(job: BingJob, c: BingCourse, i: int)
    requires
        bing_possible(job, c),
        job.offline,
        0 <= i < c.actions.len(),
    ensures
        !uses_network(c.actions[i]),
{
    lemma_offline_stages(job, c, i);
    assert(bing_step_taken(job, c, i));
}

/// Whether a candidate of the cache is used without asking Bing for news.
pub open spec fn up_to_date(job: BingJob, c: CandidateView) -> bool {
    ||| job.offline
    ||| !job.refresh_metadata
    ||| c.metadata_xml matches Some(xml) && text_date(xml) == Some(job.date@)
}

spec fn settled(job: BingJob, at: BingStage) -> bool {
    match at {
        BingStage::Sum(c) | BingStage::Keep(c) => up_to_date(job, c@),
        BingStage::CheckInfo(_) | BingStage::WriteInfo(_) | BingStage::Over => true,
        _ => false,
    }
}

proof fn lemma_settled(job: BingJob, c: BingCourse, from: int, i: int)
    requires
        bing_possible(job, c),
        0 <= from <= i < c.stages.len(),
        settled(job, c.stages[from]),
    ensures
        settled(job, c.stages[i]),
        i < c.actions.len() ==> !uses_network(c.actions[i]),
    decreases i,
{
    if from < i {
        lemma_settled(job, c, from, i - 1);
        assert(bing_step_taken(job, c, i - 1));
    }
    if i < c.actions.len() {
        assert(bing_step_taken(job, c, i));
    }
}

/// A wallpaper of the cache whose file is there is reused without the network, unless the fetch
/// is forced or the wallpaper's metadata, which is to be refreshed, is of another day.
pub proof fn cached_bing_wallpaper_uses_no_network(job: BingJob, c: BingCourse, k: int, i: int)
    requires
        bing_possible(job, c),
        0 <= k <= i < c.actions.len(),
        !job.force || job.offline,
        c.stages[k] matches BingStage::Look(list) && c.events[k] matches FetchEvent::Present(
            present,
        ) && forall|b: int|
            #[trigger] is_best(
                candidates(list@),
                present@,
                job.media_dir@,
                texts(job.resolutions@),
                b,
            ) ==> present@[b] && up_to_date(job, candidates(list@)[b]),
    ensures
        !uses_network(c.actions[i]),
{
    assert(bing_step_taken(job, c, k));
    assert(settled(job, c.stages[k + 1]));
    assert(!uses_network(c.actions[k]));
    if k < i {
        lemma_settled(job, c, k + 1, i);
    }
}

/// Whether the resolution `n` was downloaded in vain before the step `i`.
pub open spec fn failed_before(job: BingJob, c: BingCourse, n: int, i: int) -> bool {
    exists|j: int|
        0 <= j < i && #[trigger] downloads(c.actions[j], job.resolutions@[n]@)
            && download_failed(c.events[j + 1])
}

/// Whether `action` downloads the wallpaper in the given resolution.
pub open spec fn downloads(action: FetchAction, wanted: Seq<char>) -> bool {
    action matches FetchAction::DownloadImage { resolution, .. } && resolution@ == wanted
}

/// Whether a download failed.
pub open spec fn download_failed(event: FetchEvent) -> bool {
    event matches FetchEvent::Downloaded(Err(_))
}

proof fn lemma_resolutions(job: BingJob, c: BingCourse, i: int, n: int)
    requires
        bing_possible(job, c),
        0 <= i < c.actions.len(),
        c.stages[i + 1] matches BingStage::Fetch { at, .. } && at == n,
    ensures
        downloads(c.actions[i], job.resolutions@[n]@),
        0 <= n < job.resolutions@.len(),
        forall|m: int| 0 <= m < n ==> #[trigger] failed_before(job, c, m, i),
    decreases i,
{
    assert(bing_step_taken(job, c, i));
    if n > 0 {
        assert(c.stages[i] is Fetch);
        assert(i > 0);
        lemma_resolutions(job, c, i - 1, n - 1);
        assert forall|m: int| 0 <= m < n implies #[trigger] failed_before(job, c, m, i) by {
            if m < n - 1 {
                assert(failed_before(job, c, m, i - 1));
                let j = choose|j: int|
                    0 <= j < i - 1 && #[trigger] downloads(c.actions[j], job.resolutions@[m]@)
                        && download_failed(c.events[j + 1]);
                assert(downloads(c.actions[j], job.resolutions@[m]@));
            } else {
                assert(downloads(c.actions[i - 1], job.resolutions@[m]@));
            }
        }
    }
}

/// Resolutions are tried in the order of the list: one is downloaded only after every earlier
/// one failed.
pub proof fn resolutions_are_tried_in_order(job: BingJob, c: BingCourse, i: int)
    requires
        bing_possible(job, c),
        0 <= i < c.actions.len(),
        c.actions[i] is DownloadImage,
    ensures
        exists|n: int|
            0 <= n < job.resolutions@.len() && #[trigger] downloads(
                c.actions[i],
                job.resolutions@[n]@,
            ) && forall|m: int| 0 <= m < n ==> #[trigger] failed_before(job, c, m, i),
{
    assert(bing_step_taken(job, c, i));
    assert(c.stages[i + 1] is Fetch);
    let n = c.stages[i + 1]->at as int;
    lemma_resolutions(job, c, i, n);
}

/// What is logged when a resolution could not be downloaded: nothing where Bing does not have it
/// or where its image is too small.
pub fn resolution_note(resolution: &str, error: &WallpaperError) -> (r: Option<String>)
    ensures
        opt_text(r) == match error@ {
            ErrorView::MinResolution { .. } => None,
            ErrorView::DownloadStatus { status, .. } if status == 404 => None,
            e => Some("Resolution "@ + resolution@ + " failed: "@ + error_text(e)),
        },
{
    match error {
        WallpaperError::MinResolution { .. } => None,
        WallpaperError::DownloadStatus { status, .. } if *status == 404 => None,
        e => {
            let mut text = "Resolution ".to_string();
            text.append(resolution);
            text.append(" failed: ");
            text.append(e.message().as_str());
            Some(text)
        },
    }
}

} // verus!

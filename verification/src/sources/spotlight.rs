//! The Windows Spotlight feed.

use crate::cache::{find_candidates_by_source, listed};
use crate::config::AppConfig;
use crate::error::{ErrorView, WallpaperError, ensure_http_success, failure, status_error};
use crate::json::{
    json_item_texts, json_items, json_member, json_member_text, json_string, json_string_text,
    string_member, string_member_text,
};
use crate::model::{CandidateView, WallpaperCandidate, WallpaperSource, candidates};
use crate::number::{decimal, usize_text};
use crate::path::{join_path, path_join};
use crate::sources::fetch::{
    FetchAction, FetchEvent, fails_with, look_for_candidates, paths_of, upserts, uses_network,
};
use crate::sources::{FetchResult, Source, SourceSettings};
use crate::text::{opt_text, same, texts};
use vstd::prelude::*;

verus! {

/// How the Spotlight feed is reached, and which of its images is applied.
#[derive(Debug)]
pub struct SpotlightSettings {
    /// The position of the image to apply, counted from one.
    pub index: usize,
    pub url_override: Option<String>,
}

/// The section of the configuration for Spotlight.
#[derive(Debug)]
pub struct SpotlightConfig {
    pub index: Option<usize>,
    pub url_override: Option<String>,
}

impl SpotlightSettings {
    /// Whether these are the settings that `config` asks for: the section's index, or else the
    /// one at the top level, or else the first image.
    pub open spec fn follows(self, config: Option<&AppConfig>) -> bool {
        match config {
            Some(cfg) => {
                let section = match cfg.spotlight {
                    Some(s) => s.index,
                    None => None,
                };
                &&& self.index == match section {
                    Some(i) => i,
                    None => match cfg.spotlight_index {
                        Some(i) => i,
                        None => 1,
                    },
                }
                &&& opt_text(self.url_override) == match cfg.spotlight {
                    Some(s) => opt_text(s.url_override),
                    None => None,
                }
            },
            None => self.index == 1 && self.url_override is None,
        }
    }

    /// The settings that `config` asks for.
    pub fn from_config(config: Option<&AppConfig>) -> (r: Result<Self, WallpaperError>)
        ensures
            r matches Ok(s) && s.follows(config),
    {
        let cfg = match config {
            Some(cfg) => cfg,
            None => {
                return Ok(SpotlightSettings { index: 1, url_override: None });
            },
        };
        let (section, url_override) = match &cfg.spotlight {
            Some(s) => (s.index, s.url_override.clone()),
            None => (None, None),
        };
        let index = match section {
            Some(i) => i,
            None => match cfg.spotlight_index {
                Some(i) => i,
                None => 1,
            },
        };
        Ok(SpotlightSettings { index, url_override })
    }
}

/// The Spotlight feed as a source.
pub struct SpotlightSource;

impl Source for SpotlightSource {
    open spec fn kind(&self) -> WallpaperSource {
        WallpaperSource::Spotlight
    }

    open spec fn takes_day(&self) -> bool {
        false
    }

    open spec fn preferred(&self, settings: SourceSettings) -> int {
        if settings.spotlight.index == 0 {
            0
        } else {
            settings.spotlight.index - 1
        }
    }

    open spec fn none_found(&self, settings: SourceSettings, count: nat) -> Seq<char> {
        "Requested Spotlight index "@ + decimal(settings.spotlight.index as nat)
            + " not available; "@ + decimal(count) + " images found."@
    }

    fn id(&self) -> (r: WallpaperSource) {
        WallpaperSource::Spotlight
    }

    fn label(&self) -> (r: &'static str) {
        "Spotlight"
    }

    fn description(&self) -> (r: &'static str) {
        "Windows Spotlight image feed"
    }

    fn supports_day(&self) -> (r: bool) {
        false
    }

    fn pick_default<'a>(
        &self,
        candidates: &'a Vec<WallpaperCandidate>,
        settings: &SourceSettings,
    ) -> (r: Result<&'a WallpaperCandidate, WallpaperError>) {
        let wanted = settings.spotlight.index;
        let at: usize = if wanted == 0 {
            0
        } else {
            wanted - 1
        };
        if at < candidates.len() {
            return Ok(&candidates[at]);
        }
        let mut text = "Requested Spotlight index ".to_string();
        text.append(usize_text(wanted).as_str());
        text.append(" not available; ");
        text.append(usize_text(candidates.len()).as_str());
        text.append(" images found.");
        Err(WallpaperError::Message(text))
    }
}

// ------------------------------------------------------------------------------------------
// The feed
// ------------------------------------------------------------------------------------------

/// An image of the feed.
#[derive(Debug)]
pub struct SpotlightAd {
    pub title: Option<String>,
    pub description: Option<String>,
    pub copyright: Option<String>,
    pub link: Option<String>,
    pub image: String,
}

/// The value of a `SpotlightAd`.
#[verifier::ext_equal]
pub struct AdView {
    pub title: Option<Seq<char>>,
    pub description: Option<Seq<char>>,
    pub copyright: Option<Seq<char>>,
    pub link: Option<Seq<char>>,
    pub image: Seq<char>,
}

impl View for SpotlightAd {
    type V = AdView;

    open spec fn view(&self) -> AdView {
        AdView {
            title: opt_text(self.title),
            description: opt_text(self.description),
            copyright: opt_text(self.copyright),
            link: opt_text(self.link),
            image: self.image@,
        }
    }
}

/// The values of a list of images.
pub open spec fn ad_views(list: Seq<SpotlightAd>) -> Seq<AdView> {
    list.map_values(|a: SpotlightAd| a@)
}

/// The JSON object of an entry of the feed: it is the entry's `item`, or the text that the item
/// is.
pub open spec fn entry_object(entry: Seq<char>) -> Option<Seq<char>> {
    match json_member_text(entry, "item"@) {
        Some(item) => match json_string_text(item) {
            Some(inner) => Some(inner),
            None => Some(item),
        },
        None => None,
    }
}

/// The image that an entry of the feed gives; `None` where it gives none.
pub open spec fn entry_ad(entry: Seq<char>) -> Option<AdView> {
    match entry_object(entry) {
        Some(object) => match json_member_text(object, "ad"@) {
            Some(ad) => match json_member_text(ad, "landscapeImage"@) {
                Some(image) => match string_member_text(image, "asset"@) {
                    Some(url) if url.len() > 0 => Some(
                        AdView {
                            title: string_member_text(ad, "title"@),
                            description: string_member_text(ad, "description"@),
                            copyright: string_member_text(ad, "copyright"@),
                            link: string_member_text(ad, "ctaUri"@),
                            image: url,
                        },
                    ),
                    _ => None,
                },
                None => None,
            },
            None => None,
        },
        None => None,
    }
}

/// Whether one of the images is at the given address.
pub open spec fn has_image(ads: Seq<AdView>, url: Seq<char>) -> bool {
    exists|i: int| 0 <= i < ads.len() && (#[trigger] ads[i]).image == url
}

/// The images that the entries of the feed give, each address once.
pub open spec fn feed_ads(entries: Seq<Seq<char>>) -> Seq<AdView>
    decreases entries.len(),
{
    if entries.len() == 0 {
        Seq::empty()
    } else {
        let before = feed_ads(entries.drop_last());
        match entry_ad(entries.last()) {
            Some(ad) if !has_image(before, ad.image) => before.push(ad),
            _ => before,
        }
    }
}

/// The entries of a feed.
pub open spec fn feed_entries(body: Seq<char>) -> Seq<Seq<char>> {
    match json_member_text(body, "batchrsp"@) {
        Some(batch) => match json_member_text(batch, "items"@) {
            Some(items) => match json_item_texts(items) {
                Some(list) => list,
                None => Seq::empty(),
            },
            None => Seq::empty(),
        },
        None => Seq::empty(),
    }
}

fn ad_of(entry: &str) -> (r: Option<SpotlightAd>)
    ensures
        match r {
            Some(ad) => entry_ad(entry@) == Some(ad@),
            None => entry_ad(entry@) is None,
        },
{
    let item = match json_member(entry, "item") {
        Some(item) => item,
        None => {
            return None;
        },
    };
    let object = match json_string(item.as_str()) {
        Some(inner) => inner,
        None => item,
    };
    let ad = match json_member(object.as_str(), "ad") {
        Some(ad) => ad,
        None => {
            return None;
        },
    };
    let image = match json_member(ad.as_str(), "landscapeImage") {
        Some(image) => image,
        None => {
            return None;
        },
    };
    match string_member(image.as_str(), "asset") {
        Some(url) => if url.as_str().is_empty() {
            None
        } else {
            Some(
                SpotlightAd {
                    title: string_member(ad.as_str(), "title"),
                    description: string_member(ad.as_str(), "description"),
                    copyright: string_member(ad.as_str(), "copyright"),
                    link: string_member(ad.as_str(), "ctaUri"),
                    image: url,
                },
            )
        },
        None => None,
    }
}

/// The images that the entries of the feed give.
pub fn ads_of(entries: &Vec<String>) -> (r: Vec<SpotlightAd>)
    ensures
        ad_views(r@) == feed_ads(texts(entries@)),
{
    let ghost all = texts(entries@);
    let mut out: Vec<SpotlightAd> = Vec::new();
    let mut i: usize = 0;
    assert(ad_views(out@) =~= feed_ads(all.take(0)));
    while i < entries.len()
        invariant
            i <= entries@.len(),
            all == texts(entries@),
            ad_views(out@) == feed_ads(all.take(i as int)),
        decreases entries@.len() - i,
    {
        proof {
            assert(all.take(i + 1).drop_last() =~= all.take(i as int));
            assert(all.take(i + 1).last() == entries@[i as int]@);
        }
        if let Some(ad) = ad_of(entries[i].as_str()) {
            let mut known = false;
            let mut k: usize = 0;
            while k < out.len()
                invariant
                    k <= out@.len(),
                    known <==> exists|j: int|
                        0 <= j < k && (#[trigger] ad_views(out@)[j]).image == ad.image@,
                decreases out@.len() - k,
            {
                if same(out[k].image.as_str(), ad.image.as_str()) {
                    assert(ad_views(out@)[k as int].image == ad.image@);
                    known = true;
                }
                k += 1;
            }
            assert(ad_views(out@).len() == out@.len());
            assert(known == has_image(ad_views(out@), ad.image@));
            if !known {
                let ghost before = out@;
                let ghost added = ad@;
                out.push(ad);
                assert(ad_views(out@) =~= ad_views(before).push(added));
            }
        }
        i += 1;
    }
    assert(all.take(i as int) =~= all);
    out
}

/// The images that a feed gives.
pub fn read_feed(body: &str) -> (r: Vec<SpotlightAd>)
    ensures
        ad_views(r@) == feed_ads(feed_entries(body@)),
{
    let none: Vec<String> = Vec::new();
    assert(texts(none@) =~= Seq::<Seq<char>>::empty());
    let entries = match json_member(body, "batchrsp") {
        Some(batch) => match json_member(batch.as_str(), "items") {
            Some(items) => match json_items(items.as_str()) {
                Some(list) => list,
                None => none,
            },
            None => none,
        },
        None => none,
    };
    ads_of(&entries)
}

/// No image of the feed is downloaded twice.
pub proof fn feed_images_are_different(entries: Seq<Seq<char>>, i: int, j: int)
    requires
        0 <= i < j < feed_ads(entries).len(),
    ensures
        feed_ads(entries)[i].image != feed_ads(entries)[j].image,
    decreases entries.len(),
{
    if entries.len() > 0 {
        let before = feed_ads(entries.drop_last());
        if j < before.len() {
            feed_images_are_different(entries.drop_last(), i, j);
        } else {
            assert(before[i].image == feed_ads(entries)[i].image);
        }
    }
}

// ------------------------------------------------------------------------------------------
// The machine
// ------------------------------------------------------------------------------------------

/// What is fetched: the images of the feed of one day.
pub struct SpotlightJob {
    pub date: String,
    /// The directory of the images of that day.
    pub media_dir: String,
    /// The address of the feed.
    pub url: String,
    pub force: bool,
    pub offline: bool,
}

/// How far a fetch is.
pub enum SpotlightStage {
    /// The index of the day is read.
    ReadIndex,
    /// The files of the candidates of the index are looked for.
    Look(Vec<WallpaperCandidate>),
    /// The server is asked.
    Ask,
    /// The answer is read.
    Body,
    /// The directory is made.
    MakeDir(Vec<SpotlightAd>),
    /// The image at the position `at` is downloaded.
    Download { ads: Vec<SpotlightAd>, at: usize, found: Vec<WallpaperCandidate> },
    /// The candidate for the image at the position `at` is put into the index.
    Store { ads: Vec<SpotlightAd>, at: usize, found: Vec<WallpaperCandidate> },
    Over,
}

/// Whether an event can follow the action of a stage.
pub open spec fn spotlight_fits(at: SpotlightStage, event: FetchEvent) -> bool {
    match at {
        SpotlightStage::ReadIndex => event is Index,
        SpotlightStage::Look(list) => event matches FetchEvent::Present(present) && present@.len()
            == list@.len(),
        SpotlightStage::Ask => event is Answer,
        SpotlightStage::Body => event is Text,
        SpotlightStage::MakeDir(_) => event is Outcome,
        SpotlightStage::Download { ads, at, .. } => event is Downloaded && at < ads.len(),
        SpotlightStage::Store { ads, at, .. } => event is Outcome && at < ads.len(),
        SpotlightStage::Over => false,
    }
}

/// Whether the fetch ends with `error`.
pub open spec fn spotlight_fails(
    error: ErrorView,
    next: SpotlightStage,
    action: FetchAction,
) -> bool {
    next is Over && fails_with(action, error)
}

/// Whether the fetch ends with these candidates.
pub open spec fn spotlight_finds(
    list: Seq<CandidateView>,
    next: SpotlightStage,
    action: FetchAction,
) -> bool {
    &&& next is Over
    &&& action matches FetchAction::Finish(Ok(found)) && candidates(found.candidates@) == list
        && !found.skipped_download
}

/// Whether the fetch asks the server; offline it fails.
pub open spec fn spotlight_asks(job: SpotlightJob, next: SpotlightStage, action: FetchAction) ->
    bool {
    if job.offline {
        spotlight_fails(
            ErrorView::Message(
                "Offline mode enabled; no cached Spotlight wallpapers for "@ + job.date@ + "."@,
            ),
            next,
            action,
        )
    } else {
        &&& next is Ask
        &&& action matches FetchAction::Get(url) && url@ == job.url@
    }
}

/// Whether all files that were looked for are there.
pub open spec fn all_present(present: Seq<bool>) -> bool {
    forall|i: int| 0 <= i < present.len() ==> #[trigger] present[i]
}

/// The file of an image of the feed, by its place.
pub open spec fn spotlight_file(job: SpotlightJob, slot: int) -> Seq<char> {
    path_join(
        job.media_dir@,
        "spotlight_"@ + job.date@ + "_"@ + decimal(slot as nat) + ".jpg"@,
    )
}

/// What follows once `at` images have been stored: the next one, or the end.
pub open spec fn spotlight_goes_on(
    job: SpotlightJob,
    ads: Seq<AdView>,
    at: int,
    list: Seq<CandidateView>,
    next: SpotlightStage,
    action: FetchAction,
) -> bool {
    if at < ads.len() {
        &&& next matches SpotlightStage::Download { ads: a, at: k, found } && ad_views(a@) == ads
            && k == at && candidates(found@) == list
        &&& action matches FetchAction::DownloadFile { url, target } && url@ == ads[at].image
            && target@ == spotlight_file(job, at + 1)
    } else {
        spotlight_finds(list, next, action)
    }
}

/// The candidate for an image that was downloaded.
pub open spec fn spotlight_candidate(
    job: SpotlightJob,
    ad: AdView,
    slot: int,
    path: Seq<char>,
) -> CandidateView {
    CandidateView {
        id: "spotlight-"@ + job.date@ + "-"@ + decimal(slot as nat),
        source: WallpaperSource::Spotlight,
        title: ad.title,
        description: ad.description,
        attribution: ad.copyright,
        info_url: ad.link,
        image_url: ad.image,
        local_path: path,
        date: job.date@,
        metadata_xml: None,
        checksum: None,
    }
}

/// Whether a fetch at the stage `at` goes on to `next` with `action` after `event`.
pub open spec fn spotlight_advances(
    job: SpotlightJob,
    at: SpotlightStage,
    event: FetchEvent,
    next: SpotlightStage,
    action: FetchAction,
) -> bool {
    match (at, event) {
        (SpotlightStage::ReadIndex, FetchEvent::Index(Err(e))) => spotlight_fails(
            e@,
            next,
            action,
        ),
        (SpotlightStage::ReadIndex, FetchEvent::Index(Ok(index))) => {
            let cached = listed(index).filter(
                |c: CandidateView| c.source == WallpaperSource::Spotlight,
            );
            if cached.len() == 0 {
                spotlight_asks(job, next, action)
            } else {
                &&& next matches SpotlightStage::Look(list) && candidates(list@) == cached
                &&& action matches FetchAction::LookFor(paths) && texts(paths@) == paths_of(cached)
            }
        },
        (SpotlightStage::Look(list), FetchEvent::Present(present)) => if all_present(present@) && (
        !job.force || job.offline) {
            spotlight_finds(candidates(list@), next, action)
        } else {
            spotlight_asks(job, next, action)
        },
        (SpotlightStage::Ask, FetchEvent::Answer(Err(e))) => spotlight_fails(
            ErrorView::Request { timeout: e.timeout, text: e.text@ },
            next,
            action,
        ),
        (SpotlightStage::Ask, FetchEvent::Answer(Ok(status))) => match status_error(
            status,
            job.url@,
        ) {
            Some(error) => spotlight_fails(error, next, action),
            None => next is Body && action is ReadBody,
        },
        (SpotlightStage::Body, FetchEvent::Text(Err(e))) => spotlight_fails(e@, next, action),
        (SpotlightStage::Body, FetchEvent::Text(Ok(body))) => {
            let ads = feed_ads(feed_entries(body@));
            if ads.len() == 0 {
                spotlight_fails(
                    ErrorView::Message("Spotlight response did not include any images."@),
                    next,
                    action,
                )
            } else {
                &&& next matches SpotlightStage::MakeDir(kept) && ad_views(kept@) == ads
                &&& action matches FetchAction::MakeDir(dir) && dir@ == job.media_dir@
            }
        },
        (SpotlightStage::MakeDir(ads), FetchEvent::Outcome(Ok(_))) => spotlight_goes_on(
            job,
            ad_views(ads@),
            0,
            Seq::empty(),
            next,
            action,
        ),
        (SpotlightStage::Download { .. }, FetchEvent::Downloaded(Err(e))) => spotlight_fails(
            e@,
            next,
            action,
        ),
        (SpotlightStage::Download { ads, at, found }, FetchEvent::Downloaded(Ok(image))) => {
            let c = spotlight_candidate(job, ads@[at as int]@, at + 1, image.path@);
            &&& next matches SpotlightStage::Store { ads: a, at: k, found: list } && a == ads && k
                == at && candidates(list@) == candidates(found@).push(c)
            &&& upserts(action, job.date@, c)
        },
        (SpotlightStage::Store { ads, at, found }, FetchEvent::Outcome(Ok(_))) => {
            spotlight_goes_on(
                job,
                ad_views(ads@),
                at + 1,
                candidates(found@),
                next,
                action,
            )
        },
        (SpotlightStage::MakeDir(_), FetchEvent::Outcome(Err(e))) | (
            SpotlightStage::Store { .. },
            FetchEvent::Outcome(Err(e)),
        ) => spotlight_fails(e@, next, action),
        _ => false,
    }
}

fn spotlight_fail(error: WallpaperError) -> (r: (SpotlightStage, FetchAction))
    ensures
        spotlight_fails(error@, r.0, r.1),
{
    (SpotlightStage::Over, FetchAction::Finish(Err(error)))
}

fn spotlight_find(list: Vec<WallpaperCandidate>) -> (r: (SpotlightStage, FetchAction))
    ensures
        spotlight_finds(candidates(list@), r.0, r.1),
{
    (
        SpotlightStage::Over,
        FetchAction::Finish(Ok(FetchResult { candidates: list, skipped_download: false })),
    )
}

fn spotlight_ask(job: &SpotlightJob) -> (r: (SpotlightStage, FetchAction))
    ensures
        spotlight_asks(*job, r.0, r.1),
{
    if job.offline {
        let mut text = "Offline mode enabled; no cached Spotlight wallpapers for ".to_string();
        text.append(job.date.as_str());
        text.append(".");
        return spotlight_fail(WallpaperError::Message(text));
    }
    (SpotlightStage::Ask, FetchAction::Get(job.url.clone()))
}

fn spotlight_go_on(
    job: &SpotlightJob,
    ads: Vec<SpotlightAd>,
    at: usize,
    found: Vec<WallpaperCandidate>,
) -> (r: (SpotlightStage, FetchAction))
    requires
        at <= ads.len(),
    ensures
        spotlight_goes_on(*job, ad_views(ads@), at as int, candidates(found@), r.0, r.1),
{
    assert(ad_views(ads@).len() == ads@.len());
    if at < ads.len() {
        let mut name = "spotlight_".to_string();
        name.append(job.date.as_str());
        name.append("_");
        name.append(usize_text(at + 1).as_str());
        name.append(".jpg");
        let action = FetchAction::DownloadFile {
            url: ads[at].image.clone(),
            target: join_path(job.media_dir.as_str(), name.as_str()),
        };
        return (SpotlightStage::Download { ads, at, found }, action);
    }
    spotlight_find(found)
}

/// Begins to fetch the images of the feed: the index of the day is read.
pub fn fetch_spotlight_candidates(job: &SpotlightJob) -> (r: (SpotlightStage, FetchAction))
    ensures
        r.0 is ReadIndex,
        r.1 matches FetchAction::ReadIndex(date) && date@ == job.date@,
{
    (SpotlightStage::ReadIndex, FetchAction::ReadIndex(job.date.clone()))
}

/// The next stage and action of a fetch.
pub fn spotlight_step(job: &SpotlightJob, at: SpotlightStage, event: FetchEvent) -> (r: (
    SpotlightStage,
    FetchAction,
))
    requires
        spotlight_fits(at, event),
    ensures
        spotlight_advances(*job, at, event, r.0, r.1),
{
    match (at, event) {
        (SpotlightStage::ReadIndex, FetchEvent::Index(Err(e))) => spotlight_fail(e),
        (SpotlightStage::ReadIndex, FetchEvent::Index(Ok(index))) => {
            let list = find_candidates_by_source(index.as_ref(), WallpaperSource::Spotlight);
            assert(candidates(list@).len() == list@.len());
            proof {
                reveal(Seq::filter);
                assert(candidates(list@) =~= listed(index).filter(
                    |c: CandidateView| c.source == WallpaperSource::Spotlight,
                ));
            }
            if list.len() == 0 {
                return spotlight_ask(job);
            }
            let action = look_for_candidates(&list);
            (SpotlightStage::Look(list), action)
        },
        (SpotlightStage::Look(list), FetchEvent::Present(present)) => {
            let mut all = true;
            let mut i: usize = 0;
            while i < present.len()
                invariant
                    i <= present@.len(),
                    all <==> forall|j: int| 0 <= j < i ==> #[trigger] present@[j],
                decreases present@.len() - i,
            {
                if !present[i] {
                    assert(!present@[i as int]);
                    all = false;
                }
                i += 1;
            }
            if all && (!job.force || job.offline) {
                spotlight_find(list)
            } else {
                spotlight_ask(job)
            }
        },
        (SpotlightStage::Ask, FetchEvent::Answer(Err(e))) => spotlight_fail(
            WallpaperError::Request { timeout: e.timeout, text: e.text },
        ),
        (SpotlightStage::Ask, FetchEvent::Answer(Ok(status))) => match ensure_http_success(
            status,
            job.url.as_str(),
        ) {
            Ok(_) => (SpotlightStage::Body, FetchAction::ReadBody),
            Err(e) => spotlight_fail(e),
        },
        (SpotlightStage::Body, FetchEvent::Text(Err(e))) => spotlight_fail(e),
        (SpotlightStage::Body, FetchEvent::Text(Ok(body))) => {
            let ads = read_feed(body.as_str());
            assert(ad_views(ads@).len() == ads@.len());
            if ads.len() == 0 {
                return spotlight_fail(
                    failure("Spotlight response did not include any images."),
                );
            }
            (SpotlightStage::MakeDir(ads), FetchAction::MakeDir(job.media_dir.clone()))
        },
        (SpotlightStage::MakeDir(ads), FetchEvent::Outcome(Ok(_))) => {
            let none: Vec<WallpaperCandidate> = Vec::new();
            assert(candidates(none@) =~= Seq::<CandidateView>::empty());
            spotlight_go_on(job, ads, 0, none)
        },
        (SpotlightStage::Download { .. }, FetchEvent::Downloaded(Err(e))) => spotlight_fail(e),
        (SpotlightStage::Download { ads, at, found }, FetchEvent::Downloaded(Ok(image))) => {
            let mut id = "spotlight-".to_string();
            id.append(job.date.as_str());
            id.append("-");
            id.append(usize_text(at + 1).as_str());
            let c = WallpaperCandidate {
                id,
                source: WallpaperSource::Spotlight,
                title: ads[at].title.clone(),
                description: ads[at].description.clone(),
                attribution: ads[at].copyright.clone(),
                info_url: ads[at].link.clone(),
                image_url: ads[at].image.clone(),
                local_path: image.path,
                date: job.date.clone(),
                metadata_xml: None,
                checksum: None,
            };
            let action = FetchAction::Upsert { date: job.date.clone(), candidate: c.clone() };
            let ghost before = found@;
            let mut list = found;
            list.push(c);
            assert(candidates(list@) =~= candidates(before).push(c@));
            (SpotlightStage::Store { ads, at, found: list }, action)
        },
        (SpotlightStage::Store { ads, at, found }, FetchEvent::Outcome(Ok(_))) => {
            spotlight_go_on(job, ads, at + 1, found)
        },
        (SpotlightStage::MakeDir(_), FetchEvent::Outcome(Err(e))) => spotlight_fail(e),
        (SpotlightStage::Store { .. }, FetchEvent::Outcome(Err(e))) => spotlight_fail(e),
        _ => vstd::pervasive::unreached(),
    }
}

// ------------------------------------------------------------------------------------------
// Laws
// ------------------------------------------------------------------------------------------

/// A course of a fetch: the stages that it goes through, the event at each of them, and the
/// action that follows the event.
pub struct SpotlightCourse {
    pub stages: Seq<SpotlightStage>,
    pub events: Seq<FetchEvent>,
    pub actions: Seq<FetchAction>,
}

/// Whether the step `i` of a course is one that the fetch takes.
pub open spec fn spotlight_step_taken(job: SpotlightJob, c: SpotlightCourse, i: int) -> bool {
    &&& spotlight_fits(c.stages[i], c.events[i])
    &&& spotlight_advances(job, c.stages[i], c.events[i], c.stages[i + 1], c.actions[i])
}

/// Whether a fetch can take this course.
pub open spec fn spotlight_possible(job: SpotlightJob, c: SpotlightCourse) -> bool {
    &&& c.stages.len() == c.events.len() + 1
    &&& c.actions.len() == c.events.len()
    &&& c.stages[0] is ReadIndex
    &&& forall|i: int| 0 <= i < c.events.len() ==> #[trigger] spotlight_step_taken(job, c, i)
}

proof fn lemma_offline_stages(job: SpotlightJob, c: SpotlightCourse, i: int)
    requires
        spotlight_possible(job, c),
        job.offline,
        0 <= i < c.stages.len(),
    ensures
        c.stages[i] is ReadIndex || c.stages[i] is Look || c.stages[i] is Over,
    decreases i,
{
    if i > 0 {
        lemma_offline_stages(job, c, i - 1);
        assert(spotlight_step_taken(job, c, i - 1));
    }
}

/// Offline, nothing is ever asked of the feed and nothing is downloaded.
pub proof fn offline_spotlight_uses_no_network(job: SpotlightJob, c: SpotlightCourse, i: int)
    requires
        spotlight_possible(job, c),
        job.offline,
        0 <= i < c.actions.len(),
    ensures
        !uses_network(c.actions[i]),
{
    lemma_offline_stages(job, c, i);
    assert(spotlight_step_taken(job, c, i));
}

/// Images of the cache whose files are there end the fetch at once, unless it is forced.
pub proof fn cached_feed_is_reused(job: SpotlightJob, c: SpotlightCourse, i: int)
    requires
        spotlight_possible(job, c),
        0 <= i < c.actions.len(),
        !job.force || job.offline,
        c.stages[i] is Look,
        c.events[i] matches FetchEvent::Present(present) && all_present(present@),
    ensures
        c.stages[i] matches SpotlightStage::Look(list) && spotlight_finds(
            candidates(list@),
            c.stages[i + 1],
            c.actions[i],
        ),
{
    assert(spotlight_step_taken(job, c, i));
}

/// The image that is applied without asking is the one whose number the settings give, counted
/// from one; without a number that counts it is the first.
pub proof fn numbered_image_is_applied(settings: SourceSettings)
    ensures
        settings.spotlight.index >= 1 ==> SpotlightSource.preferred(settings) + 1
            == settings.spotlight.index,
        settings.spotlight.index == 0 ==> SpotlightSource.preferred(settings) == 0,
{
}

/// An entry of the feed gives an image where its item, or the text that the item is, has an
/// advertisement with a landscape image that has an address; title, description, copyright and
/// link are those of the advertisement.
pub proof fn entry_gives_its_landscape_image(
    entry: Seq<char>,
    item: Seq<char>,
    object: Seq<char>,
    ad: Seq<char>,
    image: Seq<char>,
    url: Seq<char>,
)
    requires
        json_member_text(entry, "item"@) == Some(item),
        match json_string_text(item) {
            Some(inner) => object == inner,
            None => object == item,
        },
        json_member_text(object, "ad"@) == Some(ad),
        json_member_text(ad, "landscapeImage"@) == Some(image),
        string_member_text(image, "asset"@) == Some(url),
    ensures
        url.len() == 0 ==> entry_ad(entry) is None,
        url.len() > 0 ==> (entry_ad(entry) matches Some(a) && a.image == url && a.title
            == string_member_text(ad, "title"@) && a.description == string_member_text(
            ad,
            "description"@,
        ) && a.copyright == string_member_text(ad, "copyright"@) && a.link == string_member_text(
            ad,
            "ctaUri"@,
        )),
{
}

/// The images of a feed are those that its entries give, and each entry that gives an image has
/// it among them.
pub proof fn feed_has_the_images_of_its_entries(entries: Seq<Seq<char>>, k: int)
    requires
        0 <= k < entries.len(),
        entry_ad(entries[k]) is Some,
    ensures
        has_image(feed_ads(entries), entry_ad(entries[k]).unwrap().image),
        forall|i: int|
            0 <= i < feed_ads(entries).len() ==> given_by(entries, #[trigger] feed_ads(entries)[i]),
    decreases entries.len(),
{
    let t = entries.drop_last();
    let before = feed_ads(t);
    let after = feed_ads(entries);
    let wanted = entry_ad(entries[k]).unwrap().image;
    if k < t.len() {
        assert(t[k] == entries[k]);
        feed_has_the_images_of_its_entries(t, k);
        let i = choose|i: int| 0 <= i < before.len() && (#[trigger] before[i]).image == wanted;
        assert(after[i].image == wanted);
    } else if has_image(before, wanted) {
        let i = choose|i: int| 0 <= i < before.len() && (#[trigger] before[i]).image == wanted;
        assert(after[i].image == wanted);
    } else {
        assert(after[before.len() as int].image == wanted);
    }
    lemma_given(entries);
}

/// Whether one of the entries gives the image.
pub open spec fn given_by(entries: Seq<Seq<char>>, ad: AdView) -> bool {
    exists|k: int| 0 <= k < entries.len() && entry_ad(#[trigger] entries[k]) == Some(ad)
}

proof fn lemma_given(entries: Seq<Seq<char>>)
    ensures
        forall|i: int|
            0 <= i < feed_ads(entries).len() ==> given_by(entries, #[trigger] feed_ads(entries)[i]),
    decreases entries.len(),
{
    if entries.len() > 0 {
        let t = entries.drop_last();
        let before = feed_ads(t);
        lemma_given(t);
        assert forall|i: int| 0 <= i < feed_ads(entries).len() implies given_by(
            entries,
            #[trigger] feed_ads(entries)[i],
        ) by {
            if i < before.len() {
                assert(given_by(t, before[i]));
                let k = choose|k: int|
                    0 <= k < t.len() && entry_ad(#[trigger] t[k]) == Some(before[i]);
                assert(entries[k] == t[k]);
            } else {
                assert(entry_ad(entries[entries.len() - 1]) == Some(feed_ads(entries)[i]));
            }
        }
    }
}

/// The images of a feed are downloaded from their own addresses, one after the other, each into a
/// file of its own number; each is kept with what the feed tells of it.
pub proof fn image_of_the_feed_is_kept(
    job: SpotlightJob,
    ads: Vec<SpotlightAd>,
    at: usize,
    found: Vec<WallpaperCandidate>,
    image: crate::download::DownloadedImage,
    next: SpotlightStage,
    kept: FetchAction,
    then: SpotlightStage,
    action: FetchAction,
)
    requires
        at < ads@.len(),
        spotlight_advances(
            job,
            SpotlightStage::Download { ads, at, found },
            FetchEvent::Downloaded(Ok(image)),
            next,
            kept,
        ),
        spotlight_advances(job, next, FetchEvent::Outcome(Ok(())), then, action),
    ensures
        kept matches FetchAction::Upsert { date, candidate: c } && date@ == job.date@ && c@.id
            == "spotlight-"@ + job.date@ + "-"@ + decimal((at + 1) as nat) && c@.source is Spotlight
            && c@.title == opt_text(ads@[at as int].title) && c@.description == opt_text(
            ads@[at as int].description,
        ) && c@.attribution == opt_text(ads@[at as int].copyright) && c@.info_url == opt_text(
            ads@[at as int].link,
        ) && c@.image_url == ads@[at as int].image@ && c@.local_path == image.path@ && c@.date
            == job.date@,
        at + 1 < ads@.len() ==> (action matches FetchAction::DownloadFile { url, target } && url@
            == ads@[at + 1].image@ && target@ == path_join(
            job.media_dir@,
            "spotlight_"@ + job.date@ + "_"@ + decimal((at + 2) as nat) + ".jpg"@,
        )),
        at + 1 == ads@.len() ==> (action matches FetchAction::Finish(Ok(all)) && candidates(
            all.candidates@,
        ) == candidates(found@).push(kept->Upsert_candidate@)),
{
    assert(ad_views(ads@).len() == ads@.len());
    if at + 1 < ads@.len() {
        assert(ad_views(ads@)[at + 1] == ads@[at + 1]@);
    }
}

/// The feed is asked for again where a single image of the day is gone, where the fetch is forced,
/// and where the index of the day has no image of Spotlight, whatever it has of other sources.
pub proof fn incomplete_feed_is_asked_for(
    job: SpotlightJob,
    index: Option<crate::model::CacheIndex>,
    list: Vec<WallpaperCandidate>,
    present: Vec<bool>,
    gone: int,
    next: SpotlightStage,
    action: FetchAction,
)
    requires
        !job.offline,
        ({
            &&& spotlight_advances(
                job,
                SpotlightStage::ReadIndex,
                FetchEvent::Index(Ok(index)),
                next,
                action,
            )
            &&& forall|i: int|
                0 <= i < listed(index).len() ==> !((#[trigger] listed(index)[i]).source is Spotlight)
        }) || ({
            &&& spotlight_advances(
                job,
                SpotlightStage::Look(list),
                FetchEvent::Present(present),
                next,
                action,
            )
            &&& job.force || (0 <= gone < present@.len() && !present@[gone])
        }),
    ensures
        action matches FetchAction::Get(url) && url@ == job.url@,
{
    let all = listed(index);
    let p = |c: CandidateView| c.source == WallpaperSource::Spotlight;
    if forall|i: int| 0 <= i < all.len() ==> !((#[trigger] all[i]).source is Spotlight) {
        if all.filter(p).len() > 0 {
            all.lemma_filter_pred(p, 0);
            let c = all.filter(p)[0];
            lemma_filtered_from(all, p, 0);
        }
    }
}

proof fn lemma_filtered_from(s: Seq<CandidateView>, p: spec_fn(CandidateView) -> bool, k: int)
    requires
        0 <= k < s.filter(p).len(),
    ensures
        exists|i: int| 0 <= i < s.len() && #[trigger] s[i] == s.filter(p)[k],
    decreases s.len(),
{
    reveal(Seq::filter);
    if s.len() > 0 {
        let t = s.drop_last();
        if k < t.filter(p).len() {
            lemma_filtered_from(t, p, k);
            let i = choose|i: int| 0 <= i < t.len() && #[trigger] t[i] == t.filter(p)[k];
            assert(s[i] == t[i]);
        } else {
            assert(s[s.len() - 1] == s.filter(p)[k]);
        }
    }
}

/// All images of the day are reused where all their files are there, unless the fetch is forced.
pub proof fn complete_feed_is_reused(
    job: SpotlightJob,
    list: Vec<WallpaperCandidate>,
    present: Vec<bool>,
    next: SpotlightStage,
    action: FetchAction,
)
    requires
        spotlight_advances(
            job,
            SpotlightStage::Look(list),
            FetchEvent::Present(present),
            next,
            action,
        ),
        !job.force || job.offline,
        forall|i: int| 0 <= i < present@.len() ==> #[trigger] present@[i],
    ensures
        action matches FetchAction::Finish(Ok(found)) && candidates(found.candidates@)
            == candidates(list@),
{
}

/// What fails on the way is told as it is, and ends the fetch.
pub proof fn failure_of_spotlight_is_told(
    job: SpotlightJob,
    at: SpotlightStage,
    event: FetchEvent,
    e: WallpaperError,
    next: SpotlightStage,
    action: FetchAction,
)
    requires
        spotlight_advances(job, at, event, next, action),
        at is ReadIndex && event == FetchEvent::Index(Err(e)) || at is Body && event
            == FetchEvent::Text(Err(e)) || at is Download && event == FetchEvent::Downloaded(
            Err(e),
        ) || (at is MakeDir || at is Store) && event == FetchEvent::Outcome(Err(e)),
    ensures
        next is Over,
        action matches FetchAction::Finish(Err(told)) && told@ == e@,
{
}

/// An answer is read if its status is 200, and else the fetch fails.
pub proof fn only_good_answers_of_spotlight_are_read(
    job: SpotlightJob,
    at: SpotlightStage,
    status: u16,
    next: SpotlightStage,
    action: FetchAction,
)
    requires
        at is Ask,
        spotlight_advances(job, at, FetchEvent::Answer(Ok(status)), next, action),
    ensures
        status == 200 <==> action is ReadBody,
        status != 200 ==> (action matches FetchAction::Finish(Err(_))),
{
}

/// The images of the feed are fetched one after the other, each into a file of its own place; with
/// the last one, all that were kept are given.
pub proof fn images_are_fetched_in_turn(
    job: SpotlightJob,
    ads: Vec<SpotlightAd>,
    at: usize,
    found: Vec<WallpaperCandidate>,
    next: SpotlightStage,
    action: FetchAction,
)
    requires
        spotlight_advances(
            job,
            SpotlightStage::Store { ads, at, found },
            FetchEvent::Outcome(Ok(())),
            next,
            action,
        ),
    ensures
        at + 1 < ads@.len() ==> (action matches FetchAction::DownloadFile { url, target } && url@
            == ads@[at + 1]@.image && target@ == path_join(
            job.media_dir@,
            "spotlight_"@ + job.date@ + "_"@ + decimal((at + 2) as nat) + ".jpg"@,
        )),
        at + 1 >= ads@.len() ==> (action matches FetchAction::Finish(Ok(given)) && candidates(
            given.candidates@,
        ) == candidates(found@)),
{
    assert(ad_views(ads@).len() == ads@.len());
    if at + 1 < ads@.len() {
        assert(ad_views(ads@)[at + 1] == ads@[at + 1]@);
    }
}

/// The files that are looked for are those of the images that the cache has, one for each; and
/// the directory of the day is the one that is made.
pub proof fn own_places_are_used(
    job: SpotlightJob,
    at: SpotlightStage,
    event: FetchEvent,
    next: SpotlightStage,
    action: FetchAction,
    i: int,
)
    requires
        spotlight_fits(at, event),
        spotlight_advances(job, at, event, next, action),
    ensures
        action matches FetchAction::MakeDir(dir) ==> dir@ == job.media_dir@,
        action matches FetchAction::LookFor(paths) ==> (next matches SpotlightStage::Look(list)
            && paths@.len() == list@.len() && (0 <= i < list@.len() ==> paths@[i]@
            == list@[i].local_path@)),
{
    if let FetchAction::LookFor(paths) = action {
        if let SpotlightStage::Look(list) = next {
            assert(texts(paths@) == paths_of(candidates(list@)));
            assert(texts(paths@).len() == paths@.len());
            assert(candidates(list@).len() == list@.len());
            if 0 <= i < list@.len() {
                assert(texts(paths@)[i] == paths@[i]@);
                assert(candidates(list@)[i] == list@[i]@);
            }
        }
    }
}

/// The entries of the feed are the items of its batch; a feed without them has none.
pub proof fn entries_are_the_items_of_the_batch(
    body: Seq<char>,
    batch: Seq<char>,
    items: Seq<char>,
    list: Seq<Seq<char>>,
)
    ensures
        json_member_text(body, "batchrsp"@) == Some(batch) && json_member_text(batch, "items"@)
            == Some(items) && json_item_texts(items) == Some(list) ==> feed_entries(body) == list,
        json_member_text(body, "batchrsp"@) is None ==> feed_entries(body).len() == 0,
        json_member_text(body, "batchrsp"@) == Some(batch) && json_member_text(batch, "items"@)
            is None ==> feed_entries(body).len() == 0,
{
}

} // verus!

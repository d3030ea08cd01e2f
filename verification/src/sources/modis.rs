//! The image of the day of NASA's MODIS instrument.

use crate::cache::{find_candidate, listed, of_source};
use crate::config::AppConfig;
use crate::error::{ErrorView, WallpaperError, ensure_http_success, failure, status_error};
use crate::form::{append_pair, with_pair};
use crate::html::{
    html_attributes, html_texts, join_url, joined_url, links, select_attributes, select_texts,
};
use crate::model::{CandidateView, WallpaperCandidate, WallpaperSource};
use crate::path::{join_path, path_join};
use crate::sources::fetch::{
    FetchAction, FetchEvent, fails_with, finish_with, finishes, look_for, looks_for, upserts,
    uses_network,
};
use crate::sources::{Source, SourceSettings, pick_first};
use crate::text::{
    begins_with, contains, cut, holds, normalize_whitespace, opt_text, spaced, split_once,
    starts_with, stripped, texts, trim,
};
use vstd::prelude::*;

verus! {

/// How the MODIS gallery is reached.
#[derive(Debug)]
pub struct ModisSettings {
    pub url_override: Option<String>,
}

/// The section of the configuration for MODIS.
#[derive(Debug)]
pub struct ModisConfig {
    pub url_override: Option<String>,
}

impl ModisSettings {
    /// Whether these are the settings that `config` asks for.
    pub open spec fn follows(self, config: Option<&AppConfig>) -> bool {
        opt_text(self.url_override) == match config {
            Some(cfg) => match cfg.modis {
                Some(section) => opt_text(section.url_override),
                None => None,
            },
            None => None,
        }
    }

    /// The settings that `config` asks for.
    pub fn from_config(config: Option<&AppConfig>) -> (r: Self)
        ensures
            r.follows(config),
    {
        let url_override = match config {
            Some(cfg) => match &cfg.modis {
                Some(section) => section.url_override.clone(),
                None => None,
            },
            None => None,
        };
        ModisSettings { url_override }
    }
}

/// The MODIS gallery as a source.
pub struct ModisSource;

impl Source for ModisSource {
    open spec fn kind(&self) -> WallpaperSource {
        WallpaperSource::Modis
    }

    open spec fn takes_day(&self) -> bool {
        true
    }

    open spec fn preferred(&self, settings: SourceSettings) -> int {
        0
    }

    open spec fn none_found(&self, settings: SourceSettings, count: nat) -> Seq<char> {
        "No MODIS candidates found."@
    }

    fn id(&self) -> (r: WallpaperSource) {
        WallpaperSource::Modis
    }

    fn label(&self) -> (r: &'static str) {
        "MODIS"
    }

    fn description(&self) -> (r: &'static str) {
        "NASA MODIS image of the day"
    }

    fn supports_day(&self) -> (r: bool) {
        true
    }

    fn pick_default<'a>(
        &self,
        candidates: &'a Vec<WallpaperCandidate>,
        settings: &SourceSettings,
    ) -> (r: Result<&'a WallpaperCandidate, WallpaperError>) {
        pick_first(candidates, "No MODIS candidates found.")
    }
}

// ------------------------------------------------------------------------------------------
// The page
// ------------------------------------------------------------------------------------------

/// The address of the page of a day.
pub open spec fn modis_url(settings: ModisSettings, date: Seq<char>) -> Seq<char> {
    (match settings.url_override {
        Some(url) => url@,
        None => "https://modis.gsfc.nasa.gov/gallery/individual.php"@,
    }) + "?"@ + with_pair(Seq::empty(), "db_date"@, date)
}

/// The address of the page of a day.
pub fn build_modis_url(settings: &ModisSettings, date: &str) -> (r: String)
    ensures
        r@ == modis_url(*settings, date@),
{
    let empty = String::new();
    assert(empty@ =~= Seq::<char>::empty());
    let query = append_pair(empty, "db_date", date);
    let mut out = match &settings.url_override {
        Some(url) => url.clone(),
        None => "https://modis.gsfc.nasa.gov/gallery/individual.php".to_string(),
    };
    out.append("?");
    out.append(query.as_str());
    out
}

/// What a page says about its image.
#[derive(Debug)]
pub struct ModisParsed {
    pub title: String,
    pub description: String,
    pub image_url: String,
    pub credit: Option<String>,
}

/// The title that the first heading gives: what follows the date before it. `None` where there
/// is no heading or it is blank.
pub open spec fn page_title(headings: Seq<Seq<char>>) -> Option<Seq<char>> {
    if headings.len() == 0 {
        None
    } else {
        let text = spaced(headings[0]);
        let title = match cut(text, " - "@) {
            Some((_, rest)) => rest,
            None => text,
        };
        if title.len() == 0 {
            None
        } else {
            Some(title)
        }
    }
}

/// Whether a paragraph describes the image: it is not blank, and neither the credit nor the
/// facts.
pub open spec fn describes(paragraph: Seq<char>) -> bool {
    let text = spaced(paragraph);
    &&& text.len() > 0
    &&& !holds(text, "Image Credit:"@)
    &&& !begins_with(text, "Image Facts"@)
}

/// The first paragraph that describes the image.
pub open spec fn page_description(paragraphs: Seq<Seq<char>>) -> Option<Seq<char>>
    decreases paragraphs.len(),
{
    if paragraphs.len() == 0 {
        None
    } else {
        match page_description(paragraphs.drop_last()) {
            Some(text) => Some(text),
            None => if describes(paragraphs.last()) {
                Some(spaced(paragraphs.last()))
            } else {
                None
            },
        }
    }
}

/// The credit that a paragraph gives.
pub open spec fn credit_in(paragraph: Seq<char>) -> Option<Seq<char>> {
    match cut(spaced(paragraph), "Image Credit:"@) {
        Some((_, tail)) => if stripped(tail).len() > 0 {
            Some(stripped(tail))
        } else {
            None
        },
        None => None,
    }
}

/// The credit that the last of the paragraphs that give one gives.
pub open spec fn page_credit(paragraphs: Seq<Seq<char>>) -> Option<Seq<char>>
    decreases paragraphs.len(),
{
    if paragraphs.len() == 0 {
        None
    } else {
        match credit_in(paragraphs.last()) {
            Some(credit) => Some(credit),
            None => page_credit(paragraphs.drop_last()),
        }
    }
}

/// The first link that leads to an image of 500 m resolution.
pub open spec fn page_link(hrefs: Seq<Option<Seq<char>>>) -> Option<Seq<char>>
    decreases hrefs.len(),
{
    if hrefs.len() == 0 {
        None
    } else {
        match hrefs[0] {
            Some(href) if holds(href, "_500m.jpg"@) => Some(href),
            _ => page_link(hrefs.drop_first()),
        }
    }
}

fn title_from(headings: &Vec<String>) -> (r: Option<String>)
    ensures
        opt_text(r) == page_title(texts(headings@)),
{
    assert(texts(headings@).len() == headings@.len());
    if headings.len() == 0 {
        return None;
    }
    assert(texts(headings@)[0] == headings@[0]@);
    let text = normalize_whitespace(headings[0].as_str());
    let title = match split_once(text.as_str(), " - ") {
        Some((_, rest)) => rest,
        None => text,
    };
    if title.as_str().is_empty() {
        None
    } else {
        Some(title)
    }
}

fn paragraphs_from(paragraphs: &Vec<String>) -> (r: (Option<String>, Option<String>))
    ensures
        opt_text(r.0) == page_description(texts(paragraphs@)),
        opt_text(r.1) == page_credit(texts(paragraphs@)),
{
    let ghost all = texts(paragraphs@);
    let mut description: Option<String> = None;
    let mut credit: Option<String> = None;
    let mut i: usize = 0;
    while i < paragraphs.len()
        invariant
            i <= paragraphs@.len(),
            all == texts(paragraphs@),
            opt_text(description) == page_description(all.take(i as int)),
            opt_text(credit) == page_credit(all.take(i as int)),
        decreases paragraphs@.len() - i,
    {
        proof {
            assert(all.take(i + 1).drop_last() =~= all.take(i as int));
            assert(all.take(i + 1).last() == paragraphs@[i as int]@);
        }
        let text = normalize_whitespace(paragraphs[i].as_str());
        match split_once(text.as_str(), "Image Credit:") {
            Some((_, tail)) => {
                let value = trim(tail.as_str());
                if !value.as_str().is_empty() {
                    credit = Some(value);
                }
            },
            None => {
                if !text.as_str().is_empty() && !starts_with(text.as_str(), "Image Facts")
                    && description.is_none() {
                    description = Some(text);
                }
            },
        }
        i += 1;
    }
    assert(all.take(i as int) =~= all);
    (description, credit)
}

fn link_from(hrefs: &Vec<Option<String>>) -> (r: Option<String>)
    ensures
        opt_text(r) == page_link(links(hrefs@)),
{
    let ghost all = links(hrefs@);
    let mut i: usize = 0;
    assert(all.skip(0) =~= all);
    while i < hrefs.len()
        invariant
            i <= hrefs@.len(),
            all == links(hrefs@),
            page_link(all) == page_link(all.skip(i as int)),
        decreases hrefs@.len() - i,
    {
        assert(all.skip(i as int)[0] == opt_text(hrefs@[i as int]));
        assert(all.skip(i as int).drop_first() =~= all.skip(i + 1));
        if let Some(href) = &hrefs[i] {
            if contains(href.as_str(), "_500m.jpg") {
                return Some(href.clone());
            }
        }
        i += 1;
    }
    None
}

/// The address that a link of the gallery leads to; an error says why it leads nowhere.
pub open spec fn resolved(href: Seq<char>) -> Result<Seq<char>, Seq<char>> {
    if begins_with(href, "http://"@) || begins_with(href, "https://"@) {
        Ok(href)
    } else {
        match joined_url("https://modis.gsfc.nasa.gov/gallery/"@, href) {
            None => Err("MODIS base URL is invalid"@),
            Some(None) => Err("Unable to resolve MODIS image URL"@),
            Some(Some(url)) => Ok(url),
        }
    }
}

/// The address that a link of the gallery leads to.
pub fn resolve_modis_url(href: &str) -> (r: Result<String, WallpaperError>)
    ensures
        match r {
            Ok(url) => resolved(href@) == Ok::<Seq<char>, Seq<char>>(url@),
            Err(e) => resolved(href@) matches Err(text) && e@ == ErrorView::Message(text),
        },
{
    if starts_with(href, "http://") || starts_with(href, "https://") {
        return Ok(href.to_string());
    }
    match join_url("https://modis.gsfc.nasa.gov/gallery/", href) {
        None => Err(failure("MODIS base URL is invalid")),
        Some(None) => Err(failure("Unable to resolve MODIS image URL")),
        Some(Some(url)) => Ok(url),
    }
}

/// What a page with the given headings, paragraphs and links says, and why it says nothing.
pub open spec fn page_failure(
    headings: Seq<Seq<char>>,
    paragraphs: Seq<Seq<char>>,
    hrefs: Seq<Option<Seq<char>>>,
) -> Option<Seq<char>> {
    if page_title(headings) is None {
        Some("MODIS title not found"@)
    } else if page_description(paragraphs) is None {
        Some("MODIS description not found"@)
    } else {
        match page_link(hrefs) {
            None => Some("MODIS 500m image URL not found"@),
            Some(href) => match resolved(href) {
                Ok(_) => None,
                Err(text) => Some(text),
            },
        }
    }
}

impl ModisParsed {
    /// Whether this is what a page with the given headings, paragraphs and links says.
    pub open spec fn says(
        self,
        headings: Seq<Seq<char>>,
        paragraphs: Seq<Seq<char>>,
        hrefs: Seq<Option<Seq<char>>>,
    ) -> bool {
        &&& page_title(headings) == Some(self.title@)
        &&& page_description(paragraphs) == Some(self.description@)
        &&& page_link(hrefs) is Some
        &&& resolved(page_link(hrefs).unwrap()) == Ok::<Seq<char>, Seq<char>>(self.image_url@)
        &&& opt_text(self.credit) == page_credit(paragraphs)
    }
}

/// What a page with the given headings, paragraphs and links says.
pub fn parse_modis_page(
    headings: &Vec<String>,
    paragraphs: &Vec<String>,
    hrefs: &Vec<Option<String>>,
) -> (r: Result<ModisParsed, WallpaperError>)
    ensures
        match r {
            Ok(page) => page_failure(
                texts(headings@),
                texts(paragraphs@),
                links(hrefs@),
            ) is None && page.says(texts(headings@), texts(paragraphs@), links(hrefs@)),
            Err(e) => page_failure(
                texts(headings@),
                texts(paragraphs@),
                links(hrefs@),
            ) matches Some(text) && e@ == ErrorView::Message(text),
        },
{
    let title = match title_from(headings) {
        Some(t) => t,
        None => {
            return Err(failure("MODIS title not found"));
        },
    };
    let (description, credit) = paragraphs_from(paragraphs);
    let description = match description {
        Some(d) => d,
        None => {
            return Err(failure("MODIS description not found"));
        },
    };
    let image_url = match link_from(hrefs) {
        Some(href) => match resolve_modis_url(href.as_str()) {
            Ok(url) => url,
            Err(e) => {
                return Err(e);
            },
        },
        None => {
            return Err(failure("MODIS 500m image URL not found"));
        },
    };
    Ok(ModisParsed { title, description, image_url, credit })
}

/// Why nothing can be read from a page; `None` where something can.
pub open spec fn html_failure(html: Seq<char>) -> Option<Seq<char>> {
    let headings = html_texts(html, "div.option h5 b"@);
    let paragraphs = html_texts(html, "div.option p"@);
    let hrefs = html_attributes(html, "a"@, "href"@);
    if headings is None {
        Some("Unable to build MODIS title selector"@)
    } else if page_title(headings.unwrap()) is None {
        Some("MODIS title not found"@)
    } else if paragraphs is None {
        Some("Unable to build MODIS paragraph selector"@)
    } else if page_description(paragraphs.unwrap()) is None {
        Some("MODIS description not found"@)
    } else if hrefs is None {
        Some("Unable to build MODIS link selector"@)
    } else {
        page_failure(headings.unwrap(), paragraphs.unwrap(), hrefs.unwrap())
    }
}

/// Whether this is what an HTML page says.
pub open spec fn html_says(html: Seq<char>, page: ModisParsed) -> bool {
    let headings = html_texts(html, "div.option h5 b"@);
    let paragraphs = html_texts(html, "div.option p"@);
    let hrefs = html_attributes(html, "a"@, "href"@);
    &&& headings is Some && paragraphs is Some && hrefs is Some
    &&& page.says(headings.unwrap(), paragraphs.unwrap(), hrefs.unwrap())
}

/// What an HTML page of the gallery says.
pub fn parse_modis_html(html: &str) -> (r: Result<ModisParsed, WallpaperError>)
    ensures
        match r {
            Ok(page) => html_failure(html@) is None && html_says(html@, page),
            Err(e) => html_failure(html@) matches Some(text) && e@ == ErrorView::Message(text),
        },
{
    let headings = match select_texts(html, "div.option h5 b") {
        Some(list) => list,
        None => {
            return Err(failure("Unable to build MODIS title selector"));
        },
    };
    if title_from(&headings).is_none() {
        return Err(failure("MODIS title not found"));
    }
    let paragraphs = match select_texts(html, "div.option p") {
        Some(list) => list,
        None => {
            return Err(failure("Unable to build MODIS paragraph selector"));
        },
    };
    if paragraphs_from(&paragraphs).0.is_none() {
        return Err(failure("MODIS description not found"));
    }
    match select_attributes(html, "a", "href") {
        Some(hrefs) => parse_modis_page(&headings, &paragraphs, &hrefs),
        None => Err(failure("Unable to build MODIS link selector")),
    }
}

// ------------------------------------------------------------------------------------------
// The machine
// ------------------------------------------------------------------------------------------

/// What is fetched: the image of one day.
pub struct ModisJob {
    pub date: String,
    /// The directory of the images of that day.
    pub media_dir: String,
    pub force: bool,
    pub offline: bool,
    pub settings: ModisSettings,
}

/// How far a fetch is.
pub enum ModisStage {
    /// The index of the day is read.
    ReadIndex,
    /// The file of the candidate of the index is looked for.
    Look(WallpaperCandidate),
    /// The server is asked.
    Ask,
    /// The answer is read.
    Body,
    /// The directory is made.
    MakeDir(ModisParsed),
    /// The image is downloaded.
    Download(ModisParsed),
    /// The candidate is put into the index.
    Store(WallpaperCandidate),
    Over,
}

/// Whether an event can follow the action of a stage.
pub open spec fn modis_fits(at: ModisStage, event: FetchEvent) -> bool {
    match at {
        ModisStage::ReadIndex => event is Index,
        ModisStage::Look(_) => event matches FetchEvent::Present(present) && present@.len() == 1,
        ModisStage::Ask => event is Answer,
        ModisStage::Body => event is Text,
        ModisStage::MakeDir(_) | ModisStage::Store(_) => event is Outcome,
        ModisStage::Download(_) => event is Downloaded,
        ModisStage::Over => false,
    }
}

/// Whether the fetch ends with `error`.
pub open spec fn modis_fails(error: ErrorView, next: ModisStage, action: FetchAction) -> bool {
    next is Over && fails_with(action, error)
}

/// Whether the fetch asks the server; offline it fails.
pub open spec fn modis_asks(job: ModisJob, next: ModisStage, action: FetchAction) -> bool {
    if job.offline {
        modis_fails(
            ErrorView::Message(
                "Offline mode enabled; no cached MODIS wallpaper for "@ + job.date@ + "."@,
            ),
            next,
            action,
        )
    } else {
        &&& next is Ask
        &&& action matches FetchAction::Get(url) && url@ == modis_url(job.settings, job.date@)
    }
}

/// The candidate for an image that was downloaded.
pub open spec fn modis_candidate(job: ModisJob, page: ModisParsed, path: Seq<char>) ->
    CandidateView {
    CandidateView {
        id: "modis-"@ + job.date@,
        source: WallpaperSource::Modis,
        title: Some(page.title@),
        description: Some(page.description@),
        attribution: match page.credit {
            Some(credit) => Some("Image Credit: "@ + credit@),
            None => None,
        },
        info_url: Some(modis_url(job.settings, job.date@)),
        image_url: page.image_url@,
        local_path: path,
        date: job.date@,
        metadata_xml: None,
        checksum: None,
    }
}

/// Whether a fetch at the stage `at` goes on to `next` with `action` after `event`.
pub open spec fn modis_advances(
    job: ModisJob,
    at: ModisStage,
    event: FetchEvent,
    next: ModisStage,
    action: FetchAction,
) -> bool {
    match (at, event) {
        (ModisStage::ReadIndex, FetchEvent::Index(Err(e))) => modis_fails(e@, next, action),
        (ModisStage::ReadIndex, FetchEvent::Index(Ok(index))) => match of_source(
            listed(index),
            WallpaperSource::Modis,
        ) {
            Some(c) => {
                &&& next matches ModisStage::Look(kept) && kept@ == c
                &&& looks_for(action, c.local_path)
            },
            None => modis_asks(job, next, action),
        },
        (ModisStage::Look(c), FetchEvent::Present(present)) => if present@[0] && (!job.force
            || job.offline) {
            next is Over && finishes(action, c@, false)
        } else {
            modis_asks(job, next, action)
        },
        (ModisStage::Ask, FetchEvent::Answer(Err(e))) => modis_fails(
            ErrorView::Request { timeout: e.timeout, text: e.text@ },
            next,
            action,
        ),
        (ModisStage::Ask, FetchEvent::Answer(Ok(status))) => match status_error(
            status,
            modis_url(job.settings, job.date@),
        ) {
            Some(error) => modis_fails(error, next, action),
            None => next is Body && action is ReadBody,
        },
        (ModisStage::Body, FetchEvent::Text(Err(e))) => modis_fails(e@, next, action),
        (ModisStage::Body, FetchEvent::Text(Ok(html))) => match html_failure(html@) {
            Some(text) => modis_fails(ErrorView::Message(text), next, action),
            None => {
                &&& next matches ModisStage::MakeDir(page) && html_says(html@, page)
                &&& action matches FetchAction::MakeDir(dir) && dir@ == job.media_dir@
            },
        },
        (ModisStage::MakeDir(page), FetchEvent::Outcome(Ok(_))) => {
            &&& next == ModisStage::Download(page)
            &&& action matches FetchAction::DownloadFile { url, target } && url@ == page.image_url@
                && target@ == path_join(job.media_dir@, "modis_"@ + job.date@ + ".jpg"@)
        },
        (ModisStage::Download(_), FetchEvent::Downloaded(Err(e))) => modis_fails(e@, next, action),
        (ModisStage::Download(page), FetchEvent::Downloaded(Ok(image))) => {
            let c = modis_candidate(job, page, image.path@);
            &&& next matches ModisStage::Store(kept) && kept@ == c
            &&& upserts(action, job.date@, c)
        },
        (ModisStage::Store(c), FetchEvent::Outcome(Ok(_))) => next is Over && finishes(
            action,
            c@,
            false,
        ),
        (ModisStage::MakeDir(_), FetchEvent::Outcome(Err(e))) | (
            ModisStage::Store(_),
            FetchEvent::Outcome(Err(e)),
        ) => modis_fails(e@, next, action),
        _ => false,
    }
}

fn modis_fail(error: WallpaperError) -> (r: (ModisStage, FetchAction))
    ensures
        modis_fails(error@, r.0, r.1),
{
    (ModisStage::Over, FetchAction::Finish(Err(error)))
}

fn modis_ask(job: &ModisJob) -> (r: (ModisStage, FetchAction))
    ensures
        modis_asks(*job, r.0, r.1),
{
    if job.offline {
        let mut text = "Offline mode enabled; no cached MODIS wallpaper for ".to_string();
        text.append(job.date.as_str());
        text.append(".");
        return modis_fail(WallpaperError::Message(text));
    }
    let url = build_modis_url(&job.settings, job.date.as_str());
    (ModisStage::Ask, FetchAction::Get(url))
}

/// Begins to fetch the image of a day: the index of the day is read.
pub fn fetch_modis_candidate(job: &ModisJob) -> (r: (ModisStage, FetchAction))
    ensures
        r.0 is ReadIndex,
        r.1 matches FetchAction::ReadIndex(date) && date@ == job.date@,
{
    (ModisStage::ReadIndex, FetchAction::ReadIndex(job.date.clone()))
}

/// The next stage and action of a fetch.
pub fn modis_step(job: &ModisJob, at: ModisStage, event: FetchEvent) -> (r: (
    ModisStage,
    FetchAction,
))
    requires
        modis_fits(at, event),
    ensures
        modis_advances(*job, at, event, r.0, r.1),
{
    match (at, event) {
        (ModisStage::ReadIndex, FetchEvent::Index(Err(e))) => modis_fail(e),
        (ModisStage::ReadIndex, FetchEvent::Index(Ok(index))) => match find_candidate(
            index.as_ref(),
            WallpaperSource::Modis,
        ) {
            Some(c) => {
                let path = c.local_path.clone();
                (ModisStage::Look(c), look_for(path))
            },
            None => {
                proof {
                    if index is None {
                        assert(listed(index) =~= Seq::<CandidateView>::empty());
                    }
                }
                modis_ask(job)
            },
        },
        (ModisStage::Look(c), FetchEvent::Present(present)) => if present[0] && (!job.force
            || job.offline) {
            (ModisStage::Over, finish_with(c, false))
        } else {
            modis_ask(job)
        },
        (ModisStage::Ask, FetchEvent::Answer(Err(e))) => modis_fail(
            WallpaperError::Request { timeout: e.timeout, text: e.text },
        ),
        (ModisStage::Ask, FetchEvent::Answer(Ok(status))) => {
            let url = build_modis_url(&job.settings, job.date.as_str());
            match ensure_http_success(status, url.as_str()) {
                Ok(_) => (ModisStage::Body, FetchAction::ReadBody),
                Err(e) => modis_fail(e),
            }
        },
        (ModisStage::Body, FetchEvent::Text(Err(e))) => modis_fail(e),
        (ModisStage::Body, FetchEvent::Text(Ok(html))) => match parse_modis_html(html.as_str()) {
            Ok(page) => (ModisStage::MakeDir(page), FetchAction::MakeDir(job.media_dir.clone())),
            Err(e) => modis_fail(e),
        },
        (ModisStage::MakeDir(page), FetchEvent::Outcome(Ok(_))) => {
            let mut name = "modis_".to_string();
            name.append(job.date.as_str());
            name.append(".jpg");
            let action = FetchAction::DownloadFile {
                url: page.image_url.clone(),
                target: join_path(job.media_dir.as_str(), name.as_str()),
            };
            (ModisStage::Download(page), action)
        },
        (ModisStage::Download(_), FetchEvent::Downloaded(Err(e))) => modis_fail(e),
        (ModisStage::Download(page), FetchEvent::Downloaded(Ok(image))) => {
            let mut id = "modis-".to_string();
            id.append(job.date.as_str());
            let attribution = match page.credit {
                Some(credit) => {
                    let mut text = "Image Credit: ".to_string();
                    text.append(credit.as_str());
                    Some(text)
                },
                None => None,
            };
            let c = WallpaperCandidate {
                id,
                source: WallpaperSource::Modis,
                title: Some(page.title),
                description: Some(page.description),
                attribution,
                info_url: Some(build_modis_url(&job.settings, job.date.as_str())),
                image_url: page.image_url,
                local_path: image.path,
                date: job.date.clone(),
                metadata_xml: None,
                checksum: None,
            };
            let action = FetchAction::Upsert { date: job.date.clone(), candidate: c.clone() };
            (ModisStage::Store(c), action)
        },
        (ModisStage::Store(c), FetchEvent::Outcome(Ok(_))) => (
            ModisStage::Over,
            finish_with(c, false),
        ),
        (ModisStage::MakeDir(_), FetchEvent::Outcome(Err(e))) => modis_fail(e),
        (ModisStage::Store(_), FetchEvent::Outcome(Err(e))) => modis_fail(e),
        _ => vstd::pervasive::unreached(),
    }
}

// ------------------------------------------------------------------------------------------
// Laws
// ------------------------------------------------------------------------------------------

/// A course of a fetch: the stages that it goes through, the event at each of them, and the
/// action that follows the event.
pub struct ModisCourse {
    pub stages: Seq<ModisStage>,
    pub events: Seq<FetchEvent>,
    pub actions: Seq<FetchAction>,
}

/// Whether the step `i` of a course is one that the fetch takes.
pub open spec fn modis_step_taken(job: ModisJob, c: ModisCourse, i: int) -> bool {
    &&& modis_fits(c.stages[i], c.events[i])
    &&& modis_advances(job, c.stages[i], c.events[i], c.stages[i + 1], c.actions[i])
}

/// Whether a fetch can take this course.
pub open spec fn modis_possible(job: ModisJob, c: ModisCourse) -> bool {
    &&& c.stages.len() == c.events.len() + 1
    &&& c.actions.len() == c.events.len()
    &&& c.stages[0] is ReadIndex
    &&& forall|i: int| 0 <= i < c.events.len() ==> #[trigger] modis_step_taken(job, c, i)
}

proof fn lemma_offline_stages(job: ModisJob, c: ModisCourse, i: int)
    requires
        modis_possible(job, c),
        job.offline,
        0 <= i < c.stages.len(),
    ensures
        c.stages[i] is ReadIndex || c.stages[i] is Look || c.stages[i] is Over,
    decreases i,
{
    if i > 0 {
        lemma_offline_stages(job, c, i - 1);
        assert(modis_step_taken(job, c, i - 1));
    }
}

/// Offline, nothing is ever asked of the gallery and nothing is downloaded.
pub proof fn offline_modis_uses_no_network(job: ModisJob, c: ModisCourse, i: int)
    requires
        modis_possible(job, c),
        job.offline,
        0 <= i < c.actions.len(),
    ensures
        !uses_network(c.actions[i]),
{
    lemma_offline_stages(job, c, i);
    assert(modis_step_taken(job, c, i));
}

/// An image of the cache whose file is there ends the fetch at once, unless it is forced.
pub proof fn cached_image_is_reused(job: ModisJob, c: ModisCourse, i: int)
    requires
        modis_possible(job, c),
        0 <= i < c.actions.len(),
        !job.force || job.offline,
        c.stages[i] is Look,
        c.events[i] matches FetchEvent::Present(present) && present@[0],
    ensures
        c.stages[i] matches ModisStage::Look(kept) && finishes(c.actions[i], kept@, false),
{
    assert(modis_step_taken(job, c, i));
}

/// The page of a day is asked for by that day.
pub proof fn gallery_is_asked_for_the_day(settings: ModisSettings, date: Seq<char>)
    requires
        crate::form::form_plain_text(date),
    ensures
        settings.url_override is None ==> modis_url(settings, date)
            == "https://modis.gsfc.nasa.gov/gallery/individual.php?db_date="@ + date,
        settings.url_override matches Some(url) ==> modis_url(settings, date) == url@
            + "?db_date="@ + date,
{
    reveal_strlit("https://modis.gsfc.nasa.gov/gallery/individual.php?db_date=");
    reveal_strlit("https://modis.gsfc.nasa.gov/gallery/individual.php");
    reveal_strlit("?db_date=");
    reveal_strlit("?");
    reveal_strlit("db_date");
    crate::form::plain_text_is_not_changed("db_date"@);
    crate::form::plain_text_is_not_changed(date);
    let base = match settings.url_override {
        Some(url) => url@,
        None => "https://modis.gsfc.nasa.gov/gallery/individual.php"@,
    };
    assert(modis_url(settings, date) =~= base + "?db_date="@ + date);
    if settings.url_override is None {
        assert(base + "?db_date="@
            =~= "https://modis.gsfc.nasa.gov/gallery/individual.php?db_date="@);
    }
}

/// The title of an image is what follows the date and a dash in the first heading.
pub proof fn title_follows_the_date(headings: Seq<Seq<char>>, date: Seq<char>, title: Seq<char>)
    requires
        headings.len() > 0,
        spaced(headings[0]) == date + " - "@ + title,
        !date.contains('-'),
        title.len() > 0,
    ensures
        page_title(headings) == Some(title),
{
    let text = date + " - "@ + title;
    let n = date.len() as int;
    reveal_strlit(" - ");
    let pat = " - "@;
    crate::text::lemma_find_from(text, pat, 0);
    assert(text.subrange(n, n + 3) =~= pat);
    assert(crate::text::occurs_at(text, pat, n));
    assert forall|i: int| 0 <= i < n implies !crate::text::occurs_at(text, pat, i) by {
        if crate::text::occurs_at(text, pat, i) {
            assert(text.subrange(i, i + 3)[1] == '-');
            assert(text[i + 1] == '-');
            if i + 1 < n {
                assert(date[i + 1] == '-');
            } else {
                assert(text[n] == ' ');
            }
        }
    }
    assert(text.skip(n + 3) =~= title);
}

/// A heading without a dash is the title as it is.
pub proof fn heading_without_date_is_the_title(headings: Seq<Seq<char>>)
    requires
        headings.len() > 0,
        !holds(spaced(headings[0]), " - "@),
        spaced(headings[0]).len() > 0,
    ensures
        page_title(headings) == Some(spaced(headings[0])),
{
}

/// Whether a paragraph is blank, the credit, or the facts.
pub open spec fn tells_nothing(paragraph: Seq<char>) -> bool {
    ||| spaced(paragraph).len() == 0
    ||| holds(spaced(paragraph), "Image Credit:"@)
    ||| begins_with(spaced(paragraph), "Image Facts"@)
}

/// The description of an image is the first paragraph that is neither blank nor the credit nor
/// the facts.
pub proof fn first_telling_paragraph_describes(paragraphs: Seq<Seq<char>>, i: int)
    requires
        0 <= i < paragraphs.len(),
        !tells_nothing(paragraphs[i]),
        forall|j: int| 0 <= j < i ==> tells_nothing(#[trigger] paragraphs[j]),
    ensures
        page_description(paragraphs) == Some(spaced(paragraphs[i])),
    decreases paragraphs.len(),
{
    let t = paragraphs.drop_last();
    if i < t.len() {
        assert forall|j: int| 0 <= j < i implies tells_nothing(#[trigger] t[j]) by {
            assert(t[j] == paragraphs[j]);
        }
        first_telling_paragraph_describes(t, i);
    } else {
        assert forall|j: int| 0 <= j < t.len() implies tells_nothing(#[trigger] t[j]) by {
            assert(t[j] == paragraphs[j]);
        }
        lemma_nothing_told(t);
    }
}

proof fn lemma_nothing_told(paragraphs: Seq<Seq<char>>)
    requires
        forall|j: int| 0 <= j < paragraphs.len() ==> tells_nothing(#[trigger] paragraphs[j]),
    ensures
        page_description(paragraphs) is None,
    decreases paragraphs.len(),
{
    if paragraphs.len() > 0 {
        let t = paragraphs.drop_last();
        assert forall|j: int| 0 <= j < t.len() implies tells_nothing(#[trigger] t[j]) by {
            assert(t[j] == paragraphs[j]);
        }
        lemma_nothing_told(t);
        assert(tells_nothing(paragraphs[paragraphs.len() - 1]));
    }
}

/// The image of a page is behind the first link that names an image of 500 m resolution.
pub proof fn link_of_500_meters_is_taken(hrefs: Seq<Option<Seq<char>>>, i: int)
    requires
        0 <= i < hrefs.len(),
        hrefs[i] matches Some(h) && holds(h, "_500m.jpg"@),
        forall|j: int|
            0 <= j < i ==> (#[trigger] hrefs[j] matches Some(h) ==> !holds(h, "_500m.jpg"@)),
    ensures
        page_link(hrefs) == hrefs[i],
    decreases hrefs.len(),
{
    if i > 0 {
        assert(hrefs[0] matches Some(h) ==> !holds(h, "_500m.jpg"@));
        let t = hrefs.drop_first();
        assert forall|j: int| 0 <= j < i - 1 implies (#[trigger] t[j] matches Some(h) ==> !holds(
            h,
            "_500m.jpg"@,
        )) by {
            assert(t[j] == hrefs[j + 1]);
        }
        link_of_500_meters_is_taken(t, i - 1);
    }
}

/// The credit of an image stands behind its words in the last paragraph that has one.
pub proof fn last_credit_counts(
    paragraphs: Seq<Seq<char>>,
    before: Seq<char>,
    credit: Seq<char>,
)
    requires
        paragraphs.len() > 0,
        spaced(paragraphs.last()) == before + "Image Credit:"@ + credit,
        !before.contains('I'),
        stripped(credit).len() > 0,
    ensures
        page_credit(paragraphs) == Some(stripped(credit)),
{
    let text = before + "Image Credit:"@ + credit;
    let n = before.len() as int;
    reveal_strlit("Image Credit:");
    let pat = "Image Credit:"@;
    crate::text::lemma_find_from(text, pat, 0);
    assert(text.subrange(n, n + pat.len()) =~= pat);
    assert(crate::text::occurs_at(text, pat, n));
    assert forall|i: int| 0 <= i < n implies !crate::text::occurs_at(text, pat, i) by {
        if crate::text::occurs_at(text, pat, i) {
            assert(text.subrange(i, i + pat.len())[0] == 'I');
            assert(before[i] == 'I');
        }
    }
    assert(text.skip(n + pat.len()) =~= credit);
}

/// A link to another place stays as it is; one without a protocol leads into the gallery.
pub proof fn links_lead_into_the_gallery(href: Seq<char>)
    ensures
        begins_with(href, "https://"@) || begins_with(href, "http://"@) ==> resolved(href) == Ok::<
            Seq<char>,
            Seq<char>,
        >(href),
        !begins_with(href, "https://"@) && !begins_with(href, "http://"@) ==> match joined_url(
            "https://modis.gsfc.nasa.gov/gallery/"@,
            href,
        ) {
            Some(Some(url)) => resolved(href) == Ok::<Seq<char>, Seq<char>>(url),
            _ => resolved(href) is Err,
        },
{
}

/// What a page tells of its image: the title of its heading, the description and the credit of
/// its paragraphs, and the image behind its link.
pub proof fn page_is_read(job: ModisJob, html: String, next: ModisStage, action: FetchAction)
    requires
        modis_advances(job, ModisStage::Body, FetchEvent::Text(Ok(html)), next, action),
        action is MakeDir,
    ensures
        next matches ModisStage::MakeDir(page) && {
            &&& html_texts(html@, "div.option h5 b"@) matches Some(headings) && page_title(headings)
                == Some(page.title@)
            &&& html_texts(html@, "div.option p"@) matches Some(paragraphs) && page_description(
                paragraphs,
            ) == Some(page.description@) && page_credit(paragraphs) == opt_text(page.credit)
            &&& html_attributes(html@, "a"@, "href"@) matches Some(hrefs) && (page_link(
                hrefs,
            ) matches Some(href) && resolved(href) == Ok::<Seq<char>, Seq<char>>(page.image_url@))
        },
{
}

/// The image that a page tells of is downloaded, and kept with what the page tells, under the day
/// that was asked for.
pub proof fn image_of_the_page_is_kept(
    job: ModisJob,
    page: ModisParsed,
    next: ModisStage,
    download: FetchAction,
    image: crate::download::DownloadedImage,
    last: ModisStage,
    kept: FetchAction,
)
    requires
        modis_advances(
            job,
            ModisStage::MakeDir(page),
            FetchEvent::Outcome(Ok(())),
            next,
            download,
        ),
        modis_advances(job, next, FetchEvent::Downloaded(Ok(image)), last, kept),
    ensures
        download matches FetchAction::DownloadFile { url, target } && url@ == page.image_url@
            && target@ == path_join(job.media_dir@, "modis_"@ + job.date@ + ".jpg"@),
        kept matches FetchAction::Upsert { date, candidate: c } && date@ == job.date@ && c@.id
            == "modis-"@ + job.date@ && c@.source is Modis && c@.title == Some(page.title@)
            && c@.description == Some(page.description@) && c@.image_url == page.image_url@
            && c@.local_path == image.path@ && c@.date == job.date@ && c@.info_url == Some(
            modis_url(job.settings, job.date@),
        ) && (page.credit matches Some(credit) ==> c@.attribution == Some(
            "Image Credit: "@ + credit@,
        )) && (page.credit is None ==> c@.attribution is None),
{
}

/// The server is asked where the index of the day has no image of MODIS, whatever it has of other
/// sources, and where the file of the image is gone or the fetch is forced.
pub proof fn missing_image_is_asked_for(
    job: ModisJob,
    index: Option<crate::model::CacheIndex>,
    c: WallpaperCandidate,
    present: Vec<bool>,
    next: ModisStage,
    action: FetchAction,
)
    requires
        !job.offline,
        ({
            &&& modis_advances(job, ModisStage::ReadIndex, FetchEvent::Index(Ok(index)), next, action)
            &&& forall|i: int|
                0 <= i < listed(index).len() ==> !((#[trigger] listed(index)[i]).source is Modis)
        }) || ({
            &&& modis_advances(job, ModisStage::Look(c), FetchEvent::Present(present), next, action)
            &&& present@.len() == 1
            &&& !present@[0] || job.force
        }),
    ensures
        action matches FetchAction::Get(url) && url@ == modis_url(job.settings, job.date@),
{
    let all = listed(index);
    if forall|i: int| 0 <= i < all.len() ==> !((#[trigger] all[i]).source is Modis) {
        crate::cache::lemma_first_where(
            all,
            |c: CandidateView| c.source == WallpaperSource::Modis,
            all.len() as int,
        );
    }
}

/// What fails on the way is told as it is, and ends the fetch.
pub proof fn failure_of_modis_is_told(
    job: ModisJob,
    at: ModisStage,
    event: FetchEvent,
    e: WallpaperError,
    next: ModisStage,
    action: FetchAction,
)
    requires
        modis_advances(job, at, event, next, action),
        at is ReadIndex && event == FetchEvent::Index(Err(e)) || at is Body && event
            == FetchEvent::Text(Err(e)) || at is Download && event == FetchEvent::Downloaded(
            Err(e),
        ) || (at is MakeDir || at is Store) && event == FetchEvent::Outcome(Err(e)),
    ensures
        next is Over,
        action matches FetchAction::Finish(Err(told)) && told@ == e@,
{
}

/// An answer is read if its status is 200, and else the fetch fails.
pub proof fn only_good_answers_of_modis_are_read(
    job: ModisJob,
    at: ModisStage,
    status: u16,
    next: ModisStage,
    action: FetchAction,
)
    requires
        at is Ask,
        modis_advances(job, at, FetchEvent::Answer(Ok(status)), next, action),
    ensures
        status == 200 <==> action is ReadBody,
        status != 200 ==> (action matches FetchAction::Finish(Err(_))),
{
}

/// The files of the image are handled where they belong: its directory is made, and the file that
/// the cache names is looked for.
pub proof fn own_places_are_used(
    job: ModisJob,
    at: ModisStage,
    event: FetchEvent,
    next: ModisStage,
    action: FetchAction,
)
    requires
        modis_fits(at, event),
        modis_advances(job, at, event, next, action),
    ensures
        action matches FetchAction::MakeDir(dir) ==> dir@ == job.media_dir@,
        action matches FetchAction::LookFor(list) ==> list@.len() == 1 && (next
            matches ModisStage::Look(c) && list@[0]@ == c@.local_path && c@.source is Modis),
{
    if let FetchAction::LookFor(list) = action {
        assert(texts(list@).len() == list@.len());
        assert(texts(list@)[0] == list@[0]@);
        if let FetchEvent::Index(Ok(index)) = event {
            lemma_of_source(listed(index), WallpaperSource::Modis);
        }
    }
}

proof fn lemma_of_source(s: Seq<CandidateView>, source: WallpaperSource)
    ensures
        of_source(s, source) matches Some(c) ==> c.source == source,
    decreases s.len(),
{
    if s.len() > 0 {
        lemma_of_source(s.drop_first(), source);
    }
}

/// A page is refused if it has no title, no description or no link to an image, and for the first
/// of these; a page that has all of them is not refused.
pub proof fn incomplete_page_is_refused(
    headings: Seq<Seq<char>>,
    paragraphs: Seq<Seq<char>>,
    hrefs: Seq<Option<Seq<char>>>,
)
    ensures
        page_title(headings) is None ==> page_failure(headings, paragraphs, hrefs) == Some(
            "MODIS title not found"@,
        ),
        page_title(headings) is Some && page_description(paragraphs) is None ==> page_failure(
            headings,
            paragraphs,
            hrefs,
        ) == Some("MODIS description not found"@),
        page_title(headings) is Some && page_description(paragraphs) is Some && page_link(
            hrefs,
        ) is None ==> page_failure(headings, paragraphs, hrefs) == Some(
            "MODIS 500m image URL not found"@,
        ),
        page_title(headings) is Some && page_description(paragraphs) is Some && (page_link(
            hrefs,
        ) matches Some(href) && resolved(href) is Ok) ==> page_failure(headings, paragraphs, hrefs)
            is None,
{
}

/// The title stands in the bold headings of the page, the description in its paragraphs, and the
/// image behind its links.
pub proof fn parts_of_the_page_are_found(
    html: Seq<char>,
    headings: Seq<Seq<char>>,
    paragraphs: Seq<Seq<char>>,
    hrefs: Seq<Option<Seq<char>>>,
)
    requires
        html_texts(html, "div.option h5 b"@) == Some(headings),
        html_texts(html, "div.option p"@) == Some(paragraphs),
        html_attributes(html, "a"@, "href"@) == Some(hrefs),
    ensures
        page_title(headings) is None ==> html_failure(html) == Some("MODIS title not found"@),
        page_title(headings) is Some && page_description(paragraphs) is None ==> html_failure(html)
            == Some("MODIS description not found"@),
        page_title(headings) is Some && page_description(paragraphs) is Some && (page_link(
            hrefs,
        ) matches Some(href) && resolved(href) is Ok) ==> html_failure(html) is None,
{
}

} // verus!

//! The sources, driven in a world that is held in memory.

use daily_wallpaper::cache::{CacheManager, find_candidate, find_candidates_by_source, upsert_candidate};
use daily_wallpaper::checksum::compute_checksum;
use daily_wallpaper::date::Date;
use daily_wallpaper::download::{
    Action, DownloadedImage, Event, Job, SendError, Stage, Style, download_to_path,
    enforce_min_resolution, is_replaced, plain_job, refusal_note, step,
};
use daily_wallpaper::error::WallpaperError;
use daily_wallpaper::model::{
    CacheIndex, Settings, SourceSet, SourceSkip, WallpaperCandidate, WallpaperSource,
};
use daily_wallpaper::sources::apod::{ApodResponse, plan_crop, primary_display_size};
use daily_wallpaper::sources::apod_fetch::{
    ApodJob, apod_step, build_apod_url, fetch_apod_candidate,
};
use daily_wallpaper::sources::bing::{
    BingSettings, build_archive_url, candidate_dedupe_key, metadata_date_label,
    parse_bing_metadata, parse_xml_text, sanitize_filename,
};
use daily_wallpaper::sources::bing_fetch::{
    BingJob, bing_step, download_image, ensure_info_file, fetch_bing_candidate, read_page,
    resolution_note,
};
use daily_wallpaper::sources::bing_round::{
    BingRound, FetchedCandidate, RoundAction, RoundEvent, RoundJob, RoundStage, countries_to_ask,
    fetch_bing, resolutions_to_try, round_job, round_step,
};
use daily_wallpaper::sources::fetch::{FetchAction, FetchEvent};
use daily_wallpaper::sources::modis::{
    ModisJob, build_modis_url, fetch_modis_candidate, modis_step, parse_modis_html,
    resolve_modis_url,
};
use daily_wallpaper::sources::spotlight::{
    SpotlightJob, fetch_spotlight_candidates, read_feed, spotlight_step,
};
use daily_wallpaper::sources::{FetchResult, Source, SourceRegistry, SourceSettings};
use std::collections::BTreeMap;

/// What a server sends in the body of an answer, as the source reads it.
#[derive(Clone, Copy)]
enum Reads {
    Bytes,
    Text,
    Picture,
}

/// Files, indexes and a server.
struct World {
    files: BTreeMap<String, Vec<u8>>,
    indexes: BTreeMap<String, Vec<WallpaperCandidate>>,
    pages: BTreeMap<String, (u16, Vec<u8>)>,
    hits: BTreeMap<String, usize>,
    sizes: BTreeMap<String, (u32, u32)>,
    skips: Vec<(String, WallpaperSource, String)>,
    removed: Vec<String>,
    canceled: bool,
}

impl World {
    fn new() -> World {
        World {
            files: BTreeMap::new(),
            indexes: BTreeMap::new(),
            pages: BTreeMap::new(),
            hits: BTreeMap::new(),
            sizes: BTreeMap::new(),
            skips: Vec::new(),
            removed: Vec::new(),
            canceled: false,
        }
    }

    fn serve(&mut self, url: &str, status: u16, body: &[u8]) {
        self.pages.insert(url.to_string(), (status, body.to_vec()));
    }

    fn hits(&self, url: &str) -> usize {
        *self.hits.get(url).unwrap_or(&0)
    }

    fn ask(&mut self, url: &str) -> Result<(u16, Vec<u8>), SendError> {
        *self.hits.entry(url.to_string()).or_insert(0) += 1;
        match self.pages.get(url) {
            Some(page) => Ok(page.clone()),
            None => Err(SendError { timeout: true, text: "no such host".to_string() }),
        }
    }

    fn index(&self, date: &str) -> Option<CacheIndex> {
        self.indexes.get(date).map(|list| CacheIndex {
            date: date.to_string(),
            candidates: list.clone(),
        })
    }

    fn upsert(&mut self, date: &str, candidate: WallpaperCandidate) {
        let index = upsert_candidate(date, self.index(date), candidate);
        self.indexes.insert(date.to_string(), index.candidates);
    }

    fn download(&mut self, job: &Job, offline: bool) -> Result<DownloadedImage, WallpaperError> {
        let mut body: Vec<u8> = Vec::new();
        let mut piece: Vec<u8> = Vec::new();
        let (mut stage, mut action) = download_to_path(job, offline);
        loop {
            let event = match action {
                Action::Finish(result) => return result,
                Action::LookFor(path) => Event::Found(self.files.contains_key(&path)),
                Action::MakeDir(_) => Event::Outcome(Ok(())),
                Action::RemoveFiles(paths) => {
                    for path in paths {
                        self.files.remove(&path);
                        self.removed.push(path);
                    }
                    Event::Done
                }
                Action::Send(url) => Event::Answer(self.ask(&url).map(|(status, sent)| {
                    body = sent;
                    status
                })),
                Action::CreateFile(path) => {
                    self.files.insert(path, Vec::new());
                    Event::Outcome(Ok(()))
                }
                Action::AskCanceled => Event::Canceled(self.canceled),
                Action::ReadPiece => {
                    let n = std::cmp::min(4, body.len());
                    piece = body.drain(..n).collect();
                    Event::Piece(Ok(n))
                }
                Action::WritePiece => {
                    self.files.get_mut(&job.temp).unwrap().extend(&piece);
                    Event::Outcome(Ok(()))
                }
                Action::SyncFile => Event::Outcome(Ok(())),
                Action::ListDir(dir) => Event::Listing(Ok(self
                    .files
                    .keys()
                    .filter(|path| path.starts_with(&format!("{dir}/")))
                    .cloned()
                    .collect())),
                Action::RenameFile { from, to } => {
                    let bytes = self.files.remove(&from).unwrap();
                    self.files.insert(to, bytes);
                    Event::Outcome(Ok(()))
                }
                Action::MeasureImage(path) => Event::Size(self.sizes.get(&path).copied()),
                Action::WriteFile { path, bytes } => {
                    self.files.insert(path, bytes);
                    Event::Outcome(Ok(()))
                }
                Action::ReadFile(path) => Event::Contents(Ok(self.files.get(&path).cloned())),
            };
            let next = step(job, stage, event);
            stage = next.0;
            action = next.1;
        }
    }

    fn fetch<S>(
        &mut self,
        settings: &Settings,
        bing: &BingSettings,
        media_dir: &str,
        reads: Reads,
        first: (S, FetchAction),
        mut next: impl FnMut(S, FetchEvent) -> (S, FetchAction),
    ) -> Result<FetchResult, WallpaperError> {
        let mut sent: Vec<u8> = Vec::new();
        let (mut stage, mut action) = first;
        loop {
            let event = match action {
                FetchAction::Finish(result) => return result,
                FetchAction::ReadIndex(date) => FetchEvent::Index(Ok(self.index(&date))),
                FetchAction::LookFor(paths) => FetchEvent::Present(
                    paths.iter().map(|path| self.files.contains_key(path)).collect(),
                ),
                FetchAction::ReadFile(path) => {
                    FetchEvent::Contents(Ok(self.files.get(&path).cloned()))
                }
                FetchAction::WriteFile { path, text } => {
                    self.files.insert(path, text.into_bytes());
                    FetchEvent::Outcome(Ok(()))
                }
                FetchAction::MakeDir(_) => FetchEvent::Outcome(Ok(())),
                FetchAction::Upsert { date, candidate } => {
                    self.upsert(&date, candidate);
                    FetchEvent::Outcome(Ok(()))
                }
                FetchAction::WriteSkip { date, source, reason } => {
                    self.skips.push((date, source, reason));
                    FetchEvent::Done
                }
                FetchAction::Get(url) => FetchEvent::Answer(self.ask(&url).map(|(status, body)| {
                    sent = body;
                    status
                })),
                FetchAction::ReadBody => match reads {
                    Reads::Bytes => FetchEvent::Body(Ok(sent.clone())),
                    Reads::Text => FetchEvent::Text(Ok(String::from_utf8(sent.clone()).unwrap())),
                    Reads::Picture => FetchEvent::Picture(Ok(picture(&sent))),
                },
                FetchAction::DownloadImage { url_base, resolution, metadata } => {
                    let job = download_image(
                        &url_base, &resolution, bing, "en-US", settings, &metadata, media_dir, 1, 2,
                    );
                    FetchEvent::Downloaded(self.download(&job, false))
                }
                FetchAction::DownloadFile { url, target } => {
                    let job = plain_job(&url, &target, settings, 1, 2);
                    FetchEvent::Downloaded(self.download(&job, settings.offline))
                }
                FetchAction::Crop(_) => FetchEvent::Done,
            };
            let after = next(stage, event);
            stage = after.0;
            action = after.1;
        }
    }

    fn apod(
        &mut self,
        settings: &Settings,
        sources: SourceSettings,
        date: &str,
    ) -> Result<FetchResult, WallpaperError> {
        let media_dir = CacheManager::new("/pictures").media_dir(date, WallpaperSource::Apod);
        let job = ApodJob {
            date: date.to_string(),
            media_dir: media_dir.clone(),
            force: settings.force,
            offline: settings.offline,
            settings: sources.apod,
        };
        self.fetch(
            settings,
            &sources.bing,
            &media_dir,
            Reads::Picture,
            fetch_apod_candidate(&job),
            |at, event| apod_step(&job, at, event),
        )
    }

    fn spotlight(&mut self, settings: &Settings, url: &str) -> Result<FetchResult, WallpaperError> {
        let media_dir = CacheManager::new("/pictures")
            .media_dir("2024-02-01", WallpaperSource::Spotlight);
        let job = SpotlightJob {
            date: "2024-02-01".to_string(),
            media_dir: media_dir.clone(),
            url: url.to_string(),
            force: settings.force,
            offline: settings.offline,
        };
        self.fetch(
            settings,
            &source_settings().bing,
            &media_dir,
            Reads::Text,
            fetch_spotlight_candidates(&job),
            |at, event| spotlight_step(&job, at, event),
        )
    }

    fn modis(&mut self, settings: &Settings, date: &str) -> Result<FetchResult, WallpaperError> {
        let media_dir = CacheManager::new("/pictures").media_dir(date, WallpaperSource::Modis);
        let sources = source_settings();
        let job = ModisJob {
            date: date.to_string(),
            media_dir: media_dir.clone(),
            force: settings.force,
            offline: settings.offline,
            settings: sources.modis,
        };
        self.fetch(
            settings,
            &sources.bing,
            &media_dir,
            Reads::Text,
            fetch_modis_candidate(&job),
            |at, event| modis_step(&job, at, event),
        )
    }

    fn bing(
        &mut self,
        settings: &Settings,
        bing: &BingSettings,
        date: &str,
    ) -> Result<FetchResult, WallpaperError> {
        let media_dir = CacheManager::new("/pictures").media_dir(date, WallpaperSource::Bing);
        let job = BingJob {
            date: date.to_string(),
            country: "en-US".to_string(),
            resolutions: resolutions_to_try(bing),
            day: bing.day,
            media_dir: media_dir.clone(),
            force: settings.force,
            offline: settings.offline,
            refresh_metadata: settings.refresh_metadata,
        };
        self.fetch(
            settings,
            bing,
            &media_dir,
            Reads::Bytes,
            fetch_bing_candidate(&job),
            |at, event| bing_step(&job, at, event),
        )
    }
}

fn picture(json: &[u8]) -> ApodResponse {
    let value: serde_json::Value = serde_json::from_slice(json).unwrap();
    let text = |key: &str| value.get(key).and_then(|v| v.as_str()).map(|s| s.to_string());
    ApodResponse {
        url: text("url").unwrap(),
        hdurl: text("hdurl"),
        media_type: text("media_type").unwrap(),
        title: text("title"),
        explanation: text("explanation"),
        copyright: text("copyright"),
    }
}

fn make_settings(force: bool) -> Settings {
    Settings {
        proto: "http".to_string(),
        picture_dir: "/pictures".to_string(),
        favorites_dir: "/pictures/favorites".to_string(),
        auto_update_name: "default".to_string(),
        monitor: 0,
        force,
        offline: false,
        verbose: false,
        quiet: true,
        experimental: false,
        filename: None,
        source: WallpaperSource::Bing,
        prune_cache_days: None,
        info_wrap_width: 88,
        info_plain_text: false,
        refresh_metadata: true,
        min_resolution: None,
        log_file: None,
        log_file_max_bytes: 5120 * 1024,
        disabled_sources: SourceSet::new(),
        date_override: None,
    }
}

fn source_settings() -> SourceSettings {
    SourceSettings::from_config(None, None).unwrap()
}

fn apod_settings(url: &str) -> SourceSettings {
    let mut sources = source_settings();
    sources.apod.api_key = "TEST".to_string();
    sources.apod.url_override = Some(url.to_string());
    sources.apod.crop = false;
    sources
}

fn candidate(id: &str, source: WallpaperSource, path: &str, date: &str) -> WallpaperCandidate {
    WallpaperCandidate {
        id: id.to_string(),
        source,
        title: None,
        description: None,
        attribution: None,
        info_url: None,
        image_url: "http://example".to_string(),
        local_path: path.to_string(),
        date: date.to_string(),
        metadata_xml: None,
        checksum: None,
    }
}

// ------------------------------------------------------------------------------------------
// Bing
// ------------------------------------------------------------------------------------------

#[test]
fn sanitize_filename_behaves_like_python() {
    assert_eq!(sanitize_filename(""), "wallpaper.jpg");
    assert_eq!(sanitize_filename("custom"), "custom.jpg");
    assert_eq!(sanitize_filename("dir/../name.png"), "name.png");
}

#[test]
fn build_archive_url_includes_country() {
    let url = build_archive_url(1, Some("en-US"));
    assert!(url.contains("idx=1"));
    assert!(url.contains("mkt=en-US"));
}

#[test]
fn archive_url_is_exact() {
    assert_eq!(
        build_archive_url(0, None),
        "https://www.bing.com/HPImageArchive.aspx?format=xml&idx=0&n=1"
    );
    assert_eq!(
        build_archive_url(-2, Some("zh CN&x")),
        "https://www.bing.com/HPImageArchive.aspx?format=xml&idx=-2&n=1&mkt=zh+CN%26x"
    );
}

fn bing_job(force: bool, metadata: &[u8]) -> (Job, String) {
    let mut settings = make_settings(force);
    settings.proto = "http".to_string();
    let mut sources = source_settings();
    sources.bing.host = "bing.test".to_string();
    let dir = CacheManager::new("/pictures").media_dir("2024-01-01", WallpaperSource::Bing);
    let job = download_image(
        "/th?id=test",
        "1920x1080",
        &sources.bing,
        "en-US",
        &settings,
        &metadata.to_vec(),
        &dir,
        7,
        9,
    );
    (job, dir)
}

#[test]
fn download_image_skips_existing_without_force() {
    let mut world = World::new();
    let (job, dir) = bing_job(false, b"<xml />");
    let target = format!("{dir}/default-test_1920x1080.jpg");
    world.files.insert(target.clone(), b"existing".to_vec());
    world.serve(&job.url, 200, b"image-bytes");

    let downloaded = world.download(&job, false).unwrap();
    assert!(downloaded.skipped);
    assert_eq!(downloaded.path, target);
    assert_eq!(world.hits(&job.url), 0);
}

#[test]
fn download_image_success_replaces_old_after_complete() {
    let mut world = World::new();
    let (job, dir) = bing_job(false, b"<xml>meta</xml>");
    let old_wallpaper = format!("{dir}/default-old.jpg");
    world.files.insert(old_wallpaper.clone(), b"old".to_vec());
    world.serve(&job.url, 200, b"image-bytes");

    let downloaded = world.download(&job, false).unwrap();
    assert!(!downloaded.skipped);
    assert!(world.files.contains_key(&downloaded.path));
    assert_eq!(world.files[&downloaded.path], b"image-bytes");
    assert!(!world.files.contains_key(&old_wallpaper));
    assert_eq!(world.files[&format!("{dir}/info.xml")], b"<xml>meta</xml>");
    assert_eq!(world.hits(&job.url), 1);
    assert_eq!(downloaded.checksum, Some(compute_checksum(&b"image-bytes".to_vec())));
}

#[test]
fn download_image_http_error_cleans_temp() {
    let mut world = World::new();
    let (job, dir) = bing_job(false, b"meta");
    let target = format!("{dir}/default-test_1920x1080.jpg");
    world.serve(&job.url, 404, b"");

    let err = world.download(&job, false).unwrap_err();
    assert!(matches!(err, WallpaperError::DownloadStatus { .. }));
    assert!(!world.files.contains_key(&target));
    let temps: Vec<&String> = world.files.keys().filter(|path| path.contains(".tmp.")).collect();
    assert!(temps.is_empty(), "Temporary files must be cleaned up");
    assert_eq!(world.hits(&job.url), 1);
    assert_eq!(err.message(), "Failed to download wallpaper at 1920x1080: HTTP 404");
}

#[test]
fn download_image_names_its_files() {
    let (job, dir) = bing_job(false, b"meta");
    assert_eq!(job.url, "http://bing.test/th?id=test_1920x1080.jpg");
    assert_eq!(job.target, format!("{dir}/default-test_1920x1080.jpg"));
    assert_eq!(job.temp, format!("{dir}/default-test_1920x1080.jpg.tmp.7.9"));
    assert_eq!(dir, "/pictures/cache/2024-01-01/bing");
}

#[test]
fn canceled_download_leaves_nothing() {
    let mut world = World::new();
    let job = plain_job("http://x/y.jpg", "/d/y.jpg", &make_settings(false), 1, 2);
    world.serve(&job.url, 200, b"image-bytes");
    world.canceled = true;
    let err = world.download(&job, false).unwrap_err();
    assert!(matches!(err, WallpaperError::Canceled));
    assert!(world.files.is_empty());
}

#[test]
fn bing_download_goes_on_when_the_user_cancels() {
    let mut world = World::new();
    let (job, _) = bing_job(false, b"meta");
    world.serve(&job.url, 200, b"image-bytes");
    world.canceled = true;
    let downloaded = world.download(&job, false).unwrap();
    assert!(!downloaded.skipped);
    assert_eq!(world.files[&downloaded.path], b"image-bytes");
    let (stage, action) = step(&job, Stage::Create, Event::Outcome(Ok(())));
    assert!(matches!(stage, Stage::Read));
    assert!(matches!(action, Action::ReadPiece));
    let (stage, action) = step(&job, Stage::Write, Event::Outcome(Ok(())));
    assert!(matches!(stage, Stage::Read));
    assert!(matches!(action, Action::ReadPiece));
}

#[test]
fn small_image_is_refused_and_removed() {
    let mut world = World::new();
    let (mut job, _) = bing_job(false, b"meta");
    job.min_resolution = Some((1920, 1080));
    world.serve(&job.url, 200, b"image-bytes");
    world.sizes.insert(job.target.clone(), (800, 600));
    let err = world.download(&job, false).unwrap_err();
    assert!(matches!(
        err,
        WallpaperError::MinResolution { width: 800, height: 600, min_width: 1920, min_height: 1080 }
    ));
    assert!(!world.files.contains_key(&job.target));
}

#[test]
fn image_without_dimensions_is_refused() {
    assert_eq!(
        enforce_min_resolution(Some((10, 10)), None, "/a.jpg").unwrap_err().message(),
        "Unable to read image dimensions for /a.jpg."
    );
    assert!(enforce_min_resolution(Some((10, 10)), Some((10, 10)), "/a.jpg").is_ok());
    assert!(enforce_min_resolution(None, None, "/a.jpg").is_ok());
}

#[test]
fn refused_images_are_told() {
    assert_eq!(
        refusal_note(Some((10, 10)), &Ok((9, 10)), "/a.jpg").unwrap(),
        "Downloaded image 9x10 below minimum 10x10; skipping."
    );
    assert_eq!(
        refusal_note(Some((10, 10)), &Err("no image".to_string()), "/a.jpg").unwrap(),
        "Could not read image dimensions for /a.jpg: no image"
    );
    assert_eq!(refusal_note(Some((10, 10)), &Ok((10, 10)), "/a.jpg"), None);
    assert_eq!(refusal_note(None, &Ok((1, 1)), "/a.jpg"), None);
}

#[test]
fn transfer_that_cannot_be_written_is_a_failed_download() {
    let full = || Event::Outcome(Err(WallpaperError::Io("disk full".to_string())));
    let (job, _) = bing_job(false, b"meta");
    match step(&job, Stage::Write, full()).0 {
        Stage::Fail(WallpaperError::Download { source, .. }) => assert_eq!(source, "disk full"),
        _ => panic!("the download fails"),
    }
    let job = plain_job("http://x/y.jpg", "/d/y.jpg", &make_settings(false), 1, 2);
    match step(&job, Stage::Write, full()).0 {
        Stage::Fail(WallpaperError::Io(text)) => assert_eq!(text, "disk full"),
        _ => panic!("the download fails"),
    }
}

#[test]
fn only_images_of_the_schedule_give_way() {
    assert!(is_replaced("/d/default-old.jpg", "/d/default-new.jpg", "default"));
    assert!(!is_replaced("/d/default-new.jpg", "/d/default-new.jpg", "default"));
    assert!(!is_replaced("/d/work-old.jpg", "/d/default-new.jpg", "default"));
    assert!(!is_replaced("/d/default-old.png", "/d/default-new.jpg", "default"));
}

#[test]
fn unanswered_request_is_told() {
    let mut world = World::new();
    let (job, _) = bing_job(false, b"meta");
    assert!(matches!(
        world.download(&job, false).unwrap_err(),
        WallpaperError::Download { .. }
    ));
}

#[test]
fn offline_download_fails_at_once() {
    let mut world = World::new();
    let job = plain_job("http://x/y.jpg", "/d/y.jpg", &make_settings(false), 1, 2);
    assert!(matches!(job.style, Style::Plain));
    let err = world.download(&job, true).unwrap_err();
    assert_eq!(err.message(), "Offline mode is enabled; downloads are disabled.");
    assert_eq!(world.hits("http://x/y.jpg"), 0);
    assert!(matches!(download_to_path(&job, true).0, Stage::Over));
}

const BING_XML: &str = "<?xml version=\"1.0\" encoding=\"utf-8\" ?><images><image><startdate>20251222</startdate><fullstartdate>202512220800</fullstartdate><enddate>20251223</enddate><url>/th?id=OHR.NutcrackerAnkara_EN-US5537620581_1920x1080.jpg&amp;rf=LaDigue_1920x1080.jpg&amp;pid=hp</url><urlBase>/th?id=OHR.NutcrackerAnkara_EN-US5537620581</urlBase><copyright>Nutcrackers in Ankara (c) Someone</copyright><copyrightlink>https://www.bing.com/search?q=nutcracker</copyrightlink><headline>Nutcrackers</headline></image></images>";

#[test]
fn candidate_dedupe_key_uses_url_base_from_metadata() {
    let mut c = candidate(
        "bing-2025-12-22-en-US-1920x1080",
        WallpaperSource::Bing,
        "dummy.jpg",
        "2025-12-22",
    );
    c.image_url =
        "https://www.bing.com/th?id=OHR.NutcrackerAnkara_EN-US5537620581_1920x1080.jpg".to_string();
    c.metadata_xml = Some(BING_XML.to_string());
    assert_eq!(candidate_dedupe_key(&c), "/th?id=OHR.NutcrackerAnkara_EN-US5537620581");
}

#[test]
fn candidate_dedupe_key_prefers_checksum_when_file_exists() {
    let checksum = compute_checksum(&b"same-image".to_vec());
    let mut c = candidate(
        "bing-2025-12-22-es-1920x1080",
        WallpaperSource::Bing,
        "/tmp/wallpaper.jpg",
        "2025-12-22",
    );
    c.image_url = "https://www.bing.com/th?id=OHR.DifferentId_1920x1080.jpg".to_string();
    c.checksum = Some(checksum.clone());
    assert_eq!(candidate_dedupe_key(&c), checksum);
}

#[test]
fn checksum_is_sha256_in_hex() {
    assert_eq!(
        compute_checksum(&b"abc".to_vec()),
        "ba7816bf8f01cfea414140de5dae2223b00361a396177a9cb410ff61f20015ad"
    );
}

#[test]
fn metadata_gives_its_day() {
    assert_eq!(
        metadata_date_label(&BING_XML.as_bytes().to_vec()).unwrap(),
        Some("2025-12-22".to_string())
    );
    assert!(matches!(
        metadata_date_label(&b"no xml".to_vec()).unwrap_err(),
        WallpaperError::MetadataParse
    ));
    assert!(matches!(
        metadata_date_label(&vec![0xff, 0xfe]).unwrap_err(),
        WallpaperError::MetadataParse
    ));
}

#[test]
fn metadata_is_read_from_its_elements() {
    let body = BING_XML.as_bytes().to_vec();
    let metadata = parse_bing_metadata(&body).unwrap();
    assert_eq!(metadata.headline.as_deref(), Some("Nutcrackers"));
    assert_eq!(metadata.copyright.as_deref(), Some("Nutcrackers in Ankara (c) Someone"));
    assert_eq!(
        metadata.copyright_link.as_deref(),
        Some("https://www.bing.com/search?q=nutcracker")
    );
    assert_eq!(parse_xml_text(&body, "enddate").unwrap().as_deref(), Some("20251223"));
    assert_eq!(parse_xml_text(&body, "hsh").unwrap(), None);
    assert!(matches!(
        parse_bing_metadata(&b"<images>".to_vec()).unwrap_err(),
        WallpaperError::MetadataParse
    ));
    assert!(matches!(
        parse_xml_text(&b"<images>".to_vec(), "hsh").unwrap_err(),
        WallpaperError::MetadataParse
    ));
}

#[test]
fn page_without_image_is_refused() {
    let body = b"<images><image><startdate>20251222</startdate></image></images>".to_vec();
    assert!(matches!(read_page(body), Err(WallpaperError::MissingImageUrl)));
    let page = read_page(BING_XML.as_bytes().to_vec()).unwrap();
    assert_eq!(page.url_base, "/th?id=OHR.NutcrackerAnkara_EN-US5537620581");
    assert_eq!(page.date, Some("2025-12-22".to_string()));
}

#[test]
fn ensure_info_file_restores_missing_info() {
    let media_dir = CacheManager::new("/pictures").media_dir("2024-01-02", WallpaperSource::Bing);
    let mut c = candidate(
        "bing-2024-01-02-uhd",
        WallpaperSource::Bing,
        &format!("{media_dir}/wallpaper2.jpg"),
        "2024-01-02",
    );
    c.metadata_xml = Some("<xml>info</xml>".to_string());

    let (path, contents) = ensure_info_file(&c, false).unwrap();
    assert_eq!(path, format!("{media_dir}/info.xml"));
    assert!(contents.contains("info"));
    assert!(ensure_info_file(&c, true).is_none());
    c.metadata_xml = None;
    assert!(ensure_info_file(&c, false).is_none());
}

fn bing_world() -> (World, BingSettings, String, String) {
    let mut world = World::new();
    let mut bing = source_settings().bing;
    bing.host = "bing.test".to_string();
    bing.resolutions = vec!["UHD".to_string(), "1920x1080".to_string()];
    let archive = build_archive_url(0, Some("en-US"));
    let uhd = "http://bing.test/th?id=OHR.NutcrackerAnkara_EN-US5537620581_UHD.jpg".to_string();
    world.serve(&archive, 200, BING_XML.as_bytes());
    (world, bing, archive, uhd)
}

#[test]
fn bing_downloads_and_reuses_cache() {
    let (mut world, bing, archive, uhd) = bing_world();
    world.serve(&uhd, 200, b"uhd-bytes");
    let settings = make_settings(false);

    let found = world.bing(&settings, &bing, "2025-12-22").unwrap();
    assert_eq!(found.candidates.len(), 1);
    let c = &found.candidates[0];
    assert_eq!(c.id, "bing-2025-12-22-en-US-UHD");
    assert_eq!(c.date, "2025-12-22");
    assert_eq!(c.checksum, Some(compute_checksum(&b"uhd-bytes".to_vec())));
    assert!(!found.skipped_download);
    assert_eq!((world.hits(&archive), world.hits(&uhd)), (1, 1));

    let again = world.bing(&settings, &bing, "2025-12-22").unwrap();
    assert!(again.skipped_download);
    assert_eq!(world.hits(&uhd), 1);
}

#[test]
fn bing_tries_resolutions_in_order() {
    let (mut world, bing, _, uhd) = bing_world();
    let full = "http://bing.test/th?id=OHR.NutcrackerAnkara_EN-US5537620581_1920x1080.jpg";
    world.serve(&uhd, 404, b"");
    world.serve(full, 200, b"full-bytes");
    let found = world.bing(&make_settings(false), &bing, "2025-12-22").unwrap();
    assert_eq!(found.candidates[0].id, "bing-2025-12-22-en-US-1920x1080");
    assert_eq!((world.hits(&uhd), world.hits(full)), (1, 1));
}

#[test]
fn bing_offline_errors_without_cache() {
    let (mut world, bing, archive, uhd) = bing_world();
    let mut settings = make_settings(true);
    settings.offline = true;
    let err = world.bing(&settings, &bing, "2025-12-22").unwrap_err();
    assert_eq!(
        err.message(),
        "Offline mode enabled; no cached Bing wallpaper for 2025-12-22 (en-US)."
    );
    assert_eq!((world.hits(&archive), world.hits(&uhd)), (0, 0));
}

#[test]
fn round_keeps_different_wallpapers() {
    let mut round = BingRound::new();
    let one = candidate("a", WallpaperSource::Bing, "/a.jpg", "2025-12-22");
    let mut same = candidate("b", WallpaperSource::Bing, "/b.jpg", "2025-12-22");
    same.image_url = one.image_url.clone();
    let mut other = candidate("c", WallpaperSource::Bing, "/c.jpg", "2025-12-22");
    other.image_url = "http://other".to_string();
    round.add_outcome(Ok(FetchedCandidate { candidate: one, skipped_download: true }));
    round.add_outcome(Ok(FetchedCandidate { candidate: same, skipped_download: true }));
    round.add_outcome(Ok(FetchedCandidate { candidate: other, skipped_download: false }));
    round.add_outcome(Err(WallpaperError::MetadataParse));
    let found = round.finish().unwrap();
    let ids: Vec<&str> = found.candidates.iter().map(|c| c.id.as_str()).collect();
    assert_eq!(ids, vec!["a", "c"]);
    assert!(!found.skipped_download);
}

#[test]
fn empty_round_tells_the_last_error() {
    assert_eq!(BingRound::new().finish().unwrap_err().message(), "No Bing candidates found.");
    let mut round = BingRound::new();
    round.add_outcome(Err(WallpaperError::MetadataParse));
    round.add_outcome(Err(WallpaperError::MissingImageUrl));
    assert!(matches!(round.finish().unwrap_err(), WallpaperError::MissingImageUrl));
}

fn job_of_round(force: bool) -> RoundJob {
    let mut bing = source_settings().bing;
    bing.countries = vec!["en-US".to_string(), "de-DE".to_string(), "ja-JP".to_string()];
    bing.resolutions = vec!["UHD".to_string()];
    round_job("2025-12-22", "/media", &bing, &make_settings(force))
}

#[test]
fn noted_day_is_skipped_unless_forced() {
    let job = job_of_round(false);
    let (stage, action) = fetch_bing(&job);
    assert!(matches!(action, RoundAction::ReadSkip));
    let skip = SourceSkip { reason: "none".to_string(), created_at: 1 };
    match round_step(&job, stage, RoundEvent::Skip(Ok(Some(skip)))).1 {
        RoundAction::Finish(Err(err)) => {
            assert_eq!(err.message(), "Bing skipped for 2025-12-22.");
        }
        _ => panic!("the day is noted"),
    }
    match round_step(&job, RoundStage::Skip, RoundEvent::Skip(Err(WallpaperError::MetadataParse))).1
    {
        RoundAction::Finish(Err(WallpaperError::MetadataParse)) => {}
        _ => panic!("the note cannot be read"),
    }
    match fetch_bing(&job_of_round(true)).1 {
        RoundAction::FetchCountry(first) => assert_eq!(first.country, "en-US"),
        _ => panic!("a forced round asks at once"),
    }
}

#[test]
fn round_asks_every_country_in_turn() {
    let job = job_of_round(false);
    let (stage, _) = fetch_bing(&job);
    let (mut stage, mut action) = round_step(&job, stage, RoundEvent::Skip(Ok(None)));
    let mut asked: Vec<String> = Vec::new();
    let found = loop {
        match action {
            RoundAction::FetchCountry(country) => {
                assert_eq!(country.date, "2025-12-22");
                assert_eq!(country.media_dir, "/media");
                assert_eq!(country.resolutions, vec!["UHD"]);
                let fetched = if country.country == "de-DE" {
                    Err(WallpaperError::MetadataParse)
                } else {
                    let mut candidate =
                        candidate(&country.country, WallpaperSource::Bing, "/a.jpg", "2025-12-22");
                    candidate.image_url = format!("http://{}", country.country);
                    Ok(FetchedCandidate { candidate, skipped_download: true })
                };
                asked.push(country.country);
                let next = round_step(&job, stage, RoundEvent::Fetched(fetched));
                stage = next.0;
                action = next.1;
            }
            RoundAction::Finish(result) => break result.unwrap(),
            RoundAction::ReadSkip => panic!("the note is read once"),
        }
    };
    assert_eq!(asked, vec!["en-US", "de-DE", "ja-JP"]);
    let ids: Vec<&str> = found.candidates.iter().map(|c| c.id.as_str()).collect();
    assert_eq!(ids, vec!["en-US", "ja-JP"]);
    assert!(found.skipped_download);
}

#[test]
fn missing_resolution_is_not_told() {
    let missing = WallpaperError::DownloadStatus { resolution: "UHD".to_string(), status: 404 };
    assert_eq!(resolution_note("UHD", &missing), None);
    assert_eq!(
        resolution_note("UHD", &WallpaperError::Canceled).as_deref(),
        Some("Resolution UHD failed: Canceled by user")
    );
}

#[test]
fn defaults_are_asked_where_nothing_is_set() {
    let mut bing = source_settings().bing;
    bing.countries = Vec::new();
    bing.resolutions = Vec::new();
    assert_eq!(countries_to_ask(&bing), vec!["en-US"]);
    assert!(!resolutions_to_try(&bing).is_empty());
}

// ------------------------------------------------------------------------------------------
// Spotlight
// ------------------------------------------------------------------------------------------

const FEED_URL: &str = "http://server/spotlight";

fn spotlight_feed() -> String {
    let raw_payload = "{\"ad\":{\"title\":\"One\",\"description\":\"D1\",\"copyright\":\"C1\",\"ctaUri\":\"https://example.com/1\",\"landscapeImage\":{\"asset\":\"http://server/img1.jpg\"}, \"entityId\":\"raw1\"}}";
    let raw_payload_string = serde_json::to_string(raw_payload).unwrap();
    format!(
        "{{ \"batchrsp\": {{ \"items\": [ {{ \"item\": {raw_payload_string} }}, {{ \"item\": {{ \"ad\": {{ \"title\": \"Two\", \"landscapeImage\": {{ \"asset\": \"http://server/img2.jpg\" }}, \"entityId\": \"id2\" }} }} }}, {{ \"item\": {{ \"ad\": {{ \"title\": \"Three\", \"landscapeImage\": {{ \"asset\": \"http://server/img3.jpg\" }}, \"entityId\": \"id3\" }} }} }} ] }} }}"
    )
}

#[test]
fn spotlight_downloads_and_reuses_cache() {
    let mut world = World::new();
    world.serve(FEED_URL, 200, spotlight_feed().as_bytes());
    world.serve("http://server/img1.jpg", 200, b"img1");
    world.serve("http://server/img2.jpg", 200, b"img2");
    world.serve("http://server/img3.jpg", 200, b"img3");
    let mut settings = make_settings(false);
    settings.source = WallpaperSource::Spotlight;
    let mut sources = source_settings();
    sources.spotlight.index = 2;
    let registry = SourceRegistry::new();
    let source = registry.get(WallpaperSource::Spotlight).unwrap();

    let found = world.spotlight(&settings, FEED_URL).unwrap();
    assert_eq!(world.hits(FEED_URL), 1);
    assert_eq!(world.hits("http://server/img1.jpg"), 1);
    assert_eq!(world.hits("http://server/img2.jpg"), 1);
    assert_eq!(world.hits("http://server/img3.jpg"), 1);
    let picked = source.pick_default(&found.candidates, &sources).unwrap();
    assert_eq!(picked.title, Some("Two".to_string()));

    // A second run reuses the cache and leaves the network alone.
    let again = world.spotlight(&settings, FEED_URL).unwrap();
    assert_eq!(world.hits(FEED_URL), 1);
    assert_eq!(world.hits("http://server/img1.jpg"), 1);
    assert_eq!(world.hits("http://server/img2.jpg"), 1);
    assert_eq!(world.hits("http://server/img3.jpg"), 1);
    assert_eq!(again.candidates.len(), 3);
}

#[test]
fn spotlight_reads_embedded_payloads() {
    let ads = read_feed(&spotlight_feed());
    assert_eq!(ads.len(), 3);
    assert_eq!(ads[0].title, Some("One".to_string()));
    assert_eq!(ads[0].description, Some("D1".to_string()));
    assert_eq!(ads[0].copyright, Some("C1".to_string()));
    assert_eq!(ads[0].link, Some("https://example.com/1".to_string()));
    assert_eq!(ads[0].image, "http://server/img1.jpg");
    assert_eq!(ads[2].image, "http://server/img3.jpg");
    assert!(read_feed("not json").is_empty());
}

#[test]
fn spotlight_offline_errors_without_cache() {
    let mut world = World::new();
    let mut settings = make_settings(false);
    settings.offline = true;
    let err = world.spotlight(&settings, FEED_URL).unwrap_err();
    assert!(err.message().contains("Offline mode enabled"));
    assert_eq!(world.hits(FEED_URL), 0);
}

#[test]
fn spotlight_position_out_of_range_is_refused() {
    let mut sources = source_settings();
    sources.spotlight.index = 2;
    let registry = SourceRegistry::new();
    let source = registry.get(WallpaperSource::Spotlight).unwrap();
    let list = vec![candidate("a", WallpaperSource::Spotlight, "/a.jpg", "2024-02-01")];
    assert!(source.pick_default(&list, &sources).is_err());
    sources.spotlight.index = 0;
    assert_eq!(source.pick_default(&list, &sources).unwrap().id, "a");
}

// ------------------------------------------------------------------------------------------
// The picture of the day
// ------------------------------------------------------------------------------------------

const APOD_URL: &str = "http://server/apod";
const IMAGE_URL: &str = "http://server/image.jpg";

fn apod_query(date: &str) -> String {
    format!("{APOD_URL}?api_key=TEST&date={date}")
}

fn apod_image(title: &str) -> String {
    format!(
        "{{\"url\":\"{IMAGE_URL}\",\"media_type\":\"image\",\"title\":\"{title}\",\"explanation\":\"desc\"}}"
    )
}

#[test]
fn apod_downloads_and_uses_cache() {
    let mut world = World::new();
    world.serve(&apod_query("2024-01-01"), 200, apod_image("Nebula").as_bytes());
    world.serve(IMAGE_URL, 200, b"img-bytes");
    let mut settings = make_settings(false);
    settings.source = WallpaperSource::Apod;

    world.apod(&settings, apod_settings(APOD_URL), "2024-01-01").unwrap();
    assert_eq!(world.hits(&apod_query("2024-01-01")), 1);
    assert_eq!(world.hits(IMAGE_URL), 1);

    let again = world.apod(&settings, apod_settings(APOD_URL), "2024-01-01").unwrap();
    assert_eq!(again.candidates[0].id, "apod-2024-01-01");
    assert_eq!(world.hits(&apod_query("2024-01-01")), 1);
    assert_eq!(world.hits(IMAGE_URL), 1);
}

#[test]
fn apod_offline_reuses_cache_without_network() {
    let mut world = World::new();
    world.serve(&apod_query("2024-01-03"), 200, apod_image("Nebula 2").as_bytes());
    world.serve(IMAGE_URL, 200, b"img-bytes-2");
    let mut settings = make_settings(false);
    settings.source = WallpaperSource::Apod;

    world.apod(&settings, apod_settings(APOD_URL), "2024-01-03").unwrap();
    assert_eq!(world.hits(&apod_query("2024-01-03")), 1);
    assert_eq!(world.hits(IMAGE_URL), 1);

    settings.offline = true;
    settings.force = true;
    world.apod(&settings, apod_settings(APOD_URL), "2024-01-03").unwrap();
    assert_eq!(
        world.hits(&apod_query("2024-01-03")),
        1,
        "metadata fetch must be skipped offline"
    );
    assert_eq!(world.hits(IMAGE_URL), 1, "image download must be skipped offline");
}

#[test]
fn apod_offline_errors_without_cache() {
    let mut world = World::new();
    world.serve(&apod_query("2024-01-04"), 200, apod_image("Nebula 3").as_bytes());
    world.serve(IMAGE_URL, 200, b"img-bytes-3");
    let mut settings = make_settings(true);
    settings.source = WallpaperSource::Apod;
    settings.offline = true;

    let err = world.apod(&settings, apod_settings(APOD_URL), "2024-01-04").unwrap_err();
    assert!(err.message().contains("Offline mode enabled"));
    assert_eq!(world.hits(&apod_query("2024-01-04")), 0);
    assert_eq!(world.hits(IMAGE_URL), 0);
}

#[test]
fn apod_falls_back_one_year_on_video() {
    let mut world = World::new();
    world.serve(
        &apod_query("2024-01-02"),
        200,
        b"{\"url\":\"https://example.com/video.mp4\",\"media_type\":\"video\",\"title\":\"vid\"}",
    );
    world.serve(&apod_query("2023-01-02"), 200, apod_image("nebula").as_bytes());
    world.serve(IMAGE_URL, 200, b"img-bytes");
    let settings = make_settings(false);

    let found = world.apod(&settings, apod_settings(APOD_URL), "2024-01-02").unwrap();
    assert_eq!(found.candidates[0].date, "2023-01-02");
    assert_eq!(world.hits(&apod_query("2024-01-02")), 1);
    assert_eq!(world.hits(&apod_query("2023-01-02")), 1);
    assert_eq!(world.hits(IMAGE_URL), 1);

    let again = world.apod(&settings, apod_settings(APOD_URL), "2024-01-02").unwrap();
    assert_eq!(again.candidates[0].date, "2023-01-02");
    assert_eq!(world.hits(&apod_query("2024-01-02")), 1);
    assert_eq!(world.hits(&apod_query("2023-01-02")), 1);
    assert_eq!(world.hits(IMAGE_URL), 1);
}

#[test]
fn apod_errors_on_video() {
    let mut world = World::new();
    world.serve(
        &apod_query("2024-01-02"),
        200,
        b"{\"url\":\"https://example.com/video.mp4\",\"media_type\":\"video\",\"title\":\"vid\"}",
    );
    world.serve(
        &apod_query("2023-01-02"),
        200,
        b"{\"url\":\"https://example.com/video2.mp4\",\"media_type\":\"video\",\"title\":\"vid2\"}",
    );
    let settings = make_settings(false);

    let err = world.apod(&settings, apod_settings(APOD_URL), "2024-01-02").unwrap_err();
    assert!(err.message().contains("not an image"));
    assert_eq!(world.hits(&apod_query("2024-01-02")), 1);
    assert_eq!(world.hits(&apod_query("2023-01-02")), 1);

    let err = world.apod(&settings, apod_settings(APOD_URL), "2024-01-02").unwrap_err();
    assert!(err.message().contains("not an image"));
    assert_eq!(world.hits(&apod_query("2024-01-02")), 1);
    assert_eq!(world.hits(&apod_query("2023-01-02")), 1);
}

#[test]
fn apod_url_is_exact() {
    assert_eq!(
        build_apod_url(&apod_settings(APOD_URL).apod, "2024-01-01"),
        "http://server/apod?api_key=TEST&date=2024-01-01"
    );
    assert_eq!(
        build_apod_url(&source_settings().apod, "2024-01-01"),
        "https://api.nasa.gov/planetary/apod?api_key=DEMO_KEY&date=2024-01-01"
    );
}

#[test]
fn crop_is_centred() {
    let plan = plan_crop((1000, 500), (4, 4), true, 500);
    assert_eq!(plan.width, 500);
    assert_eq!(plan.height, 500);
    assert_eq!(plan.x, 250);
    assert_eq!(plan.y, 0);
}

#[test]
fn display_size_is_read_from_the_profile() {
    let json = "{\"SPDisplaysDataType\":[{\"spdisplays_ndrvs\":[{\"spdisplays_resolution\":\"2560 x 1440, 60 Hz\"}]}]}";
    assert_eq!(primary_display_size(json), Some((2560, 1440)));
    assert_eq!(primary_display_size("{}"), None);
    assert_eq!(primary_display_size("no json"), None);
}

// ------------------------------------------------------------------------------------------
// MODIS
// ------------------------------------------------------------------------------------------

const MODIS_HTML: &str = "<html><body><div class=\"option\"><h5><b>December 19, 2025 - Late Spring Bloom in the Great Australian Bight</b></h5><p>The Great Australian Bight is an embayment of the Indian Ocean along the southern coast of Australia. The expansive stretch of water has a depth ranging from just 15 meters (49 feet) to\n6,000 meters (19,685 feet) and provides habitat for a wide range of species, including commercially important fish species such as the Australian Sardine and Southern Bluefin Tuna. Several endangered marine species also use the Bight as a home or breeding grounds, such as the Blue Whale, the Southern Right Whale, and the Australian Sea Lion.</p><p>Image Facts<br>Satellite: Aqua<br>Date Acquired: 12/9/2025</p><p><b>Image Credit:</b> MODIS Land Rapid Response Team, NASA GSFC</p><a href=\"http://modis.gsfc.nasa.gov/gallery/images/image12192025_500m.jpg\">500m</a></div></body></html>";

#[test]
fn parse_modis_html_extracts_fields() {
    let parsed = parse_modis_html(MODIS_HTML).unwrap();
    assert_eq!(parsed.title, "Late Spring Bloom in the Great Australian Bight");
    assert_eq!(
        parsed.description,
        "The Great Australian Bight is an embayment of the Indian Ocean along the southern coast of Australia. The expansive stretch of water has a depth ranging from just 15 meters (49 feet) to 6,000 meters (19,685 feet) and provides habitat for a wide range of species, including commercially important fish species such as the Australian Sardine and Southern Bluefin Tuna. Several endangered marine species also use the Bight as a home or breeding grounds, such as the Blue Whale, the Southern Right Whale, and the Australian Sea Lion."
    );
    assert_eq!(
        parsed.image_url,
        "http://modis.gsfc.nasa.gov/gallery/images/image12192025_500m.jpg"
    );
    assert_eq!(parsed.credit, Some("MODIS Land Rapid Response Team, NASA GSFC".to_string()));
}

#[test]
fn modis_downloads_and_reuses_cache() {
    let mut world = World::new();
    let page = build_modis_url(&source_settings().modis, "2025-12-19");
    let image = "http://modis.gsfc.nasa.gov/gallery/images/image12192025_500m.jpg";
    world.serve(&page, 200, MODIS_HTML.as_bytes());
    world.serve(image, 200, b"img");
    let settings = make_settings(false);
    let found = world.modis(&settings, "2025-12-19").unwrap();
    assert_eq!(found.candidates[0].image_url, image);
    let again = world.modis(&settings, "2025-12-19").unwrap();
    assert_eq!(again.candidates[0].id, "modis-2025-12-19");
    assert_eq!((world.hits(&page), world.hits(image)), (1, 1));
}

#[test]
fn modis_url_is_exact() {
    assert_eq!(
        build_modis_url(&source_settings().modis, "2025-12-19"),
        "https://modis.gsfc.nasa.gov/gallery/individual.php?db_date=2025-12-19"
    );
}

#[test]
fn modis_links_are_resolved() {
    assert_eq!(
        resolve_modis_url("images/image12192025_500m.jpg").unwrap(),
        "https://modis.gsfc.nasa.gov/gallery/images/image12192025_500m.jpg"
    );
    assert_eq!(resolve_modis_url("http://x/y.jpg").unwrap(), "http://x/y.jpg");
    assert_eq!(
        resolve_modis_url("http:").unwrap_err().message(),
        "Unable to resolve MODIS image URL"
    );
}

#[test]
fn modis_page_without_title_is_refused() {
    assert_eq!(
        parse_modis_html("<html></html>").unwrap_err().message(),
        "MODIS title not found"
    );
}

#[test]
fn modis_offline_errors_without_cache() {
    let mut world = World::new();
    let mut settings = make_settings(false);
    settings.offline = true;
    let err = world.modis(&settings, "2025-12-19").unwrap_err();
    assert_eq!(
        err.message(),
        "Offline mode enabled; no cached MODIS wallpaper for 2025-12-19."
    );
}

// ------------------------------------------------------------------------------------------
// The cache
// ------------------------------------------------------------------------------------------

#[test]
fn cache_manager_upserts_and_loads_candidate() {
    let mut c = candidate(
        "bing-2024-01-01-1080",
        WallpaperSource::Bing,
        "/pictures/wallpaper.jpg",
        "2024-01-01",
    );
    c.title = Some("title".to_string());
    c.attribution = Some("copyright".to_string());
    c.metadata_xml = Some("<xml>meta</xml>".to_string());

    let mut world = World::new();
    world.upsert("2024-01-01", c.clone());
    let loaded = find_candidate(world.index("2024-01-01").as_ref(), WallpaperSource::Bing)
        .expect("candidate must exist");
    assert_eq!(loaded.id, c.id);
    assert_eq!(loaded.title, c.title);
}

#[test]
fn upsert_replaces_the_candidate_with_the_same_id() {
    let mut world = World::new();
    world.upsert("2024-01-01", candidate("a", WallpaperSource::Bing, "/1.jpg", "2024-01-01"));
    world.upsert("2024-01-01", candidate("b", WallpaperSource::Bing, "/2.jpg", "2024-01-01"));
    world.upsert("2024-01-01", candidate("a", WallpaperSource::Bing, "/3.jpg", "2024-01-01"));
    let index = world.index("2024-01-01").unwrap();
    let list = find_candidates_by_source(Some(&index), WallpaperSource::Bing);
    let paths: Vec<&str> = list.iter().map(|c| c.local_path.as_str()).collect();
    assert_eq!(paths, vec!["/3.jpg", "/2.jpg"]);
    assert!(find_candidate(Some(&index), WallpaperSource::Apod).is_none());
}

#[test]
fn dates_have_fields() {
    let d = Date { year: 2024, month: 2, day: 29 };
    assert_eq!(daily_wallpaper::date::text_of_date(d), "2024-02-29");
}

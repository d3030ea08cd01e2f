//! The program around the sources: settings, days, favorites, the chooser, runs and schedules.

use daily_wallpaper::apply::{
    ApplyAction, ApplyEvent, ApplyJob, ApplyOrder, ApplyStage, ReapplyAction, ReapplyEvent,
    ReapplyStage, apply_step, apply_wallpaper, candidate_order, preference_rows,
    reapply_last_wallpaper, reapply_step,
};
use daily_wallpaper::atomic::{WriteAction, WriteEvent, WriteJob, write_bytes_atomic, write_step};
use daily_wallpaper::auto_update::{
    UpdateAction, UpdateEvent, UpdateJob, run_auto_update_body, should_skip_auto_update,
    update_step,
};
use daily_wallpaper::bump::{
    BumpKind, BumpRequest, bump_request, bump_version, read_package_version, update_cargo_toml,
};
use daily_wallpaper::chooser::{
    Answer, ChooseEvent, ChooseOutcome, ChooseRequest, ChooseStage, choose_step,
    filter_candidates_by_min_resolution, left_out_note, run_choose,
};
use daily_wallpaper::config::{
    AppConfig, Cli, CommandArg, arg_present, date_override_note, normalize_auto_update_name,
    parse_resolution, resolve_disabled_sources, resolve_settings, settings_with_date_override,
};
use daily_wallpaper::date::{Date, fallback_date_label, is_before, target_date_for_day, text_of_date};
use daily_wallpaper::days::{
    DayFolder, DayIndex, find_candidate_any_date, list_cached_dates, prune_targets,
    validate_date_arg,
};
use daily_wallpaper::error::{WallpaperError, ensure_exit_success, ensure_http_success};
use daily_wallpaper::favorites::{
    FavoriteEntry, FavoriteFile, FavoritesManager, LoadAction, LoadEvent, SaveAction, SaveEvent,
    build_favorite_basename, sanitize_component,
};
use daily_wallpaper::favorites_menu::{
    MenuEvent, MenuJob, MenuRequest, menu_step, run_favorites_menu,
};
use daily_wallpaper::gather::{
    GatherCommand, GatherEvent, GatherJob, GatherRequest, SourceDay, gather_candidates, gather_step,
    skip_reason_for_error,
};
use daily_wallpaper::info::{InfoStep, show_found, show_info, wrap_text};
use daily_wallpaper::launchd::{
    Agent, HealAction, HealEvent, SetupAction, SetupEvent, SetupJob, agent_document,
    auto_update_program_arguments, create_launchd_plist, display_sync_program_arguments, heal_step,
    plist_has_auto_update_run_token, plist_program_arguments, remove_launchd_plist,
    self_heal_auto_update_plist, setup_step,
};
use daily_wallpaper::log::{LogConfig, LogKind, log_line, log_targets, rotate_log_file};
use daily_wallpaper::model::{
    CacheIndex, ConfigSource, LastApplied, Settings, SourceArg, SourceSet, SourceSkip,
    WallpaperCandidate, WallpaperSource,
};
use daily_wallpaper::number::{parse_number, u64_text};
use daily_wallpaper::path::{
    expand_tilde, extension_of, file_name_of, join_path, parent_of, path_lies_in, set_extension,
    unique_temp_path,
};
use daily_wallpaper::session::{
    ParentMenuChoice, RunAction, RunEvent, RunJob, RunStage, RunStep, dispatch_choose_maybe_dated,
    run_menu_selection, run_step, run_with_raw_args, startup_note,
};
use daily_wallpaper::sources::{
    FetchResult, SourceRegistry, SourceSettings, date_label_for, require_source,
};
use daily_wallpaper::text::{normalize_whitespace, replace, split_once};
use std::collections::BTreeMap;

const RUN: &str = "auto-update-run";
const EXE: &str = "/usr/local/bin/daily-wallpaper";

fn day(year: i32, month: u32, day: u32) -> Date {
    Date { year, month, day }
}

fn strings(list: &[&str]) -> Vec<String> {
    list.iter().map(|s| s.to_string()).collect()
}

fn make_settings() -> Settings {
    Settings {
        proto: "https".to_string(),
        picture_dir: "/pictures".to_string(),
        favorites_dir: "/pictures/favorites".to_string(),
        auto_update_name: "default".to_string(),
        monitor: 0,
        force: false,
        offline: false,
        verbose: false,
        quiet: true,
        experimental: false,
        filename: None,
        source: WallpaperSource::Bing,
        prune_cache_days: None,
        info_wrap_width: 88,
        info_plain_text: false,
        refresh_metadata: true,
        min_resolution: None,
        log_file: None,
        log_file_max_bytes: 5120 * 1024,
        disabled_sources: SourceSet::new(),
        date_override: None,
    }
}

fn candidate(id: &str, source: WallpaperSource, date: &str) -> WallpaperCandidate {
    WallpaperCandidate {
        id: id.to_string(),
        source,
        title: None,
        description: None,
        attribution: None,
        info_url: None,
        image_url: "https://example.com/image.jpg".to_string(),
        local_path: format!("/pictures/{id}.jpg"),
        date: date.to_string(),
        metadata_xml: None,
        checksum: None,
    }
}

fn last_applied(c: &WallpaperCandidate, by_user: bool) -> LastApplied {
    LastApplied {
        candidate_id: c.id.clone(),
        source: c.source,
        applied_path: c.local_path.clone(),
        applied_at: 1_700_000_000,
        applied_by_user: by_user,
        date: Some(c.date.clone()),
    }
}

// ------------------------------------------------------------------------------------------
// Settings
// ------------------------------------------------------------------------------------------

#[test]
fn cleaned_names_stay_as_they_are() {
    for c in '\0'..=char::MAX {
        let name = normalize_auto_update_name(&format!("{c}a{c}"));
        assert_eq!(normalize_auto_update_name(&name), name);
    }
    assert_eq!(normalize_auto_update_name("\u{2003}büro\u{2003}1\u{3000}"), "büro-1");
}

#[test]
fn normalize_auto_update_name_cleans() {
    assert_eq!(normalize_auto_update_name("  "), "default");
    assert_eq!(normalize_auto_update_name("foo bar"), "foo-bar");
    assert_eq!(normalize_auto_update_name("Name_1"), "Name_1");
}

#[test]
fn letters_of_other_scripts_stay_in_names() {
    assert_eq!(normalize_auto_update_name("büro/1"), "büro-1");
}

fn cli() -> Cli {
    Cli {
        command: None,
        auto_update_name: "default".to_string(),
        force: false,
        prune_cache_days: None,
        ssl: true,
        no_ssl: false,
        quiet: false,
        verbose: false,
        offline: false,
        date: None,
        disable_sources: Vec::new(),
        filename: None,
        picture_dir: None,
        monitor: 0,
        all_desktops_experimental: false,
    }
}

fn config() -> AppConfig {
    AppConfig {
        default_source: None,
        disabled_sources: None,
        monitor: None,
        all_desktops_experimental: None,
        auto_update_name: None,
        prune_cache_days: None,
        picture_dir: None,
        favorites_dir: None,
        verbosity: None,
        offline: None,
        spotlight_index: None,
        info_wrap_width: None,
        info_plain_text: None,
        min_resolution: None,
        log_file: None,
        log_file_max_kb: None,
        apod_api_key: None,
        country: None,
        resolutions: None,
        apod: None,
        modis: None,
        bing: None,
        spotlight: None,
    }
}

#[test]
fn settings_without_configuration_are_the_defaults() {
    let s = resolve_settings(&cli(), &Vec::new(), None, "/Users/me");
    assert_eq!(s.proto, "https");
    assert_eq!(s.picture_dir, "/Users/me/Pictures/daily-wallpapers");
    assert_eq!(s.favorites_dir, "/Users/me/Pictures/daily-wallpapers/favorites");
    assert_eq!(s.auto_update_name, "default");
    assert_eq!(s.source, WallpaperSource::Bing);
    assert_eq!(s.log_file_max_bytes, 5120 * 1024);
    assert!(s.refresh_metadata);
}

#[test]
fn flags_win_over_the_configuration() {
    let mut cfg = config();
    cfg.monitor = Some(3);
    cfg.picture_dir = Some("~/walls".to_string());
    cfg.verbosity = Some("Verbose".to_string());
    cfg.info_wrap_width = Some(5);
    cfg.min_resolution = Some(" 1920X1080 ".to_string());
    cfg.default_source = Some(ConfigSource::Modis);
    let s = resolve_settings(&cli(), &Vec::new(), Some(&cfg), "/Users/me");
    assert_eq!(s.monitor, 3);
    assert_eq!(s.picture_dir, "/Users/me/walls");
    assert!(s.verbose && !s.quiet);
    assert_eq!(s.info_wrap_width, 20);
    assert_eq!(s.min_resolution, Some((1920, 1080)));
    assert_eq!(s.source, WallpaperSource::Modis);

    let mut args = cli();
    args.monitor = 1;
    args.quiet = true;
    args.no_ssl = true;
    let raw = strings(&["--monitor=1", "-q", "--no-ssl"]);
    let s = resolve_settings(&args, &raw, Some(&cfg), "/Users/me");
    assert_eq!(s.monitor, 1);
    assert!(s.quiet && !s.verbose);
    assert_eq!(s.proto, "http");
}

#[test]
fn flags_are_found_with_and_without_values() {
    let args = strings(&["--date=pick", "-m", "2"]);
    assert!(arg_present(&args, &vec!["--date"]));
    assert!(arg_present(&args, &vec!["-m", "--monitor"]));
    assert!(!arg_present(&args, &vec!["--dat"]));
}

#[test]
fn sources_are_disabled_by_either() {
    let mut cfg = config();
    cfg.disabled_sources = Some(vec![ConfigSource::Apod]);
    let set = resolve_disabled_sources(Some(&cfg), &vec![SourceArg::Modis]);
    assert!(set.contains(WallpaperSource::Apod));
    assert!(set.contains(WallpaperSource::Modis));
    assert!(!set.contains(WallpaperSource::Bing));
}

#[test]
fn resolutions_are_parsed() {
    assert_eq!(parse_resolution("1920x1080"), Some((1920, 1080)));
    assert_eq!(parse_resolution(" 640 X 480 "), Some((640, 480)));
    assert_eq!(parse_resolution("1920"), None);
    assert_eq!(parse_resolution("99999999999x1"), None);
}

#[test]
fn date_override_bypasses_today_and_day_offset() {
    let mut settings = make_settings();
    let sources = SourceSettings::from_config(None, None).unwrap();
    settings.date_override = Some(day(2020, 1, 15));
    assert_eq!(date_label_for(None, &settings, &sources, day(2024, 5, 5)), "2020-01-15");
    assert_eq!(
        date_label_for(Some(WallpaperSource::Bing), &settings, &sources, day(2024, 5, 5)),
        "2020-01-15"
    );
}

#[test]
fn day_offset_counts_where_a_source_takes_it() {
    let settings = make_settings();
    let mut sources = SourceSettings::from_config(None, None).unwrap();
    sources.bing.day = 2;
    let today = day(2024, 5, 1);
    assert_eq!(date_label_for(None, &settings, &sources, today), "2024-04-29");
    let label = |source| date_label_for(Some(source), &settings, &sources, today);
    assert_eq!(label(WallpaperSource::Bing), "2024-04-29");
    assert_eq!(label(WallpaperSource::Apod), "2024-04-29");
    assert_eq!(label(WallpaperSource::Spotlight), "2024-05-01");
}

#[test]
fn settings_with_date_override_forces_offline_and_sets_date() {
    let settings = make_settings();
    assert!(!settings.offline);
    let date = day(2026, 8, 10);
    let dated = settings_with_date_override(&settings, date);
    assert!(dated.offline);
    assert_eq!(dated.date_override, Some(date));
    assert_eq!(
        date_override_note(&settings, date),
        Some("Offline mode forced because --date 2026-08-10 was used.".to_string())
    );
    assert_eq!(date_override_note(&dated, date), None);
}

#[test]
fn environment_key_comes_first() {
    let mut cfg = config();
    cfg.apod_api_key = Some("CONFIG".to_string());
    let sources = SourceSettings::from_config(Some(&cfg), Some("ENV")).unwrap();
    assert_eq!(sources.apod.api_key, "ENV");
    let sources = SourceSettings::from_config(Some(&cfg), None).unwrap();
    assert_eq!(sources.apod.api_key, "CONFIG");
}

// ------------------------------------------------------------------------------------------
// Days
// ------------------------------------------------------------------------------------------

fn folder(name: &str, has_candidates: bool) -> DayFolder {
    DayFolder { name: name.to_string(), has_candidates }
}

#[test]
fn list_cached_dates_ignores_non_date_and_empty_folders() {
    let folders = vec![
        folder("2024-05-03", true),
        folder("2024-05-02", false),
        folder("not-a-date", true),
    ];
    assert_eq!(list_cached_dates(&folders, day(2024, 5, 5), false), vec![day(2024, 5, 3)]);
}

#[test]
fn list_cached_dates_sorts_descending_and_can_exclude_today() {
    let folders = vec![
        folder("2024-05-04", true),
        folder("2024-05-05", true),
        folder("2024-05-03", true),
    ];
    let today = day(2024, 5, 5);
    assert_eq!(
        list_cached_dates(&folders, today, false),
        vec![today, day(2024, 5, 4), day(2024, 5, 3)]
    );
    assert_eq!(list_cached_dates(&folders, today, true), vec![day(2024, 5, 4), day(2024, 5, 3)]);
}

#[test]
fn validate_date_arg_rejects_malformed_date() {
    let err = validate_date_arg("2026-13-40", day(2026, 8, 12), &Vec::new()).unwrap_err();
    assert_eq!(
        err.message(),
        "Invalid date '2026-13-40'. Expected YYYY-MM-DD, or use --date pick to select from cached dates."
    );
}

#[test]
fn validate_date_arg_rejects_future_date() {
    let err = validate_date_arg("2026-08-13", day(2026, 8, 12), &Vec::new()).unwrap_err();
    assert_eq!(err.message(), "2026-08-13 is in the future; cache only holds past days.");
}

#[test]
fn validate_date_arg_errors_when_nothing_cached_lists_available_dates() {
    let err = validate_date_arg("2026-08-10", day(2026, 8, 12), &vec![day(2026, 8, 11)])
        .unwrap_err();
    assert_eq!(
        err.message(),
        "No cached wallpapers found for 2026-08-10. Cached dates available: 2026-08-11. Use --date pick to select interactively."
    );
}

#[test]
fn validate_date_arg_errors_plainly_when_cache_entirely_empty() {
    let err = validate_date_arg("2026-08-11", day(2026, 8, 12), &Vec::new()).unwrap_err();
    assert_eq!(err.message(), "No cached wallpapers found for any date yet.");
}

#[test]
fn validate_date_arg_accepts_cached_past_date() {
    let cached = day(2026, 8, 11);
    assert_eq!(
        validate_date_arg("2026-08-11", day(2026, 8, 12), &vec![cached]).unwrap(),
        cached
    );
}

#[test]
fn pruning_keeps_the_last_days() {
    let names = strings(&["2024-03-01", "2024-02-29", "2024-02-28", "favorites"]);
    assert!(prune_targets(&names, day(2024, 3, 1), 2).is_empty());
    assert_eq!(prune_targets(&names, day(2024, 3, 1), 1), vec!["2024-02-28"]);
    assert_eq!(prune_targets(&names, day(2024, 3, 1), 0), vec!["2024-02-29", "2024-02-28"]);
    let names = strings(&["2026-08-01", "2026-07-31"]);
    assert_eq!(prune_targets(&names, day(2026, 8, 15), 14), vec!["2026-07-31"]);
}

#[test]
fn days_are_counted_over_months_and_leap_years() {
    assert_eq!(target_date_for_day(day(2024, 3, 1), 1), day(2024, 2, 29));
    assert_eq!(target_date_for_day(day(2023, 3, 1), 1), day(2023, 2, 28));
    assert!(is_before(day(2023, 12, 31), day(2024, 1, 1)));
    assert_eq!(fallback_date_label("2024-02-29"), Some("2023-03-01".to_string()));
    assert_eq!(fallback_date_label("2024-01-02"), Some("2023-01-02".to_string()));
    assert_eq!(fallback_date_label("nothing"), None);
    assert_eq!(text_of_date(day(2024, 7, 4)), "2024-07-04");
}

#[test]
fn candidate_is_found_on_the_first_day_that_lists_it() {
    let mut one = candidate("x", WallpaperSource::Bing, "2024-01-01");
    one.title = Some("first".to_string());
    let mut two = candidate("x", WallpaperSource::Bing, "2024-01-02");
    two.title = Some("second".to_string());
    let index = |c: WallpaperCandidate| CacheIndex { date: c.date.clone(), candidates: vec![c] };
    let days = vec![
        DayIndex { name: "2024-01-02".to_string(), index: Ok(Some(index(two))) },
        DayIndex { name: "2024-01-01".to_string(), index: Ok(Some(index(one))) },
    ];
    assert_eq!(find_candidate_any_date(days, "x").unwrap().unwrap().title.unwrap(), "first");
    let broken = vec![DayIndex {
        name: "2024-01-01".to_string(),
        index: Err(WallpaperError::Json("bad".to_string())),
    }];
    assert!(find_candidate_any_date(broken, "x").is_err());
    assert!(find_candidate_any_date(Vec::new(), "x").unwrap().is_none());
}

// ------------------------------------------------------------------------------------------
// Information
// ------------------------------------------------------------------------------------------

#[test]
fn show_info_uses_last_applied_candidate_metadata() {
    let mut c = candidate("spotlight-2024-02-01-1", WallpaperSource::Spotlight, "2024-02-01");
    c.title = Some("Spotlight Title".to_string());
    c.description = Some("Spotlight description".to_string());
    c.attribution = Some("Copyright 2024".to_string());
    c.info_url = Some("https://example.com/info".to_string());
    let last = last_applied(&c, false);
    let index = CacheIndex { date: c.date.clone(), candidates: vec![c] };
    match show_info(Some(&last), Ok(Some(index)), &make_settings()).unwrap() {
        InfoStep::Show(output) => {
            assert!(output.contains("Spotlight Title"));
            assert!(output.contains("Spotlight description"));
            assert!(output.contains("Copyright 2024"));
            assert!(output.contains("https://example.com/info"));
        }
        InfoStep::SearchAllDays => panic!("the day is known"),
    }
}

#[test]
fn show_info_errors_without_last_applied() {
    let err = match show_info(None, Ok(None), &make_settings()) {
        Ok(_) => panic!("nothing was applied"),
        Err(err) => err,
    };
    assert!(err.message().contains("previously applied wallpaper"));
}

#[test]
fn missing_candidate_is_told() {
    assert!(show_found(Ok(None), &make_settings()).is_err());
    let mut settings = make_settings();
    settings.info_plain_text = true;
    let mut c = candidate("x", WallpaperSource::Bing, "2024-01-01");
    c.title = Some("A  title".to_string());
    let text = show_found(Ok(Some(c)), &settings).unwrap();
    assert!(text.contains("A title"));
    assert!(!text.contains('\u{1b}'));
}

#[test]
fn text_is_wrapped_between_words() {
    assert_eq!(wrap_text("one two three", 7), vec!["one two", "three"]);
    assert_eq!(wrap_text("  ", 7), vec![""]);
    assert_eq!(wrap_text("extraordinary word", 5), vec!["extraordinary", "word"]);
}

// ------------------------------------------------------------------------------------------
// Favorites
// ------------------------------------------------------------------------------------------

/// A directory of favorites, in memory.
struct Shelf {
    manager: FavoritesManager,
    files: BTreeMap<String, Vec<u8>>,
    metadata: BTreeMap<String, FavoriteFile>,
}

impl Shelf {
    fn new() -> Shelf {
        Shelf {
            manager: FavoritesManager::new("/pictures/favorites".to_string()),
            files: BTreeMap::new(),
            metadata: BTreeMap::new(),
        }
    }

    fn load(&self) -> Vec<FavoriteEntry> {
        let (mut stage, mut action) = self.manager.load_all();
        loop {
            let event = match action {
                LoadAction::Finish(result) => return result.unwrap(),
                LoadAction::LookForDir(_) => LoadEvent::Found(true),
                LoadAction::ListDir(_) => {
                    LoadEvent::Listing(Ok(self.files.keys().cloned().collect()))
                }
                LoadAction::ReadMetadata(path) => {
                    LoadEvent::Metadata(Ok(self.metadata.get(&path).cloned()))
                }
                LoadAction::LookForFile(path) => LoadEvent::Found(self.files.contains_key(&path)),
            };
            let next = self.manager.load_step(stage, event);
            stage = next.0;
            action = next.1;
        }
    }

    fn save(&mut self, c: &WallpaperCandidate) -> Result<FavoriteEntry, WallpaperError> {
        let (mut stage, mut action) = self.manager.save_favorite();
        loop {
            let event = match action {
                SaveAction::Finish(result) => return result,
                SaveAction::MakeDir(_) => SaveEvent::Outcome(Ok(())),
                SaveAction::LoadAll => SaveEvent::Loaded(Ok(self.load())),
                SaveAction::LookFor { image, metadata } => SaveEvent::Present {
                    image: self.files.contains_key(&image),
                    metadata: self.files.contains_key(&metadata),
                },
                SaveAction::CopyFile { to, .. } => {
                    self.files.insert(to, b"picture".to_vec());
                    SaveEvent::Outcome(Ok(()))
                }
                SaveAction::MeasureImage(_) => SaveEvent::Size(Some((10, 10))),
                SaveAction::ReadFile(path) => {
                    SaveEvent::Contents(Ok(self.files.get(&path).cloned()))
                }
                SaveAction::AskTime => SaveEvent::Time(5),
                SaveAction::WriteMetadata { path, file } => {
                    self.files.insert(path.clone(), Vec::new());
                    self.metadata.insert(path, file);
                    SaveEvent::Outcome(Ok(()))
                }
            };
            let next = self.manager.save_step(c, stage, event);
            stage = next.0;
            action = next.1;
        }
    }

    fn remove(&mut self, entry: &FavoriteEntry) {
        let (image, metadata) = self.manager.remove(entry);
        self.files.remove(&image);
        self.files.remove(&metadata);
        self.metadata.remove(&metadata);
    }
}

fn titled(id: &str) -> WallpaperCandidate {
    let mut c = candidate(id, WallpaperSource::Bing, "2024-01-01");
    c.title = Some("Title".to_string());
    c.description = Some("Desc".to_string());
    c.attribution = Some("Attr".to_string());
    c.info_url = Some("https://example.com/info".to_string());
    c.metadata_xml = Some("<xml>meta</xml>".to_string());
    c.local_path = format!("/pictures/{id}.png");
    c
}

#[test]
fn favorites_save_load_and_remove() {
    let mut shelf = Shelf::new();
    let c = titled("fav1");
    let saved = shelf.save(&c).unwrap();
    assert!(shelf.files.contains_key(&saved.image_path));
    assert_eq!(saved.stored_filename, "bing-2024-01-01-title.png");
    assert!(shelf.files.contains_key("/pictures/favorites/bing-2024-01-01-title.json"));
    assert_eq!(saved.resolution, Some("10x10".to_string()));

    let loaded = shelf.load();
    assert_eq!(loaded.len(), 1);
    assert_eq!(loaded[0].id, c.id);
    assert!(shelf.files.contains_key(&loaded[0].image_path));

    shelf.remove(&loaded[0]);
    assert!(shelf.load().is_empty());
}

#[test]
fn favorites_prevent_duplicates() {
    let mut shelf = Shelf::new();
    let c = titled("dup");
    shelf.save(&c).unwrap();
    let err = shelf.save(&c).unwrap_err();
    assert!(err.message().contains("already in favorites"));
}

#[test]
fn favorites_of_one_name_are_kept_apart() {
    let mut shelf = Shelf::new();
    let one = shelf.save(&titled("one")).unwrap();
    let two = shelf.save(&titled("two")).unwrap();
    assert!(one.stored_filename != two.stored_filename);
    let loaded = shelf.load();
    assert!(shelf.manager.is_favorited(&loaded, "one"));
    assert!(shelf.manager.is_favorited(&loaded, "two"));
    assert!(!shelf.manager.is_favorited(&loaded, "three"));
}

#[test]
fn names_of_favorites_are_plain() {
    assert_eq!(sanitize_component("  A -- b/C "), "a-b-c");
    assert_eq!(build_favorite_basename(&titled("x")), "bing-2024-01-01-title");
    let part = sanitize_component("--An ODD_title!! (2) -");
    assert_eq!(part, "an-odd_title-2");
    assert_eq!(sanitize_component(&part), part);
}

#[test]
fn no_character_brings_a_slash_into_a_name() {
    for c in '\0'..=char::MAX {
        let part = sanitize_component(&c.to_string());
        assert!(!part.contains('/'), "{c:?} gives {part}");
    }
    let mut c = titled("x");
    c.title = Some("ΟΔΟΣ/İstanbul".to_string());
    assert_eq!(build_favorite_basename(&c), "bing-2024-01-01-οδος-i\u{307}stanbul");
}

#[test]
fn favorites_beyond_ascii_are_loaded_and_removed() {
    let mut shelf = Shelf::new();
    let mut c = titled("eins");
    c.title = Some("Straße/Ö".to_string());
    let one = shelf.save(&c).unwrap();
    let two = shelf.save(&titled("zwei")).unwrap();
    assert!(one.stored_filename.starts_with("bing-2024-01-01-straße-ö."));
    assert!(shelf.manager.is_favorited(&shelf.load(), "eins"));
    assert!(shelf.manager.is_favorited(&shelf.load(), "zwei"));
    shelf.remove(&one);
    let ids: Vec<String> = shelf.load().into_iter().map(|f| f.id).collect();
    assert_eq!(ids, vec![two.id]);
}

#[test]
fn removing_a_favorite_leaves_the_others() {
    let mut shelf = Shelf::new();
    shelf.save(&titled("one")).unwrap();
    let two = shelf.save(&titled("two")).unwrap();
    shelf.save(&titled("three")).unwrap();
    assert_eq!(shelf.load().len(), 3);
    shelf.remove(&two);
    let mut ids: Vec<String> = shelf.load().into_iter().map(|f| f.id).collect();
    ids.sort();
    assert_eq!(ids, vec!["one", "three"]);
    shelf.save(&titled("two")).unwrap();
    assert!(shelf.manager.is_favorited(&shelf.load(), "two"));
}

fn menu_job(shelf: &Shelf) -> MenuJob {
    MenuJob {
        favorites: shelf.load(),
        manager: FavoritesManager::new("/pictures/favorites".to_string()),
        settings: make_settings(),
    }
}

#[test]
fn favorite_is_picked_by_its_line_and_removed() {
    let mut shelf = Shelf::new();
    shelf.save(&titled("one")).unwrap();
    shelf.save(&titled("two")).unwrap();
    let job = menu_job(&shelf);
    let step = run_favorites_menu(&job);
    let lines = match step.request {
        MenuRequest::AskList { lines, cursor } => {
            assert_eq!(cursor, 0);
            lines
        }
        _ => panic!("the list is shown"),
    };
    assert_eq!(lines[1], "1: [Bing] Title — Attr");
    let step = menu_step(&job, step.stage, MenuEvent::Answer(Answer::Picked(lines[1].clone())));
    let step = menu_step(
        &job,
        step.stage,
        MenuEvent::Answer(Answer::Picked("Remove from favorites".to_string())),
    );
    match step.request {
        MenuRequest::Remove { image, .. } => assert_eq!(image, job.favorites[1].image_path),
        _ => panic!("the favorite is removed"),
    }
    let step = menu_step(&job, step.stage, MenuEvent::Outcome(Ok(())));
    assert_eq!(step.say, Some("Removed from favorites.".to_string()));
    assert!(matches!(step.request, MenuRequest::Finish(Ok(()))));
}

#[test]
fn missing_favorite_is_not_applied() {
    let mut shelf = Shelf::new();
    shelf.save(&titled("one")).unwrap();
    let job = menu_job(&shelf);
    let step = run_favorites_menu(&job);
    let step = menu_step(&job, step.stage, MenuEvent::Answer(Answer::Picked("0: x".to_string())));
    let step = menu_step(&job, step.stage, MenuEvent::Answer(Answer::Picked("Apply".to_string())));
    let step = menu_step(&job, step.stage, MenuEvent::Found(false));
    assert!(step.say.unwrap().starts_with("Favorite image not found: /pictures/favorites/"));
    assert!(matches!(step.request, MenuRequest::AskList { .. }));
}

// ------------------------------------------------------------------------------------------
// The chooser
// ------------------------------------------------------------------------------------------

fn picked(text: &str) -> ChooseEvent {
    ChooseEvent::Answer(Answer::Picked(text.to_string()))
}

#[test]
fn chooser_shows_the_list_and_applies() {
    let step = run_choose(&make_settings());
    assert!(matches!(step.request, ChooseRequest::LoadFavorites));
    let step = choose_step(step.stage, step.chooser, ChooseEvent::Favorites(Ok(Vec::new())));
    match &step.request {
        ChooseRequest::Gather(settings) => assert!(!settings.refresh_metadata),
        _ => panic!("the wallpapers are gathered"),
    }
    let list = vec![titled("a"), candidate("b", WallpaperSource::Apod, "2024-01-01")];
    let step = choose_step(step.stage, step.chooser, ChooseEvent::Gathered(Ok(list)));
    let lines = match &step.request {
        ChooseRequest::AskList { lines, cursor } => {
            assert_eq!(*cursor, 0);
            lines.clone()
        }
        _ => panic!("the list is shown"),
    };
    assert_eq!(
        lines,
        vec!["1: [Bing] Title — Attr", "2: [APOD] (no title)", "3: [Favorites] (0)"]
    );
    let step = choose_step(step.stage, step.chooser, picked("2: [APOD] (no title)"));
    assert_eq!(step.chooser.selected, Some(1));
    let step = choose_step(step.stage, step.chooser, picked("Apply"));
    match &step.request {
        ChooseRequest::Apply(order) => {
            assert_eq!(order.candidate_id, "b");
            assert!(order.by_user);
        }
        _ => panic!("the wallpaper is applied"),
    }
    let step = choose_step(step.stage, step.chooser, ChooseEvent::Outcome(Ok(())));
    assert!(matches!(step.request, ChooseRequest::Finish(Ok(ChooseOutcome::Done))));
}

#[test]
fn chooser_refreshes_once() {
    let step = run_choose(&make_settings());
    let step = choose_step(step.stage, step.chooser, ChooseEvent::Favorites(Ok(Vec::new())));
    let step = choose_step(step.stage, step.chooser, ChooseEvent::Gathered(Ok(vec![titled("a")])));
    let step = choose_step(step.stage, step.chooser, picked("1: [Bing] Title — Attr"));
    let step = choose_step(step.stage, step.chooser, picked("Refresh list (force re-download)"));
    let step = choose_step(step.stage, step.chooser, ChooseEvent::Favorites(Ok(Vec::new())));
    match &step.request {
        ChooseRequest::Gather(settings) => assert!(settings.force && settings.refresh_metadata),
        _ => panic!("the wallpapers are gathered again"),
    }
    let step = choose_step(step.stage, step.chooser, ChooseEvent::Gathered(Ok(vec![titled("a")])));
    assert!(!step.chooser.settings.force && !step.chooser.settings.refresh_metadata);
    let step = choose_step(step.stage, step.chooser, picked("2: [Favorites] (0)"));
    assert_eq!(step.say, Some("No favorites saved yet.".to_string()));
    let step = choose_step(step.stage, step.chooser, ChooseEvent::Favorites(Ok(Vec::new())));
    assert!(matches!(step.stage, ChooseStage::Pick { .. }));
    let step = choose_step(step.stage, step.chooser, ChooseEvent::Answer(Answer::Escaped));
    assert!(matches!(step.request, ChooseRequest::Finish(Ok(ChooseOutcome::Canceled))));
}

#[test]
fn chooser_without_wallpapers_fails() {
    let mut settings = make_settings();
    settings.min_resolution = Some((100, 100));
    let step = run_choose(&settings);
    let step = choose_step(step.stage, step.chooser, ChooseEvent::Favorites(Ok(Vec::new())));
    let step = choose_step(step.stage, step.chooser, ChooseEvent::Gathered(Ok(vec![titled("a")])));
    let step =
        choose_step(step.stage, step.chooser, ChooseEvent::Sizes(vec![Some((99, 100))]));
    match step.request {
        ChooseRequest::Finish(Err(e)) => {
            assert_eq!(e.message(), "No wallpapers available to choose from.")
        }
        _ => panic!("there is nothing to choose"),
    }
}

#[test]
fn quitting_the_chooser_is_backing_out() {
    let step = run_choose(&make_settings());
    let step = choose_step(step.stage, step.chooser, ChooseEvent::Favorites(Ok(Vec::new())));
    let step = choose_step(step.stage, step.chooser, ChooseEvent::Gathered(Ok(vec![titled("a")])));
    let step = choose_step(step.stage, step.chooser, picked("1: [Bing] Title — Attr"));
    let step = choose_step(step.stage, step.chooser, picked("Quit chooser"));
    assert!(matches!(step.request, ChooseRequest::Finish(Ok(ChooseOutcome::Canceled))));
}

#[test]
fn large_images_are_kept() {
    let list = vec![titled("a"), titled("b"), titled("c")];
    let sizes = vec![Some((10, 10)), None, Some((9, 10))];
    let kept = filter_candidates_by_min_resolution(list, Some((10, 10)), &sizes);
    assert_eq!(kept.len(), 1);
    assert_eq!(kept[0].id, "a");
}

#[test]
fn images_that_are_left_out_are_told() {
    let c = titled("a");
    assert_eq!(left_out_note(&c, (10, 10), &Ok((10, 12))), None);
    assert_eq!(
        left_out_note(&c, (10, 10), &Ok((9, 12))).unwrap(),
        "Skipping a (/pictures/a.png): 9x12 below minimum 10x10."
    );
    assert_eq!(
        left_out_note(&c, (10, 10), &Err("no image".to_string())).unwrap(),
        "Skipping a (/pictures/a.png): could not read dimensions: no image"
    );
}

#[test]
fn broken_list_ends_the_chooser() {
    let answered = |answer: Answer| {
        let step = run_choose(&make_settings());
        let step = choose_step(step.stage, step.chooser, ChooseEvent::Favorites(Ok(Vec::new())));
        let list = vec![titled("a")];
        let step = choose_step(step.stage, step.chooser, ChooseEvent::Gathered(Ok(list)));
        choose_step(step.stage, step.chooser, ChooseEvent::Answer(answer)).request
    };
    assert!(matches!(
        answered(Answer::Broken),
        ChooseRequest::Finish(Ok(ChooseOutcome::Done))
    ));
    assert!(matches!(
        answered(Answer::Escaped),
        ChooseRequest::Finish(Ok(ChooseOutcome::Canceled))
    ));
}

// ------------------------------------------------------------------------------------------
// Gathering
// ------------------------------------------------------------------------------------------

fn gather_job(sources: &[WallpaperSource]) -> GatherJob {
    GatherJob {
        sources: sources
            .iter()
            .map(|s| SourceDay { source: *s, date: "2024-01-01".to_string() })
            .collect(),
        force: false,
        offline: false,
        quiet: true,
        verbose: false,
    }
}

#[test]
fn gathering_without_sources_fails() {
    match gather_candidates(&gather_job(&[])).request {
        GatherRequest::Finish(Err(e)) => assert_eq!(e.message(), "All sources are disabled."),
        _ => panic!("there is no source"),
    }
}

#[test]
fn failing_source_leaves_the_others() {
    let job = gather_job(&[WallpaperSource::Bing, WallpaperSource::Apod]);
    let step = gather_candidates(&job);
    let step = gather_step(&job, step.stage, step.gathered, GatherEvent::InProgress(Ok(false)));
    assert!(step
        .commands
        .iter()
        .any(|c| matches!(c, GatherCommand::WriteInProgress { .. })));
    let step = gather_step(
        &job,
        step.stage,
        step.gathered,
        GatherEvent::Failed {
            error: WallpaperError::Request { timeout: true, text: "slow".to_string() },
            canceled: false,
        },
    );
    let step = match &step.request {
        GatherRequest::ReadSkip { .. } => {
            gather_step(&job, step.stage, step.gathered, GatherEvent::Skip(Ok(None)))
        }
        _ => step,
    };
    assert!(matches!(
        step.request,
        GatherRequest::ReadInProgress { source: WallpaperSource::Apod, .. }
    ));
    let step = gather_step(&job, step.stage, step.gathered, GatherEvent::InProgress(Ok(false)));
    let found = FetchResult {
        candidates: vec![candidate("apod", WallpaperSource::Apod, "2024-01-01")],
        skipped_download: false,
    };
    let step = gather_step(&job, step.stage, step.gathered, GatherEvent::Fetched(found));
    match step.request {
        GatherRequest::Finish(Ok(list)) => assert_eq!(list.len(), 1),
        _ => panic!("the gathering is over"),
    }
}

#[test]
fn late_cancel_does_not_reach_the_next_source() {
    let mut job = gather_job(&[WallpaperSource::Bing, WallpaperSource::Apod]);
    let step = gather_candidates(&job);
    assert!(matches!(step.commands.as_slice(), [GatherCommand::ClearCancel]));
    let step = gather_step(&job, step.stage, step.gathered, GatherEvent::InProgress(Ok(false)));
    let found = FetchResult { candidates: Vec::new(), skipped_download: false };
    let step = gather_step(&job, step.stage, step.gathered, GatherEvent::Fetched(found));
    assert!(matches!(
        step.commands.as_slice(),
        [GatherCommand::ClearInProgress { .. }, GatherCommand::ClearCancel]
    ));
    job.force = true;
    let step = gather_candidates(&job);
    assert!(matches!(
        step.commands.as_slice(),
        [GatherCommand::ClearCancel, GatherCommand::WriteInProgress { .. }]
    ));
}

#[test]
fn reasons_are_noted_for_failures_of_the_network() {
    let request = |timeout| WallpaperError::Request { timeout, text: String::new() };
    assert_eq!(skip_reason_for_error(&request(true)), Some("request_timeout".to_string()));
    assert_eq!(skip_reason_for_error(&request(false)), Some("request_error".to_string()));
    let status = WallpaperError::Status { url: "u".to_string(), status: 503 };
    assert_eq!(skip_reason_for_error(&status), Some("status_503".to_string()));
    assert_eq!(skip_reason_for_error(&WallpaperError::Canceled), None);
    let skip = SourceSkip { reason: "request_timeout".to_string(), created_at: 1 };
    assert_eq!(skip.reason, "request_timeout");
}

// ------------------------------------------------------------------------------------------
// The automatic update
// ------------------------------------------------------------------------------------------

fn with_startdate(mut c: WallpaperCandidate, startdate: &str) -> WallpaperCandidate {
    c.metadata_xml = Some(format!(
        "<?xml version=\"1.0\" encoding=\"utf-8\"?><images><image><startdate>{startdate}</startdate></image></images>"
    ));
    c
}

#[test]
fn auto_update_does_not_skip_bing_when_metadata_not_today() {
    let today = day(2024, 5, 5);
    let c = with_startdate(
        candidate("bing-2024-05-04-en-US-1920x1080", WallpaperSource::Bing, "2024-05-04"),
        "20240504",
    );
    let last = last_applied(&c, false);
    assert!(!should_skip_auto_update(&last, Some(today), today, Some(&c)));
}

#[test]
fn auto_update_skips_bing_when_user_applied_today() {
    let today = day(2024, 5, 5);
    let c = with_startdate(
        candidate("bing-2024-05-04-en-US-1920x1080", WallpaperSource::Bing, "2024-05-04"),
        "20240504",
    );
    let last = last_applied(&c, true);
    assert!(should_skip_auto_update(&last, Some(today), today, Some(&c)));
}

#[test]
fn auto_update_skips_bing_when_metadata_is_today() {
    let today = day(2024, 5, 5);
    let c = with_startdate(
        candidate("bing-2024-05-05-en-US-1920x1080", WallpaperSource::Bing, "2024-05-05"),
        "20240505",
    );
    let last = last_applied(&c, false);
    assert!(should_skip_auto_update(&last, Some(today), today, Some(&c)));
}

#[test]
fn metadata_decides_over_the_note() {
    let today = day(2024, 5, 5);
    let c = with_startdate(
        candidate("bing-2024-05-05-en-US-1920x1080", WallpaperSource::Bing, "2024-05-05"),
        "20240504",
    );
    let last = last_applied(&c, false);
    assert!(!should_skip_auto_update(&last, Some(today), today, Some(&c)));
    assert!(should_skip_auto_update(&last, Some(today), today, None));
}

#[test]
fn auto_update_skips_non_bing_when_applied_today() {
    let today = day(2024, 5, 5);
    let c = candidate("spotlight-2024-05-04-1", WallpaperSource::Spotlight, "2024-05-04");
    let last = last_applied(&c, false);
    assert!(should_skip_auto_update(&last, Some(today), today, None));
    assert!(!should_skip_auto_update(&last, Some(day(2024, 5, 4)), today, None));
}

fn update_job(settings: Settings) -> UpdateJob {
    UpdateJob {
        settings,
        source_settings: SourceSettings::from_config(None, None).unwrap(),
        registry: SourceRegistry::new(),
        cache_dir: "/pictures/cache".to_string(),
        today: day(2024, 5, 5),
    }
}

#[test]
fn update_that_is_not_due_ends() {
    let job = update_job(make_settings());
    let step = run_auto_update_body(&job);
    let c = candidate("spotlight-2024-05-04-1", WallpaperSource::Spotlight, "2024-05-04");
    let step = update_step(
        &job,
        step.stage,
        UpdateEvent::Last {
            last: Ok(Some(last_applied(&c, false))),
            applied_on: Some(day(2024, 5, 5)),
        },
    );
    assert_eq!(step.log, vec!["Wallpaper already set today; skipping auto update."]);
    assert!(matches!(step.action, UpdateAction::Finish(Ok(()))));
}

#[test]
fn update_applies_and_prunes() {
    let mut settings = make_settings();
    settings.prune_cache_days = Some(1);
    let job = update_job(settings);
    let step = run_auto_update_body(&job);
    let c = with_startdate(
        candidate("bing-2024-05-04-en-US-UHD", WallpaperSource::Bing, "2024-05-04"),
        "20240504",
    );
    let step = update_step(
        &job,
        step.stage,
        UpdateEvent::Last { last: Ok(Some(last_applied(&c, false))), applied_on: None },
    );
    assert!(matches!(&step.action, UpdateAction::ReadIndex(d) if d == "2024-05-04"));
    let step = update_step(&job, step.stage, UpdateEvent::Index(Ok(None)));
    assert!(matches!(step.action, UpdateAction::ReadIndexes));
    let step = update_step(&job, step.stage, UpdateEvent::Indexes(Ok(Vec::new())));
    assert!(matches!(&step.action, UpdateAction::MakeDir(d) if d == "/pictures"));
    let step = update_step(&job, step.stage, UpdateEvent::Outcome(Ok(())));
    assert!(matches!(&step.action, UpdateAction::Fetch { date, .. } if date == "2024-05-05"));
    let found = FetchResult { candidates: vec![c], skipped_download: false };
    let step = update_step(&job, step.stage, UpdateEvent::Fetched(Ok(found)));
    assert!(matches!(&step.action, UpdateAction::Apply(o) if !o.by_user));
    let step = update_step(&job, step.stage, UpdateEvent::Outcome(Ok(())));
    assert!(matches!(step.action, UpdateAction::ListCache));
    let names = strings(&["2024-05-05", "2024-05-04", "2024-05-03", "last_applied"]);
    let step = update_step(&job, step.stage, UpdateEvent::Names(Ok(Some(names))));
    assert_eq!(
        step.log,
        vec!["Pruning cache entry /pictures/cache/2024-05-03 (older than 1 days)"]
    );
    let step = update_step(
        &job,
        step.stage,
        UpdateEvent::Outcome(Err(WallpaperError::Io("denied".to_string()))),
    );
    assert_eq!(step.log, vec!["Failed to prune /pictures/cache/2024-05-03: denied"]);
    assert!(matches!(step.action, UpdateAction::Finish(Ok(()))));
}

#[test]
fn disabled_source_is_refused() {
    let mut settings = make_settings();
    settings.force = true;
    settings.disabled_sources.insert(WallpaperSource::Bing);
    let job = update_job(settings);
    let step = run_auto_update_body(&job);
    let step = update_step(&job, step.stage, UpdateEvent::Outcome(Ok(())));
    match step.action {
        UpdateAction::Finish(Err(e)) => assert_eq!(
            e.message(),
            "Source Bing is disabled. Remove it from disabled_sources or choose another source."
        ),
        _ => panic!("the source is disabled"),
    }
}

#[test]
fn registered_sources_are_found() {
    let registry = SourceRegistry::new();
    assert!(require_source(&registry, WallpaperSource::Modis).is_ok());
    let mut disabled = SourceSet::new();
    disabled.insert(WallpaperSource::Apod);
    assert_eq!(
        registry.all_enabled(&disabled),
        vec![WallpaperSource::Bing, WallpaperSource::Spotlight, WallpaperSource::Modis]
    );
}

// ------------------------------------------------------------------------------------------
// Applying
// ------------------------------------------------------------------------------------------

fn apply_job(experimental: bool, monitor: usize) -> ApplyJob {
    ApplyJob {
        order: ApplyOrder {
            path: "/a \"b\".jpg".to_string(),
            candidate_id: "x".to_string(),
            source: WallpaperSource::Apod,
            date: Some("2024-01-01".to_string()),
            by_user: true,
        },
        experimental,
        monitor,
        home: "/Users/me".to_string(),
    }
}

#[test]
fn script_sets_every_desktop() {
    let step = apply_wallpaper(&apply_job(false, 0));
    assert_eq!(step.say, Some("Setting wallpaper to /a \"b\".jpg (monitor: all)".to_string()));
    match step.action {
        ApplyAction::RunScript(script) => assert_eq!(
            script,
            "tell application \"System Events\" to tell every desktop to set picture to (POSIX file \"/a \\\"b\\\".jpg\")"
        ),
        _ => panic!("a script is run"),
    }
}

#[test]
fn script_sets_one_monitor() {
    match apply_wallpaper(&apply_job(false, 2)).action {
        ApplyAction::RunScript(script) => assert_eq!(
            script,
            "\n        set tlst to {}\n        tell application \"System Events\"\n            set tlst to a reference to every desktop\n            set picture of item 2 of tlst to (POSIX file \"/a \\\"b\\\".jpg\")\n        end tell\n        "
        ),
        _ => panic!("a script is run"),
    }
}

#[test]
fn what_was_applied_is_noted() {
    let job = apply_job(false, 0);
    let step = apply_wallpaper(&job);
    let step = apply_step(&job, step.stage, ApplyEvent::Outcome { result: Ok(()), now: 77 });
    match &step.action {
        ApplyAction::Record(last) => {
            assert_eq!(last.candidate_id, "x");
            assert_eq!(last.applied_at, 77);
            assert!(last.applied_by_user);
        }
        _ => panic!("it is noted"),
    }
    let step = apply_step(&job, step.stage, ApplyEvent::Outcome { result: Ok(()), now: 78 });
    assert!(matches!(step.action, ApplyAction::Finish(Ok(()))));
}

#[test]
fn failed_apply_is_not_noted() {
    let job = apply_job(false, 0);
    let step = apply_wallpaper(&job);
    let failed = Err(WallpaperError::Canceled);
    let step = apply_step(&job, step.stage, ApplyEvent::Outcome { result: failed, now: 77 });
    assert!(matches!(step.action, ApplyAction::Finish(Err(_))));
}

#[test]
fn database_has_to_be_there() {
    let job = apply_job(true, 0);
    let step = apply_wallpaper(&job);
    assert!(matches!(step.stage, ApplyStage::Look));
    match apply_step(&job, step.stage, ApplyEvent::Found(false)).action {
        ApplyAction::Finish(Err(e)) => assert_eq!(
            e.message(),
            "desktoppicture.db not found at /Users/me/Library/Application Support/Dock/desktoppicture.db"
        ),
        _ => panic!("there is no database"),
    }
    let step = apply_wallpaper(&job);
    let step = apply_step(&job, step.stage, ApplyEvent::Found(true));
    assert!(matches!(step.action, ApplyAction::WriteDatabase { .. }));
    let step = apply_step(&job, step.stage, ApplyEvent::Outcome { result: Ok(()), now: 1 });
    assert!(matches!(step.action, ApplyAction::RestartDock));
    assert_eq!(preference_rows(7, &vec![1, 2]), vec![(1, 7, 1), (1, 7, 2)]);
}

#[test]
fn last_wallpaper_is_applied_again() {
    let c = candidate("x", WallpaperSource::Apod, "2024-01-01");
    let step = reapply_last_wallpaper();
    let step = reapply_step(step.stage, ReapplyEvent::Last(Ok(Some(last_applied(&c, false)))));
    assert!(matches!(step.stage, ReapplyStage::Look(_)));
    let step = reapply_step(step.stage, ReapplyEvent::Found(true));
    assert_eq!(
        step.say,
        Some("Reapplying last wallpaper (Apod) from /pictures/x.jpg".to_string())
    );
    assert!(matches!(&step.action, ReapplyAction::Apply(o) if o.by_user && o.candidate_id == "x"));
    assert_eq!(candidate_order(&c, false).date, Some("2024-01-01".to_string()));
}

#[test]
fn missing_wallpaper_is_not_applied_again() {
    let c = candidate("x", WallpaperSource::Apod, "2024-01-01");
    let step = reapply_last_wallpaper();
    let step = reapply_step(step.stage, ReapplyEvent::Last(Ok(Some(last_applied(&c, false)))));
    match reapply_step(step.stage, ReapplyEvent::Found(false)).action {
        ReapplyAction::Finish(Err(e)) => {
            assert_eq!(e.message(), "Previously applied wallpaper is missing: /pictures/x.jpg")
        }
        _ => panic!("the file is missing"),
    }
}

// ------------------------------------------------------------------------------------------
// Schedules
// ------------------------------------------------------------------------------------------

#[test]
fn auto_update_program_arguments_fresh_enable_includes_hidden_subcommand() {
    let args = auto_update_program_arguments(
        "/usr/local/bin/daily-wallpaper",
        &strings(&["enable-auto-update", "--auto-update-name", "work"]),
    );
    assert_eq!(
        args,
        vec!["/usr/local/bin/daily-wallpaper", RUN, "--auto-update-name", "work"]
    );
}

#[test]
fn auto_update_program_arguments_rerun_over_existing_schedule_stays_explicit() {
    let first = auto_update_program_arguments(
        "/usr/local/bin/daily-wallpaper",
        &strings(&["enable-auto-update"]),
    );
    assert_eq!(first, vec!["/usr/local/bin/daily-wallpaper", RUN]);
    let rerun = auto_update_program_arguments(
        "/usr/local/bin/daily-wallpaper",
        &strings(&["enable-auto-update"]),
    );
    assert_eq!(rerun, vec!["/usr/local/bin/daily-wallpaper", RUN]);
}

#[test]
fn auto_update_program_arguments_never_duplicates_hidden_token() {
    let args = auto_update_program_arguments("/usr/local/bin/daily-wallpaper", &strings(&[RUN]));
    assert_eq!(args, vec!["/usr/local/bin/daily-wallpaper", RUN]);
}

#[test]
fn display_sync_hands_on_other_arguments() {
    let args = display_sync_program_arguments(
        EXE,
        &strings(&["-q", "enable-display-sync", "enable-display-sync"]),
    );
    assert_eq!(args, vec![EXE, "display-sync", "-q", "enable-display-sync"]);
}

fn fake_plist(program_arguments: &[&str]) -> Vec<u8> {
    let mut map = plist::Dictionary::new();
    map.insert(
        "ProgramArguments".to_string(),
        plist::Value::Array(
            program_arguments.iter().map(|s| plist::Value::String(s.to_string())).collect(),
        ),
    );
    let mut bytes = Vec::new();
    plist::to_writer_xml(&mut bytes, &plist::Value::Dictionary(map)).unwrap();
    bytes
}

#[test]
fn plist_has_auto_update_run_token_detects_old_style_plist() {
    assert!(!plist_has_auto_update_run_token(&fake_plist(&[EXE])).unwrap());
}

#[test]
fn plist_has_auto_update_run_token_detects_migrated_plist() {
    assert!(plist_has_auto_update_run_token(&fake_plist(&[EXE, RUN])).unwrap());
}

#[test]
fn broken_plist_is_told() {
    assert!(matches!(
        plist_has_auto_update_run_token(&b"<plist><dict>".to_vec()),
        Err(WallpaperError::Plist(_))
    ));
    assert!(plist_program_arguments(&fake_plist(&[])).unwrap().is_empty());
}

#[test]
fn written_plist_is_read_back() {
    let mut settings = make_settings();
    settings.auto_update_name = "wörk & <play>".to_string();
    let raw = strings(&["enable-auto-update", "--filename", " a\t'b' & \"c\" <d>\r\n "]);
    let document = agent_document(Agent::AutoUpdate, &settings, EXE, &raw).unwrap();
    assert_eq!(
        plist_program_arguments(&document).unwrap(),
        vec![EXE, RUN, "--filename", " a\t'b' & \"c\" <d>\r\n "]
    );
    let value = plist::Value::from_reader(std::io::Cursor::new(&document)).unwrap();
    let dict = value.as_dictionary().unwrap();
    assert_eq!(
        dict.get("Label").unwrap().as_string().unwrap(),
        "com.thirdember.daily-wallpaper.wörk & <play>"
    );
    assert_eq!(dict.get("OnDemand").unwrap().as_boolean(), Some(true));
    assert_eq!(dict.get("RunAtLoad").unwrap().as_boolean(), Some(true));
    assert_eq!(dict.get("StartInterval").unwrap().as_signed_integer(), Some(1800));
    assert_eq!(
        dict.get("StandardErrorPath").unwrap().as_string().unwrap(),
        "/tmp/com.thirdember.daily-wallpaper-wörk & <play>.err"
    );
    let environment = dict.get("EnvironmentVariables").unwrap().as_dictionary().unwrap();
    assert_eq!(
        environment.get("PATH").unwrap().as_string().unwrap(),
        "/usr/local/bin:/usr/local/sbin:/usr/bin:/bin:/usr/sbin:/sbin"
    );
    assert_eq!(dict.len(), 8);
}

#[test]
fn display_sync_is_kept_alive() {
    let document =
        agent_document(Agent::DisplaySync, &make_settings(), EXE, &Vec::new()).unwrap();
    let value = plist::Value::from_reader(std::io::Cursor::new(&document)).unwrap();
    let dict = value.as_dictionary().unwrap();
    assert_eq!(dict.get("KeepAlive").unwrap().as_boolean(), Some(true));
    assert!(dict.get("StartInterval").is_none());
    assert_eq!(
        dict.get("Label").unwrap().as_string().unwrap(),
        "com.thirdember.daily-wallpaper.display-sync.default"
    );
}

#[test]
fn self_heal_skips_when_no_plist_exists() {
    let mut settings = make_settings();
    settings.auto_update_name = "test-no-plist".to_string();
    let (stage, action) = self_heal_auto_update_plist(&settings, "/Users/me");
    match action {
        HealAction::LookFor(path) => assert_eq!(path, settings.plist_filename("/Users/me")),
        _ => panic!("the list is looked for"),
    }
    let (_, action) = heal_step(&settings, "/Users/me", stage, HealEvent::Found(false));
    assert!(matches!(action, HealAction::Finish(Ok(()))));
}

#[test]
fn old_plist_is_mended_once() {
    let settings = make_settings();
    let home = "/Users/me";
    let (stage, _) = self_heal_auto_update_plist(&settings, home);
    let (stage, _) = heal_step(&settings, home, stage, HealEvent::Found(true));
    let (_, action) =
        heal_step(&settings, home, stage, HealEvent::Document(Ok(fake_plist(&[EXE]))));
    assert!(matches!(action, HealAction::Setup));

    let job = SetupJob {
        agent: Agent::AutoUpdate,
        settings: settings.clone(),
        raw_args: Vec::new(),
        home: home.to_string(),
    };
    let (stage, _) = create_launchd_plist(&job);
    let (stage, action) = setup_step(&job, stage, SetupEvent::Outcome(Ok(())));
    assert!(matches!(action, SetupAction::Locate));
    let (stage, action) = setup_step(&job, stage, SetupEvent::Located(Ok(EXE.to_string())));
    let written = match action {
        SetupAction::WriteFile { path, document } => {
            assert_eq!(
                path,
                "/Users/me/Library/LaunchAgents/com.thirdember.daily-wallpaper-default.plist"
            );
            document
        }
        _ => panic!("the list is written"),
    };
    let (stage, action) = setup_step(&job, stage, SetupEvent::Outcome(Ok(())));
    assert!(matches!(action, SetupAction::Unload(_)));
    let (stage, action) = setup_step(&job, stage, SetupEvent::Done);
    assert!(matches!(action, SetupAction::Load(_)));
    let (_, action) = setup_step(&job, stage, SetupEvent::Outcome(Ok(())));
    assert!(matches!(action, SetupAction::Finish(Ok(()))));

    let (stage, _) = self_heal_auto_update_plist(&settings, home);
    let (stage, _) = heal_step(&settings, home, stage, HealEvent::Found(true));
    let (_, action) = heal_step(&settings, home, stage, HealEvent::Document(Ok(written)));
    assert!(matches!(action, HealAction::Finish(Ok(()))));
    assert_eq!(
        remove_launchd_plist(Agent::DisplaySync, &settings, home),
        "/Users/me/Library/LaunchAgents/com.thirdember.daily-wallpaper-display-sync-default.plist"
    );
}

#[test]
fn unknown_program_is_told() {
    let job = SetupJob {
        agent: Agent::AutoUpdate,
        settings: make_settings(),
        raw_args: Vec::new(),
        home: "/Users/me".to_string(),
    };
    let (stage, _) = create_launchd_plist(&job);
    let (stage, _) = setup_step(&job, stage, SetupEvent::Outcome(Ok(())));
    match setup_step(&job, stage, SetupEvent::Located(Err("gone".to_string()))).1 {
        SetupAction::Finish(Err(e)) => {
            assert_eq!(e.message(), "Unable to determine current executable: gone")
        }
        _ => panic!("the program is not known"),
    }
}

// ------------------------------------------------------------------------------------------
// Runs
// ------------------------------------------------------------------------------------------

fn run_job(command: Option<CommandArg>, date: Option<&str>, interactive: bool) -> RunJob {
    RunJob {
        command,
        date: date.map(|d| d.to_string()),
        settings: make_settings(),
        interactive,
    }
}

/// The actions of a run in a world where every prompt is answered from a list and nothing was
/// applied or cached.
fn play(job: &RunJob, answers: Vec<Answer>) -> (Vec<&'static str>, Result<(), WallpaperError>) {
    let mut seen = Vec::new();
    let mut answers = answers.into_iter();
    let mut step: RunStep = run_with_raw_args(job);
    loop {
        let event = match step.action {
            RunAction::Finish(result) => return (seen, result),
            RunAction::AskMenu(lines) => {
                assert_eq!(
                    lines,
                    vec![
                        "Choose a wallpaper",
                        "Show info about the current wallpaper",
                        "Reapply the last wallpaper",
                        "Browse cache"
                    ]
                );
                seen.push("menu");
                RunEvent::Answer(answers.next().unwrap())
            }
            RunAction::AskDate(_) => {
                seen.push("dates");
                RunEvent::Answer(answers.next().unwrap())
            }
            RunAction::ListDays => {
                seen.push("list");
                RunEvent::Days {
                    folders: vec![folder("2026-08-11", true), folder("2026-08-10", true)],
                    today: day(2026, 8, 12),
                }
            }
            RunAction::MakeDirs(_) => RunEvent::Outcome(Ok(())),
            RunAction::Choose(settings) => {
                seen.push(if settings.offline { "choose offline" } else { "choose" });
                RunEvent::Chosen(Ok(match answers.next() {
                    Some(Answer::Escaped) => ChooseOutcome::Canceled,
                    _ => ChooseOutcome::Done,
                }))
            }
            RunAction::AutoUpdate => {
                seen.push("update");
                RunEvent::Outcome(Ok(()))
            }
            RunAction::HealAutoUpdate => {
                seen.push("heal");
                RunEvent::Outcome(Ok(()))
            }
            RunAction::ShowInfo => {
                seen.push("info");
                let shown = show_info(None, Ok(None), &job.settings);
                RunEvent::Outcome(shown.map(|_| ()))
            }
            RunAction::Reapply => {
                seen.push("reapply");
                let again = reapply_last_wallpaper();
                match reapply_step(again.stage, ReapplyEvent::Last(Ok(None))).action {
                    ReapplyAction::Finish(result) => RunEvent::Outcome(result),
                    _ => panic!("nothing was applied"),
                }
            }
            RunAction::EnableAutoUpdate
            | RunAction::DisableAutoUpdate
            | RunAction::EnableDisplaySync
            | RunAction::DisableDisplaySync
            | RunAction::DisplaySync => {
                seen.push("schedule");
                RunEvent::Outcome(Ok(()))
            }
        };
        step = run_step(job, step.stage, event);
    }
}

fn pick(text: &str) -> Answer {
    Answer::Picked(text.to_string())
}

#[test]
fn auto_update_run_direct_dispatch_never_touches_plist() {
    let (seen, result) = play(&run_job(Some(CommandArg::AutoUpdateRun), None, true), Vec::new());
    assert_eq!(seen, vec!["update"]);
    assert!(result.is_ok());
}

#[test]
fn run_menu_selection_info_matches_dispatch_info_error_path() {
    let (_, via_menu) = play(
        &run_job(None, None, true),
        vec![pick("Show info about the current wallpaper")],
    );
    let (_, via_dispatch) = play(&run_job(Some(CommandArg::Info), None, true), Vec::new());
    assert_eq!(via_menu.unwrap_err().message(), via_dispatch.unwrap_err().message());
}

#[test]
fn run_menu_selection_reapply_matches_dispatch_reapply_error_path() {
    let (_, via_menu) =
        play(&run_job(None, None, true), vec![pick("Reapply the last wallpaper")]);
    let (_, via_dispatch) = play(&run_job(Some(CommandArg::Reapply), None, true), Vec::new());
    assert_eq!(via_menu.unwrap_err().message(), via_dispatch.unwrap_err().message());
}

#[test]
fn run_menu_selection_browse_cache_with_empty_cache_returns_ok_without_prompting() {
    let job = run_job(None, None, true);
    let step = run_menu_selection(&job, ParentMenuChoice::BrowseCache);
    assert!(matches!(step.action, RunAction::ListDays));
    let step = run_step(
        &job,
        step.stage,
        RunEvent::Days { folders: Vec::new(), today: day(2026, 8, 12) },
    );
    assert_eq!(step.say, Some("No cached dates found yet.".to_string()));
    assert!(matches!(step.action, RunAction::Finish(Ok(()))));
}

#[test]
fn dispatch_choose_maybe_dated_without_date_arg_matches_plain_dispatch_choose() {
    let job = run_job(Some(CommandArg::Choose), None, false);
    let via_helper = dispatch_choose_maybe_dated(&job, None, false);
    let via_dispatch = run_with_raw_args(&job);
    let dirs = |step: RunStep| match step.action {
        RunAction::MakeDirs(dirs) => dirs,
        _ => panic!("the directories are made"),
    };
    let expected = vec!["/pictures", "/pictures/favorites"];
    assert_eq!(dirs(via_helper), expected);
    assert_eq!(dirs(via_dispatch), expected);
}

#[test]
fn backing_out_of_the_chooser_shows_the_menu_again() {
    let (seen, result) = play(
        &run_job(None, None, true),
        vec![pick("Choose a wallpaper"), Answer::Escaped, Answer::Escaped],
    );
    assert_eq!(seen, vec!["menu", "choose", "menu"]);
    assert!(result.is_ok());
}

#[test]
fn backing_out_of_a_day_shows_the_days_again() {
    let (seen, _) = play(
        &run_job(None, None, true),
        vec![
            pick("Browse cache"),
            pick("2026-08-11"),
            Answer::Escaped,
            Answer::Escaped,
            Answer::Escaped,
        ],
    );
    assert_eq!(
        seen,
        vec!["menu", "list", "dates", "choose offline", "list", "dates", "menu"]
    );
    let (seen, _) = play(
        &run_job(Some(CommandArg::Choose), Some("PICK"), true),
        vec![pick("2026-08-10"), Answer::Escaped, Answer::Escaped],
    );
    assert_eq!(seen, vec!["list", "dates", "choose offline", "list", "dates"]);
}

#[test]
fn broken_list_of_days_ends_the_run() {
    let (seen, result) =
        play(&run_job(None, None, true), vec![pick("Browse cache"), Answer::Broken]);
    assert_eq!(seen, vec!["menu", "list", "dates"]);
    assert!(result.is_ok());
}

#[test]
fn day_that_is_asked_for_has_to_be_cached() {
    let (seen, result) =
        play(&run_job(Some(CommandArg::Choose), Some("2026-08-10"), true), Vec::new());
    assert_eq!(seen, vec!["list", "choose offline"]);
    assert!(result.is_ok());
    let (seen, result) =
        play(&run_job(Some(CommandArg::Choose), Some("2026-08-09"), true), Vec::new());
    assert_eq!(seen, vec!["list"]);
    assert_eq!(
        result.unwrap_err().message(),
        "No cached wallpapers found for 2026-08-09. Cached dates available: 2026-08-11, 2026-08-10. Use --date pick to select interactively."
    );
}

#[test]
fn unattended_run_updates() {
    let (seen, _) = play(&run_job(None, None, false), Vec::new());
    assert_eq!(seen, vec!["heal", "update"]);
    let (seen, _) = play(&run_job(None, None, true), vec![Answer::Broken]);
    assert_eq!(seen, vec!["menu", "heal", "update"]);
}

#[test]
fn finished_commands_are_told() {
    for (command, note) in vec![
        (CommandArg::EnableAutoUpdate, "Automatic wallpaper update enabled."),
        (CommandArg::DisableAutoUpdate, "Automatic wallpaper update disabled."),
        (CommandArg::EnableDisplaySync, "Display sync enabled."),
        (CommandArg::DisableDisplaySync, "Display sync disabled."),
    ] {
        let job = run_job(Some(command), None, true);
        let step = run_with_raw_args(&job);
        assert!(matches!(step.stage, RunStage::Command(_)));
        let step = run_step(&job, step.stage, RunEvent::Outcome(Ok(())));
        assert_eq!(step.log, Some(note.to_string()));
    }
}

#[test]
fn force_is_ignored_offline() {
    let mut settings = make_settings();
    assert_eq!(startup_note(&settings), None);
    settings.offline = true;
    settings.force = true;
    assert_eq!(
        startup_note(&settings),
        Some("Offline mode enabled; ignoring --force for downloads.".to_string())
    );
}

// ------------------------------------------------------------------------------------------
// Files and the log
// ------------------------------------------------------------------------------------------

#[test]
fn files_are_replaced_whole() {
    let job = WriteJob { path: "/d/f.json".to_string(), pid: 3, nanos: 4 };
    let (stage, action) = write_bytes_atomic(&job);
    assert!(matches!(action, WriteAction::MakeDir(d) if d == "/d"));
    let (stage, action) = write_step(&job, stage, WriteEvent::Outcome(Ok(())));
    assert!(matches!(action, WriteAction::Write(p) if p == "/d/f.json.tmp.3.4"));
    let (stage, action) = write_step(&job, stage, WriteEvent::Outcome(Ok(())));
    assert!(matches!(action, WriteAction::Rename { to, .. } if to == "/d/f.json"));
    let failed = Err(WallpaperError::Io("full".to_string()));
    let (stage, action) = write_step(&job, stage, WriteEvent::Outcome(failed));
    assert!(matches!(action, WriteAction::Remove(p) if p == "/d/f.json.tmp.3.4"));
    let (_, action) = write_step(&job, stage, WriteEvent::Done);
    assert!(matches!(action, WriteAction::Finish(Err(_))));

    let job = WriteJob { path: "/".to_string(), pid: 3, nanos: 4 };
    match write_bytes_atomic(&job).1 {
        WriteAction::Finish(Err(e)) => assert_eq!(e.message(), "Invalid path: /"),
        _ => panic!("the root cannot be written"),
    }
}

#[test]
fn log_is_put_aside_when_it_is_full() {
    let config = LogConfig { path: "/logs/a.log".to_string(), max_bytes: 100 };
    assert_eq!(rotate_log_file(&config, Some(99)), None);
    assert_eq!(rotate_log_file(&config, None), None);
    assert_eq!(rotate_log_file(&config, Some(100)), Some("/logs/a.log.1".to_string()));
    assert_eq!(config.directory(), Some("/logs".to_string()));
    assert!(LogConfig::from_settings(&make_settings()).is_none());
    assert_eq!(log_line("2024-01-01 10:00:00", "hello"), "2024-01-01 10:00:00: hello");
}

#[test]
fn quiet_and_verbose_decide_what_is_shown() {
    let mut settings = make_settings();
    assert_eq!(log_targets(LogKind::Note, &settings), (true, false));
    assert_eq!(log_targets(LogKind::Detail, &settings), (false, false));
    assert_eq!(log_targets(LogKind::Start, &settings), (true, false));
    settings.quiet = false;
    assert_eq!(log_targets(LogKind::Note, &settings), (true, true));
    assert_eq!(log_targets(LogKind::Start, &settings), (true, false));
    settings.verbose = true;
    assert_eq!(log_targets(LogKind::Detail, &settings), (true, true));
}

#[test]
fn failures_of_others_are_told() {
    assert!(ensure_http_success(200, "u").is_ok());
    assert_eq!(ensure_http_success(500, "u").unwrap_err().message(), "Unexpected status 500 from u");
    assert!(ensure_exit_success("osascript", true, Some(0), "").is_ok());
    assert_eq!(
        ensure_exit_success("osascript", false, Some(2), " no ").unwrap_err().message(),
        "osascript failed (exit 2). no"
    );
}

// ------------------------------------------------------------------------------------------
// Versions
// ------------------------------------------------------------------------------------------

#[test]
fn versions_are_raised() {
    assert_eq!(bump_version("1.2.3", BumpKind::Patch).unwrap(), "1.2.4");
    assert_eq!(bump_version("1.2.3", BumpKind::Minor).unwrap(), "1.3.0");
    assert_eq!(bump_version("1.2.3", BumpKind::Major).unwrap(), "2.0.0");
    assert_eq!(bump_version("1.2", BumpKind::Major).unwrap_err(), "Invalid semver: 1.2");
    assert_eq!(bump_version("1.2.x", BumpKind::Major).unwrap_err(), "Invalid semver: 1.2.x");
}

const MANIFEST: &str = "[workspace]\nversion = \"9.9.9\"\n[package]\r\nname = \"x\"\n  version = \"0.1.0\" #  set by hand\n[dependencies]\nversion = \"5\"\n";

#[test]
fn version_is_read_and_written() {
    assert_eq!(read_package_version(MANIFEST).unwrap(), "0.1.0");
    let next = update_cargo_toml(MANIFEST, "0.2.0").unwrap();
    assert_eq!(
        next,
        "[workspace]\nversion = \"9.9.9\"\n[package]\nname = \"x\"\n  version = \"0.2.0\" #set by hand\n[dependencies]\nversion = \"5\"\n"
    );
    assert_eq!(read_package_version(&next).unwrap(), "0.2.0");
    let odd = " 1.0-beta = [é] ";
    let next = update_cargo_toml(MANIFEST, odd).unwrap();
    assert_eq!(read_package_version(&next).unwrap(), odd);
    assert_eq!(
        read_package_version("[package]\n[lib]\nversion = \"1\"\n").unwrap_err(),
        "Could not find package version in Cargo.toml"
    );
    assert_eq!(
        read_package_version("[package]\nversion = \"\"\n").unwrap_err(),
        "Version field is empty"
    );
    assert_eq!(
        update_cargo_toml("[lib]\n", "1.0.0").unwrap_err(),
        "Could not update version in Cargo.toml"
    );
}

#[test]
fn arguments_of_the_bump_are_read() {
    assert_eq!(bump_request(&strings(&[])), BumpRequest::Ask);
    assert_eq!(bump_request(&strings(&["minor"])), BumpRequest::Bump(BumpKind::Minor));
    assert_eq!(bump_request(&strings(&["--help"])), BumpRequest::Help);
    assert_eq!(bump_request(&strings(&["huge"])), BumpRequest::Wrong);
    assert_eq!(bump_request(&strings(&["major", "minor"])), BumpRequest::Wrong);
    assert_eq!(BumpKind::Patch.as_str(), "patch");
}

// ------------------------------------------------------------------------------------------
// Texts and paths
// ------------------------------------------------------------------------------------------

#[test]
fn paths_are_taken_apart() {
    assert_eq!(join_path("/a", "b"), "/a/b");
    assert_eq!(join_path("/a/", "b"), "/a/b");
    assert_eq!(join_path("/a", "/b"), "/b");
    assert_eq!(file_name_of("/a/b.txt/"), Some("b.txt".to_string()));
    assert_eq!(file_name_of("/a/.."), None);
    assert_eq!(parent_of("/a/b"), Some("/a".to_string()));
    assert_eq!(parent_of("a"), Some(String::new()));
    assert_eq!(parent_of("/"), None);
    assert_eq!(extension_of("/a/.hidden"), None);
    assert_eq!(extension_of("/a/b.tar.gz"), Some("gz".to_string()));
    assert_eq!(set_extension("/a/b.tar.gz", "json"), "/a/b.tar.json");
    assert!(path_lies_in("/a/b/c", "/a/b"));
    assert!(!path_lies_in("/a/bc", "/a/b"));
    assert_eq!(expand_tilde("~/x", "/home/me"), "/home/me/x");
    assert_eq!(unique_temp_path("/a/b.jpg", 1, 2), "/a/b.jpg.tmp.1.2");
}

#[test]
fn texts_are_changed() {
    assert_eq!(normalize_whitespace("  a \n\t b  "), "a b");
    assert_eq!(replace("a-b-c", "-", "+"), "a+b+c");
    assert_eq!(split_once("a - b - c", " - "), Some(("a".to_string(), "b - c".to_string())));
    assert_eq!(u64_text(18446744073709551615), "18446744073709551615");
    assert_eq!(parse_number("+12", 20), Some(12));
    assert_eq!(parse_number("21", 20), None);
    assert_eq!(parse_number("", 20), None);
}

//! The configuration file and the command line, and the settings that follow from them.

use crate::date::{Date, date_text, text_of_date};
use crate::model::{
    ConfigSource, Settings, SourceArg, SourceSet, WallpaperSource, map_source, source_of_arg,
    source_of_config,
};
use crate::number::{decimal, is_digit, lemma_decimal, parse_decimal, parse_u32};
use crate::path::{expand_tilde, join_path, path_join, tilde_expanded};
use crate::sources::apod::ApodConfig;
use crate::sources::bing::BingConfig;
use crate::sources::modis::ModisConfig;
use crate::sources::spotlight::SpotlightConfig;
use crate::text::{
    Class, all_ascii, alphanumeric, ascii_lower, begins_with, cut, is_alphanumeric, letters,
    lowercase, opt_text, same, split_once, starts_with, stripped, to_lowercase, trim, trim_end, trim_start, white_space,
};
use vstd::prelude::*;

verus! {

/// What the configuration file says.
#[derive(Debug)]
pub struct AppConfig {
    pub default_source: Option<ConfigSource>,
    pub disabled_sources: Option<Vec<ConfigSource>>,
    pub monitor: Option<usize>,
    pub all_desktops_experimental: Option<bool>,
    pub auto_update_name: Option<String>,
    pub prune_cache_days: Option<u32>,
    pub picture_dir: Option<String>,
    pub favorites_dir: Option<String>,
    pub verbosity: Option<String>,
    pub offline: Option<bool>,
    pub spotlight_index: Option<usize>,
    pub info_wrap_width: Option<usize>,
    pub info_plain_text: Option<bool>,
    pub min_resolution: Option<String>,
    pub log_file: Option<String>,
    pub log_file_max_kb: Option<u64>,
    pub apod_api_key: Option<String>,
    pub country: Option<String>,
    pub resolutions: Option<Vec<String>>,
    pub apod: Option<ApodConfig>,
    pub modis: Option<ModisConfig>,
    pub bing: Option<BingConfig>,
    pub spotlight: Option<SpotlightConfig>,
}

/// What the program is asked to do.
#[derive(Debug, Clone, Copy, PartialEq, Eq, Structural)]
pub enum CommandArg {
    EnableAutoUpdate,
    DisableAutoUpdate,
    EnableDisplaySync,
    DisableDisplaySync,
    DisplaySync,
    Info,
    Choose,
    Reapply,
    AutoUpdateRun,
}

/// What the command line says.
#[derive(Debug)]
pub struct Cli {
    pub command: Option<CommandArg>,
    pub auto_update_name: String,
    pub force: bool,
    pub prune_cache_days: Option<u32>,
    pub ssl: bool,
    pub no_ssl: bool,
    pub quiet: bool,
    pub verbose: bool,
    pub offline: bool,
    pub date: Option<String>,
    pub disable_sources: Vec<SourceArg>,
    pub filename: Option<String>,
    pub picture_dir: Option<String>,
    pub monitor: usize,
    pub all_desktops_experimental: bool,
}

// ------------------------------------------------------------------------------------------
// Values
// ------------------------------------------------------------------------------------------

/// Whether `arg` is the flag, with or without a value behind an equals sign.
pub open spec fn is_flag(arg: Seq<char>, flag: Seq<char>) -> bool {
    arg == flag || begins_with(arg, flag.push('='))
}

/// Whether one of the flags is among the arguments.
pub open spec fn flag_given(args: Seq<String>, flags: Seq<&str>) -> bool {
    exists|i: int, j: int|
        0 <= i < args.len() && 0 <= j < flags.len() && #[trigger] is_flag(args[i]@, flags[j]@)
}

/// Whether one of the flags is among the arguments.
pub fn arg_present(args: &Vec<String>, flags: &Vec<&str>) -> (r: bool)
    ensures
        r == flag_given(args@, flags@),
{
    let mut i: usize = 0;
    while i < args.len()
        invariant
            i <= args@.len(),
            forall|k: int, j: int|
                0 <= k < i && 0 <= j < flags@.len() ==> !#[trigger] is_flag(args@[k]@, flags@[j]@),
        decreases args@.len() - i,
    {
        let mut j: usize = 0;
        while j < flags.len()
            invariant
                i < args@.len(),
                j <= flags@.len(),
                forall|k: int| 0 <= k < j ==> !is_flag(args@[i as int]@, #[trigger] flags@[k]@),
            decreases flags@.len() - j,
        {
            let mut with_value = flags[j].to_string();
            with_value.push('=');
            if same(args[i].as_str(), flags[j]) || starts_with(
                args[i].as_str(),
                with_value.as_str(),
            ) {
                assert(is_flag(args@[i as int]@, flags@[j as int]@));
                return true;
            }
            j += 1;
        }
        i += 1;
    }
    false
}

/// A character of a schedule's name: letters, digits, `-` and `_` stay, others become `-`.
pub open spec fn name_char(c: char) -> char {
    if alphanumeric(c) || c == '-' || c == '_' {
        c
    } else {
        '-'
    }
}

/// The name of a schedule, made fit for file names.
pub open spec fn clean_name(name: Seq<char>) -> Seq<char> {
    let t = stripped(name);
    let base = if t.len() == 0 {
        "default"@
    } else {
        t
    };
    base.map_values(|c: char| name_char(c))
}

/// A name of a schedule that has been made fit for file names stays as it is when it is made fit
/// again.
pub proof fn clean_names_are_stable(name: Seq<char>)
    ensures
        clean_name(clean_name(name)) == clean_name(name),
{
    reveal_strlit("default");
    let r = clean_name(name);
    assert forall|i: int| 0 <= i < r.len() implies !white_space(#[trigger] r[i]) && name_char(r[i])
        == r[i] by {}
    assert(trim_start(r, Class::WhiteSpace) == r);
    assert(trim_end(r, Class::WhiteSpace) == r);
    assert(r.map_values(|c: char| name_char(c)) =~= r);
}

/// The name of a schedule, made fit for file names.
pub fn normalize_auto_update_name(name: &str) -> (r: String)
    ensures
        r@ == clean_name(name@),
        clean_name(r@) == r@,
        r@.len() > 0,
        forall|i: int|
            0 <= i < r@.len() ==> alphanumeric(#[trigger] r@[i]) || r@[i] == '-' || r@[i] == '_',
{
    let cleaned = trim(name);
    let base = if cleaned.as_str().is_empty() {
        "default".to_string()
    } else {
        cleaned
    };
    proof {
        reveal_strlit("default");
        clean_names_are_stable(name@);
    }
    clean_chars(base.as_str())
}

/// Replaces every character that does not fit a file name by `-`.
pub fn clean_chars(s: &str) -> (r: String)
    ensures
        r@ == s@.map_values(|c: char| name_char(c)),
{
    let v = letters(s);
    let mut out = String::new();
    let mut i: usize = 0;
    while i < v.len()
        invariant
            i <= v@.len(),
            out@ == v@.take(i as int).map_values(|c: char| name_char(c)),
        decreases v@.len() - i,
    {
        let c = v[i];
        let ghost before = out@;
        if is_alphanumeric(c) || c == '-' || c == '_' {
            out.push(c);
        } else {
            out.push('-');
        }
        assert(out@ =~= v@.take(i + 1).map_values(|c: char| name_char(c)));
        i += 1;
    }
    assert(v@.take(i as int) =~= v@);
    out
}

/// The width and height that a text such as `1920x1080` gives.
pub open spec fn resolution_of(value: Seq<char>) -> Option<(int, int)> {
    match cut(lowercase(stripped(value)), "x"@) {
        Some((w, h)) => match (
            parse_decimal(stripped(w), u32::MAX as int),
            parse_decimal(stripped(h), u32::MAX as int),
        ) {
            (Some(w), Some(h)) => Some((w, h)),
            _ => None,
        },
        None => None,
    }
}

/// A pair of sizes as numbers.
pub open spec fn sizes(r: Option<(u32, u32)>) -> Option<(int, int)> {
    match r {
        Some((w, h)) => Some((w as int, h as int)),
        None => None,
    }
}

/// The width and height that a text such as `1920x1080` gives.
pub fn parse_resolution(value: &str) -> (r: Option<(u32, u32)>)
    ensures
        sizes(r) == resolution_of(value@),
{
    let normalized = to_lowercase(trim(value).as_str());
    match split_once(normalized.as_str(), "x") {
        Some((w, h)) => match (
            parse_u32(trim(w.as_str()).as_str()),
            parse_u32(trim(h.as_str()).as_str()),
        ) {
            (Some(w), Some(h)) => Some((w, h)),
            _ => None,
        },
        None => None,
    }
}

/// The sources that the configuration or the command line switches off.
pub fn resolve_disabled_sources(config: Option<&AppConfig>, cli_sources: &Vec<SourceArg>) -> (r:
    SourceSet)
    ensures
        forall|s: WallpaperSource| #[trigger]
            r.has(s) <==> disabled_in_config(config, s) || disabled_in_args(cli_sources@, s),
{
    let mut disabled = SourceSet::new();
    if let Some(cfg) = config {
        if let Some(list) = &cfg.disabled_sources {
            let mut i: usize = 0;
            while i < list.len()
                invariant
                    i <= list@.len(),
                    forall|s: WallpaperSource| #[trigger]
                        disabled.has(s) <==> exists|k: int|
                            0 <= k < i && source_of_config(#[trigger] list@[k]) == s,
                decreases list@.len() - i,
            {
                let ghost before = disabled;
                disabled.insert(map_source(SourceArg::from(list[i])));
                assert forall|s: WallpaperSource| #[trigger] disabled.has(s) <==> exists|k: int|
                    0 <= k < i + 1 && source_of_config(#[trigger] list@[k]) == s by {
                    if before.has(s) {
                        let k = choose|k: int|
                            0 <= k < i && source_of_config(#[trigger] list@[k]) == s;
                        assert(source_of_config(list@[k]) == s);
                    }
                    assert(source_of_config(list@[i as int]) == source_of_config(list@[i as int]));
                }
                i += 1;
            }
        }
    }
    let mut i: usize = 0;
    while i < cli_sources.len()
        invariant
            i <= cli_sources@.len(),
            forall|s: WallpaperSource| #[trigger]
                disabled.has(s) <==> disabled_in_config(config, s) || exists|k: int|
                    0 <= k < i && source_of_arg(#[trigger] cli_sources@[k]) == s,
        decreases cli_sources@.len() - i,
    {
        let ghost before = disabled;
        disabled.insert(map_source(cli_sources[i]));
        assert forall|s: WallpaperSource| #[trigger] disabled.has(s) <==> disabled_in_config(
            config,
            s,
        ) || exists|k: int|
            0 <= k < i + 1 && source_of_arg(#[trigger] cli_sources@[k]) == s by {
            if before.has(s) && !disabled_in_config(config, s) {
                let k = choose|k: int|
                    0 <= k < i && source_of_arg(#[trigger] cli_sources@[k]) == s;
                assert(source_of_arg(cli_sources@[k]) == s);
            }
            assert(source_of_arg(cli_sources@[i as int]) == source_of_arg(cli_sources@[i as int]));
        }
        i += 1;
    }
    disabled
}

/// Whether the configuration switches a source off.
pub open spec fn disabled_in_config(config: Option<&AppConfig>, source: WallpaperSource) -> bool {
    match config {
        Some(cfg) => match cfg.disabled_sources {
            Some(list) => exists|k: int|
                0 <= k < list@.len() && source_of_config(#[trigger] list@[k]) == source,
            None => false,
        },
        None => false,
    }
}

/// Whether the command line switches a source off.
pub open spec fn disabled_in_args(list: Seq<SourceArg>, source: WallpaperSource) -> bool {
    exists|k: int| 0 <= k < list.len() && source_of_arg(#[trigger] list[k]) == source
}

// ------------------------------------------------------------------------------------------
// Settings
// ------------------------------------------------------------------------------------------

/// How much is logged, as a text such as `quiet` asks for it: whether quietly, whether verbosely.
pub open spec fn verbosity_of(
    args_quiet: bool,
    args_verbose: bool,
    asked: Option<Seq<char>>,
) -> (bool, bool) {
    if args_quiet || args_verbose {
        (args_quiet, args_verbose)
    } else {
        match asked {
            Some(text) => if lowercase(text) == "quiet"@ {
                (true, false)
            } else if lowercase(text) == "verbose"@ {
                (false, true)
            } else {
                (false, false)
            },
            None => (false, false),
        }
    }
}

/// The directory of the wallpapers, before a leading `~` is expanded.
pub open spec fn picture_dir_of(
    args: Cli,
    raw: Seq<String>,
    config: Option<&AppConfig>,
    home: Seq<char>,
) -> Seq<char> {
    let configured = match config {
        Some(cfg) => opt_text(cfg.picture_dir),
        None => None,
    };
    let from_args = opt_text(args.picture_dir);
    let default = path_join(path_join(home, "Pictures"@), "daily-wallpapers"@);
    if flag_given(raw, seq!["-p", "--picturedir"]) || configured is None {
        match from_args {
            Some(dir) => dir,
            None => default,
        }
    } else {
        configured.unwrap()
    }
}

/// Whether `r` are the settings that the command line and the configuration ask for. What is
/// given on the command line goes before the configuration.
pub open spec fn settings_follow(
    r: Settings,
    args: Cli,
    raw: Seq<String>,
    config: Option<&AppConfig>,
    home: Seq<char>,
) -> bool {
    &&& r.proto@ == if args.ssl && !args.no_ssl {
        "https"@
    } else {
        "http"@
    }
    &&& r.picture_dir@ == tilde_expanded(picture_dir_of(args, raw, config, home), home)
    &&& r.favorites_dir@ == tilde_expanded(
        match config {
            Some(cfg) => match cfg.favorites_dir {
                Some(dir) => dir@,
                None => path_join(r.picture_dir@, "favorites"@),
            },
            None => path_join(r.picture_dir@, "favorites"@),
        },
        home,
    )
    &&& r.auto_update_name@ == clean_name(
        match config {
            Some(cfg) => match cfg.auto_update_name {
                Some(name) if !flag_given(
                    raw,
                    seq!["--auto-update-name", "--auto_update_name"],
                ) => name@,
                _ => args.auto_update_name@,
            },
            None => args.auto_update_name@,
        },
    )
    &&& r.monitor == match config {
        Some(cfg) => match cfg.monitor {
            Some(m) if !flag_given(raw, seq!["-m", "--monitor"]) => m,
            _ => args.monitor,
        },
        None => args.monitor,
    }
    &&& r.force == args.force
    &&& r.offline == match config {
        Some(cfg) => match cfg.offline {
            Some(b) if !flag_given(raw, seq!["--offline"]) => b,
            _ => args.offline,
        },
        None => args.offline,
    }
    &&& (r.quiet, r.verbose) == verbosity_of(
        args.quiet,
        args.verbose,
        match config {
            Some(cfg) => opt_text(cfg.verbosity),
            None => None,
        },
    )
    &&& r.experimental == (args.all_desktops_experimental || match config {
        Some(cfg) => cfg.all_desktops_experimental == Some(true),
        None => false,
    })
    &&& opt_text(r.filename) == opt_text(args.filename)
    &&& r.source == match config {
        Some(cfg) => match cfg.default_source {
            Some(s) => source_of_config(s),
            None => WallpaperSource::Bing,
        },
        None => WallpaperSource::Bing,
    }
    &&& r.prune_cache_days == match config {
        Some(cfg) => match cfg.prune_cache_days {
            Some(n) if !flag_given(raw, seq!["--prune-cache-days"]) => Some(n),
            _ => args.prune_cache_days,
        },
        None => args.prune_cache_days,
    }
    &&& r.info_wrap_width == match config {
        Some(cfg) => match cfg.info_wrap_width {
            Some(n) if n < 20 => 20,
            Some(n) => n,
            None => 80,
        },
        None => 80,
    }
    &&& r.info_plain_text == match config {
        Some(cfg) => cfg.info_plain_text == Some(true),
        None => false,
    }
    &&& r.refresh_metadata
    &&& sizes(r.min_resolution) == match config {
        Some(cfg) => match cfg.min_resolution {
            Some(text) => resolution_of(text@),
            None => None,
        },
        None => None,
    }
    &&& opt_text(r.log_file) == match config {
        Some(cfg) => match cfg.log_file {
            Some(path) => Some(tilde_expanded(path@, home)),
            None => None,
        },
        None => None,
    }
    &&& r.log_file_max_bytes == match config {
        Some(cfg) => match cfg.log_file_max_kb {
            Some(kb) => if kb * 1024 > u64::MAX {
                u64::MAX as int
            } else {
                kb * 1024
            },
            None => 5242880,
        },
        None => 5242880,
    }
    &&& forall|s: WallpaperSource| #[trigger]
        r.disabled_sources.has(s) <==> disabled_in_config(config, s) || disabled_in_args(
            args.disable_sources@,
            s,
        )
    &&& r.date_override is None
}

/// The settings that the command line and the configuration ask for.
pub fn resolve_settings(
    args: &Cli,
    raw: &Vec<String>,
    config: Option<&AppConfig>,
    home: &str,
) -> (r: Settings)
    ensures
        settings_follow(r, *args, raw@, config, home@),
{
    let monitor_flags = vec!["-m", "--monitor"];
    let name_flags = vec!["--auto-update-name", "--auto_update_name"];
    let prune_flags = vec!["--prune-cache-days"];
    let offline_flags = vec!["--offline"];
    let monitor_given = arg_present(raw, &monitor_flags);
    let name_given = arg_present(raw, &name_flags);
    let prune_given = arg_present(raw, &prune_flags);
    let offline_given = arg_present(raw, &offline_flags);
    assert(monitor_flags@ =~= seq!["-m", "--monitor"]);
    assert(name_flags@ =~= seq!["--auto-update-name", "--auto_update_name"]);
    assert(prune_flags@ =~= seq!["--prune-cache-days"]);
    assert(offline_flags@ =~= seq!["--offline"]);

    let mut monitor = args.monitor;
    let mut offline = args.offline;
    let mut prune_cache_days = args.prune_cache_days;
    let mut auto_update_name = args.auto_update_name.clone();
    let mut experimental = args.all_desktops_experimental;
    let mut source = WallpaperSource::Bing;
    let mut info_wrap_width: usize = 80;
    let mut info_plain_text = false;
    let mut min_resolution: Option<(u32, u32)> = None;
    let mut log_file: Option<String> = None;
    let mut log_file_max_bytes: u64 = 5242880;
    if let Some(cfg) = config {
        if let Some(m) = cfg.monitor {
            if !monitor_given {
                monitor = m;
            }
        }
        if let Some(b) = cfg.offline {
            if !offline_given {
                offline = b;
            }
        }
        if let Some(n) = cfg.prune_cache_days {
            if !prune_given {
                prune_cache_days = Some(n);
            }
        }
        if let Some(name) = &cfg.auto_update_name {
            if !name_given {
                auto_update_name = name.clone();
            }
        }
        if let Some(b) = cfg.all_desktops_experimental {
            experimental = experimental || b;
        }
        if let Some(s) = cfg.default_source {
            source = map_source(SourceArg::from(s));
        }
        if let Some(n) = cfg.info_wrap_width {
            info_wrap_width = if n < 20 {
                20
            } else {
                n
            };
        }
        if let Some(b) = cfg.info_plain_text {
            info_plain_text = b;
        }
        if let Some(text) = &cfg.min_resolution {
            min_resolution = parse_resolution(text.as_str());
        }
        if let Some(path) = &cfg.log_file {
            log_file = Some(expand_tilde(path.as_str(), home));
        }
        if let Some(kb) = cfg.log_file_max_kb {
            log_file_max_bytes = if kb > u64::MAX / 1024 {
                u64::MAX
            } else {
                kb * 1024
            };
        }
    }
    let (quiet, verbose) = resolve_verbosity(args, config);
    let picture_dir = resolve_picture_dir(args, raw, config, home);
    let favorites_dir = resolve_favorites_dir(config, picture_dir.as_str(), home);
    Settings {
        proto: if args.ssl && !args.no_ssl {
            "https".to_string()
        } else {
            "http".to_string()
        },
        picture_dir,
        favorites_dir,
        auto_update_name: normalize_auto_update_name(auto_update_name.as_str()),
        monitor,
        force: args.force,
        offline,
        verbose,
        quiet,
        experimental,
        filename: args.filename.clone(),
        source,
        prune_cache_days,
        info_wrap_width,
        info_plain_text,
        refresh_metadata: true,
        min_resolution,
        log_file,
        log_file_max_bytes,
        disabled_sources: resolve_disabled_sources(config, &args.disable_sources),
        date_override: None,
    }
}

fn resolve_verbosity(args: &Cli, config: Option<&AppConfig>) -> (r: (bool, bool))
    ensures
        r == verbosity_of(
            args.quiet,
            args.verbose,
            match config {
                Some(cfg) => opt_text(cfg.verbosity),
                None => None,
            },
        ),
{
    if args.quiet || args.verbose {
        return (args.quiet, args.verbose);
    }
    if let Some(cfg) = config {
        if let Some(text) = &cfg.verbosity {
            let lower = to_lowercase(text.as_str());
            if same(lower.as_str(), "quiet") {
                return (true, false);
            }
            if same(lower.as_str(), "verbose") {
                return (false, true);
            }
        }
    }
    (false, false)
}

/// The directory that wallpapers are kept in where none is configured.
pub fn default_picture_dir(home: &str) -> (r: String)
    ensures
        r@ == path_join(path_join(home@, "Pictures"@), "daily-wallpapers"@),
{
    join_path(join_path(home, "Pictures").as_str(), "daily-wallpapers")
}

/// The directory that favorites are kept in where none is configured.
pub fn default_favorites_dir(picture_dir: &str) -> (r: String)
    ensures
        r@ == path_join(picture_dir@, "favorites"@),
{
    join_path(picture_dir, "favorites")
}

fn resolve_picture_dir(
    args: &Cli,
    raw: &Vec<String>,
    config: Option<&AppConfig>,
    home: &str,
) -> (r: String)
    ensures
        r@ == tilde_expanded(picture_dir_of(*args, raw@, config, home@), home@),
{
    let flags = vec!["-p", "--picturedir"];
    let given = arg_present(raw, &flags);
    assert(flags@ =~= seq!["-p", "--picturedir"]);
    if !given {
        if let Some(cfg) = config {
            if let Some(dir) = &cfg.picture_dir {
                return expand_tilde(dir.as_str(), home);
            }
        }
    }
    match &args.picture_dir {
        Some(dir) => expand_tilde(dir.as_str(), home),
        None => expand_tilde(default_picture_dir(home).as_str(), home),
    }
}

fn resolve_favorites_dir(config: Option<&AppConfig>, picture_dir: &str, home: &str) -> (r: String)
    ensures
        r@ == tilde_expanded(
            match config {
                Some(cfg) => match cfg.favorites_dir {
                    Some(dir) => dir@,
                    None => path_join(picture_dir@, "favorites"@),
                },
                None => path_join(picture_dir@, "favorites"@),
            },
            home@,
        ),
{
    if let Some(cfg) = config {
        if let Some(dir) = &cfg.favorites_dir {
            return expand_tilde(dir.as_str(), home);
        }
    }
    expand_tilde(default_favorites_dir(picture_dir).as_str(), home)
}

/// The settings of a run that looks at the cache of one day: nothing is downloaded, every source
/// is asked for that day, and nothing else is different.
pub open spec fn on_date(settings: Settings, date: Date) -> Settings {
    Settings { offline: true, date_override: Some(date), ..settings }
}

/// The settings of a run that looks at the cache of one day.
pub fn settings_with_date_override(settings: &Settings, date: Date) -> (r: Settings)
    ensures
        r == on_date(*settings, date),
{
    let mut dated = settings.clone();
    dated.offline = true;
    dated.date_override = Some(date);
    dated
}

/// What is logged when a picked day forces offline mode; nothing where it is on already.
pub fn date_override_note(settings: &Settings, date: Date) -> (r: Option<String>)
    requires
        date.valid(),
    ensures
        opt_text(r) == if settings.offline {
            None
        } else {
            Some("Offline mode forced because --date "@ + date_text(date) + " was used."@)
        },
{
    if settings.offline {
        return None;
    }
    let mut text = "Offline mode forced because --date ".to_string();
    text.append(text_of_date(date).as_str());
    text.append(" was used.");
    Some(text)
}

/// Whether an argument is the flag, or the flag with a value behind an equals sign.
pub open spec fn gives(arg: Seq<char>, flag: Seq<char>) -> bool {
    arg == flag || (arg.len() > flag.len() && arg.take(flag.len() as int) == flag
        && arg[flag.len() as int] == '=')
}

proof fn lemma_gives(arg: Seq<char>, flag: Seq<char>)
    ensures
        is_flag(arg, flag) == gives(arg, flag),
{
    let p = flag.push('=');
    if arg.len() > flag.len() {
        if arg.subrange(0, p.len() as int) == p {
            assert(arg.take(flag.len() as int) =~= flag) by {
                assert forall|i: int| 0 <= i < flag.len() implies arg[i] == flag[i] by {
                    assert(arg.subrange(0, p.len() as int)[i] == p[i]);
                }
            }
            assert(arg.subrange(0, p.len() as int)[flag.len() as int] == '=');
        }
        if arg.take(flag.len() as int) == flag && arg[flag.len() as int] == '=' {
            assert(arg.subrange(0, p.len() as int) =~= p) by {
                assert forall|i: int| 0 <= i < p.len() implies arg[i] == p[i] by {
                    if i < flag.len() {
                        assert(arg.take(flag.len() as int)[i] == flag[i]);
                    }
                }
            }
        }
    }
}

/// A flag is given exactly where one of the arguments is one of its spellings, with or without a
/// value behind an equals sign.
pub proof fn flags_are_found_by_their_spellings(args: Seq<String>, flags: Seq<&str>)
    ensures
        flag_given(args, flags) <==> exists|i: int, j: int|
            0 <= i < args.len() && 0 <= j < flags.len() && #[trigger] gives(
                args[i]@,
                flags[j]@,
            ),
{
    if flag_given(args, flags) {
        let (i, j) = choose|i: int, j: int|
            0 <= i < args.len() && 0 <= j < flags.len() && #[trigger] is_flag(
                args[i]@,
                flags[j]@,
            );
        lemma_gives(args[i]@, flags[j]@);
        assert(gives(args[i]@, flags[j]@));
    }
    if exists|i: int, j: int|
        0 <= i < args.len() && 0 <= j < flags.len() && #[trigger] gives(args[i]@, flags[j]@) {
        let (i, j) = choose|i: int, j: int|
            0 <= i < args.len() && 0 <= j < flags.len() && #[trigger] gives(args[i]@, flags[j]@);
        lemma_gives(args[i]@, flags[j]@);
        assert(is_flag(args[i]@, flags[j]@));
    }
}

/// What is given on the command line goes before the configuration, and that before what holds
/// without both.
pub proof fn command_line_goes_first(
    r: Settings,
    args: Cli,
    raw: Seq<String>,
    cfg: &AppConfig,
    home: Seq<char>,
)
    requires
        settings_follow(r, args, raw, Some(cfg), home),
    ensures
        flag_given(raw, seq!["-m", "--monitor"]) || cfg.monitor is None ==> r.monitor
            == args.monitor,
        !flag_given(raw, seq!["-m", "--monitor"]) && cfg.monitor is Some ==> Some(r.monitor)
            == cfg.monitor,
        flag_given(raw, seq!["--offline"]) || cfg.offline is None ==> r.offline == args.offline,
        !flag_given(raw, seq!["--offline"]) && cfg.offline is Some ==> Some(r.offline)
            == cfg.offline,
        flag_given(raw, seq!["--prune-cache-days"]) || cfg.prune_cache_days is None
            ==> r.prune_cache_days == args.prune_cache_days,
        !flag_given(raw, seq!["--prune-cache-days"]) && cfg.prune_cache_days is Some
            ==> r.prune_cache_days == cfg.prune_cache_days,
        args.all_desktops_experimental ==> r.experimental,
        !args.all_desktops_experimental ==> r.experimental == (cfg.all_desktops_experimental
            == Some(true)),
        r.force == args.force,
        args.quiet ==> r.quiet,
        args.verbose ==> r.verbose,
        args.no_ssl ==> r.proto@ == "http"@,
        args.ssl && !args.no_ssl ==> r.proto@ == "https"@,
        cfg.info_wrap_width matches Some(n) ==> r.info_wrap_width >= 20 && (n >= 20
            ==> r.info_wrap_width == n),
        cfg.info_wrap_width is None ==> r.info_wrap_width == 80,
        cfg.log_file_max_kb matches Some(kb) ==> (kb < 1000000000 ==> r.log_file_max_bytes == kb
            * 1024),
        cfg.default_source is None ==> r.source is Bing,
        cfg.default_source == Some(ConfigSource::Spotlight) ==> r.source is Spotlight,
        cfg.default_source == Some(ConfigSource::Apod) ==> r.source is Apod,
        cfg.default_source == Some(ConfigSource::Modis) ==> r.source is Modis,
        r.date_override is None,
{
}

/// The wallpapers lie where the command line says, or else the configuration, or else below the
/// pictures of the user; the favorites lie among them unless the configuration says otherwise.
pub proof fn directories_are_taken_in_turn(
    r: Settings,
    args: Cli,
    raw: Seq<String>,
    config: Option<&AppConfig>,
    home: Seq<char>,
)
    requires
        settings_follow(r, args, raw, config, home),
    ensures
        config is None && args.picture_dir is None ==> r.picture_dir@ == tilde_expanded(
            path_join(path_join(home, "Pictures"@), "daily-wallpapers"@),
            home,
        ),
        flag_given(raw, seq!["-p", "--picturedir"]) && args.picture_dir is Some ==> r.picture_dir@
            == tilde_expanded(args.picture_dir.unwrap()@, home),
        (config matches Some(cfg) && cfg.picture_dir is Some && !flag_given(
            raw,
            seq!["-p", "--picturedir"],
        )) ==> r.picture_dir@ == tilde_expanded(config.unwrap().picture_dir.unwrap()@, home),
        (config matches Some(cfg) ==> cfg.favorites_dir is None) ==> r.favorites_dir@
            == tilde_expanded(path_join(r.picture_dir@, "favorites"@), home),
        (config matches Some(cfg) && cfg.favorites_dir is Some) ==> r.favorites_dir@
            == tilde_expanded(config.unwrap().favorites_dir.unwrap()@, home),
{
}

/// A source is switched off exactly where the configuration or the command line names it.
pub proof fn sources_are_switched_off_by_name(
    r: Settings,
    args: Cli,
    raw: Seq<String>,
    config: Option<&AppConfig>,
    home: Seq<char>,
)
    requires
        settings_follow(r, args, raw, config, home),
    ensures
        args.disable_sources@.contains(SourceArg::Bing) ==> r.disabled_sources.bing,
        args.disable_sources@.contains(SourceArg::Spotlight) ==> r.disabled_sources.spotlight,
        args.disable_sources@.contains(SourceArg::Apod) ==> r.disabled_sources.apod,
        args.disable_sources@.contains(SourceArg::Modis) ==> r.disabled_sources.modis,
        (config matches Some(cfg) ==> cfg.disabled_sources is None) ==> {
            &&& r.disabled_sources.bing == args.disable_sources@.contains(SourceArg::Bing)
            &&& r.disabled_sources.spotlight == args.disable_sources@.contains(SourceArg::Spotlight)
            &&& r.disabled_sources.apod == args.disable_sources@.contains(SourceArg::Apod)
            &&& r.disabled_sources.modis == args.disable_sources@.contains(SourceArg::Modis)
        },
        (config matches Some(cfg) && (cfg.disabled_sources matches Some(l) && l@.contains(
            ConfigSource::Bing,
        ))) ==> r.disabled_sources.bing,
        (config matches Some(cfg) && (cfg.disabled_sources matches Some(l) && l@.contains(
            ConfigSource::Apod,
        ))) ==> r.disabled_sources.apod,
        (config matches Some(cfg) && (cfg.disabled_sources matches Some(l) && l@.contains(
            ConfigSource::Spotlight,
        ))) ==> r.disabled_sources.spotlight,
        (config matches Some(cfg) && (cfg.disabled_sources matches Some(l) && l@.contains(
            ConfigSource::Modis,
        ))) ==> r.disabled_sources.modis,
{
    let d = r.disabled_sources;
    let list = args.disable_sources@;
    lemma_arg_off(list, SourceArg::Bing);
    lemma_arg_off(list, SourceArg::Spotlight);
    lemma_arg_off(list, SourceArg::Apod);
    lemma_arg_off(list, SourceArg::Modis);
    assert(d.has(WallpaperSource::Bing) == d.bing);
    assert(d.has(WallpaperSource::Spotlight) == d.spotlight);
    assert(d.has(WallpaperSource::Apod) == d.apod);
    assert(d.has(WallpaperSource::Modis) == d.modis);
    if let Some(cfg) = config {
        if let Some(l) = cfg.disabled_sources {
            lemma_config_off(l@, ConfigSource::Bing);
            lemma_config_off(l@, ConfigSource::Spotlight);
            lemma_config_off(l@, ConfigSource::Apod);
            lemma_config_off(l@, ConfigSource::Modis);
        }
    }
}

proof fn lemma_arg_off(list: Seq<SourceArg>, arg: SourceArg)
    ensures
        disabled_in_args(list, source_of_arg(arg)) <==> list.contains(arg),
{
    if list.contains(arg) {
        let k = choose|k: int| 0 <= k < list.len() && list[k] == arg;
        assert(source_of_arg(list[k]) == source_of_arg(arg));
    }
    if disabled_in_args(list, source_of_arg(arg)) {
        let k = choose|k: int|
            0 <= k < list.len() && source_of_arg(#[trigger] list[k]) == source_of_arg(arg);
        assert(list[k] == arg);
    }
}

proof fn lemma_config_off(list: Seq<ConfigSource>, arg: ConfigSource)
    ensures
        list.contains(arg) ==> exists|k: int|
            0 <= k < list.len() && source_of_config(#[trigger] list[k]) == source_of_config(arg),
{
    if list.contains(arg) {
        let k = choose|k: int| 0 <= k < list.len() && list[k] == arg;
        assert(source_of_config(list[k]) == source_of_config(arg));
    }
}

/// A size is read as it is written: the width before the `x`, the height behind it.
pub proof fn sizes_are_read_as_written(width: nat, height: nat)
    requires
        width <= u32::MAX,
        height <= u32::MAX,
    ensures
        resolution_of(decimal(width) + "x"@ + decimal(height)) == Some(
            (width as int, height as int),
        ),
{
    reveal_strlit("x");
    let a = decimal(width);
    let b = decimal(height);
    let s = a + "x"@ + b;
    let n = a.len() as int;
    lemma_decimal(width);
    lemma_decimal(height);
    assert forall|i: int| 0 <= i < s.len() implies (#[trigger] s[i] as u32) < 128 && !white_space(
        s[i],
    ) && ascii_lower(s[i]) == s[i] && (i != n ==> s[i] != 'x') by {
        if i < n {
            assert(s[i] == a[i]);
            assert(is_digit(a[i]));
        } else if i > n {
            assert(s[i] == b[i - n - 1]);
            assert(is_digit(b[i - n - 1]));
        }
    }
    lemma_not_trimmed(s);
    lemma_not_trimmed(a);
    lemma_not_trimmed(b);
    assert(all_ascii(s));
    assert(lowercase(s) =~= s);
    crate::text::lemma_find_from(s, "x"@, 0);
    assert(s.subrange(n, n + 1) =~= "x"@);
    assert(crate::text::occurs_at(s, "x"@, n));
    assert forall|i: int| 0 <= i < n implies !crate::text::occurs_at(s, "x"@, i) by {
        if crate::text::occurs_at(s, "x"@, i) {
            assert(s.subrange(i, i + 1)[0] == 'x');
        }
    }
    assert(s.take(n) =~= a);
    assert(s.skip(n + 1) =~= b);
    crate::number::decimal_reads_back(width, u32::MAX as int);
    crate::number::decimal_reads_back(height, u32::MAX as int);
}

proof fn lemma_not_trimmed(s: Seq<char>)
    requires
        s.len() > 0,
        !white_space(s[0]),
        !white_space(s.last()),
    ensures
        stripped(s) == s,
{
    assert(trim_start(s, Class::WhiteSpace) == s);
    assert(trim_end(s, Class::WhiteSpace) == s);
}

/// A day of the cache is looked at with the settings as they are, but offline and for that day.
pub proof fn day_is_looked_at_with_the_same_settings(s: Settings, date: Date)
    ensures
        on_date(s, date).offline,
        on_date(s, date).date_override == Some(date),
        on_date(s, date).picture_dir == s.picture_dir,
        on_date(s, date).favorites_dir == s.favorites_dir,
        on_date(s, date).source == s.source,
        on_date(s, date).force == s.force,
        on_date(s, date).min_resolution == s.min_resolution,
        on_date(s, date).monitor == s.monitor,
        on_date(s, date).disabled_sources == s.disabled_sources,
        on_date(s, date).prune_cache_days == s.prune_cache_days,
        on_date(s, date).experimental == s.experimental,
        on_date(s, date).quiet == s.quiet,
        on_date(s, date).verbose == s.verbose,
{
}

/// Without a configuration the command line counts, and the usual values stand in for the rest.
pub proof fn usual_values_stand_in(r: Settings, args: Cli, raw: Seq<String>, home: Seq<char>)
    requires
        settings_follow(r, args, raw, None, home),
    ensures
        r.monitor == args.monitor,
        r.offline == args.offline,
        r.prune_cache_days == args.prune_cache_days,
        r.experimental == args.all_desktops_experimental,
        r.force == args.force,
        r.quiet == args.quiet,
        r.verbose == args.verbose,
        r.source is Bing,
        r.info_wrap_width == 80,
        !r.info_plain_text,
        r.refresh_metadata,
        r.min_resolution is None,
        r.log_file is None,
        r.log_file_max_bytes == 5242880,
        opt_text(r.filename) == opt_text(args.filename),
{
}

/// How much is told is asked for on the command line, or else by a word of the configuration.
pub proof fn word_asks_how_much_is_told(
    r: Settings,
    args: Cli,
    raw: Seq<String>,
    cfg: &AppConfig,
    home: Seq<char>,
    word: String,
)
    requires
        settings_follow(r, args, raw, Some(cfg), home),
        cfg.verbosity == Some(word),
    ensures
        args.quiet || args.verbose ==> r.quiet == args.quiet && r.verbose == args.verbose,
        !args.quiet && !args.verbose ==> (r.quiet <==> lowercase(word@) == "quiet"@) && (r.verbose
            <==> lowercase(word@) == "verbose"@),
{
    reveal_strlit("quiet");
    reveal_strlit("verbose");
    assert("quiet"@.len() != "verbose"@.len());
}

/// The job has the name of the configuration, unless the command line gives one; a size, a log file
/// and plain texts are asked for in the configuration alone.
pub proof fn configuration_names_the_job(
    r: Settings,
    args: Cli,
    raw: Seq<String>,
    cfg: &AppConfig,
    home: Seq<char>,
)
    requires
        settings_follow(r, args, raw, Some(cfg), home),
    ensures
        cfg.auto_update_name matches Some(name) ==> !flag_given(
            raw,
            seq!["--auto-update-name", "--auto_update_name"],
        ) ==> r.auto_update_name@ == clean_name(name@),
        cfg.auto_update_name is None || flag_given(
            raw,
            seq!["--auto-update-name", "--auto_update_name"],
        ) ==> r.auto_update_name@ == clean_name(args.auto_update_name@),
        cfg.min_resolution matches Some(text) ==> sizes(r.min_resolution) == resolution_of(text@),
        cfg.min_resolution is None ==> r.min_resolution is None,
        cfg.log_file matches Some(path) ==> opt_text(r.log_file) == Some(
            tilde_expanded(path@, home),
        ),
        cfg.log_file is None ==> r.log_file is None,
        r.info_plain_text == (cfg.info_plain_text == Some(true)),
        r.refresh_metadata,
{
}

/// A name of letters, digits, hyphens and underscores is kept as it is; one that says nothing
/// becomes the usual one.
pub proof fn plain_names_are_kept(name: Seq<char>)
    ensures
        stripped(name).len() == 0 ==> clean_name(name) == "default"@,
        name.len() > 0 && stripped(name) == name && (forall|i: int|
            0 <= i < name.len() ==> alphanumeric(#[trigger] name[i]) || name[i] == '-' || name[i]
                == '_') ==> clean_name(name) == name,
{
    reveal_strlit("default");
    assert("default"@.map_values(|c: char| name_char(c)) =~= "default"@);
    if forall|i: int|
        0 <= i < name.len() ==> alphanumeric(#[trigger] name[i]) || name[i] == '-' || name[i]
            == '_' {
        assert(name.map_values(|c: char| name_char(c)) =~= name);
    }
}

} // verus!

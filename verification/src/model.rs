//! The data of the program: sources, candidates, settings.

use crate::date::Date;
use crate::text::opt_text;
use vstd::prelude::*;

verus! {

// ------------------------------------------------------------------------------------------
// Sources
// ------------------------------------------------------------------------------------------

/// Where a wallpaper comes from.
#[derive(Debug, Clone, Copy, PartialEq, Eq, Structural, Hash)]
pub enum WallpaperSource {
    Bing,
    Spotlight,
    Apod,
    Modis,
}

/// A source as the configuration file names it.
#[derive(Debug, Clone, Copy, PartialEq, Eq, Structural)]
pub enum ConfigSource {
    Bing,
    Spotlight,
    Apod,
    Modis,
}

/// A source as the command line names it.
#[derive(Debug, Clone, Copy, PartialEq, Eq, Structural)]
pub enum SourceArg {
    Bing,
    Spotlight,
    Apod,
    Modis,
}

impl From<ConfigSource> for SourceArg {
    fn from(value: ConfigSource) -> (r: Self) {
        match value {
            ConfigSource::Bing => SourceArg::Bing,
            ConfigSource::Spotlight => SourceArg::Spotlight,
            ConfigSource::Apod => SourceArg::Apod,
            ConfigSource::Modis => SourceArg::Modis,
        }
    }
}

impl vstd::std_specs::convert::FromSpecImpl<ConfigSource> for SourceArg {
    open spec fn obeys_from_spec() -> bool {
        true
    }

    open spec fn from_spec(value: ConfigSource) -> Self {
        match value {
            ConfigSource::Bing => SourceArg::Bing,
            ConfigSource::Spotlight => SourceArg::Spotlight,
            ConfigSource::Apod => SourceArg::Apod,
            ConfigSource::Modis => SourceArg::Modis,
        }
    }
}

/// The source that the command line names.
pub open spec fn source_of_arg(source: SourceArg) -> WallpaperSource {
    match source {
        SourceArg::Bing => WallpaperSource::Bing,
        SourceArg::Spotlight => WallpaperSource::Spotlight,
        SourceArg::Apod => WallpaperSource::Apod,
        SourceArg::Modis => WallpaperSource::Modis,
    }
}

/// The source that the configuration file names.
pub open spec fn source_of_config(source: ConfigSource) -> WallpaperSource {
    match source {
        ConfigSource::Bing => WallpaperSource::Bing,
        ConfigSource::Spotlight => WallpaperSource::Spotlight,
        ConfigSource::Apod => WallpaperSource::Apod,
        ConfigSource::Modis => WallpaperSource::Modis,
    }
}

/// The source that the command line names.
pub fn map_source(source: SourceArg) -> (r: WallpaperSource)
    ensures
        r == source_of_arg(source),
{
    match source {
        SourceArg::Bing => WallpaperSource::Bing,
        SourceArg::Spotlight => WallpaperSource::Spotlight,
        SourceArg::Apod => WallpaperSource::Apod,
        SourceArg::Modis => WallpaperSource::Modis,
    }
}

/// The name of a source's directory in the cache.
pub open spec fn dir_name(source: WallpaperSource) -> Seq<char> {
    match source {
        WallpaperSource::Bing => "bing"@,
        WallpaperSource::Spotlight => "spotlight"@,
        WallpaperSource::Apod => "apod"@,
        WallpaperSource::Modis => "modis"@,
    }
}

/// The name of a source's directory in the cache.
pub fn source_dir_name(source: WallpaperSource) -> (r: &'static str)
    ensures
        r@ == dir_name(source),
{
    match source {
        WallpaperSource::Bing => "bing",
        WallpaperSource::Spotlight => "spotlight",
        WallpaperSource::Apod => "apod",
        WallpaperSource::Modis => "modis",
    }
}

/// A source's name as users see it.
pub open spec fn label(source: WallpaperSource) -> Seq<char> {
    match source {
        WallpaperSource::Bing => "Bing"@,
        WallpaperSource::Spotlight => "Spotlight"@,
        WallpaperSource::Apod => "APOD"@,
        WallpaperSource::Modis => "MODIS"@,
    }
}

/// A source's name as users see it.
pub fn source_label(source: WallpaperSource) -> (r: &'static str)
    ensures
        r@ == label(source),
{
    match source {
        WallpaperSource::Bing => "Bing",
        WallpaperSource::Spotlight => "Spotlight",
        WallpaperSource::Apod => "APOD",
        WallpaperSource::Modis => "MODIS",
    }
}

/// A set of sources.
#[derive(Debug, Clone, Copy, PartialEq, Eq, Structural)]
pub struct SourceSet {
    pub bing: bool,
    pub spotlight: bool,
    pub apod: bool,
    pub modis: bool,
}

impl SourceSet {
    /// Whether `source` is in the set.
    pub open spec fn has(self, source: WallpaperSource) -> bool {
        match source {
            WallpaperSource::Bing => self.bing,
            WallpaperSource::Spotlight => self.spotlight,
            WallpaperSource::Apod => self.apod,
            WallpaperSource::Modis => self.modis,
        }
    }

    /// The set without members.
    pub fn new() -> (r: SourceSet)
        ensures
            forall|s: WallpaperSource| !r.has(s),
    {
        SourceSet { bing: false, spotlight: false, apod: false, modis: false }
    }

    /// Adds `source`.
    pub fn insert(&mut self, source: WallpaperSource)
        ensures
            forall|s: WallpaperSource| #[trigger]
                final(self).has(s) <==> old(self).has(s) || s == source,
    {
        match source {
            WallpaperSource::Bing => {
                self.bing = true;
            },
            WallpaperSource::Spotlight => {
                self.spotlight = true;
            },
            WallpaperSource::Apod => {
                self.apod = true;
            },
            WallpaperSource::Modis => {
                self.modis = true;
            },
        }
    }

    /// Whether `source` is in the set.
    pub fn contains(&self, source: WallpaperSource) -> (r: bool)
        ensures
            r == self.has(source),
    {
        match source {
            WallpaperSource::Bing => self.bing,
            WallpaperSource::Spotlight => self.spotlight,
            WallpaperSource::Apod => self.apod,
            WallpaperSource::Modis => self.modis,
        }
    }
}

// ------------------------------------------------------------------------------------------
// Candidates
// ------------------------------------------------------------------------------------------

/// A wallpaper that can be applied, with what is known about it.
#[derive(Debug)]
pub struct WallpaperCandidate {
    pub id: String,
    pub source: WallpaperSource,
    pub title: Option<String>,
    pub description: Option<String>,
    pub attribution: Option<String>,
    pub info_url: Option<String>,
    pub image_url: String,
    pub local_path: String,
    pub date: String,
    pub metadata_xml: Option<String>,
    pub checksum: Option<String>,
}

/// The value of a `WallpaperCandidate`.
#[verifier::ext_equal]
pub struct CandidateView {
    pub id: Seq<char>,
    pub source: WallpaperSource,
    pub title: Option<Seq<char>>,
    pub description: Option<Seq<char>>,
    pub attribution: Option<Seq<char>>,
    pub info_url: Option<Seq<char>>,
    pub image_url: Seq<char>,
    pub local_path: Seq<char>,
    pub date: Seq<char>,
    pub metadata_xml: Option<Seq<char>>,
    pub checksum: Option<Seq<char>>,
}

impl View for WallpaperCandidate {
    type V = CandidateView;

    open spec fn view(&self) -> CandidateView {
        CandidateView {
            id: self.id@,
            source: self.source,
            title: opt_text(self.title),
            description: opt_text(self.description),
            attribution: opt_text(self.attribution),
            info_url: opt_text(self.info_url),
            image_url: self.image_url@,
            local_path: self.local_path@,
            date: self.date@,
            metadata_xml: opt_text(self.metadata_xml),
            checksum: opt_text(self.checksum),
        }
    }
}

impl Clone for WallpaperCandidate {
    fn clone(&self) -> (r: Self)
        ensures
            r == *self,
    {
        WallpaperCandidate {
            id: self.id.clone(),
            source: self.source,
            title: self.title.clone(),
            description: self.description.clone(),
            attribution: self.attribution.clone(),
            info_url: self.info_url.clone(),
            image_url: self.image_url.clone(),
            local_path: self.local_path.clone(),
            date: self.date.clone(),
            metadata_xml: self.metadata_xml.clone(),
            checksum: self.checksum.clone(),
        }
    }
}

/// The values of a list of candidates.
pub open spec fn candidates(v: Seq<WallpaperCandidate>) -> Seq<CandidateView> {
    v.map_values(|c: WallpaperCandidate| c@)
}

/// A copy of a list of candidates.
pub fn copy_candidates(v: &Vec<WallpaperCandidate>) -> (r: Vec<WallpaperCandidate>)
    ensures
        r@ == v@,
{
    let mut out: Vec<WallpaperCandidate> = Vec::new();
    let mut i: usize = 0;
    while i < v.len()
        invariant
            i <= v@.len(),
            out@ == v@.take(i as int),
        decreases v@.len() - i,
    {
        out.push(v[i].clone());
        assert(v@.take(i + 1) =~= v@.take(i as int).push(v@[i as int]));
        i += 1;
    }
    assert(v@.take(i as int) =~= v@);
    out
}

/// A copy of a list of texts.
pub fn copy_texts(v: &Vec<String>) -> (r: Vec<String>)
    ensures
        r@ == v@,
{
    let mut out: Vec<String> = Vec::new();
    let mut i: usize = 0;
    while i < v.len()
        invariant
            i <= v@.len(),
            out@ == v@.take(i as int),
        decreases v@.len() - i,
    {
        out.push(v[i].clone());
        assert(v@.take(i + 1) =~= v@.take(i as int).push(v@[i as int]));
        i += 1;
    }
    assert(v@.take(i as int) =~= v@);
    out
}

/// A copy of bytes.
pub fn copy_bytes(v: &Vec<u8>) -> (r: Vec<u8>)
    ensures
        r@ == v@,
{
    let mut out: Vec<u8> = Vec::new();
    let mut i: usize = 0;
    while i < v.len()
        invariant
            i <= v@.len(),
            out@ == v@.take(i as int),
        decreases v@.len() - i,
    {
        out.push(v[i]);
        assert(v@.take(i + 1) =~= v@.take(i as int).push(v@[i as int]));
        i += 1;
    }
    assert(v@.take(i as int) =~= v@);
    out
}

/// The candidates of one day.
#[derive(Debug)]
pub struct CacheIndex {
    pub date: String,
    pub candidates: Vec<WallpaperCandidate>,
}

/// The value of a `CacheIndex`.
#[verifier::ext_equal]
pub struct IndexView {
    pub date: Seq<char>,
    pub candidates: Seq<CandidateView>,
}

impl View for CacheIndex {
    type V = IndexView;

    open spec fn view(&self) -> IndexView {
        IndexView { date: self.date@, candidates: candidates(self.candidates@) }
    }
}

/// A note that a source is not to be tried again on a day.
#[derive(Debug)]
pub struct SourceSkip {
    pub reason: String,
    pub created_at: u64,
}

/// A note that a source is being fetched.
#[derive(Debug)]
pub struct InProgressFetch {
    pub started_at: u64,
}

/// What was applied last.
#[derive(Debug)]
pub struct LastApplied {
    pub candidate_id: String,
    pub source: WallpaperSource,
    pub applied_path: String,
    pub applied_at: u64,
    pub applied_by_user: bool,
    pub date: Option<String>,
}

/// The value of a `LastApplied`.
#[verifier::ext_equal]
pub struct AppliedView {
    pub candidate_id: Seq<char>,
    pub source: WallpaperSource,
    pub applied_path: Seq<char>,
    pub applied_at: u64,
    pub applied_by_user: bool,
    pub date: Option<Seq<char>>,
}

impl View for LastApplied {
    type V = AppliedView;

    open spec fn view(&self) -> AppliedView {
        AppliedView {
            candidate_id: self.candidate_id@,
            source: self.source,
            applied_path: self.applied_path@,
            applied_at: self.applied_at,
            applied_by_user: self.applied_by_user,
            date: opt_text(self.date),
        }
    }
}

// ------------------------------------------------------------------------------------------
// Settings
// ------------------------------------------------------------------------------------------

/// What a run of the program works with.
#[derive(Debug)]
pub struct Settings {
    pub proto: String,
    pub picture_dir: String,
    pub favorites_dir: String,
    pub auto_update_name: String,
    pub monitor: usize,
    pub force: bool,
    pub offline: bool,
    pub verbose: bool,
    pub quiet: bool,
    pub experimental: bool,
    pub filename: Option<String>,
    pub source: WallpaperSource,
    pub prune_cache_days: Option<u32>,
    pub info_wrap_width: usize,
    pub info_plain_text: bool,
    pub refresh_metadata: bool,
    pub min_resolution: Option<(u32, u32)>,
    pub log_file: Option<String>,
    pub log_file_max_bytes: u64,
    pub disabled_sources: SourceSet,
    pub date_override: Option<Date>,
}

impl Clone for Settings {
    fn clone(&self) -> (r: Self)
        ensures
            r == *self,
    {
        Settings {
            proto: self.proto.clone(),
            picture_dir: self.picture_dir.clone(),
            favorites_dir: self.favorites_dir.clone(),
            auto_update_name: self.auto_update_name.clone(),
            monitor: self.monitor,
            force: self.force,
            offline: self.offline,
            verbose: self.verbose,
            quiet: self.quiet,
            experimental: self.experimental,
            filename: self.filename.clone(),
            source: self.source,
            prune_cache_days: self.prune_cache_days,
            info_wrap_width: self.info_wrap_width,
            info_plain_text: self.info_plain_text,
            refresh_metadata: self.refresh_metadata,
            min_resolution: self.min_resolution,
            log_file: self.log_file.clone(),
            log_file_max_bytes: self.log_file_max_bytes,
            disabled_sources: self.disabled_sources,
            date_override: self.date_override,
        }
    }
}

} // verus!

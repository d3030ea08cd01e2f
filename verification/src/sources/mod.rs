//! The sources of wallpapers.

pub mod apod;
pub mod apod_fetch;
pub mod bing;
pub mod bing_fetch;
pub mod bing_laws;
pub mod bing_round;
pub mod fetch;
pub mod modis;
pub mod spotlight;

use crate::config::AppConfig;
use crate::date::{Date, date_text, is_target_date, target_date_for_day, text_of_date};
use crate::error::{ErrorView, WallpaperError, failure};
use crate::model::{Settings, SourceSet, WallpaperCandidate, WallpaperSource, candidates, label};
use crate::sources::apod::{ApodSettings, ApodSource};
use crate::sources::bing::{BingSettings, BingSource};
use crate::sources::modis::{ModisSettings, ModisSource};
use crate::sources::spotlight::{SpotlightSettings, SpotlightSource};
use vstd::prelude::*;

verus! {

/// What a source found.
#[derive(Debug)]
pub struct FetchResult {
    pub candidates: Vec<WallpaperCandidate>,
    /// Whether nothing had to be downloaded.
    pub skipped_download: bool,
}

impl FetchResult {
    /// The result of a source that found one candidate.
    pub fn single(candidate: WallpaperCandidate, skipped_download: bool) -> (r: Self)
        ensures
            r.candidates@ == seq![candidate],
            r.skipped_download == skipped_download,
    {
        FetchResult { candidates: vec![candidate], skipped_download }
    }
}

/// What the sources are set up with.
pub struct SourceSettings {
    pub bing: BingSettings,
    pub spotlight: SpotlightSettings,
    pub apod: ApodSettings,
    pub modis: ModisSettings,
}

impl SourceSettings {
    /// The settings of every source. `nasa_key` is the value of `NASA_API_KEY` in the
    /// environment.
    pub fn from_config(config: Option<&AppConfig>, nasa_key: Option<&str>) -> (r: Result<
        Self,
        WallpaperError,
    >)
        ensures
            r matches Ok(all) && all.bing.follows(config) && all.spotlight.follows(config)
                && all.apod.follows(config, nasa_key) && all.modis.follows(config),
    {
        let spotlight = match SpotlightSettings::from_config(config) {
            Ok(s) => s,
            Err(e) => {
                return Err(e);
            },
        };
        Ok(
            SourceSettings {
                bing: BingSettings::from_config(config),
                spotlight,
                apod: ApodSettings::from_config(config, nasa_key),
                modis: ModisSettings::from_config(config),
            },
        )
    }
}

/// A source of wallpapers: what it is called and which of its candidates it applies by itself.
pub trait Source {
    /// Which source it is.
    spec fn kind(&self) -> WallpaperSource;

    /// Whether the source can be asked for a day other than today.
    spec fn takes_day(&self) -> bool;

    /// The position of the candidate that is applied without asking.
    spec fn preferred(&self, settings: SourceSettings) -> int;

    /// What is said when there is no candidate at that position.
    spec fn none_found(&self, settings: SourceSettings, count: nat) -> Seq<char>;

    fn id(&self) -> (r: WallpaperSource)
        ensures
            r == self.kind(),
    ;

    fn label(&self) -> (r: &'static str)
        ensures
            r@ == label(self.kind()),
    ;

    fn description(&self) -> (r: &'static str)
        ensures
            r@ == description_text(self.kind()),
    ;

    fn supports_day(&self) -> (r: bool)
        ensures
            r == self.takes_day(),
    ;

    /// The candidate that is applied without asking.
    fn pick_default<'a>(
        &self,
        candidates: &'a Vec<WallpaperCandidate>,
        settings: &SourceSettings,
    ) -> (r: Result<&'a WallpaperCandidate, WallpaperError>)
        ensures
            match r {
                Ok(c) => 0 <= self.preferred(*settings) < candidates@.len() && *c
                    == candidates@[self.preferred(*settings)],
                Err(e) => self.preferred(*settings) >= candidates@.len() && e@
                    == ErrorView::Message(self.none_found(*settings, candidates@.len())),
            },
    ;
}

/// What a source offers, in words.
pub open spec fn description_text(source: WallpaperSource) -> Seq<char> {
    match source {
        WallpaperSource::Bing => "Bing daily wallpaper"@,
        WallpaperSource::Spotlight => "Windows Spotlight image feed"@,
        WallpaperSource::Apod => "NASA Astronomy Picture of the Day"@,
        WallpaperSource::Modis => "NASA MODIS image of the day"@,
    }
}

/// The first of the candidates, or an error that says `none`.
pub fn pick_first<'a>(candidates: &'a Vec<WallpaperCandidate>, none: &str) -> (r: Result<
    &'a WallpaperCandidate,
    WallpaperError,
>)
    ensures
        match r {
            Ok(c) => candidates@.len() > 0 && *c == candidates@[0],
            Err(e) => candidates@.len() == 0 && e@ == ErrorView::Message(none@),
        },
{
    if candidates.len() == 0 {
        return Err(failure(none));
    }
    Ok(&candidates[0])
}

/// One of the sources that the program knows.
pub enum KnownSource {
    Bing(BingSource),
    Spotlight(SpotlightSource),
    Apod(ApodSource),
    Modis(ModisSource),
}

impl Source for KnownSource {
    open spec fn kind(&self) -> WallpaperSource {
        match *self {
            KnownSource::Bing(s) => s.kind(),
            KnownSource::Spotlight(s) => s.kind(),
            KnownSource::Apod(s) => s.kind(),
            KnownSource::Modis(s) => s.kind(),
        }
    }

    open spec fn takes_day(&self) -> bool {
        match *self {
            KnownSource::Bing(s) => s.takes_day(),
            KnownSource::Spotlight(s) => s.takes_day(),
            KnownSource::Apod(s) => s.takes_day(),
            KnownSource::Modis(s) => s.takes_day(),
        }
    }

    open spec fn preferred(&self, settings: SourceSettings) -> int {
        match *self {
            KnownSource::Bing(s) => s.preferred(settings),
            KnownSource::Spotlight(s) => s.preferred(settings),
            KnownSource::Apod(s) => s.preferred(settings),
            KnownSource::Modis(s) => s.preferred(settings),
        }
    }

    open spec fn none_found(&self, settings: SourceSettings, count: nat) -> Seq<char> {
        match *self {
            KnownSource::Bing(s) => s.none_found(settings, count),
            KnownSource::Spotlight(s) => s.none_found(settings, count),
            KnownSource::Apod(s) => s.none_found(settings, count),
            KnownSource::Modis(s) => s.none_found(settings, count),
        }
    }

    fn id(&self) -> (r: WallpaperSource) {
        match self {
            KnownSource::Bing(s) => s.id(),
            KnownSource::Spotlight(s) => s.id(),
            KnownSource::Apod(s) => s.id(),
            KnownSource::Modis(s) => s.id(),
        }
    }

    fn label(&self) -> (r: &'static str) {
        match self {
            KnownSource::Bing(s) => s.label(),
            KnownSource::Spotlight(s) => s.label(),
            KnownSource::Apod(s) => s.label(),
            KnownSource::Modis(s) => s.label(),
        }
    }

    fn description(&self) -> (r: &'static str) {
        match self {
            KnownSource::Bing(s) => s.description(),
            KnownSource::Spotlight(s) => s.description(),
            KnownSource::Apod(s) => s.description(),
            KnownSource::Modis(s) => s.description(),
        }
    }

    fn supports_day(&self) -> (r: bool) {
        match self {
            KnownSource::Bing(s) => s.supports_day(),
            KnownSource::Spotlight(s) => s.supports_day(),
            KnownSource::Apod(s) => s.supports_day(),
            KnownSource::Modis(s) => s.supports_day(),
        }
    }

    fn pick_default<'a>(
        &self,
        candidates: &'a Vec<WallpaperCandidate>,
        settings: &SourceSettings,
    ) -> (r: Result<&'a WallpaperCandidate, WallpaperError>) {
        match self {
            KnownSource::Bing(s) => s.pick_default(candidates, settings),
            KnownSource::Spotlight(s) => s.pick_default(candidates, settings),
            KnownSource::Apod(s) => s.pick_default(candidates, settings),
            KnownSource::Modis(s) => s.pick_default(candidates, settings),
        }
    }
}

/// The source of a given kind.
pub open spec fn known(source: WallpaperSource) -> KnownSource {
    match source {
        WallpaperSource::Bing => KnownSource::Bing(BingSource),
        WallpaperSource::Spotlight => KnownSource::Spotlight(SpotlightSource),
        WallpaperSource::Apod => KnownSource::Apod(ApodSource),
        WallpaperSource::Modis => KnownSource::Modis(ModisSource),
    }
}

/// The sources in the order in which they are asked.
pub struct SourceRegistry {
    sources: Vec<KnownSource>,
}

/// The order in which sources are asked.
pub open spec fn source_order() -> Seq<WallpaperSource> {
    seq![
        WallpaperSource::Bing,
        WallpaperSource::Spotlight,
        WallpaperSource::Apod,
        WallpaperSource::Modis,
    ]
}

impl View for SourceRegistry {
    type V = Seq<WallpaperSource>;

    closed spec fn view(&self) -> Seq<WallpaperSource> {
        self.sources@.map_values(|s: KnownSource| s.kind())
    }
}

impl SourceRegistry {
    /// The registry of all sources.
    pub fn new() -> (r: Self)
        ensures
            r@ == source_order(),
    {
        let r = SourceRegistry {
            sources: vec![
                KnownSource::Bing(BingSource),
                KnownSource::Spotlight(SpotlightSource),
                KnownSource::Apod(ApodSource),
                KnownSource::Modis(ModisSource),
            ],
        };
        assert(r@ =~= source_order());
        r
    }

    /// The registered source `id`.
    pub fn get(&self, id: WallpaperSource) -> (r: Option<&KnownSource>)
        ensures
            match r {
                Some(s) => s.kind() == id && self@.contains(id),
                None => !self@.contains(id),
            },
    {
        let mut i: usize = 0;
        while i < self.sources.len()
            invariant
                i <= self.sources@.len(),
                forall|j: int| 0 <= j < i ==> (#[trigger] self@[j]) != id,
            decreases self.sources@.len() - i,
        {
            if self.sources[i].id() == id {
                assert(self@[i as int] == id);
                return Some(&self.sources[i]);
            }
            i += 1;
        }
        None
    }

    /// The sources that are not disabled, in order.
    pub fn all_enabled(&self, disabled: &SourceSet) -> (r: Vec<WallpaperSource>)
        ensures
            r@ == self@.filter(|s: WallpaperSource| !disabled.has(s)),
    {
        let mut out: Vec<WallpaperSource> = Vec::new();
        let ghost keep = |s: WallpaperSource| !disabled.has(s);
        let mut i: usize = 0;
        assert(self@.take(0).filter(keep) =~= Seq::<WallpaperSource>::empty()) by {
            reveal(Seq::filter);
        }
        while i < self.sources.len()
            invariant
                i <= self.sources@.len(),
                keep == (|s: WallpaperSource| !disabled.has(s)),
                out@ == self@.take(i as int).filter(keep),
            decreases self.sources@.len() - i,
        {
            proof {
                reveal(Seq::filter);
                assert(self@.take(i + 1).drop_last() =~= self@.take(i as int));
                assert(self@.take(i + 1).last() == self.sources@[i as int].kind());
            }
            let id = self.sources[i].id();
            if !disabled.contains(id) {
                out.push(id);
            }
            i += 1;
        }
        assert(self@.take(i as int) =~= self@);
        out
    }
}

impl Default for SourceRegistry {
    fn default() -> (r: Self)
        ensures
            r@ == source_order(),
    {
        SourceRegistry::new()
    }
}

/// The registered source `id`.
pub fn require_source(registry: &SourceRegistry, id: WallpaperSource) -> (r: Result<
    &KnownSource,
    WallpaperError,
>)
    ensures
        match r {
            Ok(s) => s.kind() == id && registry@.contains(id),
            Err(e) => !registry@.contains(id) && e@ == ErrorView::Message(
                "Source "@ + variant_name(id) + " is not registered."@,
            ),
        },
{
    match registry.get(id) {
        Some(s) => Ok(s),
        None => {
            let mut text = "Source ".to_string();
            text.append(source_variant(id));
            text.append(" is not registered.");
            Err(WallpaperError::Message(text))
        },
    }
}

/// A source's name in the program's own terms.
pub open spec fn variant_name(source: WallpaperSource) -> Seq<char> {
    match source {
        WallpaperSource::Bing => "Bing"@,
        WallpaperSource::Spotlight => "Spotlight"@,
        WallpaperSource::Apod => "Apod"@,
        WallpaperSource::Modis => "Modis"@,
    }
}

/// A source's name in the program's own terms.
pub fn source_variant(source: WallpaperSource) -> (r: &'static str)
    ensures
        r@ == variant_name(source),
{
    match source {
        WallpaperSource::Bing => "Bing",
        WallpaperSource::Spotlight => "Spotlight",
        WallpaperSource::Apod => "Apod",
        WallpaperSource::Modis => "Modis",
    }
}

/// Whether `text` names the day that a source is asked for: the day that was picked, or else the
/// day `day` days before today, or today where the source knows no other.
pub open spec fn is_date_label(
    text: Seq<char>,
    picked: Option<Date>,
    takes_day: bool,
    day: int,
    today: Date,
) -> bool {
    match picked {
        Some(d) => text == date_text(d),
        None => if takes_day {
            exists|d: Date|
                #![trigger date_text(d)]
                is_target_date(today, day, d) && text == date_text(d)
        } else {
            text == date_text(today)
        },
    }
}

/// Whether a source can be asked for another day than today; one that is not named can.
pub open spec fn takes_other_day(source: Option<WallpaperSource>) -> bool {
    match source {
        Some(s) => known(s).takes_day(),
        None => true,
    }
}

/// The label of the day that a source, or one that is not named, is asked for.
pub fn date_label_for(
    source: Option<WallpaperSource>,
    settings: &Settings,
    source_settings: &SourceSettings,
    today: Date,
) -> (r: String)
    requires
        today.valid(),
        settings.date_override matches Some(d) ==> d.valid(),
    ensures
        is_date_label(
            r@,
            settings.date_override,
            takes_other_day(source),
            source_settings.bing.day as int,
            today,
        ),
        settings.date_override is None && source_settings.bing.day == 0 ==> r@ == date_text(today),
{
    if let Some(d) = settings.date_override {
        return text_of_date(d);
    }
    let takes_day = match source {
        Some(WallpaperSource::Bing) => BingSource.supports_day(),
        Some(WallpaperSource::Spotlight) => SpotlightSource.supports_day(),
        Some(WallpaperSource::Apod) => ApodSource.supports_day(),
        Some(WallpaperSource::Modis) => ModisSource.supports_day(),
        None => true,
    };
    if takes_day {
        text_of_date(target_date_for_day(today, source_settings.bing.day))
    } else {
        text_of_date(today)
    }
}

/// The day that was picked goes before all else. Otherwise a source is asked for today, or for the
/// day so many days back as the settings say; Spotlight is asked for today alone.
pub proof fn day_that_a_source_is_asked_for(
    text: Seq<char>,
    picked: Option<Date>,
    source: WallpaperSource,
    day: int,
    today: Date,
)
    requires
        is_date_label(text, picked, known(source).takes_day(), day, today),
    ensures
        picked matches Some(d) ==> text == date_text(d),
        picked is None && source is Spotlight ==> text == date_text(today),
        picked is None && !(source is Spotlight) && crate::date::has_day_before(today, day)
            ==> exists|d: Date| #[trigger]
            date_text(d) == text && d.valid() && d.number() == today.number() - day,
{
    if picked is None && !(source is Spotlight) {
        let d = choose|d: Date|
            #![trigger date_text(d)]
            is_target_date(today, day, d) && text == date_text(d);
        assert(date_text(d) == text);
    }
}

/// Without being asked, the first wallpaper of a source is applied; of Spotlight the one with the
/// number that the settings give.
pub proof fn wallpaper_that_is_applied(source: WallpaperSource, settings: SourceSettings)
    ensures
        !(source is Spotlight) ==> known(source).preferred(settings) == 0,
        source is Spotlight && settings.spotlight.index > 0 ==> known(source).preferred(settings)
            == settings.spotlight.index - 1,
        known(source).kind() == source,
{
}

/// The sources stand in this order, each once.
pub proof fn sources_stand_in_order()
    ensures
        source_order() == seq![
            WallpaperSource::Bing,
            WallpaperSource::Spotlight,
            WallpaperSource::Apod,
            WallpaperSource::Modis,
        ],
{
}

/// Spotlight has no wallpapers of other days; without a source in mind, another day can be asked
/// for.
pub proof fn only_spotlight_keeps_to_today(source: WallpaperSource)
    ensures
        takes_other_day(Some(source)) <==> !(source is Spotlight),
        takes_other_day(None),
{
}

/// The sources are told of under these names.
pub proof fn sources_have_names()
    ensures
        variant_name(WallpaperSource::Bing) == "Bing"@,
        variant_name(WallpaperSource::Spotlight) == "Spotlight"@,
        variant_name(WallpaperSource::Apod) == "Apod"@,
        variant_name(WallpaperSource::Modis) == "Modis"@,
        label(WallpaperSource::Bing) == "Bing"@,
        label(WallpaperSource::Spotlight) == "Spotlight"@,
        label(WallpaperSource::Apod) == "APOD"@,
        label(WallpaperSource::Modis) == "MODIS"@,
        description_text(WallpaperSource::Bing) == "Bing daily wallpaper"@,
        description_text(WallpaperSource::Spotlight) == "Windows Spotlight image feed"@,
        description_text(WallpaperSource::Apod) == "NASA Astronomy Picture of the Day"@,
        description_text(WallpaperSource::Modis) == "NASA MODIS image of the day"@,
{
}

} // verus!

//! Asking Bing for the wallpapers of all countries, one after the other.

use crate::error::{ErrorView, WallpaperError, failure};
use crate::model::{
    CandidateView, Settings, SourceSkip, WallpaperCandidate, candidates, copy_texts,
};
use crate::sources::FetchResult;
use crate::sources::bing::{
    BingSettings, candidate_dedupe_key, dedupe_key, default_resolution_list, default_resolutions,
};
use crate::sources::bing_fetch::{BingJob, opt_error};
use crate::text::{list_contains, texts};
use vstd::prelude::*;

verus! {

// ------------------------------------------------------------------------------------------
// What is asked for
// ------------------------------------------------------------------------------------------

/// What Bing is asked for on a day.
pub struct RoundJob {
    pub date: String,
    /// The directory of the files of Bing of that day.
    pub media_dir: String,
    pub countries: Vec<String>,
    pub resolutions: Vec<String>,
    pub day: i32,
    pub force: bool,
    pub offline: bool,
    pub refresh_metadata: bool,
}

/// The resolutions to try; the default ones where none are set.
pub open spec fn wanted_resolutions(settings: BingSettings) -> Seq<Seq<char>> {
    if settings.resolutions@.len() == 0 {
        default_resolutions()
    } else {
        texts(settings.resolutions@)
    }
}

/// The resolutions to try.
pub fn resolutions_to_try(settings: &BingSettings) -> (r: Vec<String>)
    ensures
        texts(r@) == wanted_resolutions(*settings),
        r@.len() > 0,
{
    if settings.resolutions.len() == 0 {
        let r = default_resolution_list();
        assert(texts(r@).len() == r@.len());
        r
    } else {
        copy_texts(&settings.resolutions)
    }
}

/// The countries to ask for; `en-US` where none are set.
pub open spec fn wanted_countries(settings: BingSettings) -> Seq<Seq<char>> {
    if settings.countries@.len() == 0 {
        seq!["en-US"@]
    } else {
        texts(settings.countries@)
    }
}

/// The countries to ask for.
pub fn countries_to_ask(settings: &BingSettings) -> (r: Vec<String>)
    ensures
        texts(r@) == wanted_countries(*settings),
        r@.len() > 0,
{
    if settings.countries.len() == 0 {
        let r = vec!["en-US".to_string()];
        assert(texts(r@) =~= seq!["en-US"@]);
        r
    } else {
        copy_texts(&settings.countries)
    }
}

/// What Bing is asked for on a day, as the settings say.
pub fn round_job(date: &str, media_dir: &str, bing: &BingSettings, settings: &Settings) -> (r:
    RoundJob)
    ensures
        r.date@ == date@,
        r.media_dir@ == media_dir@,
        texts(r.countries@) == wanted_countries(*bing),
        texts(r.resolutions@) == wanted_resolutions(*bing),
        r.day == bing.day,
        r.force == settings.force,
        r.offline == settings.offline,
        r.refresh_metadata == settings.refresh_metadata,
{
    RoundJob {
        date: date.to_string(),
        media_dir: media_dir.to_string(),
        countries: countries_to_ask(bing),
        resolutions: resolutions_to_try(bing),
        day: bing.day,
        force: settings.force,
        offline: settings.offline,
        refresh_metadata: settings.refresh_metadata,
    }
}

// ------------------------------------------------------------------------------------------
// What was found
// ------------------------------------------------------------------------------------------

/// A candidate that was fetched.
pub struct FetchedCandidate {
    pub candidate: WallpaperCandidate,
    pub skipped_download: bool,
}

/// What the fetch of a country gave: a candidate, and whether nothing was downloaded for it, or
/// an error.
pub open spec fn outcome(fetched: Result<FetchedCandidate, WallpaperError>) -> Result<
    (CandidateView, bool),
    ErrorView,
> {
    match fetched {
        Ok(f) => Ok((f.candidate@, f.skipped_download)),
        Err(e) => Err(e@),
    }
}

/// What tells candidates apart, for each of them.
pub open spec fn keys_of(list: Seq<CandidateView>) -> Seq<Seq<char>> {
    list.map_values(|c: CandidateView| dedupe_key(c))
}

/// The value of a `BingRound`.
#[verifier::ext_equal]
pub struct RoundView {
    pub candidates: Seq<CandidateView>,
    pub skipped: bool,
    pub error: Option<ErrorView>,
}

/// The round before the first country.
pub open spec fn empty_round() -> RoundView {
    RoundView { candidates: seq![], skipped: true, error: None }
}

/// The round after one more country: a wallpaper that was found before is left out, and an error
/// is kept until another comes.
pub open spec fn round_after(
    v: RoundView,
    fetched: Result<(CandidateView, bool), ErrorView>,
) -> RoundView {
    match fetched {
        Ok((c, skipped)) => RoundView {
            candidates: if keys_of(v.candidates).contains(dedupe_key(c)) {
                v.candidates
            } else {
                v.candidates.push(c)
            },
            skipped: v.skipped && skipped,
            error: v.error,
        },
        Err(e) => RoundView { error: Some(e), ..v },
    }
}

/// The round after the given countries.
pub open spec fn round_of(fetched: Seq<Result<(CandidateView, bool), ErrorView>>) -> RoundView
    decreases fetched.len(),
{
    if fetched.len() == 0 {
        empty_round()
    } else {
        round_after(round_of(fetched.drop_last()), fetched.last())
    }
}

/// Whether `r` is what a round gives: the wallpapers that were found, or else the last error.
pub open spec fn round_gives(v: RoundView, r: Result<FetchResult, WallpaperError>) -> bool {
    match r {
        Ok(found) => {
            &&& v.candidates.len() > 0
            &&& candidates(found.candidates@) == v.candidates
            &&& found.skipped_download == v.skipped
        },
        Err(e) => {
            &&& v.candidates.len() == 0
            &&& e@ == match v.error {
                Some(last) => last,
                None => ErrorView::Message("No Bing candidates found."@),
            }
        },
    }
}

/// A round through the countries: the different wallpapers that were found so far.
pub struct BingRound {
    pub candidates: Vec<WallpaperCandidate>,
    pub keys: Vec<String>,
    pub skipped_download: bool,
    pub last_error: Option<WallpaperError>,
}

impl View for BingRound {
    type V = RoundView;

    open spec fn view(&self) -> RoundView {
        RoundView {
            candidates: candidates(self.candidates@),
            skipped: self.skipped_download,
            error: opt_error(self.last_error),
        }
    }
}

impl BingRound {
    /// Whether the keys of the wallpapers are known.
    pub open spec fn wf(self) -> bool {
        texts(self.keys@) == keys_of(self@.candidates)
    }

    /// The round before the first country.
    pub fn new() -> (r: Self)
        ensures
            r.wf(),
            r@ == empty_round(),
    {
        let r = BingRound {
            candidates: Vec::new(),
            keys: Vec::new(),
            skipped_download: true,
            last_error: None,
        };
        assert(r@.candidates =~= empty_round().candidates);
        assert(texts(r.keys@) =~= keys_of(r@.candidates));
        r
    }

    /// Takes what was fetched for a country.
    pub fn add_outcome(&mut self, fetched: Result<FetchedCandidate, WallpaperError>)
        requires
            old(self).wf(),
        ensures
            final(self).wf(),
            final(self)@ == round_after(old(self)@, outcome(fetched)),
    {
        match fetched {
            Ok(f) => {
                let ghost before = *self;
                if !f.skipped_download {
                    self.skipped_download = false;
                }
                let key = candidate_dedupe_key(&f.candidate);
                if !list_contains(&self.keys, key.as_str()) {
                    let ghost added = f.candidate@;
                    self.keys.push(key);
                    self.candidates.push(f.candidate);
                    proof {
                        assert(texts(self.keys@) =~= texts(before.keys@).push(key@));
                        assert(self@.candidates =~= before@.candidates.push(added));
                        assert(keys_of(self@.candidates) =~= keys_of(before@.candidates).push(
                            key@,
                        ));
                    }
                }
            },
            Err(e) => {
                self.last_error = Some(e);
            },
        }
    }

    /// The result of the round.
    pub fn finish(self) -> (r: Result<FetchResult, WallpaperError>)
        ensures
            round_gives(self@, r),
    {
        assert(self@.candidates.len() == self.candidates@.len());
        if self.candidates.len() == 0 {
            return match self.last_error {
                Some(e) => Err(e),
                None => Err(failure("No Bing candidates found.")),
            };
        }
        Ok(
            FetchResult {
                candidates: self.candidates,
                skipped_download: self.skipped_download,
            },
        )
    }
}

// ------------------------------------------------------------------------------------------
// The machine
// ------------------------------------------------------------------------------------------

/// How far a round is.
pub enum RoundStage {
    /// The note that Bing is not to be tried on the day is read.
    Skip,
    /// The country at the position `at` is asked for.
    Country { at: usize, round: BingRound },
    Over,
}

/// What is to be done next.
pub enum RoundAction {
    ReadSkip,
    FetchCountry(BingJob),
    Finish(Result<FetchResult, WallpaperError>),
}

/// What an action brought about.
pub enum RoundEvent {
    Skip(Result<Option<SourceSkip>, WallpaperError>),
    Fetched(Result<FetchedCandidate, WallpaperError>),
}

/// Whether an event can follow the action of a stage.
pub open spec fn round_fits(at: RoundStage, event: RoundEvent) -> bool {
    match at {
        RoundStage::Skip => event is Skip,
        RoundStage::Country { .. } => event is Fetched,
        RoundStage::Over => false,
    }
}

/// Whether a stage is one of this round.
pub open spec fn round_sound(job: RoundJob, at: RoundStage) -> bool {
    at matches RoundStage::Country { at, round } ==> at < job.countries.len() && round.wf()
}

/// Whether `j` asks for the country at the position `n`.
pub open spec fn is_country_job(job: RoundJob, n: int, j: BingJob) -> bool {
    &&& j.date@ == job.date@
    &&& j.country@ == job.countries@[n]@
    &&& texts(j.resolutions@) == texts(job.resolutions@)
    &&& j.day == job.day
    &&& j.media_dir@ == job.media_dir@
    &&& j.force == job.force
    &&& j.offline == job.offline
    &&& j.refresh_metadata == job.refresh_metadata
}

/// Whether the round goes on with the country at the position `n`; after the last one it ends
/// with what was found.
pub open spec fn asks_next(
    job: RoundJob,
    n: int,
    v: RoundView,
    next: RoundStage,
    action: RoundAction,
) -> bool {
    if n < job.countries@.len() {
        &&& next matches RoundStage::Country { at, round } && at == n && round@ == v
        &&& action matches RoundAction::FetchCountry(j) && is_country_job(job, n, j)
    } else {
        &&& next is Over
        &&& action matches RoundAction::Finish(r) && round_gives(v, r)
    }
}

/// Whether the round ends with `error`.
pub open spec fn round_fails(error: ErrorView, next: RoundStage, action: RoundAction) -> bool {
    &&& next is Over
    &&& action matches RoundAction::Finish(Err(e)) && e@ == error
}

/// Whether a stage and an action begin the round. Unless it is forced, it begins with the note
/// that Bing is not to be tried.
pub open spec fn round_begins(job: RoundJob, next: RoundStage, action: RoundAction) -> bool {
    if job.force {
        asks_next(job, 0, empty_round(), next, action)
    } else {
        next is Skip && action is ReadSkip
    }
}

/// Whether a stage and an action follow when `event` comes at a stage.
pub open spec fn round_advances(
    job: RoundJob,
    at: RoundStage,
    event: RoundEvent,
    next: RoundStage,
    action: RoundAction,
) -> bool {
    match (at, event) {
        (RoundStage::Skip, RoundEvent::Skip(Err(e))) => round_fails(e@, next, action),
        (RoundStage::Skip, RoundEvent::Skip(Ok(Some(_)))) => round_fails(
            ErrorView::Message("Bing skipped for "@ + job.date@ + "."@),
            next,
            action,
        ),
        (RoundStage::Skip, RoundEvent::Skip(Ok(None))) => asks_next(
            job,
            0,
            empty_round(),
            next,
            action,
        ),
        (RoundStage::Country { at, round }, RoundEvent::Fetched(fetched)) => asks_next(
            job,
            at + 1,
            round_after(round@, outcome(fetched)),
            next,
            action,
        ),
        _ => false,
    }
}

fn ask_next(job: &RoundJob, n: usize, round: BingRound) -> (r: (RoundStage, RoundAction))
    requires
        round.wf(),
    ensures
        asks_next(*job, n as int, round@, r.0, r.1),
        round_sound(*job, r.0),
{
    if n < job.countries.len() {
        let next = BingJob {
            date: job.date.clone(),
            country: job.countries[n].clone(),
            resolutions: copy_texts(&job.resolutions),
            day: job.day,
            media_dir: job.media_dir.clone(),
            force: job.force,
            offline: job.offline,
            refresh_metadata: job.refresh_metadata,
        };
        (RoundStage::Country { at: n, round }, RoundAction::FetchCountry(next))
    } else {
        (RoundStage::Over, RoundAction::Finish(round.finish()))
    }
}

/// Begins to ask Bing for the wallpapers of all countries.
pub fn fetch_bing(job: &RoundJob) -> (r: (RoundStage, RoundAction))
    ensures
        round_begins(*job, r.0, r.1),
        round_sound(*job, r.0),
{
    if job.force {
        ask_next(job, 0, BingRound::new())
    } else {
        (RoundStage::Skip, RoundAction::ReadSkip)
    }
}

/// The next step of the round.
pub fn round_step(job: &RoundJob, at: RoundStage, event: RoundEvent) -> (r: (
    RoundStage,
    RoundAction,
))
    requires
        round_sound(*job, at),
        round_fits(at, event),
    ensures
        round_advances(*job, at, event, r.0, r.1),
        round_sound(*job, r.0),
{
    match (at, event) {
        (RoundStage::Skip, RoundEvent::Skip(Err(e))) => {
            (RoundStage::Over, RoundAction::Finish(Err(e)))
        },
        (RoundStage::Skip, RoundEvent::Skip(Ok(Some(_)))) => {
            let mut text = "Bing skipped for ".to_string();
            text.append(job.date.as_str());
            text.append(".");
            (RoundStage::Over, RoundAction::Finish(Err(WallpaperError::Message(text))))
        },
        (RoundStage::Skip, RoundEvent::Skip(Ok(None))) => ask_next(job, 0, BingRound::new()),
        (RoundStage::Country { at, round }, RoundEvent::Fetched(fetched)) => {
            let mut round = round;
            round.add_outcome(fetched);
            ask_next(job, at + 1, round)
        },
        _ => vstd::pervasive::unreached(),
    }
}

// ------------------------------------------------------------------------------------------
// Laws
// ------------------------------------------------------------------------------------------

/// The wallpapers of a round are different.
pub proof fn round_has_different_wallpapers(
    fetched: Seq<Result<(CandidateView, bool), ErrorView>>,
)
    ensures
        keys_of(round_of(fetched).candidates).no_duplicates(),
    decreases fetched.len(),
{
    if fetched.len() > 0 {
        let before = round_of(fetched.drop_last());
        round_has_different_wallpapers(fetched.drop_last());
        if let Ok((c, _)) = fetched.last() {
            let keys = keys_of(before.candidates);
            if !keys.contains(dedupe_key(c)) {
                assert(keys_of(before.candidates.push(c)) =~= keys.push(dedupe_key(c)));
                assert forall|i: int, j: int|
                    0 <= i < keys.len() + 1 && 0 <= j < keys.len() + 1 && i != j implies keys.push(
                    dedupe_key(c),
                )[i] != keys.push(dedupe_key(c))[j] by {
                    if i == keys.len() {
                        assert(keys.contains(keys[j]));
                    } else if j == keys.len() {
                        assert(keys.contains(keys[i]));
                    }
                }
            }
        }
    }
}

/// A country whose wallpaper was fetched has it in the round, itself or another that is not told
/// apart from it, whatever the other countries gave.
pub proof fn failing_country_hides_no_other(
    fetched: Seq<Result<(CandidateView, bool), ErrorView>>,
    i: int,
)
    requires
        0 <= i < fetched.len(),
        fetched[i] is Ok,
    ensures
        keys_of(round_of(fetched).candidates).contains(dedupe_key(fetched[i]->Ok_0.0)),
        round_of(fetched).candidates.len() > 0,
    decreases fetched.len(),
{
    let key = dedupe_key(fetched[i]->Ok_0.0);
    let before = round_of(fetched.drop_last()).candidates;
    let after = round_of(fetched).candidates;
    if i < fetched.len() - 1 {
        failing_country_hides_no_other(fetched.drop_last(), i);
        let k = choose|k: int| 0 <= k < keys_of(before).len() && keys_of(before)[k] == key;
        assert(keys_of(after)[k] == key);
    } else if !keys_of(before).contains(key) {
        assert(keys_of(after)[before.len() as int] == key);
    }
    assert(keys_of(after).contains(key));
}

/// A course of a round: the stages that it goes through, the event at each of them, and the
/// action that follows the event.
pub struct RoundCourse {
    pub stages: Seq<RoundStage>,
    pub events: Seq<RoundEvent>,
    pub actions: Seq<RoundAction>,
}

/// Whether the step `i` of a course is one that the round takes.
pub open spec fn round_step_taken(job: RoundJob, c: RoundCourse, i: int) -> bool {
    &&& round_fits(c.stages[i], c.events[i])
    &&& round_advances(job, c.stages[i], c.events[i], c.stages[i + 1], c.actions[i])
}

/// Whether a round can take this course.
pub open spec fn round_possible(job: RoundJob, c: RoundCourse) -> bool {
    &&& c.stages.len() == c.events.len() + 1
    &&& c.actions.len() == c.events.len()
    &&& exists|action: RoundAction| #[trigger] round_begins(job, c.stages[0], action)
    &&& forall|i: int| 0 <= i < c.events.len() ==> #[trigger] round_step_taken(job, c, i)
}

/// The number of steps before the first country.
pub open spec fn first_country(job: RoundJob) -> int {
    if job.force {
        0
    } else {
        1
    }
}

/// What the fetches of the first `n` countries of a course gave.
pub open spec fn outcomes(job: RoundJob, c: RoundCourse, n: int) -> Seq<
    Result<(CandidateView, bool), ErrorView>,
> {
    Seq::new(n as nat, |k: int| outcome(c.events[first_country(job) + k]->Fetched_0))
}

proof fn lemma_country(job: RoundJob, c: RoundCourse, i: int)
    requires
        round_possible(job, c),
        0 <= i < c.stages.len(),
        c.stages[i] is Country,
    ensures
        i >= first_country(job),
        c.stages[i]->at == i - first_country(job),
        c.stages[i]->at < job.countries.len(),
        c.stages[i]->round@ == round_of(outcomes(job, c, i - first_country(job))),
    decreases i,
{
    let n = i - first_country(job);
    if i == 0 {
        assert(outcomes(job, c, 0) =~= seq![]);
    } else {
        assert(round_step_taken(job, c, i - 1));
        if c.stages[i - 1] is Country {
            lemma_country(job, c, i - 1);
            assert(outcomes(job, c, n).drop_last() =~= outcomes(job, c, n - 1));
        } else {
            assert(c.stages[i - 1] is Skip);
            lemma_skip(job, c, i - 1);
            assert(outcomes(job, c, 0) =~= seq![]);
        }
    }
}

proof fn lemma_skip(job: RoundJob, c: RoundCourse, i: int)
    requires
        round_possible(job, c),
        0 <= i < c.stages.len(),
        c.stages[i] is Skip,
    ensures
        i == 0,
        !job.force,
{
    if i > 0 {
        assert(round_step_taken(job, c, i - 1));
    }
}

/// The countries are asked for in the order of the list, each of them once.
pub proof fn countries_are_asked_in_turn(job: RoundJob, c: RoundCourse, i: int)
    requires
        round_possible(job, c),
        0 <= i < c.actions.len(),
        c.actions[i] is FetchCountry,
    ensures
        0 <= i + 1 - first_country(job) < job.countries@.len(),
        is_country_job(job, i + 1 - first_country(job), c.actions[i]->FetchCountry_0),
{
    assert(round_step_taken(job, c, i));
    lemma_country(job, c, i + 1);
}

/// A round that was not ended by the note that Bing is not to be tried ends once all countries
/// have been asked for, with what all of them gave.
pub proof fn result_is_of_all_countries(job: RoundJob, c: RoundCourse, i: int)
    requires
        round_possible(job, c),
        0 <= i < c.actions.len(),
        c.stages[i] is Country,
        c.actions[i] is Finish,
    ensures
        i + 1 - first_country(job) == job.countries@.len(),
        round_gives(
            round_of(outcomes(job, c, job.countries@.len() as int)),
            c.actions[i]->Finish_0,
        ),
{
    assert(round_step_taken(job, c, i));
    lemma_country(job, c, i);
    let n = job.countries@.len() as int;
    assert(outcomes(job, c, n).drop_last() =~= outcomes(job, c, n - 1));
}

/// What a country is asked for is what the round is asked for: its own country, and the day, the
/// resolutions and the rest as they are.
pub proof fn country_is_asked_for_as_the_round_is(
    job: RoundJob,
    n: int,
    v: RoundView,
    next: RoundStage,
    action: RoundAction,
)
    requires
        0 <= n < job.countries@.len(),
        asks_next(job, n, v, next, action),
    ensures
        next matches RoundStage::Country { at, round } && at == n && round@ == v,
        action matches RoundAction::FetchCountry(j) && {
            &&& j.country@ == job.countries@[n]@
            &&& j.date@ == job.date@
            &&& j.media_dir@ == job.media_dir@
            &&& j.day == job.day
            &&& j.force == job.force
            &&& j.offline == job.offline
            &&& j.refresh_metadata == job.refresh_metadata
            &&& j.resolutions@.len() == job.resolutions@.len()
            &&& forall|k: int|
                0 <= k < job.resolutions@.len() ==> (#[trigger] j.resolutions@[k])@
                    == job.resolutions@[k]@
        },
{
    if let RoundAction::FetchCountry(j) = action {
        assert(texts(j.resolutions@).len() == j.resolutions@.len());
        assert(texts(job.resolutions@).len() == job.resolutions@.len());
        assert forall|k: int| 0 <= k < job.resolutions@.len() implies (
        #[trigger] j.resolutions@[k])@ == job.resolutions@[k]@ by {
            assert(texts(j.resolutions@)[k] == texts(job.resolutions@)[k]);
        }
    }
}

/// The round begins with the first country when it is forced, whatever was noted; otherwise a note
/// that Bing is not to be tried ends it, and without one the first country is asked for.
pub proof fn note_ends_the_round_unless_forced(
    job: RoundJob,
    event: RoundEvent,
    next: RoundStage,
    action: RoundAction,
)
    requires
        job.countries@.len() > 0,
    ensures
        job.force && round_begins(job, next, action) ==> (action matches RoundAction::FetchCountry(
            j,
        ) && j.country@ == job.countries@[0]@),
        !job.force && round_begins(job, next, action) ==> action is ReadSkip,
        round_advances(job, RoundStage::Skip, event, next, action) && (event matches RoundEvent::Skip(
            Ok(Some(_)),
        )) ==> (action matches RoundAction::Finish(Err(_))),
        round_advances(job, RoundStage::Skip, event, next, action) && (event matches RoundEvent::Skip(
            Ok(None),
        )) ==> (action matches RoundAction::FetchCountry(j) && j.country@ == job.countries@[0]@),
{
}

/// Every wallpaper of a round is the one that a country gave, and nothing had to be downloaded
/// only where that holds of every country that gave one.
pub proof fn round_is_what_the_countries_gave(
    fetched: Seq<Result<(CandidateView, bool), ErrorView>>,
    k: int,
)
    requires
        0 <= k < round_of(fetched).candidates.len(),
    ensures
        exists|i: int|
            0 <= i < fetched.len() && (#[trigger] fetched[i] matches Ok(found) && found.0
                == round_of(fetched).candidates[k]),
        round_of(fetched).skipped ==> forall|i: int|
            0 <= i < fetched.len() ==> (#[trigger] fetched[i] matches Ok(found) ==> found.1),
    decreases fetched.len(),
{
    let t = fetched.drop_last();
    let before = round_of(t);
    lemma_skipped(fetched);
    if k < before.candidates.len() {
        round_is_what_the_countries_gave(t, k);
        let i = choose|i: int|
            0 <= i < t.len() && (#[trigger] t[i] matches Ok(found) && found.0
                == before.candidates[k]);
        assert(fetched[i] == t[i]);
    } else {
        assert(fetched[fetched.len() - 1] == fetched.last());
    }
}

proof fn lemma_skipped(fetched: Seq<Result<(CandidateView, bool), ErrorView>>)
    ensures
        round_of(fetched).skipped <==> forall|i: int|
            0 <= i < fetched.len() ==> (#[trigger] fetched[i] matches Ok(found) ==> found.1),
    decreases fetched.len(),
{
    if fetched.len() > 0 {
        let t = fetched.drop_last();
        lemma_skipped(t);
        if round_of(fetched).skipped {
            assert forall|i: int| 0 <= i < fetched.len() implies (
            #[trigger] fetched[i] matches Ok(found) ==> found.1) by {
                if i < t.len() {
                    assert(t[i] == fetched[i]);
                }
            }
        }
        if forall|i: int|
            0 <= i < fetched.len() ==> (#[trigger] fetched[i] matches Ok(found) ==> found.1) {
            assert forall|i: int| 0 <= i < t.len() implies (#[trigger] t[i] matches Ok(found)
                ==> found.1) by {
                assert(t[i] == fetched[i]);
            }
            assert(fetched[fetched.len() - 1] == fetched.last());
        }
    }
}

/// Where no country gave a wallpaper, the round fails with what the last country told.
pub proof fn last_failure_is_told(
    fetched: Seq<Result<(CandidateView, bool), ErrorView>>,
    r: Result<FetchResult, WallpaperError>,
)
    requires
        fetched.len() > 0,
        forall|i: int| 0 <= i < fetched.len() ==> #[trigger] fetched[i] is Err,
        round_gives(round_of(fetched), r),
    ensures
        r matches Err(e) && Err::<(CandidateView, bool), ErrorView>(e@) == fetched.last(),
{
    lemma_nothing_found(fetched);
    assert(fetched[fetched.len() - 1] is Err);
}

proof fn lemma_nothing_found(fetched: Seq<Result<(CandidateView, bool), ErrorView>>)
    requires
        forall|i: int| 0 <= i < fetched.len() ==> #[trigger] fetched[i] is Err,
    ensures
        round_of(fetched).candidates.len() == 0,
    decreases fetched.len(),
{
    if fetched.len() > 0 {
        let t = fetched.drop_last();
        assert forall|i: int| 0 <= i < t.len() implies #[trigger] t[i] is Err by {
            assert(t[i] == fetched[i]);
        }
        lemma_nothing_found(t);
        assert(fetched[fetched.len() - 1] is Err);
    }
}

/// Where the settings name no country or no resolution, the usual ones stand in; what they name
/// is taken as it is, in its order.
pub proof fn usual_ones_stand_in_for_none(settings: BingSettings)
    ensures
        settings.countries@.len() == 0 ==> wanted_countries(settings) == seq!["en-US"@],
        settings.countries@.len() > 0 ==> wanted_countries(settings) == texts(settings.countries@),
        settings.resolutions@.len() == 0 ==> wanted_resolutions(settings) == seq![
            "1920x1200"@,
            "1920x1080"@,
            "1024x768"@,
            "1280x720"@,
            "1366x768"@,
            "UHD"@,
        ],
        settings.resolutions@.len() > 0 ==> wanted_resolutions(settings) == texts(
            settings.resolutions@,
        ),
{
}

/// A note that cannot be read ends the round with its failure; one that is there ends it too.
pub proof fn failure_of_the_note_is_told(
    job: RoundJob,
    skip: Result<Option<SourceSkip>, WallpaperError>,
    next: RoundStage,
    action: RoundAction,
)
    requires
        round_advances(job, RoundStage::Skip, RoundEvent::Skip(skip), next, action),
    ensures
        skip matches Err(e) ==> (action matches RoundAction::Finish(Err(told)) && told@ == e@),
        skip matches Ok(Some(_)) ==> (action matches RoundAction::Finish(Err(told)) && told@
            == ErrorView::Message("Bing skipped for "@ + job.date@ + "."@)),
        skip matches Ok(None) ==> job.countries@.len() > 0 ==> action is FetchCountry,
{
}

/// The round ends with the wallpapers of its countries, if there is one, and fails only without
/// any: a wallpaper of the only country is what is given.
pub proof fn wallpaper_of_one_country_is_given(
    job: RoundJob,
    round: BingRound,
    fetched: FetchedCandidate,
    next: RoundStage,
    action: RoundAction,
)
    requires
        job.countries@.len() == 1,
        round@ == empty_round(),
        round_advances(
            job,
            RoundStage::Country { at: 0, round },
            RoundEvent::Fetched(Ok(fetched)),
            next,
            action,
        ),
    ensures
        action matches RoundAction::Finish(Ok(found)) && found.candidates@.len() == 1
            && found.candidates@[0]@ == fetched.candidate@ && found.skipped_download
            == fetched.skipped_download,
{
    let v = round_after(round@, outcome(Ok(fetched)));
    assert(keys_of(round@.candidates) =~= Seq::empty());
    assert(v.candidates =~= seq![fetched.candidate@]);
    if let RoundAction::Finish(Ok(found)) = action {
        assert(candidates(found.candidates@).len() == found.candidates@.len());
        assert(candidates(found.candidates@)[0] == found.candidates@[0]@);
    }
}

/// What was found before is given too where the last country fails.
pub proof fn last_country_may_fail(
    job: RoundJob,
    at: usize,
    round: BingRound,
    e: WallpaperError,
    next: RoundStage,
    action: RoundAction,
)
    requires
        at + 1 == job.countries@.len(),
        round_advances(
            job,
            RoundStage::Country { at, round },
            RoundEvent::Fetched(Err(e)),
            next,
            action,
        ),
    ensures
        round@.candidates.len() > 0 ==> (action matches RoundAction::Finish(Ok(found))
            && candidates(found.candidates@) == round@.candidates),
        round@.candidates.len() == 0 ==> (action matches RoundAction::Finish(Err(told)) && told@
            == e@),
{
}

} // verus!

//! The automatic update: whether one is due, which wallpaper is applied, and what is removed from
//! the cache afterwards.
//!
//! An update is a machine. Each step says what is logged and what is asked for next.

use crate::apply::{ApplyOrder, candidate_order, order_for};
use crate::cache::{find_candidate_by_id, listed, opt_candidate, with_id};
use crate::chooser::{
    filter_candidates_by_min_resolution, kept_by_size, large_wallpapers_are_kept_in_order,
};
use crate::date::{Date, date_text, text_of_date};
use crate::days::{
    DayIndex, answers, decides, ends_at, find_candidate_any_date, is_cutoff, prune_targets, pruned,
};
use crate::error::{ErrorView, WallpaperError, error_text};
use crate::model::{
    AppliedView, CacheIndex, CandidateView, LastApplied, Settings, WallpaperCandidate,
    WallpaperSource, candidates, label, source_label,
};
use crate::number::{decimal, u64_text};
use crate::path::{join_path, path_join};
use crate::sources::bing::{date_of_text, text_date};
use crate::sources::fetch::{paths_of, paths_of_candidates};
use crate::sources::{
    FetchResult, Source, SourceRegistry, SourceSettings, date_label_for, is_date_label, known,
    require_source, variant_name,
};
use crate::text::{same, texts};
use vstd::prelude::*;

verus! {

// ------------------------------------------------------------------------------------------
// Whether an update is due
// ------------------------------------------------------------------------------------------

/// The day that the wallpaper that was applied last is of. Bing's own metadata, where the cache
/// has it, says it better than the note of what was applied.
pub open spec fn shown_day(last: AppliedView, cached: Option<CandidateView>) -> Option<Seq<char>> {
    let told = match cached {
        Some(c) => match c.metadata_xml {
            Some(xml) => text_date(xml),
            None => None,
        },
        None => None,
    };
    if last.source == WallpaperSource::Bing && told is Some {
        told
    } else {
        last.date
    }
}

/// Whether no update is due. `applied_on` is the day on which the last wallpaper was applied,
/// and `cached` what the cache has of it.
pub open spec fn up_to_date(
    last: AppliedView,
    applied_on: Option<Date>,
    today: Date,
    cached: Option<CandidateView>,
) -> bool {
    ||| last.applied_by_user && applied_on == Some(today)
    ||| shown_day(last, cached) == Some(date_text(today))
    ||| last.source != WallpaperSource::Bing && applied_on == Some(today)
}

fn is_day(applied_on: Option<Date>, today: Date) -> (r: bool)
    ensures
        r == (applied_on == Some(today)),
{
    match applied_on {
        Some(d) => d == today,
        None => false,
    }
}

/// Whether no update is due.
pub fn should_skip_auto_update(
    last: &LastApplied,
    applied_on: Option<Date>,
    today: Date,
    cached: Option<&WallpaperCandidate>,
) -> (r: bool)
    requires
        today.valid(),
    ensures
        r == up_to_date(
            last@,
            applied_on,
            today,
            match cached {
                Some(c) => Some(c@),
                None => None,
            },
        ),
        applied_on != Some(today) && last@.date != Some(date_text(today)) && cached is None ==> !r,
        applied_on == Some(today) && last.applied_by_user ==> r,
{
    if last.applied_by_user && is_day(applied_on, today) {
        return true;
    }
    let mut day = last.date.clone();
    if last.source == WallpaperSource::Bing {
        if let Some(c) = cached {
            if let Some(xml) = &c.metadata_xml {
                if let Some(told) = date_of_text(xml.as_str()) {
                    day = Some(told);
                }
            }
        }
    }
    if let Some(text) = &day {
        if same(text.as_str(), text_of_date(today).as_str()) {
            return true;
        }
    }
    last.source != WallpaperSource::Bing && is_day(applied_on, today)
}

// ------------------------------------------------------------------------------------------
// The update
// ------------------------------------------------------------------------------------------

/// What an update works with.
pub struct UpdateJob {
    pub settings: Settings,
    pub source_settings: SourceSettings,
    pub registry: SourceRegistry,
    /// The directory of the cache.
    pub cache_dir: String,
    pub today: Date,
}

/// How far the update is.
pub enum UpdateStage {
    /// What was applied last is read.
    ReadLast,
    /// What the cache has of it is looked for, on its day.
    ReadDay { last: LastApplied, applied_on: Option<Date> },
    /// What the cache has of it is looked for, on any day.
    ReadAll { last: LastApplied, applied_on: Option<Date> },
    /// The directory of the wallpapers is made.
    MakeDir,
    /// The source is asked.
    Fetch,
    /// The wallpapers are measured.
    Measure(FetchResult),
    /// A wallpaper is applied.
    Apply,
    /// The directories of the cache are listed.
    List,
    /// The directory at the position `at` is removed.
    Prune { targets: Vec<String>, at: usize },
    Over,
}

/// What the update asks for.
pub enum UpdateAction {
    ReadLast,
    ReadIndex(String),
    /// Read the index of every day.
    ReadIndexes,
    MakeDir(String),
    Fetch { source: WallpaperSource, date: String },
    Measure(Vec<String>),
    Apply(ApplyOrder),
    /// List the directories of the cache, if there is one.
    ListCache,
    RemoveDir(String),
    Finish(Result<(), WallpaperError>),
}

/// What an action brought about.
pub enum UpdateEvent {
    /// What was applied last, and the day on which it was.
    Last { last: Result<Option<LastApplied>, WallpaperError>, applied_on: Option<Date> },
    Index(Result<Option<CacheIndex>, WallpaperError>),
    Indexes(Result<Vec<DayIndex>, WallpaperError>),
    Outcome(Result<(), WallpaperError>),
    Fetched(Result<FetchResult, WallpaperError>),
    Sizes(Vec<Option<(u32, u32)>>),
    /// The names of the directories; `None` where there is no cache.
    Names(Result<Option<Vec<String>>, WallpaperError>),
}

/// A step of the update: what is logged, and what is asked for.
pub struct UpdateStep {
    pub stage: UpdateStage,
    pub log: Vec<String>,
    pub action: UpdateAction,
}

/// Whether the days that an update works with exist.
pub open spec fn update_job_sound(job: UpdateJob) -> bool {
    &&& job.today.valid()
    &&& job.settings.date_override matches Some(d) ==> d.valid()
}

/// Whether a stage is one of this update.
pub open spec fn update_sound(job: UpdateJob, at: UpdateStage) -> bool {
    match at {
        UpdateStage::ReadDay { last, .. } => last.source == WallpaperSource::Bing,
        UpdateStage::ReadAll { last, .. } => last.source == WallpaperSource::Bing,
        UpdateStage::Fetch | UpdateStage::Apply => job.registry@.contains(job.settings.source),
        UpdateStage::Measure(_) => job.registry@.contains(job.settings.source)
            && job.settings.min_resolution is Some,
        UpdateStage::List => job.settings.prune_cache_days is Some,
        UpdateStage::Prune { targets, at } => job.settings.prune_cache_days is Some && at
            < targets.len(),
        _ => true,
    }
}

/// Whether an event can follow the action of a stage.
pub open spec fn update_fits(at: UpdateStage, event: UpdateEvent) -> bool {
    match at {
        UpdateStage::ReadLast => event is Last,
        UpdateStage::ReadDay { .. } => event is Index,
        UpdateStage::ReadAll { .. } => event is Indexes,
        UpdateStage::MakeDir | UpdateStage::Apply | UpdateStage::Prune { .. } => event is Outcome,
        UpdateStage::Fetch => event is Fetched,
        UpdateStage::Measure(result) => event matches UpdateEvent::Sizes(sizes) && sizes@.len()
            == result.candidates@.len(),
        UpdateStage::List => event is Names,
        UpdateStage::Over => false,
    }
}

/// Whether the update ends with `error`.
pub open spec fn update_fails(error: ErrorView, step: UpdateStep) -> bool {
    &&& step.stage is Over
    &&& step.log@.len() == 0
    &&& step.action matches UpdateAction::Finish(Err(e)) && e@ == error
}

/// Whether the update ends well, after something was logged.
pub open spec fn update_ends(log: Seq<Seq<char>>, step: UpdateStep) -> bool {
    &&& step.stage is Over
    &&& texts(step.log@) == log
    &&& step.action == UpdateAction::Finish(Ok(()))
}

/// Whether an update that is due goes on: the directory of the wallpapers is made.
pub open spec fn goes_on(job: UpdateJob, step: UpdateStep) -> bool {
    &&& step.stage is MakeDir
    &&& step.log@.len() == 0
    &&& step.action matches UpdateAction::MakeDir(path) && path@ == job.settings.picture_dir@
}

/// Whether an update goes on where it is due, and ends where it is not.
pub open spec fn settles(due: bool, job: UpdateJob, step: UpdateStep) -> bool {
    if due {
        goes_on(job, step)
    } else {
        update_ends(seq!["Wallpaper already set today; skipping auto update."@], step)
    }
}

/// Whether every index is looked into.
pub open spec fn looks_everywhere(
    last: LastApplied,
    applied_on: Option<Date>,
    step: UpdateStep,
) -> bool {
    &&& step.stage == (UpdateStage::ReadAll { last, applied_on })
    &&& step.log@.len() == 0
    &&& step.action is ReadIndexes
}

/// Whether `found` is what the indexes have of a candidate; nothing where they cannot be read.
pub open spec fn found_anywhere(
    indexes: Result<Vec<DayIndex>, WallpaperError>,
    id: Seq<char>,
    found: Option<CandidateView>,
) -> bool {
    match indexes {
        Err(_) => found is None,
        Ok(days) => {
            &&& (forall|i: int| 0 <= i < days@.len() ==> !decides(#[trigger] days@[i], id)) ==> found
                is None
            &&& (exists|i: int| 0 <= i < days@.len() && decides(#[trigger] days@[i], id)) ==> exists|
                i: int,
            |
                #[trigger] ends_at(days@, id, i) && found == day_candidate(days@[i], id)
        },
    }
}

/// What a day has of a candidate; nothing where its index cannot be read.
pub open spec fn day_candidate(day: DayIndex, id: Seq<char>) -> Option<CandidateView> {
    match day.index {
        Ok(Some(index)) => with_id(index@.candidates, id),
        _ => None,
    }
}

/// Whether the source is asked, or the update refused.
pub open spec fn asks_source(job: UpdateJob, step: UpdateStep) -> bool {
    let source = job.settings.source;
    if job.settings.disabled_sources.has(source) {
        update_fails(
            ErrorView::Message(
                "Source "@ + label(source)
                    + " is disabled. Remove it from disabled_sources or choose another source."@,
            ),
            step,
        )
    } else if !job.registry@.contains(source) {
        update_fails(
            ErrorView::Message("Source "@ + variant_name(source) + " is not registered."@),
            step,
        )
    } else {
        &&& step.stage is Fetch
        &&& step.log@.len() == 0
        &&& step.action matches UpdateAction::Fetch { source: s, date } && s == source
            && is_date_label(
            date@,
            job.settings.date_override,
            known(source).takes_day(),
            job.source_settings.bing.day as int,
            job.today,
        )
    }
}

/// Whether the cache is pruned, if the settings say so, after something was logged.
pub open spec fn tidies(job: UpdateJob, log: Seq<Seq<char>>, step: UpdateStep) -> bool {
    if job.settings.prune_cache_days is Some {
        &&& step.stage is List
        &&& texts(step.log@) == log
        &&& step.action is ListCache
    } else {
        update_ends(log, step)
    }
}

/// Whether the wallpaper that the source prefers out of `list` is applied. Nothing is, with all
/// desktops set through the database, when nothing had to be downloaded.
pub open spec fn applies_preferred(
    job: UpdateJob,
    list: Seq<CandidateView>,
    skipped_download: bool,
    step: UpdateStep,
) -> bool {
    let source = known(job.settings.source);
    let at = source.preferred(job.source_settings);
    if at >= list.len() {
        update_fails(
            ErrorView::Message(source.none_found(job.source_settings, list.len())),
            step,
        )
    } else if job.settings.experimental && skipped_download {
        tidies(
            job,
            seq!["Download skipped; experimental all-desktops update not applied."@],
            step,
        )
    } else {
        &&& step.stage is Apply
        &&& step.log@.len() == 0
        &&& step.action matches UpdateAction::Apply(order) && order@ == order_for(list[at], false)
    }
}

/// The directory of the cache with the given name.
pub open spec fn pruned_path(job: UpdateJob, name: Seq<char>) -> Seq<char> {
    path_join(job.cache_dir@, name)
}

/// What is logged before a directory of the cache is removed.
pub open spec fn pruning_note(job: UpdateJob, name: Seq<char>) -> Seq<char> {
    "Pruning cache entry "@ + pruned_path(job, name) + " (older than "@ + decimal(
        job.settings.prune_cache_days.unwrap() as nat,
    ) + " days)"@
}

/// Whether the directory at the position `at` is removed, after something was logged; the update
/// ends where there is none.
pub open spec fn prunes(
    job: UpdateJob,
    targets: Seq<String>,
    at: int,
    log: Seq<Seq<char>>,
    step: UpdateStep,
) -> bool {
    if at < targets.len() {
        &&& step.stage matches UpdateStage::Prune { targets: t, at: a } && t@ == targets && a == at
        &&& texts(step.log@) == log.push(pruning_note(job, targets[at]@))
        &&& step.action matches UpdateAction::RemoveDir(path) && path@ == pruned_path(
            job,
            targets[at]@,
        )
    } else {
        update_ends(log, step)
    }
}

/// Whether `targets` are the directories, out of `names`, that are too old.
pub open spec fn too_old(job: UpdateJob, names: Seq<String>, targets: Seq<String>) -> bool {
    exists|cutoff: Date|
        #[trigger] is_cutoff(job.today, job.settings.prune_cache_days.unwrap() as int, cutoff)
            && targets == names.filter(|n: String| pruned(n@, cutoff))
}

/// Whether `step` follows when `event` comes at a stage.
pub open spec fn update_advances(
    job: UpdateJob,
    at: UpdateStage,
    event: UpdateEvent,
    step: UpdateStep,
) -> bool {
    match (at, event) {
        (UpdateStage::ReadLast, UpdateEvent::Last { last: Err(e), .. }) => update_fails(e@, step),
        (UpdateStage::ReadLast, UpdateEvent::Last { last: Ok(None), .. }) => goes_on(job, step),
        (UpdateStage::ReadLast, UpdateEvent::Last { last: Ok(Some(last)), applied_on }) => {
            if last.source != WallpaperSource::Bing || (last.applied_by_user && applied_on == Some(
                job.today,
            )) {
                settles(!up_to_date(last@, applied_on, job.today, None), job, step)
            } else {
                match last.date {
                    Some(date) => {
                        &&& step.stage == (UpdateStage::ReadDay { last, applied_on })
                        &&& step.log@.len() == 0
                        &&& step.action matches UpdateAction::ReadIndex(d) && d@ == date@
                    },
                    None => looks_everywhere(last, applied_on, step),
                }
            }
        },
        (UpdateStage::ReadDay { last, applied_on }, UpdateEvent::Index(index)) => {
            let found = match index {
                Ok(i) => with_id(listed(i), last.candidate_id@),
                Err(_) => None,
            };
            if found is Some {
                settles(!up_to_date(last@, applied_on, job.today, found), job, step)
            } else {
                looks_everywhere(last, applied_on, step)
            }
        },
        (UpdateStage::ReadAll { last, applied_on }, UpdateEvent::Indexes(indexes)) => {
            exists|found: Option<CandidateView>|
                #[trigger] found_anywhere(indexes, last.candidate_id@, found) && settles(
                    !up_to_date(last@, applied_on, job.today, found),
                    job,
                    step,
                )
        },
        (UpdateStage::MakeDir, UpdateEvent::Outcome(Err(e))) => update_fails(e@, step),
        (UpdateStage::MakeDir, UpdateEvent::Outcome(Ok(_))) => asks_source(job, step),
        (UpdateStage::Fetch, UpdateEvent::Fetched(Err(e))) => update_fails(e@, step),
        (UpdateStage::Fetch, UpdateEvent::Fetched(Ok(result))) => {
            if job.settings.min_resolution is None {
                applies_preferred(
                    job,
                    candidates(result.candidates@),
                    result.skipped_download,
                    step,
                )
            } else {
                &&& step.stage == UpdateStage::Measure(result)
                &&& step.log@.len() == 0
                &&& step.action matches UpdateAction::Measure(paths) && texts(paths@) == paths_of(
                    candidates(result.candidates@),
                )
            }
        },
        (UpdateStage::Measure(result), UpdateEvent::Sizes(sizes)) => applies_preferred(
            job,
            candidates(
                kept_by_size(result.candidates@, sizes@, job.settings.min_resolution.unwrap()),
            ),
            result.skipped_download,
            step,
        ),
        (UpdateStage::Apply, UpdateEvent::Outcome(Err(e))) => update_fails(e@, step),
        (UpdateStage::Apply, UpdateEvent::Outcome(Ok(_))) => tidies(job, Seq::empty(), step),
        (UpdateStage::List, UpdateEvent::Names(Err(e))) => update_fails(e@, step),
        (UpdateStage::List, UpdateEvent::Names(Ok(None))) => update_ends(Seq::empty(), step),
        (UpdateStage::List, UpdateEvent::Names(Ok(Some(names)))) => exists|targets: Seq<String>|
            #[trigger] too_old(job, names@, targets) && prunes(job, targets, 0, Seq::empty(), step),
        (UpdateStage::Prune { targets, at }, UpdateEvent::Outcome(outcome)) => prunes(
            job,
            targets@,
            at + 1,
            match outcome {
                Ok(_) => Seq::empty(),
                Err(e) => seq![
                    "Failed to prune "@ + pruned_path(job, targets@[at as int]@) + ": "@
                        + error_text(e@),
                ],
            },
            step,
        ),
        _ => false,
    }
}

fn update_fail(error: WallpaperError) -> (r: UpdateStep)
    ensures
        update_fails(error@, r),
{
    UpdateStep {
        stage: UpdateStage::Over,
        log: Vec::new(),
        action: UpdateAction::Finish(Err(error)),
    }
}

fn update_end(log: Vec<String>) -> (r: UpdateStep)
    ensures
        update_ends(texts(log@), r),
{
    UpdateStep { stage: UpdateStage::Over, log, action: UpdateAction::Finish(Ok(())) }
}

fn one_line(text: &str) -> (r: Vec<String>)
    ensures
        texts(r@) == seq![text@],
{
    let r = vec![text.to_string()];
    assert(texts(r@) =~= seq![text@]);
    r
}

fn go_on(job: &UpdateJob) -> (r: UpdateStep)
    ensures
        goes_on(*job, r),
{
    UpdateStep {
        stage: UpdateStage::MakeDir,
        log: Vec::new(),
        action: UpdateAction::MakeDir(job.settings.picture_dir.clone()),
    }
}

fn settle(due: bool, job: &UpdateJob) -> (r: UpdateStep)
    ensures
        settles(due, *job, r),
        update_sound(*job, r.stage),
{
    if due {
        go_on(job)
    } else {
        update_end(one_line("Wallpaper already set today; skipping auto update."))
    }
}

fn look_everywhere(last: LastApplied, applied_on: Option<Date>) -> (r: UpdateStep)
    ensures
        looks_everywhere(last, applied_on, r),
{
    UpdateStep {
        stage: UpdateStage::ReadAll { last, applied_on },
        log: Vec::new(),
        action: UpdateAction::ReadIndexes,
    }
}

fn find_anywhere(indexes: Result<Vec<DayIndex>, WallpaperError>, id: &str) -> (r: Option<
    WallpaperCandidate,
>)
    ensures
        found_anywhere(indexes, id@, opt_candidate(r)),
{
    let days = match indexes {
        Ok(days) => days,
        Err(_) => {
            return None;
        },
    };
    let ghost all = days@;
    let found = find_candidate_any_date(days, id);
    proof {
        if exists|i: int| 0 <= i < all.len() && decides(#[trigger] all[i], id@) {
            let i = choose|i: int| #[trigger] ends_at(all, id@, i) && answers(all[i], id@, found);
            assert(ends_at(all, id@, i));
        }
    }
    match found {
        Ok(c) => c,
        Err(_) => None,
    }
}

fn ask_source(job: &UpdateJob) -> (r: UpdateStep)
    requires
        update_job_sound(*job),
    ensures
        asks_source(*job, r),
        update_sound(*job, r.stage),
{
    let source = job.settings.source;
    if job.settings.disabled_sources.contains(source) {
        let mut text = "Source ".to_string();
        text.append(source_label(source));
        text.append(" is disabled. Remove it from disabled_sources or choose another source.");
        return update_fail(WallpaperError::Message(text));
    }
    if let Err(e) = require_source(&job.registry, source) {
        return update_fail(e);
    }
    UpdateStep {
        stage: UpdateStage::Fetch,
        log: Vec::new(),
        action: UpdateAction::Fetch {
            source,
            date: date_label_for(Some(source), &job.settings, &job.source_settings, job.today),
        },
    }
}

fn tidy(job: &UpdateJob, log: Vec<String>) -> (r: UpdateStep)
    ensures
        tidies(*job, texts(log@), r),
        update_sound(*job, r.stage),
{
    if job.settings.prune_cache_days.is_some() {
        UpdateStep { stage: UpdateStage::List, log, action: UpdateAction::ListCache }
    } else {
        update_end(log)
    }
}

fn apply_preferred(
    job: &UpdateJob,
    list: &Vec<WallpaperCandidate>,
    skipped_download: bool,
) -> (r: UpdateStep)
    requires
        job.registry@.contains(job.settings.source),
    ensures
        applies_preferred(*job, candidates(list@), skipped_download, r),
        update_sound(*job, r.stage),
{
    assert(candidates(list@).len() == list@.len());
    let source = match require_source(&job.registry, job.settings.source) {
        Ok(s) => s,
        Err(e) => {
            return update_fail(e);
        },
    };
    assert(*source == known(job.settings.source));
    let picked = match source.pick_default(list, &job.source_settings) {
        Ok(c) => c,
        Err(e) => {
            return update_fail(e);
        },
    };
    if job.settings.experimental && skipped_download {
        return tidy(
            job,
            one_line("Download skipped; experimental all-desktops update not applied."),
        );
    }
    UpdateStep {
        stage: UpdateStage::Apply,
        log: Vec::new(),
        action: UpdateAction::Apply(candidate_order(picked, false)),
    }
}

fn prune(job: &UpdateJob, targets: Vec<String>, at: usize, log: Vec<String>) -> (r: UpdateStep)
    requires
        job.settings.prune_cache_days is Some,
    ensures
        prunes(*job, targets@, at as int, texts(log@), r),
        update_sound(*job, r.stage),
{
    if at >= targets.len() {
        return update_end(log);
    }
    let mut log = log;
    let ghost before = log@;
    let path = join_path(job.cache_dir.as_str(), targets[at].as_str());
    let mut text = "Pruning cache entry ".to_string();
    text.append(path.as_str());
    text.append(" (older than ");
    text.append(u64_text(job.settings.prune_cache_days.unwrap() as u64).as_str());
    text.append(" days)");
    let ghost line = text@;
    log.push(text);
    assert(texts(log@) =~= texts(before).push(line));
    UpdateStep {
        stage: UpdateStage::Prune { targets, at },
        log,
        action: UpdateAction::RemoveDir(path),
    }
}

/// Whether `step` begins an update. One that is forced is always due.
pub open spec fn update_begins(job: UpdateJob, step: UpdateStep) -> bool {
    if job.settings.force {
        goes_on(job, step)
    } else {
        step.stage is ReadLast && step.log@.len() == 0 && step.action is ReadLast
    }
}

/// Begins an update. One that is forced is always due.
pub fn run_auto_update_body(job: &UpdateJob) -> (r: UpdateStep)
    ensures
        if job.settings.force {
            goes_on(*job, r)
        } else {
            r.stage is ReadLast && r.log@.len() == 0 && r.action is ReadLast
        },
        update_sound(*job, r.stage),
        update_begins(*job, r),
{
    if job.settings.force {
        return go_on(job);
    }
    UpdateStep {
        stage: UpdateStage::ReadLast,
        log: Vec::new(),
        action: UpdateAction::ReadLast,
    }
}

/// The next step of the update.
pub fn update_step(job: &UpdateJob, at: UpdateStage, event: UpdateEvent) -> (r: UpdateStep)
    requires
        update_job_sound(*job),
        update_sound(*job, at),
        update_fits(at, event),
    ensures
        update_advances(*job, at, event, r),
        update_sound(*job, r.stage),
{
    match (at, event) {
        (UpdateStage::ReadLast, UpdateEvent::Last { last: Err(e), .. }) => update_fail(e),
        (UpdateStage::ReadLast, UpdateEvent::Last { last: Ok(None), .. }) => go_on(job),
        (UpdateStage::ReadLast, UpdateEvent::Last { last: Ok(Some(last)), applied_on }) => {
            if last.source != WallpaperSource::Bing || (last.applied_by_user && is_day(
                applied_on,
                job.today,
            )) {
                let skip = should_skip_auto_update(&last, applied_on, job.today, None);
                return settle(!skip, job);
            }
            match last.date.clone() {
                Some(date) => UpdateStep {
                    stage: UpdateStage::ReadDay { last, applied_on },
                    log: Vec::new(),
                    action: UpdateAction::ReadIndex(date),
                },
                None => look_everywhere(last, applied_on),
            }
        },
        (UpdateStage::ReadDay { last, applied_on }, UpdateEvent::Index(index)) => {
            let found = match &index {
                Ok(i) => find_candidate_by_id(i.as_ref(), last.candidate_id.as_str()),
                Err(_) => None,
            };
            assert(index matches Ok(None) ==> listed(None).len() == 0);
            match found {
                Some(c) => {
                    let skip = should_skip_auto_update(&last, applied_on, job.today, Some(&c));
                    settle(!skip, job)
                },
                None => look_everywhere(last, applied_on),
            }
        },
        (UpdateStage::ReadAll { last, applied_on }, UpdateEvent::Indexes(indexes)) => {
            let found = find_anywhere(indexes, last.candidate_id.as_str());
            let skip = match &found {
                Some(c) => should_skip_auto_update(&last, applied_on, job.today, Some(c)),
                None => should_skip_auto_update(&last, applied_on, job.today, None),
            };
            let step = settle(!skip, job);
            assert(found_anywhere(indexes, last.candidate_id@, opt_candidate(found)));
            step
        },
        (UpdateStage::MakeDir, UpdateEvent::Outcome(Err(e))) => update_fail(e),
        (UpdateStage::MakeDir, UpdateEvent::Outcome(Ok(_))) => ask_source(job),
        (UpdateStage::Fetch, UpdateEvent::Fetched(Err(e))) => update_fail(e),
        (UpdateStage::Fetch, UpdateEvent::Fetched(Ok(result))) => {
            if job.settings.min_resolution.is_none() {
                return apply_preferred(job, &result.candidates, result.skipped_download);
            }
            let paths = paths_of_candidates(&result.candidates);
            UpdateStep {
                stage: UpdateStage::Measure(result),
                log: Vec::new(),
                action: UpdateAction::Measure(paths),
            }
        },
        (UpdateStage::Measure(result), UpdateEvent::Sizes(sizes)) => {
            let kept = filter_candidates_by_min_resolution(
                result.candidates,
                job.settings.min_resolution,
                &sizes,
            );
            apply_preferred(job, &kept, result.skipped_download)
        },
        (UpdateStage::Apply, UpdateEvent::Outcome(Err(e))) => update_fail(e),
        (UpdateStage::Apply, UpdateEvent::Outcome(Ok(_))) => {
            let log: Vec<String> = Vec::new();
            assert(texts(log@) =~= Seq::empty());
            tidy(job, log)
        },
        (UpdateStage::List, UpdateEvent::Names(Err(e))) => update_fail(e),
        (UpdateStage::List, UpdateEvent::Names(Ok(None))) => {
            let log: Vec<String> = Vec::new();
            assert(texts(log@) =~= Seq::empty());
            update_end(log)
        },
        (UpdateStage::List, UpdateEvent::Names(Ok(Some(names)))) => {
            let targets = prune_targets(
                &names,
                job.today,
                job.settings.prune_cache_days.unwrap(),
            );
            let log: Vec<String> = Vec::new();
            assert(texts(log@) =~= Seq::empty());
            assert(too_old(*job, names@, targets@));
            prune(job, targets, 0, log)
        },
        (UpdateStage::Prune { targets, at }, UpdateEvent::Outcome(outcome)) => {
            let mut log: Vec<String> = Vec::new();
            if let Err(e) = outcome {
                let mut text = "Failed to prune ".to_string();
                text.append(join_path(job.cache_dir.as_str(), targets[at].as_str()).as_str());
                text.append(": ");
                text.append(e.message().as_str());
                let ghost line = text@;
                log.push(text);
                assert(texts(log@) =~= seq![line]);
            } else {
                assert(texts(log@) =~= Seq::empty());
            }
            prune(job, targets, at + 1, log)
        },
        _ => vstd::pervasive::unreached(),
    }
}

// ------------------------------------------------------------------------------------------
// What holds of every update
// ------------------------------------------------------------------------------------------

/// A source that is disabled is never asked.
pub proof fn disabled_source_is_not_asked(
    job: UpdateJob,
    at: UpdateStage,
    event: UpdateEvent,
    step: UpdateStep,
)
    requires
        update_fits(at, event),
        update_advances(job, at, event, step),
        job.settings.disabled_sources.has(job.settings.source),
    ensures
        !(step.action is Fetch),
{
}

/// The cache is pruned only after the update succeeded.
pub proof fn pruning_follows_success(
    job: UpdateJob,
    at: UpdateStage,
    event: UpdateEvent,
    step: UpdateStep,
)
    requires
        update_fits(at, event),
        update_advances(job, at, event, step),
        step.action is ListCache,
    ensures
        job.settings.prune_cache_days is Some,
        at is Apply && (event matches UpdateEvent::Outcome(Ok(_))) || (at is Fetch || at is Measure)
            && job.settings.experimental,
{
}

/// What the update applies is a wallpaper that the source found, and one that is large enough
/// where the settings ask for a size; it is not noted as the user's own choice.
pub proof fn applied_wallpaper_was_found(
    job: UpdateJob,
    result: FetchResult,
    sizes: Vec<Option<(u32, u32)>>,
    step: UpdateStep,
)
    requires
        sizes@.len() == result.candidates@.len(),
        update_advances(job, UpdateStage::Measure(result), UpdateEvent::Sizes(sizes), step),
        step.action is Apply,
    ensures
        exists|i: int|
            0 <= i < result.candidates@.len() && (sizes@[i] matches Some(s)
                && s.0 >= job.settings.min_resolution.unwrap().0 && s.1
                >= job.settings.min_resolution.unwrap().1) && applies_file_of(
                step.action,
                #[trigger] result.candidates@[i]@,
            ),
        exists|i: int|
            0 <= i < result.candidates@.len() && crate::chooser::large_enough(
                job.settings.min_resolution.unwrap(),
                sizes@[i],
            ) && #[trigger] order_for(result.candidates@[i]@, false)
                == step.action->Apply_0@,
{
    let min = job.settings.min_resolution.unwrap();
    let kept = kept_by_size(result.candidates@, sizes@, min);
    let at = known(job.settings.source).preferred(job.source_settings);
    assert(candidates(kept).len() == kept.len());
    assert(candidates(kept)[at] == kept[at]@);
    lemma_kept(result.candidates@, sizes@, min, at);
    let positions = large_wallpapers_are_kept_in_order(result.candidates@, sizes@, min);
    let i = positions[at];
    assert(result.candidates@[i]@ == kept[at]@);
}

proof fn lemma_kept(
    list: Seq<WallpaperCandidate>,
    sizes: Seq<Option<(u32, u32)>>,
    min: (u32, u32),
    at: int,
)
    requires
        0 <= at < kept_by_size(list, sizes, min).len(),
    ensures
        exists|i: int|
            0 <= i < list.len() && crate::chooser::large_enough(min, sizes[i])
                && #[trigger] order_for(list[i]@, false) == order_for(
                kept_by_size(list, sizes, min)[at]@,
                false,
            ),
    decreases list.len(),
{
    if list.len() > 0 {
        let before = kept_by_size(list.drop_last(), sizes, min);
        if at < before.len() {
            lemma_kept(list.drop_last(), sizes, min, at);
            let i = choose|i: int|
                0 <= i < list.len() - 1 && crate::chooser::large_enough(min, sizes[i])
                    && #[trigger] order_for(list.drop_last()[i]@, false) == order_for(
                    before[at]@,
                    false,
                );
            assert(order_for(list[i]@, false) == order_for(before[at]@, false));
        } else {
            assert(order_for(list[list.len() - 1]@, false) == order_for(list.last()@, false));
        }
    }
}

/// Whether a wallpaper is applied from its own file, under its own id, source and day, and not as
/// the choice of the user.
pub open spec fn applies_file_of(action: UpdateAction, c: CandidateView) -> bool {
    action matches UpdateAction::Apply(order) && order@.path == c.local_path && order@.candidate_id
        == c.id && order@.source == c.source && order@.date == Some(c.date) && !order@.by_user
}

/// An update is skipped only for a reason of today: the last wallpaper was applied today, the note
/// says that it is of today, or Bing's own metadata does.
pub proof fn skipping_has_a_reason_of_today(
    last: AppliedView,
    applied_on: Option<Date>,
    today: Date,
    cached: Option<CandidateView>,
)
    requires
        applied_on != Some(today),
        last.date != Some(date_text(today)),
        cached matches Some(c) ==> (c.metadata_xml matches Some(xml) ==> text_date(xml) != Some(
            date_text(today),
        )),
    ensures
        !up_to_date(last, applied_on, today, cached),
{
}

/// What was applied today by the user, or from another source than Bing, is not replaced today.
pub proof fn applied_today_is_kept(
    last: AppliedView,
    applied_on: Option<Date>,
    today: Date,
    cached: Option<CandidateView>,
)
    requires
        applied_on == Some(today),
        last.applied_by_user || !(last.source is Bing),
    ensures
        up_to_date(last, applied_on, today, cached),
{
}

/// Where Bing's own metadata names the day of a wallpaper, that decides whether it is replaced,
/// whatever the note says, unless the user applied it today.
pub proof fn metadata_decides_about_bing(
    last: AppliedView,
    applied_on: Option<Date>,
    today: Date,
    c: CandidateView,
    xml: Seq<char>,
    day: Seq<char>,
)
    requires
        last.source is Bing,
        !last.applied_by_user || applied_on != Some(today),
        c.metadata_xml == Some(xml),
        text_date(xml) == Some(day),
    ensures
        up_to_date(last, applied_on, today, Some(c)) <==> day == date_text(today),
{
}

/// Without metadata the note of what was applied names the day, and a wallpaper of today is not
/// replaced.
pub proof fn wallpaper_of_today_is_kept(last: AppliedView, applied_on: Option<Date>, today: Date)
    requires
        last.date == Some(date_text(today)),
    ensures
        up_to_date(last, applied_on, today, None),
{
}

/// Whether an update is given up because nothing is due.
pub open spec fn gives_up(step: UpdateStep) -> bool {
    step.action == UpdateAction::Finish(Ok(()))
}

/// Whether an update goes on to make the directory of the wallpapers, which comes before the
/// source is asked.
pub open spec fn begins_work(job: UpdateJob, step: UpdateStep) -> bool {
    &&& step.stage is MakeDir
    &&& step.action matches UpdateAction::MakeDir(path) && path@ == job.settings.picture_dir@
}

/// An update whose last wallpaper is neither of today nor applied today goes on, whoever applied
/// that wallpaper and whichever source it is of, unless Bing's metadata names today; one that is
/// told so is given up, and nothing else happens in the meantime.
pub proof fn update_that_is_due_goes_on(
    job: UpdateJob,
    at: UpdateStage,
    event: UpdateEvent,
    step: UpdateStep,
    last: LastApplied,
    applied_on: Option<Date>,
)
    requires
        update_fits(at, event),
        update_sound(job, at),
        update_advances(job, at, event, step),
        match at {
            UpdateStage::ReadLast => event == (UpdateEvent::Last {
                last: Ok(Some(last)),
                applied_on,
            }),
            UpdateStage::ReadDay { last: l, applied_on: on } => l == last && on == applied_on,
            UpdateStage::ReadAll { last: l, applied_on: on } => l == last && on == applied_on,
            _ => false,
        },
    ensures
        gives_up(step) || begins_work(job, step) || step.action is ReadIndex
            || step.action is ReadIndexes,
        gives_up(step) && !(applied_on == Some(job.today)) && last@.date != Some(
            date_text(job.today),
        ) ==> last.source is Bing && !(at is ReadLast),
        last.applied_by_user && applied_on == Some(job.today) && at is ReadLast ==> gives_up(step),
        at is ReadLast && !(last.source is Bing) ==> (gives_up(step) <==> applied_on == Some(
            job.today,
        ) || last@.date == Some(date_text(job.today))),
{
}

/// A forced update is due whatever was applied before; another one looks at that first.
pub proof fn forced_update_is_due(job: UpdateJob, step: UpdateStep)
    requires
        update_begins(job, step),
    ensures
        job.settings.force ==> begins_work(job, step),
        !job.settings.force ==> step.action is ReadLast,
{
}

/// Without anything applied before, an update is due.
pub proof fn first_update_is_due(job: UpdateJob, applied_on: Option<Date>, step: UpdateStep)
    requires
        update_advances(
            job,
            UpdateStage::ReadLast,
            UpdateEvent::Last { last: Ok(None), applied_on },
            step,
        ),
    ensures
        begins_work(job, step),
{
}

/// The source that is asked is the one of the settings, for the day that was picked, or else for
/// today or the day that the settings name.
pub proof fn source_of_the_settings_is_asked(job: UpdateJob, step: UpdateStep)
    requires
        update_advances(job, UpdateStage::MakeDir, UpdateEvent::Outcome(Ok(())), step),
        !job.settings.disabled_sources.has(job.settings.source),
        job.registry@.contains(job.settings.source),
    ensures
        step.action matches UpdateAction::Fetch { source, date } && source == job.settings.source
            && (job.settings.date_override matches Some(d) ==> date@ == date_text(d)) && (
        job.settings.date_override is None && source is Spotlight ==> date@ == date_text(
            job.today,
        )),
{
}

/// Without a size to ask for, the first wallpaper that a source found is applied, of Spotlight the
/// one with the number of the settings; from its own file, and not as the choice of the user.
pub proof fn first_wallpaper_is_applied(
    job: UpdateJob,
    result: FetchResult,
    at: int,
    step: UpdateStep,
)
    requires
        update_advances(job, UpdateStage::Fetch, UpdateEvent::Fetched(Ok(result)), step),
        job.settings.min_resolution is None,
        !job.settings.experimental,
        !(job.settings.source is Spotlight) ==> at == 0,
        job.settings.source is Spotlight ==> at + 1 == job.source_settings.spotlight.index,
        0 <= at < result.candidates@.len(),
    ensures
        applies_file_of(step.action, result.candidates@[at]@),
{
    assert(candidates(result.candidates@).len() == result.candidates@.len());
    assert(candidates(result.candidates@)[at] == result.candidates@[at]@);
}

/// With all desktops set through the database, nothing is applied where nothing was downloaded,
/// and only there.
pub proof fn nothing_new_is_not_applied_to_all_desktops(
    job: UpdateJob,
    result: FetchResult,
    step: UpdateStep,
)
    requires
        update_advances(job, UpdateStage::Fetch, UpdateEvent::Fetched(Ok(result)), step),
        job.settings.min_resolution is None,
        job.settings.experimental,
        !(job.settings.source is Spotlight),
        result.candidates@.len() > 0,
    ensures
        step.action is Apply <==> !result.skipped_download,
{
    assert(candidates(result.candidates@).len() == result.candidates@.len());
}

/// Where a source found nothing that can be applied, the update fails.
pub proof fn nothing_found_is_a_failure(job: UpdateJob, result: FetchResult, step: UpdateStep)
    requires
        update_advances(job, UpdateStage::Fetch, UpdateEvent::Fetched(Ok(result)), step),
        job.settings.min_resolution is None,
        result.candidates@.len() == 0,
    ensures
        step.action matches UpdateAction::Finish(Err(_)),
{
    assert(candidates(result.candidates@).len() == 0);
}

/// What is removed from the cache is a directory of it that is named by a day older than asked
/// for.
pub proof fn only_old_days_are_removed(
    job: UpdateJob,
    names: Vec<String>,
    step: UpdateStep,
    keep: u32,
)
    requires
        job.today.valid(),
        job.settings.prune_cache_days == Some(keep),
        crate::date::has_day_before(job.today, keep as int),
        update_advances(job, UpdateStage::List, UpdateEvent::Names(Ok(Some(names))), step),
        step.action is RemoveDir,
    ensures
        exists|n: int|
            0 <= n < names@.len() && step.action->RemoveDir_0@ == path_join(
                job.cache_dir@,
                (#[trigger] names@[n])@,
            ) && (crate::date::date_of(names@[n]@) matches Some(d) && (d.valid()
                ==> job.today.number() - d.number() > keep)),
{
    let targets = choose|targets: Seq<String>|
        #[trigger] too_old(job, names@, targets) && prunes(job, targets, 0, Seq::empty(), step);
    let cutoff = choose|cutoff: Date|
        #[trigger] is_cutoff(job.today, job.settings.prune_cache_days.unwrap() as int, cutoff)
            && targets == names@.filter(|n: String| pruned(n@, cutoff));
    let p = |n: String| pruned(n@, cutoff);
    assert(targets == names@.filter(p));
    names@.lemma_filter_pred(p, 0);
    lemma_from(names@, p, 0);
    let n = choose|n: int| 0 <= n < names@.len() && #[trigger] names@[n] == targets[0];
    let d = crate::date::date_of(names@[n]@).unwrap();
    if d.valid() {
        crate::date::order_is_by_number(d, cutoff);
    }
}

proof fn lemma_from(s: Seq<String>, p: spec_fn(String) -> bool, k: int)
    requires
        0 <= k < s.filter(p).len(),
    ensures
        exists|i: int| 0 <= i < s.len() && #[trigger] s[i] == s.filter(p)[k],
    decreases s.len(),
{
    reveal(Seq::filter);
    if s.len() > 0 {
        let t = s.drop_last();
        if k < t.filter(p).len() {
            lemma_from(t, p, k);
            let i = choose|i: int| 0 <= i < t.len() && #[trigger] t[i] == t.filter(p)[k];
            assert(s[i] == t[i]);
        } else {
            assert(s[s.len() - 1] == s.filter(p)[k]);
        }
    }
}

/// What fails on the way is told as it is, and ends the update.
pub proof fn failed_update_is_told(
    job: UpdateJob,
    at: UpdateStage,
    event: UpdateEvent,
    e: WallpaperError,
    applied_on: Option<Date>,
    step: UpdateStep,
)
    requires
        update_advances(job, at, event, step),
        at is ReadLast && event == (UpdateEvent::Last { last: Err(e), applied_on }) || at is MakeDir
            && event == UpdateEvent::Outcome(Err(e)) || at is Fetch && event == UpdateEvent::Fetched(
            Err(e),
        ) || at is Apply && event == UpdateEvent::Outcome(Err(e)),
    ensures
        step.stage is Over,
        step.action matches UpdateAction::Finish(Err(told)) && told@ == e@,
{
}

/// A wallpaper of Bing that was not applied by the user today is looked up in the index of its own
/// day, by its own id.
pub proof fn last_wallpaper_is_looked_up_by_its_day(
    job: UpdateJob,
    last: LastApplied,
    applied_on: Option<Date>,
    day: String,
    step: UpdateStep,
)
    requires
        last.source is Bing,
        !(last.applied_by_user && applied_on == Some(job.today)),
        last.date == Some(day),
        update_advances(
            job,
            UpdateStage::ReadLast,
            UpdateEvent::Last { last: Ok(Some(last)), applied_on },
            step,
        ),
    ensures
        step.stage == (UpdateStage::ReadDay { last, applied_on }),
        step.action matches UpdateAction::ReadIndex(d) && d@ == day@,
{
}

/// Where a size is asked for, the files of the wallpapers that the source found are measured, one
/// for each.
pub proof fn found_files_are_measured(
    job: UpdateJob,
    result: FetchResult,
    step: UpdateStep,
    i: int,
)
    requires
        job.settings.min_resolution is Some,
        0 <= i < result.candidates@.len(),
        update_advances(job, UpdateStage::Fetch, UpdateEvent::Fetched(Ok(result)), step),
    ensures
        step.stage == UpdateStage::Measure(result),
        step.action matches UpdateAction::Measure(paths) && paths@.len()
            == result.candidates@.len() && paths@[i]@ == result.candidates@[i].local_path@,
{
    if let UpdateAction::Measure(paths) = step.action {
        assert(texts(paths@).len() == result.candidates@.len());
        assert(texts(paths@)[i] == paths@[i]@);
        assert(candidates(result.candidates@)[i] == result.candidates@[i]@);
    }
}

/// A wallpaper that its own day does not know is searched for in all days, as the same one.
pub proof fn unknown_wallpaper_is_searched_for(
    job: UpdateJob,
    last: LastApplied,
    applied_on: Option<Date>,
    e: WallpaperError,
    step: UpdateStep,
)
    requires
        update_advances(
            job,
            UpdateStage::ReadDay { last, applied_on },
            UpdateEvent::Index(Err(e)),
            step,
        ),
    ensures
        step.stage == (UpdateStage::ReadAll { last, applied_on }),
        step.action is ReadIndexes,
{
}

/// The days that are too old are removed one after the other; behind the last one the update ends.
pub proof fn old_days_are_removed_in_turn(
    job: UpdateJob,
    targets: Seq<String>,
    at: int,
    log: Seq<Seq<char>>,
    step: UpdateStep,
)
    requires
        0 <= at,
        prunes(job, targets, at, log, step),
    ensures
        at < targets.len() ==> (step.stage matches UpdateStage::Prune { targets: t, at: a } && t@
            == targets && a == at) && (step.action matches UpdateAction::RemoveDir(path) && path@
            == path_join(job.cache_dir@, targets[at]@)),
        at >= targets.len() ==> step.action == UpdateAction::Finish(Ok(())),
{
}

} // verus!

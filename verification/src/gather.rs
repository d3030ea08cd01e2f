//! Gathering the candidates of all sources.
//!
//! The sources are asked one after the other. A source that fails, or that the user cancels, is
//! skipped; that is noted, so that it is not tried again on that day unless forced.

use crate::error::{ErrorView, WallpaperError, error_text, failure};
use crate::model::{
    CandidateView, SourceSkip, WallpaperCandidate, WallpaperSource, candidates, label,
    source_label,
};
use crate::number::{decimal, u64_text};
use crate::sources::FetchResult;
use crate::text::{contains, holds, opt_text, texts};
use vstd::prelude::*;

verus! {

/// A source and the day that it is asked for.
pub struct SourceDay {
    pub source: WallpaperSource,
    pub date: String,
}

/// What is gathered.
pub struct GatherJob {
    pub sources: Vec<SourceDay>,
    pub force: bool,
    pub offline: bool,
    pub quiet: bool,
    pub verbose: bool,
}

/// What is done along the way; whether it succeeds does not matter.
pub enum GatherCommand {
    /// Note that a source is being fetched.
    WriteInProgress { source: WallpaperSource, date: String },
    /// Remove that note.
    ClearInProgress { source: WallpaperSource, date: String },
    /// Note that a source is not to be tried again.
    WriteSkip { source: WallpaperSource, date: String, reason: String },
    /// Log a text; only in verbose mode if `verbose`.
    Say { text: String, verbose: bool },
    /// Forget that the user has canceled.
    ClearCancel,
}

/// The value of a `GatherCommand`.
#[verifier::ext_equal]
pub enum CommandView {
    WriteInProgress { source: WallpaperSource, date: Seq<char> },
    ClearInProgress { source: WallpaperSource, date: Seq<char> },
    WriteSkip { source: WallpaperSource, date: Seq<char>, reason: Seq<char> },
    Say { text: Seq<char>, verbose: bool },
    ClearCancel,
}

impl View for GatherCommand {
    type V = CommandView;

    open spec fn view(&self) -> CommandView {
        match *self {
            GatherCommand::WriteInProgress { source, date } => CommandView::WriteInProgress {
                source,
                date: date@,
            },
            GatherCommand::ClearInProgress { source, date } => CommandView::ClearInProgress {
                source,
                date: date@,
            },
            GatherCommand::WriteSkip { source, date, reason } => CommandView::WriteSkip {
                source,
                date: date@,
                reason: reason@,
            },
            GatherCommand::Say { text, verbose } => CommandView::Say { text: text@, verbose },
            GatherCommand::ClearCancel => CommandView::ClearCancel,
        }
    }
}

/// The values of commands.
pub open spec fn commands(list: Seq<GatherCommand>) -> Seq<CommandView> {
    list.map_values(|c: GatherCommand| c@)
}

/// What is asked for once the commands have been carried out.
pub enum GatherRequest {
    /// Is there a note that the source is being fetched?
    ReadInProgress { source: WallpaperSource, date: String },
    /// Fetch the source.
    Fetch { source: WallpaperSource, date: String },
    /// Is there a note that the source is not to be tried again?
    ReadSkip { source: WallpaperSource, date: String },
    Finish(Result<Vec<WallpaperCandidate>, WallpaperError>),
}

/// What a request brought about.
pub enum GatherEvent {
    InProgress(Result<bool, WallpaperError>),
    Fetched(FetchResult),
    /// The fetch failed; `canceled` says whether the user has canceled.
    Failed { error: WallpaperError, canceled: bool },
    /// The user canceled before the fetch was over.
    Canceled,
    Skip(Result<Option<SourceSkip>, WallpaperError>),
}

/// How far the gathering is with the source that it is at.
pub enum GatherStage {
    Progress,
    Fetch,
    Skip { error: WallpaperError, canceled: bool },
    Over,
}

/// What was gathered so far.
pub struct Gathered {
    /// The position of the source that is being asked.
    pub at: usize,
    pub found: Vec<WallpaperCandidate>,
    /// What is told about the sources that were skipped.
    pub summaries: Vec<String>,
}

/// A step of the gathering.
pub struct GatherStep {
    pub stage: GatherStage,
    pub gathered: Gathered,
    pub commands: Vec<GatherCommand>,
    pub request: GatherRequest,
}

/// Whether an event can follow the request of a stage.
pub open spec fn gather_fits(job: GatherJob, stage: GatherStage, g: Gathered, event: GatherEvent)
    -> bool {
    &&& g.at < job.sources.len()
    &&& match stage {
        GatherStage::Progress => event is InProgress,
        GatherStage::Fetch => event is Fetched || event is Failed || event is Canceled,
        GatherStage::Skip { .. } => event is Skip,
        GatherStage::Over => false,
    }
}

/// The reason that is noted for an error; `None` for an error that may be gone at the next try.
pub open spec fn skip_reason(e: ErrorView) -> Option<Seq<char>> {
    match e {
        ErrorView::Request { timeout, .. } => if timeout {
            Some("request_timeout"@)
        } else {
            Some("request_error"@)
        },
        ErrorView::Status { status, .. } => Some("status_"@ + decimal(status as nat)),
        ErrorView::DownloadStatus { status, .. } => Some(
            "download_status_"@ + decimal(status as nat),
        ),
        ErrorView::Download { .. } => Some("download_error"@),
        _ => None,
    }
}

/// The reason that is noted for an error.
pub fn skip_reason_for_error(error: &WallpaperError) -> (r: Option<String>)
    ensures
        opt_text(r) == skip_reason(error@),
{
    match error {
        WallpaperError::Request { timeout, .. } => if *timeout {
            Some("request_timeout".to_string())
        } else {
            Some("request_error".to_string())
        },
        WallpaperError::Status { status, .. } => {
            let mut text = "status_".to_string();
            text.append(u64_text(*status as u64).as_str());
            Some(text)
        },
        WallpaperError::DownloadStatus { status, .. } => {
            let mut text = "download_status_".to_string();
            text.append(u64_text(*status as u64).as_str());
            Some(text)
        },
        WallpaperError::Download { .. } => Some("download_error".to_string()),
        _ => None,
    }
}

/// What is told about a source that was skipped.
pub open spec fn summary(source: WallpaperSource, reason: Seq<char>, hint: bool) -> Seq<char> {
    label(source) + " skipped ("@ + reason + ")."@ + if hint {
        " Use --force to retry."@
    } else {
        ""@
    }
}

fn summary_text(source: WallpaperSource, reason: &str, hint: bool) -> (r: String)
    ensures
        r@ == summary(source, reason@, hint),
{
    let mut out = source_label(source).to_string();
    out.append(" skipped (");
    out.append(reason);
    out.append(").");
    out.append(
        if hint {
            " Use --force to retry."
        } else {
            ""
        },
    );
    out
}

/// What is logged when a source was canceled.
pub open spec fn canceled_text(source: WallpaperSource) -> Seq<char> {
    "Canceled "@ + label(source) + "; continuing."@
}

fn canceled_note(source: WallpaperSource) -> (r: GatherCommand)
    ensures
        r@ == (CommandView::Say { text: canceled_text(source), verbose: false }),
{
    let mut text = "Canceled ".to_string();
    text.append(source_label(source));
    text.append("; continuing.");
    GatherCommand::Say { text, verbose: false }
}

/// What is logged when a source failed. That it was skipped before is told in verbose mode only.
pub open spec fn unavailable(job: GatherJob, source: WallpaperSource, e: ErrorView) -> CommandView {
    let text = label(source) + " unavailable: "@ + error_text(e);
    CommandView::Say { text, verbose: !job.verbose && holds(text, "skipped for"@) }
}

fn unavailable_note(job: &GatherJob, source: WallpaperSource, error: &WallpaperError) -> (r:
    GatherCommand)
    ensures
        r@ == unavailable(*job, source, error@),
{
    let mut text = source_label(source).to_string();
    text.append(" unavailable: ");
    text.append(error.message().as_str());
    let verbose = !job.verbose && contains(text.as_str(), "skipped for");
    GatherCommand::Say { text, verbose }
}

/// The summaries as they are logged.
pub open spec fn told(summaries: Seq<Seq<char>>) -> Seq<CommandView> {
    summaries.map_values(|t: Seq<char>| CommandView::Say { text: t, verbose: false })
}

/// Whether the gathering turns to the source at the position `k` after the commands `before`:
/// it forgets that the user has canceled, looks for the note of an interrupted fetch, unless
/// forced, and then fetches. After the last source it ends.
pub open spec fn turns_to(
    job: GatherJob,
    k: int,
    found: Seq<CandidateView>,
    summaries: Seq<Seq<char>>,
    before: Seq<CommandView>,
    step: GatherStep,
) -> bool {
    &&& step.gathered.at == k
    &&& candidates(step.gathered.found@) == found
    &&& texts(step.gathered.summaries@) == summaries
    &&& if k >= job.sources@.len() {
        &&& step.stage is Over
        &&& commands(step.commands@) == if job.quiet {
            before
        } else {
            before + told(summaries)
        }
        &&& step.request matches GatherRequest::Finish(Ok(list)) && candidates(list@) == found
    } else if job.force {
        fetches(job, k, before.push(CommandView::ClearCancel), step)
    } else {
        &&& step.stage is Progress
        &&& commands(step.commands@) == before.push(CommandView::ClearCancel)
        &&& step.request matches GatherRequest::ReadInProgress { source, date } && source
            == job.sources@[k].source && date@ == job.sources@[k].date@
    }
}

/// Whether the source at the position `k` is fetched after the commands `before`; that is noted
/// first.
pub open spec fn fetches(job: GatherJob, k: int, before: Seq<CommandView>, step: GatherStep) ->
    bool {
    let day = job.sources@[k];
    &&& step.stage is Fetch
    &&& commands(step.commands@) == before.push(
        CommandView::WriteInProgress { source: day.source, date: day.date@ },
    )
    &&& step.request matches GatherRequest::Fetch { source, date } && source == day.source && date@
        == day.date@
}

/// The reason for which a failed source is skipped in the end: the one that is noted, or else
/// that the user canceled, or else the one that its error gives.
pub open spec fn final_reason(
    job: GatherJob,
    e: ErrorView,
    canceled: bool,
    noted: Option<Seq<char>>,
) -> Option<Seq<char>> {
    match noted {
        Some(reason) => Some(reason),
        None => if canceled {
            Some("canceled"@)
        } else if job.force || job.offline {
            None
        } else {
            skip_reason(e)
        },
    }
}

/// What is done about a source that failed, once its note has been read.
pub open spec fn concluding(
    job: GatherJob,
    day: SourceDay,
    e: ErrorView,
    canceled: bool,
    noted: Option<Seq<char>>,
) -> Seq<CommandView> {
    let fresh = if noted is None && !canceled {
        final_reason(job, e, canceled, noted)
    } else {
        None
    };
    let note = match fresh {
        Some(reason) => seq![
            CommandView::WriteSkip { source: day.source, date: day.date@, reason },
        ],
        None => Seq::empty(),
    };
    let last = if canceled {
        seq![
            CommandView::Say { text: canceled_text(day.source), verbose: false },
            CommandView::ClearCancel,
        ]
    } else {
        Seq::empty()
    };
    note + seq![unavailable(job, day.source, e)] + last
}

/// Whether the gathering concludes with a source that failed, and turns to the next.
pub open spec fn concludes(
    job: GatherJob,
    g: Gathered,
    e: ErrorView,
    canceled: bool,
    noted: Option<Seq<char>>,
    before: Seq<CommandView>,
    step: GatherStep,
) -> bool {
    let day = job.sources@[g.at as int];
    turns_to(
        job,
        g.at + 1,
        candidates(g.found@),
        match final_reason(job, e, canceled, noted) {
            Some(reason) => texts(g.summaries@).push(summary(day.source, reason, !job.force)),
            None => texts(g.summaries@),
        },
        before + concluding(job, day, e, canceled, noted),
        step,
    )
}

/// The note of a source, as far as it can be read.
pub open spec fn noted_reason(skip: Result<Option<SourceSkip>, WallpaperError>) -> Option<
    Seq<char>,
> {
    match skip {
        Ok(Some(s)) => Some(s.reason@),
        _ => None,
    }
}

/// What is done at once about a source that failed: the note that it is being fetched goes, and
/// it is noted if the user canceled.
pub open spec fn clearing(day: SourceDay, canceled: bool) -> Seq<CommandView> {
    let clear = seq![CommandView::ClearInProgress { source: day.source, date: day.date@ }];
    if canceled {
        clear.push(
            CommandView::WriteSkip {
                source: day.source,
                date: day.date@,
                reason: "canceled"@,
            },
        )
    } else {
        clear
    }
}

/// Whether `step` follows when the gathering is at a stage and `event` comes.
pub open spec fn gather_advances(
    job: GatherJob,
    stage: GatherStage,
    g: Gathered,
    event: GatherEvent,
    step: GatherStep,
) -> bool {
    let day = job.sources@[g.at as int];
    match (stage, event) {
        (GatherStage::Progress, GatherEvent::InProgress(Err(e))) => {
            &&& step.stage is Over
            &&& step.commands@.len() == 0
            &&& step.request matches GatherRequest::Finish(Err(told)) && told@ == e@
        },
        (GatherStage::Progress, GatherEvent::InProgress(Ok(interrupted))) => if interrupted {
            turns_to(
                job,
                g.at + 1,
                candidates(g.found@),
                texts(g.summaries@).push(summary(day.source, "interrupted"@, true)),
                seq![
                    CommandView::WriteSkip {
                        source: day.source,
                        date: day.date@,
                        reason: "interrupted"@,
                    },
                    CommandView::ClearInProgress { source: day.source, date: day.date@ },
                ],
                step,
            )
        } else {
            &&& fetches(job, g.at as int, Seq::empty(), step)
            &&& step.gathered == g
        },
        (GatherStage::Fetch, GatherEvent::Canceled) => turns_to(
            job,
            g.at + 1,
            candidates(g.found@),
            texts(g.summaries@).push(summary(day.source, "canceled"@, false)),
            seq![
                CommandView::ClearInProgress { source: day.source, date: day.date@ },
                CommandView::WriteSkip {
                    source: day.source,
                    date: day.date@,
                    reason: "canceled"@,
                },
                CommandView::Say { text: canceled_text(day.source), verbose: false },
                CommandView::ClearCancel,
            ],
            step,
        ),
        (GatherStage::Fetch, GatherEvent::Fetched(fetched)) => turns_to(
            job,
            g.at + 1,
            candidates(g.found@) + candidates(fetched.candidates@),
            texts(g.summaries@),
            seq![CommandView::ClearInProgress { source: day.source, date: day.date@ }],
            step,
        ),
        (GatherStage::Fetch, GatherEvent::Failed { error, canceled: set }) => {
            let canceled = set || error@ is Canceled;
            if job.force {
                concludes(job, g, error@, canceled, None, clearing(day, canceled), step)
            } else {
                &&& step.stage matches GatherStage::Skip { error: e, canceled: c } && e@ == error@
                    && c == canceled
                &&& step.gathered == g
                &&& commands(step.commands@) == clearing(day, canceled)
                &&& step.request matches GatherRequest::ReadSkip { source, date } && source
                    == day.source && date@ == day.date@
            }
        },
        (GatherStage::Skip { error, canceled }, GatherEvent::Skip(skip)) => concludes(
            job,
            g,
            error@,
            canceled,
            noted_reason(skip),
            Seq::empty(),
            step,
        ),
        _ => false,
    }
}

fn day_source(job: &GatherJob, at: usize) -> (r: WallpaperSource)
    requires
        at < job.sources.len(),
    ensures
        r == job.sources@[at as int].source,
{
    job.sources[at].source
}

fn write_skip(job: &GatherJob, at: usize, reason: &str) -> (r: GatherCommand)
    requires
        at < job.sources.len(),
    ensures
        r@ == (CommandView::WriteSkip {
            source: job.sources@[at as int].source,
            date: job.sources@[at as int].date@,
            reason: reason@,
        }),
{
    GatherCommand::WriteSkip {
        source: job.sources[at].source,
        date: job.sources[at].date.clone(),
        reason: reason.to_string(),
    }
}

fn clear_in_progress(job: &GatherJob, at: usize) -> (r: GatherCommand)
    requires
        at < job.sources.len(),
    ensures
        r@ == (CommandView::ClearInProgress {
            source: job.sources@[at as int].source,
            date: job.sources@[at as int].date@,
        }),
{
    GatherCommand::ClearInProgress {
        source: job.sources[at].source,
        date: job.sources[at].date.clone(),
    }
}

fn push_command(list: &mut Vec<GatherCommand>, c: GatherCommand)
    ensures
        commands(final(list)@) == commands(old(list)@).push(c@),
{
    let ghost before = list@;
    list.push(c);
    assert(commands(list@) =~= commands(before).push(c@));
}

fn no_commands() -> (r: Vec<GatherCommand>)
    ensures
        commands(r@) == Seq::<CommandView>::empty(),
        r@.len() == 0,
{
    let r: Vec<GatherCommand> = Vec::new();
    assert(commands(r@) =~= Seq::<CommandView>::empty());
    r
}

fn fetch_source(job: &GatherJob, g: Gathered, before: Vec<GatherCommand>) -> (r: GatherStep)
    requires
        g.at < job.sources.len(),
    ensures
        fetches(*job, g.at as int, commands(before@), r),
        r.gathered == g,
{
    let at = g.at;
    let mut list = before;
    push_command(
        &mut list,
        GatherCommand::WriteInProgress {
            source: job.sources[at].source,
            date: job.sources[at].date.clone(),
        },
    );
    GatherStep {
        stage: GatherStage::Fetch,
        gathered: g,
        commands: list,
        request: GatherRequest::Fetch {
            source: job.sources[at].source,
            date: job.sources[at].date.clone(),
        },
    }
}

fn tell_summaries(list: &mut Vec<GatherCommand>, summaries: &Vec<String>)
    ensures
        commands(final(list)@) == commands(old(list)@) + told(texts(summaries@)),
{
    let ghost before = commands(list@);
    let ghost all = told(texts(summaries@));
    let mut i: usize = 0;
    assert(before + all.take(0) =~= before);
    while i < summaries.len()
        invariant
            i <= summaries@.len(),
            all == told(texts(summaries@)),
            commands(list@) == before + all.take(i as int),
        decreases summaries@.len() - i,
    {
        push_command(list, GatherCommand::Say { text: summaries[i].clone(), verbose: false });
        assert(all[i as int] == (CommandView::Say {
            text: summaries@[i as int]@,
            verbose: false,
        }));
        assert(all.take(i + 1) =~= all.take(i as int).push(all[i as int]));
        assert(before + all.take(i + 1) =~= (before + all.take(i as int)).push(all[i as int]));
        i += 1;
    }
    assert(all.take(i as int) =~= all);
}

fn turn_to(job: &GatherJob, g: Gathered, before: Vec<GatherCommand>) -> (r: GatherStep)
    requires
        g.at <= job.sources.len(),
    ensures
        turns_to(
            *job,
            g.at as int,
            candidates(g.found@),
            texts(g.summaries@),
            commands(before@),
            r,
        ),
{
    let mut list = before;
    if g.at >= job.sources.len() {
        if !job.quiet {
            tell_summaries(&mut list, &g.summaries);
        }
        let found = crate::model::copy_candidates(&g.found);
        return GatherStep {
            stage: GatherStage::Over,
            gathered: g,
            commands: list,
            request: GatherRequest::Finish(Ok(found)),
        };
    }
    push_command(&mut list, GatherCommand::ClearCancel);
    if job.force {
        return fetch_source(job, g, list);
    }
    let request = GatherRequest::ReadInProgress {
        source: job.sources[g.at].source,
        date: job.sources[g.at].date.clone(),
    };
    GatherStep { stage: GatherStage::Progress, gathered: g, commands: list, request }
}

fn with_summary(g: Gathered, text: String) -> (r: Gathered)
    requires
        g.at < usize::MAX,
    ensures
        r.at == g.at + 1,
        r.found == g.found,
        texts(r.summaries@) == texts(g.summaries@).push(text@),
{
    let ghost before = g.summaries@;
    let mut summaries = g.summaries;
    summaries.push(text);
    assert(texts(summaries@) =~= texts(before).push(text@));
    Gathered { at: g.at + 1, found: g.found, summaries }
}

fn conclude(
    job: &GatherJob,
    g: Gathered,
    error: WallpaperError,
    canceled: bool,
    noted: Option<String>,
    before: Vec<GatherCommand>,
) -> (r: GatherStep)
    requires
        g.at < job.sources.len(),
    ensures
        concludes(*job, g, error@, canceled, opt_text(noted), commands(before@), r),
{
    let ghost day = job.sources@[g.at as int];
    let ghost start = commands(before@);
    let at = g.at;
    let source = day_source(job, at);
    let mut list = before;
    let mut reason = noted;
    if reason.is_none() {
        if canceled {
            reason = Some("canceled".to_string());
        } else if !job.force && !job.offline {
            if let Some(text) = skip_reason_for_error(&error) {
                push_command(&mut list, write_skip(job, at, text.as_str()));
                reason = Some(text);
            }
        }
    }
    push_command(&mut list, unavailable_note(job, source, &error));
    if canceled {
        push_command(&mut list, canceled_note(source));
        push_command(&mut list, GatherCommand::ClearCancel);
    }
    assert(opt_text(reason) == final_reason(*job, error@, canceled, opt_text(noted)));
    assert(commands(list@) =~= start + concluding(
        *job,
        day,
        error@,
        canceled,
        opt_text(noted),
    ));
    let next = match reason {
        Some(text) => {
            let told = summary_text(source, text.as_str(), !job.force);
            with_summary(g, told)
        },
        None => Gathered { at: g.at + 1, found: g.found, summaries: g.summaries },
    };
    turn_to(job, next, list)
}

/// Begins to gather the candidates of the sources; there has to be one.
pub fn gather_candidates(job: &GatherJob) -> (r: GatherStep)
    ensures
        if job.sources@.len() == 0 {
            &&& r.stage is Over
            &&& r.commands@.len() == 0
            &&& r.request matches GatherRequest::Finish(Err(e)) && e@ == ErrorView::Message(
                "All sources are disabled."@,
            )
        } else {
            turns_to(*job, 0, Seq::empty(), Seq::empty(), Seq::empty(), r)
        },
{
    let g = Gathered { at: 0, found: Vec::new(), summaries: Vec::new() };
    assert(candidates(g.found@) =~= Seq::<CandidateView>::empty());
    assert(texts(g.summaries@) =~= Seq::<Seq<char>>::empty());
    if job.sources.len() == 0 {
        return GatherStep {
            stage: GatherStage::Over,
            gathered: g,
            commands: Vec::new(),
            request: GatherRequest::Finish(Err(failure("All sources are disabled."))),
        };
    }
    turn_to(job, g, no_commands())
}

/// The next step of the gathering.
pub fn gather_step(job: &GatherJob, stage: GatherStage, g: Gathered, event: GatherEvent) -> (r:
    GatherStep)
    requires
        gather_fits(*job, stage, g, event),
    ensures
        gather_advances(*job, stage, g, event, r),
{
    let at = g.at;
    let source = day_source(job, at);
    match (stage, event) {
        (GatherStage::Progress, GatherEvent::InProgress(Err(e))) => GatherStep {
            stage: GatherStage::Over,
            gathered: g,
            commands: Vec::new(),
            request: GatherRequest::Finish(Err(e)),
        },
        (GatherStage::Progress, GatherEvent::InProgress(Ok(interrupted))) => {
            let mut list = no_commands();
            if !interrupted {
                return fetch_source(job, g, list);
            }
            push_command(&mut list, write_skip(job, at, "interrupted"));
            push_command(&mut list, clear_in_progress(job, at));
            assert(commands(list@) =~= seq![
                CommandView::WriteSkip {
                    source: job.sources@[at as int].source,
                    date: job.sources@[at as int].date@,
                    reason: "interrupted"@,
                },
                CommandView::ClearInProgress {
                    source: job.sources@[at as int].source,
                    date: job.sources@[at as int].date@,
                },
            ]);
            let next = with_summary(g, summary_text(source, "interrupted", true));
            turn_to(job, next, list)
        },
        (GatherStage::Fetch, GatherEvent::Canceled) => {
            let mut list = no_commands();
            push_command(&mut list, clear_in_progress(job, at));
            push_command(&mut list, write_skip(job, at, "canceled"));
            push_command(&mut list, canceled_note(source));
            push_command(&mut list, GatherCommand::ClearCancel);
            assert(commands(list@) =~= seq![
                CommandView::ClearInProgress {
                    source: job.sources@[at as int].source,
                    date: job.sources@[at as int].date@,
                },
                CommandView::WriteSkip {
                    source: job.sources@[at as int].source,
                    date: job.sources@[at as int].date@,
                    reason: "canceled"@,
                },
                CommandView::Say { text: canceled_text(source), verbose: false },
                CommandView::ClearCancel,
            ]);
            let next = with_summary(g, summary_text(source, "canceled", false));
            turn_to(job, next, list)
        },
        (GatherStage::Fetch, GatherEvent::Fetched(fetched)) => {
            let mut list = no_commands();
            push_command(&mut list, clear_in_progress(job, at));
            assert(commands(list@) =~= seq![
                CommandView::ClearInProgress {
                    source: job.sources@[at as int].source,
                    date: job.sources@[at as int].date@,
                },
            ]);
            let ghost before = g.found@;
            let ghost more_views = candidates(fetched.candidates@);
            let mut found = g.found;
            let mut more = fetched.candidates;
            found.append(&mut more);
            assert(candidates(found@) =~= candidates(before) + more_views);
            turn_to(job, Gathered { at: at + 1, found, summaries: g.summaries }, list)
        },
        (GatherStage::Fetch, GatherEvent::Failed { error, canceled }) => {
            let canceled = canceled || matches!(error, WallpaperError::Canceled);
            let mut list = no_commands();
            push_command(&mut list, clear_in_progress(job, at));
            if canceled {
                push_command(&mut list, write_skip(job, at, "canceled"));
            }
            assert(commands(list@) =~= clearing(job.sources@[at as int], canceled));
            if job.force {
                return conclude(job, g, error, canceled, None, list);
            }
            let request = GatherRequest::ReadSkip {
                source,
                date: job.sources[at].date.clone(),
            };
            GatherStep {
                stage: GatherStage::Skip { error, canceled },
                gathered: g,
                commands: list,
                request,
            }
        },
        (GatherStage::Skip { error, canceled }, GatherEvent::Skip(skip)) => {
            let noted = match skip {
                Ok(Some(s)) => Some(s.reason),
                _ => None,
            };
            conclude(job, g, error, canceled, noted, no_commands())
        },
        _ => vstd::pervasive::unreached(),
    }
}

// ------------------------------------------------------------------------------------------
// Laws
// ------------------------------------------------------------------------------------------

/// A source that is being fetched is noted as such before the fetch begins.
pub proof fn fetch_is_noted_first(
    job: GatherJob,
    stage: GatherStage,
    g: Gathered,
    event: GatherEvent,
    step: GatherStep,
)
    requires
        gather_fits(job, stage, g, event),
        gather_advances(job, stage, g, event, step),
        step.request is Fetch,
    ensures
        step.request matches GatherRequest::Fetch { source, date } && step.commands@.len() > 0
            && commands(step.commands@).last() == (CommandView::WriteInProgress {
            source,
            date: date@,
        }),
{
    assert(commands(step.commands@).len() == step.commands@.len());
}

/// What the user canceled is canceled alone: whenever another source is turned to, it is
/// forgotten that the user has canceled.
pub proof fn cancel_ends_with_its_source(
    job: GatherJob,
    stage: GatherStage,
    g: Gathered,
    event: GatherEvent,
    step: GatherStep,
)
    requires
        gather_fits(job, stage, g, event),
        gather_advances(job, stage, g, event, step),
        step.gathered.at != g.at,
        step.stage !is Over,
    ensures
        commands(step.commands@).contains(CommandView::ClearCancel),
        step.request is Fetch ==> commands(step.commands@)[step.commands@.len() - 2]
            == CommandView::ClearCancel,
        step.request !is Fetch ==> commands(step.commands@).last() == CommandView::ClearCancel,
{
    let all = commands(step.commands@);
    assert(all.len() == step.commands@.len());
    if step.request is Fetch {
        assert(all[all.len() - 2] == CommandView::ClearCancel);
    } else {
        assert(all[all.len() - 1] == CommandView::ClearCancel);
    }
}

/// However a fetch ends, the note that the source is being fetched is removed at once.
pub proof fn note_is_removed_after_fetch(
    job: GatherJob,
    g: Gathered,
    event: GatherEvent,
    step: GatherStep,
)
    requires
        gather_fits(job, GatherStage::Fetch, g, event),
        gather_advances(job, GatherStage::Fetch, g, event, step),
    ensures
        step.commands@.len() > 0,
        commands(step.commands@)[0] == (CommandView::ClearInProgress {
            source: job.sources@[g.at as int].source,
            date: job.sources@[g.at as int].date@,
        }),
{
    assert(commands(step.commands@).len() == step.commands@.len());
}

/// A fetch that was interrupted is not repeated unless forced: its source is skipped, and that
/// is noted.
pub proof fn interrupted_source_is_skipped(job: GatherJob, g: Gathered, step: GatherStep)
    requires
        gather_fits(
            job,
            GatherStage::Progress,
            g,
            GatherEvent::InProgress(Ok(true)),
        ),
        !job.force,
        gather_advances(
            job,
            GatherStage::Progress,
            g,
            GatherEvent::InProgress(Ok(true)),
            step,
        ),
    ensures
        !(step.request is Fetch),
        step.gathered.at == g.at + 1,
        commands(step.commands@).contains(
            CommandView::WriteSkip {
                source: job.sources@[g.at as int].source,
                date: job.sources@[g.at as int].date@,
                reason: "interrupted"@,
            },
        ),
{
    assert(commands(step.commands@)[0] == (CommandView::WriteSkip {
        source: job.sources@[g.at as int].source,
        date: job.sources@[g.at as int].date@,
        reason: "interrupted"@,
    }));
}

/// A source that fails or is canceled does not stop the others: what was found before stays,
/// and only a note of progress that cannot be read ends the gathering with an error.
pub proof fn failing_source_does_not_stop_others(
    job: GatherJob,
    stage: GatherStage,
    g: Gathered,
    event: GatherEvent,
    step: GatherStep,
)
    requires
        gather_fits(job, stage, g, event),
        gather_advances(job, stage, g, event, step),
        !(event matches GatherEvent::InProgress(Err(_))),
    ensures
        !(step.request matches GatherRequest::Finish(Err(_))),
        candidates(g.found@).is_prefix_of(candidates(step.gathered.found@)),
{
    assert(candidates(g.found@).is_prefix_of(candidates(step.gathered.found@))) by {
        let a = candidates(g.found@);
        if let GatherEvent::Fetched(fetched) = event {
            let b = candidates(fetched.candidates@);
            assert(a =~= (a + b).subrange(0, a.len() as int));
        } else {
            assert(a =~= a.subrange(0, a.len() as int));
        }
    }
}

/// The source that is asked about or fetched is always the one that the gathering is at, on its
/// own day.
pub proof fn source_in_turn_is_asked(
    job: GatherJob,
    stage: GatherStage,
    g: Gathered,
    event: GatherEvent,
    step: GatherStep,
)
    requires
        gather_fits(job, stage, g, event),
        gather_advances(job, stage, g, event, step),
    ensures
        match step.request {
            GatherRequest::ReadInProgress { source, date } => step.gathered.at < job.sources@.len()
                && source == job.sources@[step.gathered.at as int].source && date@
                == job.sources@[step.gathered.at as int].date@,
            GatherRequest::Fetch { source, date } => step.gathered.at < job.sources@.len() && source
                == job.sources@[step.gathered.at as int].source && date@
                == job.sources@[step.gathered.at as int].date@,
            GatherRequest::ReadSkip { source, date } => source == job.sources@[g.at as int].source
                && date@ == job.sources@[g.at as int].date@,
            GatherRequest::Finish(Ok(list)) => step.gathered.at == job.sources@.len() && candidates(
                list@,
            ) == candidates(step.gathered.found@),
            GatherRequest::Finish(Err(_)) => true,
        },
        step.request matches GatherRequest::Finish(Err(_)) || step.gathered.at == g.at
            || step.gathered.at == g.at + 1,
{
}

/// What a source found is put behind what was found before, all of it and nothing else; nothing
/// is added otherwise.
pub proof fn found_wallpapers_are_added(
    job: GatherJob,
    stage: GatherStage,
    g: Gathered,
    event: GatherEvent,
    step: GatherStep,
)
    requires
        gather_fits(job, stage, g, event),
        gather_advances(job, stage, g, event, step),
        !(step.request matches GatherRequest::Finish(Err(_))),
    ensures
        event matches GatherEvent::Fetched(fetched) ==> candidates(step.gathered.found@)
            == candidates(g.found@) + candidates(fetched.candidates@) && step.gathered.at == g.at
            + 1,
        !(event is Fetched) ==> candidates(step.gathered.found@) == candidates(g.found@),
{
}

/// When forced, no note keeps a source from being fetched: after each source the next one is
/// fetched at once.
pub proof fn forced_gathering_fetches_all(
    job: GatherJob,
    stage: GatherStage,
    g: Gathered,
    event: GatherEvent,
    step: GatherStep,
)
    requires
        job.force,
        gather_fits(job, stage, g, event),
        gather_advances(job, stage, g, event, step),
        stage is Fetch,
    ensures
        step.request is Fetch || (step.request matches GatherRequest::Finish(Ok(_))),
        step.gathered.at == g.at + 1,
{
}

/// Which failures are noted, and by what: a failure of the network is, one that may be gone at the
/// next try is not.
pub proof fn failures_of_the_network_are_noted(e: ErrorView)
    ensures
        e matches ErrorView::Request { timeout, .. } ==> skip_reason(e) == Some(
            if timeout {
                "request_timeout"@
            } else {
                "request_error"@
            },
        ),
        e matches ErrorView::Status { status, .. } ==> skip_reason(e) == Some(
            "status_"@ + decimal(status as nat),
        ),
        e matches ErrorView::DownloadStatus { status, .. } ==> skip_reason(e) == Some(
            "download_status_"@ + decimal(status as nat),
        ),
        e is Download ==> skip_reason(e) == Some("download_error"@),
        !(e is Request) && !(e is Status) && !(e is DownloadStatus) && !(e is Download)
            ==> skip_reason(e) is None,
{
}

/// Whether a source is noted as not to be tried again, for a reason.
pub open spec fn notes(step: GatherStep, day: SourceDay, reason: Seq<char>) -> bool {
    commands(step.commands@).contains(
        CommandView::WriteSkip { source: day.source, date: day.date@, reason },
    )
}

/// A source that the user canceled is noted as canceled, and the gathering goes on.
pub proof fn canceled_source_is_noted(job: GatherJob, g: Gathered, step: GatherStep)
    requires
        gather_fits(job, GatherStage::Fetch, g, GatherEvent::Canceled),
        gather_advances(job, GatherStage::Fetch, g, GatherEvent::Canceled, step),
    ensures
        notes(step, job.sources@[g.at as int], "canceled"@),
        step.gathered.at == g.at + 1,
{
    assert(commands(step.commands@)[1] == (CommandView::WriteSkip {
        source: job.sources@[g.at as int].source,
        date: job.sources@[g.at as int].date@,
        reason: "canceled"@,
    }));
}

/// A source that failed is noted with the reason that its failure gives, unless it was noted
/// before, the user canceled it, or the gathering is forced or offline.
pub proof fn failed_source_is_noted(
    job: GatherJob,
    g: Gathered,
    error: WallpaperError,
    skip: Result<Option<SourceSkip>, WallpaperError>,
    reason: Seq<char>,
    step: GatherStep,
)
    requires
        gather_fits(
            job,
            GatherStage::Skip { error, canceled: false },
            g,
            GatherEvent::Skip(skip),
        ),
        gather_advances(
            job,
            GatherStage::Skip { error, canceled: false },
            g,
            GatherEvent::Skip(skip),
            step,
        ),
        skip matches Ok(noted) ==> noted is None,
        !job.offline,
        !job.force,
        skip_reason(error@) == Some(reason),
    ensures
        notes(step, job.sources@[g.at as int], reason),
        step.gathered.at == g.at + 1,
        texts(step.gathered.summaries@) == texts(g.summaries@).push(
            label(job.sources@[g.at as int].source) + " skipped ("@ + reason
                + "). Use --force to retry."@,
        ),
{
    assert(commands(step.commands@)[0] == (CommandView::WriteSkip {
        source: job.sources@[g.at as int].source,
        date: job.sources@[g.at as int].date@,
        reason,
    }));
    reveal_strlit(").");
    reveal_strlit(" Use --force to retry.");
    reveal_strlit("). Use --force to retry.");
    assert(summary(job.sources@[g.at as int].source, reason, true) =~= label(
        job.sources@[g.at as int].source,
    ) + " skipped ("@ + reason + "). Use --force to retry."@);
}

/// Offline or forced, a failure is not noted.
pub proof fn failure_without_network_is_not_noted(
    job: GatherJob,
    g: Gathered,
    error: WallpaperError,
    skip: Result<Option<SourceSkip>, WallpaperError>,
    step: GatherStep,
    reason: Seq<char>,
)
    requires
        gather_fits(
            job,
            GatherStage::Skip { error, canceled: false },
            g,
            GatherEvent::Skip(skip),
        ),
        gather_advances(
            job,
            GatherStage::Skip { error, canceled: false },
            g,
            GatherEvent::Skip(skip),
            step,
        ),
        job.offline || job.force,
    ensures
        !notes(step, job.sources@[g.at as int], reason),
{
}

/// At the end, what was gathered is given: all of it, in its order. It is the end once the last
/// source has had its turn.
pub proof fn gathering_gives_all(
    job: GatherJob,
    stage: GatherStage,
    g: Gathered,
    event: GatherEvent,
    step: GatherStep,
)
    requires
        gather_fits(job, stage, g, event),
        gather_advances(job, stage, g, event, step),
    ensures
        step.request matches GatherRequest::Finish(Ok(list)) ==> candidates(list@) == candidates(
            step.gathered.found@,
        ) && step.gathered.at >= job.sources@.len(),
        step.request matches GatherRequest::Finish(Err(told)) ==> (event
            matches GatherEvent::InProgress(Err(e)) && told@ == e@),
        step.request matches GatherRequest::ReadSkip { source, date } ==> source
            == job.sources@[g.at as int].source && date@ == job.sources@[g.at as int].date@,
        step.gathered.at == g.at || step.gathered.at == g.at + 1 || (step.request
            matches GatherRequest::Finish(Err(_))),
{
}

/// A failure that comes with a cancel is noted as such; another one is not, before its reason is
/// known.
pub proof fn only_canceled_failures_are_noted_at_once(
    job: GatherJob,
    g: Gathered,
    error: WallpaperError,
    canceled: bool,
    step: GatherStep,
)
    requires
        !job.force,
        gather_fits(job, GatherStage::Fetch, g, GatherEvent::Failed { error, canceled }),
        gather_advances(job, GatherStage::Fetch, g, GatherEvent::Failed { error, canceled }, step),
    ensures
        commands(step.commands@)[0] == (CommandView::ClearInProgress {
            source: job.sources@[g.at as int].source,
            date: job.sources@[g.at as int].date@,
        }),
        canceled || error@ is Canceled ==> commands(step.commands@).len() == 2 && commands(
            step.commands@,
        )[1] == (CommandView::WriteSkip {
            source: job.sources@[g.at as int].source,
            date: job.sources@[g.at as int].date@,
            reason: "canceled"@,
        }),
        !(canceled || error@ is Canceled) ==> commands(step.commands@).len() == 1,
{
}

/// What failed is kept until its reason is looked up, and so is whether it was canceled.
pub proof fn failure_is_kept_for_its_reason(
    job: GatherJob,
    g: Gathered,
    error: WallpaperError,
    canceled: bool,
    step: GatherStep,
)
    requires
        !job.force,
        gather_advances(job, GatherStage::Fetch, g, GatherEvent::Failed { error, canceled }, step),
    ensures
        step.stage matches GatherStage::Skip { error: e, canceled: c } && e@ == error@ && c == (
        canceled || error@ is Canceled),
        step.request is ReadSkip,
        step.gathered == g,
{
}

} // verus!

//! Applying a wallpaper, and noting what was applied last.

use crate::error::{ErrorView, WallpaperError};
use crate::model::{
    AppliedView, CandidateView, LastApplied, WallpaperCandidate, WallpaperSource,
};
use crate::number::{decimal, usize_text};
use crate::path::{join_path, path_join};
use crate::sources::{source_variant, variant_name};
use crate::text::{holds, opt_text, replace, replaced};
use vstd::prelude::*;

verus! {

// ------------------------------------------------------------------------------------------
// What is applied
// ------------------------------------------------------------------------------------------

/// A wallpaper to apply.
pub struct ApplyOrder {
    pub path: String,
    pub candidate_id: String,
    pub source: WallpaperSource,
    pub date: Option<String>,
    /// Whether the user asked for it.
    pub by_user: bool,
}

/// The value of an `ApplyOrder`.
#[verifier::ext_equal]
pub struct OrderView {
    pub path: Seq<char>,
    pub candidate_id: Seq<char>,
    pub source: WallpaperSource,
    pub date: Option<Seq<char>>,
    pub by_user: bool,
}

impl View for ApplyOrder {
    type V = OrderView;

    open spec fn view(&self) -> OrderView {
        OrderView {
            path: self.path@,
            candidate_id: self.candidate_id@,
            source: self.source,
            date: opt_text(self.date),
            by_user: self.by_user,
        }
    }
}

/// The order to apply a candidate.
pub open spec fn order_for(c: CandidateView, by_user: bool) -> OrderView {
    OrderView {
        path: c.local_path,
        candidate_id: c.id,
        source: c.source,
        date: Some(c.date),
        by_user,
    }
}

/// The order to apply a candidate.
pub fn candidate_order(c: &WallpaperCandidate, by_user: bool) -> (r: ApplyOrder)
    ensures
        r@ == order_for(c@, by_user),
{
    ApplyOrder {
        path: c.local_path.clone(),
        candidate_id: c.id.clone(),
        source: c.source,
        date: Some(c.date.clone()),
        by_user,
    }
}

/// What is noted when an order was carried out at the time `now`.
pub open spec fn record_of(order: OrderView, now: u64) -> AppliedView {
    AppliedView {
        candidate_id: order.candidate_id,
        source: order.source,
        applied_path: order.path,
        applied_at: now,
        applied_by_user: order.by_user,
        date: order.date,
    }
}

// ------------------------------------------------------------------------------------------
// How it is applied
// ------------------------------------------------------------------------------------------

/// The script that sets the wallpaper of one monitor, counted from one, or of all of them.
pub open spec fn script_text(path: Seq<char>, monitor: int) -> Seq<char> {
    let quoted = replaced(path, "\""@, "\\\""@);
    if monitor >= 1 {
        "\n        set tlst to {}\n        tell application \"System Events\"\n            set tlst to a reference to every desktop\n            set picture of item "@
            + decimal(monitor as nat) + " of tlst to (POSIX file \""@ + quoted
            + "\")\n        end tell\n        "@
    } else {
        "tell application \"System Events\" to tell every desktop to set picture to (POSIX file \""@
            + quoted + "\")"@
    }
}

fn script_for(path: &str, monitor: usize) -> (r: String)
    ensures
        r@ == script_text(path@, monitor as int),
{
    proof {
        reveal_strlit("\"");
    }
    let quoted = replace(path, "\"", "\\\"");
    if monitor >= 1 {
        let mut out =
            "\n        set tlst to {}\n        tell application \"System Events\"\n            set tlst to a reference to every desktop\n            set picture of item ".to_string();
        out.append(usize_text(monitor).as_str());
        out.append(" of tlst to (POSIX file \"");
        out.append(quoted.as_str());
        out.append("\")\n        end tell\n        ");
        out
    } else {
        let mut out =
            "tell application \"System Events\" to tell every desktop to set picture to (POSIX file \"".to_string();
        out.append(quoted.as_str());
        out.append("\")");
        out
    }
}

/// What is logged when a wallpaper is set with a script.
pub open spec fn setting_note(path: Seq<char>, monitor: int) -> Seq<char> {
    "Setting wallpaper to "@ + path + " (monitor: "@ + (if monitor < 1 {
        "all"@
    } else {
        decimal(monitor as nat)
    }) + ")"@
}

fn setting_note_of(path: &str, monitor: usize) -> (r: String)
    ensures
        r@ == setting_note(path@, monitor as int),
{
    let mut out = "Setting wallpaper to ".to_string();
    out.append(path);
    out.append(" (monitor: ");
    if monitor < 1 {
        out.append("all");
    } else {
        out.append(usize_text(monitor).as_str());
    }
    out.append(")");
    out
}

/// The database in which the wallpapers of all desktops are kept.
pub open spec fn database_path(home: Seq<char>) -> Seq<char> {
    path_join(
        path_join(path_join(path_join(home, "Library"@), "Application Support"@), "Dock"@),
        "desktoppicture.db"@,
    )
}

fn database_path_in(home: &str) -> (r: String)
    ensures
        r@ == database_path(home@),
{
    let library = join_path(home, "Library");
    let support = join_path(library.as_str(), "Application Support");
    let dock = join_path(support.as_str(), "Dock");
    join_path(dock.as_str(), "desktoppicture.db")
}

/// The rows, of a key, an image and a picture, that give every picture of the database the image
/// `image`.
pub fn preference_rows(image: i64, pictures: &Vec<i64>) -> (r: Vec<(i64, i64, i64)>)
    ensures
        r@ == Seq::new(pictures@.len(), |i: int| (1i64, image, pictures@[i])),
{
    let ghost all = Seq::new(pictures@.len(), |i: int| (1i64, image, pictures@[i]));
    let mut out: Vec<(i64, i64, i64)> = Vec::new();
    let mut i: usize = 0;
    while i < pictures.len()
        invariant
            i <= pictures@.len(),
            all == Seq::new(pictures@.len(), |i: int| (1i64, image, pictures@[i])),
            out@ == all.take(i as int),
        decreases pictures@.len() - i,
    {
        out.push((1, image, pictures[i]));
        assert(all.take(i + 1) =~= all.take(i as int).push(all[i as int]));
        i += 1;
    }
    assert(all.take(i as int) =~= all);
    out
}

/// A wallpaper to apply, and how.
pub struct ApplyJob {
    pub order: ApplyOrder,
    /// Whether all desktops are set through the database.
    pub experimental: bool,
    /// The monitor to set, counted from one; all of them where it is zero.
    pub monitor: usize,
    pub home: String,
}

/// How far the applying is.
pub enum ApplyStage {
    /// The database is looked for.
    Look,
    /// The database is written.
    Database,
    /// The dock, or the script, is run.
    Run,
    /// What was applied is noted.
    Record,
    Over,
}

/// What the applying asks for.
pub enum ApplyAction {
    LookFor(String),
    /// Give every picture of the database this image.
    WriteDatabase { database: String, path: String },
    RestartDock,
    RunScript(String),
    /// Note what was applied.
    Record(LastApplied),
    Finish(Result<(), WallpaperError>),
}

/// What an action brought about. `now` is the time in seconds.
pub enum ApplyEvent {
    Found(bool),
    Outcome { result: Result<(), WallpaperError>, now: u64 },
}

/// A step of the applying: what is logged, and what is asked for.
pub struct ApplyStep {
    pub stage: ApplyStage,
    pub say: Option<String>,
    pub action: ApplyAction,
}

/// Whether an event can follow the action of a stage.
pub open spec fn apply_fits(at: ApplyStage, event: ApplyEvent) -> bool {
    match at {
        ApplyStage::Look => event is Found,
        ApplyStage::Database | ApplyStage::Run | ApplyStage::Record => event is Outcome,
        ApplyStage::Over => false,
    }
}

/// Whether the applying ends with `error`.
pub open spec fn apply_fails(error: ErrorView, step: ApplyStep) -> bool {
    &&& step.stage is Over
    &&& step.say is None
    &&& step.action matches ApplyAction::Finish(Err(e)) && e@ == error
}

/// Whether `step` begins to apply a wallpaper.
pub open spec fn apply_begins(job: ApplyJob, step: ApplyStep) -> bool {
    if job.experimental {
        &&& step.stage is Look
        &&& step.say is None
        &&& step.action matches ApplyAction::LookFor(path) && path@ == database_path(job.home@)
    } else {
        &&& step.stage is Run
        &&& opt_text(step.say) == Some(setting_note(job.order.path@, job.monitor as int))
        &&& step.action matches ApplyAction::RunScript(script) && script@ == script_text(
            job.order.path@,
            job.monitor as int,
        )
    }
}

/// Whether `step` follows when `event` comes at a stage.
pub open spec fn apply_advances(
    job: ApplyJob,
    at: ApplyStage,
    event: ApplyEvent,
    step: ApplyStep,
) -> bool {
    match (at, event) {
        (ApplyStage::Look, ApplyEvent::Found(found)) => if found {
            &&& step.stage is Database
            &&& opt_text(step.say) == Some(
                "Writing wallpaper to desktoppicture.db (experimental all desktops)"@,
            )
            &&& step.action matches ApplyAction::WriteDatabase { database, path } && database@
                == database_path(job.home@) && path@ == job.order.path@
        } else {
            apply_fails(
                ErrorView::Message("desktoppicture.db not found at "@ + database_path(job.home@)),
                step,
            )
        },
        (_, ApplyEvent::Outcome { result: Err(e), .. }) => apply_fails(e@, step),
        (ApplyStage::Database, ApplyEvent::Outcome { result: Ok(_), .. }) => {
            &&& step.stage is Run
            &&& step.say is None
            &&& step.action is RestartDock
        },
        (ApplyStage::Run, ApplyEvent::Outcome { result: Ok(_), now }) => {
            &&& step.stage is Record
            &&& step.say is None
            &&& step.action matches ApplyAction::Record(last) && last@ == record_of(
                job.order@,
                now,
            )
        },
        (ApplyStage::Record, ApplyEvent::Outcome { result: Ok(_), .. }) => {
            &&& step.stage is Over
            &&& step.say is None
            &&& step.action == ApplyAction::Finish(Ok(()))
        },
        _ => false,
    }
}

/// Begins to apply a wallpaper.
pub fn apply_wallpaper(job: &ApplyJob) -> (r: ApplyStep)
    ensures
        apply_begins(*job, r),
{
    if job.experimental {
        ApplyStep {
            stage: ApplyStage::Look,
            say: None,
            action: ApplyAction::LookFor(database_path_in(job.home.as_str())),
        }
    } else {
        ApplyStep {
            stage: ApplyStage::Run,
            say: Some(setting_note_of(job.order.path.as_str(), job.monitor)),
            action: ApplyAction::RunScript(script_for(job.order.path.as_str(), job.monitor)),
        }
    }
}

/// The next step of the applying.
pub fn apply_step(job: &ApplyJob, at: ApplyStage, event: ApplyEvent) -> (r: ApplyStep)
    requires
        apply_fits(at, event),
    ensures
        apply_advances(*job, at, event, r),
{
    match (at, event) {
        (ApplyStage::Look, ApplyEvent::Found(found)) => {
            let database = database_path_in(job.home.as_str());
            if found {
                return ApplyStep {
                    stage: ApplyStage::Database,
                    say: Some(
                        "Writing wallpaper to desktoppicture.db (experimental all desktops)".to_string(),
                    ),
                    action: ApplyAction::WriteDatabase { database, path: job.order.path.clone() },
                };
            }
            let mut text = "desktoppicture.db not found at ".to_string();
            text.append(database.as_str());
            ApplyStep {
                stage: ApplyStage::Over,
                say: None,
                action: ApplyAction::Finish(Err(WallpaperError::Message(text))),
            }
        },
        (_, ApplyEvent::Outcome { result: Err(e), .. }) => ApplyStep {
            stage: ApplyStage::Over,
            say: None,
            action: ApplyAction::Finish(Err(e)),
        },
        (ApplyStage::Database, ApplyEvent::Outcome { .. }) => ApplyStep {
            stage: ApplyStage::Run,
            say: None,
            action: ApplyAction::RestartDock,
        },
        (ApplyStage::Run, ApplyEvent::Outcome { now, .. }) => {
            let order = &job.order;
            let last = LastApplied {
                candidate_id: order.candidate_id.clone(),
                source: order.source,
                applied_path: order.path.clone(),
                applied_at: now,
                applied_by_user: order.by_user,
                date: order.date.clone(),
            };
            ApplyStep { stage: ApplyStage::Record, say: None, action: ApplyAction::Record(last) }
        },
        (ApplyStage::Record, ApplyEvent::Outcome { .. }) => ApplyStep {
            stage: ApplyStage::Over,
            say: None,
            action: ApplyAction::Finish(Ok(())),
        },
        _ => vstd::pervasive::unreached(),
    }
}

/// What was applied is noted only after the wallpaper was set, and the note tells of the order
/// that was carried out.
pub proof fn only_what_was_set_is_noted(
    job: ApplyJob,
    at: ApplyStage,
    event: ApplyEvent,
    step: ApplyStep,
)
    requires
        apply_fits(at, event),
        apply_advances(job, at, event, step),
    ensures
        step.action matches ApplyAction::Record(last) ==> {
            &&& at is Run
            &&& event matches ApplyEvent::Outcome { result: Ok(_), .. }
            &&& last@.applied_path == job.order@.path
            &&& last@.candidate_id == job.order@.candidate_id
            &&& last@.source == job.order@.source
            &&& last@.date == job.order@.date
            &&& last@.applied_by_user == job.order@.by_user
        },
{
}

/// Applying succeeds only when what was applied has been noted.
pub proof fn success_is_noted(job: ApplyJob, at: ApplyStage, event: ApplyEvent, step: ApplyStep)
    requires
        apply_fits(at, event),
        apply_advances(job, at, event, step),
        step.action == ApplyAction::Finish(Ok(())),
    ensures
        at is Record,
        event matches ApplyEvent::Outcome { result: Ok(_), .. },
{
}

// ------------------------------------------------------------------------------------------
// Applying the last wallpaper again
// ------------------------------------------------------------------------------------------

/// How far the reapplying is.
pub enum ReapplyStage {
    /// What was applied last is read.
    Read,
    /// Its file is looked for.
    Look(LastApplied),
    /// It is applied.
    Apply,
    Over,
}

/// What the reapplying asks for.
pub enum ReapplyAction {
    ReadLast,
    LookFor(String),
    Apply(ApplyOrder),
    Finish(Result<(), WallpaperError>),
}

/// What an action brought about.
pub enum ReapplyEvent {
    Last(Result<Option<LastApplied>, WallpaperError>),
    Found(bool),
    Outcome(Result<(), WallpaperError>),
}

/// A step of the reapplying: what is logged, and what is asked for.
pub struct ReapplyStep {
    pub stage: ReapplyStage,
    pub say: Option<String>,
    pub action: ReapplyAction,
}

/// Whether an event can follow the action of a stage.
pub open spec fn reapply_fits(at: ReapplyStage, event: ReapplyEvent) -> bool {
    match at {
        ReapplyStage::Read => event is Last,
        ReapplyStage::Look(_) => event is Found,
        ReapplyStage::Apply => event is Outcome,
        ReapplyStage::Over => false,
    }
}

/// Whether the reapplying ends with `error`.
pub open spec fn reapply_fails(error: ErrorView, step: ReapplyStep) -> bool {
    &&& step.stage is Over
    &&& step.say is None
    &&& step.action matches ReapplyAction::Finish(Err(e)) && e@ == error
}

/// The order to apply again what was applied last; the user asks for it.
pub open spec fn order_again(last: AppliedView) -> OrderView {
    OrderView {
        path: last.applied_path,
        candidate_id: last.candidate_id,
        source: last.source,
        date: last.date,
        by_user: true,
    }
}

/// Whether `step` follows when `event` comes at a stage.
pub open spec fn reapply_advances(at: ReapplyStage, event: ReapplyEvent, step: ReapplyStep) -> bool {
    match (at, event) {
        (ReapplyStage::Read, ReapplyEvent::Last(Err(e))) => reapply_fails(e@, step),
        (ReapplyStage::Read, ReapplyEvent::Last(Ok(None))) => reapply_fails(
            ErrorView::Message(
                "No previously applied wallpaper found. Choose a wallpaper first."@,
            ),
            step,
        ),
        (ReapplyStage::Read, ReapplyEvent::Last(Ok(Some(last)))) => {
            &&& step.stage == ReapplyStage::Look(last)
            &&& step.say is None
            &&& step.action matches ReapplyAction::LookFor(path) && path@ == last.applied_path@
        },
        (ReapplyStage::Look(last), ReapplyEvent::Found(found)) => if found {
            &&& step.stage is Apply
            &&& opt_text(step.say) == Some(
                "Reapplying last wallpaper ("@ + variant_name(last.source) + ") from "@
                    + last.applied_path@,
            )
            &&& step.action matches ReapplyAction::Apply(order) && order@ == order_again(last@)
        } else {
            reapply_fails(
                ErrorView::Message(
                    "Previously applied wallpaper is missing: "@ + last.applied_path@,
                ),
                step,
            )
        },
        (ReapplyStage::Apply, ReapplyEvent::Outcome(result)) => {
            &&& step.stage is Over
            &&& step.say is None
            &&& step.action == ReapplyAction::Finish(result)
        },
        _ => false,
    }
}

fn reapply_fail(error: WallpaperError) -> (r: ReapplyStep)
    ensures
        reapply_fails(error@, r),
{
    ReapplyStep {
        stage: ReapplyStage::Over,
        say: None,
        action: ReapplyAction::Finish(Err(error)),
    }
}

/// Begins to apply the last wallpaper again.
pub fn reapply_last_wallpaper() -> (r: ReapplyStep)
    ensures
        r.stage is Read,
        r.say is None,
        r.action is ReadLast,
{
    ReapplyStep { stage: ReapplyStage::Read, say: None, action: ReapplyAction::ReadLast }
}

/// The next step of the reapplying.
pub fn reapply_step(at: ReapplyStage, event: ReapplyEvent) -> (r: ReapplyStep)
    requires
        reapply_fits(at, event),
    ensures
        reapply_advances(at, event, r),
{
    match (at, event) {
        (ReapplyStage::Read, ReapplyEvent::Last(Err(e))) => reapply_fail(e),
        (ReapplyStage::Read, ReapplyEvent::Last(Ok(None))) => reapply_fail(
            WallpaperError::Message(
                "No previously applied wallpaper found. Choose a wallpaper first.".to_string(),
            ),
        ),
        (ReapplyStage::Read, ReapplyEvent::Last(Ok(Some(last)))) => {
            let path = last.applied_path.clone();
            ReapplyStep {
                stage: ReapplyStage::Look(last),
                say: None,
                action: ReapplyAction::LookFor(path),
            }
        },
        (ReapplyStage::Look(last), ReapplyEvent::Found(found)) => {
            if !found {
                let mut text = "Previously applied wallpaper is missing: ".to_string();
                text.append(last.applied_path.as_str());
                return reapply_fail(WallpaperError::Message(text));
            }
            let mut say = "Reapplying last wallpaper (".to_string();
            say.append(source_variant(last.source));
            say.append(") from ");
            say.append(last.applied_path.as_str());
            ReapplyStep {
                stage: ReapplyStage::Apply,
                say: Some(say),
                action: ReapplyAction::Apply(
                    ApplyOrder {
                        path: last.applied_path,
                        candidate_id: last.candidate_id,
                        source: last.source,
                        date: last.date,
                        by_user: true,
                    },
                ),
            }
        },
        (ReapplyStage::Apply, ReapplyEvent::Outcome(result)) => ReapplyStep {
            stage: ReapplyStage::Over,
            say: None,
            action: ReapplyAction::Finish(result),
        },
        _ => vstd::pervasive::unreached(),
    }
}

/// Applying the last wallpaper again notes the same wallpaper, as one that the user asked for.
pub proof fn reapplying_keeps_the_note(last: AppliedView, now: u64)
    ensures
        record_of(order_again(last), now) == (AppliedView {
            applied_at: now,
            applied_by_user: true,
            ..last
        }),
{
}

/// The desktop is set to the file of the order, and that file is what is noted as applied, at the
/// time at which it was set, and under the order's own id, source and day.
pub proof fn file_of_the_order_is_set_and_noted(
    job: ApplyJob,
    first: ApplyStep,
    now: u64,
    noted: ApplyStep,
)
    requires
        !job.experimental,
        !holds(job.order.path@, "\""@),
        apply_begins(job, first),
        apply_advances(
            job,
            first.stage,
            ApplyEvent::Outcome { result: Ok(()), now },
            noted,
        ),
    ensures
        first.action matches ApplyAction::RunScript(script) && (job.monitor == 0 ==> script@
            == "tell application \"System Events\" to tell every desktop to set picture to (POSIX file \""@
            + job.order.path@ + "\")"@),
        noted.action matches ApplyAction::Record(last) && last.applied_path@ == job.order.path@
            && last.candidate_id@ == job.order.candidate_id@ && last.source == job.order.source
            && opt_text(last.date) == opt_text(job.order.date) && last.applied_by_user
            == job.order.by_user && last.applied_at == now,
{
    reveal_strlit("\"");
    assert(replaced(job.order.path@, "\""@, "\\\""@) == job.order.path@);
}

/// One monitor is set by its number, counted from one; without a number all of them are.
pub proof fn monitor_is_set_by_its_number(path: Seq<char>, monitor: int, other: int)
    requires
        monitor >= 1,
        other >= 1,
        monitor != other,
    ensures
        script_text(path, monitor) != script_text(path, other),
        script_text(path, -1) == script_text(path, 0),
        ends_in_item(script_text(path, monitor), monitor),
{
    let head =
        "\n        set tlst to {}\n        tell application \"System Events\"\n            set tlst to a reference to every desktop\n            set picture of item "@;
    let mid = " of tlst to (POSIX file \""@;
    reveal_strlit(" of tlst to (POSIX file \"");
    let tail = replaced(path, "\""@, "\\\""@) + "\")\n        end tell\n        "@;
    let x = decimal(monitor as nat);
    let y = decimal(other as nat);
    crate::number::lemma_decimal(monitor as nat);
    crate::number::lemma_decimal(other as nat);
    let s = head + x + mid + tail;
    let t = head + y + mid + tail;
    assert(script_text(path, monitor) =~= s);
    assert(script_text(path, other) =~= t);
    if s == t {
        let n = head.len() as int;
        assert(s.len() == t.len());
        assert(x.len() == y.len());
        assert forall|i: int| 0 <= i < x.len() implies x[i] == y[i] by {
            assert(s[n + i] == x[i]);
            assert(t[n + i] == y[i]);
        }
        assert(x =~= y);
        crate::number::decimal_reads_back(monitor as nat, monitor + other);
        crate::number::decimal_reads_back(other as nat, monitor + other);
    }
    assert(script_text(path, monitor) =~= head + x + (mid + tail));
    assert((mid + tail).take(mid.len() as int) =~= mid);
    assert(script_text(path, monitor).skip((head + x).len() as int) =~= mid + tail);
    assert(script_text(path, monitor).take((head + x).len() as int) =~= head + x);
}

/// Whether a script sets the picture of the item with the given number.
pub open spec fn ends_in_item(script: Seq<char>, number: int) -> bool {
    let head =
        "\n        set tlst to {}\n        tell application \"System Events\"\n            set tlst to a reference to every desktop\n            set picture of item "@
        + decimal(number as nat);
    head.len() <= script.len() && script.take(head.len() as int) == head
}

/// With all desktops set through the database, it is looked for where the dock keeps it, it gets
/// the file of the order, and the dock is started again before anything is noted.
pub proof fn database_gets_the_file_of_the_order(
    job: ApplyJob,
    first: ApplyStep,
    second: ApplyStep,
    now: u64,
    third: ApplyStep,
)
    requires
        job.experimental,
        apply_begins(job, first),
        apply_advances(job, first.stage, ApplyEvent::Found(true), second),
        apply_advances(job, second.stage, ApplyEvent::Outcome { result: Ok(()), now }, third),
    ensures
        first.action matches ApplyAction::LookFor(path) && path@ == path_join(
            path_join(path_join(path_join(job.home@, "Library"@), "Application Support"@), "Dock"@),
            "desktoppicture.db"@,
        ),
        second.action matches ApplyAction::WriteDatabase { database, path } && database@
            == first.action->LookFor_0@ && path@ == job.order.path@,
        third.action is RestartDock,
{
}

/// What is applied again is the file that was looked for and found, the one that was applied
/// last, under its own id, source and day, and now as the choice of the user.
pub proof fn last_wallpaper_is_applied_again(
    last: LastApplied,
    first: ReapplyStep,
    second: ReapplyStep,
)
    requires
        reapply_advances(ReapplyStage::Read, ReapplyEvent::Last(Ok(Some(last))), first),
        reapply_advances(first.stage, ReapplyEvent::Found(true), second),
    ensures
        first.action matches ReapplyAction::LookFor(path) && path@ == last.applied_path@,
        second.action matches ReapplyAction::Apply(order) && order@.path == last.applied_path@
            && order@.candidate_id == last.candidate_id@ && order@.source == last.source
            && order@.date == opt_text(last.date) && order@.by_user,
{
}

/// Nothing is applied again where nothing was applied, or where its file is gone.
pub proof fn missing_wallpaper_is_not_applied_again(
    last: LastApplied,
    event: ReapplyEvent,
    step: ReapplyStep,
)
    requires
        (event == ReapplyEvent::Last(Ok(None)) && reapply_advances(ReapplyStage::Read, event, step))
            || (event == ReapplyEvent::Found(false) && reapply_advances(
            ReapplyStage::Look(last),
            event,
            step,
        )),
    ensures
        step.action matches ReapplyAction::Finish(Err(_)),
{
}

/// A wallpaper is applied from its own file, under its own id, source and day.
pub proof fn order_is_of_the_wallpaper(c: CandidateView, by_user: bool)
    ensures
        order_for(c, by_user).path == c.local_path,
        order_for(c, by_user).candidate_id == c.id,
        order_for(c, by_user).source == c.source,
        order_for(c, by_user).date == Some(c.date),
        order_for(c, by_user).by_user == by_user,
{
}

/// What fails while a wallpaper is applied is told as it is, and ends the applying.
pub proof fn failed_applying_is_told(
    job: ApplyJob,
    at: ApplyStage,
    e: WallpaperError,
    now: u64,
    step: ApplyStep,
)
    requires
        !(at is Look),
        apply_advances(job, at, ApplyEvent::Outcome { result: Err(e), now }, step),
    ensures
        step.stage is Over,
        step.action matches ApplyAction::Finish(Err(told)) && told@ == e@,
{
}

/// Once the database is written, the Dock is started again to show it; a missing database is told.
pub proof fn dock_shows_the_database(
    job: ApplyJob,
    now: u64,
    written: ApplyStep,
    missing: ApplyStep,
)
    requires
        apply_advances(
            job,
            ApplyStage::Database,
            ApplyEvent::Outcome { result: Ok(()), now },
            written,
        ),
        apply_advances(job, ApplyStage::Look, ApplyEvent::Found(false), missing),
    ensures
        written.action is RestartDock,
        missing.action matches ApplyAction::Finish(Err(_)),
{
}

/// Applying again ends as the applying ended.
pub proof fn reapplying_ends_as_the_applying(
    result: Result<(), WallpaperError>,
    step: ReapplyStep,
)
    requires
        reapply_advances(ReapplyStage::Apply, ReapplyEvent::Outcome(result), step),
    ensures
        step.action == ReapplyAction::Finish(result),
{
}

/// The desktop is set by a script, and with all desktops through the database; which of the two
/// is for the settings to say.
pub proof fn settings_choose_the_way(job: ApplyJob, step: ApplyStep)
    requires
        apply_begins(job, step),
    ensures
        !job.experimental <==> step.action is RunScript,
        !job.experimental <==> step.stage is Run,
        job.experimental <==> step.action is LookFor,
        job.experimental <==> step.stage is Look,
{
}

} // verus!

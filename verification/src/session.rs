//! A run of the program: which command is carried out, the menu that is shown without one, and
//! the days that can be picked from the cache.
//!
//! A run is a machine. Each step says what is printed, what is logged and what is asked for next.

use crate::chooser::{Answer, ChooseOutcome};
use crate::config::{CommandArg, date_override_note, on_date, settings_with_date_override};
use crate::date::{Date, date_of, date_text, parse_date};
use crate::days::{
    DayFolder, all_valid, date_labels, date_refusal, day_texts, list_cached_dates, newest_first,
    offered_days, validate_date_arg,
};
use crate::error::{ErrorView, WallpaperError};
use crate::model::Settings;
use crate::text::{ascii_lower, letters, opt_text, same, texts};
use vstd::prelude::*;

verus! {

// ------------------------------------------------------------------------------------------
// The menu
// ------------------------------------------------------------------------------------------

/// What the menu offers.
#[derive(Debug, Clone, Copy, PartialEq, Eq, Structural)]
pub enum ParentMenuChoice {
    Choose,
    Info,
    Reapply,
    BrowseCache,
}

/// The lines of the menu.
pub open spec fn menu_lines() -> Seq<Seq<char>> {
    seq![
        "Choose a wallpaper"@,
        "Show info about the current wallpaper"@,
        "Reapply the last wallpaper"@,
        "Browse cache"@,
    ]
}

/// What a line of the menu stands for.
pub open spec fn menu_choice(text: Seq<char>) -> ParentMenuChoice {
    if text == "Choose a wallpaper"@ {
        ParentMenuChoice::Choose
    } else if text == "Show info about the current wallpaper"@ {
        ParentMenuChoice::Info
    } else if text == "Reapply the last wallpaper"@ {
        ParentMenuChoice::Reapply
    } else {
        ParentMenuChoice::BrowseCache
    }
}

/// The lines of the menu.
pub fn prompt_parent_menu() -> (r: Vec<String>)
    ensures
        texts(r@) == menu_lines(),
{
    let r = vec![
        "Choose a wallpaper".to_string(),
        "Show info about the current wallpaper".to_string(),
        "Reapply the last wallpaper".to_string(),
        "Browse cache".to_string(),
    ];
    assert(texts(r@) =~= menu_lines());
    r
}

fn menu_choice_of(text: &str) -> (r: ParentMenuChoice)
    ensures
        r == menu_choice(text@),
{
    if same(text, "Choose a wallpaper") {
        ParentMenuChoice::Choose
    } else if same(text, "Show info about the current wallpaper") {
        ParentMenuChoice::Info
    } else if same(text, "Reapply the last wallpaper") {
        ParentMenuChoice::Reapply
    } else {
        ParentMenuChoice::BrowseCache
    }
}

/// Whether a day that was asked for is to be picked from a list: the word is `pick`, in any case.
pub open spec fn asks_to_pick(value: Seq<char>) -> bool {
    value.map_values(|c: char| ascii_lower(c)) == "pick"@
}

fn is_asked_to_pick(value: &str) -> (r: bool)
    ensures
        r == asks_to_pick(value@),
{
    let v = letters(value);
    let ghost low = value@.map_values(|c: char| ascii_lower(c));
    proof {
        reveal_strlit("pick");
        if low == "pick"@ {
            assert(low.len() == 4);
            assert(low[0] == ascii_lower(v@[0]));
            assert(low[1] == ascii_lower(v@[1]));
            assert(low[2] == ascii_lower(v@[2]));
            assert(low[3] == ascii_lower(v@[3]));
        }
    }
    let r = v.len() == 4 && (v[0] == 'p' || v[0] == 'P') && (v[1] == 'i' || v[1] == 'I') && (v[2]
        == 'c' || v[2] == 'C') && (v[3] == 'k' || v[3] == 'K');
    assert(r ==> low =~= "pick"@);
    r
}

// ------------------------------------------------------------------------------------------
// The run
// ------------------------------------------------------------------------------------------

/// What a run is about.
pub struct RunJob {
    pub command: Option<CommandArg>,
    /// The day that was asked for.
    pub date: Option<String>,
    pub settings: Settings,
    /// Whether the user is at a terminal.
    pub interactive: bool,
}

/// How far the run is. `menu` tells whether the menu led there, and `pick` whether a day was
/// picked from the list.
pub enum RunStage {
    /// A command is carried out that says something when it is done.
    Command(CommandArg),
    /// The menu is shown.
    Menu,
    /// The days of the cache are listed, to pick one.
    Days { menu: bool },
    /// The days of the cache are listed, to look for the one that was asked for.
    Check { menu: bool },
    /// A day is picked.
    Pick { menu: bool },
    /// The directories of the wallpapers are made.
    Prepare { menu: bool, pick: bool, settings: Settings },
    /// The chooser is open.
    Choose { menu: bool, pick: bool },
    /// The directory of the wallpapers is made, to apply the last one again.
    PrepareReapply,
    /// The schedule of the automatic update is mended.
    Heal,
    /// Something is done that ends the run.
    Last,
    Over,
}

/// What a run asks for.
pub enum RunAction {
    EnableAutoUpdate,
    DisableAutoUpdate,
    EnableDisplaySync,
    DisableDisplaySync,
    DisplaySync,
    AutoUpdate,
    HealAutoUpdate,
    ShowInfo,
    Reapply,
    AskMenu(Vec<String>),
    /// List the days of the cache.
    ListDays,
    AskDate(Vec<String>),
    MakeDirs(Vec<String>),
    /// Open the chooser with these settings.
    Choose(Settings),
    Finish(Result<(), WallpaperError>),
}

/// What an action brought about.
pub enum RunEvent {
    Outcome(Result<(), WallpaperError>),
    Answer(Answer),
    Days { folders: Vec<DayFolder>, today: Date },
    Chosen(Result<ChooseOutcome, WallpaperError>),
}

/// A step of a run: what is printed, what is logged, and what is asked for.
pub struct RunStep {
    pub stage: RunStage,
    pub say: Option<String>,
    pub log: Option<String>,
    pub action: RunAction,
}

/// Whether a stage is one of this run: the menu leads nowhere where it is not shown.
pub open spec fn run_sound(job: RunJob, at: RunStage) -> bool {
    let shown = job.command is None && job.interactive;
    match at {
        RunStage::Command(c) => job.command == Some(c),
        RunStage::Menu => shown,
        RunStage::Days { menu } => menu ==> shown,
        RunStage::Check { menu } => (menu ==> shown) && job.date is Some,
        RunStage::Pick { menu } => menu ==> shown,
        RunStage::Prepare { menu, .. } => menu ==> shown,
        RunStage::Choose { menu, .. } => menu ==> shown,
        RunStage::Heal => job.command is None,
        _ => true,
    }
}

/// Whether an event can follow the action of a stage.
pub open spec fn run_fits(at: RunStage, event: RunEvent) -> bool {
    match at {
        RunStage::Command(_) | RunStage::Prepare { .. } | RunStage::PrepareReapply
        | RunStage::Heal | RunStage::Last => event is Outcome,
        RunStage::Menu => event matches RunEvent::Answer(answer) && (answer matches Answer::Picked(
            text,
        ) ==> menu_lines().contains(text@)),
        RunStage::Pick { .. } => event is Answer,
        RunStage::Days { .. } | RunStage::Check { .. } => event is Days,
        RunStage::Choose { .. } => event is Chosen,
        RunStage::Over => false,
    }
}

/// Whether `step` prints and logs nothing.
pub open spec fn silent(step: RunStep) -> bool {
    step.say is None && step.log is None
}

/// Whether the run ends with `error`.
pub open spec fn run_fails(error: ErrorView, step: RunStep) -> bool {
    &&& step.stage is Over
    &&& silent(step)
    &&& step.action matches RunAction::Finish(Err(e)) && e@ == error
}

/// Whether the run ends well.
pub open spec fn run_ends(step: RunStep) -> bool {
    &&& step.stage is Over
    &&& silent(step)
    &&& step.action == RunAction::Finish(Ok(()))
}

/// Whether the menu is shown.
pub open spec fn shows_menu(step: RunStep) -> bool {
    &&& step.stage is Menu
    &&& silent(step)
    &&& step.action matches RunAction::AskMenu(lines) && texts(lines@) == menu_lines()
}

/// What follows when the user backs out of what the run is at: the menu, where it led there.
pub open spec fn backs_out(menu: bool, step: RunStep) -> bool {
    if menu {
        shows_menu(step)
    } else {
        run_ends(step)
    }
}

/// Whether the directories of the wallpapers are made, to open the chooser.
pub open spec fn prepares(
    menu: bool,
    pick: bool,
    settings: Settings,
    log: Option<Seq<char>>,
    step: RunStep,
) -> bool {
    &&& step.stage == (RunStage::Prepare { menu, pick, settings })
    &&& step.say is None
    &&& opt_text(step.log) == log
    &&& step.action matches RunAction::MakeDirs(dirs) && texts(dirs@) == seq![
        settings.picture_dir@,
        settings.favorites_dir@,
    ]
}

/// Whether the days of the cache are listed, to pick one.
pub open spec fn lists_days(menu: bool, step: RunStep) -> bool {
    &&& step.stage == (RunStage::Days { menu })
    &&& silent(step)
    &&& step.action is ListDays
}

/// Whether the chooser is opened, for the day that was asked for or for today.
pub open spec fn opens_chooser(
    job: RunJob,
    date: Option<Seq<char>>,
    menu: bool,
    step: RunStep,
) -> bool {
    match date {
        None => prepares(menu, false, job.settings, None, step),
        Some(value) => if asks_to_pick(value) {
            lists_days(menu, step)
        } else {
            &&& step.stage == (RunStage::Check { menu })
            &&& silent(step)
            &&& step.action is ListDays
        },
    }
}

/// Whether the directory of the wallpapers is made, to apply the last one again.
pub open spec fn prepares_reapply(job: RunJob, step: RunStep) -> bool {
    &&& step.stage is PrepareReapply
    &&& silent(step)
    &&& step.action matches RunAction::MakeDirs(dirs) && texts(dirs@) == seq![
        job.settings.picture_dir@,
    ]
}

/// Whether `step` does one last thing.
pub open spec fn ends_with(action: RunAction, step: RunStep) -> bool {
    &&& step.stage is Last
    &&& silent(step)
    &&& step.action == action
}

/// Whether `step` carries out a command that says something when it is done.
pub open spec fn carries_out(command: CommandArg, action: RunAction, step: RunStep) -> bool {
    &&& step.stage == RunStage::Command(command)
    &&& silent(step)
    &&& step.action == action
}

/// Whether the schedule of the automatic update is mended.
pub open spec fn heals(step: RunStep) -> bool {
    &&& step.stage is Heal
    &&& silent(step)
    &&& step.action is HealAutoUpdate
}

/// Whether `step` begins the run. Without a command the menu is shown at a terminal; elsewhere
/// the automatic update is run, after its schedule was mended.
pub open spec fn run_begins(job: RunJob, step: RunStep) -> bool {
    match job.command {
        Some(CommandArg::EnableAutoUpdate) => carries_out(
            CommandArg::EnableAutoUpdate,
            RunAction::EnableAutoUpdate,
            step,
        ),
        Some(CommandArg::DisableAutoUpdate) => carries_out(
            CommandArg::DisableAutoUpdate,
            RunAction::DisableAutoUpdate,
            step,
        ),
        Some(CommandArg::EnableDisplaySync) => carries_out(
            CommandArg::EnableDisplaySync,
            RunAction::EnableDisplaySync,
            step,
        ),
        Some(CommandArg::DisableDisplaySync) => carries_out(
            CommandArg::DisableDisplaySync,
            RunAction::DisableDisplaySync,
            step,
        ),
        Some(CommandArg::DisplaySync) => ends_with(RunAction::DisplaySync, step),
        Some(CommandArg::AutoUpdateRun) => ends_with(RunAction::AutoUpdate, step),
        Some(CommandArg::Info) => ends_with(RunAction::ShowInfo, step),
        Some(CommandArg::Choose) => opens_chooser(job, opt_text(job.date), false, step),
        Some(CommandArg::Reapply) => prepares_reapply(job, step),
        None => if job.interactive {
            shows_menu(step)
        } else {
            heals(step)
        },
    }
}

/// What is logged when a command is done.
pub open spec fn done_note(command: CommandArg) -> Option<Seq<char>> {
    match command {
        CommandArg::EnableAutoUpdate => Some("Automatic wallpaper update enabled."@),
        CommandArg::DisableAutoUpdate => Some("Automatic wallpaper update disabled."@),
        CommandArg::EnableDisplaySync => Some("Display sync enabled."@),
        CommandArg::DisableDisplaySync => Some("Display sync disabled."@),
        _ => None,
    }
}

/// Whether `dates` are the days that the cache has, newest first.
pub open spec fn are_days(
    dates: Seq<Date>,
    folders: Seq<DayFolder>,
    today: Date,
    exclude_today: bool,
) -> bool {
    &&& newest_first(dates)
    &&& all_valid(dates)
    &&& dates.to_multiset() == offered_days(folders, today, exclude_today).to_multiset()
}

/// Whether one of `dates` is to be picked; a run that has none ends.
pub open spec fn offers_days(menu: bool, dates: Seq<Date>, step: RunStep) -> bool {
    if dates.len() == 0 {
        &&& step.stage is Over
        &&& opt_text(step.say) == Some("No cached dates found yet."@)
        &&& step.log is None
        &&& step.action == RunAction::Finish(Ok(()))
    } else {
        &&& step.stage == (RunStage::Pick { menu })
        &&& silent(step)
        &&& step.action matches RunAction::AskDate(lines) && texts(lines@) == day_texts(dates)
    }
}

/// Whether the chooser is opened for a day of the cache, offline.
pub open spec fn opens_day(
    job: RunJob,
    menu: bool,
    pick: bool,
    date: Date,
    step: RunStep,
) -> bool {
    prepares(
        menu,
        pick,
        on_date(job.settings, date),
        if job.settings.offline {
            None
        } else {
            Some("Offline mode forced because --date "@ + date_text(date) + " was used."@)
        },
        step,
    )
}

/// The day that was picked; `None` where the user backed out.
pub open spec fn picked_date(answer: Answer) -> Option<Date> {
    match answer {
        Answer::Picked(text) => date_of(text@),
        _ => None,
    }
}

/// Whether `step` follows when `event` comes at a stage.
pub open spec fn run_advances(job: RunJob, at: RunStage, event: RunEvent, step: RunStep) -> bool {
    match (at, event) {
        (RunStage::Command(c), RunEvent::Outcome(Ok(_))) => {
            &&& step.stage is Over
            &&& step.say is None
            &&& opt_text(step.log) == done_note(c)
            &&& step.action == RunAction::Finish(Ok(()))
        },
        (RunStage::Menu, RunEvent::Answer(Answer::Escaped)) => run_ends(step),
        (RunStage::Menu, RunEvent::Answer(Answer::Broken)) => heals(step),
        (RunStage::Menu, RunEvent::Answer(Answer::Picked(text))) => match menu_choice(text@) {
            ParentMenuChoice::Choose => opens_chooser(job, opt_text(job.date), true, step),
            ParentMenuChoice::Info => ends_with(RunAction::ShowInfo, step),
            ParentMenuChoice::Reapply => prepares_reapply(job, step),
            ParentMenuChoice::BrowseCache => opens_chooser(job, Some("pick"@), true, step),
        },
        (RunStage::Days { menu }, RunEvent::Days { folders, today }) => exists|dates: Seq<Date>|
            #[trigger] are_days(dates, folders@, today, true) && offers_days(menu, dates, step),
        (RunStage::Check { menu }, RunEvent::Days { folders, today }) => exists|dates: Seq<Date>|
            #[trigger] are_days(dates, folders@, today, false) && match date_refusal(
                job.date.unwrap()@,
                today,
                dates,
            ) {
                Some(text) => run_fails(ErrorView::Message(text), step),
                None => opens_day(
                    job,
                    menu,
                    false,
                    date_of(job.date.unwrap()@).unwrap(),
                    step,
                ),
            },
        (RunStage::Pick { .. }, RunEvent::Answer(Answer::Broken)) => run_ends(step),
        (RunStage::Pick { menu }, RunEvent::Answer(answer)) => match picked_date(answer) {
            Some(date) => opens_day(job, menu, true, date, step),
            None => backs_out(menu, step),
        },
        (RunStage::Prepare { menu, pick, settings }, RunEvent::Outcome(Ok(_))) => {
            &&& step.stage == (RunStage::Choose { menu, pick })
            &&& silent(step)
            &&& step.action == RunAction::Choose(settings)
        },
        (RunStage::Choose { .. }, RunEvent::Chosen(Err(e))) => run_fails(e@, step),
        (RunStage::Choose { .. }, RunEvent::Chosen(Ok(ChooseOutcome::Done))) => run_ends(step),
        (RunStage::Choose { menu, pick }, RunEvent::Chosen(Ok(ChooseOutcome::Canceled))) => {
            if pick {
                lists_days(menu, step)
            } else {
                backs_out(menu, step)
            }
        },
        (RunStage::PrepareReapply, RunEvent::Outcome(Ok(_))) => ends_with(
            RunAction::Reapply,
            step,
        ),
        (RunStage::Heal, RunEvent::Outcome(Ok(_))) => ends_with(RunAction::AutoUpdate, step),
        (RunStage::Last, RunEvent::Outcome(Ok(_))) => run_ends(step),
        (_, RunEvent::Outcome(Err(e))) => run_fails(e@, step),
        _ => false,
    }
}

fn quiet_step(stage: RunStage, action: RunAction) -> (r: RunStep)
    ensures
        r.stage == stage,
        r.action == action,
        silent(r),
{
    RunStep { stage, say: None, log: None, action }
}

fn run_fail(error: WallpaperError) -> (r: RunStep)
    ensures
        run_fails(error@, r),
{
    quiet_step(RunStage::Over, RunAction::Finish(Err(error)))
}

fn run_end() -> (r: RunStep)
    ensures
        run_ends(r),
{
    quiet_step(RunStage::Over, RunAction::Finish(Ok(())))
}

fn show_menu() -> (r: RunStep)
    ensures
        shows_menu(r),
{
    quiet_step(RunStage::Menu, RunAction::AskMenu(prompt_parent_menu()))
}

fn back_out(menu: bool) -> (r: RunStep)
    ensures
        backs_out(menu, r),
{
    if menu {
        show_menu()
    } else {
        run_end()
    }
}

fn prepare(menu: bool, pick: bool, settings: Settings, log: Option<String>) -> (r: RunStep)
    ensures
        prepares(menu, pick, settings, opt_text(log), r),
{
    let dirs = vec![settings.picture_dir.clone(), settings.favorites_dir.clone()];
    assert(texts(dirs@) =~= seq![settings.picture_dir@, settings.favorites_dir@]);
    RunStep {
        stage: RunStage::Prepare { menu, pick, settings },
        say: None,
        log,
        action: RunAction::MakeDirs(dirs),
    }
}

fn open_day(job: &RunJob, menu: bool, pick: bool, date: Date) -> (r: RunStep)
    requires
        date.valid(),
    ensures
        opens_day(*job, menu, pick, date, r),
{
    let log = date_override_note(&job.settings, date);
    prepare(menu, pick, settings_with_date_override(&job.settings, date), log)
}

/// Opens the chooser, for the day that was asked for or for today.
pub fn dispatch_choose_maybe_dated(job: &RunJob, date: Option<&str>, menu: bool) -> (r: RunStep)
    ensures
        opens_chooser(
            *job,
            match date {
                Some(d) => Some(d@),
                None => None,
            },
            menu,
            r,
        ),
{
    match date {
        None => prepare(menu, false, job.settings.clone(), None),
        Some(value) => {
            if is_asked_to_pick(value) {
                quiet_step(RunStage::Days { menu }, RunAction::ListDays)
            } else {
                quiet_step(RunStage::Check { menu }, RunAction::ListDays)
            }
        },
    }
}

fn prepare_reapply(job: &RunJob) -> (r: RunStep)
    ensures
        prepares_reapply(*job, r),
{
    let dirs = vec![job.settings.picture_dir.clone()];
    assert(texts(dirs@) =~= seq![job.settings.picture_dir@]);
    quiet_step(RunStage::PrepareReapply, RunAction::MakeDirs(dirs))
}

/// Does what was picked from the menu.
pub fn run_menu_selection(job: &RunJob, choice: ParentMenuChoice) -> (r: RunStep)
    requires
        job.command is None,
        job.interactive,
    ensures
        match choice {
            ParentMenuChoice::Choose => opens_chooser(*job, opt_text(job.date), true, r),
            ParentMenuChoice::Info => ends_with(RunAction::ShowInfo, r),
            ParentMenuChoice::Reapply => prepares_reapply(*job, r),
            ParentMenuChoice::BrowseCache => opens_chooser(*job, Some("pick"@), true, r),
        },
        run_sound(*job, r.stage),
{
    match choice {
        ParentMenuChoice::Choose => match &job.date {
            Some(d) => dispatch_choose_maybe_dated(job, Some(d.as_str()), true),
            None => dispatch_choose_maybe_dated(job, None, true),
        },
        ParentMenuChoice::Info => quiet_step(RunStage::Last, RunAction::ShowInfo),
        ParentMenuChoice::Reapply => prepare_reapply(job),
        ParentMenuChoice::BrowseCache => {
            proof {
                lemma_pick();
            }
            dispatch_choose_maybe_dated(job, Some("pick"), true)
        },
    }
}

proof fn lemma_pick()
    ensures
        asks_to_pick("pick"@),
{
    reveal_strlit("pick");
    assert("pick"@.map_values(|c: char| ascii_lower(c)) =~= "pick"@);
}

/// Offers the days of the cache.
pub fn pick_cached_date(menu: bool, folders: &Vec<DayFolder>, today: Date) -> (r: RunStep)
    ensures
        exists|dates: Seq<Date>|
            #[trigger] are_days(dates, folders@, today, true) && offers_days(menu, dates, r),
{
    let dates = list_cached_dates(folders, today, true);
    assert(are_days(dates@, folders@, today, true));
    if dates.len() == 0 {
        return RunStep {
            stage: RunStage::Over,
            say: Some("No cached dates found yet.".to_string()),
            log: None,
            action: RunAction::Finish(Ok(())),
        };
    }
    quiet_step(RunStage::Pick { menu }, RunAction::AskDate(date_labels(&dates)))
}

/// What is logged before a run: force is of no use offline.
pub fn startup_note(settings: &Settings) -> (r: Option<String>)
    ensures
        opt_text(r) == if settings.offline && settings.force {
            Some("Offline mode enabled; ignoring --force for downloads."@)
        } else {
            None
        },
{
    if settings.offline && settings.force {
        Some("Offline mode enabled; ignoring --force for downloads.".to_string())
    } else {
        None
    }
}

/// Begins a run.
pub fn run_with_raw_args(job: &RunJob) -> (r: RunStep)
    ensures
        run_begins(*job, r),
        run_sound(*job, r.stage),
{
    match job.command {
        Some(CommandArg::EnableAutoUpdate) => quiet_step(
            RunStage::Command(CommandArg::EnableAutoUpdate),
            RunAction::EnableAutoUpdate,
        ),
        Some(CommandArg::DisableAutoUpdate) => quiet_step(
            RunStage::Command(CommandArg::DisableAutoUpdate),
            RunAction::DisableAutoUpdate,
        ),
        Some(CommandArg::EnableDisplaySync) => quiet_step(
            RunStage::Command(CommandArg::EnableDisplaySync),
            RunAction::EnableDisplaySync,
        ),
        Some(CommandArg::DisableDisplaySync) => quiet_step(
            RunStage::Command(CommandArg::DisableDisplaySync),
            RunAction::DisableDisplaySync,
        ),
        Some(CommandArg::DisplaySync) => quiet_step(RunStage::Last, RunAction::DisplaySync),
        Some(CommandArg::AutoUpdateRun) => quiet_step(RunStage::Last, RunAction::AutoUpdate),
        Some(CommandArg::Info) => quiet_step(RunStage::Last, RunAction::ShowInfo),
        Some(CommandArg::Choose) => match &job.date {
            Some(d) => dispatch_choose_maybe_dated(job, Some(d.as_str()), false),
            None => dispatch_choose_maybe_dated(job, None, false),
        },
        Some(CommandArg::Reapply) => prepare_reapply(job),
        None => {
            if job.interactive {
                show_menu()
            } else {
                quiet_step(RunStage::Heal, RunAction::HealAutoUpdate)
            }
        },
    }
}

fn done_note_of(command: CommandArg) -> (r: Option<String>)
    ensures
        opt_text(r) == done_note(command),
{
    match command {
        CommandArg::EnableAutoUpdate => Some("Automatic wallpaper update enabled.".to_string()),
        CommandArg::DisableAutoUpdate => Some("Automatic wallpaper update disabled.".to_string()),
        CommandArg::EnableDisplaySync => Some("Display sync enabled.".to_string()),
        CommandArg::DisableDisplaySync => Some("Display sync disabled.".to_string()),
        _ => None,
    }
}

/// The next step of a run.
pub fn run_step(job: &RunJob, at: RunStage, event: RunEvent) -> (r: RunStep)
    requires
        run_sound(*job, at),
        run_fits(at, event),
    ensures
        run_advances(*job, at, event, r),
        run_sound(*job, r.stage),
{
    match (at, event) {
        (RunStage::Command(c), RunEvent::Outcome(Ok(_))) => RunStep {
            stage: RunStage::Over,
            say: None,
            log: done_note_of(c),
            action: RunAction::Finish(Ok(())),
        },
        (RunStage::Menu, RunEvent::Answer(Answer::Escaped)) => run_end(),
        (RunStage::Menu, RunEvent::Answer(Answer::Broken)) => quiet_step(
            RunStage::Heal,
            RunAction::HealAutoUpdate,
        ),
        (RunStage::Menu, RunEvent::Answer(Answer::Picked(text))) => run_menu_selection(
            job,
            menu_choice_of(text.as_str()),
        ),
        (RunStage::Days { menu }, RunEvent::Days { folders, today }) => pick_cached_date(
            menu,
            &folders,
            today,
        ),
        (RunStage::Check { menu }, RunEvent::Days { folders, today }) => {
            let dates = list_cached_dates(&folders, today, false);
            assert(are_days(dates@, folders@, today, false));
            match &job.date {
                Some(value) => match validate_date_arg(value.as_str(), today, &dates) {
                    Ok(date) => open_day(job, menu, false, date),
                    Err(e) => run_fail(e),
                },
                None => vstd::pervasive::unreached(),
            }
        },
        (RunStage::Pick { .. }, RunEvent::Answer(Answer::Broken)) => run_end(),
        (RunStage::Pick { menu }, RunEvent::Answer(answer)) => {
            if let Answer::Picked(text) = &answer {
                if let Some(date) = parse_date(text.as_str()) {
                    return open_day(job, menu, true, date);
                }
            }
            back_out(menu)
        },
        (RunStage::Prepare { menu, pick, settings }, RunEvent::Outcome(Ok(_))) => quiet_step(
            RunStage::Choose { menu, pick },
            RunAction::Choose(settings),
        ),
        (RunStage::Choose { .. }, RunEvent::Chosen(Err(e))) => run_fail(e),
        (RunStage::Choose { .. }, RunEvent::Chosen(Ok(ChooseOutcome::Done))) => run_end(),
        (RunStage::Choose { menu, pick }, RunEvent::Chosen(Ok(ChooseOutcome::Canceled))) => {
            if pick {
                quiet_step(RunStage::Days { menu }, RunAction::ListDays)
            } else {
                back_out(menu)
            }
        },
        (RunStage::PrepareReapply, RunEvent::Outcome(Ok(_))) => quiet_step(
            RunStage::Last,
            RunAction::Reapply,
        ),
        (RunStage::Heal, RunEvent::Outcome(Ok(_))) => quiet_step(
            RunStage::Last,
            RunAction::AutoUpdate,
        ),
        (RunStage::Last, RunEvent::Outcome(Ok(_))) => run_end(),
        (_, RunEvent::Outcome(Err(e))) => run_fail(e),
        _ => vstd::pervasive::unreached(),
    }
}

// ------------------------------------------------------------------------------------------
// What holds of every run
// ------------------------------------------------------------------------------------------

/// A command is carried out without the menu.
pub proof fn command_shows_no_menu(job: RunJob, at: RunStage, event: RunEvent, step: RunStep)
    requires
        job.command is Some,
        run_begins(job, step) || run_sound(job, at) && run_fits(at, event) && run_advances(
            job,
            at,
            event,
            step,
        ),
    ensures
        !(step.action is AskMenu),
{
}

/// The schedule of the automatic update is looked at only by a run without a command.
pub proof fn commands_do_not_heal(job: RunJob, at: RunStage, event: RunEvent, step: RunStep)
    requires
        job.command is Some,
        run_begins(job, step) || run_sound(job, at) && run_fits(at, event) && run_advances(
            job,
            at,
            event,
            step,
        ),
    ensures
        !(step.action is HealAutoUpdate),
{
}

/// At a terminal, a run without a command begins with the menu; nothing is fetched or applied
/// before something was picked, unless the menu cannot be shown.
pub proof fn menu_comes_first(job: RunJob, event: RunEvent, first: RunStep, next: RunStep)
    requires
        job.command is None,
        job.interactive,
        run_begins(job, first),
        run_fits(first.stage, event),
        run_advances(job, first.stage, event, next),
    ensures
        first.action is AskMenu,
        !(next.action is AutoUpdate),
        !(next.action is Choose),
        !(next.action is Reapply),
        next.action is HealAutoUpdate ==> event == RunEvent::Answer(Answer::Broken),
{
}

/// Away from a terminal, a run without a command mends the schedule of the automatic update and
/// then runs it, and never shows the menu.
pub proof fn unattended_run_updates(job: RunJob, at: RunStage, event: RunEvent, step: RunStep)
    requires
        job.command is None,
        !job.interactive,
        run_begins(job, step) || run_sound(job, at) && run_fits(at, event) && run_advances(
            job,
            at,
            event,
            step,
        ),
    ensures
        run_begins(job, step) ==> step.action is HealAutoUpdate,
        at is Heal && run_fits(at, event) && run_advances(job, at, event, step) && event
            == RunEvent::Outcome(Ok(())) ==> step.action is AutoUpdate,
        !(step.action is AskMenu),
{
}

/// Picking from the menu begins what the command begins: the step is the same, except that the
/// menu is noted as the way back.
pub proof fn menu_runs_the_command(
    job: RunJob,
    direct: RunJob,
    command: CommandArg,
    text: String,
    from_menu: RunStep,
    from_command: RunStep,
)
    requires
        job.command is None,
        job.interactive,
        direct == (RunJob { command: Some(command), ..job }),
        run_begins(direct, from_command),
        run_advances(
            job,
            RunStage::Menu,
            RunEvent::Answer(Answer::Picked(text)),
            from_menu,
        ),
        command == CommandArg::Choose && menu_choice(text@) == ParentMenuChoice::Choose || command
            == CommandArg::Info && menu_choice(text@) == ParentMenuChoice::Info || command
            == CommandArg::Reapply && menu_choice(text@) == ParentMenuChoice::Reapply,
    ensures
        from_menu.action is ListDays <==> from_command.action is ListDays,
        from_menu.action is ShowInfo <==> from_command.action is ShowInfo,
        match (from_menu.action, from_command.action) {
            (RunAction::MakeDirs(a), RunAction::MakeDirs(b)) => texts(a@) == texts(b@),
            _ => true,
        },
        match (from_menu.stage, from_command.stage) {
            (
                RunStage::Prepare { settings: a, pick: p, .. },
                RunStage::Prepare { settings: b, pick: q, .. },
            ) => a == b && p == q,
            (a, b) => a is Prepare <==> b is Prepare,
        },
{
}

/// Backing out of the chooser leads to the list of days where a day was picked from it, and else
/// to the menu where the menu led there; only a run that was begun by a command ends.
pub proof fn backing_out_goes_one_level_up(job: RunJob, menu: bool, pick: bool, step: RunStep)
    requires
        run_advances(
            job,
            RunStage::Choose { menu, pick },
            RunEvent::Chosen(Ok(ChooseOutcome::Canceled)),
            step,
        ),
    ensures
        pick ==> step.action is ListDays,
        !pick && menu ==> step.action is AskMenu,
        step.action is Finish <==> !pick && !menu,
{
}

/// Looking at a day of the cache forces offline mode and asks for that day.
pub proof fn picked_day_is_looked_at_offline(
    job: RunJob,
    at: RunStage,
    event: RunEvent,
    step: RunStep,
)
    requires
        run_fits(at, event),
        run_advances(job, at, event, step),
        at is Pick || at is Check,
    ensures
        step.stage matches RunStage::Prepare { settings, .. } ==> settings.offline
            && settings.date_override is Some,
{
}

/// Each command does what it is named after, and nothing else.
pub proof fn commands_do_what_they_say(job: RunJob, step: RunStep)
    requires
        run_begins(job, step),
    ensures
        job.command == Some(CommandArg::EnableAutoUpdate) ==> step.action is EnableAutoUpdate,
        job.command == Some(CommandArg::DisableAutoUpdate) ==> step.action is DisableAutoUpdate,
        job.command == Some(CommandArg::EnableDisplaySync) ==> step.action is EnableDisplaySync,
        job.command == Some(CommandArg::DisableDisplaySync) ==> step.action is DisableDisplaySync,
        job.command == Some(CommandArg::DisplaySync) ==> step.action is DisplaySync,
        job.command == Some(CommandArg::AutoUpdateRun) ==> step.action is AutoUpdate,
        job.command == Some(CommandArg::Info) ==> step.action is ShowInfo,
        job.command == Some(CommandArg::Reapply) ==> (step.action matches RunAction::MakeDirs(dirs)
            && texts(dirs@) == seq![job.settings.picture_dir@]) && step.stage is PrepareReapply,
        job.command == Some(CommandArg::Choose) && job.date is None ==> (
        step.stage matches RunStage::Prepare { settings, .. } && settings == job.settings),
        job.command == Some(CommandArg::Choose) && job.date is Some ==> step.action is ListDays,
{
}

/// Each line of the menu does what it says.
pub proof fn menu_does_what_it_says(job: RunJob, text: String, step: RunStep)
    requires
        run_advances(job, RunStage::Menu, RunEvent::Answer(Answer::Picked(text)), step),
    ensures
        text@ == "Show info about the current wallpaper"@ ==> step.action is ShowInfo,
        text@ == "Reapply the last wallpaper"@ ==> step.stage is PrepareReapply,
        text@ == "Browse cache"@ ==> step.action is ListDays && step.stage is Days,
        text@ == "Choose a wallpaper"@ && job.date is None ==> (
        step.stage matches RunStage::Prepare { settings, menu, .. } && settings == job.settings
            && menu),
        menu_lines().contains("Choose a wallpaper"@),
        menu_lines().contains("Show info about the current wallpaper"@),
        menu_lines().contains("Reapply the last wallpaper"@),
        menu_lines().contains("Browse cache"@),
        menu_lines().len() == 4,
{
    reveal_strlit("Choose a wallpaper");
    reveal_strlit("Show info about the current wallpaper");
    reveal_strlit("Reapply the last wallpaper");
    reveal_strlit("Browse cache");
    reveal_strlit("pick");
    let pick = "pick"@.map_values(|c: char| ascii_lower(c));
    assert(pick =~= "pick"@);
    assert(menu_lines()[0] == "Choose a wallpaper"@);
    assert(menu_lines()[1] == "Show info about the current wallpaper"@);
    assert(menu_lines()[2] == "Reapply the last wallpaper"@);
    assert(menu_lines()[3] == "Browse cache"@);
    assert("Choose a wallpaper"@.len() == 18);
    assert("Show info about the current wallpaper"@.len() == 37);
    assert("Reapply the last wallpaper"@.len() == 26);
    assert("Browse cache"@.len() == 12);
}

/// The day that was picked is the one that is looked at, offline; all else stays as it was.
pub proof fn picked_day_is_the_one_looked_at(
    job: RunJob,
    menu: bool,
    text: String,
    date: Date,
    step: RunStep,
    opened: RunStep,
)
    requires
        date_of(text@) == Some(date),
        run_advances(
            job,
            RunStage::Pick { menu },
            RunEvent::Answer(Answer::Picked(text)),
            step,
        ),
        run_advances(job, step.stage, RunEvent::Outcome(Ok(())), opened),
    ensures
        opened.action matches RunAction::Choose(settings) && settings.offline
            && settings.date_override == Some(date) && settings.picture_dir
            == job.settings.picture_dir && settings.favorites_dir == job.settings.favorites_dir
            && settings.min_resolution == job.settings.min_resolution && settings.force
            == job.settings.force && settings.disabled_sources == job.settings.disabled_sources,
{
}

/// The day that the command line asks for is looked at where the cache has it, offline, and
/// refused where it has not.
pub proof fn day_asked_for_is_looked_at(
    job: RunJob,
    menu: bool,
    folders: Vec<DayFolder>,
    today: Date,
    date: Date,
    step: RunStep,
)
    requires
        job.date matches Some(text) && date_of(text@) == Some(date),
        today.valid(),
        date.valid(),
        run_advances(
            job,
            RunStage::Check { menu },
            RunEvent::Days { folders, today },
            step,
        ),
    ensures
        match step.stage {
            RunStage::Prepare { settings, .. } => settings.offline && settings.date_override
                == Some(date) && date.number() <= today.number() && offered_days(
                folders@,
                today,
                false,
            ).to_multiset().count(date) > 0,
            _ => step.action matches RunAction::Finish(Err(_)),
        },
        date.number() <= today.number() && offered_days(folders@, today, false).to_multiset().count(
            date,
        ) > 0 ==> step.stage is Prepare,
{
    let dates = choose|dates: Seq<Date>|
        #[trigger] are_days(dates, folders@, today, false) && match date_refusal(
            job.date.unwrap()@,
            today,
            dates,
        ) {
            Some(text) => run_fails(ErrorView::Message(text), step),
            None => opens_day(job, menu, false, date_of(job.date.unwrap()@).unwrap(), step),
        };
    crate::days::cached_days_are_accepted(job.date.unwrap()@, today, dates, date);
    dates.to_multiset_ensures();
    assert(dates.contains(date) <==> dates.to_multiset().count(date) > 0);
}

/// The word by which a day is picked from a list is `pick`, in any case, and no other.
pub proof fn pick_is_asked_for_by_its_word(value: Seq<char>)
    ensures
        asks_to_pick(value) <==> value.len() == 4 && (value[0] == 'p' || value[0] == 'P') && (
        value[1] == 'i' || value[1] == 'I') && (value[2] == 'c' || value[2] == 'C') && (value[3]
            == 'k' || value[3] == 'K'),
{
    reveal_strlit("pick");
    let low = value.map_values(|c: char| ascii_lower(c));
    if low == "pick"@ {
        assert(low.len() == 4);
        assert(low[0] == ascii_lower(value[0]));
        assert(low[1] == ascii_lower(value[1]));
        assert(low[2] == ascii_lower(value[2]));
        assert(low[3] == ascii_lower(value[3]));
    }
    if value.len() == 4 && (value[0] == 'p' || value[0] == 'P') && (value[1] == 'i' || value[1]
        == 'I') && (value[2] == 'c' || value[2] == 'C') && (value[3] == 'k' || value[3] == 'K') {
        assert(low =~= "pick"@);
    }
}

/// The days that have wallpapers are offered, one line for each; without any, the run ends and
/// says so.
pub proof fn days_are_offered(menu: bool, dates: Seq<Date>, step: RunStep, i: int)
    requires
        offers_days(menu, dates, step),
    ensures
        dates.len() == 0 ==> step.action == RunAction::Finish(Ok(())) && opt_text(step.say) == Some(
            "No cached dates found yet."@,
        ),
        0 <= i < dates.len() ==> (step.action matches RunAction::AskDate(lines) && lines@.len()
            == dates.len() && lines@[i]@ == date_text(dates[i])),
{
    if let RunAction::AskDate(lines) = step.action {
        assert(texts(lines@).len() == lines@.len());
        assert(day_texts(dates).len() == dates.len());
        if 0 <= i < dates.len() {
            assert(texts(lines@)[i] == lines@[i]@);
        }
    }
}

/// Once the directories are there, the choosing begins with the settings of the day, and remembers
/// where it came from.
pub proof fn choosing_begins_with_its_settings(
    job: RunJob,
    menu: bool,
    pick: bool,
    settings: Settings,
    step: RunStep,
)
    requires
        run_advances(
            job,
            RunStage::Prepare { menu, pick, settings },
            RunEvent::Outcome(Ok(())),
            step,
        ),
    ensures
        step.stage == (RunStage::Choose { menu, pick }),
        step.action == RunAction::Choose(settings),
{
}

/// A day is asked for with the menu in mind that it came from.
pub proof fn asking_for_a_day_remembers_the_menu(menu: bool, dates: Seq<Date>, step: RunStep)
    requires
        offers_days(menu, dates, step),
        dates.len() > 0,
    ensures
        step.stage == (RunStage::Pick { menu }),
{
}

} // verus!

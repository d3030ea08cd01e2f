//! The jobs that launchd runs: the automatic update and the display sync.

use crate::error::{ErrorView, WallpaperError};
use crate::model::Settings;
use crate::path::{join_path, path_join};
use crate::property_list::{
    Entry, EntryView, Field, all_present, bytes_or_error, fields_view, only_key, plist_document,
    plist_items, read_plist_items, write_plist,
};
use crate::text::{list_contains, opt_text, same, texts};
use vstd::prelude::*;

verus! {

// ------------------------------------------------------------------------------------------
// Names
// ------------------------------------------------------------------------------------------

/// A job of launchd.
#[derive(Debug, Clone, Copy, PartialEq, Eq, Structural)]
pub enum Agent {
    AutoUpdate,
    DisplaySync,
}

/// The directory of the user's jobs.
pub open spec fn agents_dir(home: Seq<char>) -> Seq<char> {
    path_join(path_join(home, "Library"@), "LaunchAgents"@)
}

/// The directory of the user's jobs.
pub fn launchd_dir(home: &str) -> (r: String)
    ensures
        r@ == agents_dir(home@),
{
    join_path(join_path(home, "Library").as_str(), "LaunchAgents")
}

/// The name of a job's files, before the name of the schedule.
pub open spec fn file_stem(agent: Agent) -> Seq<char> {
    match agent {
        Agent::AutoUpdate => "com.thirdember.daily-wallpaper-"@,
        Agent::DisplaySync => "com.thirdember.daily-wallpaper-display-sync-"@,
    }
}

fn file_stem_of(agent: Agent) -> (r: &'static str)
    ensures
        r@ == file_stem(agent),
{
    match agent {
        Agent::AutoUpdate => "com.thirdember.daily-wallpaper-",
        Agent::DisplaySync => "com.thirdember.daily-wallpaper-display-sync-",
    }
}

/// The label of a job.
pub open spec fn agent_label(agent: Agent, name: Seq<char>) -> Seq<char> {
    match agent {
        Agent::AutoUpdate => "com.thirdember.daily-wallpaper."@ + name,
        Agent::DisplaySync => "com.thirdember.daily-wallpaper.display-sync."@ + name,
    }
}

/// The property list of a job.
pub open spec fn agent_path(agent: Agent, home: Seq<char>, name: Seq<char>) -> Seq<char> {
    path_join(agents_dir(home), file_stem(agent) + name + ".plist"@)
}

fn agent_path_of(agent: Agent, home: &str, name: &str) -> (r: String)
    ensures
        r@ == agent_path(agent, home@, name@),
{
    let mut file = file_stem_of(agent).to_string();
    file.append(name);
    file.append(".plist");
    join_path(launchd_dir(home).as_str(), file.as_str())
}

impl Settings {
    /// The property list of the automatic update.
    pub fn plist_filename(&self, home: &str) -> (r: String)
        ensures
            r@ == agent_path(Agent::AutoUpdate, home@, self.auto_update_name@),
    {
        agent_path_of(Agent::AutoUpdate, home, self.auto_update_name.as_str())
    }

    /// The label of the automatic update.
    pub fn plist_label(&self) -> (r: String)
        ensures
            r@ == agent_label(Agent::AutoUpdate, self.auto_update_name@),
    {
        let mut label = "com.thirdember.daily-wallpaper.".to_string();
        label.append(self.auto_update_name.as_str());
        label
    }

    /// The property list of the display sync.
    pub fn display_sync_plist_filename(&self, home: &str) -> (r: String)
        ensures
            r@ == agent_path(Agent::DisplaySync, home@, self.auto_update_name@),
    {
        agent_path_of(Agent::DisplaySync, home, self.auto_update_name.as_str())
    }

    /// The label of the display sync.
    pub fn display_sync_label(&self) -> (r: String)
        ensures
            r@ == agent_label(Agent::DisplaySync, self.auto_update_name@),
    {
        let mut label = "com.thirdember.daily-wallpaper.display-sync.".to_string();
        label.append(self.auto_update_name.as_str());
        label
    }
}

// ------------------------------------------------------------------------------------------
// Arguments
// ------------------------------------------------------------------------------------------

/// The command that runs the automatic update.
pub open spec fn run_token() -> Seq<char> {
    "auto-update-run"@
}

/// The arguments of the command line that are handed on to the automatic update: all but the
/// commands that set it up or run it.
pub open spec fn handed_on(args: Seq<Seq<char>>) -> Seq<Seq<char>> {
    args.filter(|a: Seq<char>| a != "enable-auto-update"@ && a != run_token())
}

/// What launchd runs for the automatic update.
pub open spec fn update_arguments(exe: Seq<char>, args: Seq<Seq<char>>) -> Seq<Seq<char>> {
    seq![exe, run_token()] + handed_on(args)
}

/// What launchd runs for the automatic update: the program, the command that runs it, and the
/// other arguments of the command line.
pub fn auto_update_program_arguments(current_exe: &str, raw_args: &Vec<String>) -> (r: Vec<String>)
    ensures
        texts(r@) == update_arguments(current_exe@, texts(raw_args@)),
{
    let ghost all = texts(raw_args@);
    let ghost keep = |a: Seq<char>| a != "enable-auto-update"@ && a != run_token();
    let ghost head = seq![current_exe@, run_token()];
    let mut out = vec![current_exe.to_string(), "auto-update-run".to_string()];
    let mut i: usize = 0;
    proof {
        reveal(Seq::filter);
        assert(all.take(0).filter(keep) =~= Seq::<Seq<char>>::empty());
        assert(texts(out@) =~= head + all.take(0).filter(keep));
    }
    while i < raw_args.len()
        invariant
            i <= raw_args@.len(),
            all == texts(raw_args@),
            keep == (|a: Seq<char>| a != "enable-auto-update"@ && a != run_token()),
            head == seq![current_exe@, run_token()],
            texts(out@) == head + all.take(i as int).filter(keep),
        decreases raw_args@.len() - i,
    {
        proof {
            reveal(Seq::filter);
            assert(all.take(i + 1).drop_last() =~= all.take(i as int));
            assert(all.take(i + 1).last() == raw_args@[i as int]@);
        }
        let ghost before = out@;
        if !same(raw_args[i].as_str(), "enable-auto-update") && !same(
            raw_args[i].as_str(),
            "auto-update-run",
        ) {
            out.push(raw_args[i].clone());
            assert(texts(out@) =~= texts(before).push(raw_args@[i as int]@));
            assert(texts(out@) =~= head + all.take(i + 1).filter(keep));
        }
        i += 1;
    }
    assert(all.take(i as int) =~= all);
    out
}

/// A list without the first `item` in it.
pub open spec fn without_first(list: Seq<Seq<char>>, item: Seq<char>) -> Seq<Seq<char>>
    decreases list.len(),
{
    if list.len() == 0 {
        list
    } else if list[0] == item {
        list.drop_first()
    } else {
        seq![list[0]] + without_first(list.drop_first(), item)
    }
}

/// What launchd runs for the display sync.
pub open spec fn sync_arguments(exe: Seq<char>, args: Seq<Seq<char>>) -> Seq<Seq<char>> {
    seq![exe, "display-sync"@] + without_first(args, "enable-display-sync"@)
}

/// What launchd runs for the display sync: the program, the command that runs it, and the other
/// arguments of the command line.
pub fn display_sync_program_arguments(current_exe: &str, raw_args: &Vec<String>) -> (r: Vec<
    String,
>)
    ensures
        texts(r@) == sync_arguments(current_exe@, texts(raw_args@)),
{
    let ghost all = texts(raw_args@);
    let ghost item = "enable-display-sync"@;
    let ghost head = seq![current_exe@, "display-sync"@];
    let mut out = vec![current_exe.to_string(), "display-sync".to_string()];
    let mut i: usize = 0;
    let mut found = false;
    assert(all.skip(0) =~= all);
    assert(texts(out@) =~= head);
    assert(texts(out@) + without_first(all.skip(0), item) =~= head + without_first(all, item));
    while i < raw_args.len()
        invariant
            i <= raw_args@.len(),
            all == texts(raw_args@),
            item == "enable-display-sync"@,
            head == seq![current_exe@, "display-sync"@],
            texts(out@) + (if found {
                all.skip(i as int)
            } else {
                without_first(all.skip(i as int), item)
            }) == head + without_first(all, item),
        decreases raw_args@.len() - i,
    {
        let ghost before = out@;
        assert(all.skip(i as int)[0] == raw_args@[i as int]@);
        assert(all.skip(i as int).drop_first() =~= all.skip(i + 1));
        if !found && same(raw_args[i].as_str(), "enable-display-sync") {
            found = true;
        } else {
            out.push(raw_args[i].clone());
            let ghost tail = if found {
                all.skip(i + 1)
            } else {
                without_first(all.skip(i + 1), item)
            };
            assert(texts(out@) =~= texts(before).push(raw_args@[i as int]@));
            assert(texts(out@) + tail =~= texts(before) + (seq![raw_args@[i as int]@] + tail));
            assert(found ==> all.skip(i as int) =~= seq![raw_args@[i as int]@] + tail);
        }
        i += 1;
    }
    assert(texts(out@) + Seq::<Seq<char>>::empty() =~= texts(out@));
    assert(all.skip(i as int) =~= Seq::<Seq<char>>::empty());
    out
}

proof fn lemma_handed_on(args: Seq<Seq<char>>, i: int)
    requires
        0 <= i < handed_on(args).len(),
    ensures
        handed_on(args)[i] != "enable-auto-update"@,
        handed_on(args)[i] != run_token(),
{
    let keep = |a: Seq<char>| a != "enable-auto-update"@ && a != run_token();
    args.lemma_filter_pred(keep, i);
}

/// What launchd runs is the automatic update, and it is named once: at the second place, and
/// nowhere among the arguments that are handed on.
pub proof fn run_command_stands_once(exe: Seq<char>, args: Seq<Seq<char>>, i: int)
    requires
        2 <= i < update_arguments(exe, args).len(),
    ensures
        update_arguments(exe, args)[1] == run_token(),
        update_arguments(exe, args)[i] != run_token(),
        update_arguments(exe, args)[i] != "enable-auto-update"@,
{
    lemma_handed_on(args, i - 2);
}

/// Setting up the automatic update again, from the arguments that launchd runs it with, changes
/// nothing.
pub proof fn setting_up_again_changes_nothing(exe: Seq<char>, args: Seq<Seq<char>>)
    ensures
        update_arguments(exe, update_arguments(exe, args).drop_first()) == update_arguments(
            exe,
            args,
        ),
{
    let keep = |a: Seq<char>| a != "enable-auto-update"@ && a != run_token();
    let rest = handed_on(args);
    assert(update_arguments(exe, args).drop_first() =~= seq![run_token()] + rest);
    lemma_filter_again(args, keep);
    lemma_filter_drops_first(run_token(), rest, keep);
}

proof fn lemma_filter_again(s: Seq<Seq<char>>, keep: spec_fn(Seq<char>) -> bool)
    ensures
        s.filter(keep).filter(keep) == s.filter(keep),
    decreases s.len(),
{
    reveal(Seq::filter);
    if s.len() > 0 {
        let before = s.drop_last();
        lemma_filter_again(before, keep);
        if keep(s.last()) {
            let kept = before.filter(keep).push(s.last());
            assert(kept.drop_last() =~= before.filter(keep));
        }
    }
}

proof fn lemma_filter_drops_first(
    first: Seq<char>,
    rest: Seq<Seq<char>>,
    keep: spec_fn(Seq<char>) -> bool,
)
    requires
        !keep(first),
    ensures
        (seq![first] + rest).filter(keep) == rest.filter(keep),
    decreases rest.len(),
{
    reveal(Seq::filter);
    let s = seq![first] + rest;
    if rest.len() == 0 {
        assert(s.drop_last().filter(keep) =~= Seq::<Seq<char>>::empty());
        assert(s.last() == first);
        assert(rest.filter(keep) =~= Seq::<Seq<char>>::empty());
    } else {
        assert(s.drop_last() =~= seq![first] + rest.drop_last());
        assert(s.last() == rest.last());
        lemma_filter_drops_first(first, rest.drop_last(), keep);
    }
}

// ------------------------------------------------------------------------------------------
// The property list of a job
// ------------------------------------------------------------------------------------------

/// The path in which a job looks for programs.
pub open spec fn search_path() -> Seq<char> {
    "/usr/local/bin:/usr/local/sbin:/usr/bin:/bin:/usr/sbin:/sbin"@
}

/// What launchd runs for a job.
pub open spec fn agent_arguments(agent: Agent, exe: Seq<char>, args: Seq<Seq<char>>) -> Seq<
    Seq<char>,
> {
    match agent {
        Agent::AutoUpdate => update_arguments(exe, args),
        Agent::DisplaySync => sync_arguments(exe, args),
    }
}

/// The file that a job writes its output to.
pub open spec fn output_path(agent: Agent, name: Seq<char>, extension: Seq<char>) -> Seq<char> {
    "/tmp/"@ + file_stem(agent) + name + extension
}

/// The members of a job's property list. The automatic update runs every half hour; the display
/// sync is kept running.
pub open spec fn agent_fields(
    agent: Agent,
    name: Seq<char>,
    exe: Seq<char>,
    args: Seq<Seq<char>>,
) -> Seq<(Seq<char>, EntryView)> {
    seq![
        ("Label"@, EntryView::Text(agent_label(agent, name))),
        ("OnDemand"@, EntryView::Flag(true)),
        ("ProgramArguments"@, EntryView::List(agent_arguments(agent, exe, args))),
        ("EnvironmentVariables"@, EntryView::Table(seq![("PATH"@, search_path())])),
        ("StandardErrorPath"@, EntryView::Text(output_path(agent, name, ".err"@))),
        ("StandardOutPath"@, EntryView::Text(output_path(agent, name, ".out"@))),
        match agent {
            Agent::AutoUpdate => ("StartInterval"@, EntryView::Number(1800)),
            Agent::DisplaySync => ("KeepAlive"@, EntryView::Flag(true)),
        },
        ("RunAtLoad"@, EntryView::Flag(true)),
    ]
}

fn text_field(key: &str, text: String) -> (r: Field)
    ensures
        r.key@ == key@,
        r.value@ == EntryView::Text(text@),
{
    Field { key: key.to_string(), value: Entry::Text(text) }
}

fn flag_field(key: &str) -> (r: Field)
    ensures
        r.key@ == key@,
        r.value@ == EntryView::Flag(true),
{
    Field { key: key.to_string(), value: Entry::Flag(true) }
}

fn output_path_of(agent: Agent, name: &str, extension: &str) -> (r: String)
    ensures
        r@ == output_path(agent, name@, extension@),
{
    let mut path = "/tmp/".to_string();
    path.append(file_stem_of(agent));
    path.append(name);
    path.append(extension);
    path
}

fn agent_fields_of(agent: Agent, settings: &Settings, exe: &str, raw_args: &Vec<String>) -> (r: Vec<
    Field,
>)
    ensures
        fields_view(r@) == agent_fields(agent, settings.auto_update_name@, exe@, texts(raw_args@)),
{
    let name = settings.auto_update_name.as_str();
    let label = match agent {
        Agent::AutoUpdate => settings.plist_label(),
        Agent::DisplaySync => settings.display_sync_label(),
    };
    let arguments = match agent {
        Agent::AutoUpdate => auto_update_program_arguments(exe, raw_args),
        Agent::DisplaySync => display_sync_program_arguments(exe, raw_args),
    };
    let table = vec![
        (
            "PATH".to_string(),
            "/usr/local/bin:/usr/local/sbin:/usr/bin:/bin:/usr/sbin:/sbin".to_string(),
        ),
    ];
    assert(table@.map_values(|p: (String, String)| (p.0@, p.1@)) =~= seq![
        ("PATH"@, search_path()),
    ]);
    let last = match agent {
        Agent::AutoUpdate => Field {
            key: "StartInterval".to_string(),
            value: Entry::Number(1800),
        },
        Agent::DisplaySync => flag_field("KeepAlive"),
    };
    let r = vec![
        text_field("Label", label),
        flag_field("OnDemand"),
        Field { key: "ProgramArguments".to_string(), value: Entry::List(arguments) },
        Field { key: "EnvironmentVariables".to_string(), value: Entry::Table(table) },
        text_field("StandardErrorPath", output_path_of(agent, name, ".err")),
        text_field("StandardOutPath", output_path_of(agent, name, ".out")),
        last,
        flag_field("RunAtLoad"),
    ];
    assert(fields_view(r@) =~= agent_fields(agent, name@, exe@, texts(raw_args@)));
    r
}

proof fn lemma_arguments_key(
    agent: Agent,
    name: Seq<char>,
    exe: Seq<char>,
    args: Seq<Seq<char>>,
)
    ensures
        only_key(agent_fields(agent, name, exe, args), 2),
{
    reveal_strlit("Label");
    reveal_strlit("OnDemand");
    reveal_strlit("ProgramArguments");
    reveal_strlit("EnvironmentVariables");
    reveal_strlit("StandardErrorPath");
    reveal_strlit("StandardOutPath");
    reveal_strlit("StartInterval");
    reveal_strlit("KeepAlive");
    reveal_strlit("RunAtLoad");
    let fields = agent_fields(agent, name, exe, args);
    assert(fields[2].0 == "ProgramArguments"@);
    assert(fields[2].0.len() == 16);
    assert forall|j: int| 0 <= j < fields.len() && j != 2 implies (#[trigger] fields[j]).0
        != fields[2].0 by {
        assert(fields[j].0.len() != 16);
    }
}

/// The property list of a job, as it is written.
pub fn agent_document(
    agent: Agent,
    settings: &Settings,
    current_exe: &str,
    raw_args: &Vec<String>,
) -> (r: Result<Vec<u8>, WallpaperError>)
    ensures
        match r {
            Ok(document) => plist_document(
                agent_fields(agent, settings.auto_update_name@, current_exe@, texts(raw_args@)),
            ) == Ok::<Seq<u8>, Seq<char>>(document@),
            Err(e) => plist_document(
                agent_fields(agent, settings.auto_update_name@, current_exe@, texts(raw_args@)),
            ) matches Err(text) && e@ == ErrorView::Plist(text),
        },
        r matches Ok(document) ==> plist_items(document@, "ProgramArguments"@) == Ok::<
            Option<Seq<Option<Seq<char>>>>,
            Seq<char>,
        >(Some(all_present(agent_arguments(agent, current_exe@, texts(raw_args@))))),
{
    let fields = agent_fields_of(agent, settings, current_exe, raw_args);
    proof {
        lemma_arguments_key(agent, settings.auto_update_name@, current_exe@, texts(raw_args@));
        assert(fields_view(fields@).len() == fields@.len());
        assert(fields_view(fields@)[2] == (fields@[2].key@, fields@[2].value@));
    }
    let written = write_plist(&fields);
    match written {
        Ok(document) => {
            assert(bytes_or_error(written) == Ok::<Seq<u8>, Seq<char>>(document@));
            Ok(document)
        },
        Err(text) => Err(WallpaperError::Plist(text)),
    }
}

/// The strings of a list, without the items that are no strings.
pub open spec fn present_texts(items: Seq<Option<Seq<char>>>) -> Seq<Seq<char>>
    decreases items.len(),
{
    if items.len() == 0 {
        Seq::empty()
    } else {
        let before = present_texts(items.drop_last());
        match items.last() {
            Some(t) => before.push(t),
            None => before,
        }
    }
}

/// The arguments that a property list says launchd runs: its strings; none where it has no such
/// list.
pub open spec fn listed_arguments(items: Option<Seq<Option<Seq<char>>>>) -> Seq<Seq<char>> {
    match items {
        Some(l) => present_texts(l),
        None => Seq::empty(),
    }
}

/// The arguments among the items of a list.
pub fn arguments_of(items: Option<Vec<Option<String>>>) -> (r: Vec<String>)
    ensures
        texts(r@) == listed_arguments(
            match items {
                Some(l) => Some(l@.map_values(|o: Option<String>| opt_text(o))),
                None => None,
            },
        ),
{
    let mut out: Vec<String> = Vec::new();
    let list = match items {
        Some(l) => l,
        None => {
            assert(texts(out@) =~= Seq::empty());
            return out;
        },
    };
    let ghost all = list@.map_values(|o: Option<String>| opt_text(o));
    let mut i: usize = 0;
    assert(all.take(0) =~= Seq::empty());
    assert(texts(out@) =~= Seq::empty());
    while i < list.len()
        invariant
            i <= list@.len(),
            all == list@.map_values(|o: Option<String>| opt_text(o)),
            texts(out@) == present_texts(all.take(i as int)),
        decreases list@.len() - i,
    {
        assert(all.take(i + 1).drop_last() =~= all.take(i as int));
        assert(all.take(i + 1).last() == opt_text(list@[i as int]));
        let ghost before = out@;
        if let Some(text) = &list[i] {
            out.push(text.clone());
            assert(texts(out@) =~= texts(before).push(text@));
        }
        i += 1;
    }
    assert(all.take(i as int) =~= all);
    out
}

/// The arguments that the property list of a job says launchd runs.
pub fn plist_program_arguments(document: &Vec<u8>) -> (r: Result<Vec<String>, WallpaperError>)
    ensures
        match r {
            Ok(arguments) => plist_items(document@, "ProgramArguments"@) matches Ok(items) && texts(
                arguments@,
            ) == listed_arguments(items),
            Err(e) => plist_items(document@, "ProgramArguments"@) matches Err(text) && e@
                == ErrorView::Plist(text),
        },
{
    let read = read_plist_items(document, "ProgramArguments");
    match read {
        Ok(items) => Ok(arguments_of(items)),
        Err(text) => Err(WallpaperError::Plist(text)),
    }
}

/// Whether the property list of a job runs the automatic update by its command.
pub fn plist_has_auto_update_run_token(document: &Vec<u8>) -> (r: Result<bool, WallpaperError>)
    ensures
        match r {
            Ok(has) => plist_items(document@, "ProgramArguments"@) matches Ok(items) && has
                == listed_arguments(items).contains(run_token()),
            Err(e) => plist_items(document@, "ProgramArguments"@) matches Err(text) && e@
                == ErrorView::Plist(text),
        },
{
    match plist_program_arguments(document) {
        Ok(arguments) => Ok(list_contains(&arguments, "auto-update-run")),
        Err(e) => Err(e),
    }
}

proof fn lemma_all_present(list: Seq<Seq<char>>)
    ensures
        present_texts(all_present(list)) == list,
    decreases list.len(),
{
    if list.len() > 0 {
        lemma_all_present(list.drop_last());
        assert(all_present(list).drop_last() =~= all_present(list.drop_last()));
        assert(list.drop_last().push(list.last()) =~= list);
    } else {
        assert(present_texts(all_present(list)) =~= list);
    }
}

/// The property list that is written for the automatic update runs it by its command.
pub proof fn written_list_runs_the_update(
    document: Seq<u8>,
    exe: Seq<char>,
    args: Seq<Seq<char>>,
)
    requires
        plist_items(document, "ProgramArguments"@) == Ok::<
            Option<Seq<Option<Seq<char>>>>,
            Seq<char>,
        >(Some(all_present(agent_arguments(Agent::AutoUpdate, exe, args)))),
    ensures
        plist_items(document, "ProgramArguments"@) matches Ok(items) && listed_arguments(items)
            == update_arguments(exe, args) && listed_arguments(items).contains(run_token()),
{
    let all = update_arguments(exe, args);
    lemma_all_present(all);
    assert(all[1] == run_token());
}

// ------------------------------------------------------------------------------------------
// Setting up a job
// ------------------------------------------------------------------------------------------

/// A job to set up.
pub struct SetupJob {
    pub agent: Agent,
    pub settings: Settings,
    pub raw_args: Vec<String>,
    pub home: String,
}

/// How far the setup is.
pub enum SetupStage {
    /// The directory of the jobs is made.
    MakeDir,
    /// The program is located.
    Locate,
    /// The property list is written.
    Write,
    /// The job is unloaded, if it was loaded.
    Unload,
    /// The job is loaded.
    Load,
    Over,
}

/// What the setup asks for.
pub enum SetupAction {
    MakeDir(String),
    /// Find out where the program is.
    Locate,
    WriteFile { path: String, document: Vec<u8> },
    /// Unload the job of a property list; whether that succeeds does not matter.
    Unload(String),
    Load(String),
    Finish(Result<(), WallpaperError>),
}

/// What an action brought about.
pub enum SetupEvent {
    Outcome(Result<(), WallpaperError>),
    /// Where the program is, or why that is not known.
    Located(Result<String, String>),
    Done,
}

/// Whether an event can follow the action of a stage.
pub open spec fn setup_fits(at: SetupStage, event: SetupEvent) -> bool {
    match at {
        SetupStage::MakeDir | SetupStage::Write | SetupStage::Load => event is Outcome,
        SetupStage::Locate => event is Located,
        SetupStage::Unload => event is Done,
        SetupStage::Over => false,
    }
}

/// The property list of the job that is set up.
pub open spec fn setup_path(job: SetupJob) -> Seq<char> {
    agent_path(job.agent, job.home@, job.settings.auto_update_name@)
}

/// Whether the setup ends with `error`.
pub open spec fn setup_fails(error: ErrorView, next: SetupStage, action: SetupAction) -> bool {
    &&& next is Over
    &&& action matches SetupAction::Finish(Err(e)) && e@ == error
}

/// Whether a stage and an action follow when `event` comes at a stage.
pub open spec fn setup_advances(
    job: SetupJob,
    at: SetupStage,
    event: SetupEvent,
    next: SetupStage,
    action: SetupAction,
) -> bool {
    match (at, event) {
        (SetupStage::MakeDir, SetupEvent::Outcome(Ok(_))) => next is Locate && action is Locate,
        (SetupStage::Locate, SetupEvent::Located(Err(text))) => setup_fails(
            ErrorView::Message("Unable to determine current executable: "@ + text@),
            next,
            action,
        ),
        (SetupStage::Locate, SetupEvent::Located(Ok(exe))) => match plist_document(
            agent_fields(
                job.agent,
                job.settings.auto_update_name@,
                exe@,
                texts(job.raw_args@),
            ),
        ) {
            Err(text) => setup_fails(ErrorView::Plist(text), next, action),
            Ok(bytes) => {
                &&& next is Write
                &&& action matches SetupAction::WriteFile { path, document } && path@ == setup_path(
                    job,
                ) && document@ == bytes && plist_items(document@, "ProgramArguments"@) == Ok::<
                    Option<Seq<Option<Seq<char>>>>,
                    Seq<char>,
                >(Some(all_present(agent_arguments(job.agent, exe@, texts(job.raw_args@)))))
            },
        },
        (SetupStage::Write, SetupEvent::Outcome(Ok(_))) => {
            &&& next is Unload
            &&& action matches SetupAction::Unload(path) && path@ == setup_path(job)
        },
        (SetupStage::Unload, SetupEvent::Done) => {
            &&& next is Load
            &&& action matches SetupAction::Load(path) && path@ == setup_path(job)
        },
        (SetupStage::Load, SetupEvent::Outcome(Ok(_))) => next is Over && action
            == SetupAction::Finish(Ok(())),
        (_, SetupEvent::Outcome(Err(e))) => setup_fails(e@, next, action),
        _ => false,
    }
}

/// Begins to set up a job.
pub fn create_launchd_plist(job: &SetupJob) -> (r: (SetupStage, SetupAction))
    ensures
        r.0 is MakeDir,
        r.1 matches SetupAction::MakeDir(path) && path@ == agents_dir(job.home@),
{
    (SetupStage::MakeDir, SetupAction::MakeDir(launchd_dir(job.home.as_str())))
}

fn setup_path_of(job: &SetupJob) -> (r: String)
    ensures
        r@ == setup_path(*job),
{
    match job.agent {
        Agent::AutoUpdate => job.settings.plist_filename(job.home.as_str()),
        Agent::DisplaySync => job.settings.display_sync_plist_filename(job.home.as_str()),
    }
}

/// The next step of the setup.
pub fn setup_step(job: &SetupJob, at: SetupStage, event: SetupEvent) -> (r: (
    SetupStage,
    SetupAction,
))
    requires
        setup_fits(at, event),
    ensures
        setup_advances(*job, at, event, r.0, r.1),
{
    match (at, event) {
        (SetupStage::MakeDir, SetupEvent::Outcome(Ok(_))) => (
            SetupStage::Locate,
            SetupAction::Locate,
        ),
        (SetupStage::Locate, SetupEvent::Located(Err(text))) => {
            let mut told = "Unable to determine current executable: ".to_string();
            told.append(text.as_str());
            (SetupStage::Over, SetupAction::Finish(Err(WallpaperError::Message(told))))
        },
        (SetupStage::Locate, SetupEvent::Located(Ok(exe))) => {
            match agent_document(job.agent, &job.settings, exe.as_str(), &job.raw_args) {
                Ok(document) => (
                    SetupStage::Write,
                    SetupAction::WriteFile { path: setup_path_of(job), document },
                ),
                Err(e) => (SetupStage::Over, SetupAction::Finish(Err(e))),
            }
        },
        (SetupStage::Write, SetupEvent::Outcome(Ok(_))) => (
            SetupStage::Unload,
            SetupAction::Unload(setup_path_of(job)),
        ),
        (SetupStage::Unload, SetupEvent::Done) => (
            SetupStage::Load,
            SetupAction::Load(setup_path_of(job)),
        ),
        (SetupStage::Load, SetupEvent::Outcome(Ok(_))) => (
            SetupStage::Over,
            SetupAction::Finish(Ok(())),
        ),
        (_, SetupEvent::Outcome(Err(e))) => (SetupStage::Over, SetupAction::Finish(Err(e))),
        _ => vstd::pervasive::unreached(),
    }
}

/// The property list to unload and remove when a job is taken down. Whether either succeeds does
/// not matter.
pub fn remove_launchd_plist(agent: Agent, settings: &Settings, home: &str) -> (r: String)
    ensures
        r@ == agent_path(agent, home@, settings.auto_update_name@),
{
    agent_path_of(agent, home, settings.auto_update_name.as_str())
}

// ------------------------------------------------------------------------------------------
// Mending the automatic update
// ------------------------------------------------------------------------------------------

/// How far the mending is.
#[derive(Debug, Clone, Copy)]
pub enum HealStage {
    /// The property list is looked for.
    Look,
    /// The property list is read.
    Read,
    /// The automatic update is set up again.
    Setup,
    Over,
}

/// What the mending asks for.
pub enum HealAction {
    LookFor(String),
    ReadFile(String),
    /// Set up the automatic update.
    Setup,
    Finish(Result<(), WallpaperError>),
}

/// What an action brought about.
pub enum HealEvent {
    Found(bool),
    Document(Result<Vec<u8>, WallpaperError>),
    Outcome(Result<(), WallpaperError>),
}

/// Whether an event can follow the action of a stage.
pub open spec fn heal_fits(at: HealStage, event: HealEvent) -> bool {
    match at {
        HealStage::Look => event is Found,
        HealStage::Read => event is Document,
        HealStage::Setup => event is Outcome,
        HealStage::Over => false,
    }
}

/// Whether a stage and an action follow when `event` comes at a stage. `path` is the property
/// list of the automatic update.
pub open spec fn heal_advances(
    path: Seq<char>,
    at: HealStage,
    event: HealEvent,
    next: HealStage,
    action: HealAction,
) -> bool {
    match (at, event) {
        (HealStage::Look, HealEvent::Found(found)) => if found {
            next is Read && (action matches HealAction::ReadFile(p) && p@ == path)
        } else {
            next is Over && action == HealAction::Finish(Ok(()))
        },
        (HealStage::Read, HealEvent::Document(Err(e))) => next is Over && (action
            matches HealAction::Finish(Err(told)) && told@ == e@),
        (HealStage::Read, HealEvent::Document(Ok(document))) => match plist_items(
            document@,
            "ProgramArguments"@,
        ) {
            Err(text) => next is Over && (action matches HealAction::Finish(Err(e)) && e@
                == ErrorView::Plist(text)),
            Ok(items) => if listed_arguments(items).contains(run_token()) {
                next is Over && action == HealAction::Finish(Ok(()))
            } else {
                next is Setup && action is Setup
            },
        },
        (HealStage::Setup, HealEvent::Outcome(result)) => next is Over && action
            == HealAction::Finish(result),
        _ => false,
    }
}

/// Begins to mend the automatic update: an older property list does not run it by its command.
pub fn self_heal_auto_update_plist(settings: &Settings, home: &str) -> (r: (HealStage, HealAction))
    ensures
        r.0 is Look,
        r.1 matches HealAction::LookFor(path) && path@ == agent_path(
            Agent::AutoUpdate,
            home@,
            settings.auto_update_name@,
        ),
{
    (HealStage::Look, HealAction::LookFor(settings.plist_filename(home)))
}

/// The next step of the mending.
pub fn heal_step(settings: &Settings, home: &str, at: HealStage, event: HealEvent) -> (r: (
    HealStage,
    HealAction,
))
    requires
        heal_fits(at, event),
    ensures
        heal_advances(
            agent_path(Agent::AutoUpdate, home@, settings.auto_update_name@),
            at,
            event,
            r.0,
            r.1,
        ),
{
    match (at, event) {
        (HealStage::Look, HealEvent::Found(found)) => {
            if found {
                (HealStage::Read, HealAction::ReadFile(settings.plist_filename(home)))
            } else {
                (HealStage::Over, HealAction::Finish(Ok(())))
            }
        },
        (HealStage::Read, HealEvent::Document(Err(e))) => (
            HealStage::Over,
            HealAction::Finish(Err(e)),
        ),
        (HealStage::Read, HealEvent::Document(Ok(document))) => {
            match plist_has_auto_update_run_token(&document) {
                Err(e) => (HealStage::Over, HealAction::Finish(Err(e))),
                Ok(has) => {
                    if has {
                        (HealStage::Over, HealAction::Finish(Ok(())))
                    } else {
                        (HealStage::Setup, HealAction::Setup)
                    }
                },
            }
        },
        (HealStage::Setup, HealEvent::Outcome(result)) => (
            HealStage::Over,
            HealAction::Finish(result),
        ),
        _ => vstd::pervasive::unreached(),
    }
}

/// Without a property list nothing is set up.
pub proof fn nothing_is_set_up_unasked(
    path: Seq<char>,
    event: HealEvent,
    next: HealStage,
    action: HealAction,
)
    requires
        event == HealEvent::Found(false),
        heal_advances(path, HealStage::Look, event, next, action),
    ensures
        action == HealAction::Finish(Ok(())),
{
}

/// A property list that was written by the setup is not mended: mending happens once.
pub proof fn mended_list_stays(
    job: SetupJob,
    exe: String,
    written: Vec<u8>,
    written_to: String,
    next: HealStage,
    action: HealAction,
)
    requires
        job.agent == Agent::AutoUpdate,
        setup_advances(
            job,
            SetupStage::Locate,
            SetupEvent::Located(Ok(exe)),
            SetupStage::Write,
            SetupAction::WriteFile { path: written_to, document: written },
        ),
        heal_advances(
            setup_path(job),
            HealStage::Read,
            HealEvent::Document(Ok(written)),
            next,
            action,
        ),
    ensures
        written_to@ == setup_path(job),
        action == HealAction::Finish(Ok(())),
{
    written_list_runs_the_update(written@, exe@, texts(job.raw_args@));
}

/// What launchd runs for the automatic update is this program, with the command that runs the
/// update behind it, and then the other arguments of the command line in their order.
pub proof fn update_is_run_with_the_other_arguments(exe: Seq<char>, args: Seq<Seq<char>>)
    requires
        forall|i: int|
            0 <= i < args.len() ==> #[trigger] args[i] != "enable-auto-update"@ && args[i]
                != "auto-update-run"@,
    ensures
        update_arguments(exe, args) == seq![exe, "auto-update-run"@] + args,
        update_arguments(exe, seq!["enable-auto-update"@] + args) == seq![
            exe,
            "auto-update-run"@,
        ] + args,
{
    let keep = |a: Seq<char>| a != "enable-auto-update"@ && a != run_token();
    lemma_keeps_all(args, keep);
    lemma_filter_drops_first("enable-auto-update"@, args, keep);
}

proof fn lemma_keeps_all(s: Seq<Seq<char>>, keep: spec_fn(Seq<char>) -> bool)
    requires
        forall|i: int| 0 <= i < s.len() ==> keep(#[trigger] s[i]),
    ensures
        s.filter(keep) == s,
    decreases s.len(),
{
    reveal(Seq::filter);
    if s.len() > 0 {
        let t = s.drop_last();
        assert forall|i: int| 0 <= i < t.len() implies keep(#[trigger] t[i]) by {
            assert(t[i] == s[i]);
        }
        lemma_keeps_all(t, keep);
        assert(keep(s[s.len() - 1]));
        assert(t.push(s.last()) =~= s);
    }
}

/// What launchd runs for the display sync is this program, with the command that runs the sync
/// behind it, and then the other arguments of the command line in their order.
pub proof fn sync_is_run_with_the_other_arguments(exe: Seq<char>, args: Seq<Seq<char>>)
    ensures
        sync_arguments(exe, seq!["enable-display-sync"@] + args) == seq![exe, "display-sync"@]
            + args,
{
    let s = seq!["enable-display-sync"@] + args;
    assert(s.drop_first() =~= args);
}

/// The automatic update is started every half hour, and at once; the display sync is kept running.
pub proof fn schedule_of_the_jobs(name: Seq<char>, exe: Seq<char>, args: Seq<Seq<char>>)
    ensures
        agent_fields(Agent::AutoUpdate, name, exe, args).contains(
            ("StartInterval"@, EntryView::Number(1800)),
        ),
        agent_fields(Agent::AutoUpdate, name, exe, args).contains(
            ("RunAtLoad"@, EntryView::Flag(true)),
        ),
        agent_fields(Agent::AutoUpdate, name, exe, args).contains(
            ("Label"@, EntryView::Text("com.thirdember.daily-wallpaper."@ + name)),
        ),
        agent_fields(Agent::AutoUpdate, name, exe, args).contains(
            ("ProgramArguments"@, EntryView::List(update_arguments(exe, args))),
        ),
        agent_fields(Agent::DisplaySync, name, exe, args).contains(
            ("KeepAlive"@, EntryView::Flag(true)),
        ),
        agent_fields(Agent::DisplaySync, name, exe, args).contains(
            ("Label"@, EntryView::Text("com.thirdember.daily-wallpaper.display-sync."@ + name)),
        ),
        agent_fields(Agent::DisplaySync, name, exe, args).contains(
            ("ProgramArguments"@, EntryView::List(sync_arguments(exe, args))),
        ),
{
    let u = agent_fields(Agent::AutoUpdate, name, exe, args);
    let d = agent_fields(Agent::DisplaySync, name, exe, args);
    assert(u[6] == ("StartInterval"@, EntryView::Number(1800)));
    assert(u[7] == ("RunAtLoad"@, EntryView::Flag(true)));
    assert(u[0] == ("Label"@, EntryView::Text("com.thirdember.daily-wallpaper."@ + name)));
    assert(u[2] == ("ProgramArguments"@, EntryView::List(update_arguments(exe, args))));
    assert(d[6] == ("KeepAlive"@, EntryView::Flag(true)));
    assert(d[0] == (
        "Label"@,
        EntryView::Text("com.thirdember.daily-wallpaper.display-sync."@ + name),
    ));
    assert(d[2] == ("ProgramArguments"@, EntryView::List(sync_arguments(exe, args))));
}

/// A job is written to, unloaded and loaded by one property list, which lies among the jobs of the
/// user and is named by the schedule.
pub proof fn one_list_is_set_up(
    job: SetupJob,
    exe: String,
    next: SetupStage,
    written: SetupAction,
    unload: SetupAction,
    load: SetupAction,
    second: SetupStage,
    third: SetupStage,
)
    requires
        setup_advances(
            job,
            SetupStage::Locate,
            SetupEvent::Located(Ok(exe)),
            next,
            written,
        ),
        written is WriteFile,
        setup_advances(job, SetupStage::Write, SetupEvent::Outcome(Ok(())), second, unload),
        setup_advances(job, SetupStage::Unload, SetupEvent::Done, third, load),
    ensures
        ({
            let dir = path_join(path_join(job.home@, "Library"@), "LaunchAgents"@);
            let name = job.settings.auto_update_name@;
            let path = path_join(
                dir,
                if job.agent == Agent::AutoUpdate {
                    "com.thirdember.daily-wallpaper-"@ + name + ".plist"@
                } else {
                    "com.thirdember.daily-wallpaper-display-sync-"@ + name + ".plist"@
                },
            );
            &&& written->WriteFile_path@ == path
            &&& unload matches SetupAction::Unload(p) && p@ == path
            &&& load matches SetupAction::Load(p) && p@ == path
        }),
{
}

/// What fails while a job is set up is told as it is, and ends the setting up; once it is written,
/// it is unloaded and loaded again from the same file.
pub proof fn job_is_loaded_from_its_list(
    job: SetupJob,
    at: SetupStage,
    event: SetupEvent,
    next: SetupStage,
    action: SetupAction,
)
    requires
        setup_advances(job, at, event, next, action),
    ensures
        event matches SetupEvent::Outcome(Err(e)) ==> (action matches SetupAction::Finish(Err(told))
            && told@ == e@),
        at is Write && event == SetupEvent::Outcome(Ok(())) ==> (action matches SetupAction::Unload(
            path,
        ) && path@ == setup_path(job)),
        at is Unload && event is Done ==> (action matches SetupAction::Load(path) && path@
            == setup_path(job)),
        action matches SetupAction::Finish(Ok(_)) ==> at is Load,
{
}

/// A list is mended only where it is there, can be read, and does not hold the word that runs the
/// update.
pub proof fn only_old_lists_are_mended(
    path: Seq<char>,
    at: HealStage,
    event: HealEvent,
    next: HealStage,
    action: HealAction,
)
    requires
        heal_advances(path, at, event, next, action),
    ensures
        action is Setup <==> at is Read && (event matches HealEvent::Document(Ok(document))
            && (plist_items(document@, "ProgramArguments"@) matches Ok(items) && !listed_arguments(
            items,
        ).contains("auto-update-run"@))),
        action matches HealAction::ReadFile(p) ==> p@ == path,
        event matches HealEvent::Document(Err(e)) ==> at is Read ==> (action
            matches HealAction::Finish(Err(told)) && told@ == e@),
        at is Look && event == HealEvent::Found(false) ==> action == HealAction::Finish(Ok(())),
{
}

/// The output of a job goes to a file of its own, and programs are searched for in the usual
/// places.
pub proof fn jobs_write_to_their_own_files(name: Seq<char>, extension: Seq<char>)
    ensures
        output_path(Agent::AutoUpdate, name, extension) == "/tmp/"@
            + "com.thirdember.daily-wallpaper-"@ + name + extension,
        output_path(Agent::DisplaySync, name, extension) == "/tmp/"@
            + "com.thirdember.daily-wallpaper-display-sync-"@ + name + extension,
        search_path() == "/usr/local/bin:/usr/local/sbin:/usr/bin:/bin:/usr/sbin:/sbin"@,
{
}

} // verus!

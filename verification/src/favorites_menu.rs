//! The menu of the favorites: the list of them, and what can be done with one of them.

use crate::apply::{ApplyOrder, OrderView};
use crate::chooser::{
    Answer, Choice, attribution_part, favorite_action_lines, favorite_actions, favorite_choice,
    favorite_choice_of, favorite_label, favorite_labels, favorites_lines, text_or,
};
use crate::error::{WallpaperError, error_text};
use crate::favorites::{FavoriteEntry, FavoritesManager, format_favorite_info};
use crate::info::basic_info;
use crate::model::{Settings, label};
use crate::number::{decimal, is_digit, lemma_decimal, parse_decimal, parse_number};
use crate::path::{path_join, with_extension};
use crate::text::{Class, first_of, opt_text, pieces, split, texts};
use vstd::prelude::*;

verus! {

/// What the menu is about.
pub struct MenuJob {
    pub favorites: Vec<FavoriteEntry>,
    pub manager: FavoritesManager,
    pub settings: Settings,
}

/// How far the menu is. `at` is the position of the favorite that something is done with, and
/// `cursor` the line where the action menu is opened.
#[derive(Debug, Clone, Copy)]
pub enum MenuStage {
    /// A favorite is picked.
    Pick,
    /// An action is picked.
    Act { at: usize, cursor: usize },
    /// The image of a favorite is looked for, to preview it.
    Look { at: usize },
    /// A favorite is previewed.
    View { at: usize },
    /// The image of a favorite is looked for, to apply it.
    Check { at: usize, cursor: usize },
    /// A favorite is applied.
    Apply { at: usize, cursor: usize },
    /// It is told about a favorite.
    Show { at: usize, cursor: usize },
    /// A favorite is removed.
    Remove,
    Over,
}

/// What is asked for.
pub enum MenuRequest {
    AskList { lines: Vec<String>, cursor: usize },
    AskAction { lines: Vec<String>, cursor: usize },
    LookFor(String),
    Preview(String),
    Apply(ApplyOrder),
    ShowInfo(String),
    /// Remove the image and the metadata of a favorite.
    Remove { image: String, metadata: String },
    Finish(Result<(), WallpaperError>),
}

/// What a request brought about.
pub enum MenuEvent {
    Answer(Answer),
    Found(bool),
    Done,
    Outcome(Result<(), WallpaperError>),
}

/// A step of the menu: what is printed, and what is asked for.
pub struct MenuStep {
    pub stage: MenuStage,
    pub say: Option<String>,
    pub request: MenuRequest,
}

/// Whether a stage is one of this menu: positions are in the list.
pub open spec fn menu_sound(job: MenuJob, at: MenuStage) -> bool {
    match at {
        MenuStage::Act { at, .. } => at < job.favorites@.len(),
        MenuStage::Look { at } => at < job.favorites@.len(),
        MenuStage::View { at } => at < job.favorites@.len(),
        MenuStage::Check { at, .. } => at < job.favorites@.len(),
        MenuStage::Apply { at, .. } => at < job.favorites@.len(),
        MenuStage::Show { at, .. } => at < job.favorites@.len(),
        _ => true,
    }
}

/// Whether an event can follow the request of a stage.
pub open spec fn menu_fits(at: MenuStage, event: MenuEvent) -> bool {
    match at {
        MenuStage::Pick | MenuStage::Act { .. } => event is Answer,
        MenuStage::Look { .. } | MenuStage::Check { .. } => event is Found,
        MenuStage::View { .. } | MenuStage::Show { .. } => event is Done,
        MenuStage::Apply { .. } | MenuStage::Remove => event is Outcome,
        MenuStage::Over => false,
    }
}

/// The position that a line of the list stands for: the number before its first colon, or the
/// first position where there is none.
pub open spec fn picked_position(text: Seq<char>) -> int {
    match parse_decimal(pieces(text, Class::One(':'))[0], usize::MAX as int) {
        Some(n) => n,
        None => 0,
    }
}

fn position_picked(text: &str) -> (r: usize)
    ensures
        r == picked_position(text@),
{
    let parts = split(text, Class::One(':'));
    assert(parts@.len() == texts(parts@).len());
    assert(parts@.len() > 0);
    assert(texts(parts@)[0] == parts@[0]@);
    match parse_number(parts[0].as_str(), usize::MAX as u64) {
        Some(n) => n as usize,
        None => 0,
    }
}

/// Whether the menu ends well, after something was printed.
pub open spec fn menu_ends(say: Option<Seq<char>>, step: MenuStep) -> bool {
    &&& step.stage is Over
    &&& opt_text(step.say) == say
    &&& step.request == MenuRequest::Finish(Ok(()))
}

/// Whether the list is shown; a menu without favorites ends.
pub open spec fn lists_favorites(
    job: MenuJob,
    cursor: int,
    say: Option<Seq<char>>,
    step: MenuStep,
) -> bool {
    if job.favorites@.len() == 0 {
        menu_ends(Some("No favorites saved yet."@), step)
    } else {
        &&& step.stage is Pick
        &&& opt_text(step.say) == say
        &&& step.request matches MenuRequest::AskList { lines, cursor: k } && texts(lines@)
            == favorite_labels(job.favorites@) && k == cursor
    }
}

/// Whether the action menu of the favorite at the position `at` is shown.
pub open spec fn offers_actions(
    at: usize,
    cursor: int,
    say: Option<Seq<char>>,
    step: MenuStep,
) -> bool {
    &&& step.stage matches MenuStage::Act { at: a, cursor: k } && a == at && k == cursor
    &&& opt_text(step.say) == say
    &&& step.request matches MenuRequest::AskAction { lines, cursor: k } && texts(lines@)
        == favorite_actions() && k == cursor
}

/// The order to apply a favorite; the user asks for it.
pub open spec fn favorite_order(f: FavoriteEntry) -> OrderView {
    OrderView {
        path: f.image_path@,
        candidate_id: f.id@,
        source: f.source,
        date: Some(f.date@),
        by_user: true,
    }
}

/// What is printed when the image of a favorite is missing.
pub open spec fn image_missing(f: FavoriteEntry) -> Seq<char> {
    "Favorite image not found: "@ + f.image_path@
}

/// What follows when an action was picked for the favorite at the position `at`.
pub open spec fn menu_acts(
    job: MenuJob,
    at: usize,
    cursor: usize,
    text: Seq<char>,
    step: MenuStep,
) -> bool {
    let f = job.favorites@[at as int];
    match favorite_choice(text) {
        Choice::Preview => {
            &&& step.stage == (MenuStage::Look { at })
            &&& step.say is None
            &&& step.request matches MenuRequest::LookFor(path) && path@ == f.image_path@
        },
        Choice::Apply => {
            &&& step.stage == (MenuStage::Check { at, cursor })
            &&& step.say is None
            &&& step.request matches MenuRequest::LookFor(path) && path@ == f.image_path@
        },
        Choice::Info => {
            &&& step.stage == (MenuStage::Show { at, cursor })
            &&& step.say is None
            &&& step.request matches MenuRequest::ShowInfo(info) && info@ == basic_info(
                opt_text(f.title),
                opt_text(f.description),
                opt_text(f.attribution),
                opt_text(f.info_url),
                job.settings.info_wrap_width as int,
                job.settings.info_plain_text,
            )
        },
        Choice::Remove => {
            &&& step.stage is Remove
            &&& step.say is None
            &&& step.request matches MenuRequest::Remove { image, metadata } && image@
                == f.image_path@ && metadata@ == path_join(
                job.manager.base_dir@,
                with_extension(f.stored_filename@, "json"@),
            )
        },
        Choice::Back => lists_favorites(job, at as int, None, step),
        _ => menu_ends(None, step),
    }
}

/// Whether `step` follows when `event` comes at a stage.
pub open spec fn menu_advances(
    job: MenuJob,
    at: MenuStage,
    event: MenuEvent,
    step: MenuStep,
) -> bool {
    match (at, event) {
        (MenuStage::Pick, MenuEvent::Answer(Answer::Picked(text))) => {
            let n = picked_position(text@);
            if n < job.favorites@.len() {
                offers_actions(n as usize, 0, None, step)
            } else {
                lists_favorites(job, n, None, step)
            }
        },
        (MenuStage::Pick, MenuEvent::Answer(_)) => menu_ends(None, step),
        (MenuStage::Act { at, cursor }, MenuEvent::Answer(Answer::Picked(text))) => menu_acts(
            job,
            at,
            cursor,
            text@,
            step,
        ),
        (MenuStage::Act { at, .. }, MenuEvent::Answer(Answer::Escaped)) => lists_favorites(
            job,
            at as int,
            None,
            step,
        ),
        (MenuStage::Act { .. }, MenuEvent::Answer(Answer::Broken)) => menu_ends(None, step),
        (MenuStage::Look { at }, MenuEvent::Found(found)) => if found {
            &&& step.stage == (MenuStage::View { at })
            &&& step.say is None
            &&& step.request matches MenuRequest::Preview(path) && path@
                == job.favorites@[at as int].image_path@
        } else {
            offers_actions(at, 1, Some(image_missing(job.favorites@[at as int])), step)
        },
        (MenuStage::View { at }, MenuEvent::Done) => offers_actions(at, 1, None, step),
        (MenuStage::Check { at, cursor }, MenuEvent::Found(found)) => if found {
            &&& step.stage == (MenuStage::Apply { at, cursor })
            &&& step.say is None
            &&& step.request matches MenuRequest::Apply(order) && order@ == favorite_order(
                job.favorites@[at as int],
            )
        } else {
            lists_favorites(
                job,
                at as int,
                Some(image_missing(job.favorites@[at as int])),
                step,
            )
        },
        (MenuStage::Apply { .. }, MenuEvent::Outcome(Ok(_))) => menu_ends(None, step),
        (MenuStage::Apply { at, cursor }, MenuEvent::Outcome(Err(e))) => offers_actions(
            at,
            cursor as int,
            Some("Failed to apply wallpaper: "@ + error_text(e@)),
            step,
        ),
        (MenuStage::Show { at, cursor }, MenuEvent::Done) => offers_actions(
            at,
            cursor as int,
            None,
            step,
        ),
        (MenuStage::Remove, MenuEvent::Outcome(outcome)) => menu_ends(
            Some(
                match outcome {
                    Ok(_) => "Removed from favorites."@,
                    Err(e) => "Failed to remove favorite: "@ + error_text(e@),
                },
            ),
            step,
        ),
        _ => false,
    }
}

fn menu_end(say: Option<String>) -> (r: MenuStep)
    ensures
        menu_ends(opt_text(say), r),
{
    MenuStep { stage: MenuStage::Over, say, request: MenuRequest::Finish(Ok(())) }
}

fn list_favorites(job: &MenuJob, cursor: usize, say: Option<String>) -> (r: MenuStep)
    ensures
        lists_favorites(*job, cursor as int, opt_text(say), r),
        menu_sound(*job, r.stage),
{
    if job.favorites.len() == 0 {
        return menu_end(Some("No favorites saved yet.".to_string()));
    }
    MenuStep {
        stage: MenuStage::Pick,
        say,
        request: MenuRequest::AskList { lines: favorites_lines(&job.favorites), cursor },
    }
}

fn offer_actions(at: usize, cursor: usize, say: Option<String>) -> (r: MenuStep)
    ensures
        offers_actions(at, cursor as int, opt_text(say), r),
{
    MenuStep {
        stage: MenuStage::Act { at, cursor },
        say,
        request: MenuRequest::AskAction { lines: favorite_action_lines(), cursor },
    }
}

fn image_missing_text(f: &FavoriteEntry) -> (r: String)
    ensures
        r@ == image_missing(*f),
{
    let mut text = "Favorite image not found: ".to_string();
    text.append(f.image_path.as_str());
    text
}

fn menu_act(job: &MenuJob, at: usize, cursor: usize, text: &str) -> (r: MenuStep)
    requires
        at < job.favorites@.len(),
    ensures
        menu_acts(*job, at, cursor, text@, r),
        menu_sound(*job, r.stage),
{
    let f = &job.favorites[at];
    match favorite_choice_of(text) {
        Choice::Preview => MenuStep {
            stage: MenuStage::Look { at },
            say: None,
            request: MenuRequest::LookFor(f.image_path.clone()),
        },
        Choice::Apply => MenuStep {
            stage: MenuStage::Check { at, cursor },
            say: None,
            request: MenuRequest::LookFor(f.image_path.clone()),
        },
        Choice::Info => MenuStep {
            stage: MenuStage::Show { at, cursor },
            say: None,
            request: MenuRequest::ShowInfo(format_favorite_info(f, &job.settings)),
        },
        Choice::Remove => {
            let (image, metadata) = job.manager.remove(f);
            MenuStep {
                stage: MenuStage::Remove,
                say: None,
                request: MenuRequest::Remove { image, metadata },
            }
        },
        Choice::Back => list_favorites(job, at, None),
        _ => menu_end(None),
    }
}

/// Opens the menu of the favorites.
pub fn run_favorites_menu(job: &MenuJob) -> (r: MenuStep)
    ensures
        lists_favorites(*job, 0, None, r),
        menu_sound(*job, r.stage),
{
    list_favorites(job, 0, None)
}

/// The next step of the menu.
pub fn menu_step(job: &MenuJob, at: MenuStage, event: MenuEvent) -> (r: MenuStep)
    requires
        menu_fits(at, event),
        menu_sound(*job, at),
    ensures
        menu_advances(*job, at, event, r),
        menu_sound(*job, r.stage),
{
    match (at, event) {
        (MenuStage::Pick, MenuEvent::Answer(Answer::Picked(text))) => {
            let n = position_picked(text.as_str());
            if n < job.favorites.len() {
                offer_actions(n, 0, None)
            } else {
                list_favorites(job, n, None)
            }
        },
        (MenuStage::Pick, MenuEvent::Answer(_)) => menu_end(None),
        (MenuStage::Act { at, cursor }, MenuEvent::Answer(Answer::Picked(text))) => menu_act(
            job,
            at,
            cursor,
            text.as_str(),
        ),
        (MenuStage::Act { at, .. }, MenuEvent::Answer(Answer::Escaped)) => list_favorites(
            job,
            at,
            None,
        ),
        (MenuStage::Act { .. }, MenuEvent::Answer(Answer::Broken)) => menu_end(None),
        (MenuStage::Look { at }, MenuEvent::Found(found)) => {
            if found {
                return MenuStep {
                    stage: MenuStage::View { at },
                    say: None,
                    request: MenuRequest::Preview(job.favorites[at].image_path.clone()),
                };
            }
            offer_actions(at, 1, Some(image_missing_text(&job.favorites[at])))
        },
        (MenuStage::View { at }, MenuEvent::Done) => offer_actions(at, 1, None),
        (MenuStage::Check { at, cursor }, MenuEvent::Found(found)) => {
            let f = &job.favorites[at];
            if found {
                return MenuStep {
                    stage: MenuStage::Apply { at, cursor },
                    say: None,
                    request: MenuRequest::Apply(
                        ApplyOrder {
                            path: f.image_path.clone(),
                            candidate_id: f.id.clone(),
                            source: f.source,
                            date: Some(f.date.clone()),
                            by_user: true,
                        },
                    ),
                };
            }
            list_favorites(job, at, Some(image_missing_text(f)))
        },
        (MenuStage::Apply { .. }, MenuEvent::Outcome(Ok(_))) => menu_end(None),
        (MenuStage::Apply { at, cursor }, MenuEvent::Outcome(Err(e))) => {
            let mut text = "Failed to apply wallpaper: ".to_string();
            text.append(e.message().as_str());
            offer_actions(at, cursor, Some(text))
        },
        (MenuStage::Show { at, cursor }, MenuEvent::Done) => offer_actions(at, cursor, None),
        (MenuStage::Remove, MenuEvent::Outcome(outcome)) => {
            let text = match outcome {
                Ok(_) => "Removed from favorites.".to_string(),
                Err(e) => {
                    let mut told = "Failed to remove favorite: ".to_string();
                    told.append(e.message().as_str());
                    told
                },
            };
            menu_end(Some(text))
        },
        _ => vstd::pervasive::unreached(),
    }
}

proof fn lemma_first_colon(digits: Seq<char>, rest: Seq<char>)
    requires
        forall|i: int| 0 <= i < digits.len() ==> is_digit(#[trigger] digits[i]),
        rest.len() > 0,
        rest[0] == ':',
    ensures
        first_of(digits + rest, Class::One(':')) == digits.len(),
    decreases digits.len(),
{
    let s = digits + rest;
    reveal_with_fuel(first_of, 2);
    if digits.len() == 0 {
        assert(s[0] == ':');
    } else {
        assert(s[0] == digits[0]);
        assert(is_digit(digits[0]));
        lemma_first_colon(digits.drop_first(), rest);
        assert(s.drop_first() =~= digits.drop_first() + rest);
    }
}

/// Each line of the list stands for the favorite that it tells of.
pub proof fn line_stands_for_its_favorite(favorites: Seq<FavoriteEntry>, i: int)
    requires
        0 <= i < favorites.len() <= usize::MAX,
    ensures
        picked_position(favorite_labels(favorites)[i]) == i,
{
    let f = favorites[i];
    let digits = decimal(i as nat);
    let rest = ": ["@ + label(f.source) + "] "@ + text_or(opt_text(f.title), "(no title)"@)
        + attribution_part(text_or(opt_text(f.attribution), ""@));
    reveal_strlit(": [");
    assert(favorite_label(f, i) =~= digits + rest);
    lemma_decimal(i as nat);
    lemma_first_colon(digits, rest);
    assert((digits + rest).take(digits.len() as int) =~= digits);
    crate::number::decimal_reads_back(i as nat, usize::MAX as int);
}

/// A favorite is applied from the file that was looked for and found, which is the image of the
/// favorite that was picked; it is applied under that favorite's id, source and day, and as the
/// choice of the user.
pub proof fn applied_favorite_is_the_file_found(
    job: MenuJob,
    at: usize,
    cursor: usize,
    text: String,
    first: MenuStep,
    second: MenuStep,
    dir: Seq<char>,
)
    requires
        at < job.favorites@.len(),
        text@ == "Apply"@,
        menu_advances(
            job,
            MenuStage::Act { at, cursor },
            MenuEvent::Answer(Answer::Picked(text)),
            first,
        ),
        menu_advances(job, first.stage, MenuEvent::Found(true), second),
        job.favorites@[at as int].image_path@ == path_join(
            dir,
            job.favorites@[at as int].stored_filename@,
        ),
    ensures
        first.request matches MenuRequest::LookFor(path) && path@ == path_join(
            dir,
            job.favorites@[at as int].stored_filename@,
        ),
        second.request matches MenuRequest::Apply(order) && order@.path == path_join(
            dir,
            job.favorites@[at as int].stored_filename@,
        ) && order@.candidate_id == job.favorites@[at as int].id@ && order@.source
            == job.favorites@[at as int].source && order@.date == Some(
            job.favorites@[at as int].date@,
        ) && order@.by_user,
{
    reveal_strlit("Apply");
    reveal_strlit("Preview");
}

/// Nothing is applied but what was looked for and found: the order to apply has the path that
/// was asked about in the step before.
pub proof fn nothing_missing_is_applied(
    job: MenuJob,
    at: MenuStage,
    event: MenuEvent,
    first: MenuStep,
    found: MenuEvent,
    second: MenuStep,
)
    requires
        menu_fits(at, event),
        menu_advances(job, at, event, first),
        menu_fits(first.stage, found),
        menu_advances(job, first.stage, found, second),
        second.request is Apply || second.request is Preview,
    ensures
        found == MenuEvent::Found(true),
        first.request matches MenuRequest::LookFor(path) && match second.request {
            MenuRequest::Apply(order) => order@.path == path@,
            MenuRequest::Preview(shown) => shown@ == path@,
            _ => false,
        },
{
}

/// Each action of the menu does what it says, with the favorite that was picked: its own image is
/// previewed or applied, its own title and text are shown, and its own image and description are
/// removed.
pub proof fn actions_do_what_they_say(
    job: MenuJob,
    at: usize,
    cursor: usize,
    text: String,
    step: MenuStep,
)
    requires
        at < job.favorites@.len(),
        menu_advances(
            job,
            MenuStage::Act { at, cursor },
            MenuEvent::Answer(Answer::Picked(text)),
            step,
        ),
    ensures
        text@ == "Preview (Quick Look)"@ ==> step.stage == (MenuStage::Look { at }) && (
        step.request matches MenuRequest::LookFor(path) && path@
            == job.favorites@[at as int].image_path@),
        text@ == "Apply"@ ==> step.stage == (MenuStage::Check { at, cursor }) && (
        step.request matches MenuRequest::LookFor(path) && path@
            == job.favorites@[at as int].image_path@),
        text@ == "Info"@ ==> (step.request matches MenuRequest::ShowInfo(info) && info@
            == basic_info(
            opt_text(job.favorites@[at as int].title),
            opt_text(job.favorites@[at as int].description),
            opt_text(job.favorites@[at as int].attribution),
            opt_text(job.favorites@[at as int].info_url),
            job.settings.info_wrap_width as int,
            job.settings.info_plain_text,
        )),
        text@ == "Remove from favorites"@ ==> (step.request matches MenuRequest::Remove {
            image,
            metadata,
        } && image@ == job.favorites@[at as int].image_path@ && metadata@ == path_join(
            job.manager.base_dir@,
            with_extension(job.favorites@[at as int].stored_filename@, "json"@),
        )),
        text@ == "Back"@ ==> step.request is AskList,
        favorite_actions() == seq![
            "Preview (Quick Look)"@,
            "Apply"@,
            "Info"@,
            "Remove from favorites"@,
            "Back"@,
        ],
{
    reveal_strlit("Preview (Quick Look)");
    reveal_strlit("Preview");
    reveal_strlit("Apply");
    reveal_strlit("Info");
    reveal_strlit("Remove from favorites");
    reveal_strlit("Remove");
    reveal_strlit("Back");
    assert(text@ == "Preview (Quick Look)"@ ==> text@.subrange(0, 7) =~= "Preview"@);
    assert(text@ == "Apply"@ ==> text@.subrange(0, 5) =~= "Apply"@);
    assert(text@ == "Info"@ ==> text@.subrange(0, 4) =~= "Info"@);
    assert(text@ == "Remove from favorites"@ ==> text@.subrange(0, 6) =~= "Remove"@);
    assert(text@ == "Back"@ ==> text@.subrange(0, 4) =~= "Back"@);
    lemma_other_start(text@, "Preview"@);
    lemma_other_start(text@, "Apply"@);
    lemma_other_start(text@, "Info"@);
    lemma_other_start(text@, "Remove"@);
    lemma_other_start(text@, "Back"@);
}

proof fn lemma_other_start(s: Seq<char>, prefix: Seq<char>)
    requires
        prefix.len() > 0,
    ensures
        crate::text::begins_with(s, prefix) ==> s.len() > 0 && s[0] == prefix[0],
{
    if crate::text::begins_with(s, prefix) {
        assert(s.subrange(0, prefix.len() as int)[0] == prefix[0]);
    }
}

/// The menu acts on the favorite whose line was picked.
pub proof fn picked_favorite_is_acted_on(job: MenuJob, text: String, i: int, step: MenuStep)
    requires
        0 <= i < job.favorites@.len(),
        text@ == favorite_labels(job.favorites@)[i],
        menu_advances(job, MenuStage::Pick, MenuEvent::Answer(Answer::Picked(text)), step),
    ensures
        step.stage matches MenuStage::Act { at, .. } && at == i,
{
    assert(job.favorites.len() == job.favorites@.len());
    line_stands_for_its_favorite(job.favorites@, i);
}

/// The menu lists the favorites, one line for each; without any it ends.
pub proof fn favorites_are_listed(
    job: MenuJob,
    cursor: int,
    say: Option<Seq<char>>,
    step: MenuStep,
    i: int,
)
    requires
        lists_favorites(job, cursor, say, step),
    ensures
        job.favorites@.len() == 0 ==> step.request == MenuRequest::Finish(Ok(())),
        0 <= i < job.favorites@.len() ==> (step.request matches MenuRequest::AskList {
            lines,
            cursor: k,
        } && k == cursor && lines@[i]@ == favorite_labels(job.favorites@)[i]),
{
    if let MenuRequest::AskList { lines, .. } = step.request {
        if 0 <= i < job.favorites@.len() {
            assert(texts(lines@).len() == lines@.len());
            assert(favorite_labels(job.favorites@).len() == job.favorites@.len());
            assert(texts(lines@)[i] == lines@[i]@);
        }
    }
}

/// A favorite is previewed from its own file, if that is there.
pub proof fn favorite_is_previewed_from_its_file(
    job: MenuJob,
    at: usize,
    found: bool,
    step: MenuStep,
)
    requires
        at < job.favorites@.len(),
        menu_advances(job, MenuStage::Look { at }, MenuEvent::Found(found), step),
    ensures
        step.request is Preview <==> found,
        step.request matches MenuRequest::Preview(path) ==> path@
            == job.favorites@[at as int].image_path@,
{
}

} // verus!

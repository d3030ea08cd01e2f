//! The chooser: the list of wallpapers, and what can be done with one of them.
//!
//! The chooser is a machine. Each step says what is printed and what is asked for next.

use crate::apply::{ApplyOrder, candidate_order, order_for};
use crate::error::{ErrorView, WallpaperError, error_text, failure};
use crate::favorites::{FavoriteEntry, contains_id, has_id};
use crate::info::{candidate_info, format_candidate_info};
use crate::model::{
    CandidateView, Settings, WallpaperCandidate, WallpaperSource, candidates, label, source_label,
};
use crate::number::{decimal, is_digit, size_text, size_words, usize_text};
use crate::text::{begins_with, normalize_whitespace, opt_text, same, spaced, starts_with, texts};
use vstd::prelude::*;

verus! {

// ------------------------------------------------------------------------------------------
// Wallpapers that are large enough
// ------------------------------------------------------------------------------------------

/// Whether an image of the given size is large enough; one that cannot be read is not.
pub open spec fn large_enough(min: (u32, u32), size: Option<(u32, u32)>) -> bool {
    size matches Some((w, h)) && w >= min.0 && h >= min.1
}

/// The candidates whose images are large enough.
pub open spec fn kept_by_size(
    list: Seq<WallpaperCandidate>,
    sizes: Seq<Option<(u32, u32)>>,
    min: (u32, u32),
) -> Seq<WallpaperCandidate>
    decreases list.len(),
{
    if list.len() == 0 {
        list
    } else {
        let before = kept_by_size(list.drop_last(), sizes, min);
        if large_enough(min, sizes[list.len() - 1]) {
            before.push(list.last())
        } else {
            before
        }
    }
}

/// The candidates whose images are large enough, in order; `sizes` are the sizes of the images
/// that can be read. Without a minimum all are.
pub fn filter_candidates_by_min_resolution(
    list: Vec<WallpaperCandidate>,
    min: Option<(u32, u32)>,
    sizes: &Vec<Option<(u32, u32)>>,
) -> (r: Vec<WallpaperCandidate>)
    requires
        min is Some ==> sizes@.len() == list@.len(),
    ensures
        r@ == match min {
            Some(m) => kept_by_size(list@, sizes@, m),
            None => list@,
        },
        min matches Some(m) ==> forall|c: WallpaperCandidate| #[trigger]
            r@.contains(c) <==> exists|i: int|
                0 <= i < list@.len() && #[trigger] list@[i] == c && (sizes@[i] matches Some(s)
                    && s.0 >= m.0 && s.1 >= m.1),
{
    let least = match min {
        Some(m) => m,
        None => {
            return list;
        },
    };
    let mut out: Vec<WallpaperCandidate> = Vec::new();
    let mut i: usize = 0;
    assert(list@.take(0) =~= Seq::<WallpaperCandidate>::empty());
    while i < list.len()
        invariant
            i <= list@.len(),
            sizes@.len() == list@.len(),
            out@ == kept_by_size(list@.take(i as int), sizes@, least),
        decreases list@.len() - i,
    {
        assert(list@.take(i + 1).drop_last() =~= list@.take(i as int));
        assert(list@.take(i + 1).last() == list@[i as int]);
        if let Some((width, height)) = sizes[i] {
            if width >= least.0 && height >= least.1 {
                out.push(list[i].clone());
            }
        }
        i += 1;
    }
    assert(list@.take(i as int) =~= list@);
    proof {
        assert forall|c: WallpaperCandidate| #[trigger] out@.contains(c) <==> exists|i: int|
            0 <= i < list@.len() && #[trigger] list@[i] == c && (sizes@[i] matches Some(s) && s.0
                >= least.0 && s.1 >= least.1) by {
            let at = large_wallpapers_are_kept_in_order(list@, sizes@, least);
            if out@.contains(c) {
                let k = choose|k: int| 0 <= k < out@.len() && out@[k] == c;
                assert(list@[at[k]] == c);
            }
            if exists|i: int|
                0 <= i < list@.len() && #[trigger] list@[i] == c && (sizes@[i] matches Some(s)
                    && s.0 >= least.0 && s.1 >= least.1) {
                let i = choose|i: int|
                    0 <= i < list@.len() && #[trigger] list@[i] == c && (sizes@[i] matches Some(s)
                        && s.0 >= least.0 && s.1 >= least.1);
                assert(at.contains(i));
                let k = choose|k: int| 0 <= k < at.len() && at[k] == i;
                assert(out@[k] == c);
            }
        }
    }
    out
}

/// The wallpapers that are kept are those at the positions whose images are as wide as asked for
/// and as high as asked for, each of them once and in their order.
pub proof fn large_wallpapers_are_kept_in_order(
    list: Seq<WallpaperCandidate>,
    sizes: Seq<Option<(u32, u32)>>,
    min: (u32, u32),
) -> (at: Seq<int>)
    requires
        sizes.len() >= list.len(),
    ensures
        at.len() == kept_by_size(list, sizes, min).len(),
        forall|k: int|
            0 <= k < at.len() ==> 0 <= #[trigger] at[k] < list.len() && kept_by_size(
                list,
                sizes,
                min,
            )[k] == list[at[k]] && (sizes[at[k]] matches Some(s) && s.0 >= min.0 && s.1 >= min.1),
        forall|k: int, l: int| 0 <= k < l < at.len() ==> at[k] < at[l],
        forall|i: int|
            0 <= i < list.len() && (#[trigger] sizes[i] matches Some(s) && s.0 >= min.0 && s.1
                >= min.1) ==> at.contains(i),
    decreases list.len(),
{
    if list.len() == 0 {
        Seq::empty()
    } else {
        let n = list.len() - 1;
        let before = large_wallpapers_are_kept_in_order(list.drop_last(), sizes, min);
        let at = if large_enough(min, sizes[n]) {
            before.push(n)
        } else {
            before
        };
        assert forall|i: int|
            0 <= i < list.len() && (#[trigger] sizes[i] matches Some(s) && s.0 >= min.0 && s.1
                >= min.1) implies at.contains(i) by {
            if i < n {
                assert(before.contains(i));
                let k = choose|k: int| 0 <= k < before.len() && before[k] == i;
                assert(at[k] == i);
            } else {
                assert(at[before.len() as int] == i);
            }
        }
        at
    }
}

/// What is told about a candidate that is left out for its size, or because its size cannot be
/// read; nothing about one that is large enough. `size` is the size of its image, or why that
/// cannot be read.
pub open spec fn left_out_text(
    c: CandidateView,
    min: (u32, u32),
    size: Result<(u32, u32), Seq<char>>,
) -> Option<Seq<char>> {
    let start = "Skipping "@ + c.id + " ("@ + c.local_path + "): "@;
    match size {
        Err(why) => Some(start + "could not read dimensions: "@ + why),
        Ok(found) => if large_enough(min, Some(found)) {
            None
        } else {
            Some(start + size_words(found) + " below minimum "@ + size_words(min) + "."@)
        },
    }
}

/// What is told about a candidate that is left out for its size.
pub fn left_out_note(
    candidate: &WallpaperCandidate,
    min: (u32, u32),
    size: &Result<(u32, u32), String>,
) -> (r: Option<String>)
    ensures
        opt_text(r) == left_out_text(
            candidate@,
            min,
            match *size {
                Ok(found) => Ok(found),
                Err(why) => Err(why@),
            },
        ),
{
    let mut text = "Skipping ".to_string();
    text.append(candidate.id.as_str());
    text.append(" (");
    text.append(candidate.local_path.as_str());
    text.append("): ");
    match size {
        Err(why) => {
            text.append("could not read dimensions: ");
            text.append(why.as_str());
        },
        Ok(found) => {
            if found.0 >= min.0 && found.1 >= min.1 {
                return None;
            }
            text.append(size_text(*found).as_str());
            text.append(" below minimum ");
            text.append(size_text(min).as_str());
            text.append(".");
        },
    }
    Some(text)
}

// ------------------------------------------------------------------------------------------
// Labels
// ------------------------------------------------------------------------------------------

/// A text, or else another.
pub open spec fn text_or(t: Option<Seq<char>>, other: Seq<char>) -> Seq<char> {
    match t {
        Some(text) if text.len() > 0 => text,
        _ => other,
    }
}

/// An optional text with single spaces.
pub open spec fn opt_spaced(t: Option<Seq<char>>) -> Option<Seq<char>> {
    match t {
        Some(text) => Some(spaced(text)),
        None => None,
    }
}

/// What stands between title and attribution, and the attribution; nothing without one.
pub open spec fn attribution_part(attribution: Seq<char>) -> Seq<char> {
    if attribution.len() == 0 {
        ""@
    } else {
        " \u{2014} "@ + attribution
    }
}

/// The line for the candidate at the position `i`.
pub open spec fn candidate_label(c: CandidateView, i: int, favorite: bool) -> Seq<char> {
    decimal((i + 1) as nat) + ": ["@ + label(c.source) + "] "@ + text_or(
        opt_spaced(c.title),
        "(no title)"@,
    ) + attribution_part(text_or(opt_spaced(c.attribution), ""@)) + if favorite {
        " [fav]"@
    } else {
        ""@
    }
}

/// The lines of the chooser: the candidates, and the favorites in the end.
pub open spec fn chooser_labels(
    list: Seq<CandidateView>,
    favorites: Seq<FavoriteEntry>,
) -> Seq<Seq<char>> {
    Seq::new(list.len(), |i: int| candidate_label(list[i], i, has_id(favorites, list[i].id))).push(
        decimal((list.len() + 1) as nat) + ": [Favorites] ("@ + decimal(favorites.len()) + ")"@,
    )
}

/// The line for the favorite at the position `i`.
pub open spec fn favorite_label(f: FavoriteEntry, i: int) -> Seq<char> {
    decimal(i as nat) + ": ["@ + label(f.source) + "] "@ + text_or(
        opt_text(f.title),
        "(no title)"@,
    ) + attribution_part(text_or(opt_text(f.attribution), ""@))
}

/// The lines of the list of favorites.
pub open spec fn favorite_labels(favorites: Seq<FavoriteEntry>) -> Seq<Seq<char>> {
    Seq::new(favorites.len(), |i: int| favorite_label(favorites[i], i))
}

fn line(
    number: usize,
    source: WallpaperSource,
    title: &str,
    attribution: &str,
) -> (r: String)
    ensures
        r@ == decimal(number as nat) + ": ["@ + label(source) + "] "@ + title@ + attribution_part(
            attribution@,
        ),
{
    let mut out = usize_text(number);
    out.append(": [");
    out.append(source_label(source));
    out.append("] ");
    out.append(title);
    let mut part = "".to_string();
    if !attribution.is_empty() {
        part = " \u{2014} ".to_string();
        part.append(attribution);
    }
    out.append(part.as_str());
    out
}

fn spaced_or(t: &Option<String>, other: &str) -> (r: String)
    ensures
        r@ == text_or(opt_spaced(opt_text(*t)), other@),
{
    if let Some(text) = t {
        let s = normalize_whitespace(text.as_str());
        if !s.as_str().is_empty() {
            return s;
        }
    }
    other.to_string()
}

fn filled_or(t: &Option<String>, other: &str) -> (r: String)
    ensures
        r@ == text_or(opt_text(*t), other@),
{
    if let Some(text) = t {
        if !text.as_str().is_empty() {
            return text.clone();
        }
    }
    other.to_string()
}

/// The lines of the chooser.
pub fn list_labels(list: &Vec<WallpaperCandidate>, favorites: &Vec<FavoriteEntry>) -> (r: Vec<
    String,
>)
    requires
        list@.len() < usize::MAX,
    ensures
        texts(r@) == chooser_labels(candidates(list@), favorites@),
        r@.len() == list@.len() + 1,
{
    let ghost all = chooser_labels(candidates(list@), favorites@);
    let mut out: Vec<String> = Vec::new();
    let mut i: usize = 0;
    while i < list.len()
        invariant
            i <= list@.len(),
            list@.len() < usize::MAX,
            all == chooser_labels(candidates(list@), favorites@),
            texts(out@) == all.take(i as int),
            out@.len() == i,
        decreases list@.len() - i,
    {
        let c = &list[i];
        let title = spaced_or(&c.title, "(no title)");
        let attribution = spaced_or(&c.attribution, "");
        let mut text = line(i + 1, c.source, title.as_str(), attribution.as_str());
        let marked = contains_id(favorites, c.id.as_str());
        text.append(
            if marked {
                " [fav]"
            } else {
                ""
            },
        );
        let ghost before = out@;
        assert(candidates(list@)[i as int] == c@);
        assert(text@ == all[i as int]);
        out.push(text);
        assert(texts(out@) =~= texts(before).push(all[i as int]));
        assert(all.take(i + 1) =~= all.take(i as int).push(all[i as int]));
        i += 1;
    }
    let mut last = usize_text(list.len() + 1);
    last.append(": [Favorites] (");
    last.append(usize_text(favorites.len()).as_str());
    last.append(")");
    let ghost before = out@;
    assert(candidates(list@).len() == list@.len());
    assert(last@ == all[list@.len() as int]);
    out.push(last);
    assert(texts(out@) =~= texts(before).push(last@));
    assert(texts(out@) =~= all);
    out
}

pub(crate) fn favorites_lines(favorites: &Vec<FavoriteEntry>) -> (r: Vec<String>)
    ensures
        texts(r@) == favorite_labels(favorites@),
{
    let ghost all = favorite_labels(favorites@);
    let mut out: Vec<String> = Vec::new();
    let mut i: usize = 0;
    while i < favorites.len()
        invariant
            i <= favorites@.len(),
            all == favorite_labels(favorites@),
            texts(out@) == all.take(i as int),
        decreases favorites@.len() - i,
    {
        let f = &favorites[i];
        let title = filled_or(&f.title, "(no title)");
        let attribution = filled_or(&f.attribution, "");
        let text = line(i, f.source, title.as_str(), attribution.as_str());
        let ghost before = out@;
        assert(text@ == all[i as int]);
        out.push(text);
        assert(texts(out@) =~= texts(before).push(all[i as int]));
        assert(all.take(i + 1) =~= all.take(i as int).push(all[i as int]));
        i += 1;
    }
    assert(all.take(i as int) =~= all);
    out
}

/// The position of a line in a list; the first where it is not there.
pub open spec fn line_position(lines: Seq<Seq<char>>, picked: Seq<char>) -> int {
    if exists|i: int| 0 <= i < lines.len() && lines[i] == picked {
        first_line(lines, picked)
    } else {
        0
    }
}

/// The position of the first line that is `picked`.
pub open spec fn first_line(lines: Seq<Seq<char>>, picked: Seq<char>) -> int
    decreases lines.len(),
{
    if lines.len() == 0 || lines[0] == picked {
        0
    } else {
        1 + first_line(lines.drop_first(), picked)
    }
}

fn position_in(lines: &Vec<String>, picked: &str) -> (r: usize)
    requires
        lines@.len() > 0,
    ensures
        r == line_position(texts(lines@), picked@),
        r < lines@.len(),
{
    let ghost all = texts(lines@);
    let mut i: usize = 0;
    assert(all.skip(0) =~= all);
    while i < lines.len()
        invariant
            i <= lines@.len(),
            lines@.len() > 0,
            all == texts(lines@),
            forall|j: int| 0 <= j < i ==> all[j] != picked@,
            first_line(all, picked@) == i + first_line(all.skip(i as int), picked@),
        decreases lines@.len() - i,
    {
        assert(all.skip(i as int)[0] == lines@[i as int]@);
        if same(lines[i].as_str(), picked) {
            assert(all[i as int] == picked@);
            return i;
        }
        assert(all.skip(i as int).drop_first() =~= all.skip(i + 1));
        i += 1;
    }
    0
}

// ------------------------------------------------------------------------------------------
// What can be done with a wallpaper
// ------------------------------------------------------------------------------------------

/// What can be done with a wallpaper or a favorite.
#[derive(Debug, Clone, Copy, PartialEq, Eq, Structural)]
pub enum Choice {
    Preview,
    Apply,
    Info,
    Favorite,
    Refresh,
    Quit,
    Remove,
    Back,
    /// None of these.
    Unknown,
}

/// What a line of the action menu of a wallpaper stands for.
pub open spec fn wallpaper_choice(text: Seq<char>) -> Choice {
    if begins_with(text, "Preview"@) {
        Choice::Preview
    } else if begins_with(text, "Apply"@) {
        Choice::Apply
    } else if begins_with(text, "Info"@) {
        Choice::Info
    } else if begins_with(text, "Favorite"@) {
        Choice::Favorite
    } else if begins_with(text, "Refresh"@) {
        Choice::Refresh
    } else if begins_with(text, "Quit"@) {
        Choice::Quit
    } else {
        Choice::Unknown
    }
}

/// What a line of the action menu of a favorite stands for.
pub open spec fn favorite_choice(text: Seq<char>) -> Choice {
    if begins_with(text, "Preview"@) {
        Choice::Preview
    } else if begins_with(text, "Apply"@) {
        Choice::Apply
    } else if begins_with(text, "Info"@) {
        Choice::Info
    } else if begins_with(text, "Remove"@) {
        Choice::Remove
    } else if begins_with(text, "Back"@) {
        Choice::Back
    } else {
        Choice::Unknown
    }
}

fn wallpaper_choice_of(text: &str) -> (r: Choice)
    ensures
        r == wallpaper_choice(text@),
{
    if starts_with(text, "Preview") {
        Choice::Preview
    } else if starts_with(text, "Apply") {
        Choice::Apply
    } else if starts_with(text, "Info") {
        Choice::Info
    } else if starts_with(text, "Favorite") {
        Choice::Favorite
    } else if starts_with(text, "Refresh") {
        Choice::Refresh
    } else if starts_with(text, "Quit") {
        Choice::Quit
    } else {
        Choice::Unknown
    }
}

pub(crate) fn favorite_choice_of(text: &str) -> (r: Choice)
    ensures
        r == favorite_choice(text@),
{
    if starts_with(text, "Preview") {
        Choice::Preview
    } else if starts_with(text, "Apply") {
        Choice::Apply
    } else if starts_with(text, "Info") {
        Choice::Info
    } else if starts_with(text, "Remove") {
        Choice::Remove
    } else if starts_with(text, "Back") {
        Choice::Back
    } else {
        Choice::Unknown
    }
}

/// The action menu of a wallpaper.
pub open spec fn wallpaper_actions(favorite: bool) -> Seq<Seq<char>> {
    seq![
        "Preview (Quick Look)"@,
        "Apply"@,
        "Info"@,
        if favorite {
            "Favorite (already saved)"@
        } else {
            "Favorite"@
        },
        "Refresh list (force re-download)"@,
        "Quit chooser"@,
    ]
}

/// The action menu of a favorite.
pub open spec fn favorite_actions() -> Seq<Seq<char>> {
    seq![
        "Preview (Quick Look)"@,
        "Apply"@,
        "Info"@,
        "Remove from favorites"@,
        "Back"@,
    ]
}

fn wallpaper_action_lines(favorite: bool) -> (r: Vec<String>)
    ensures
        texts(r@) == wallpaper_actions(favorite),
{
    let r = vec![
        "Preview (Quick Look)".to_string(),
        "Apply".to_string(),
        "Info".to_string(),
        if favorite {
            "Favorite (already saved)".to_string()
        } else {
            "Favorite".to_string()
        },
        "Refresh list (force re-download)".to_string(),
        "Quit chooser".to_string(),
    ];
    assert(texts(r@) =~= wallpaper_actions(favorite));
    r
}

pub(crate) fn favorite_action_lines() -> (r: Vec<String>)
    ensures
        texts(r@) == favorite_actions(),
{
    let r = vec![
        "Preview (Quick Look)".to_string(),
        "Apply".to_string(),
        "Info".to_string(),
        "Remove from favorites".to_string(),
        "Back".to_string(),
    ];
    assert(texts(r@) =~= favorite_actions());
    r
}

/// What came of a prompt.
pub enum Answer {
    Picked(String),
    /// The user went back, with Escape.
    Escaped,
    /// The prompt failed otherwise.
    Broken,
}

/// How the chooser was left.
#[derive(Debug, Clone, Copy, PartialEq, Eq, Structural)]
pub enum ChooseOutcome {
    /// Something was done.
    Done,
    /// The user backed out of the list of wallpapers.
    Canceled,
}

// ------------------------------------------------------------------------------------------
// The chooser
// ------------------------------------------------------------------------------------------

/// What the chooser holds.
pub struct Chooser {
    pub settings: Settings,
    /// The line where the list is opened.
    pub selected: Option<usize>,
    pub list: Vec<WallpaperCandidate>,
    /// Whether the list has to be gathered.
    pub dirty: bool,
}

/// How far the chooser is. `at` is the position of the wallpaper that something is done with,
/// and `cursor` the line where the action menu is opened.
pub enum ChooseStage {
    /// The favorites are loaded.
    Load,
    /// The wallpapers are gathered.
    Gather(Vec<FavoriteEntry>),
    /// The wallpapers are measured.
    Measure { favorites: Vec<FavoriteEntry>, list: Vec<WallpaperCandidate> },
    /// A line of the list is picked.
    Pick { favorites: Vec<FavoriteEntry>, lines: Vec<String> },
    /// The favorites are shown.
    Menu,
    /// An action is picked.
    Act { favorites: Vec<FavoriteEntry>, at: usize, cursor: usize },
    /// The file of a wallpaper is looked for.
    Look { favorites: Vec<FavoriteEntry>, at: usize },
    /// A wallpaper is previewed.
    View { favorites: Vec<FavoriteEntry>, at: usize },
    /// A wallpaper is applied.
    Apply { favorites: Vec<FavoriteEntry>, at: usize, cursor: usize },
    /// It is told about a wallpaper.
    Show { favorites: Vec<FavoriteEntry>, at: usize, cursor: usize },
    /// A wallpaper is saved as a favorite.
    Save,
    Over,
}

/// What is asked for.
pub enum ChooseRequest {
    LoadFavorites,
    /// Gather the wallpapers with these settings.
    Gather(Settings),
    /// Measure the images.
    Measure(Vec<String>),
    AskList { lines: Vec<String>, cursor: usize },
    FavoritesMenu(Vec<FavoriteEntry>),
    AskAction { lines: Vec<String>, cursor: usize },
    LookFor(String),
    Preview(String),
    Apply(ApplyOrder),
    ShowInfo(String),
    SaveFavorite(WallpaperCandidate),
    Finish(Result<ChooseOutcome, WallpaperError>),
}

/// What a request brought about.
pub enum ChooseEvent {
    Favorites(Result<Vec<FavoriteEntry>, WallpaperError>),
    Gathered(Result<Vec<WallpaperCandidate>, WallpaperError>),
    Sizes(Vec<Option<(u32, u32)>>),
    Answer(Answer),
    MenuDone(Result<(), WallpaperError>),
    Found(bool),
    Done,
    Outcome(Result<(), WallpaperError>),
}

/// A step of the chooser: what is printed, and what is asked for.
pub struct ChooseStep {
    pub stage: ChooseStage,
    pub chooser: Chooser,
    pub say: Option<String>,
    pub request: ChooseRequest,
}

/// Whether the chooser is as it should be at a stage: positions are in the list.
pub open spec fn choose_sound(stage: ChooseStage, c: Chooser) -> bool {
    &&& c.list@.len() < usize::MAX
    &&& match stage {
        ChooseStage::Measure { list, .. } => list@.len() < usize::MAX
            && c.settings.min_resolution is Some,
        ChooseStage::Pick { lines, .. } => lines@.len() == c.list@.len() + 1,
        ChooseStage::Act { at, .. } => at < c.list@.len(),
        ChooseStage::Look { at, .. } => at < c.list@.len(),
        ChooseStage::View { at, .. } => at < c.list@.len(),
        ChooseStage::Apply { at, .. } => at < c.list@.len(),
        ChooseStage::Show { at, .. } => at < c.list@.len(),
        _ => true,
    }
}

/// Whether an event can follow the request of a stage.
pub open spec fn choose_fits(stage: ChooseStage, event: ChooseEvent) -> bool {
    match stage {
        ChooseStage::Load => event is Favorites,
        ChooseStage::Gather(_) => event matches ChooseEvent::Gathered(r) && (r matches Ok(list)
            ==> list@.len() < usize::MAX),
        ChooseStage::Measure { list, .. } => event matches ChooseEvent::Sizes(sizes)
            && sizes@.len() == list@.len(),
        ChooseStage::Pick { .. } | ChooseStage::Act { .. } => event is Answer,
        ChooseStage::Menu => event is MenuDone,
        ChooseStage::Look { .. } => event is Found,
        ChooseStage::View { .. } | ChooseStage::Show { .. } => event is Done,
        ChooseStage::Apply { .. } | ChooseStage::Save => event is Outcome,
        ChooseStage::Over => false,
    }
}

/// Whether the chooser ends with `error`.
pub open spec fn choose_fails(error: ErrorView, step: ChooseStep) -> bool {
    &&& step.stage is Over
    &&& step.say is None
    &&& step.request matches ChooseRequest::Finish(Err(e)) && e@ == error
}

/// Whether the chooser ends with `outcome`.
pub open spec fn choose_ends(outcome: ChooseOutcome, step: ChooseStep) -> bool {
    &&& step.stage is Over
    &&& step.say is None
    &&& step.request == ChooseRequest::Finish(Ok(outcome))
}

/// Whether the chooser starts over: the favorites are loaded.
pub open spec fn restarts(c: Chooser, say: Option<Seq<char>>, step: ChooseStep) -> bool {
    &&& step.stage is Load
    &&& step.chooser == c
    &&& opt_text(step.say) == say
    &&& step.request is LoadFavorites
}

/// Whether the list is shown; there has to be a wallpaper or a favorite.
pub open spec fn offers(c: Chooser, favorites: Vec<FavoriteEntry>, step: ChooseStep) -> bool {
    if c.list@.len() == 0 && favorites@.len() == 0 {
        choose_fails(ErrorView::Message("No wallpapers available to choose from."@), step)
    } else {
        let shown = chooser_labels(candidates(c.list@), favorites@);
        &&& step.stage matches ChooseStage::Pick { favorites: f, lines } && f == favorites
            && texts(lines@) == shown
        &&& step.chooser == c
        &&& step.say is None
        &&& step.request matches ChooseRequest::AskList { lines, cursor } && texts(lines@) == shown
            && cursor == match c.selected {
            Some(i) => i,
            None => 0,
        }
    }
}

/// The chooser with a list that was gathered. Neither force nor refreshing is in effect any more.
pub open spec fn refilled(c: Chooser, list: Vec<WallpaperCandidate>) -> Chooser {
    Chooser {
        settings: Settings { force: false, refresh_metadata: false, ..c.settings },
        selected: c.selected,
        list,
        dirty: false,
    }
}

/// Whether the action menu of the wallpaper at the position `at` is shown.
pub open spec fn shows_actions(
    c: Chooser,
    favorites: Vec<FavoriteEntry>,
    at: usize,
    cursor: int,
    say: Option<Seq<char>>,
    step: ChooseStep,
) -> bool {
    &&& step.stage matches ChooseStage::Act { favorites: f, at: a, cursor: k } && f == favorites && a
        == at && k == cursor
    &&& step.chooser == c
    &&& opt_text(step.say) == say
    &&& step.request matches ChooseRequest::AskAction { lines, cursor: k } && texts(lines@)
        == wallpaper_actions(has_id(favorites@, c.list@[at as int].id@)) && k == cursor
}

/// Whether `step` stays with the chooser as it is and asks for `request`.
pub open spec fn continues(c: Chooser, step: ChooseStep) -> bool {
    step.chooser == c && step.say is None
}

/// What follows when an action was picked for the wallpaper at the position `at`.
pub open spec fn acts(
    c: Chooser,
    favorites: Vec<FavoriteEntry>,
    at: usize,
    cursor: usize,
    text: Seq<char>,
    step: ChooseStep,
) -> bool {
    let w = c.list@[at as int];
    match wallpaper_choice(text) {
        Choice::Preview => {
            &&& step.stage == ChooseStage::Look { favorites, at }
            &&& continues(c, step)
            &&& step.request matches ChooseRequest::LookFor(path) && path@ == w.local_path@
        },
        Choice::Apply => {
            &&& step.stage == ChooseStage::Apply { favorites, at, cursor }
            &&& continues(c, step)
            &&& step.request matches ChooseRequest::Apply(order) && order@ == order_for(w@, true)
        },
        Choice::Info => {
            &&& step.stage == ChooseStage::Show { favorites, at, cursor }
            &&& continues(c, step)
            &&& step.request matches ChooseRequest::ShowInfo(info) && info@ == candidate_info(
                w@,
                c.settings.info_wrap_width as int,
                c.settings.info_plain_text,
            )
        },
        Choice::Favorite => {
            &&& step.stage is Save
            &&& continues(c, step)
            &&& step.request == ChooseRequest::SaveFavorite(w)
        },
        Choice::Refresh => restarts(
            Chooser {
                settings: Settings { force: true, refresh_metadata: true, ..c.settings },
                selected: c.selected,
                list: c.list,
                dirty: true,
            },
            None,
            step,
        ),
        Choice::Quit => choose_ends(ChooseOutcome::Canceled, step),
        _ => choose_ends(ChooseOutcome::Done, step),
    }
}

/// Whether `step` follows when the chooser is at a stage and `event` comes.
pub open spec fn choose_advances(
    stage: ChooseStage,
    c: Chooser,
    event: ChooseEvent,
    step: ChooseStep,
) -> bool {
    match (stage, event) {
        (ChooseStage::Load, ChooseEvent::Favorites(Err(e))) => choose_fails(e@, step),
        (ChooseStage::Load, ChooseEvent::Favorites(Ok(favorites))) => if c.dirty {
            &&& step.stage == ChooseStage::Gather(favorites)
            &&& continues(c, step)
            &&& step.request == ChooseRequest::Gather(c.settings)
        } else {
            offers(c, favorites, step)
        },
        (ChooseStage::Gather(_), ChooseEvent::Gathered(Err(e))) => choose_fails(e@, step),
        (ChooseStage::Gather(favorites), ChooseEvent::Gathered(Ok(list))) => {
            if c.settings.min_resolution is None {
                offers(refilled(c, list), favorites, step)
            } else {
                &&& step.stage == ChooseStage::Measure { favorites, list }
                &&& continues(c, step)
                &&& step.request matches ChooseRequest::Measure(paths) && texts(paths@)
                    == crate::sources::fetch::paths_of(candidates(list@))
            }
        },
        (ChooseStage::Measure { favorites, list }, ChooseEvent::Sizes(sizes)) => {
            exists|kept: Vec<WallpaperCandidate>|
                kept@ == kept_by_size(list@, sizes@, c.settings.min_resolution.unwrap())
                    && #[trigger] offers(refilled(c, kept), favorites, step)
        },
        (ChooseStage::Pick { .. }, ChooseEvent::Answer(Answer::Escaped)) => choose_ends(
            ChooseOutcome::Canceled,
            step,
        ),
        (ChooseStage::Pick { .. }, ChooseEvent::Answer(Answer::Broken)) => choose_ends(
            ChooseOutcome::Done,
            step,
        ),
        (ChooseStage::Pick { favorites, lines }, ChooseEvent::Answer(Answer::Picked(text))) => {
            let at = line_position(texts(lines@), text@);
            let picked = Chooser {
                settings: c.settings,
                selected: Some(at as usize),
                list: c.list,
                dirty: c.dirty,
            };
            if at == c.list@.len() {
                if favorites@.len() == 0 {
                    restarts(picked, Some("No favorites saved yet."@), step)
                } else {
                    &&& step.stage is Menu
                    &&& continues(picked, step)
                    &&& step.request == ChooseRequest::FavoritesMenu(favorites)
                }
            } else {
                shows_actions(picked, favorites, at as usize, 0, None, step)
            }
        },
        (ChooseStage::Menu, ChooseEvent::MenuDone(Err(e))) => choose_fails(e@, step),
        (ChooseStage::Menu, ChooseEvent::MenuDone(Ok(_))) => restarts(c, None, step),
        (ChooseStage::Act { .. }, ChooseEvent::Answer(Answer::Escaped)) => restarts(c, None, step),
        (ChooseStage::Act { .. }, ChooseEvent::Answer(Answer::Broken)) => choose_ends(
            ChooseOutcome::Done,
            step,
        ),
        (ChooseStage::Act { favorites, at, cursor }, ChooseEvent::Answer(Answer::Picked(text))) => {
            acts(c, favorites, at, cursor, text@, step)
        },
        (ChooseStage::Look { favorites, at }, ChooseEvent::Found(found)) => if found {
            &&& step.stage == ChooseStage::View { favorites, at }
            &&& continues(c, step)
            &&& step.request matches ChooseRequest::Preview(path) && path@
                == c.list@[at as int].local_path@
        } else {
            shows_actions(
                c,
                favorites,
                at,
                1,
                Some("File not found for preview: "@ + c.list@[at as int].local_path@),
                step,
            )
        },
        (ChooseStage::View { favorites, at }, ChooseEvent::Done) => shows_actions(
            c,
            favorites,
            at,
            1,
            None,
            step,
        ),
        (ChooseStage::Apply { .. }, ChooseEvent::Outcome(Ok(_))) => choose_ends(
            ChooseOutcome::Done,
            step,
        ),
        (ChooseStage::Apply { favorites, at, cursor }, ChooseEvent::Outcome(Err(e))) => {
            shows_actions(
                c,
                favorites,
                at,
                cursor as int,
                Some("Failed to apply wallpaper: "@ + error_text(e@)),
                step,
            )
        },
        (ChooseStage::Show { favorites, at, cursor }, ChooseEvent::Done) => shows_actions(
            c,
            favorites,
            at,
            cursor as int,
            None,
            step,
        ),
        (ChooseStage::Save, ChooseEvent::Outcome(outcome)) => restarts(
            c,
            Some(
                match outcome {
                    Ok(_) => "Saved to favorites."@,
                    Err(e) => "Could not favorite: "@ + error_text(e@),
                },
            ),
            step,
        ),
        _ => false,
    }
}

fn choose_fail(c: Chooser, error: WallpaperError) -> (r: ChooseStep)
    requires
        c.list@.len() < usize::MAX,
    ensures
        choose_fails(error@, r),
        choose_sound(r.stage, r.chooser),
{
    ChooseStep {
        stage: ChooseStage::Over,
        chooser: c,
        say: None,
        request: ChooseRequest::Finish(Err(error)),
    }
}

fn choose_end(c: Chooser, outcome: ChooseOutcome) -> (r: ChooseStep)
    requires
        c.list@.len() < usize::MAX,
    ensures
        choose_ends(outcome, r),
        choose_sound(r.stage, r.chooser),
{
    ChooseStep {
        stage: ChooseStage::Over,
        chooser: c,
        say: None,
        request: ChooseRequest::Finish(Ok(outcome)),
    }
}

fn restart(c: Chooser, say: Option<String>) -> (r: ChooseStep)
    requires
        c.list@.len() < usize::MAX,
    ensures
        restarts(c, opt_text(say), r),
        choose_sound(r.stage, r.chooser),
{
    ChooseStep {
        stage: ChooseStage::Load,
        chooser: c,
        say,
        request: ChooseRequest::LoadFavorites,
    }
}

fn offer(c: Chooser, favorites: Vec<FavoriteEntry>) -> (r: ChooseStep)
    requires
        c.list@.len() < usize::MAX,
    ensures
        offers(c, favorites, r),
        choose_sound(r.stage, r.chooser),
{
    if c.list.len() == 0 && favorites.len() == 0 {
        return choose_fail(c, failure("No wallpapers available to choose from."));
    }
    let lines = list_labels(&c.list, &favorites);
    let asked = crate::model::copy_texts(&lines);
    let cursor: usize = match c.selected {
        Some(i) => i,
        None => 0,
    };
    ChooseStep {
        stage: ChooseStage::Pick { favorites, lines },
        chooser: c,
        say: None,
        request: ChooseRequest::AskList { lines: asked, cursor },
    }
}

fn refill(c: Chooser, list: Vec<WallpaperCandidate>) -> (r: Chooser)
    ensures
        r == refilled(c, list),
{
    let mut settings = c.settings;
    settings.force = false;
    settings.refresh_metadata = false;
    Chooser { settings, selected: c.selected, list, dirty: false }
}

fn show_actions(
    c: Chooser,
    favorites: Vec<FavoriteEntry>,
    at: usize,
    cursor: usize,
    say: Option<String>,
) -> (r: ChooseStep)
    requires
        at < c.list@.len(),
        c.list@.len() < usize::MAX,
    ensures
        shows_actions(c, favorites, at, cursor as int, opt_text(say), r),
        choose_sound(r.stage, r.chooser),
{
    let lines = wallpaper_action_lines(contains_id(&favorites, c.list[at].id.as_str()));
    ChooseStep {
        stage: ChooseStage::Act { favorites, at, cursor },
        chooser: c,
        say,
        request: ChooseRequest::AskAction { lines, cursor },
    }
}

fn act(c: Chooser, favorites: Vec<FavoriteEntry>, at: usize, cursor: usize, text: &str) -> (r:
    ChooseStep)
    requires
        at < c.list@.len(),
        c.list@.len() < usize::MAX,
    ensures
        acts(c, favorites, at, cursor, text@, r),
        choose_sound(r.stage, r.chooser),
{
    match wallpaper_choice_of(text) {
        Choice::Preview => {
            let path = c.list[at].local_path.clone();
            ChooseStep {
                stage: ChooseStage::Look { favorites, at },
                chooser: c,
                say: None,
                request: ChooseRequest::LookFor(path),
            }
        },
        Choice::Apply => {
            let order = candidate_order(&c.list[at], true);
            ChooseStep {
                stage: ChooseStage::Apply { favorites, at, cursor },
                chooser: c,
                say: None,
                request: ChooseRequest::Apply(order),
            }
        },
        Choice::Info => {
            let info = format_candidate_info(&c.list[at], &c.settings);
            ChooseStep {
                stage: ChooseStage::Show { favorites, at, cursor },
                chooser: c,
                say: None,
                request: ChooseRequest::ShowInfo(info),
            }
        },
        Choice::Favorite => {
            let w = c.list[at].clone();
            ChooseStep {
                stage: ChooseStage::Save,
                chooser: c,
                say: None,
                request: ChooseRequest::SaveFavorite(w),
            }
        },
        Choice::Refresh => {
            let mut settings = c.settings;
            settings.force = true;
            settings.refresh_metadata = true;
            restart(
                Chooser { settings, selected: c.selected, list: c.list, dirty: true },
                None,
            )
        },
        Choice::Quit => choose_end(c, ChooseOutcome::Canceled),
        _ => choose_end(c, ChooseOutcome::Done),
    }
}

/// Opens the chooser. Metadata is not refreshed unless the user asks for it.
pub fn run_choose(settings: &Settings) -> (r: ChooseStep)
    ensures
        r.chooser.settings == (Settings { refresh_metadata: false, ..*settings }),
        r.chooser.selected is None,
        r.chooser.list@.len() == 0,
        r.chooser.dirty,
        r.say is None,
        r.stage is Load,
        r.request is LoadFavorites,
        choose_sound(r.stage, r.chooser),
{
    let mut current = settings.clone();
    current.refresh_metadata = false;
    restart(
        Chooser { settings: current, selected: None, list: Vec::new(), dirty: true },
        None,
    )
}

/// The next step of the chooser.
pub fn choose_step(stage: ChooseStage, c: Chooser, event: ChooseEvent) -> (r: ChooseStep)
    requires
        choose_fits(stage, event),
        choose_sound(stage, c),
    ensures
        choose_advances(stage, c, event, r),
        choose_sound(r.stage, r.chooser),
{
    match (stage, event) {
        (ChooseStage::Load, ChooseEvent::Favorites(Err(e))) => choose_fail(c, e),
        (ChooseStage::Load, ChooseEvent::Favorites(Ok(favorites))) => {
            if c.dirty {
                let settings = c.settings.clone();
                return ChooseStep {
                    stage: ChooseStage::Gather(favorites),
                    chooser: c,
                    say: None,
                    request: ChooseRequest::Gather(settings),
                };
            }
            offer(c, favorites)
        },
        (ChooseStage::Gather(_), ChooseEvent::Gathered(Err(e))) => choose_fail(c, e),
        (ChooseStage::Gather(favorites), ChooseEvent::Gathered(Ok(list))) => {
            if c.settings.min_resolution.is_none() {
                return offer(refill(c, list), favorites);
            }
            let paths = crate::sources::fetch::paths_of_candidates(&list);
            ChooseStep {
                stage: ChooseStage::Measure { favorites, list },
                chooser: c,
                say: None,
                request: ChooseRequest::Measure(paths),
            }
        },
        (ChooseStage::Measure { favorites, list }, ChooseEvent::Sizes(sizes)) => {
            let kept = filter_candidates_by_min_resolution(
                list,
                c.settings.min_resolution,
                &sizes,
            );
            proof {
                lemma_kept_len(list@, sizes@, c.settings.min_resolution.unwrap());
            }
            let filled = refill(c, kept);
            let step = offer(filled, favorites);
            assert(offers(refilled(c, kept), favorites, step));
            step
        },
        (ChooseStage::Pick { .. }, ChooseEvent::Answer(Answer::Escaped)) => choose_end(
            c,
            ChooseOutcome::Canceled,
        ),
        (ChooseStage::Pick { .. }, ChooseEvent::Answer(Answer::Broken)) => choose_end(
            c,
            ChooseOutcome::Done,
        ),
        (ChooseStage::Pick { favorites, lines }, ChooseEvent::Answer(Answer::Picked(text))) => {
            let at = position_in(&lines, text.as_str());
            let picked = Chooser {
                settings: c.settings,
                selected: Some(at),
                list: c.list,
                dirty: c.dirty,
            };
            if at == picked.list.len() {
                if favorites.len() == 0 {
                    return restart(picked, Some("No favorites saved yet.".to_string()));
                }
                return ChooseStep {
                    stage: ChooseStage::Menu,
                    chooser: picked,
                    say: None,
                    request: ChooseRequest::FavoritesMenu(favorites),
                };
            }
            show_actions(picked, favorites, at, 0, None)
        },
        (ChooseStage::Menu, ChooseEvent::MenuDone(Err(e))) => choose_fail(c, e),
        (ChooseStage::Menu, ChooseEvent::MenuDone(Ok(_))) => restart(c, None),
        (ChooseStage::Act { .. }, ChooseEvent::Answer(Answer::Escaped)) => restart(c, None),
        (ChooseStage::Act { .. }, ChooseEvent::Answer(Answer::Broken)) => choose_end(
            c,
            ChooseOutcome::Done,
        ),
        (ChooseStage::Act { favorites, at, cursor }, ChooseEvent::Answer(Answer::Picked(text))) => {
            act(c, favorites, at, cursor, text.as_str())
        },
        (ChooseStage::Look { favorites, at }, ChooseEvent::Found(found)) => {
            let path = c.list[at].local_path.clone();
            if found {
                return ChooseStep {
                    stage: ChooseStage::View { favorites, at },
                    chooser: c,
                    say: None,
                    request: ChooseRequest::Preview(path),
                };
            }
            let mut text = "File not found for preview: ".to_string();
            text.append(path.as_str());
            show_actions(c, favorites, at, 1, Some(text))
        },
        (ChooseStage::View { favorites, at }, ChooseEvent::Done) => show_actions(
            c,
            favorites,
            at,
            1,
            None,
        ),
        (ChooseStage::Apply { .. }, ChooseEvent::Outcome(Ok(_))) => choose_end(
            c,
            ChooseOutcome::Done,
        ),
        (ChooseStage::Apply { favorites, at, cursor }, ChooseEvent::Outcome(Err(e))) => {
            let mut text = "Failed to apply wallpaper: ".to_string();
            text.append(e.message().as_str());
            show_actions(c, favorites, at, cursor, Some(text))
        },
        (ChooseStage::Show { favorites, at, cursor }, ChooseEvent::Done) => show_actions(
            c,
            favorites,
            at,
            cursor,
            None,
        ),
        (ChooseStage::Save, ChooseEvent::Outcome(outcome)) => {
            let text = match outcome {
                Ok(_) => "Saved to favorites.".to_string(),
                Err(e) => {
                    let mut told = "Could not favorite: ".to_string();
                    told.append(e.message().as_str());
                    told
                },
            };
            restart(c, Some(text))
        },
        _ => vstd::pervasive::unreached(),
    }
}

proof fn lemma_kept_len(
    list: Seq<WallpaperCandidate>,
    sizes: Seq<Option<(u32, u32)>>,
    min: (u32, u32),
)
    ensures
        kept_by_size(list, sizes, min).len() <= list.len(),
    decreases list.len(),
{
    if list.len() > 0 {
        lemma_kept_len(list.drop_last(), sizes, min);
    }
}

/// The wallpapers are gathered only at the beginning and after the user asked for it.
pub proof fn gathering_is_asked_for(
    stage: ChooseStage,
    c: Chooser,
    event: ChooseEvent,
    step: ChooseStep,
)
    requires
        choose_fits(stage, event),
        choose_sound(stage, c),
        choose_advances(stage, c, event, step),
    ensures
        step.request is Gather ==> c.dirty,
        step.chooser.dirty && !(step.stage is Over) ==> c.dirty || (stage matches ChooseStage::Act { .. }
            && (event matches ChooseEvent::Answer(Answer::Picked(text)) && wallpaper_choice(text@)
            == Choice::Refresh)),
{
}

/// Whether force and refreshing are in effect only as long as the wallpapers have to be gathered.
pub open spec fn force_is_spent(c: Chooser) -> bool {
    !c.dirty ==> !c.settings.force && !c.settings.refresh_metadata
}

/// Force and refreshing are in effect for one gathering: the chooser begins so and keeps it, and
/// once wallpapers have been gathered they need not be gathered again.
pub proof fn force_is_in_effect_once(
    stage: ChooseStage,
    c: Chooser,
    event: ChooseEvent,
    step: ChooseStep,
)
    requires
        choose_fits(stage, event),
        choose_sound(stage, c),
        choose_advances(stage, c, event, step),
        force_is_spent(c),
        !(step.stage is Over),
    ensures
        force_is_spent(step.chooser),
        (stage is Gather || stage is Measure) && !(step.stage is Measure) ==> !step.chooser.dirty,
{
}

/// It is told about a wallpaper exactly where it is left out: where its image cannot be read, is
/// less wide than asked for, or less high.
pub proof fn what_is_left_out_is_told(
    c: CandidateView,
    min: (u32, u32),
    size: Result<(u32, u32), Seq<char>>,
)
    ensures
        left_out_text(c, min, size) is None <==> (size matches Ok(s) && s.0 >= min.0 && s.1
            >= min.1),
{
}

/// Each action of the menu does what it says, with the wallpaper that was picked: its own file is
/// previewed or applied, as the choice of the user; it is told of and saved itself.
pub proof fn actions_do_what_they_say(
    c: Chooser,
    favorites: Vec<FavoriteEntry>,
    at: usize,
    cursor: usize,
    text: String,
    step: ChooseStep,
)
    requires
        at < c.list@.len(),
        choose_advances(
            ChooseStage::Act { favorites, at, cursor },
            c,
            ChooseEvent::Answer(Answer::Picked(text)),
            step,
        ),
    ensures
        text@ == "Preview (Quick Look)"@ ==> (step.request matches ChooseRequest::LookFor(path)
            && path@ == c.list@[at as int].local_path@),
        text@ == "Apply"@ ==> (step.request matches ChooseRequest::Apply(order) && order@.path
            == c.list@[at as int].local_path@ && order@.candidate_id == c.list@[at as int].id@
            && order@.source == c.list@[at as int].source && order@.date == Some(
            c.list@[at as int].date@,
        ) && order@.by_user),
        text@ == "Info"@ ==> (step.request matches ChooseRequest::ShowInfo(info) && info@
            == crate::info::basic_info(
            opt_text(c.list@[at as int].title),
            opt_text(c.list@[at as int].description),
            opt_text(c.list@[at as int].attribution),
            opt_text(c.list@[at as int].info_url),
            c.settings.info_wrap_width as int,
            c.settings.info_plain_text,
        )),
        text@ == "Favorite"@ || text@ == "Favorite (already saved)"@ ==> step.request
            == ChooseRequest::SaveFavorite(c.list@[at as int]),
        text@ == "Refresh list (force re-download)"@ ==> step.chooser.dirty
            && step.chooser.settings.force && step.chooser.settings.refresh_metadata
            && step.request is LoadFavorites,
        text@ == "Quit chooser"@ ==> step.request == ChooseRequest::Finish(
            Ok(ChooseOutcome::Canceled),
        ),
{
    reveal_strlit("Preview (Quick Look)");
    reveal_strlit("Preview");
    reveal_strlit("Apply");
    reveal_strlit("Info");
    reveal_strlit("Favorite");
    reveal_strlit("Favorite (already saved)");
    reveal_strlit("Refresh list (force re-download)");
    reveal_strlit("Refresh");
    reveal_strlit("Quit chooser");
    reveal_strlit("Quit");
    assert(text@ == "Preview (Quick Look)"@ ==> text@.subrange(0, 7) =~= "Preview"@);
    assert(text@ == "Apply"@ ==> text@.subrange(0, 5) =~= "Apply"@);
    assert(text@ == "Info"@ ==> text@.subrange(0, 4) =~= "Info"@);
    assert(text@ == "Favorite"@ ==> text@.subrange(0, 8) =~= "Favorite"@);
    assert(text@ == "Favorite (already saved)"@ ==> text@.subrange(0, 8) =~= "Favorite"@);
    assert(text@ == "Refresh list (force re-download)"@ ==> text@.subrange(0, 7) =~= "Refresh"@);
    assert(text@ == "Quit chooser"@ ==> text@.subrange(0, 4) =~= "Quit"@);
    lemma_other_start(text@, "Preview"@);
    lemma_other_start(text@, "Apply"@);
    lemma_other_start(text@, "Info"@);
    lemma_other_start(text@, "Favorite"@);
    lemma_other_start(text@, "Refresh"@);
    lemma_other_start(text@, "Quit"@);
}

proof fn lemma_other_start(s: Seq<char>, prefix: Seq<char>)
    requires
        prefix.len() > 0,
    ensures
        begins_with(s, prefix) ==> s.len() > 0 && s[0] == prefix[0],
{
    if begins_with(s, prefix) {
        assert(s.subrange(0, prefix.len() as int)[0] == prefix[0]);
    }
}

/// The menu offers these actions; a favorite is marked as saved.
pub proof fn actions_of_a_wallpaper(favorite: bool)
    ensures
        wallpaper_actions(favorite) == seq![
            "Preview (Quick Look)"@,
            "Apply"@,
            "Info"@,
            if favorite {
                "Favorite (already saved)"@
            } else {
                "Favorite"@
            },
            "Refresh list (force re-download)"@,
            "Quit chooser"@,
        ],
{
}

/// What is previewed is the file that was looked for and found.
pub proof fn previewed_file_was_found(
    c: Chooser,
    favorites: Vec<FavoriteEntry>,
    at: usize,
    found: bool,
    step: ChooseStep,
)
    requires
        at < c.list@.len(),
        choose_advances(
            ChooseStage::Look { favorites, at },
            c,
            ChooseEvent::Found(found),
            step,
        ),
    ensures
        step.request is Preview <==> found,
        step.request matches ChooseRequest::Preview(path) ==> path@
            == c.list@[at as int].local_path@,
{
}

/// The list offers what was gathered where no size is asked for, all of it and in its order.
pub proof fn gathered_wallpapers_are_offered(
    c: Chooser,
    favorites: Vec<FavoriteEntry>,
    list: Vec<WallpaperCandidate>,
    step: ChooseStep,
)
    requires
        c.settings.min_resolution is None,
        list@.len() > 0,
        choose_advances(
            ChooseStage::Gather(favorites),
            c,
            ChooseEvent::Gathered(Ok(list)),
            step,
        ),
    ensures
        step.request is AskList,
        step.chooser.list == list,
        !step.chooser.dirty,
        !step.chooser.settings.force,
{
}

/// Where a size is asked for, the list offers exactly the wallpapers that are as wide and as high
/// as asked for.
pub proof fn large_wallpapers_are_offered(
    c: Chooser,
    favorites: Vec<FavoriteEntry>,
    list: Vec<WallpaperCandidate>,
    sizes: Vec<Option<(u32, u32)>>,
    min: (u32, u32),
    step: ChooseStep,
    w: WallpaperCandidate,
)
    requires
        c.settings.min_resolution == Some(min),
        sizes@.len() == list@.len(),
        choose_advances(
            ChooseStage::Measure { favorites, list },
            c,
            ChooseEvent::Sizes(sizes),
            step,
        ),
        step.request is AskList,
    ensures
        step.chooser.list@.contains(w) <==> exists|i: int|
            0 <= i < list@.len() && #[trigger] list@[i] == w && (sizes@[i] matches Some(s) && s.0
                >= min.0 && s.1 >= min.1),
{
    let kept = kept_by_size(list@, sizes@, min);
    let at = large_wallpapers_are_kept_in_order(list@, sizes@, min);
    assert(step.chooser.list@ == kept);
    if kept.contains(w) {
        let k = choose|k: int| 0 <= k < kept.len() && kept[k] == w;
        assert(list@[at[k]] == w);
    }
    if exists|i: int|
        0 <= i < list@.len() && #[trigger] list@[i] == w && (sizes@[i] matches Some(s) && s.0
            >= min.0 && s.1 >= min.1) {
        let i = choose|i: int|
            0 <= i < list@.len() && #[trigger] list@[i] == w && (sizes@[i] matches Some(s) && s.0
                >= min.0 && s.1 >= min.1);
        assert(at.contains(i));
        let k = choose|k: int| 0 <= k < at.len() && at[k] == i;
        assert(kept[k] == w);
    }
}

/// A wallpaper is told of by its number, its source, its title and its attribution, and a
/// favorite is marked.
pub proof fn line_tells_of_its_wallpaper(
    c: CandidateView,
    i: int,
    title: Seq<char>,
    attribution: Seq<char>,
)
    requires
        c.title == Some(title),
        c.attribution == Some(attribution),
        spaced(title) == title,
        spaced(attribution) == attribution,
        title.len() > 0,
        attribution.len() > 0,
    ensures
        candidate_label(c, i, false) == decimal((i + 1) as nat) + ": ["@ + label(c.source) + "] "@
            + title + (" \u{2014} "@ + attribution),
        candidate_label(c, i, true) == candidate_label(c, i, false) + " [fav]"@,
        candidate_label(CandidateView { title: None, attribution: None, ..c }, i, false) == decimal(
            (i + 1) as nat,
        ) + ": ["@ + label(c.source) + "] (no title)"@,
{
    reveal_strlit("");
    reveal_strlit("] ");
    reveal_strlit("] (no title)");
    reveal_strlit("(no title)");
    assert(candidate_label(c, i, false) =~= decimal((i + 1) as nat) + ": ["@ + label(c.source)
        + "] "@ + title + (" \u{2014} "@ + attribution));
    assert(candidate_label(c, i, true) =~= candidate_label(c, i, false) + " [fav]"@);
    assert(candidate_label(CandidateView { title: None, attribution: None, ..c }, i, false)
        =~= decimal((i + 1) as nat) + ": ["@ + label(c.source) + "] (no title)"@);
}

proof fn lemma_number_of_line(a: Seq<char>, x: Seq<char>, b: Seq<char>, y: Seq<char>)
    requires
        forall|i: int| 0 <= i < a.len() ==> is_digit(#[trigger] a[i]),
        forall|i: int| 0 <= i < b.len() ==> is_digit(#[trigger] b[i]),
        x.len() > 0 && x[0] == ':',
        y.len() > 0 && y[0] == ':',
        a + x == b + y,
    ensures
        a == b,
{
    let s = a + x;
    assert(s[a.len() as int] == ':');
    assert((b + y)[b.len() as int] == ':');
    if a.len() < b.len() {
        assert((b + y)[a.len() as int] == b[a.len() as int]);
        assert(is_digit(b[a.len() as int]));
    } else if b.len() < a.len() {
        assert(s[b.len() as int] == a[b.len() as int]);
        assert(is_digit(a[b.len() as int]));
    }
    assert forall|i: int| 0 <= i < a.len() implies a[i] == b[i] by {
        assert(s[i] == a[i]);
        assert((b + y)[i] == b[i]);
    }
    assert(a =~= b);
}

proof fn lemma_line_parts(list: Seq<CandidateView>, favorites: Seq<FavoriteEntry>, i: int) -> (rest:
    Seq<char>)
    requires
        0 <= i <= list.len(),
    ensures
        chooser_labels(list, favorites)[i] == decimal((i + 1) as nat) + rest,
        rest.len() > 0 && rest[0] == ':',
{
    reveal_strlit(": [");
    reveal_strlit(": [Favorites] (");
    let line = chooser_labels(list, favorites)[i];
    let n = decimal((i + 1) as nat);
    let rest = line.skip(n.len() as int);
    assert(line.take(n.len() as int) =~= n);
    assert(line =~= n + rest);
    assert(line[n.len() as int] == ':');
    rest
}

proof fn lemma_first_line(lines: Seq<Seq<char>>, i: int)
    requires
        0 <= i < lines.len(),
        forall|j: int| 0 <= j < i ==> lines[j] != lines[i],
    ensures
        first_line(lines, lines[i]) == i,
    decreases lines.len(),
{
    if i > 0 {
        assert(lines[0] != lines[i]);
        let rest = lines.drop_first();
        assert(rest[i - 1] == lines[i]);
        assert forall|j: int| 0 <= j < i - 1 implies #[trigger] rest[j] != rest[i - 1] by {
            assert(rest[j] == lines[j + 1]);
        }
        lemma_first_line(rest, i - 1);
    }
}

/// Each line of the list stands for the wallpaper that it tells of, and the last for the
/// favorites.
pub proof fn line_stands_for_its_wallpaper(
    list: Seq<CandidateView>,
    favorites: Seq<FavoriteEntry>,
    i: int,
)
    requires
        0 <= i <= list.len(),
    ensures
        line_position(chooser_labels(list, favorites), chooser_labels(list, favorites)[i]) == i,
{
    let lines = chooser_labels(list, favorites);
    assert forall|j: int| 0 <= j < i implies lines[j] != lines[i] by {
        if lines[j] == lines[i] {
            let x = lemma_line_parts(list, favorites, j);
            let y = lemma_line_parts(list, favorites, i);
            crate::number::lemma_decimal((j + 1) as nat);
            crate::number::lemma_decimal((i + 1) as nat);
            lemma_number_of_line(decimal((j + 1) as nat), x, decimal((i + 1) as nat), y);
            crate::number::decimal_reads_back((j + 1) as nat, i + 1);
            crate::number::decimal_reads_back((i + 1) as nat, i + 1);
        }
    }
    lemma_first_line(lines, i);
    assert(lines[i] == lines[i]);
}

/// What is done next is done with the wallpaper whose line was picked.
pub proof fn picked_wallpaper_is_acted_on(
    c: Chooser,
    favorites: Vec<FavoriteEntry>,
    lines: Vec<String>,
    text: String,
    i: int,
    step: ChooseStep,
)
    requires
        0 <= i < c.list@.len(),
        c.list@.len() < usize::MAX,
        texts(lines@) == chooser_labels(candidates(c.list@), favorites@),
        text@ == chooser_labels(candidates(c.list@), favorites@)[i],
        choose_advances(
            ChooseStage::Pick { favorites, lines },
            c,
            ChooseEvent::Answer(Answer::Picked(text)),
            step,
        ),
    ensures
        step.stage matches ChooseStage::Act { at, .. } && at == i,
        step.chooser.list == c.list,
        step.chooser.selected == Some(i as usize),
{
    assert(candidates(c.list@).len() == c.list@.len());
    line_stands_for_its_wallpaper(candidates(c.list@), favorites@, i);
}

/// The files that are measured are those of the wallpapers that were gathered, one for each.
pub proof fn gathered_files_are_measured(
    c: Chooser,
    favorites: Vec<FavoriteEntry>,
    list: Vec<WallpaperCandidate>,
    step: ChooseStep,
    i: int,
)
    requires
        c.settings.min_resolution is Some,
        0 <= i < list@.len(),
        choose_advances(
            ChooseStage::Gather(favorites),
            c,
            ChooseEvent::Gathered(Ok(list)),
            step,
        ),
    ensures
        step.stage == (ChooseStage::Measure { favorites, list }),
        step.request matches ChooseRequest::Measure(paths) && paths@.len() == list@.len()
            && paths@[i]@ == list@[i].local_path@,
{
    if let ChooseRequest::Measure(paths) = step.request {
        assert(texts(paths@).len() == list@.len());
        assert(texts(paths@)[i] == paths@[i]@);
        assert(candidates(list@)[i] == list@[i]@);
    }
}

/// The actions that are shown know whether the wallpaper is among the favorites.
pub proof fn shown_actions_know_the_favorites(
    c: Chooser,
    favorites: Vec<FavoriteEntry>,
    at: usize,
    step: ChooseStep,
)
    requires
        at < c.list@.len(),
        choose_advances(ChooseStage::View { favorites, at }, c, ChooseEvent::Done, step),
    ensures
        step.request matches ChooseRequest::AskAction { lines, .. } && lines@.len() == 6 && (if exists|
            i: int,
        |
            0 <= i < favorites@.len() && (#[trigger] favorites@[i]).id@ == c.list@[at as int].id@ {
            lines@[3]@ == "Favorite (already saved)"@
        } else {
            lines@[3]@ == "Favorite"@
        }),
{
    if let ChooseRequest::AskAction { lines, .. } = step.request {
        assert(texts(lines@).len() == lines@.len());
        assert(texts(lines@)[3] == lines@[3]@);
    }
}

/// What fails while the list is made is told as it is, and ends the choosing; what fails while a
/// wallpaper is applied is told, and the same wallpaper is offered again.
pub proof fn failed_choosing_is_told(
    c: Chooser,
    stage: ChooseStage,
    event: ChooseEvent,
    e: WallpaperError,
    step: ChooseStep,
)
    requires
        choose_advances(stage, c, event, step),
    ensures
        stage is Load && event == ChooseEvent::Favorites(Err(e)) || stage is Gather && event
            == ChooseEvent::Gathered(Err(e)) || stage is Menu && event == ChooseEvent::MenuDone(
            Err(e),
        ) ==> (step.request matches ChooseRequest::Finish(Err(told)) && told@ == e@),
        stage matches ChooseStage::Apply { at, .. } ==> event == ChooseEvent::Outcome(Err(e)) ==> (
        step.stage matches ChooseStage::Act { at: a, .. } && a == at) && opt_text(step.say) == Some(
            "Failed to apply wallpaper: "@ + error_text(e@),
        ),
        stage is Apply && event == ChooseEvent::Outcome(Ok(())) ==> step.request
            == ChooseRequest::Finish(Ok(ChooseOutcome::Done)),
{
}

/// The last line of the list leads to the favorites and tells how many there are; the lines before
/// it mark the wallpapers that are among them.
pub proof fn last_line_leads_to_the_favorites(
    list: Seq<CandidateView>,
    favorites: Seq<FavoriteEntry>,
    i: int,
)
    ensures
        chooser_labels(list, favorites).len() == list.len() + 1,
        chooser_labels(list, favorites).last() == decimal((list.len() + 1) as nat)
            + ": [Favorites] ("@ + decimal(favorites.len()) + ")"@,
        0 <= i < list.len() ==> chooser_labels(list, favorites)[i] == candidate_label(
            list[i],
            i,
            exists|k: int|
                0 <= k < favorites.len() && (#[trigger] favorites[k]).id@ == list[i].id,
        ),
{
}

/// A favorite is told of by its number, its source, its title and its attribution.
pub proof fn line_tells_of_its_favorite(f: FavoriteEntry, i: int, title: String, from: String)
    requires
        title@.len() > 0,
        from@.len() > 0,
    ensures
        f.title == Some(title) && f.attribution == Some(from) ==> favorite_label(f, i) == decimal(
            i as nat,
        ) + ": ["@ + label(f.source) + "] "@ + title@ + (" \u{2014} "@ + from@),
        f.title is None && f.attribution is None ==> favorite_label(f, i) == decimal(i as nat)
            + ": ["@ + label(f.source) + "] (no title)"@,
{
    reveal_strlit("");
    reveal_strlit("] ");
    reveal_strlit("(no title)");
    reveal_strlit("] (no title)");
    if f.title is None && f.attribution is None {
        assert(favorite_label(f, i) =~= decimal(i as nat) + ": ["@ + label(f.source)
            + "] (no title)"@);
    }
}

/// What follows an action concerns the wallpaper that it was picked for: the place in the list
/// stays the same until the actions are shown again.
pub proof fn place_in_the_list_stays(
    c: Chooser,
    favorites: Vec<FavoriteEntry>,
    at: usize,
    cursor: usize,
    text: String,
    step: ChooseStep,
)
    requires
        at < c.list@.len(),
        choose_advances(
            ChooseStage::Act { favorites, at, cursor },
            c,
            ChooseEvent::Answer(Answer::Picked(text)),
            step,
        ),
    ensures
        step.request is LookFor ==> step.stage == (ChooseStage::Look { favorites, at }),
        step.request is Apply ==> (step.stage matches ChooseStage::Apply { at: a, .. } && a == at),
        step.request is ShowInfo ==> (step.stage matches ChooseStage::Show { at: a, .. } && a
            == at),
        step.request is SaveFavorite ==> step.stage is Save,
{
}

/// The list that is shown is the one that an answer is looked up in.
pub proof fn answer_is_looked_up_in_the_shown_list(
    c: Chooser,
    favorites: Vec<FavoriteEntry>,
    step: ChooseStep,
)
    requires
        offers(c, favorites, step),
        c.list@.len() > 0 || favorites@.len() > 0,
    ensures
        step.stage matches ChooseStage::Pick { favorites: f, lines } && f == favorites && (
        step.request matches ChooseRequest::AskList { lines: shown, .. } && texts(shown@) == texts(
            lines@,
        )) && texts(lines@) == chooser_labels(candidates(c.list@), favorites@),
        step.chooser == c,
{
}

} // verus!

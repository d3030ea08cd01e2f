//! Favorites: wallpapers that are kept, each as an image and a file that describes it.

use crate::checksum::{checksum_text, compute_checksum};
use crate::config::{clean_chars, name_char};
use crate::error::{ErrorView, WallpaperError};
use crate::info::{basic_info, format_basic_info};
use crate::model::{
    CandidateView, Settings, WallpaperCandidate, WallpaperSource, dir_name, source_dir_name,
};
use crate::number::{decimal, is_digit, lemma_decimal, size_text, size_words, u64_text};
use crate::path::{
    dir_len, extension, extension_of, file_name, join_path, last_dot, path_join, set_extension,
    trim_tail, with_extension,
};
use crate::text::{
    Class, all_ascii, ascii_lower, letters, lowercase, opt_text, same, texts, to_lowercase,
    trim_end, trim_of, trim_start, trimmed,
};
use vstd::prelude::*;

verus! {

// ------------------------------------------------------------------------------------------
// Entries
// ------------------------------------------------------------------------------------------

/// A favorite.
#[derive(Debug)]
pub struct FavoriteEntry {
    pub id: String,
    pub source: WallpaperSource,
    pub title: Option<String>,
    pub description: Option<String>,
    pub attribution: Option<String>,
    pub info_url: Option<String>,
    pub original_url: Option<String>,
    pub date: String,
    pub resolution: Option<String>,
    pub checksum: Option<String>,
    pub metadata_xml: Option<String>,
    pub stored_filename: String,
    pub image_path: String,
    pub created_at: u64,
}

/// What the file that describes a favorite says.
#[derive(Debug)]
pub struct FavoriteFile {
    pub id: String,
    pub source: WallpaperSource,
    pub title: Option<String>,
    pub description: Option<String>,
    pub attribution: Option<String>,
    pub info_url: Option<String>,
    pub original_url: Option<String>,
    pub date: String,
    pub resolution: Option<String>,
    pub checksum: Option<String>,
    pub metadata_xml: Option<String>,
    pub stored_filename: String,
    pub created_at: u64,
}

/// The value of a `FavoriteFile`.
#[verifier::ext_equal]
pub struct FavoriteView {
    pub id: Seq<char>,
    pub source: WallpaperSource,
    pub title: Option<Seq<char>>,
    pub description: Option<Seq<char>>,
    pub attribution: Option<Seq<char>>,
    pub info_url: Option<Seq<char>>,
    pub original_url: Option<Seq<char>>,
    pub date: Seq<char>,
    pub resolution: Option<Seq<char>>,
    pub checksum: Option<Seq<char>>,
    pub metadata_xml: Option<Seq<char>>,
    pub stored_filename: Seq<char>,
    pub created_at: u64,
}

impl View for FavoriteFile {
    type V = FavoriteView;

    open spec fn view(&self) -> FavoriteView {
        FavoriteView {
            id: self.id@,
            source: self.source,
            title: opt_text(self.title),
            description: opt_text(self.description),
            attribution: opt_text(self.attribution),
            info_url: opt_text(self.info_url),
            original_url: opt_text(self.original_url),
            date: self.date@,
            resolution: opt_text(self.resolution),
            checksum: opt_text(self.checksum),
            metadata_xml: opt_text(self.metadata_xml),
            stored_filename: self.stored_filename@,
            created_at: self.created_at,
        }
    }
}

impl FavoriteEntry {
    /// What the file that describes the favorite says.
    pub open spec fn file(self) -> FavoriteView {
        FavoriteView {
            id: self.id@,
            source: self.source,
            title: opt_text(self.title),
            description: opt_text(self.description),
            attribution: opt_text(self.attribution),
            info_url: opt_text(self.info_url),
            original_url: opt_text(self.original_url),
            date: self.date@,
            resolution: opt_text(self.resolution),
            checksum: opt_text(self.checksum),
            metadata_xml: opt_text(self.metadata_xml),
            stored_filename: self.stored_filename@,
            created_at: self.created_at,
        }
    }

    /// Whether this is the favorite that a file in `dir` describes.
    pub open spec fn is_of(self, file: FavoriteView, dir: Seq<char>) -> bool {
        &&& self.file() == file
        &&& self.image_path@ == path_join(dir, file.stored_filename)
    }
}

/// The favorite that a file in `dir` describes.
fn entry_of(file: FavoriteFile, dir: &str) -> (r: FavoriteEntry)
    ensures
        r.is_of(file@, dir@),
        r.id == file.id,
{
    let image_path = join_path(dir, file.stored_filename.as_str());
    FavoriteEntry {
        id: file.id,
        source: file.source,
        title: file.title,
        description: file.description,
        attribution: file.attribution,
        info_url: file.info_url,
        original_url: file.original_url,
        date: file.date,
        resolution: file.resolution,
        checksum: file.checksum,
        metadata_xml: file.metadata_xml,
        stored_filename: file.stored_filename,
        image_path,
        created_at: file.created_at,
    }
}

/// What is told about a favorite.
pub fn format_favorite_info(favorite: &FavoriteEntry, settings: &Settings) -> (r: String)
    ensures
        r@ == basic_info(
            opt_text(favorite.title),
            opt_text(favorite.description),
            opt_text(favorite.attribution),
            opt_text(favorite.info_url),
            settings.info_wrap_width as int,
            settings.info_plain_text,
        ),
{
    format_basic_info(
        &favorite.title,
        &favorite.description,
        &favorite.attribution,
        &favorite.info_url,
        settings.info_wrap_width,
        settings.info_plain_text,
    )
}

/// Whether one of the favorites has the given id.
pub open spec fn has_id(entries: Seq<FavoriteEntry>, id: Seq<char>) -> bool {
    exists|i: int| 0 <= i < entries.len() && (#[trigger] entries[i]).id@ == id
}

/// Whether one of the favorites has the given id.
pub fn contains_id(entries: &Vec<FavoriteEntry>, id: &str) -> (r: bool)
    ensures
        r == has_id(entries@, id@),
{
    let mut i: usize = 0;
    while i < entries.len()
        invariant
            i <= entries@.len(),
            forall|j: int| 0 <= j < i ==> (#[trigger] entries@[j]).id@ != id@,
        decreases entries@.len() - i,
    {
        if same(entries[i].id.as_str(), id) {
            assert(entries@[i as int].id@ == id@);
            return true;
        }
        i += 1;
    }
    false
}

/// Whether no two favorites have the same id.
pub open spec fn different_ids(entries: Seq<FavoriteEntry>) -> bool {
    forall|i: int, j: int|
        0 <= i < j < entries.len() ==> (#[trigger] entries[i]).id@ != (#[trigger] entries[j]).id@
}

// ------------------------------------------------------------------------------------------
// Names
// ------------------------------------------------------------------------------------------

/// `s` with runs of hyphens made single.
pub open spec fn single_hyphens(s: Seq<char>) -> Seq<char>
    decreases s.len(),
{
    if s.len() == 0 {
        s
    } else {
        let before = single_hyphens(s.drop_last());
        if s.last() == '-' && before.len() > 0 && before.last() == '-' {
            before
        } else {
            before.push(s.last())
        }
    }
}

/// A part of a file name: other characters than letters, digits, `_` and `-` become hyphens,
/// hyphens are single and not at the ends, and letters are small.
pub open spec fn name_part(s: Seq<char>) -> Seq<char> {
    lowercase(
        trimmed(single_hyphens(s.map_values(|c: char| name_char(c))), Class::One('-')),
    )
}

/// Makes runs of hyphens single.
fn collapse_hyphens(s: &str) -> (r: String)
    ensures
        r@ == single_hyphens(s@),
{
    let v = letters(s);
    let mut out = String::new();
    let mut last_is_hyphen = false;
    let mut i: usize = 0;
    assert(v@.take(0) =~= Seq::<char>::empty());
    while i < v.len()
        invariant
            i <= v@.len(),
            out@ == single_hyphens(v@.take(i as int)),
            last_is_hyphen <==> out@.len() > 0 && out@.last() == '-',
        decreases v@.len() - i,
    {
        assert(v@.take(i + 1).drop_last() =~= v@.take(i as int));
        assert(v@.take(i + 1).last() == v@[i as int]);
        let c = v[i];
        if c != '-' || !last_is_hyphen {
            out.push(c);
        }
        last_is_hyphen = c == '-';
        i += 1;
    }
    assert(v@.take(i as int) =~= v@);
    out
}

/// Makes a text fit for a part of a file name.
pub fn sanitize_component(input: &str) -> (r: String)
    ensures
        r@ == name_part(input@),
        !r@.contains('/'),
{
    proof {
        lemma_cleaned_part_has_no_slash(input@);
    }
    let cleaned = clean_chars(input);
    let single = collapse_hyphens(cleaned.as_str());
    to_lowercase(trim_of(single.as_str(), Class::One('-')).as_str())
}

/// Hyphens that have been made single stand alone.
pub proof fn hyphens_stand_alone(s: Seq<char>, i: int)
    requires
        0 <= i,
        i + 1 < single_hyphens(s).len(),
    ensures
        !(single_hyphens(s)[i] == '-' && single_hyphens(s)[i + 1] == '-'),
    decreases s.len(),
{
    if s.len() > 0 {
        let before = single_hyphens(s.drop_last());
        if i + 1 < before.len() {
            hyphens_stand_alone(s.drop_last(), i);
        }
    }
}

/// The name of a favorite's files, before it is made unique: source, date and title.
pub open spec fn base_name(c: CandidateView) -> Seq<char> {
    let title = match c.title {
        Some(t) if t.len() > 0 => t,
        _ => c.id,
    };
    let joined = name_part(dir_name(c.source)) + "-"@ + name_part(c.date) + "-"@ + name_part(
        title,
    );
    if trimmed(joined, Class::One('-')).len() == 0 {
        "favorite"@
    } else {
        joined
    }
}

/// The name of a favorite's files, before it is made unique.
pub fn build_favorite_basename(candidate: &WallpaperCandidate) -> (r: String)
    ensures
        r@ == base_name(candidate@),
        !r@.contains('/'),
{
    let title = match &candidate.title {
        Some(t) if !t.as_str().is_empty() => t.clone(),
        _ => candidate.id.clone(),
    };
    let mut joined = sanitize_component(source_dir_name(candidate.source));
    let ghost source = joined@;
    joined.append("-");
    let date = sanitize_component(candidate.date.as_str());
    joined.append(date.as_str());
    joined.append("-");
    let words = sanitize_component(title.as_str());
    joined.append(words.as_str());
    proof {
        reveal_strlit("-");
        reveal_strlit("favorite");
        lemma_joined_has_no_slash(source, date@, words@);
    }
    if trim_of(joined.as_str(), Class::One('-')).as_str().is_empty() {
        "favorite".to_string()
    } else {
        joined
    }
}

proof fn lemma_joined_has_no_slash(a: Seq<char>, b: Seq<char>, d: Seq<char>)
    requires
        !a.contains('/'),
        !b.contains('/'),
        !d.contains('/'),
    ensures
        !(a + "-"@ + b + "-"@ + d).contains('/'),
{
    reveal_strlit("-");
    let joined = a + "-"@ + b + "-"@ + d;
    assert forall|i: int| 0 <= i < joined.len() implies joined[i] != '/' by {
        let at_b = i - a.len() - 1;
        let at_d = at_b - b.len() - 1;
        if i < a.len() {
            assert(joined[i] == a[i]);
        } else if 0 <= at_b < b.len() {
            assert(joined[i] == b[at_b]);
        } else if 0 <= at_d {
            assert(joined[i] == d[at_d]);
        }
    }
}

/// The extension of an image, with its dot.
pub open spec fn dotted_extension(path: Seq<char>) -> Seq<char> {
    match extension(path) {
        Some(ext) => "."@ + ext,
        None => ".jpg"@,
    }
}

/// The extension of an image, with its dot.
pub fn image_extension(path: &str) -> (r: String)
    ensures
        r@ == dotted_extension(path@),
{
    match extension_of(path) {
        Some(ext) => {
            let mut out = ".".to_string();
            out.append(ext.as_str());
            out
        },
        None => ".jpg".to_string(),
    }
}

/// The size of an image as text; `None` where it cannot be read.
pub open spec fn resolution_text(size: Option<(u32, u32)>) -> Option<Seq<char>> {
    match size {
        Some(found) => Some(size_words(found)),
        None => None,
    }
}

/// The size of an image as text; `None` where it cannot be read.
pub fn detect_resolution(size: Option<(u32, u32)>) -> (r: Option<String>)
    ensures
        opt_text(r) == resolution_text(size),
{
    match size {
        Some(found) => Some(size_text(found)),
        None => None,
    }
}

// ------------------------------------------------------------------------------------------
// The directory of favorites
// ------------------------------------------------------------------------------------------

/// The directory of favorites.
#[derive(Debug)]
pub struct FavoritesManager {
    pub base_dir: String,
}

impl FavoritesManager {
    /// The favorites in a directory.
    pub fn new(base_dir: String) -> (r: Self)
        ensures
            r.base_dir == base_dir,
    {
        FavoritesManager { base_dir }
    }

    /// Whether one of the favorites, which have been loaded, has the given id.
    pub fn is_favorited(&self, entries: &Vec<FavoriteEntry>, candidate_id: &str) -> (r: bool)
        ensures
            r == has_id(entries@, candidate_id@),
    {
        contains_id(entries, candidate_id)
    }

    /// The files to remove with a favorite: its image, and the file that describes it. Whether a
    /// removal succeeds does not matter.
    pub fn remove(&self, entry: &FavoriteEntry) -> (r: (String, String))
        ensures
            r.0@ == entry.image_path@,
            r.1@ == path_join(
                self.base_dir@,
                with_extension(entry.stored_filename@, "json"@),
            ),
    {
        let name = set_extension(entry.stored_filename.as_str(), "json");
        (
            entry.image_path.clone(),
            join_path(self.base_dir.as_str(), name.as_str()),
        )
    }
}

// ------------------------------------------------------------------------------------------
// Loading
// ------------------------------------------------------------------------------------------

/// How far the loading of favorites is.
pub enum LoadStage {
    /// The directory is looked for.
    LookDir,
    /// The directory is listed.
    List,
    /// The file at the position `at` is read.
    Read { paths: Vec<String>, at: usize, found: Vec<FavoriteEntry> },
    /// The image that a file describes is looked for.
    Check { file: FavoriteFile, paths: Vec<String>, at: usize, found: Vec<FavoriteEntry> },
    Over,
}

/// What is to be done next.
pub enum LoadAction {
    LookForDir(String),
    ListDir(String),
    /// Read a file that describes a favorite.
    ReadMetadata(String),
    LookForFile(String),
    Finish(Result<Vec<FavoriteEntry>, WallpaperError>),
}

/// What an action brought about.
pub enum LoadEvent {
    Found(bool),
    Listing(Result<Vec<String>, WallpaperError>),
    /// What a file says; `None` for a file that describes no favorite.
    Metadata(Result<Option<FavoriteFile>, WallpaperError>),
}

/// Whether an event can follow the action of a stage.
pub open spec fn load_fits(at: LoadStage, event: LoadEvent) -> bool {
    match at {
        LoadStage::LookDir => event is Found,
        LoadStage::List => event is Listing,
        LoadStage::Read { paths, at, .. } => event is Metadata && at < paths.len(),
        LoadStage::Check { paths, at, .. } => event is Found && at < paths.len(),
        LoadStage::Over => false,
    }
}

/// Whether the favorites that were found so far have different ids.
pub open spec fn load_sound(at: LoadStage) -> bool {
    match at {
        LoadStage::Read { found, .. } => different_ids(found@),
        LoadStage::Check { found, .. } => different_ids(found@),
        _ => true,
    }
}

/// The position of the next file, from `at` on, that describes a favorite by its name.
pub open spec fn next_json(paths: Seq<Seq<char>>, at: int) -> int
    decreases paths.len() - at,
{
    if at >= paths.len() || extension(paths[at]) == Some("json"@) {
        at
    } else {
        next_json(paths, at + 1)
    }
}

/// What follows once the files before `at` have been read: the next one, or the end.
pub open spec fn load_goes_on(
    paths: Seq<Seq<char>>,
    at: int,
    found: Seq<FavoriteEntry>,
    next: LoadStage,
    action: LoadAction,
) -> bool {
    let n = next_json(paths, at);
    if n < paths.len() {
        &&& next matches LoadStage::Read { paths: p, at: k, found: f } && texts(p@) == paths && k
            == n && f@ == found
        &&& action matches LoadAction::ReadMetadata(path) && path@ == paths[n]
    } else {
        &&& next is Over
        &&& action matches LoadAction::Finish(Ok(list)) && list@ == found
    }
}

/// Whether the loading ends with `error`.
pub open spec fn load_fails(error: ErrorView, next: LoadStage, action: LoadAction) -> bool {
    &&& next is Over
    &&& action matches LoadAction::Finish(Err(e)) && e@ == error
}

/// Whether the loading at the stage `at` goes on to `next` with `action` after `event`. Files
/// that describe no favorite, favorites without an image, and ids that came before are left out.
pub open spec fn load_advances(
    dir: Seq<char>,
    at: LoadStage,
    event: LoadEvent,
    next: LoadStage,
    action: LoadAction,
) -> bool {
    match (at, event) {
        (LoadStage::LookDir, LoadEvent::Found(found)) => if found {
            &&& next is List
            &&& action matches LoadAction::ListDir(path) && path@ == dir
        } else {
            load_goes_on(Seq::empty(), 0, Seq::empty(), next, action)
        },
        (LoadStage::List, LoadEvent::Listing(Err(e))) => load_fails(e@, next, action),
        (LoadStage::List, LoadEvent::Listing(Ok(paths))) => load_goes_on(
            texts(paths@),
            0,
            Seq::empty(),
            next,
            action,
        ),
        (LoadStage::Read { .. }, LoadEvent::Metadata(Err(e))) => load_fails(e@, next, action),
        (LoadStage::Read { paths, at, found }, LoadEvent::Metadata(Ok(None))) => load_goes_on(
            texts(paths@),
            at + 1,
            found@,
            next,
            action,
        ),
        (LoadStage::Read { paths, at, found }, LoadEvent::Metadata(Ok(Some(file)))) => {
            &&& next == LoadStage::Check { file, paths, at, found }
            &&& action matches LoadAction::LookForFile(path) && path@ == path_join(
                dir,
                file.stored_filename@,
            )
        },
        (LoadStage::Check { file, paths, at, found }, LoadEvent::Found(there)) => {
            if there && !has_id(found@, file.id@) {
                exists|entry: FavoriteEntry| #[trigger]
                    entry.is_of(file@, dir) && load_goes_on(
                        texts(paths@),
                        at + 1,
                        found@.push(entry),
                        next,
                        action,
                    )
            } else {
                load_goes_on(texts(paths@), at + 1, found@, next, action)
            }
        },
        _ => false,
    }
}

fn load_go_on(paths: Vec<String>, from: usize, found: Vec<FavoriteEntry>) -> (r: (
    LoadStage,
    LoadAction,
))
    requires
        from <= paths.len(),
        different_ids(found@),
    ensures
        load_goes_on(texts(paths@), from as int, found@, r.0, r.1),
        load_sound(r.0),
        r.1 matches LoadAction::Finish(Ok(list)) ==> different_ids(list@),
{
    let ghost all = texts(paths@);
    let mut at: usize = from;
    while at < paths.len()
        invariant
            from <= at <= paths@.len(),
            all == texts(paths@),
            next_json(all, from as int) == next_json(all, at as int),
            different_ids(found@),
        decreases paths@.len() - at,
    {
        assert(all[at as int] == paths@[at as int]@);
        if let Some(ext) = extension_of(paths[at].as_str()) {
            if same(ext.as_str(), "json") {
                let path = paths[at].clone();
                return (LoadStage::Read { paths, at, found }, LoadAction::ReadMetadata(path));
            }
        }
        at += 1;
    }
    (LoadStage::Over, LoadAction::Finish(Ok(found)))
}

fn load_fail(error: WallpaperError) -> (r: (LoadStage, LoadAction))
    ensures
        load_fails(error@, r.0, r.1),
        load_sound(r.0),
{
    (LoadStage::Over, LoadAction::Finish(Err(error)))
}

impl FavoritesManager {
    /// Begins to load the favorites: the directory is looked for.
    pub fn load_all(&self) -> (r: (LoadStage, LoadAction))
        ensures
            r.0 is LookDir,
            r.1 matches LoadAction::LookForDir(path) && path@ == self.base_dir@,
    {
        (LoadStage::LookDir, LoadAction::LookForDir(self.base_dir.clone()))
    }

    /// The next stage and action of loading the favorites. No id is loaded twice.
    pub fn load_step(&self, at: LoadStage, event: LoadEvent) -> (r: (LoadStage, LoadAction))
        requires
            load_fits(at, event),
            load_sound(at),
        ensures
            load_advances(self.base_dir@, at, event, r.0, r.1),
            load_sound(r.0),
            r.1 matches LoadAction::Finish(Ok(list)) ==> different_ids(list@),
    {
        match (at, event) {
            (LoadStage::LookDir, LoadEvent::Found(found)) => if found {
                (LoadStage::List, LoadAction::ListDir(self.base_dir.clone()))
            } else {
                let none: Vec<String> = Vec::new();
                assert(texts(none@) =~= Seq::<Seq<char>>::empty());
                let r = load_go_on(none, 0, Vec::new());
                r
            },
            (LoadStage::List, LoadEvent::Listing(Err(e))) => load_fail(e),
            (LoadStage::List, LoadEvent::Listing(Ok(paths))) => load_go_on(paths, 0, Vec::new()),
            (LoadStage::Read { .. }, LoadEvent::Metadata(Err(e))) => load_fail(e),
            (LoadStage::Read { paths, at, found }, LoadEvent::Metadata(Ok(None))) => {
                load_go_on(paths, at + 1, found)
            },
            (LoadStage::Read { paths, at, found }, LoadEvent::Metadata(Ok(Some(file)))) => {
                let path = join_path(self.base_dir.as_str(), file.stored_filename.as_str());
                (LoadStage::Check { file, paths, at, found }, LoadAction::LookForFile(path))
            },
            (LoadStage::Check { file, paths, at, found }, LoadEvent::Found(there)) => {
                if there && !self.is_favorited(&found, file.id.as_str()) {
                    let entry = entry_of(file, self.base_dir.as_str());
                    let ghost before = found@;
                    let mut list = found;
                    list.push(entry);
                    assert(list@ == before.push(entry));
                    assert(entry.is_of(file@, self.base_dir@));
                    proof {
                        assert forall|i: int, j: int| 0 <= i < j < list@.len() implies (
                        #[trigger] list@[i]).id@ != (#[trigger] list@[j]).id@ by {
                            if j == before.len() {
                                assert(before[i].id@ == list@[i].id@);
                            }
                        }
                    }
                    return load_go_on(paths, at + 1, list);
                }
                load_go_on(paths, at + 1, found)
            },
            _ => vstd::pervasive::unreached(),
        }
    }
}

// ------------------------------------------------------------------------------------------
// Saving
// ------------------------------------------------------------------------------------------

impl Clone for FavoriteFile {
    fn clone(&self) -> (r: Self)
        ensures
            r == *self,
    {
        FavoriteFile {
            id: self.id.clone(),
            source: self.source,
            title: self.title.clone(),
            description: self.description.clone(),
            attribution: self.attribution.clone(),
            info_url: self.info_url.clone(),
            original_url: self.original_url.clone(),
            date: self.date.clone(),
            resolution: self.resolution.clone(),
            checksum: self.checksum.clone(),
            metadata_xml: self.metadata_xml.clone(),
            stored_filename: self.stored_filename.clone(),
            created_at: self.created_at,
        }
    }
}

/// How far the saving of a favorite is. `name` is the name of its files.
pub enum SaveStage {
    /// The directory is made.
    MakeDir,
    /// The favorites are loaded.
    Load,
    /// It is looked for files of that name; `counter` names have been tried.
    Look { name: String, counter: u32 },
    /// The image is copied.
    Copy { name: String },
    /// The copy is measured.
    Measure { name: String },
    /// The copy is read for its checksum.
    Read { name: String, resolution: Option<String> },
    /// The time is asked for.
    Clock { name: String, resolution: Option<String>, checksum: Option<String> },
    /// The file that describes the favorite is written.
    Write(FavoriteFile),
    Over,
}

/// What is to be done next.
pub enum SaveAction {
    MakeDir(String),
    LoadAll,
    LookFor { image: String, metadata: String },
    CopyFile { from: String, to: String },
    MeasureImage(String),
    ReadFile(String),
    AskTime,
    WriteMetadata { path: String, file: FavoriteFile },
    Finish(Result<FavoriteEntry, WallpaperError>),
}

/// What an action brought about.
pub enum SaveEvent {
    Outcome(Result<(), WallpaperError>),
    Loaded(Result<Vec<FavoriteEntry>, WallpaperError>),
    Present { image: bool, metadata: bool },
    Size(Option<(u32, u32)>),
    Contents(Result<Option<Vec<u8>>, WallpaperError>),
    /// The seconds since the epoch.
    Time(u64),
}

/// Whether an event can follow the action of a stage.
pub open spec fn save_fits(at: SaveStage, event: SaveEvent) -> bool {
    match at {
        SaveStage::MakeDir | SaveStage::Copy { .. } | SaveStage::Write(_) => event is Outcome,
        SaveStage::Load => event is Loaded,
        SaveStage::Look { counter, .. } => event is Present && counter < u32::MAX,
        SaveStage::Measure { .. } => event is Size,
        SaveStage::Read { .. } => event is Contents,
        SaveStage::Clock { .. } => event is Time,
        SaveStage::Over => false,
    }
}

/// The `counter`th name that is tried.
pub open spec fn unique_name(base: Seq<char>, counter: int) -> Seq<char> {
    if counter <= 1 {
        base
    } else {
        base + "-"@ + decimal(counter as nat)
    }
}

proof fn lemma_unique_name_has_no_slash(base: Seq<char>, counter: int)
    requires
        !base.contains('/'),
    ensures
        !unique_name(base, counter).contains('/'),
{
    reveal_strlit("-");
    lemma_decimal(counter as nat);
    let name = unique_name(base, counter);
    let digits = decimal(counter as nat);
    assert forall|i: int| 0 <= i < name.len() implies name[i] != '/' by {
        if i < base.len() {
            assert(name[i] == base[i]);
        } else if i > base.len() {
            assert(name[i] == digits[i - base.len() - 1]);
            assert(is_digit(digits[i - base.len() - 1]));
        }
    }
}

/// The name of the image of a favorite whose files have the given name.
pub open spec fn stored_name(c: CandidateView, name: Seq<char>) -> Seq<char> {
    name + dotted_extension(c.local_path)
}

/// The image of a favorite whose files have the given name.
pub open spec fn stored_image(c: CandidateView, dir: Seq<char>, name: Seq<char>) -> Seq<char> {
    path_join(dir, stored_name(c, name))
}

/// The file that describes a favorite whose files have the given name.
pub open spec fn stored_metadata(dir: Seq<char>, name: Seq<char>) -> Seq<char> {
    path_join(dir, name + ".json"@)
}

/// What is written about a favorite.
pub open spec fn new_favorite(
    c: CandidateView,
    name: Seq<char>,
    resolution: Option<Seq<char>>,
    checksum: Option<Seq<char>>,
    time: u64,
) -> FavoriteView {
    FavoriteView {
        id: c.id,
        source: c.source,
        title: c.title,
        description: c.description,
        attribution: c.attribution,
        info_url: c.info_url,
        original_url: Some(c.image_url),
        date: c.date,
        resolution,
        checksum,
        metadata_xml: c.metadata_xml,
        stored_filename: stored_name(c, name),
        created_at: time,
    }
}

/// Whether the saving ends with `error`.
pub open spec fn save_fails(error: ErrorView, next: SaveStage, action: SaveAction) -> bool {
    &&& next is Over
    &&& action matches SaveAction::Finish(Err(e)) && e@ == error
}

/// Whether it is looked for files of the `counter`th name, which has no slash.
pub open spec fn tries_name(
    c: CandidateView,
    dir: Seq<char>,
    counter: int,
    next: SaveStage,
    action: SaveAction,
) -> bool {
    let tried = unique_name(base_name(c), counter);
    &&& !tried.contains('/')
    &&& next matches SaveStage::Look { name, counter: k } && name@ == tried && k == counter
    &&& action matches SaveAction::LookFor { image, metadata } && image@ == stored_image(
        c,
        dir,
        tried,
    ) && metadata@ == stored_metadata(dir, tried)
}

/// Whether the saving of `c` at the stage `at` goes on to `next` with `action` after `event`.
pub open spec fn save_advances(
    c: CandidateView,
    dir: Seq<char>,
    at: SaveStage,
    event: SaveEvent,
    next: SaveStage,
    action: SaveAction,
) -> bool {
    match (at, event) {
        (SaveStage::MakeDir, SaveEvent::Outcome(Ok(_))) => next is Load && action is LoadAll,
        (SaveStage::Load, SaveEvent::Loaded(Err(e))) => save_fails(e@, next, action),
        (SaveStage::Load, SaveEvent::Loaded(Ok(entries))) => if has_id(entries@, c.id) {
            save_fails(
                ErrorView::Message("Candidate "@ + c.id + " is already in favorites."@),
                next,
                action,
            )
        } else {
            tries_name(c, dir, 1, next, action)
        },
        (SaveStage::Look { name, counter }, SaveEvent::Present { image, metadata }) => {
            if image || metadata {
                tries_name(c, dir, counter + 1, next, action)
            } else {
                &&& next matches SaveStage::Copy { name: n } && n == name
                &&& action matches SaveAction::CopyFile { from, to } && from@ == c.local_path
                    && to@ == stored_image(c, dir, name@)
            }
        },
        (SaveStage::Copy { name }, SaveEvent::Outcome(Ok(_))) => {
            &&& next matches SaveStage::Measure { name: n } && n == name
            &&& action matches SaveAction::MeasureImage(path) && path@ == stored_image(
                c,
                dir,
                name@,
            )
        },
        (SaveStage::Measure { name }, SaveEvent::Size(size)) => {
            &&& next matches SaveStage::Read { name: n, resolution } && n == name && opt_text(
                resolution,
            ) == resolution_text(size)
            &&& action matches SaveAction::ReadFile(path) && path@ == stored_image(c, dir, name@)
        },
        (SaveStage::Read { .. }, SaveEvent::Contents(Err(e))) => save_fails(e@, next, action),
        (SaveStage::Read { name, resolution }, SaveEvent::Contents(Ok(contents))) => {
            &&& next matches SaveStage::Clock { name: n, resolution: r, checksum } && n == name && r
                == resolution && opt_text(checksum) == match contents {
                Some(bytes) => Some(checksum_text(bytes@)),
                None => None,
            }
            &&& action is AskTime
        },
        (SaveStage::Clock { name, resolution, checksum }, SaveEvent::Time(time)) => {
            let written = new_favorite(
                c,
                name@,
                opt_text(resolution),
                opt_text(checksum),
                time,
            );
            &&& next matches SaveStage::Write(kept) && kept@ == written
            &&& action matches SaveAction::WriteMetadata { path, file } && path@
                == stored_metadata(dir, name@) && file@ == written
        },
        (SaveStage::Write(file), SaveEvent::Outcome(Ok(_))) => {
            &&& next is Over
            &&& action matches SaveAction::Finish(Ok(entry)) && entry.is_of(file@, dir)
        },
        (SaveStage::MakeDir, SaveEvent::Outcome(Err(e))) | (
            SaveStage::Copy { .. },
            SaveEvent::Outcome(Err(e)),
        ) | (SaveStage::Write(_), SaveEvent::Outcome(Err(e))) => save_fails(e@, next, action),
        _ => false,
    }
}

fn save_fail(error: WallpaperError) -> (r: (SaveStage, SaveAction))
    ensures
        save_fails(error@, r.0, r.1),
{
    (SaveStage::Over, SaveAction::Finish(Err(error)))
}

fn image_name(candidate: &WallpaperCandidate, name: &str) -> (r: String)
    ensures
        r@ == stored_name(candidate@, name@),
{
    let mut out = name.to_string();
    out.append(image_extension(candidate.local_path.as_str()).as_str());
    out
}

impl FavoritesManager {
    fn image_path(&self, candidate: &WallpaperCandidate, name: &str) -> (r: String)
        ensures
            r@ == stored_image(candidate@, self.base_dir@, name@),
    {
        join_path(self.base_dir.as_str(), image_name(candidate, name).as_str())
    }

    fn metadata_path(&self, name: &str) -> (r: String)
        ensures
            r@ == stored_metadata(self.base_dir@, name@),
    {
        let mut file = name.to_string();
        file.append(".json");
        join_path(self.base_dir.as_str(), file.as_str())
    }

    fn try_name(&self, candidate: &WallpaperCandidate, counter: u32) -> (r: (
        SaveStage,
        SaveAction,
    ))
        ensures
            tries_name(candidate@, self.base_dir@, counter as int, r.0, r.1),
    {
        let mut name = build_favorite_basename(candidate);
        proof {
            lemma_unique_name_has_no_slash(name@, counter as int);
        }
        if counter > 1 {
            name.append("-");
            name.append(u64_text(counter as u64).as_str());
        }
        let action = SaveAction::LookFor {
            image: self.image_path(candidate, name.as_str()),
            metadata: self.metadata_path(name.as_str()),
        };
        (SaveStage::Look { name, counter }, action)
    }

    /// Begins to save a candidate as a favorite: the directory is made.
    pub fn save_favorite(&self) -> (r: (SaveStage, SaveAction))
        ensures
            r.0 is MakeDir,
            r.1 matches SaveAction::MakeDir(dir) && dir@ == self.base_dir@,
    {
        (SaveStage::MakeDir, SaveAction::MakeDir(self.base_dir.clone()))
    }

    /// The next stage and action of saving a candidate as a favorite.
    pub fn save_step(
        &self,
        candidate: &WallpaperCandidate,
        at: SaveStage,
        event: SaveEvent,
    ) -> (r: (SaveStage, SaveAction))
        requires
            save_fits(at, event),
        ensures
            save_advances(candidate@, self.base_dir@, at, event, r.0, r.1),
    {
        match (at, event) {
            (SaveStage::MakeDir, SaveEvent::Outcome(Ok(_))) => (
                SaveStage::Load,
                SaveAction::LoadAll,
            ),
            (SaveStage::Load, SaveEvent::Loaded(Err(e))) => save_fail(e),
            (SaveStage::Load, SaveEvent::Loaded(Ok(entries))) => {
                if self.is_favorited(&entries, candidate.id.as_str()) {
                    let mut text = "Candidate ".to_string();
                    text.append(candidate.id.as_str());
                    text.append(" is already in favorites.");
                    return save_fail(WallpaperError::Message(text));
                }
                self.try_name(candidate, 1)
            },
            (SaveStage::Look { name, counter }, SaveEvent::Present { image, metadata }) => {
                if image || metadata {
                    return self.try_name(candidate, counter + 1);
                }
                let action = SaveAction::CopyFile {
                    from: candidate.local_path.clone(),
                    to: self.image_path(candidate, name.as_str()),
                };
                (SaveStage::Copy { name }, action)
            },
            (SaveStage::Copy { name }, SaveEvent::Outcome(Ok(_))) => {
                let action = SaveAction::MeasureImage(self.image_path(candidate, name.as_str()));
                (SaveStage::Measure { name }, action)
            },
            (SaveStage::Measure { name }, SaveEvent::Size(size)) => {
                let action = SaveAction::ReadFile(self.image_path(candidate, name.as_str()));
                (SaveStage::Read { name, resolution: detect_resolution(size) }, action)
            },
            (SaveStage::Read { .. }, SaveEvent::Contents(Err(e))) => save_fail(e),
            (SaveStage::Read { name, resolution }, SaveEvent::Contents(Ok(contents))) => {
                let checksum = match contents {
                    Some(bytes) => Some(compute_checksum(&bytes)),
                    None => None,
                };
                (SaveStage::Clock { name, resolution, checksum }, SaveAction::AskTime)
            },
            (SaveStage::Clock { name, resolution, checksum }, SaveEvent::Time(time)) => {
                let file = FavoriteFile {
                    id: candidate.id.clone(),
                    source: candidate.source,
                    title: candidate.title.clone(),
                    description: candidate.description.clone(),
                    attribution: candidate.attribution.clone(),
                    info_url: candidate.info_url.clone(),
                    original_url: Some(candidate.image_url.clone()),
                    date: candidate.date.clone(),
                    resolution,
                    checksum,
                    metadata_xml: candidate.metadata_xml.clone(),
                    stored_filename: image_name(candidate, name.as_str()),
                    created_at: time,
                };
                let action = SaveAction::WriteMetadata {
                    path: self.metadata_path(name.as_str()),
                    file: file.clone(),
                };
                (SaveStage::Write(file), action)
            },
            (SaveStage::Write(file), SaveEvent::Outcome(Ok(_))) => (
                SaveStage::Over,
                SaveAction::Finish(Ok(entry_of(file, self.base_dir.as_str()))),
            ),
            (SaveStage::MakeDir, SaveEvent::Outcome(Err(e))) => save_fail(e),
            (SaveStage::Copy { .. }, SaveEvent::Outcome(Err(e))) => save_fail(e),
            (SaveStage::Write(_), SaveEvent::Outcome(Err(e))) => save_fail(e),
            _ => vstd::pervasive::unreached(),
        }
    }
}

// ------------------------------------------------------------------------------------------
// Laws
// ------------------------------------------------------------------------------------------

/// A course of saving a favorite: the stages that it goes through, the event at each of them,
/// and the action that follows the event.
pub struct SaveCourse {
    pub stages: Seq<SaveStage>,
    pub events: Seq<SaveEvent>,
    pub actions: Seq<SaveAction>,
}

/// Whether the step `i` of a course is one that the saving takes.
pub open spec fn save_step_taken(c: CandidateView, dir: Seq<char>, s: SaveCourse, i: int) -> bool {
    &&& save_fits(s.stages[i], s.events[i])
    &&& save_advances(c, dir, s.stages[i], s.events[i], s.stages[i + 1], s.actions[i])
}

/// Whether the saving of a candidate can take this course.
pub open spec fn save_possible(c: CandidateView, dir: Seq<char>, s: SaveCourse) -> bool {
    &&& s.stages.len() == s.events.len() + 1
    &&& s.actions.len() == s.events.len()
    &&& s.stages[0] is MakeDir
    &&& forall|i: int| 0 <= i < s.events.len() ==> #[trigger] save_step_taken(c, dir, s, i)
}

/// Whether `action` looks for the given image.
pub open spec fn looked_for(action: SaveAction, path: Seq<char>) -> bool {
    action matches SaveAction::LookFor { image, .. } && image@ == path
}

/// Saving overwrites nothing: an image is copied only to where it has just been looked for and
/// not found, with no description of that name either.
pub proof fn saving_overwrites_nothing(c: CandidateView, dir: Seq<char>, s: SaveCourse, i: int)
    requires
        save_possible(c, dir, s),
        0 <= i < s.actions.len(),
        s.actions[i] is CopyFile,
    ensures
        i > 0,
        s.events[i] == (SaveEvent::Present { image: false, metadata: false }),
        s.actions[i] matches SaveAction::CopyFile { from, to } && from@ == c.local_path
            && looked_for(s.actions[i - 1], to@),
{
    assert(save_step_taken(c, dir, s, i));
    assert(s.stages[i] is Look);
    assert(save_step_taken(c, dir, s, i - 1));
}

/// A favorite that was saved is the one that loading the file that was written about it gives.
pub proof fn saved_favorite_loads_back(c: CandidateView, dir: Seq<char>, s: SaveCourse, i: int)
    requires
        save_possible(c, dir, s),
        0 <= i < s.actions.len(),
        s.actions[i] matches SaveAction::Finish(Ok(_)),
    ensures
        i > 0,
        s.actions[i] matches SaveAction::Finish(Ok(entry)) && s.actions[i
            - 1] matches SaveAction::WriteMetadata { file, .. } && entry.is_of(file@, dir)
            && entry.id@ == c.id,
{
    assert(save_step_taken(c, dir, s, i));
    assert(s.stages[i] is Write);
    assert(save_step_taken(c, dir, s, i - 1));
}

/// A candidate whose id is among the favorites is not saved again.
pub proof fn favorites_are_not_saved_twice(
    c: CandidateView,
    dir: Seq<char>,
    s: SaveCourse,
    k: int,
    i: int,
)
    requires
        save_possible(c, dir, s),
        0 <= k <= i < s.actions.len(),
        s.stages[k] is Load,
        s.events[k] matches SaveEvent::Loaded(Ok(entries)) && has_id(entries@, c.id),
    ensures
        i == k,
        s.actions[i] matches SaveAction::Finish(Err(_)),
{
    assert(save_step_taken(c, dir, s, k));
    if i > k {
        assert(save_step_taken(c, dir, s, k + 1));
    }
}

pub(crate) proof fn lemma_plain_name(name: Seq<char>, ext: Seq<char>)
    requires
        name.len() > 0,
        !name.contains('/'),
        !ext.contains('/'),
        !ext.contains('.'),
    ensures
        trim_tail(name + seq!['.'] + ext) == name + seq!['.'] + ext,
        dir_len(name + seq!['.'] + ext) == 0,
        last_dot(name + seq!['.'] + ext) == Some(name.len() as int),
{
    let t = name + seq!['.'] + ext;
    assert forall|i: int| 0 <= i < t.len() implies t[i] != '/' by {
        if i < name.len() {
            assert(name.contains(name[i]));
        } else if i > name.len() {
            assert(ext.contains(ext[i - name.len() - 1]));
        }
    }
    assert(t.last() != '/');
    assert(t[t.len() - 2] != '/');
    lemma_no_dir(t);
    assert forall|i: int| name.len() < i < t.len() implies t[i] != '.' by {
        assert(ext.contains(ext[i - name.len() - 1]));
    }
    lemma_last_dot_at(t, name.len() as int);
}

proof fn lemma_no_dir(t: Seq<char>)
    requires
        forall|i: int| 0 <= i < t.len() ==> t[i] != '/',
    ensures
        dir_len(t) == 0,
    decreases t.len(),
{
    if t.len() > 0 {
        lemma_no_dir(t.drop_last());
    }
}

proof fn lemma_last_dot_at(t: Seq<char>, n: int)
    requires
        0 < n < t.len(),
        t[n] == '.',
        forall|i: int| n < i < t.len() ==> t[i] != '.',
    ensures
        last_dot(t) == Some(n),
    decreases t.len(),
{
    if t.last() != '.' {
        assert(n < t.len() - 1);
        lemma_last_dot_at(t.drop_last(), n);
    } else {
        assert(n == t.len() - 1);
    }
}

pub(crate) proof fn lemma_extension_is_plain(path: Seq<char>)
    ensures
        extension(path) matches Some(ext) ==> !ext.contains('/') && !ext.contains('.'),
{
    if let Some(name) = file_name(path) {
        if let Some(dot) = last_dot(name) {
            lemma_after_last_dot(name);
            let q = trim_tail(path);
            lemma_after_dir(q);
            let ext = name.skip(dot + 1);
            assert forall|i: int| 0 <= i < ext.len() implies ext[i] != '/' && ext[i] != '.' by {
                assert(ext[i] == name[dot + 1 + i]);
                assert(name[dot + 1 + i] == q[dir_len(q) + dot + 1 + i]);
            }
        }
    }
}

proof fn lemma_after_last_dot(name: Seq<char>)
    ensures
        match last_dot(name) {
            Some(n) => 0 < n < name.len() && forall|i: int| n < i < name.len() ==> name[i] != '.',
            None => true,
        },
    decreases name.len(),
{
    if name.len() > 1 && name.last() != '.' {
        lemma_after_last_dot(name.drop_last());
        if let Some(n) = last_dot(name) {
            assert forall|i: int| n < i < name.len() implies name[i] != '.' by {
                if i < name.len() - 1 {
                    assert(name.drop_last()[i] == name[i]);
                }
            }
        }
    }
}

proof fn lemma_after_dir(q: Seq<char>)
    ensures
        0 <= dir_len(q) <= q.len(),
        forall|i: int| dir_len(q) <= i < q.len() ==> q[i] != '/',
    decreases q.len(),
{
    if q.len() > 0 && q.last() != '/' {
        lemma_after_dir(q.drop_last());
        assert forall|i: int| dir_len(q) <= i < q.len() implies q[i] != '/' by {
            if i < q.len() - 1 {
                assert(q.drop_last()[i] == q[i]);
            }
        }
    }
}

/// The name under which an image is stored leads back to the description, whatever the extension
/// of the image.
pub(crate) proof fn lemma_description_of(c: CandidateView, dir: Seq<char>, name: Seq<char>)
    requires
        name.len() > 1,
        !name.contains('/'),
    ensures
        path_join(dir, with_extension(stored_name(c, name), "json"@)) == stored_metadata(
            dir,
            name,
        ),
{
    reveal_strlit(".");
    reveal_strlit(".jpg");
    reveal_strlit(".json");
    reveal_strlit("json");
    lemma_extension_is_plain(c.local_path);
    let ext = match extension(c.local_path) {
        Some(e) => e,
        None => seq!['j', 'p', 'g'],
    };
    assert(!seq!['j', 'p', 'g'].contains('/') && !seq!['j', 'p', 'g'].contains('.'));
    let stored = name + seq!['.'] + ext;
    assert(stored_name(c, name) =~= stored);
    lemma_plain_name(name, ext);
    assert(stored.skip(0) =~= stored);
    assert(stored.len() > 2);
    assert(with_extension(stored, "json"@) =~= name + ".json"@);
}

spec fn all_are(s: Seq<char>, p: spec_fn(char) -> bool) -> bool {
    forall|i: int| 0 <= i < s.len() ==> p(#[trigger] s[i])
}

spec fn fits_name(s: Seq<char>) -> bool {
    all_are(s, |c: char| (c as u32) < 128 && c != '/' && c != '.')
}

proof fn lemma_trim_start_all(s: Seq<char>, k: Class, p: spec_fn(char) -> bool)
    requires
        all_are(s, p),
    ensures
        all_are(trim_start(s, k), p),
    decreases s.len(),
{
    if s.len() > 0 && k.has(s[0]) {
        let t = s.drop_first();
        assert forall|i: int| 0 <= i < t.len() implies p(#[trigger] t[i]) by {
            assert(t[i] == s[i + 1]);
        }
        lemma_trim_start_all(t, k, p);
    }
}

proof fn lemma_trim_end_all(s: Seq<char>, k: Class, p: spec_fn(char) -> bool)
    requires
        all_are(s, p),
    ensures
        all_are(trim_end(s, k), p),
    decreases s.len(),
{
    if s.len() > 0 && k.has(s.last()) {
        let t = s.drop_last();
        assert forall|i: int| 0 <= i < t.len() implies p(#[trigger] t[i]) by {
            assert(t[i] == s[i]);
        }
        lemma_trim_end_all(t, k, p);
    }
}

proof fn lemma_single_hyphens_all(s: Seq<char>, p: spec_fn(char) -> bool)
    requires
        all_are(s, p),
    ensures
        all_are(single_hyphens(s), p),
    decreases s.len(),
{
    if s.len() > 0 {
        let t = s.drop_last();
        assert forall|i: int| 0 <= i < t.len() implies p(#[trigger] t[i]) by {
            assert(t[i] == s[i]);
        }
        lemma_single_hyphens_all(t, p);
        assert(p(s[s.len() - 1]));
    }
}

/// What is left of a text between its hyphens, before its letters are made small.
spec fn cleaned_part(s: Seq<char>) -> Seq<char> {
    trimmed(single_hyphens(s.map_values(|c: char| name_char(c))), Class::One('-'))
}

proof fn lemma_cleaned_part_all(s: Seq<char>, p: spec_fn(char) -> bool)
    requires
        all_are(s.map_values(|c: char| name_char(c)), p),
    ensures
        all_are(cleaned_part(s), p),
{
    let mapped = s.map_values(|c: char| name_char(c));
    let single = single_hyphens(mapped);
    lemma_single_hyphens_all(mapped, p);
    lemma_trim_start_all(single, Class::One('-'), p);
    lemma_trim_end_all(trim_start(single, Class::One('-')), Class::One('-'), p);
}

proof fn lemma_cleaned_part_has_no_slash(s: Seq<char>)
    ensures
        !cleaned_part(s).contains('/'),
{
    let p = |c: char| c != '/';
    lemma_cleaned_part_all(s, p);
    let t = cleaned_part(s);
    assert forall|i: int| 0 <= i < t.len() implies t[i] != '/' by {
        assert(p(t[i]));
    }
}

proof fn lemma_name_part_fits(s: Seq<char>)
    requires
        all_ascii(s),
    ensures
        fits_name(name_part(s)),
{
    let p = |c: char| (c as u32) < 128 && c != '/' && c != '.';
    let mapped = s.map_values(|c: char| name_char(c));
    assert forall|i: int| 0 <= i < mapped.len() implies p(#[trigger] mapped[i]) by {
        assert((s[i] as u32) < 128);
    }
    lemma_cleaned_part_all(s, p);
    let t = cleaned_part(s);
    assert(all_ascii(t)) by {
        assert forall|i: int| 0 <= i < t.len() implies (#[trigger] t[i] as u32) < 128 by {
            assert(p(t[i]));
        }
    }
    let low = lowercase(t);
    assert forall|i: int| 0 <= i < low.len() implies p(#[trigger] low[i]) by {
        assert(low[i] == ascii_lower(t[i]));
        assert(p(t[i]));
    }
}

/// The names of the files of a favorite with a title, id and date in ASCII have neither dots
/// nor slashes.
pub proof fn favorite_names_are_plain(c: CandidateView, counter: int)
    requires
        all_ascii(c.id),
        all_ascii(c.date),
        c.title matches Some(t) ==> all_ascii(t),
    ensures
        unique_name(base_name(c), counter).len() > 1,
        !unique_name(base_name(c), counter).contains('/'),
        !unique_name(base_name(c), counter).contains('.'),
{
    reveal_strlit("-");
    reveal_strlit("favorite");
    reveal_strlit("bing");
    reveal_strlit("spotlight");
    reveal_strlit("apod");
    reveal_strlit("modis");
    let title = match c.title {
        Some(t) if t.len() > 0 => t,
        _ => c.id,
    };
    lemma_name_part_fits(dir_name(c.source));
    lemma_name_part_fits(c.date);
    lemma_name_part_fits(title);
    let a = name_part(dir_name(c.source));
    let b = name_part(c.date);
    let d = name_part(title);
    let joined = a + "-"@ + b + "-"@ + d;
    assert(fits_name(joined)) by {
        assert forall|i: int| 0 <= i < joined.len() implies (#[trigger] joined[i] as u32) < 128
            && joined[i] != '/' && joined[i] != '.' by {
            if i < a.len() {
                assert(joined[i] == a[i]);
            } else if i == a.len() {
            } else if i < a.len() + 1 + b.len() {
                assert(joined[i] == b[i - a.len() - 1]);
            } else if i == a.len() + 1 + b.len() {
            } else {
                assert(joined[i] == d[i - a.len() - b.len() - 2]);
            }
        }
    }
    let base = base_name(c);
    assert(fits_name(base));
    let name = unique_name(base, counter);
    lemma_decimal(counter as nat);
    let digits = decimal(counter as nat);
    assert forall|i: int| 0 <= i < name.len() implies name[i] != '/' && name[i] != '.' by {
        if i < base.len() {
            assert(name[i] == base[i]);
        } else if i > base.len() {
            assert(name[i] == digits[i - base.len() - 1]);
            assert(is_digit(digits[i - base.len() - 1]));
        }
    }
}

/// What is loaded is what the file says: each of its values, and the image of its name in the
/// directory.
pub proof fn favorite_is_as_its_file_says(entry: FavoriteEntry, file: FavoriteFile, dir: Seq<char>)
    requires
        entry.is_of(file@, dir),
    ensures
        entry.id@ == file.id@,
        entry.source == file.source,
        opt_text(entry.title) == opt_text(file.title),
        opt_text(entry.description) == opt_text(file.description),
        opt_text(entry.attribution) == opt_text(file.attribution),
        opt_text(entry.info_url) == opt_text(file.info_url),
        opt_text(entry.original_url) == opt_text(file.original_url),
        entry.date@ == file.date@,
        opt_text(entry.resolution) == opt_text(file.resolution),
        opt_text(entry.checksum) == opt_text(file.checksum),
        opt_text(entry.metadata_xml) == opt_text(file.metadata_xml),
        entry.stored_filename@ == file.stored_filename@,
        entry.created_at == file.created_at,
        entry.image_path@ == path_join(dir, file.stored_filename@),
{
    assert(entry.file() == file@);
    assert(entry.file().id == file@.id);
    assert(entry.file().title == file@.title);
    assert(entry.file().description == file@.description);
    assert(entry.file().attribution == file@.attribution);
    assert(entry.file().info_url == file@.info_url);
    assert(entry.file().original_url == file@.original_url);
    assert(entry.file().date == file@.date);
    assert(entry.file().resolution == file@.resolution);
    assert(entry.file().checksum == file@.checksum);
    assert(entry.file().metadata_xml == file@.metadata_xml);
    assert(entry.file().stored_filename == file@.stored_filename);
}

/// A favorite is written with all that is known of the wallpaper: what the candidate says, the
/// size and the checksum of the copy, and the time; and it names the copy by the name of its
/// files.
pub proof fn favorite_keeps_what_is_known(
    c: CandidateView,
    dir: Seq<char>,
    name: String,
    resolution: Option<String>,
    checksum: Option<String>,
    time: u64,
    next: SaveStage,
    action: SaveAction,
)
    requires
        save_advances(
            c,
            dir,
            SaveStage::Clock { name, resolution, checksum },
            SaveEvent::Time(time),
            next,
            action,
        ),
    ensures
        action matches SaveAction::WriteMetadata { path, file } && {
            &&& path@ == path_join(dir, name@ + ".json"@)
            &&& file.id@ == c.id
            &&& file.source == c.source
            &&& opt_text(file.title) == c.title
            &&& opt_text(file.description) == c.description
            &&& opt_text(file.attribution) == c.attribution
            &&& opt_text(file.info_url) == c.info_url
            &&& opt_text(file.original_url) == Some(c.image_url)
            &&& file.date@ == c.date
            &&& opt_text(file.resolution) == opt_text(resolution)
            &&& opt_text(file.checksum) == opt_text(checksum)
            &&& opt_text(file.metadata_xml) == c.metadata_xml
            &&& file.created_at == time
            &&& file.stored_filename@ == name@ + dotted_extension(c.local_path)
        },
{
    if let SaveAction::WriteMetadata { path, file } = action {
        let w = new_favorite(c, name@, opt_text(resolution), opt_text(checksum), time);
        assert(file@ == w);
        assert(file@.id == w.id);
        assert(file@.title == w.title);
        assert(file@.description == w.description);
        assert(file@.attribution == w.attribution);
        assert(file@.info_url == w.info_url);
        assert(file@.original_url == w.original_url);
        assert(file@.date == w.date);
        assert(file@.resolution == w.resolution);
        assert(file@.checksum == w.checksum);
        assert(file@.metadata_xml == w.metadata_xml);
        assert(file@.stored_filename == w.stored_filename);
    }
}

/// The copy is made from the wallpaper's own file, into the directory; it is this copy that is
/// measured and summed.
pub proof fn own_file_is_copied_and_measured(
    c: CandidateView,
    dir: Seq<char>,
    name: String,
    counter: u32,
    a: SaveStage,
    copied: SaveAction,
    b: SaveStage,
    measured: SaveAction,
    size: Option<(u32, u32)>,
    d: SaveStage,
    read: SaveAction,
    bytes: Vec<u8>,
    e: SaveStage,
    asked: SaveAction,
)
    requires
        save_advances(
            c,
            dir,
            SaveStage::Look { name, counter },
            SaveEvent::Present { image: false, metadata: false },
            a,
            copied,
        ),
        save_advances(c, dir, a, SaveEvent::Outcome(Ok(())), b, measured),
        save_advances(c, dir, b, SaveEvent::Size(size), d, read),
        save_advances(c, dir, d, SaveEvent::Contents(Ok(Some(bytes))), e, asked),
    ensures
        copied matches SaveAction::CopyFile { from, to } && from@ == c.local_path && to@
            == path_join(dir, name@ + dotted_extension(c.local_path)),
        measured matches SaveAction::MeasureImage(path) && path@ == copied->to@,
        read matches SaveAction::ReadFile(path) && path@ == copied->to@,
        e matches SaveStage::Clock { name: n, resolution, checksum } && n == name && opt_text(
            checksum,
        ) == Some(checksum_text(bytes@)) && (size matches Some(s) ==> opt_text(resolution) == Some(
            decimal(s.0 as nat) + "x"@ + decimal(s.1 as nat),
        )) && (size is None ==> resolution is None),
{
}

/// Names that are tried for different numbers are different, and begin with the name of the
/// favorite.
pub proof fn tried_names_are_different(base: Seq<char>, a: int, b: int)
    requires
        1 <= a < b,
    ensures
        unique_name(base, a) != unique_name(base, b),
        unique_name(base, 1) == base,
        unique_name(base, b).len() > base.len(),
        unique_name(base, b).take(base.len() as int) == base,
{
    reveal_strlit("-");
    lemma_decimal(a as nat);
    lemma_decimal(b as nat);
    let y = base + "-"@ + decimal(b as nat);
    assert(y.take(base.len() as int) =~= base);
    if a > 1 {
        let x = base + "-"@ + decimal(a as nat);
        if x == y {
            assert(x.skip(base.len() as int + 1) =~= decimal(a as nat));
            assert(y.skip(base.len() as int + 1) =~= decimal(b as nat));
            crate::number::decimal_reads_back(a as nat, b);
            crate::number::decimal_reads_back(b as nat, b);
        }
    }
}

/// The extension of an image stays; one without gets that of a photograph.
pub proof fn extension_of_the_image_stays(path: Seq<char>)
    ensures
        extension(path) matches Some(ext) ==> dotted_extension(path) == seq!['.'] + ext,
        extension(path) is None ==> dotted_extension(path) == ".jpg"@,
{
    reveal_strlit(".");
    if let Some(ext) = extension(path) {
        assert("."@ + ext =~= seq!['.'] + ext);
    }
}

/// What fails while a favorite is saved is told as it is, and ends the saving.
pub proof fn failed_saving_is_told(
    c: CandidateView,
    dir: Seq<char>,
    at: SaveStage,
    event: SaveEvent,
    e: WallpaperError,
    next: SaveStage,
    action: SaveAction,
)
    requires
        save_advances(c, dir, at, event, next, action),
        event == SaveEvent::Outcome(Err(e)) || event == SaveEvent::Loaded(Err(e)) || event
            == SaveEvent::Contents(Err(e)),
    ensures
        next is Over,
        action matches SaveAction::Finish(Err(told)) && told@ == e@,
{
}

/// A wallpaper whose id is among the favorites is refused; any other is saved under the first
/// name that is not taken.
pub proof fn known_favorite_is_refused(
    c: CandidateView,
    dir: Seq<char>,
    entries: Vec<FavoriteEntry>,
    next: SaveStage,
    action: SaveAction,
)
    requires
        save_advances(c, dir, SaveStage::Load, SaveEvent::Loaded(Ok(entries)), next, action),
    ensures
        (exists|i: int| 0 <= i < entries@.len() && (#[trigger] entries@[i]).id@ == c.id) ==> (
        action matches SaveAction::Finish(Err(told)) && told@ == ErrorView::Message(
            "Candidate "@ + c.id + " is already in favorites."@,
        )),
        (forall|i: int| 0 <= i < entries@.len() ==> (#[trigger] entries@[i]).id@ != c.id) ==> (
        action matches SaveAction::LookFor { image, metadata } && image@ == path_join(
            dir,
            base_name(c) + dotted_extension(c.local_path),
        ) && metadata@ == path_join(dir, base_name(c) + ".json"@)),
{
}

/// What is saved in the end is what was written, with its image in the directory.
pub proof fn saved_favorite_is_what_was_written(
    c: CandidateView,
    dir: Seq<char>,
    file: FavoriteFile,
    next: SaveStage,
    action: SaveAction,
)
    requires
        save_advances(
            c,
            dir,
            SaveStage::Write(file),
            SaveEvent::Outcome(Ok(())),
            next,
            action,
        ),
    ensures
        action matches SaveAction::Finish(Ok(entry)) && entry.id@ == file.id@ && entry.image_path@
            == path_join(dir, file.stored_filename@) && entry.stored_filename@
            == file.stored_filename@,
{
    if let SaveAction::Finish(Ok(entry)) = action {
        favorite_is_as_its_file_says(entry, file, dir);
    }
}

/// A description whose image is missing gives no favorite, and neither does a second one of the
/// same id; any other gives one more, behind those before it.
pub proof fn favorite_needs_its_image(
    dir: Seq<char>,
    file: FavoriteFile,
    paths: Vec<String>,
    at: usize,
    found: Vec<FavoriteEntry>,
    there: bool,
    next: LoadStage,
    action: LoadAction,
)
    requires
        load_advances(
            dir,
            LoadStage::Check { file, paths, at, found },
            LoadEvent::Found(there),
            next,
            action,
        ),
        action is Finish,
    ensures
        action matches LoadAction::Finish(Ok(list)) && {
            let known = exists|i: int| 0 <= i < found@.len() && (#[trigger] found@[i]).id@
                == file.id@;
            &&& !there || known ==> list@ == found@
            &&& there && !known ==> list@.len() == found@.len() + 1 && list@.drop_last() == found@
                && list@.last().id@ == file.id@ && list@.last().image_path@ == path_join(
                dir,
                file.stored_filename@,
            )
        },
{
    if there && !has_id(found@, file.id@) {
        let entry = choose|entry: FavoriteEntry| #[trigger]
            entry.is_of(file@, dir) && load_goes_on(
                texts(paths@),
                at + 1,
                found@.push(entry),
                next,
                action,
            );
        favorite_is_as_its_file_says(entry, file, dir);
        assert(found@.push(entry).drop_last() =~= found@);
    }
}

/// A description is looked at with its own image; what is not a description is passed over; and
/// what fails is told.
pub proof fn descriptions_are_read_one_by_one(
    dir: Seq<char>,
    at: LoadStage,
    event: LoadEvent,
    next: LoadStage,
    action: LoadAction,
)
    requires
        load_fits(at, event),
        load_advances(dir, at, event, next, action),
    ensures
        action matches LoadAction::ReadMetadata(path) ==> extension(path@) == Some("json"@),
        action matches LoadAction::LookForFile(path) ==> (event matches LoadEvent::Metadata(
            Ok(Some(file)),
        ) && path@ == path_join(dir, file.stored_filename@)),
        event matches LoadEvent::Metadata(Err(e)) ==> (action matches LoadAction::Finish(Err(told))
            && told@ == e@),
        event matches LoadEvent::Listing(Err(e)) ==> (action matches LoadAction::Finish(Err(told))
            && told@ == e@),
        at is LookDir && event == LoadEvent::Found(false) ==> (action matches LoadAction::Finish(
            Ok(list),
        ) && list@.len() == 0),
{
    if let LoadAction::ReadMetadata(path) = action {
        if let LoadStage::Read { paths, at: k, .. } = next {
            lemma_next_is_json(texts(paths@), k as int);
        }
        match (at, event) {
            (LoadStage::List, LoadEvent::Listing(Ok(paths))) => {
                lemma_next_is_json(texts(paths@), 0);
            },
            (LoadStage::Read { paths, at: k, .. }, _) => {
                lemma_next_is_json(texts(paths@), k + 1);
            },
            (LoadStage::Check { paths, at: k, .. }, _) => {
                lemma_next_is_json(texts(paths@), k + 1);
            },
            _ => {},
        }
    }
}

proof fn lemma_next_is_json(paths: Seq<Seq<char>>, at: int)
    requires
        0 <= at,
    ensures
        at <= next_json(paths, at),
        next_json(paths, at) < paths.len() ==> extension(paths[next_json(paths, at)]) == Some(
            "json"@,
        ),
    decreases paths.len() - at,
{
    if !(at >= paths.len() || extension(paths[at]) == Some("json"@)) {
        lemma_next_is_json(paths, at + 1);
    }
}

/// The directory of the favorites is the one that is listed.
pub proof fn own_directory_is_listed(
    dir: Seq<char>,
    at: LoadStage,
    event: LoadEvent,
    next: LoadStage,
    action: LoadAction,
)
    requires
        load_fits(at, event),
        load_advances(dir, at, event, next, action),
    ensures
        at is LookDir && event == LoadEvent::Found(true) ==> action is ListDir,
        action matches LoadAction::ListDir(path) ==> path@ == dir,
{
}

} // verus!

//! What a directory of favorites holds: what loading gives of it, and what saving and removing
//! a favorite change about that.

use crate::favorites::{
    FavoriteEntry, FavoriteView, LoadAction, LoadEvent, LoadStage, SaveAction, SaveCourse,
    SaveEvent, SaveStage, base_name, has_id, lemma_extension_is_plain, lemma_plain_name,
    load_advances, load_fits, load_goes_on, next_json, lemma_description_of,
    save_possible, save_step_taken, stored_image, stored_metadata, stored_name, unique_name,
};
use crate::model::CandidateView;
use crate::path::{dir_len, extension, file_name, last_dot, path_join, trim_tail, with_extension};
use crate::text::texts;
use vstd::prelude::*;

verus! {

// ------------------------------------------------------------------------------------------
// The directory
// ------------------------------------------------------------------------------------------

/// A directory of favorites.
pub struct Shelf {
    /// The paths that listing the directory gives, in their order.
    pub paths: Seq<Seq<char>>,
    /// What the files say that describe a favorite.
    pub described: Map<Seq<char>, FavoriteView>,
    /// The paths at which there is a file.
    pub present: Set<Seq<char>>,
}

/// Whether a directory lists each of its files once, and the files that describe a favorite are
/// among them.
pub open spec fn shelf_wf(s: Shelf) -> bool {
    &&& s.paths.no_duplicates()
    &&& forall|p: Seq<char>| #[trigger] s.described.dom().contains(p) ==> s.paths.contains(p)
    &&& forall|p: Seq<char>| #[trigger] s.paths.contains(p) ==> s.present.contains(p)
}

/// The image of a favorite.
pub open spec fn image_of(dir: Seq<char>, file: FavoriteView) -> Seq<char> {
    path_join(dir, file.stored_filename)
}

/// Whether the file `p` gives a favorite: it is named as such a file, describes a favorite, and
/// the image is there.
pub open spec fn loadable(dir: Seq<char>, s: Shelf, p: Seq<char>) -> bool {
    &&& extension(p) == Some("json"@)
    &&& s.described.dom().contains(p)
    &&& s.present.contains(image_of(dir, s.described[p]))
}

/// Whether one of the favorites has the given id.
pub open spec fn holds_id(list: Seq<FavoriteView>, id: Seq<char>) -> bool {
    exists|i: int| 0 <= i < list.len() && (#[trigger] list[i]).id == id
}

/// The favorites that the first `n` files of a directory give; of several with one id the first.
pub open spec fn first_loaded(dir: Seq<char>, s: Shelf, n: int) -> Seq<FavoriteView>
    decreases n,
{
    if n <= 0 {
        Seq::empty()
    } else {
        let before = first_loaded(dir, s, n - 1);
        let p = s.paths[n - 1];
        if loadable(dir, s, p) && !holds_id(before, s.described[p].id) {
            before.push(s.described[p])
        } else {
            before
        }
    }
}

/// The favorites that a directory gives.
pub open spec fn loaded(dir: Seq<char>, s: Shelf) -> Seq<FavoriteView> {
    first_loaded(dir, s, s.paths.len() as int)
}

/// What the files of favorites say.
pub open spec fn files_of(list: Seq<FavoriteEntry>) -> Seq<FavoriteView> {
    list.map_values(|e: FavoriteEntry| e.file())
}

/// Whether the images of the favorites lie where their files say.
pub open spec fn all_in(list: Seq<FavoriteEntry>, dir: Seq<char>) -> bool {
    forall|i: int|
        0 <= i < list.len() ==> (#[trigger] list[i]).image_path@ == image_of(dir, list[i].file())
}

proof fn lemma_ids(list: Seq<FavoriteEntry>, id: Seq<char>)
    ensures
        has_id(list, id) <==> holds_id(files_of(list), id),
{
    if has_id(list, id) {
        let i = choose|i: int| 0 <= i < list.len() && (#[trigger] list[i]).id@ == id;
        assert(files_of(list)[i].id == id);
    }
    if holds_id(files_of(list), id) {
        let i = choose|i: int|
            0 <= i < files_of(list).len() && (#[trigger] files_of(list)[i]).id == id;
        assert(list[i].id@ == id);
    }
}

// ------------------------------------------------------------------------------------------
// Loading
// ------------------------------------------------------------------------------------------

/// A course of loading favorites: the stages that it goes through, the event at each of them,
/// and the action that follows the event.
pub struct LoadCourse {
    pub stages: Seq<LoadStage>,
    pub events: Seq<LoadEvent>,
    pub actions: Seq<LoadAction>,
}

/// Whether the step `i` of a course is one that the loading takes.
pub open spec fn load_step_taken(dir: Seq<char>, c: LoadCourse, i: int) -> bool {
    &&& load_fits(c.stages[i], c.events[i])
    &&& load_advances(dir, c.stages[i], c.events[i], c.stages[i + 1], c.actions[i])
}

/// Whether loading the favorites of a directory can take this course.
pub open spec fn load_possible(dir: Seq<char>, c: LoadCourse) -> bool {
    &&& c.stages.len() == c.events.len() + 1
    &&& c.actions.len() == c.events.len()
    &&& c.stages[0] is LookDir
    &&& forall|i: int| 0 <= i < c.events.len() ==> #[trigger] load_step_taken(dir, c, i)
}

/// Whether an event tells what the directory holds.
pub open spec fn load_told(dir: Seq<char>, s: Shelf, at: LoadStage, event: LoadEvent) -> bool {
    match (at, event) {
        (LoadStage::LookDir, LoadEvent::Found(found)) => !found ==> s.paths.len() == 0,
        (LoadStage::List, LoadEvent::Listing(r)) => r matches Ok(paths) && texts(paths@)
            == s.paths,
        (LoadStage::Read { at, .. }, LoadEvent::Metadata(r)) => r matches Ok(told) && match told {
            Some(file) => s.described.dom().contains(s.paths[at as int])
                && s.described[s.paths[at as int]] == file@,
            None => !s.described.dom().contains(s.paths[at as int]),
        },
        (LoadStage::Check { file, .. }, LoadEvent::Found(there)) => there == s.present.contains(
            image_of(dir, file@),
        ),
        _ => true,
    }
}

/// Whether all events of a course tell what the directory holds.
pub open spec fn load_course_told(dir: Seq<char>, s: Shelf, c: LoadCourse) -> bool {
    forall|i: int|
        0 <= i < c.events.len() ==> load_told(dir, s, #[trigger] c.stages[i], c.events[i])
}

spec fn in_step(dir: Seq<char>, s: Shelf, at: LoadStage) -> bool {
    match at {
        LoadStage::Read { paths, at, found } => {
            &&& texts(paths@) == s.paths
            &&& at < s.paths.len()
            &&& extension(s.paths[at as int]) == Some("json"@)
            &&& files_of(found@) == first_loaded(dir, s, at as int)
            &&& all_in(found@, dir)
        },
        LoadStage::Check { file, paths, at, found } => {
            &&& texts(paths@) == s.paths
            &&& at < s.paths.len()
            &&& extension(s.paths[at as int]) == Some("json"@)
            &&& files_of(found@) == first_loaded(dir, s, at as int)
            &&& all_in(found@, dir)
            &&& s.described.dom().contains(s.paths[at as int])
            &&& s.described[s.paths[at as int]] == file@
        },
        _ => true,
    }
}

proof fn lemma_next_json(dir: Seq<char>, s: Shelf, from: int)
    requires
        0 <= from <= s.paths.len(),
    ensures
        from <= next_json(s.paths, from) <= s.paths.len(),
        first_loaded(dir, s, next_json(s.paths, from)) == first_loaded(dir, s, from),
        next_json(s.paths, from) < s.paths.len() ==> extension(s.paths[next_json(s.paths, from)])
            == Some("json"@),
    decreases s.paths.len() - from,
{
    if !(from >= s.paths.len() || extension(s.paths[from]) == Some("json"@)) {
        lemma_next_json(dir, s, from + 1);
    }
}

proof fn lemma_goes_on(
    dir: Seq<char>,
    s: Shelf,
    from: int,
    found: Seq<FavoriteEntry>,
    next: LoadStage,
    action: LoadAction,
)
    requires
        0 <= from <= s.paths.len(),
        load_goes_on(s.paths, from, found, next, action),
        files_of(found) == first_loaded(dir, s, from),
        all_in(found, dir),
    ensures
        in_step(dir, s, next),
        next is Read || next is Over,
        action is Finish ==> (action matches LoadAction::Finish(Ok(list)) && files_of(list@)
            == loaded(dir, s) && all_in(list@, dir)),
{
    lemma_next_json(dir, s, from);
}

proof fn lemma_load_step(dir: Seq<char>, s: Shelf, c: LoadCourse, i: int)
    requires
        load_possible(dir, c),
        load_course_told(dir, s, c),
        0 <= i < c.events.len(),
        in_step(dir, s, c.stages[i]),
    ensures
        in_step(dir, s, c.stages[i + 1]),
        c.actions[i] is Finish ==> (c.actions[i] matches LoadAction::Finish(Ok(list)) && files_of(
            list@,
        ) == loaded(dir, s) && all_in(list@, dir)),
{
    assert(load_step_taken(dir, c, i));
    assert(load_told(dir, s, c.stages[i], c.events[i]));
    let next = c.stages[i + 1];
    let action = c.actions[i];
    let none = Seq::<FavoriteEntry>::empty();
    assert(files_of(none) =~= Seq::<FavoriteView>::empty());
    match (c.stages[i], c.events[i]) {
        (LoadStage::LookDir, LoadEvent::Found(found)) => {
            if !found {
                assert(s.paths =~= Seq::<Seq<char>>::empty());
                lemma_goes_on(dir, s, 0, none, next, action);
            }
        },
        (LoadStage::List, LoadEvent::Listing(Ok(paths))) => {
            lemma_goes_on(dir, s, 0, none, next, action);
        },
        (LoadStage::Read { paths, at, found }, LoadEvent::Metadata(Ok(None))) => {
            assert(!loadable(dir, s, s.paths[at as int]));
            assert(first_loaded(dir, s, at + 1) == first_loaded(dir, s, at as int));
            lemma_goes_on(dir, s, at + 1, found@, next, action);
        },
        (LoadStage::Check { file, paths, at, found }, LoadEvent::Found(there)) => {
            lemma_ids(found@, file.id@);
            if there && !has_id(found@, file.id@) {
                let entry = choose|entry: FavoriteEntry| #[trigger]
                    entry.is_of(file@, dir) && load_goes_on(
                        texts(paths@),
                        at + 1,
                        found@.push(entry),
                        next,
                        action,
                    );
                assert(files_of(found@.push(entry)) =~= files_of(found@).push(file@));
                assert(all_in(found@.push(entry), dir));
                lemma_goes_on(dir, s, at + 1, found@.push(entry), next, action);
            } else {
                lemma_goes_on(dir, s, at + 1, found@, next, action);
            }
        },
        _ => {},
    }
}

proof fn lemma_in_step(dir: Seq<char>, s: Shelf, c: LoadCourse, i: int)
    requires
        load_possible(dir, c),
        load_course_told(dir, s, c),
        0 <= i < c.stages.len(),
    ensures
        in_step(dir, s, c.stages[i]),
    decreases i,
{
    if i > 0 {
        lemma_in_step(dir, s, c, i - 1);
        lemma_load_step(dir, s, c, i - 1);
    }
}

/// Loading gives the favorites that the directory holds.
pub proof fn loading_gives_the_shelf(dir: Seq<char>, s: Shelf, c: LoadCourse, i: int)
    requires
        load_possible(dir, c),
        load_course_told(dir, s, c),
        0 <= i < c.actions.len(),
        c.actions[i] is Finish,
    ensures
        c.actions[i] matches LoadAction::Finish(Ok(list)) && files_of(list@) == loaded(dir, s)
            && all_in(list@, dir),
{
    lemma_in_step(dir, s, c, i);
    lemma_load_step(dir, s, c, i);
}

// ------------------------------------------------------------------------------------------
// Which files give the favorites
// ------------------------------------------------------------------------------------------

/// Whether the file at the position `i` is the first one to give a favorite of its id.
pub open spec fn wins(dir: Seq<char>, s: Shelf, i: int) -> bool {
    &&& 0 <= i < s.paths.len()
    &&& loadable(dir, s, s.paths[i])
    &&& forall|j: int|
        0 <= j < i && loadable(dir, s, #[trigger] s.paths[j]) ==> s.described[s.paths[j]].id
            != s.described[s.paths[i]].id
}

spec fn won_by(dir: Seq<char>, s: Shelf, n: int, v: FavoriteView) -> bool {
    exists|i: int| 0 <= i < n && #[trigger] wins(dir, s, i) && s.described[s.paths[i]] == v
}

spec fn different_views(list: Seq<FavoriteView>) -> bool {
    forall|a: int, b: int|
        0 <= a < b < list.len() ==> (#[trigger] list[a]).id != (#[trigger] list[b]).id
}

proof fn lemma_loaded(dir: Seq<char>, s: Shelf, n: int)
    requires
        0 <= n <= s.paths.len(),
    ensures
        forall|v: FavoriteView| #[trigger]
            first_loaded(dir, s, n).contains(v) <==> won_by(dir, s, n, v),
        forall|j: int|
            0 <= j < n && loadable(dir, s, #[trigger] s.paths[j]) ==> holds_id(
                first_loaded(dir, s, n),
                s.described[s.paths[j]].id,
            ),
        different_views(first_loaded(dir, s, n)),
    decreases n,
{
    if n > 0 {
        lemma_loaded(dir, s, n - 1);
        let before = first_loaded(dir, s, n - 1);
        let after = first_loaded(dir, s, n);
        let p = s.paths[n - 1];
        let taken = loadable(dir, s, p) && !holds_id(before, s.described[p].id);
        assert(wins(dir, s, n - 1) <==> taken) by {
            if loadable(dir, s, p) && holds_id(before, s.described[p].id) {
                let k = choose|k: int|
                    0 <= k < before.len() && (#[trigger] before[k]).id == s.described[p].id;
                assert(before.contains(before[k]));
                assert(won_by(dir, s, n - 1, before[k]));
                let i = choose|i: int|
                    0 <= i < n - 1 && #[trigger] wins(dir, s, i) && s.described[s.paths[i]]
                        == before[k];
                assert(loadable(dir, s, s.paths[i]));
            }
        }
        assert forall|v: FavoriteView| #[trigger] after.contains(v) <==> won_by(dir, s, n, v) by {
            if after.contains(v) {
                let k = choose|k: int| 0 <= k < after.len() && after[k] == v;
                if k < before.len() {
                    assert(before[k] == v);
                    assert(before.contains(v));
                    assert(won_by(dir, s, n - 1, v));
                    let i = choose|i: int|
                        0 <= i < n - 1 && #[trigger] wins(dir, s, i) && s.described[s.paths[i]]
                            == v;
                    assert(wins(dir, s, i));
                } else {
                    assert(wins(dir, s, n - 1));
                }
                assert(won_by(dir, s, n, v));
            }
            if won_by(dir, s, n, v) {
                let i = choose|i: int|
                    0 <= i < n && #[trigger] wins(dir, s, i) && s.described[s.paths[i]] == v;
                if i < n - 1 {
                    assert(won_by(dir, s, n - 1, v));
                    assert(before.contains(v));
                    let k = choose|k: int| 0 <= k < before.len() && before[k] == v;
                    assert(after[k] == v);
                } else {
                    assert(after[before.len() as int] == v);
                }
                assert(after.contains(v));
            }
        }
        assert forall|j: int| 0 <= j < n && loadable(dir, s, #[trigger] s.paths[j]) implies holds_id(
            after,
            s.described[s.paths[j]].id,
        ) by {
            let id = s.described[s.paths[j]].id;
            if j < n - 1 || !taken {
                assert(holds_id(before, id));
                let k = choose|k: int| 0 <= k < before.len() && (#[trigger] before[k]).id == id;
                assert(after[k].id == id);
            } else {
                assert(after[before.len() as int].id == id);
            }
        }
        assert forall|a: int, b: int| 0 <= a < b < after.len() implies (#[trigger] after[a]).id
            != (#[trigger] after[b]).id by {
            if b == before.len() {
                assert(before[a].id == after[a].id);
            }
        }
    }
}

/// No two of the favorites that a directory gives have the same id.
pub proof fn loaded_ids_are_different(dir: Seq<char>, s: Shelf, a: int, b: int)
    requires
        0 <= a < b < loaded(dir, s).len(),
    ensures
        loaded(dir, s)[a].id != loaded(dir, s)[b].id,
{
    lemma_loaded(dir, s, s.paths.len() as int);
}

// ------------------------------------------------------------------------------------------
// One favorite more
// ------------------------------------------------------------------------------------------

/// Whether a file of the directory `a` that is the first to give a favorite of its id is also
/// listed by the directory `b` before the others that give one of that id in `a`.
pub open spec fn same_firsts(dir: Seq<char>, a: Shelf, b: Shelf) -> bool {
    forall|i: int, j: int, k: int, l: int|
        #![trigger a.paths[i], a.paths[j], b.paths[k], b.paths[l]]
        wins(dir, a, i) && 0 <= j < a.paths.len() && j != i && loadable(dir, a, a.paths[j])
            && a.described[a.paths[j]].id == a.described[a.paths[i]].id && 0 <= k < b.paths.len()
            && 0 <= l < b.paths.len() && b.paths[k] == a.paths[i] && b.paths[l] == a.paths[j] ==> k
            < l
}

/// Whether the file `m` gives a favorite of a new id to the directory `big`, and the others that
/// `big` gives come from files that give them to `small`.
spec fn extends(dir: Seq<char>, small: Shelf, big: Shelf, m: Seq<char>) -> bool {
    &&& loadable(dir, big, m)
    &&& forall|p: Seq<char>| #[trigger]
        loadable(dir, small, p) ==> loadable(dir, big, p) && small.described[p]
            == big.described[p] && small.described[p].id != big.described[m].id
    &&& forall|k: int| #[trigger]
        wins(dir, big, k) && big.paths[k] != m ==> loadable(dir, small, big.paths[k])
}

spec fn agree(dir: Seq<char>, a: Shelf, b: Shelf) -> bool {
    forall|i: int, k: int|
        #[trigger] wins(dir, a, i) && #[trigger] wins(dir, b, k) && a.described[a.paths[i]].id
            == b.described[b.paths[k]].id ==> a.paths[i] == b.paths[k]
}

proof fn lemma_first(dir: Seq<char>, s: Shelf, p: Seq<char>) -> (k: int)
    requires
        shelf_wf(s),
        loadable(dir, s, p),
    ensures
        wins(dir, s, k),
        s.described[s.paths[k]].id == s.described[p].id,
{
    let n = s.paths.len() as int;
    let all = first_loaded(dir, s, n);
    let id = s.described[p].id;
    lemma_loaded(dir, s, n);
    assert(s.paths.contains(p));
    let j = choose|j: int| 0 <= j < n && s.paths[j] == p;
    assert(loadable(dir, s, s.paths[j]));
    assert(holds_id(all, id));
    let x = choose|x: int| 0 <= x < all.len() && (#[trigger] all[x]).id == id;
    assert(all.contains(all[x]));
    assert(won_by(dir, s, n, all[x]));
    choose|k: int| 0 <= k < n && #[trigger] wins(dir, s, k) && s.described[s.paths[k]] == all[x]
}

proof fn lemma_agree_growing(dir: Seq<char>, small: Shelf, big: Shelf, m: Seq<char>)
    requires
        shelf_wf(small),
        shelf_wf(big),
        extends(dir, small, big, m),
        same_firsts(dir, small, big),
    ensures
        agree(dir, small, big),
{
    assert forall|i: int, k: int|
        #[trigger] wins(dir, small, i) && #[trigger] wins(dir, big, k)
            && small.described[small.paths[i]].id
            == big.described[big.paths[k]].id implies small.paths[i] == big.paths[k] by {
        let p = small.paths[i];
        let w = big.paths[k];
        assert(loadable(dir, small, p));
        assert(loadable(dir, big, p));
        assert(big.paths.contains(p));
        let l = choose|l: int| 0 <= l < big.paths.len() && big.paths[l] == p;
        assert(w != m);
        assert(loadable(dir, small, w));
        assert(small.paths.contains(w));
        let j = choose|j: int| 0 <= j < small.paths.len() && small.paths[j] == w;
        if i != j {
            assert(big.paths[l] == small.paths[i] && big.paths[k] == small.paths[j]);
            assert(l < k);
            assert(loadable(dir, big, big.paths[l]));
        }
    }
}

proof fn lemma_agree_shrinking(dir: Seq<char>, small: Shelf, big: Shelf, m: Seq<char>)
    requires
        shelf_wf(small),
        shelf_wf(big),
        extends(dir, small, big, m),
        same_firsts(dir, big, small),
    ensures
        agree(dir, small, big),
{
    assert forall|i: int, k: int|
        #[trigger] wins(dir, small, i) && #[trigger] wins(dir, big, k)
            && small.described[small.paths[i]].id
            == big.described[big.paths[k]].id implies small.paths[i] == big.paths[k] by {
        let p = small.paths[i];
        let w = big.paths[k];
        assert(loadable(dir, small, p));
        assert(loadable(dir, big, p));
        assert(big.paths.contains(p));
        let l = choose|l: int| 0 <= l < big.paths.len() && big.paths[l] == p;
        assert(w != m);
        assert(loadable(dir, small, w));
        assert(small.paths.contains(w));
        let j = choose|j: int| 0 <= j < small.paths.len() && small.paths[j] == w;
        if k != l {
            assert(small.paths[j] == big.paths[k] && small.paths[i] == big.paths[l]);
            assert(loadable(dir, big, big.paths[l]));
            assert(j < i);
            assert(loadable(dir, small, small.paths[j]));
        }
    }
}

proof fn lemma_extends(dir: Seq<char>, small: Shelf, big: Shelf, m: Seq<char>, v: FavoriteView)
    requires
        shelf_wf(small),
        shelf_wf(big),
        extends(dir, small, big, m),
        agree(dir, small, big),
    ensures
        loaded(dir, big).contains(v) <==> loaded(dir, small).contains(v) || v
            == big.described[m],
        !loaded(dir, small).contains(big.described[m]),
{
    let ns = small.paths.len() as int;
    let nb = big.paths.len() as int;
    let added = big.described[m];
    lemma_loaded(dir, small, ns);
    lemma_loaded(dir, big, nb);
    assert(loaded(dir, big).contains(v) <==> won_by(dir, big, nb, v));
    assert(loaded(dir, small).contains(v) <==> won_by(dir, small, ns, v));
    assert(loaded(dir, small).contains(added) <==> won_by(dir, small, ns, added));
    if won_by(dir, small, ns, added) {
        let i = choose|i: int|
            0 <= i < ns && #[trigger] wins(dir, small, i) && small.described[small.paths[i]]
                == added;
        assert(loadable(dir, small, small.paths[i]));
    }
    if won_by(dir, big, nb, v) && v != added {
        let k = choose|k: int|
            0 <= k < nb && #[trigger] wins(dir, big, k) && big.described[big.paths[k]] == v;
        assert(loadable(dir, small, big.paths[k]));
        let i = lemma_first(dir, small, big.paths[k]);
        assert(small.paths[i] == big.paths[k]);
        assert(won_by(dir, small, ns, v));
    }
    if won_by(dir, small, ns, v) {
        let i = choose|i: int|
            0 <= i < ns && #[trigger] wins(dir, small, i) && small.described[small.paths[i]] == v;
        assert(loadable(dir, small, small.paths[i]));
        let k = lemma_first(dir, big, small.paths[i]);
        assert(small.paths[i] == big.paths[k]);
        assert(won_by(dir, big, nb, v));
    }
    if v == added {
        let k = lemma_first(dir, big, m);
        if big.paths[k] != m {
            assert(loadable(dir, small, big.paths[k]));
        }
        assert(won_by(dir, big, nb, v));
    }
}

// ------------------------------------------------------------------------------------------
// Paths of favorites
// ------------------------------------------------------------------------------------------

proof fn lemma_dir_of(pre: Seq<char>, t: Seq<char>)
    requires
        pre.len() == 0 || pre.last() == '/',
        forall|i: int| 0 <= i < t.len() ==> t[i] != '/',
    ensures
        dir_len(pre + t) == pre.len(),
    decreases t.len(),
{
    if t.len() == 0 {
        assert(pre + t =~= pre);
    } else {
        assert((pre + t).last() == t.last());
        assert((pre + t).drop_last() =~= pre + t.drop_last());
        assert forall|i: int| 0 <= i < t.drop_last().len() implies t.drop_last()[i] != '/' by {
            assert(t.drop_last()[i] == t[i]);
        }
        lemma_dir_of(pre, t.drop_last());
    }
}

/// The extension of a file `name.ext` in a directory.
proof fn lemma_extension_in(dir: Seq<char>, name: Seq<char>, ext: Seq<char>)
    requires
        name.len() > 1,
        !name.contains('/'),
        !ext.contains('/'),
        !ext.contains('.'),
    ensures
        extension(path_join(dir, name + seq!['.'] + ext)) == Some(ext),
{
    let t = name + seq!['.'] + ext;
    let q = path_join(dir, t);
    assert forall|i: int| 0 <= i < t.len() implies t[i] != '/' by {
        if i < name.len() {
            assert(name.contains(name[i]));
        } else if i > name.len() {
            assert(ext.contains(ext[i - name.len() - 1]));
        }
    }
    let pre = if dir.len() == 0 {
        dir
    } else if dir.last() == '/' {
        dir
    } else {
        dir.push('/')
    };
    assert(t[0] != '/');
    assert(q =~= pre + t);
    lemma_dir_of(pre, t);
    assert(q.last() == t.last());
    assert(q[q.len() - 2] == t[t.len() - 2]);
    assert(trim_tail(q) == q);
    assert(q.skip(pre.len() as int) =~= t);
    assert(t.len() > 2);
    assert(file_name(q) == Some(t));
    lemma_plain_name(name, ext);
    assert(last_dot(t) == Some(name.len() as int));
    assert(t.skip(name.len() as int + 1) =~= ext);
}

/// The two files of a favorite: the description is named as such, and so is the image only where
/// it is the same file.
proof fn lemma_files(c: CandidateView, dir: Seq<char>, name: Seq<char>)
    requires
        name.len() > 1,
        !name.contains('/'),
    ensures
        extension(stored_metadata(dir, name)) == Some("json"@),
        extension(stored_image(c, dir, name)) == Some("json"@) ==> stored_image(c, dir, name)
            == stored_metadata(dir, name),
{
    reveal_strlit(".");
    reveal_strlit(".jpg");
    reveal_strlit(".json");
    reveal_strlit("json");
    lemma_extension_is_plain(c.local_path);
    let json = "json"@;
    assert forall|i: int| 0 <= i < json.len() implies json[i] != '/' && json[i] != '.' by {}
    assert(!json.contains('/') && !json.contains('.'));
    lemma_extension_in(dir, name, json);
    assert(name + ".json"@ =~= name + seq!['.'] + json);
    let ext = match extension(c.local_path) {
        Some(e) => e,
        None => seq!['j', 'p', 'g'],
    };
    assert(!seq!['j', 'p', 'g'].contains('/') && !seq!['j', 'p', 'g'].contains('.'));
    lemma_extension_in(dir, name, ext);
    assert(stored_name(c, name) =~= name + seq!['.'] + ext);
}

// ------------------------------------------------------------------------------------------
// Saving
// ------------------------------------------------------------------------------------------

/// Whether `after` is a directory `before` to which an image and the file that describes it have
/// been added.
pub open spec fn adds(
    before: Shelf,
    after: Shelf,
    image: Seq<char>,
    metadata: Seq<char>,
    file: FavoriteView,
) -> bool {
    &&& shelf_wf(after)
    &&& forall|p: Seq<char>| #[trigger]
        after.paths.contains(p) <==> before.paths.contains(p) || p == image || p == metadata
    &&& after.described == before.described.insert(metadata, file)
    &&& after.present == before.present.insert(image).insert(metadata)
}

/// Whether the directory gives a favorite whose image is `path` and that another file than `but`
/// describes.
pub open spec fn shows(dir: Seq<char>, s: Shelf, path: Seq<char>, but: Seq<char>) -> bool {
    exists|k: int| #[trigger]
        wins(dir, s, k) && s.paths[k] != but && image_of(dir, s.described[s.paths[k]]) == path
}

/// Whether an event of a saving tells what the directory holds.
pub open spec fn save_told(
    c: CandidateView,
    dir: Seq<char>,
    s: Shelf,
    at: SaveStage,
    event: SaveEvent,
) -> bool {
    match (at, event) {
        (SaveStage::Load, SaveEvent::Loaded(Ok(entries))) => files_of(entries@) == loaded(dir, s),
        (SaveStage::Look { name, .. }, SaveEvent::Present { image, metadata }) => {
            &&& image == s.present.contains(stored_image(c, dir, name@))
            &&& metadata == s.present.contains(stored_metadata(dir, name@))
        },
        _ => true,
    }
}

/// Whether all events of a saving tell what the directory holds.
pub open spec fn save_course_told(
    c: CandidateView,
    dir: Seq<char>,
    s: Shelf,
    course: SaveCourse,
) -> bool {
    forall|i: int|
        0 <= i < course.events.len() ==> save_told(
            c,
            dir,
            s,
            #[trigger] course.stages[i],
            course.events[i],
        )
}

/// The file that an action writes to describe a favorite.
pub open spec fn description_path(action: SaveAction) -> Seq<char> {
    match action {
        SaveAction::WriteMetadata { path, .. } => path@,
        _ => Seq::empty(),
    }
}

proof fn lemma_look(c: CandidateView, dir: Seq<char>, s: SaveCourse, i: int)
    requires
        save_possible(c, dir, s),
        0 <= i < s.stages.len(),
        s.stages[i] is Look,
    ensures
        s.stages[i] matches SaveStage::Look { name, counter } && name@ == unique_name(
            base_name(c),
            counter as int,
        ) && !name@.contains('/'),
{
    assert(i > 0);
    assert(save_step_taken(c, dir, s, i - 1));
}

proof fn lemma_new_id(c: CandidateView, dir: Seq<char>, before: Shelf, s: SaveCourse, i: int)
    requires
        save_possible(c, dir, s),
        save_course_told(c, dir, before, s),
        0 <= i < s.stages.len(),
        s.stages[i] is Look,
    ensures
        !holds_id(loaded(dir, before), c.id),
    decreases i,
{
    assert(i > 0);
    assert(save_step_taken(c, dir, s, i - 1));
    if s.stages[i - 1] is Look {
        lemma_new_id(c, dir, before, s, i - 1);
    } else {
        assert(s.stages[i - 1] is Load);
        assert(save_told(c, dir, before, s.stages[i - 1], s.events[i - 1]));
        if let SaveEvent::Loaded(Ok(entries)) = s.events[i - 1] {
            lemma_ids(entries@, c.id);
        }
    }
}

/// The name of the files of a favorite that was saved, and the step at which they had been looked
/// for in vain.
proof fn lemma_saved_name(c: CandidateView, dir: Seq<char>, s: SaveCourse, i: int) -> (name: Seq<
    char,
>)
    requires
        save_possible(c, dir, s),
        0 <= i < s.actions.len(),
        s.actions[i] matches SaveAction::Finish(Ok(_)),
    ensures
        name.len() > 1,
        !name.contains('/'),
        i >= 5,
        description_path(s.actions[i - 1]) == stored_metadata(dir, name),
        s.actions[i] matches SaveAction::Finish(Ok(entry)) && entry.id@ == c.id
            && entry.stored_filename@ == stored_name(c, name) && entry.image_path@
            == stored_image(c, dir, name) && entry.image_path@ == image_of(dir, entry.file()),
        s.stages[i - 5] matches SaveStage::Look { name: n, .. } && n@ == name,
        s.events[i - 5] == (SaveEvent::Present { image: false, metadata: false }),
{
    assert(save_step_taken(c, dir, s, i));
    assert(s.stages[i] is Write);
    assert(save_step_taken(c, dir, s, i - 1));
    assert(s.stages[i - 1] is Clock);
    assert(save_step_taken(c, dir, s, i - 2));
    assert(s.stages[i - 2] is Read);
    assert(save_step_taken(c, dir, s, i - 3));
    assert(s.stages[i - 3] is Measure);
    assert(save_step_taken(c, dir, s, i - 4));
    assert(s.stages[i - 4] is Copy);
    assert(save_step_taken(c, dir, s, i - 5));
    assert(s.stages[i - 5] is Look);
    lemma_look(c, dir, s, i - 5);
    let name = s.stages[i - 5]->Look_name@;
    assert(s.stages[i - 1]->Clock_name@ == name);
    reveal_strlit("-");
    reveal_strlit("favorite");
    assert(base_name(c).len() > 1);
    name
}

/// Whether `before` became `after` when the step `i` of a saving ended it well: the two files were
/// added, no other favorite that the directory then gives has one of them as its image, and of
/// several files of one id the first stays the first.
pub open spec fn saved_into(
    dir: Seq<char>,
    before: Shelf,
    after: Shelf,
    s: SaveCourse,
    i: int,
) -> bool {
    let metadata = description_path(s.actions[i - 1]);
    &&& shelf_wf(before)
    &&& same_firsts(dir, before, after)
    &&& s.actions[i] matches SaveAction::Finish(Ok(entry)) && {
        &&& adds(before, after, entry.image_path@, metadata, entry.file())
        &&& !shows(dir, after, entry.image_path@, metadata)
        &&& !shows(dir, after, metadata, metadata)
    }
}

/// After a favorite was saved, the directory gives it beside all that it gave before, and no
/// other.
pub proof fn saved_favorite_is_loaded(
    c: CandidateView,
    dir: Seq<char>,
    before: Shelf,
    after: Shelf,
    s: SaveCourse,
    i: int,
    v: FavoriteView,
)
    requires
        save_possible(c, dir, s),
        save_course_told(c, dir, before, s),
        0 <= i < s.actions.len(),
        saved_into(dir, before, after, s, i),
    ensures
        s.actions[i] matches SaveAction::Finish(Ok(entry)) && entry.id@ == c.id && (loaded(
            dir,
            after,
        ).contains(v) <==> loaded(dir, before).contains(v) || v == entry.file()),
{
    let name = lemma_saved_name(c, dir, s, i);
    let m = stored_metadata(dir, name);
    let image = stored_image(c, dir, name);
    lemma_files(c, dir, name);
    lemma_new_id(c, dir, before, s, i - 5);
    lemma_loaded(dir, before, before.paths.len() as int);
    assert(save_told(c, dir, before, s.stages[i - 5], s.events[i - 5]));
    if let SaveAction::Finish(Ok(entry)) = s.actions[i] {
        assert(!before.described.dom().contains(m)) by {
            if before.described.dom().contains(m) {
                assert(before.paths.contains(m));
            }
        }
        assert(loadable(dir, after, m));
        assert forall|p: Seq<char>| #[trigger] loadable(dir, before, p) implies loadable(
            dir,
            after,
            p,
        ) && before.described[p] == after.described[p] && before.described[p].id
            != after.described[m].id by {
            assert(before.paths.contains(p));
            let j = choose|j: int| 0 <= j < before.paths.len() && before.paths[j] == p;
            assert(loadable(dir, before, before.paths[j]));
        }
        assert forall|k: int| #[trigger] wins(dir, after, k) && after.paths[k]
            != m implies loadable(dir, before, after.paths[k]) by {
            assert(loadable(dir, after, after.paths[k]));
            assert(image_of(dir, after.described[after.paths[k]]) != image);
            assert(image_of(dir, after.described[after.paths[k]]) != m);
        }
        lemma_agree_growing(dir, before, after, m);
        lemma_extends(dir, before, after, m, v);
    }
}

/// Right after a candidate was saved, its id is that of a favorite.
pub proof fn saved_id_is_a_favorite(
    c: CandidateView,
    dir: Seq<char>,
    before: Shelf,
    after: Shelf,
    s: SaveCourse,
    i: int,
    list: Seq<FavoriteEntry>,
)
    requires
        save_possible(c, dir, s),
        save_course_told(c, dir, before, s),
        0 <= i < s.actions.len(),
        saved_into(dir, before, after, s, i),
        files_of(list) == loaded(dir, after),
    ensures
        has_id(list, c.id),
{
    if let SaveAction::Finish(Ok(entry)) = s.actions[i] {
        saved_favorite_is_loaded(c, dir, before, after, s, i, entry.file());
        let k = choose|k: int|
            0 <= k < loaded(dir, after).len() && loaded(dir, after)[k] == entry.file();
        assert(loaded(dir, after)[k].id == c.id);
        lemma_ids(list, c.id);
    }
}

// ------------------------------------------------------------------------------------------
// Removing
// ------------------------------------------------------------------------------------------

/// Whether `after` is a directory `before` from which two files have been removed.
pub open spec fn drops(
    before: Shelf,
    after: Shelf,
    image: Seq<char>,
    metadata: Seq<char>,
) -> bool {
    &&& shelf_wf(after)
    &&& forall|p: Seq<char>| #[trigger]
        after.paths.contains(p) <==> before.paths.contains(p) && p != image && p != metadata
    &&& after.described == before.described.remove(image).remove(metadata)
    &&& after.present == before.present.remove(image).remove(metadata)
}

/// Whether a file of the directory gives a favorite of the given id.
pub open spec fn gives_id(dir: Seq<char>, s: Shelf, id: Seq<char>) -> bool {
    exists|p: Seq<char>| #[trigger] loadable(dir, s, p) && s.described[p].id == id
}

/// Whether `before` became `after` when a favorite was removed whose description is the file
/// `metadata`: what removing it asks for was removed, no other favorite that the directory gave
/// has one of the two files as its image, no file that is left gives a favorite of its id, and of
/// several files of one id the first stays the first.
pub open spec fn removed_from(
    dir: Seq<char>,
    before: Shelf,
    after: Shelf,
    entry: FavoriteEntry,
    metadata: Seq<char>,
) -> bool {
    &&& shelf_wf(before)
    &&& drops(
        before,
        after,
        entry.image_path@,
        path_join(dir, with_extension(entry.stored_filename@, "json"@)),
    )
    &&& !shows(dir, before, entry.image_path@, metadata)
    &&& !shows(dir, before, metadata, metadata)
    &&& !gives_id(dir, after, entry.id@)
    &&& same_firsts(dir, before, after)
}

/// Removing a favorite asks for the file that the saving wrote about it.
pub proof fn removal_finds_what_was_saved(c: CandidateView, dir: Seq<char>, s: SaveCourse, i: int)
    requires
        save_possible(c, dir, s),
        0 <= i < s.actions.len(),
        s.actions[i] matches SaveAction::Finish(Ok(_)),
    ensures
        s.actions[i] matches SaveAction::Finish(Ok(entry)) && path_join(
            dir,
            with_extension(entry.stored_filename@, "json"@),
        ) == description_path(s.actions[i - 1]),
{
    let name = lemma_saved_name(c, dir, s, i);
    lemma_description_of(c, dir, name);
}

/// After a favorite was removed, the directory gives exactly the others. The favorite is one that
/// the step `i` of a saving ended with, and the directory gives it from the file that the saving
/// wrote.
pub proof fn removed_favorite_is_gone(
    c: CandidateView,
    dir: Seq<char>,
    s: SaveCourse,
    i: int,
    entry: FavoriteEntry,
    before: Shelf,
    after: Shelf,
    k: int,
    v: FavoriteView,
)
    requires
        save_possible(c, dir, s),
        0 <= i < s.actions.len(),
        s.actions[i] matches SaveAction::Finish(Ok(saved)) && entry.file() == saved.file(),
        entry.image_path@ == image_of(dir, entry.file()),
        wins(dir, before, k),
        before.paths[k] == description_path(s.actions[i - 1]),
        before.described[before.paths[k]] == entry.file(),
        removed_from(dir, before, after, entry, before.paths[k]),
    ensures
        loaded(dir, before).contains(entry.file()),
        loaded(dir, after).contains(v) <==> loaded(dir, before).contains(v) && v != entry.file(),
{
    let name = lemma_saved_name(c, dir, s, i);
    let m = stored_metadata(dir, name);
    lemma_description_of(c, dir, name);
    lemma_files(c, dir, name);
    if let SaveAction::Finish(Ok(saved)) = s.actions[i] {
        let image = entry.image_path@;
        assert(image == saved.image_path@);
        assert(loadable(dir, before, m));
        assert forall|p: Seq<char>| #[trigger] loadable(dir, after, p) implies loadable(
            dir,
            before,
            p,
        ) && after.described[p] == before.described[p] && after.described[p].id
            != before.described[m].id by {}
        assert forall|k: int| #[trigger] wins(dir, before, k) && before.paths[k]
            != m implies loadable(dir, after, before.paths[k]) by {
            let p = before.paths[k];
            assert(loadable(dir, before, p));
            assert(image_of(dir, before.described[p]) != image);
            assert(image_of(dir, before.described[p]) != m);
        }
        lemma_agree_shrinking(dir, after, before, m);
        lemma_extends(dir, after, before, m, v);
        lemma_extends(dir, after, before, m, entry.file());
    }
}

} // verus!

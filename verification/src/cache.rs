//! The cache: where things are kept, and what the index of a day holds.

use crate::model::{
    CacheIndex, CandidateView, IndexView, WallpaperCandidate, WallpaperSource, candidates,
    dir_name, source_dir_name,
};
use crate::path::{join_path, path_join};
use crate::text::same;
use vstd::prelude::*;

verus! {

// ------------------------------------------------------------------------------------------
// Places
// ------------------------------------------------------------------------------------------

/// The cache below a directory of wallpapers: one directory for each day, and in it an index and
/// one directory for each source.
#[derive(Debug)]
pub struct CacheManager {
    pub base_dir: String,
}

/// The directory of a source's files of one day.
pub open spec fn media_path(base: Seq<char>, date: Seq<char>, source: WallpaperSource) -> Seq<
    char,
> {
    path_join(path_join(base, date), dir_name(source))
}

impl CacheManager {
    /// The cache below `picture_dir`.
    pub fn new(picture_dir: &str) -> (r: Self)
        ensures
            r.base_dir@ == path_join(picture_dir@, "cache"@),
    {
        CacheManager { base_dir: join_path(picture_dir, "cache") }
    }

    /// The file of the index of a day.
    pub fn index_path(&self, date: &str) -> (r: String)
        ensures
            r@ == path_join(path_join(self.base_dir@, date@), "index.json"@),
    {
        join_path(join_path(self.base_dir.as_str(), date).as_str(), "index.json")
    }

    /// The file that tells what was applied last.
    pub fn last_applied_path(&self) -> (r: String)
        ensures
            r@ == path_join(self.base_dir@, "last_applied.json"@),
    {
        join_path(self.base_dir.as_str(), "last_applied.json")
    }

    /// The directory of a source's files of one day.
    pub fn media_dir(&self, date: &str, source: WallpaperSource) -> (r: String)
        ensures
            r@ == media_path(self.base_dir@, date@, source),
    {
        join_path(join_path(self.base_dir.as_str(), date).as_str(), source_dir_name(source))
    }

    /// The note that a source is not to be tried again on a day.
    pub fn skip_path(&self, date: &str, source: WallpaperSource) -> (r: String)
        ensures
            r@ == path_join(media_path(self.base_dir@, date@, source), "skip.json"@),
    {
        join_path(self.media_dir(date, source).as_str(), "skip.json")
    }

    /// The note that a source is being fetched.
    pub fn in_progress_path(&self, date: &str, source: WallpaperSource) -> (r: String)
        ensures
            r@ == path_join(media_path(self.base_dir@, date@, source), "in_progress.json"@),
    {
        join_path(self.media_dir(date, source).as_str(), "in_progress.json")
    }
}

// ------------------------------------------------------------------------------------------
// The index of a day
// ------------------------------------------------------------------------------------------

/// The first candidate that meets `p`.
pub open spec fn first_where(s: Seq<CandidateView>, p: spec_fn(CandidateView) -> bool) -> Option<
    CandidateView,
>
    decreases s.len(),
{
    if s.len() == 0 {
        None
    } else if p(s[0]) {
        Some(s[0])
    } else {
        first_where(s.drop_first(), p)
    }
}

/// The first candidate with the given id.
pub open spec fn with_id(s: Seq<CandidateView>, id: Seq<char>) -> Option<CandidateView> {
    first_where(s, |c: CandidateView| c.id == id)
}

/// The first candidate of the given source.
pub open spec fn of_source(s: Seq<CandidateView>, source: WallpaperSource) -> Option<
    CandidateView,
> {
    first_where(s, |c: CandidateView| c.source == source)
}

/// The candidates of an index; none where there is no index.
pub open spec fn listed(index: Option<CacheIndex>) -> Seq<CandidateView> {
    match index {
        Some(i) => i@.candidates,
        None => Seq::empty(),
    }
}

/// The value of an optional candidate.
pub open spec fn opt_candidate(c: Option<WallpaperCandidate>) -> Option<CandidateView> {
    match c {
        Some(c) => Some(c@),
        None => None,
    }
}

proof fn lemma_first_where_skip(s: Seq<CandidateView>, p: spec_fn(CandidateView) -> bool, i: int)
    requires
        0 <= i <= s.len(),
        forall|j: int| 0 <= j < i ==> !p(#[trigger] s[j]),
    ensures
        first_where(s, p) == first_where(s.skip(i), p),
    decreases i,
{
    if i > 0 {
        assert(!p(s[0]));
        assert(s.drop_first().skip(i - 1) =~= s.skip(i));
        assert forall|j: int| 0 <= j < i - 1 implies !p(#[trigger] s.drop_first()[j]) by {
            assert(!p(s[j + 1]));
        }
        lemma_first_where_skip(s.drop_first(), p, i - 1);
    } else {
        assert(s.skip(0) =~= s);
    }
}

/// What `first_where` finds, by its position.
pub proof fn lemma_first_where(s: Seq<CandidateView>, p: spec_fn(CandidateView) -> bool, i: int)
    requires
        0 <= i <= s.len(),
        forall|j: int| 0 <= j < i ==> !p(#[trigger] s[j]),
        i < s.len() ==> p(s[i]),
    ensures
        first_where(s, p) == if i < s.len() {
            Some(s[i])
        } else {
            None
        },
{
    lemma_first_where_skip(s, p, i);
    if i < s.len() {
        assert(s.skip(i)[0] == s[i]);
    }
}

/// The position of the first candidate with the given id; the length where there is none.
pub fn position_of_id(list: &Vec<WallpaperCandidate>, id: &str) -> (r: usize)
    ensures
        r <= list@.len(),
        forall|j: int| 0 <= j < r ==> (#[trigger] candidates(list@)[j]).id != id@,
        r < list@.len() ==> candidates(list@)[r as int].id == id@,
        with_id(candidates(list@), id@) == if r < list@.len() {
            Some(candidates(list@)[r as int])
        } else {
            None
        },
{
    let ghost p = |c: CandidateView| c.id == id@;
    let mut i: usize = 0;
    while i < list.len() && !same(list[i].id.as_str(), id)
        invariant
            i <= list@.len(),
            p == (|c: CandidateView| c.id == id@),
            forall|j: int| 0 <= j < i ==> !p(#[trigger] candidates(list@)[j]),
        decreases list@.len() - i,
    {
        i += 1;
    }
    proof {
        lemma_first_where(candidates(list@), p, i as int);
    }
    i
}

/// The first candidate of a source in the index of a day.
pub fn find_candidate(index: Option<&CacheIndex>, source: WallpaperSource) -> (r: Option<
    WallpaperCandidate,
>)
    ensures
        opt_candidate(r) == match index {
            Some(i) => of_source(i@.candidates, source),
            None => None,
        },
        match r {
            Some(c) => index matches Some(i) && i.candidates@.contains(c),
            None => true,
        },
{
    let list = match index {
        Some(i) => &i.candidates,
        None => {
            return None;
        },
    };
    let ghost p = |c: CandidateView| c.source == source;
    let mut i: usize = 0;
    while i < list.len() && list[i].source != source
        invariant
            i <= list@.len(),
            p == (|c: CandidateView| c.source == source),
            forall|j: int| 0 <= j < i ==> !p(#[trigger] candidates(list@)[j]),
        decreases list@.len() - i,
    {
        i += 1;
    }
    proof {
        lemma_first_where(candidates(list@), p, i as int);
    }
    if i < list.len() {
        Some(list[i].clone())
    } else {
        None
    }
}

/// The candidates of a source in the index of a day, in order.
pub fn find_candidates_by_source(index: Option<&CacheIndex>, source: WallpaperSource) -> (r: Vec<
    WallpaperCandidate,
>)
    ensures
        candidates(r@) == match index {
            Some(i) => i@.candidates.filter(|c: CandidateView| c.source == source),
            None => Seq::empty(),
        },
{
    let mut out: Vec<WallpaperCandidate> = Vec::new();
    assert(candidates(out@) =~= Seq::<CandidateView>::empty());
    let list = match index {
        Some(i) => &i.candidates,
        None => {
            return out;
        },
    };
    let ghost p = |c: CandidateView| c.source == source;
    let ghost all = candidates(list@);
    let mut i: usize = 0;
    proof {
        reveal(Seq::filter);
        assert(all.take(0).filter(p) =~= Seq::<CandidateView>::empty());
    }
    while i < list.len()
        invariant
            i <= list@.len(),
            all == candidates(list@),
            p == (|c: CandidateView| c.source == source),
            candidates(out@) == all.take(i as int).filter(p),
        decreases list@.len() - i,
    {
        proof {
            reveal(Seq::filter);
            assert(all.take(i + 1).drop_last() =~= all.take(i as int));
            assert(all.take(i + 1).last() == list@[i as int]@);
        }
        let ghost before = out@;
        if list[i].source == source {
            out.push(list[i].clone());
            assert(candidates(out@) =~= candidates(before).push(list@[i as int]@));
        }
        i += 1;
    }
    assert(all.take(i as int) =~= all);
    out
}

/// The candidate with the given id in the index of a day.
pub fn find_candidate_by_id(index: Option<&CacheIndex>, id: &str) -> (r: Option<
    WallpaperCandidate,
>)
    ensures
        opt_candidate(r) == match index {
            Some(i) => with_id(i@.candidates, id@),
            None => None,
        },
{
    match index {
        Some(i) => {
            let at = position_of_id(&i.candidates, id);
            if at < i.candidates.len() {
                Some(i.candidates[at].clone())
            } else {
                None
            }
        },
        None => None,
    }
}

/// The candidates of a day once `c` has been put among them: it takes the place of the first
/// candidate with its id, or comes last.
pub open spec fn upserted(s: Seq<CandidateView>, c: CandidateView) -> Seq<CandidateView>
    decreases s.len(),
{
    if s.len() == 0 {
        seq![c]
    } else if s[0].id == c.id {
        seq![c] + s.drop_first()
    } else {
        seq![s[0]] + upserted(s.drop_first(), c)
    }
}

proof fn lemma_upserted(s: Seq<CandidateView>, c: CandidateView, i: int)
    requires
        0 <= i <= s.len(),
        forall|j: int| 0 <= j < i ==> (#[trigger] s[j]).id != c.id,
        i < s.len() ==> s[i].id == c.id,
    ensures
        upserted(s, c) == if i < s.len() {
            s.update(i, c)
        } else {
            s.push(c)
        },
    decreases s.len(),
{
    if s.len() == 0 {
        assert(s.push(c) =~= seq![c]);
    } else if s[0].id == c.id {
        assert(i == 0);
        assert(seq![c] + s.drop_first() =~= s.update(0, c));
    } else {
        assert forall|j: int| 0 <= j < i - 1 implies (#[trigger] s.drop_first()[j]).id
            != c.id by {
            assert(s[j + 1].id != c.id);
        }
        lemma_upserted(s.drop_first(), c, i - 1);
        if i < s.len() {
            assert(seq![s[0]] + s.drop_first().update(i - 1, c) =~= s.update(i, c));
        } else {
            assert(seq![s[0]] + s.drop_first().push(c) =~= s.push(c));
        }
    }
}

/// The index of a day once `candidate` has been put into it.
pub fn upsert_candidate(
    date: &str,
    index: Option<CacheIndex>,
    candidate: WallpaperCandidate,
) -> (r: CacheIndex)
    ensures
        r@ == (IndexView {
            date: match index {
                Some(i) => i@.date,
                None => date@,
            },
            candidates: upserted(listed(index), candidate@),
        }),
{
    let mut result = match index {
        Some(i) => i,
        None => CacheIndex { date: date.to_string(), candidates: Vec::new() },
    };
    let ghost before = candidates(result.candidates@);
    assert(before =~= listed(index));
    let at = position_of_id(&result.candidates, candidate.id.as_str());
    proof {
        lemma_upserted(before, candidate@, at as int);
    }
    let ghost c = candidate@;
    if at < result.candidates.len() {
        result.candidates.set(at, candidate);
        assert(candidates(result.candidates@) =~= before.update(at as int, c));
    } else {
        result.candidates.push(candidate);
        assert(candidates(result.candidates@) =~= before.push(c));
    }
    result
}

/// Whether no two candidates share an id.
pub open spec fn distinct_ids(s: Seq<CandidateView>) -> bool {
    forall|i: int, j: int|
        0 <= i < s.len() && 0 <= j < s.len() && i != j ==> (#[trigger] s[i]).id != (
        #[trigger] s[j]).id
}

/// A candidate that was put into an index is found there by its id; every other id finds what it
/// found before; and ids stay distinct.
pub proof fn upsert_then_find(s: Seq<CandidateView>, c: CandidateView, other: Seq<char>)
    ensures
        with_id(upserted(s, c), c.id) == Some(c),
        other != c.id ==> with_id(upserted(s, c), other) == with_id(s, other),
        distinct_ids(s) ==> distinct_ids(upserted(s, c)),
    decreases s.len(),
{
    let p = |x: CandidateView| x.id == c.id;
    let q = |x: CandidateView| x.id == other;
    let r = upserted(s, c);
    if s.len() == 0 {
        assert(r.drop_first() =~= s);
    } else if s[0].id == c.id {
        assert(r[0] == c);
        assert(r.drop_first() =~= s.drop_first());
    } else {
        upsert_then_find(s.drop_first(), c, other);
        let t = upserted(s.drop_first(), c);
        assert(r[0] == s[0]);
        assert(r.drop_first() =~= t);
    }
    if distinct_ids(s) {
        let i = first_position(s, c.id);
        lemma_first_position(s, c.id);
        lemma_upserted(s, c, i);
    }
}

spec fn first_position(s: Seq<CandidateView>, id: Seq<char>) -> int
    decreases s.len(),
{
    if s.len() == 0 || s[0].id == id {
        0
    } else {
        1 + first_position(s.drop_first(), id)
    }
}

proof fn lemma_first_position(s: Seq<CandidateView>, id: Seq<char>)
    ensures
        0 <= first_position(s, id) <= s.len(),
        forall|j: int| 0 <= j < first_position(s, id) ==> (#[trigger] s[j]).id != id,
        first_position(s, id) < s.len() ==> s[first_position(s, id)].id == id,
    decreases s.len(),
{
    if s.len() > 0 && s[0].id != id {
        lemma_first_position(s.drop_first(), id);
        let i = first_position(s, id);
        assert forall|j: int| 0 <= j < i implies (#[trigger] s[j]).id != id by {
            if j > 0 {
                assert(s.drop_first()[j - 1].id != id);
            }
        }
    }
}

/// What a source keeps of a day stands in a directory of its own, below that of the day.
pub proof fn sources_have_their_own_directories(
    base: Seq<char>,
    date: Seq<char>,
    source: WallpaperSource,
)
    requires
        base.len() > 0,
        base.last() != '/',
        date.len() > 0,
        date[0] != '/',
        date.last() != '/',
    ensures
        media_path(base, date, source) == base + "/"@ + date + "/"@ + (match source {
            WallpaperSource::Bing => "bing"@,
            WallpaperSource::Spotlight => "spotlight"@,
            WallpaperSource::Apod => "apod"@,
            WallpaperSource::Modis => "modis"@,
        }),
{
    reveal_strlit("/");
    reveal_strlit("bing");
    reveal_strlit("spotlight");
    reveal_strlit("apod");
    reveal_strlit("modis");
    let name = dir_name(source);
    let day = path_join(base, date);
    assert("/"@ =~= seq!['/']);
    crate::path::child_lies_in_its_directory(base, date);
    assert(day.last() == date.last());
    crate::path::child_lies_in_its_directory(day, name);
    assert(media_path(base, date, source) =~= base + "/"@ + date + "/"@ + name);
}

} // verus!

//! The days of the cache: finding a wallpaper among them, listing them, pruning them.

use crate::cache::{find_candidate_by_id, opt_candidate, with_id};
use crate::date::{
    Date, date_of, date_text, days_before, has_day_before, is_before, order_is_by_number,
    parse_date, text_of_date,
};
use crate::error::{ErrorView, WallpaperError, failure};
use crate::model::{CacheIndex, CandidateView, WallpaperCandidate};
use crate::text::{join, joined, letters, texts};
use vstd::prelude::*;

verus! {

// ------------------------------------------------------------------------------------------
// Finding a wallpaper on any day
// ------------------------------------------------------------------------------------------

/// Whether `a` comes before `b` in the order of their characters.
pub open spec fn text_before(a: Seq<char>, b: Seq<char>) -> bool
    decreases a.len(),
{
    if b.len() == 0 {
        false
    } else if a.len() == 0 {
        true
    } else if a[0] != b[0] {
        a[0] < b[0]
    } else {
        text_before(a.drop_first(), b.drop_first())
    }
}

/// Whether `a` comes before `b` in the order of their characters.
pub fn is_text_before(a: &str, b: &str) -> (r: bool)
    ensures
        r == text_before(a@, b@),
{
    let x = letters(a);
    let y = letters(b);
    let mut i: usize = 0;
    assert(x@.skip(0) =~= x@ && y@.skip(0) =~= y@);
    while i < x.len() && i < y.len()
        invariant
            i <= x@.len(),
            i <= y@.len(),
            x@ == a@,
            y@ == b@,
            text_before(x@, y@) == text_before(x@.skip(i as int), y@.skip(i as int)),
        decreases x@.len() - i,
    {
        if x[i] != y[i] {
            assert(x@.skip(i as int)[0] == x@[i as int]);
            assert(y@.skip(i as int)[0] == y@[i as int]);
            return x[i] < y[i];
        }
        assert(x@.skip(i as int).drop_first() =~= x@.skip(i + 1));
        assert(y@.skip(i as int).drop_first() =~= y@.skip(i + 1));
        i += 1;
    }
    assert(x@.skip(i as int).len() == x@.len() - i);
    assert(y@.skip(i as int).len() == y@.len() - i);
    i < y.len()
}

/// A directory of the cache, by its name, and what reading its index gave.
#[derive(Debug)]
pub struct DayIndex {
    pub name: String,
    pub index: Result<Option<CacheIndex>, WallpaperError>,
}

/// Whether the search for a candidate ends at a day: its index cannot be read, or lists the
/// candidate.
pub open spec fn decides(day: DayIndex, id: Seq<char>) -> bool {
    match day.index {
        Ok(Some(index)) => with_id(index@.candidates, id) is Some,
        Ok(None) => false,
        Err(_) => true,
    }
}

/// Whether the search for a candidate ends at the day at position `i`: it is the first, in the
/// order of the names, that decides.
pub open spec fn ends_at(days: Seq<DayIndex>, id: Seq<char>, i: int) -> bool {
    &&& 0 <= i < days.len()
    &&& decides(days[i], id)
    &&& forall|j: int|
        0 <= j < days.len() && decides(#[trigger] days[j], id) ==> !text_before(
            days[j].name@,
            days[i].name@,
        )
}

/// Whether `r` is what a day says about a candidate.
pub open spec fn answers(
    day: DayIndex,
    id: Seq<char>,
    r: Result<Option<WallpaperCandidate>, WallpaperError>,
) -> bool {
    match day.index {
        Ok(Some(index)) => r matches Ok(found) && opt_candidate(found) == with_id(
            index@.candidates,
            id,
        ),
        Ok(None) => r == Ok::<Option<WallpaperCandidate>, WallpaperError>(None),
        Err(e) => r matches Err(told) && told@ == e@,
    }
}

/// Finds a candidate on the first day, in the order of the names, that lists it. An index that
/// cannot be read ends the search with its error, unless an earlier day lists the candidate.
pub fn find_candidate_any_date(days: Vec<DayIndex>, id: &str) -> (r: Result<
    Option<WallpaperCandidate>,
    WallpaperError,
>)
    ensures
        (forall|i: int| 0 <= i < days@.len() ==> !decides(#[trigger] days@[i], id@)) ==> r == Ok::<
            Option<WallpaperCandidate>,
            WallpaperError,
        >(None),
        (exists|i: int| 0 <= i < days@.len() && decides(#[trigger] days@[i], id@)) ==> exists|i: int|
            #[trigger] ends_at(days@, id@, i) && answers(days@[i], id@, r),
{
    let mut days = days;
    let ghost all = days@;
    let mut best: Option<usize> = None;
    let mut i: usize = 0;
    while i < days.len()
        invariant
            i <= days@.len(),
            days@ == all,
            match best {
                Some(b) => b < i && decides(all[b as int], id@) && forall|j: int|
                    0 <= j < i && decides(#[trigger] all[j], id@) ==> !text_before(
                        all[j].name@,
                        all[b as int].name@,
                    ),
                None => forall|j: int| 0 <= j < i ==> !decides(#[trigger] all[j], id@),
            },
        decreases days@.len() - i,
    {
        let here = match &days[i].index {
            Ok(Some(index)) => find_candidate_by_id(Some(index), id).is_some(),
            Ok(None) => false,
            Err(_) => true,
        };
        assert(here == decides(all[i as int], id@));
        if here {
            match best {
                Some(b) => {
                    let earlier = is_text_before(days[i].name.as_str(), days[b].name.as_str());
                    proof {
                        lemma_text_order(all[i as int].name@, all[i as int].name@);
                        assert forall|j: int| 0 <= j < i + 1 && decides(#[trigger] all[j], id@)
                            && earlier implies !text_before(
                            all[j].name@,
                            all[i as int].name@,
                        ) by {
                            if j < i {
                                assert(!text_before(all[j].name@, all[b as int].name@));
                                if text_before(all[j].name@, all[i as int].name@) {
                                    lemma_text_before_transitive(
                                        all[j].name@,
                                        all[i as int].name@,
                                        all[b as int].name@,
                                    );
                                }
                            }
                        }
                    }
                    if earlier {
                        best = Some(i);
                    }
                },
                None => {
                    proof {
                        lemma_text_order(all[i as int].name@, all[i as int].name@);
                    }
                    best = Some(i);
                },
            }
        }
        i += 1;
    }
    match best {
        Some(b) => {
            assert(ends_at(all, id@, b as int));
            let day = days.swap_remove(b);
            match day.index {
                Ok(index) => Ok(find_candidate_by_id(index.as_ref(), id)),
                Err(e) => Err(e),
            }
        },
        None => Ok(None),
    }
}

proof fn lemma_text_order(a: Seq<char>, b: Seq<char>)
    ensures
        a == b ==> !text_before(a, b),
        text_before(a, b) ==> !text_before(b, a),
        a != b ==> text_before(a, b) || text_before(b, a),
    decreases a.len(),
{
    if a.len() > 0 && b.len() > 0 && a[0] == b[0] {
        lemma_text_order(a.drop_first(), b.drop_first());
        if a.drop_first() == b.drop_first() {
            assert(a =~= seq![a[0]] + a.drop_first());
            assert(b =~= seq![b[0]] + b.drop_first());
        }
    }
    if a.len() == 0 && b.len() == 0 {
        assert(a =~= b);
    }
}

proof fn lemma_text_before_transitive(a: Seq<char>, b: Seq<char>, c: Seq<char>)
    requires
        text_before(a, b),
        text_before(b, c),
    ensures
        text_before(a, c),
    decreases a.len(),
{
    if a.len() > 0 && a[0] == b[0] && b[0] == c[0] {
        lemma_text_before_transitive(a.drop_first(), b.drop_first(), c.drop_first());
    }
}

/// The order of names is total: of two different names, exactly one comes first. So the search
/// for a candidate ends at one name only.
pub proof fn names_are_ordered(a: Seq<char>, b: Seq<char>)
    ensures
        a != b ==> (text_before(a, b) <==> !text_before(b, a)),
        !text_before(a, a),
{
    lemma_text_order(a, b);
    lemma_text_order(a, a);
}

// ------------------------------------------------------------------------------------------
// The days with wallpapers
// ------------------------------------------------------------------------------------------

/// A directory of the cache, by its name, and whether its index lists candidates.
#[derive(Debug)]
pub struct DayFolder {
    pub name: String,
    pub has_candidates: bool,
}

/// Whether a directory is a day to offer.
pub open spec fn offered(folder: DayFolder, today: Date, exclude_today: bool) -> bool {
    match date_of(folder.name@) {
        Some(d) => folder.has_candidates && !(exclude_today && d == today),
        None => false,
    }
}

/// The days to offer, in the order of the directories.
pub open spec fn offered_days(
    folders: Seq<DayFolder>,
    today: Date,
    exclude_today: bool,
) -> Seq<Date> {
    folders.filter(|f: DayFolder| offered(f, today, exclude_today)).map_values(
        |f: DayFolder| date_of(f.name@).unwrap(),
    )
}

/// Whether days are in falling order.
pub open spec fn newest_first(dates: Seq<Date>) -> bool {
    forall|i: int, j: int|
        0 <= i < j < dates.len() ==> !(#[trigger] dates[i]).before(#[trigger] dates[j])
}

/// Whether all days exist.
pub open spec fn all_valid(dates: Seq<Date>) -> bool {
    forall|i: int| 0 <= i < dates.len() ==> (#[trigger] dates[i]).valid()
}

/// Puts a day into its place.
fn insert_day(dates: &mut Vec<Date>, date: Date)
    requires
        newest_first(old(dates)@),
        all_valid(old(dates)@),
        date.valid(),
    ensures
        newest_first(final(dates)@),
        all_valid(final(dates)@),
        final(dates)@.to_multiset() == old(dates)@.to_multiset().insert(date),
{
    let ghost before = dates@;
    let mut at: usize = 0;
    while at < dates.len() && !is_before(dates[at], date)
        invariant
            at <= dates@.len(),
            dates@ == before,
            forall|j: int| 0 <= j < at ==> !(#[trigger] before[j]).before(date),
        decreases dates@.len() - at,
    {
        at += 1;
    }
    proof {
        assert forall|j: int| at <= j < before.len() implies !date.before(#[trigger] before[j]) by {
            assert(before[at as int].before(date));
            if j > at {
                assert(!before[at as int].before(before[j]));
            }
        }
        before.insert_ensures(at as int, date);
        let after = before.insert(at as int, date);
        assert(after.remove(at as int) =~= before);
        after.to_multiset_ensures();
        assert(after.to_multiset().count(after[at as int]) > 0);
        assert(after.to_multiset() =~= before.to_multiset().insert(date));
    }
    dates.insert(at, date);
}

/// The days that have wallpapers, newest first.
pub fn list_cached_dates(folders: &Vec<DayFolder>, today: Date, exclude_today: bool) -> (r: Vec<
    Date,
>)
    ensures
        newest_first(r@),
        all_valid(r@),
        r@.to_multiset() == offered_days(folders@, today, exclude_today).to_multiset(),
{
    let mut dates: Vec<Date> = Vec::new();
    let ghost keep = |f: DayFolder| offered(f, today, exclude_today);
    let ghost day = |f: DayFolder| date_of(f.name@).unwrap();
    let mut i: usize = 0;
    proof {
        reveal(Seq::filter);
        assert(folders@.take(0).filter(keep).map_values(day) =~= Seq::<Date>::empty());
    }
    while i < folders.len()
        invariant
            i <= folders@.len(),
            keep == (|f: DayFolder| offered(f, today, exclude_today)),
            day == (|f: DayFolder| date_of(f.name@).unwrap()),
            newest_first(dates@),
            all_valid(dates@),
            dates@.to_multiset() == folders@.take(i as int).filter(keep).map_values(
                day,
            ).to_multiset(),
        decreases folders@.len() - i,
    {
        proof {
            reveal(Seq::filter);
            assert(folders@.take(i + 1).drop_last() =~= folders@.take(i as int));
            assert(folders@.take(i + 1).last() == folders@[i as int]);
        }
        if let Some(date) = parse_date(folders[i].name.as_str()) {
            if folders[i].has_candidates && !(exclude_today && date == today) {
                insert_day(&mut dates, date);
                proof {
                    let kept = folders@.take(i as int).filter(keep);
                    assert(kept.push(folders@[i as int]).map_values(day) =~= kept.map_values(
                        day,
                    ).push(date));
                    kept.map_values(day).to_multiset_ensures();
                }
            }
        }
        i += 1;
    }
    assert(folders@.take(i as int) =~= folders@);
    dates
}

/// The texts of days.
pub open spec fn day_texts(dates: Seq<Date>) -> Seq<Seq<char>> {
    dates.map_values(|d: Date| date_text(d))
}

/// The texts of days.
pub fn date_labels(dates: &Vec<Date>) -> (r: Vec<String>)
    requires
        all_valid(dates@),
    ensures
        texts(r@) == day_texts(dates@),
{
    let mut out: Vec<String> = Vec::new();
    let mut i: usize = 0;
    while i < dates.len()
        invariant
            i <= dates@.len(),
            all_valid(dates@),
            texts(out@) == day_texts(dates@).take(i as int),
        decreases dates@.len() - i,
    {
        let ghost before = out@;
        out.push(text_of_date(dates[i]));
        assert(texts(out@) =~= texts(before).push(date_text(dates@[i as int])));
        assert(day_texts(dates@).take(i + 1) =~= day_texts(dates@).take(i as int).push(
            date_text(dates@[i as int]),
        ));
        i += 1;
    }
    assert(day_texts(dates@).take(i as int) =~= day_texts(dates@));
    out
}

/// Why a day that was asked for cannot be looked at; `None` where it can.
pub open spec fn date_refusal(value: Seq<char>, today: Date, available: Seq<Date>) -> Option<
    Seq<char>,
> {
    match date_of(value) {
        None => Some(
            "Invalid date '"@ + value
                + "'. Expected YYYY-MM-DD, or use --date pick to select from cached dates."@,
        ),
        Some(date) => if today.before(date) {
            Some(date_text(date) + " is in the future; cache only holds past days."@)
        } else if available.contains(date) {
            None
        } else if available.len() == 0 {
            Some("No cached wallpapers found for any date yet."@)
        } else {
            Some(
                "No cached wallpapers found for "@ + date_text(date) + ". Cached dates available: "@
                    + joined(day_texts(available), ", "@)
                    + ". Use --date pick to select interactively."@,
            )
        },
    }
}

/// The day that was asked for, if the cache has it; `available` are the days that it has.
pub fn validate_date_arg(value: &str, today: Date, available: &Vec<Date>) -> (r: Result<
    Date,
    WallpaperError,
>)
    requires
        all_valid(available@),
    ensures
        match r {
            Ok(d) => date_refusal(value@, today, available@) is None && date_of(value@) == Some(d)
                && d.valid() && available@.contains(d),
            Err(e) => date_refusal(value@, today, available@) is Some && e@ == ErrorView::Message(
                date_refusal(value@, today, available@).unwrap(),
            ),
        },
{
    let date = match parse_date(value) {
        Some(d) => d,
        None => {
            let mut text = "Invalid date '".to_string();
            text.append(value);
            text.append(
                "'. Expected YYYY-MM-DD, or use --date pick to select from cached dates.",
            );
            return Err(WallpaperError::Message(text));
        },
    };
    if is_before(today, date) {
        let mut text = text_of_date(date);
        text.append(" is in the future; cache only holds past days.");
        return Err(WallpaperError::Message(text));
    }
    let mut i: usize = 0;
    while i < available.len()
        invariant
            i <= available@.len(),
            date_of(value@) == Some(date),
            date.valid(),
            !today.before(date),
            forall|j: int| 0 <= j < i ==> available@[j] != date,
        decreases available@.len() - i,
    {
        if available[i] == date {
            assert(available@[i as int] == date);
            return Ok(date);
        }
        i += 1;
    }
    if available.len() == 0 {
        return Err(failure("No cached wallpapers found for any date yet."));
    }
    let mut text = "No cached wallpapers found for ".to_string();
    text.append(text_of_date(date).as_str());
    text.append(". Cached dates available: ");
    text.append(join(&date_labels(available), ", ").as_str());
    text.append(". Use --date pick to select interactively.");
    Err(WallpaperError::Message(text))
}

// ------------------------------------------------------------------------------------------
// Pruning
// ------------------------------------------------------------------------------------------

/// Whether `d` is the oldest day that is kept: the day `keep_days` days before today, or today
/// where such a day is out of range.
pub open spec fn is_cutoff(today: Date, keep_days: int, d: Date) -> bool {
    &&& d.valid()
    &&& if has_day_before(today, keep_days) {
        d.number() == today.number() - keep_days
    } else {
        d == today
    }
}

/// The oldest day that is kept.
pub fn prune_cutoff(today: Date, keep_days: u32) -> (r: Date)
    requires
        today.valid(),
    ensures
        is_cutoff(today, keep_days as int, r),
{
    match days_before(today, keep_days as i64) {
        Some(d) => d,
        None => today,
    }
}

/// Whether a directory of the cache is removed: it is named by a day before the cutoff.
pub open spec fn pruned(name: Seq<char>, cutoff: Date) -> bool {
    match date_of(name) {
        Some(d) => d.before(cutoff),
        None => false,
    }
}

/// The directories of the cache to remove, out of all that it has.
pub fn prune_targets(names: &Vec<String>, today: Date, keep_days: u32) -> (r: Vec<String>)
    requires
        today.valid(),
    ensures
        exists|cutoff: Date|
            #[trigger] is_cutoff(today, keep_days as int, cutoff) && r@ == names@.filter(
                |n: String| pruned(n@, cutoff),
            ),
{
    let cutoff = prune_cutoff(today, keep_days);
    let ghost gone = |n: String| pruned(n@, cutoff);
    let mut out: Vec<String> = Vec::new();
    let mut i: usize = 0;
    proof {
        reveal(Seq::filter);
        assert(names@.take(0).filter(gone) =~= Seq::<String>::empty());
    }
    while i < names.len()
        invariant
            i <= names@.len(),
            gone == (|n: String| pruned(n@, cutoff)),
            out@ == names@.take(i as int).filter(gone),
        decreases names@.len() - i,
    {
        proof {
            reveal(Seq::filter);
            assert(names@.take(i + 1).drop_last() =~= names@.take(i as int));
            assert(names@.take(i + 1).last() == names@[i as int]);
        }
        if let Some(date) = parse_date(names[i].as_str()) {
            if is_before(date, cutoff) {
                out.push(names[i].clone());
            }
        }
        i += 1;
    }
    assert(names@.take(i as int) =~= names@);
    out
}

/// Pruning removes the days of the cache that are older than `keep_days` days, and no other: a
/// day that is exactly so old is kept.
pub proof fn prune_keeps_recent_days(today: Date, keep_days: int, cutoff: Date, d: Date)
    requires
        today.valid(),
        d.valid(),
        0 <= d.year <= 9999,
        has_day_before(today, keep_days),
        is_cutoff(today, keep_days, cutoff),
    ensures
        pruned(date_text(d), cutoff) <==> today.number() - d.number() > keep_days,
{
    crate::date::date_reads_back(d);
    order_is_by_number(d, cutoff);
}

/// A directory that is not named by a day is never removed.
pub proof fn prune_leaves_other_directories(name: Seq<char>, cutoff: Date)
    requires
        date_of(name) is None,
    ensures
        !pruned(name, cutoff),
{
}

/// A day is offered exactly where a directory is named by it and has wallpapers; today is left out
/// where that is asked for, and no other day is.
pub proof fn days_with_wallpapers_are_offered(
    folder: DayFolder,
    today: Date,
    exclude_today: bool,
    d: Date,
)
    requires
        date_of(folder.name@) == Some(d),
    ensures
        folder.has_candidates && d != today ==> offered(folder, today, exclude_today),
        folder.has_candidates && d == today ==> offered(folder, today, exclude_today)
            == !exclude_today,
        !folder.has_candidates ==> !offered(folder, today, exclude_today),
{
}

/// A directory that is not named by a day is not offered.
pub proof fn other_directories_are_not_offered(
    folder: DayFolder,
    today: Date,
    exclude_today: bool,
)
    requires
        date_of(folder.name@) is None,
    ensures
        !offered(folder, today, exclude_today),
{
}

/// A day is accepted exactly where the cache has it and it does not lie in the future.
pub proof fn cached_days_are_accepted(value: Seq<char>, today: Date, available: Seq<Date>, d: Date)
    requires
        date_of(value) == Some(d),
        d.valid(),
        today.valid(),
    ensures
        date_refusal(value, today, available) is None <==> available.contains(d) && d.number()
            <= today.number(),
{
    order_is_by_number(today, d);
}

/// A text that spells no day is refused.
pub proof fn other_texts_are_refused(value: Seq<char>, today: Date, available: Seq<Date>)
    requires
        date_of(value) is None,
    ensures
        date_refusal(value, today, available) is Some,
{
}

/// What is found for an id has that id and is in the index of the day; a day that cannot be read
/// tells why.
pub proof fn found_wallpaper_has_the_id(
    day: DayIndex,
    id: Seq<char>,
    r: Result<Option<WallpaperCandidate>, WallpaperError>,
)
    requires
        answers(day, id, r),
    ensures
        r matches Ok(Some(c)) ==> c@.id == id && (day.index matches Ok(Some(index))
            && index@.candidates.contains(c@)),
        day.index matches Err(e) ==> (r matches Err(told) && told@ == e@),
        day.index matches Ok(Some(index)) ==> (forall|i: int|
            0 <= i < index@.candidates.len() && (#[trigger] index@.candidates[i]).id == id ==> (
            r matches Ok(Some(_)))),
{
    if let Ok(Some(index)) = day.index {
        lemma_by_id(index@.candidates, id);
    }
}

proof fn lemma_by_id(s: Seq<CandidateView>, id: Seq<char>)
    ensures
        with_id(s, id) matches Some(c) ==> c.id == id && s.contains(c),
        with_id(s, id) is None ==> forall|i: int| 0 <= i < s.len() ==> (#[trigger] s[i]).id != id,
    decreases s.len(),
{
    if s.len() > 0 {
        let rest = s.drop_first();
        if s[0].id == id {
            assert(s.contains(s[0]));
        } else {
            lemma_by_id(rest, id);
            if let Some(c) = with_id(rest, id) {
                let i = choose|i: int| 0 <= i < rest.len() && rest[i] == c;
                assert(s[i + 1] == c);
            } else {
                assert forall|i: int| 0 <= i < s.len() implies (#[trigger] s[i]).id != id by {
                    if i > 0 {
                        assert(rest[i - 1] == s[i]);
                    }
                }
            }
        }
    }
}

} // verus!

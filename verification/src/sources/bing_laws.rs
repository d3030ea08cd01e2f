//! What holds of the fetches of Bing's wallpapers: which wallpaper of the cache is used for which
//! country, when Bing is asked, and what a wallpaper that was downloaded is kept as.

use crate::cache::{listed, upserted};
use crate::checksum::checksum_text;
use crate::download::DownloadedImage;
use crate::error::WallpaperError;
use crate::form::{form_plain_text, plain_text_is_not_changed};
use crate::model::{CandidateView, WallpaperCandidate, WallpaperSource, candidates};
use crate::number::{all_digits, is_digit, lemma_decimal, signed_decimal};
use crate::path::{parent, path_join};
use crate::sources::bing::{archive_url, decoded, document, document_date, startdate_label, text_date};
use crate::sources::bing_fetch::{
    BingJob, BingPage, BingStage, bing_advances, country_matches, eligible, file_prefix,
    id_resolution, image_file, image_url, is_best, new_candidate, place, rank,
};
use crate::sources::fetch::{FetchAction, FetchEvent};
use crate::text::{
    Class, begins_with, holds, opt_text, position, replaced, stripped, texts, trim_start,
};
use crate::xml::text_named;
use vstd::prelude::*;

verus! {

// ------------------------------------------------------------------------------------------
// The wallpapers of a country
// ------------------------------------------------------------------------------------------

/// How the id of a wallpaper of one day and country begins.
pub open spec fn says_day_and_country(
    id: Seq<char>,
    date: Seq<char>,
    country: Seq<char>,
) -> bool {
    let p = "bing-"@ + date + "-"@ + country + "-"@;
    p.len() <= id.len() && id.take(p.len() as int) == p
}

proof fn lemma_filtered(s: Seq<CandidateView>, p: spec_fn(CandidateView) -> bool, c: CandidateView)
    ensures
        s.filter(p).contains(c) <==> s.contains(c) && p(c),
    decreases s.len(),
{
    reveal(Seq::filter);
    if s.len() > 0 {
        let t = s.drop_last();
        lemma_filtered(t, p, c);
        if s.contains(c) {
            let i = choose|i: int| 0 <= i < s.len() && s[i] == c;
            if i < s.len() - 1 {
                assert(t[i] == c);
            }
        }
        if t.contains(c) {
            let i = choose|i: int| 0 <= i < t.len() && t[i] == c;
            assert(s[i] == c);
        }
        let f = t.filter(p);
        if s.filter(p).contains(c) {
            let i = choose|i: int| 0 <= i < s.filter(p).len() && s.filter(p)[i] == c;
            if i < f.len() {
                assert(f[i] == c);
            } else {
                assert(s[s.len() - 1] == c);
            }
        }
        if f.contains(c) {
            let i = choose|i: int| 0 <= i < f.len() && f[i] == c;
            assert(s.filter(p)[i] == c);
        }
        if p(c) && s.last() == c {
            assert(s.filter(p)[f.len() as int] == c);
        }
    }
}

proof fn lemma_prefix(id: Seq<char>, date: Seq<char>, country: Seq<char>)
    ensures
        begins_with(id, "bing-"@ + date + "-"@ + country + "-"@) == says_day_and_country(
            id,
            date,
            country,
        ),
{
    let p = "bing-"@ + date + "-"@ + country + "-"@;
    if p.len() <= id.len() {
        assert(id.subrange(0, p.len() as int) =~= id.take(p.len() as int));
    }
}

/// For another country than `en-US`, the wallpapers of the cache are exactly those of Bing whose
/// ids say the day and the country.
pub proof fn cached_wallpapers_are_of_the_country(
    all: Seq<CandidateView>,
    date: Seq<char>,
    country: Seq<char>,
    c: CandidateView,
)
    requires
        country != "en-US"@,
    ensures
        country_matches(all, date, country).contains(c) <==> all.contains(c) && c.source is Bing
            && says_day_and_country(c.id, date, country),
{
    let of_bing = |c: CandidateView| c.source == WallpaperSource::Bing;
    let p = |c: CandidateView| begins_with(c.id, "bing-"@ + date + "-"@ + country + "-"@);
    lemma_filtered(all, of_bing, c);
    lemma_filtered(all.filter(of_bing), p, c);
    lemma_prefix(c.id, date, country);
    assert(country_matches(all, date, country) == all.filter(of_bing).filter(p));
}

/// For every country, `en-US` among them, the wallpapers of the cache are of Bing, and one whose
/// id says the day and the country is among them.
pub proof fn own_wallpaper_is_found(
    all: Seq<CandidateView>,
    date: Seq<char>,
    country: Seq<char>,
    c: CandidateView,
)
    requires
        all.contains(c),
        c.source is Bing,
        says_day_and_country(c.id, date, country),
    ensures
        country_matches(all, date, country).contains(c),
        forall|d: CandidateView| #[trigger]
            country_matches(all, date, country).contains(d) ==> all.contains(d) && d.source is Bing
                && says_day_and_country(d.id, date, country),
{
    let of_bing = |c: CandidateView| c.source == WallpaperSource::Bing;
    let p = |c: CandidateView| begins_with(c.id, "bing-"@ + date + "-"@ + country + "-"@);
    lemma_filtered(all, of_bing, c);
    lemma_filtered(all.filter(of_bing), p, c);
    lemma_prefix(c.id, date, country);
    let named = all.filter(of_bing).filter(p);
    assert(named.contains(c));
    assert(named.len() > 0);
    assert(country_matches(all, date, country) == named);
    assert forall|d: CandidateView| #[trigger] named.contains(d) implies all.contains(d)
        && d.source is Bing && says_day_and_country(d.id, date, country) by {
        lemma_filtered(all, of_bing, d);
        lemma_filtered(all.filter(of_bing), p, d);
        lemma_prefix(d.id, date, country);
    }
}

/// The id of a wallpaper of one country does not say another country, unless the name of one of
/// them goes on where the other ends.
proof fn lemma_ids_say_one_country(
    date: Seq<char>,
    a: Seq<char>,
    b: Seq<char>,
    resolution: Seq<char>,
)
    requires
        a != b,
        !says_more(a, b),
        !says_more(b, a) || !resolution.contains('-'),
    ensures
        !says_day_and_country(
            "bing-"@ + date + "-"@ + a + "-"@ + resolution,
            date,
            b,
        ),
{
    let id = "bing-"@ + date + "-"@ + a + "-"@ + resolution;
    let p = "bing-"@ + date + "-"@ + b + "-"@;
    let n = ("bing-"@ + date + "-"@).len() as int;
    reveal_strlit("-");
    if p.len() <= id.len() && id.take(p.len() as int) == p {
        assert forall|i: int| 0 <= i < p.len() implies id[i] == p[i] by {
            assert(id.take(p.len() as int)[i] == p[i]);
        }
        assert(id[n + b.len()] == '-');
        assert forall|i: int| 0 <= i < a.len() && i < b.len() implies a[i] == b[i] by {
            assert(id[n + i] == a[i]);
            assert(p[n + i] == b[i]);
        }
        if a.len() == b.len() {
            assert(a =~= b);
        } else if a.len() > b.len() {
            assert(id[n + b.len()] == a[b.len() as int]);
            assert(a.take(b.len() as int) =~= b);
            assert(says_more(a, b));
        } else {
            assert(id[n + a.len()] == '-');
            assert(p[n + a.len()] == b[a.len() as int]);
            assert(b.take(a.len() as int) =~= a);
            assert(says_more(b, a));
            let k = b.len() - a.len() - 1;
            assert(id[n + b.len()] == resolution[k]);
            assert(resolution.contains('-'));
        }
    }
}

/// Whether the name `a` begins with the name `b` and a hyphen.
pub open spec fn says_more(a: Seq<char>, b: Seq<char>) -> bool {
    b.len() < a.len() && a.take(b.len() as int) == b && a[b.len() as int] == '-'
}

/// Whether an id is one of a wallpaper of one day that was stored for `other`, in a resolution;
/// the resolution has no hyphen where `country` is `other` with more behind a hyphen.
pub open spec fn stored_for(
    id: Seq<char>,
    date: Seq<char>,
    other: Seq<char>,
    country: Seq<char>,
) -> bool {
    exists|r: Seq<char>|
        id == "bing-"@ + date + "-"@ + other + "-"@ + r && (!says_more(country, other)
            || !#[trigger] r.contains('-'))
}

/// A wallpaper that was stored for one country is never taken for that of another: where the
/// cache has nothing else of Bing, the other country has nothing.
pub proof fn wallpaper_of_another_country_is_not_used(
    all: Seq<CandidateView>,
    date: Seq<char>,
    country: Seq<char>,
    other: Seq<char>,
)
    requires
        country != "en-US"@,
        other != country,
        !says_more(other, country),
        forall|i: int|
            0 <= i < all.len() && (#[trigger] all[i]).source is Bing ==> stored_for(
                all[i].id,
                date,
                other,
                country,
            ),
    ensures
        country_matches(all, date, country).len() == 0,
{
    let found = country_matches(all, date, country);
    if found.len() > 0 {
        let c = found[0];
        assert(found.contains(c));
        cached_wallpapers_are_of_the_country(all, date, country, c);
        let i = choose|i: int| 0 <= i < all.len() && all[i] == c;
        assert(stored_for(all[i].id, date, other, country));
        let r = choose|r: Seq<char>|
            all[i].id == "bing-"@ + date + "-"@ + other + "-"@ + r && (!says_more(country, other)
                || !#[trigger] r.contains('-'));
        lemma_ids_say_one_country(date, other, country, r);
    }
}

/// Whether a fetch asks Bing, or ends because it is offline.
pub open spec fn asks_bing(job: BingJob, next: BingStage, action: FetchAction) -> bool {
    if job.offline {
        action matches FetchAction::Finish(Err(_))
    } else {
        next is Ask && action is Get
    }
}

/// Where the index of the day has no wallpaper of Bing but those of another country, a fetch asks
/// Bing, unless it is offline.
pub proof fn country_without_wallpaper_is_asked_for(
    job: BingJob,
    index: Option<crate::model::CacheIndex>,
    other: Seq<char>,
    next: BingStage,
    action: FetchAction,
)
    requires
        bing_advances(job, BingStage::ReadIndex, FetchEvent::Index(Ok(index)), next, action),
        job.country@ != "en-US"@,
        other != job.country@,
        !says_more(other, job.country@),
        forall|i: int|
            0 <= i < listed(index).len() && (#[trigger] listed(index)[i]).source is Bing ==> stored_for(
                listed(index)[i].id,
                job.date@,
                other,
                job.country@,
            ),
    ensures
        asks_bing(job, next, action),
{
    wallpaper_of_another_country_is_not_used(listed(index), job.date@, job.country@, other);
}

/// Without a wallpaper of Bing in the index, every country is asked for, unless offline.
pub proof fn empty_cache_asks_bing(
    job: BingJob,
    index: Option<crate::model::CacheIndex>,
    next: BingStage,
    action: FetchAction,
)
    requires
        bing_advances(job, BingStage::ReadIndex, FetchEvent::Index(Ok(index)), next, action),
        forall|i: int| 0 <= i < listed(index).len() ==> !((#[trigger] listed(index)[i]).source is Bing),
    ensures
        asks_bing(job, next, action),
{
    let all = listed(index);
    let of_bing = |c: CandidateView| c.source == WallpaperSource::Bing;
    let found = country_matches(all, job.date@, job.country@);
    crate::cache::lemma_first_where(all, of_bing, all.len() as int);
    if found.len() > 0 {
        let c = found[0];
        assert(found.contains(c));
        let p = |c: CandidateView|
            begins_with(c.id, "bing-"@ + job.date@ + "-"@ + job.country@ + "-"@);
        lemma_filtered(all, of_bing, c);
        lemma_filtered(all.filter(of_bing), p, c);
        assert(all.contains(c));
    }
}

/// A wallpaper that was downloaded is kept under an id that says the day, the country and the
/// resolution, with its own file, checksum and address, with what the answer of Bing says of it,
/// and under the day that the answer names.
pub proof fn downloaded_wallpaper_is_kept(
    job: BingJob,
    page: BingPage,
    at: usize,
    last: Option<WallpaperError>,
    image: DownloadedImage,
    next: BingStage,
    action: FetchAction,
)
    requires
        at < job.resolutions@.len(),
        page.reads(page.body@),
        bing_advances(
            job,
            BingStage::Fetch { page, at, last },
            FetchEvent::Downloaded(Ok(image)),
            next,
            action,
        ),
    ensures
        next is Store,
        action matches FetchAction::Upsert { date, candidate } && date@ == job.date@ && {
            let nodes = document(page.body@).unwrap();
            &&& candidate@.id == "bing-"@ + job.date@ + "-"@ + job.country@ + "-"@
                + job.resolutions@[at as int]@
            &&& candidate@.source is Bing
            &&& candidate@.local_path == image.path@
            &&& candidate@.image_url == image.image_url@
            &&& candidate@.checksum == opt_text(image.checksum)
            &&& candidate@.title == text_named(nodes, "headline"@)
            &&& candidate@.attribution == text_named(nodes, "copyright"@)
            &&& candidate@.info_url == text_named(nodes, "copyrightlink"@)
            &&& candidate@.description is None
            &&& candidate@.metadata_xml == Some(page.text@)
            &&& candidate@.date == match document_date(nodes) {
                Some(day) => day,
                None => job.date@,
            }
        },
{
}

/// What a fetch stored is found by the next fetch of that day and country.
pub proof fn stored_wallpaper_is_found_again(
    job: BingJob,
    page: BingPage,
    resolution: Seq<char>,
    image: DownloadedImage,
    before: Seq<CandidateView>,
)
    ensures
        country_matches(
            upserted(before, new_candidate(job, page, resolution, image)),
            job.date@,
            job.country@,
        ).contains(new_candidate(job, page, resolution, image)),
{
    let c = new_candidate(job, page, resolution, image);
    let after = upserted(before, c);
    crate::cache::upsert_then_find(before, c, c.id);
    lemma_upserted_has(before, c);
    let p = "bing-"@ + job.date@ + "-"@ + job.country@ + "-"@;
    assert(c.id.take(p.len() as int) =~= p);
    own_wallpaper_is_found(after, job.date@, job.country@, c);
}

proof fn lemma_upserted_has(s: Seq<CandidateView>, c: CandidateView)
    ensures
        upserted(s, c).contains(c),
    decreases s.len(),
{
    let r = upserted(s, c);
    if s.len() == 0 || s[0].id == c.id {
        assert(r[0] == c);
    } else {
        let t = upserted(s.drop_first(), c);
        lemma_upserted_has(s.drop_first(), c);
        let i = choose|i: int| 0 <= i < t.len() && t[i] == c;
        assert(r[i + 1] == c);
    }
}

// ------------------------------------------------------------------------------------------
// When the cache is used
// ------------------------------------------------------------------------------------------

/// Without a file of any of its wallpapers, a country is asked for again; so it is, with files,
/// when the fetch is forced. Offline, neither asks.
pub proof fn cache_without_files_is_not_used(
    job: BingJob,
    list: Vec<crate::model::WallpaperCandidate>,
    present: Vec<bool>,
    next: BingStage,
    action: FetchAction,
)
    requires
        present@.len() == list@.len(),
        bing_advances(
            job,
            BingStage::Look(list),
            FetchEvent::Present(present),
            next,
            action,
        ),
        (job.force && !job.offline) || forall|i: int|
            0 <= i < present@.len() ==> !#[trigger] present@[i],
    ensures
        asks_bing(job, next, action),
{
}

/// A wallpaper of the cache whose metadata is of another day than the one asked for, or says no
/// day, is not used when metadata is refreshed; Bing is asked.
pub proof fn outdated_wallpaper_is_asked_for_again(
    job: BingJob,
    c: WallpaperCandidate,
    next: BingStage,
    action: FetchAction,
)
    requires
        bing_advances(
            job,
            BingStage::Keep(c),
            FetchEvent::Outcome(Ok(())),
            next,
            action,
        ),
        !job.offline,
        job.refresh_metadata,
        c@.metadata_xml matches Some(xml) ==> text_date(xml) != Some(job.date@),
    ensures
        next is Ask,
        action is Get,
{
}

/// A wallpaper of the cache is used as it is where metadata is not refreshed, offline, or where
/// its metadata is of the day that is asked for.
pub proof fn current_wallpaper_is_used(
    job: BingJob,
    c: WallpaperCandidate,
    next: BingStage,
    action: FetchAction,
)
    requires
        bing_advances(
            job,
            BingStage::Keep(c),
            FetchEvent::Outcome(Ok(())),
            next,
            action,
        ),
        job.offline || !job.refresh_metadata || (c@.metadata_xml matches Some(xml) && text_date(xml)
            == Some(job.date@)),
    ensures
        match next {
            BingStage::CheckInfo(kept) => kept@ == c@,
            BingStage::Over => action matches FetchAction::Finish(Ok(found)) && candidates(
                found.candidates@,
            ) == seq![c@] && found.skipped_download,
            _ => false,
        },
{
}

/// Whether an id ends with a hyphen and the given resolution.
pub open spec fn ends_with_resolution(id: Seq<char>, resolution: Seq<char>) -> bool {
    &&& !resolution.contains('-')
    &&& resolution.len() < id.len()
    &&& id[id.len() - resolution.len() - 1] == '-'
    &&& id.skip(id.len() - resolution.len()) == resolution
}

proof fn lemma_id_resolution(id: Seq<char>, resolution: Seq<char>)
    requires
        ends_with_resolution(id, resolution),
    ensures
        id_resolution(id) == resolution,
    decreases resolution.len(),
{
    if resolution.len() == 0 {
        assert(id.last() == '-');
    } else {
        let n = id.len() - resolution.len();
        assert(id.skip(n)[resolution.len() - 1] == resolution.last());
        assert(id.last() == resolution.last());
        assert(resolution.contains(resolution[resolution.len() - 1]));
        let shorter = resolution.drop_last();
        assert(id.drop_last().skip(n) =~= shorter) by {
            assert forall|i: int| 0 <= i < shorter.len() implies id.drop_last().skip(n)[i]
                == shorter[i] by {
                assert(id.skip(n)[i] == resolution[i]);
            }
        }
        assert(!shorter.contains('-')) by {
            if shorter.contains('-') {
                let i = choose|i: int| 0 <= i < shorter.len() && shorter[i] == '-';
                assert(resolution[i] == '-');
            }
        }
        lemma_id_resolution(id.drop_last(), shorter);
        assert(shorter.push(resolution.last()) =~= resolution);
    }
}

proof fn lemma_place(list: Seq<Seq<char>>, t: Seq<char>, i: int)
    requires
        0 <= i < list.len(),
        list[i] == t,
        forall|j: int| 0 <= j < i ==> list[j] != t,
    ensures
        place(list, t) == i,
    decreases list.len(),
{
    if i > 0 {
        assert(list[0] != t);
        lemma_place(list.drop_first(), t, i - 1);
    }
}

/// Of the wallpapers of the cache whose files are there, and in the cache if any is, the one is
/// used whose resolution stands first in the list: never one with a resolution that stands later
/// than that of another.
pub proof fn first_resolution_is_preferred(
    all: Seq<CandidateView>,
    present: Seq<bool>,
    dir: Seq<char>,
    resolutions: Seq<Seq<char>>,
    best: int,
    other: int,
    m: int,
    n: int,
)
    requires
        present.len() == all.len(),
        is_best(all, present, dir, resolutions, best),
        0 <= other < all.len(),
        present[other],
        crate::path::lies_in(all[other].local_path, dir),
        0 <= m < resolutions.len(),
        0 <= n < resolutions.len(),
        ends_with_resolution(all[best].id, resolutions[m]),
        ends_with_resolution(all[other].id, resolutions[n]),
        forall|j: int| 0 <= j < m ==> resolutions[j] != resolutions[m],
        forall|j: int| 0 <= j < n ==> resolutions[j] != resolutions[n],
    ensures
        present[best],
        crate::path::lies_in(all[best].local_path, dir),
        m <= n,
{
    assert(eligible(all, present, dir, other));
    lemma_id_resolution(all[best].id, resolutions[m]);
    lemma_id_resolution(all[other].id, resolutions[n]);
    lemma_place(resolutions, resolutions[m], m);
    lemma_place(resolutions, resolutions[n], n);
    assert(rank(all[best], resolutions) <= rank(all[other], resolutions));
}

/// The wallpaper of the cache that is used has its file there, if any of them has.
pub proof fn used_wallpaper_is_there(
    all: Seq<CandidateView>,
    present: Seq<bool>,
    dir: Seq<char>,
    resolutions: Seq<Seq<char>>,
    best: int,
    other: int,
)
    requires
        present.len() == all.len(),
        is_best(all, present, dir, resolutions, best),
        0 <= other < all.len(),
        present[other],
    ensures
        0 <= best < all.len(),
        present[best],
{
}

// ------------------------------------------------------------------------------------------
// What Bing is asked for
// ------------------------------------------------------------------------------------------

/// The address that Bing is asked at names the day, by how far it lies back, and the country.
pub proof fn bing_is_asked_for_day_and_country(day: int, country: Seq<char>)
    requires
        form_plain_text(country),
    ensures
        archive_url(day, Some(country))
            == "https://www.bing.com/HPImageArchive.aspx?format=xml&idx="@ + signed_decimal(day)
            + "&n=1&mkt="@ + country,
{
    reveal_strlit("https://www.bing.com/HPImageArchive.aspx?format=xml&idx=");
    reveal_strlit("https://www.bing.com/HPImageArchive.aspx");
    reveal_strlit("?");
    reveal_strlit("format");
    reveal_strlit("xml");
    reveal_strlit("idx");
    reveal_strlit("n");
    reveal_strlit("1");
    reveal_strlit("mkt");
    reveal_strlit("&n=1&mkt=");
    reveal_strlit("-");
    let d = signed_decimal(day);
    lemma_decimal(
        if day < 0 {
            (-day) as nat
        } else {
            day as nat
        },
    );
    assert(form_plain_text(d)) by {
        assert forall|i: int| 0 <= i < d.len() implies (#[trigger] d[i]) as int <= 0x7f
            && crate::form::form_plain(d[i] as u8) by {
            let digits = crate::number::decimal(
                if day < 0 {
                    (-day) as nat
                } else {
                    day as nat
                },
            );
            if day < 0 {
                if i > 0 {
                    assert(d[i] == digits[i - 1]);
                    assert(is_digit(digits[i - 1]));
                }
            } else {
                assert(is_digit(digits[i]));
            }
        }
    }
    plain_text_is_not_changed("format"@);
    plain_text_is_not_changed("xml"@);
    plain_text_is_not_changed("idx"@);
    plain_text_is_not_changed(d);
    plain_text_is_not_changed("n"@);
    plain_text_is_not_changed("1"@);
    plain_text_is_not_changed("mkt"@);
    plain_text_is_not_changed(country);
    assert(archive_url(day, Some(country))
        =~= "https://www.bing.com/HPImageArchive.aspx?format=xml&idx="@ + d + "&n=1&mkt="@
        + country);
}

/// The address of an image: protocol, host, the base that Bing names, and the resolution.
pub proof fn image_is_downloaded_in_its_resolution(
    proto: Seq<char>,
    host: Seq<char>,
    base: Seq<char>,
    resolution: Seq<char>,
)
    requires
        base.len() > 0,
        base[0] != '/',
    ensures
        image_url(proto, host, seq!['/'] + base, resolution) == proto + "://"@ + host + "/"@ + base
            + "_"@ + resolution + ".jpg"@,
{
    let s = (seq!['/'] + base) + "_"@ + resolution + ".jpg"@;
    let t = base + "_"@ + resolution + ".jpg"@;
    assert(s.drop_first() =~= t);
    reveal_with_fuel(trim_start, 3);
    assert(trim_start(s, Class::One('/')) == t);
    assert(image_url(proto, host, seq!['/'] + base, resolution) =~= proto + "://"@ + host + "/"@
        + base + "_"@ + resolution + ".jpg"@);
}

/// An image is kept under the name that Bing gives it, with its resolution, behind the name of
/// the schedule.
pub proof fn image_is_kept_under_its_name(
    prefix: Seq<char>,
    name: Seq<char>,
    resolution: Seq<char>,
)
    requires
        !holds(name + "_"@ + resolution + ".jpg"@, "/th?id="@),
    ensures
        image_file(prefix, None, "/th?id="@ + name, resolution) == prefix + "-"@ + name + "_"@
            + resolution + ".jpg"@,
{
    let pat = "/th?id="@;
    reveal_strlit("/th?id=");
    reveal_strlit("");
    let rest = name + "_"@ + resolution + ".jpg"@;
    let s = (pat + name) + "_"@ + resolution + ".jpg"@;
    assert(s =~= pat + rest);
    assert(s.subrange(0, pat.len() as int) =~= pat);
    assert(crate::text::occurs_at(s, pat, 0));
    assert(position(s, pat) == Some(0int));
    assert(s.skip(pat.len() as int) =~= rest);
    assert(position(rest, pat) is None);
    reveal_with_fuel(replaced, 2);
    assert(replaced(s, pat, ""@) =~= rest);
    assert(image_file(prefix, None, pat + name, resolution) =~= prefix + "-"@ + name + "_"@
        + resolution + ".jpg"@);
}

/// With several countries the files of two of them are told apart; with one country they are
/// those of the schedule.
pub proof fn files_tell_countries_apart(
    name: Seq<char>,
    a: Seq<char>,
    b: Seq<char>,
    countries: nat,
)
    ensures
        countries > 1 && a != b ==> file_prefix(name, a, countries) != file_prefix(
            name,
            b,
            countries,
        ),
        countries > 1 ==> file_prefix(name, a, countries) == name + "-"@ + a,
        countries <= 1 ==> file_prefix(name, a, countries) == name,
{
    let x = name + "-"@ + a;
    let y = name + "-"@ + b;
    if x == y {
        assert(x.skip((name + "-"@).len() as int) =~= a);
        assert(y.skip((name + "-"@).len() as int) =~= b);
    }
}

// ------------------------------------------------------------------------------------------
// What Bing answers
// ------------------------------------------------------------------------------------------

/// Whether eight characters are spelled by a label of a day: year, month and day.
pub open spec fn spells(label: Seq<char>, digits: Seq<char>) -> bool {
    &&& label.len() == 10
    &&& label[4] == '-'
    &&& label[7] == '-'
    &&& label.take(4) == digits.take(4)
    &&& label.subrange(5, 7) == digits.subrange(4, 6)
    &&& label.skip(8) == digits.skip(6)
}

/// Eight digits name a day; nothing else does.
pub proof fn eight_digits_name_a_day(text: Seq<char>)
    ensures
        match startdate_label(text) {
            Some(label) => stripped(text).len() == 8 && spells(label, stripped(text)),
            None => stripped(text).len() != 8 || exists|i: int|
                0 <= i < stripped(text).len() && !('0' <= #[trigger] stripped(text)[i]
                    && stripped(text)[i] <= '9'),
        },
{
    let t = stripped(text);
    match startdate_label(text) {
        Some(label) => {
            assert(label.take(4) =~= t.take(4));
            assert(label.subrange(5, 7) =~= t.subrange(4, 6));
            assert(label.skip(8) =~= t.skip(6));
        },
        None => {
            if t.len() == 8 {
                assert(!all_digits(t));
                let i = choose|i: int| 0 <= i < t.len() && !is_digit(#[trigger] t[i]);
                assert(!('0' <= t[i] && t[i] <= '9'));
            }
        },
    }
}

/// The wallpaper that is downloaded is the one whose address the answer names; resolutions are
/// tried from the first on.
pub proof fn answer_names_the_wallpaper(
    job: BingJob,
    body: Vec<u8>,
    next: BingStage,
    action: FetchAction,
)
    requires
        job.resolutions@.len() > 0,
        bing_advances(job, BingStage::Body, FetchEvent::Body(Ok(body)), next, action),
    ensures
        match document(body@) {
            None => action matches FetchAction::Finish(Err(e)) && e is MetadataParse,
            Some(nodes) => match text_named(nodes, "urlBase"@) {
                None => action matches FetchAction::Finish(Err(e)) && e is MissingImageUrl,
                Some(base) => action matches FetchAction::DownloadImage {
                    url_base,
                    resolution,
                    metadata,
                } && url_base@ == base && resolution@ == job.resolutions@[0]@ && metadata@
                    == body@,
            },
        },
{
}

/// A resolution that Bing does not have, or that cannot be downloaded, is followed by the next
/// one; after the last one the fetch fails with the last failure that is not a missing file.
pub proof fn next_resolution_is_tried(
    job: BingJob,
    page: BingPage,
    at: usize,
    last: Option<WallpaperError>,
    e: WallpaperError,
    next: BingStage,
    action: FetchAction,
)
    requires
        at < job.resolutions@.len(),
        page.reads(page.body@),
        bing_advances(
            job,
            BingStage::Fetch { page, at, last },
            FetchEvent::Downloaded(Err(e)),
            next,
            action,
        ),
        !(e is MinResolution),
    ensures
        at + 1 < job.resolutions@.len() ==> (action matches FetchAction::DownloadImage {
            url_base,
            resolution,
            ..
        } && url_base@ == page.url_base@ && resolution@ == job.resolutions@[at + 1]@),
        at + 1 == job.resolutions@.len() && !(e is DownloadStatus) ==> (
        action matches FetchAction::Finish(Err(told)) && told@ == e@),
        at + 1 == job.resolutions@.len() && (e matches WallpaperError::DownloadStatus {
            status,
            ..
        } && status == 404) && last is Some ==> (action matches FetchAction::Finish(Err(told))
            && told@ == last->0@),
        at + 1 == job.resolutions@.len() ==> action matches FetchAction::Finish(Err(_)),
{
}

/// A wallpaper that is smaller than asked for ends the fetch; it is noted that Bing is not to be
/// asked again on that day.
pub proof fn small_wallpaper_is_noted(
    job: BingJob,
    page: BingPage,
    at: usize,
    last: Option<WallpaperError>,
    e: WallpaperError,
    next: BingStage,
    action: FetchAction,
)
    requires
        e is MinResolution,
        bing_advances(
            job,
            BingStage::Fetch { page, at, last },
            FetchEvent::Downloaded(Err(e)),
            next,
            action,
        ),
    ensures
        action matches FetchAction::WriteSkip { date, source, reason } && date@ == job.date@
            && source is Bing && reason@ == "min_resolution"@,
        next is Skip,
{
}

/// What fails while Bing is asked or something is kept is told as it is, and ends the fetch.
pub proof fn failure_of_bing_is_told(
    job: BingJob,
    at: BingStage,
    event: FetchEvent,
    e: WallpaperError,
    next: BingStage,
    action: FetchAction,
)
    requires
        bing_advances(job, at, event, next, action),
        at is ReadIndex && event == FetchEvent::Index(Err(e)) || at is Body && event
            == FetchEvent::Body(Err(e)) || (at is Keep || at is WriteInfo || at is Store) && event
            == FetchEvent::Outcome(Err(e)),
    ensures
        next is Over,
        action matches FetchAction::Finish(Err(told)) && told@ == e@,
{
}

/// An answer of Bing is read if its status is 200, and else the fetch fails.
pub proof fn only_good_answers_of_bing_are_read(
    job: BingJob,
    status: u16,
    next: BingStage,
    action: FetchAction,
)
    requires
        bing_advances(job, BingStage::Ask, FetchEvent::Answer(Ok(status)), next, action),
    ensures
        status == 200 <==> action is ReadBody,
        status != 200 ==> (action matches FetchAction::Finish(Err(_))),
{
}

/// The files that are looked for are those of the wallpapers that the cache has, one for each.
pub proof fn files_of_the_cache_are_looked_for(
    job: BingJob,
    event: FetchEvent,
    next: BingStage,
    action: FetchAction,
    i: int,
)
    requires
        bing_advances(job, BingStage::ReadIndex, event, next, action),
        action is LookFor,
    ensures
        next matches BingStage::Look(list) && (action matches FetchAction::LookFor(paths)
            && paths@.len() == list@.len() && (0 <= i < list@.len() ==> paths@[i]@
            == list@[i].local_path@)),
{
    if let BingStage::Look(list) = next {
        if let FetchAction::LookFor(paths) = action {
            assert(texts(paths@) == crate::sources::fetch::paths_of(candidates(list@)));
            assert(texts(paths@).len() == list@.len());
            if 0 <= i < list@.len() {
                assert(texts(paths@)[i] == paths@[i]@);
                assert(candidates(list@)[i] == list@[i]@);
            }
        }
    }
}

/// A wallpaper that is used from the cache gets its metadata beside it, where the file is gone;
/// it is given as it is, as one that was not downloaded.
pub proof fn metadata_is_put_back(
    job: BingJob,
    c: WallpaperCandidate,
    present: Vec<bool>,
    dir: Seq<char>,
    xml: String,
    next: BingStage,
    action: FetchAction,
)
    requires
        bing_advances(job, BingStage::CheckInfo(c), FetchEvent::Present(present), next, action),
        parent(c.local_path@) == Some(dir),
        c.metadata_xml == Some(xml),
    ensures
        !present@[0] ==> (action matches FetchAction::WriteFile { path, text } && path@ == path_join(
            dir,
            "info.xml"@,
        ) && text@ == xml@),
        present@[0] ==> (action matches FetchAction::Finish(Ok(found)) && found.skipped_download
            && candidates(found.candidates@) == seq![c@]),
{
}

/// A file of the cache without a checksum is read to get one, and the checksum is kept in the
/// index of the day.
pub proof fn missing_checksum_is_kept(
    job: BingJob,
    c: WallpaperCandidate,
    bytes: Vec<u8>,
    next: BingStage,
    action: FetchAction,
)
    requires
        bing_advances(
            job,
            BingStage::Sum(c),
            FetchEvent::Contents(Ok(Some(bytes))),
            next,
            action,
        ),
    ensures
        action matches FetchAction::Upsert { date, candidate } && date@ == job.date@
            && candidate@.checksum == Some(checksum_text(bytes@)) && candidate@.id == c@.id
            && candidate@.local_path == c@.local_path && candidate@.title == c@.title
            && candidate@.image_url == c@.image_url && candidate@.date == c@.date
            && candidate@.metadata_xml == c@.metadata_xml,
{
}

/// The metadata that a wallpaper keeps is the whole text of the answer that named it.
pub proof fn whole_answer_is_kept(
    job: BingJob,
    body: Vec<u8>,
    next: BingStage,
    action: FetchAction,
    image: DownloadedImage,
    after: BingStage,
    kept: FetchAction,
)
    requires
        job.resolutions@.len() > 0,
        bing_advances(job, BingStage::Body, FetchEvent::Body(Ok(body)), next, action),
        next is Fetch,
        bing_advances(job, next, FetchEvent::Downloaded(Ok(image)), after, kept),
    ensures
        kept matches FetchAction::Upsert { candidate, .. } && candidate@.metadata_xml == decoded(
            body@,
        ) && candidate@.title == text_named(document(body@).unwrap(), "headline"@)
            && candidate@.attribution == text_named(document(body@).unwrap(), "copyright"@)
            && candidate@.info_url == text_named(document(body@).unwrap(), "copyrightlink"@)
            && candidate@.local_path == image.path@ && candidate@.image_url == image.image_url@,
{
}

/// A file of the cache that has no checksum yet is the one that is read for it.
pub proof fn own_file_is_read_for_its_checksum(
    job: BingJob,
    list: Vec<WallpaperCandidate>,
    present: Vec<bool>,
    next: BingStage,
    action: FetchAction,
)
    requires
        bing_advances(job, BingStage::Look(list), FetchEvent::Present(present), next, action),
        next is Sum,
    ensures
        next matches BingStage::Sum(c) && c@.checksum is None && candidates(list@).contains(c@) && (
        action matches FetchAction::ReadFile(path) && path@ == c@.local_path),
{
    let i = choose|i: int|
        #[trigger] is_best(
            candidates(list@),
            present@,
            job.media_dir@,
            texts(job.resolutions@),
            i,
        ) && crate::sources::bing_fetch::considers(
            job,
            candidates(list@)[i],
            present@[i],
            next,
            action,
        );
    assert(candidates(list@).contains(candidates(list@)[i]));
}

/// What was downloaded and kept is what is given in the end, with the word whether it was there
/// before.
pub proof fn kept_wallpaper_is_given(
    job: BingJob,
    page: BingPage,
    at: usize,
    last: Option<WallpaperError>,
    image: DownloadedImage,
    next: BingStage,
    action: FetchAction,
    end: BingStage,
    given: FetchAction,
)
    requires
        bing_advances(
            job,
            BingStage::Fetch { page, at, last },
            FetchEvent::Downloaded(Ok(image)),
            next,
            action,
        ),
        next is Store ==> bing_advances(job, next, FetchEvent::Outcome(Ok(())), end, given),
    ensures
        next is Store,
        action matches FetchAction::Upsert { candidate, .. } && (given matches FetchAction::Finish(
            Ok(found),
        ) && candidates(found.candidates@) == seq![candidate@] && found.skipped_download
            == image.skipped),
{
}

/// An image that is too small ends the fetch with what was told of it, once that is noted.
pub proof fn small_image_is_told_of(
    job: BingJob,
    page: BingPage,
    at: usize,
    last: Option<WallpaperError>,
    e: WallpaperError,
    next: BingStage,
    action: FetchAction,
    end: BingStage,
    told: FetchAction,
)
    requires
        e@ is MinResolution,
        bing_advances(
            job,
            BingStage::Fetch { page, at, last },
            FetchEvent::Downloaded(Err(e)),
            next,
            action,
        ),
        next is Skip ==> bing_advances(job, next, FetchEvent::Done, end, told),
    ensures
        next is Skip,
        action is WriteSkip,
        told matches FetchAction::Finish(Err(reason)) && reason@ == e@,
{
}

/// A wallpaper of the cache stays the same while its checksum and its metadata are put in order.
pub proof fn cached_wallpaper_stays_the_same(
    job: BingJob,
    c: WallpaperCandidate,
    bytes: Vec<u8>,
    summed: BingStage,
    kept: FetchAction,
    present: Vec<bool>,
    checked: BingStage,
    written: FetchAction,
    end: BingStage,
    given: FetchAction,
)
    requires
        bing_advances(
            job,
            BingStage::Sum(c),
            FetchEvent::Contents(Ok(Some(bytes))),
            summed,
            kept,
        ),
        bing_advances(job, BingStage::CheckInfo(c), FetchEvent::Present(present), checked, written),
        checked is WriteInfo ==> bing_advances(
            job,
            checked,
            FetchEvent::Outcome(Ok(())),
            end,
            given,
        ),
    ensures
        summed matches BingStage::Keep(k) && (kept matches FetchAction::Upsert { candidate, .. }
            && candidate@ == k@),
        written is WriteFile ==> checked is WriteInfo && (given matches FetchAction::Finish(
            Ok(found),
        ) && candidates(found.candidates@) == seq![c@]),
{
}

} // verus!

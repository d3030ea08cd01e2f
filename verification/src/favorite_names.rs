//! What holds of the parts that the names of favorites are made of.

use crate::config::name_char;
use crate::favorites::{hyphens_stand_alone, name_part, single_hyphens};
use crate::text::{
    Class, all_ascii, alphanumeric, ascii_alphanumeric, ascii_lower, lowercase, trim_end,
    trim_start, trimmed,
};
use vstd::prelude::*;

verus! {

/// Whether a character stays in a part of a name, apart from its case.
pub open spec fn kept_in_name(c: char) -> bool {
    ascii_alphanumeric(c) || c == '_'
}

/// Whether a character can stand in a part of a name.
pub open spec fn name_letter(c: char) -> bool {
    ('a' <= c && c <= 'z') || ('0' <= c && c <= '9') || c == '_' || c == '-'
}

/// The longest runs of characters of `s` that are as `p` says, in order.
pub open spec fn runs(s: Seq<char>, p: spec_fn(char) -> bool) -> Seq<Seq<char>>
    decreases s.len(),
{
    if s.len() == 0 {
        Seq::empty()
    } else {
        let before = runs(s.drop_last(), p);
        if !p(s.last()) {
            before
        } else if s.len() > 1 && p(s[s.len() - 2]) && before.len() > 0 {
            before.drop_last().push(before.last().push(s.last()))
        } else {
            before.push(seq![s.last()])
        }
    }
}

/// Runs in lower case.
pub open spec fn lower_runs(list: Seq<Seq<char>>) -> Seq<Seq<char>> {
    list.map_values(|w: Seq<char>| w.map_values(|c: char| ascii_lower(c)))
}

spec fn no_double_hyphen(s: Seq<char>) -> bool {
    forall|i: int| 0 <= i && i + 1 < s.len() ==> !(#[trigger] s[i] == '-' && s[i + 1] == '-')
}

spec fn bare_ends(s: Seq<char>) -> bool {
    s.len() > 0 ==> s[0] != '-' && s.last() != '-'
}

// ------------------------------------------------------------------------------------------
// The steps of making a part of a name
// ------------------------------------------------------------------------------------------

proof fn lemma_trim_start_cuts(s: Seq<char>) -> (from: int)
    ensures
        0 <= from <= s.len(),
        trim_start(s, Class::One('-')) == s.skip(from),
        from < s.len() ==> s[from] != '-',
    decreases s.len(),
{
    if s.len() > 0 && s[0] == '-' {
        let n = lemma_trim_start_cuts(s.drop_first());
        assert(s.drop_first().skip(n) =~= s.skip(n + 1));
        n + 1
    } else {
        assert(s.skip(0) =~= s);
        0
    }
}

proof fn lemma_trim_end_cuts(s: Seq<char>) -> (to: int)
    ensures
        0 <= to <= s.len(),
        trim_end(s, Class::One('-')) == s.take(to),
        to > 0 ==> s[to - 1] != '-',
    decreases s.len(),
{
    if s.len() > 0 && s.last() == '-' {
        let n = lemma_trim_end_cuts(s.drop_last());
        assert(s.drop_last().take(n) =~= s.take(n));
        n
    } else {
        assert(s.take(s.len() as int) =~= s);
        s.len() as int
    }
}

proof fn lemma_single_letters(s: Seq<char>, i: int)
    requires
        all_ascii(s),
        0 <= i < single_hyphens(s).len(),
        forall|k: int| 0 <= k < s.len() ==> kept_in_name(#[trigger] s[k]) || s[k] == '-',
    ensures
        kept_in_name(single_hyphens(s)[i]) || single_hyphens(s)[i] == '-',
    decreases s.len(),
{
    let init = s.drop_last();
    let before = single_hyphens(init);
    assert forall|k: int| 0 <= k < init.len() implies kept_in_name(#[trigger] init[k]) || init[k]
        == '-' by {
        assert(init[k] == s[k]);
    }
    if i < before.len() {
        assert(all_ascii(init)) by {
            assert forall|k: int| 0 <= k < init.len() implies (#[trigger] init[k] as u32) < 128 by {
                assert(init[k] == s[k]);
            }
        }
        lemma_single_letters(init, i);
    } else {
        assert(single_hyphens(s)[i] == s[s.len() - 1]);
    }
}

spec fn mapped(s: Seq<char>) -> Seq<char> {
    s.map_values(|c: char| name_char(c))
}

proof fn lemma_mapped(s: Seq<char>)
    requires
        all_ascii(s),
    ensures
        all_ascii(mapped(s)),
        forall|k: int|
            0 <= k < mapped(s).len() ==> kept_in_name(#[trigger] mapped(s)[k]) || mapped(s)[k]
                == '-',
        forall|k: int|
            0 <= k < s.len() ==> ((#[trigger] mapped(s)[k] != '-') <==> kept_in_name(s[k])),
        forall|k: int| 0 <= k < s.len() && kept_in_name(s[k]) ==> #[trigger] mapped(s)[k] == s[k],
{
    assert forall|k: int| 0 <= k < s.len() implies (#[trigger] mapped(s)[k] as u32) < 128 && (
    kept_in_name(mapped(s)[k]) || mapped(s)[k] == '-') && ((mapped(s)[k] != '-') <==> kept_in_name(
        s[k],
    )) && (kept_in_name(s[k]) ==> mapped(s)[k] == s[k]) by {
        assert((s[k] as u32) < 128);
        assert(mapped(s)[k] == name_char(s[k]));
        assert(alphanumeric(s[k]) == ascii_alphanumeric(s[k]));
    }
}

/// The part of a name before its letters are made small: its characters, its hyphens, its ends.
proof fn lemma_cut(s: Seq<char>) -> (t: Seq<char>)
    requires
        all_ascii(s),
    ensures
        t == trimmed(single_hyphens(mapped(s)), Class::One('-')),
        all_ascii(t),
        forall|k: int| 0 <= k < t.len() ==> kept_in_name(#[trigger] t[k]) || t[k] == '-',
        no_double_hyphen(t),
        bare_ends(t),
        name_part(s) == t.map_values(|c: char| ascii_lower(c)),
{
    let m = mapped(s);
    lemma_mapped(s);
    let h = single_hyphens(m);
    let from = lemma_trim_start_cuts(h);
    let cut = trim_start(h, Class::One('-'));
    let to = lemma_trim_end_cuts(cut);
    let t = trimmed(h, Class::One('-'));
    assert(t == cut.take(to));
    assert forall|k: int| 0 <= k < t.len() implies (kept_in_name(#[trigger] t[k]) || t[k] == '-')
        && (t[k] as u32) < 128 && t[k] == h[from + k] by {
        assert(t[k] == h[from + k]);
        lemma_single_letters(m, from + k);
    }
    assert forall|i: int| 0 <= i && i + 1 < t.len() implies !(#[trigger] t[i] == '-' && t[i + 1]
        == '-') by {
        assert(t[i] == h[from + i] && t[i + 1] == h[from + i + 1]);
        hyphens_stand_alone(m, from + i);
    }
    assert(all_ascii(t));
    assert(lowercase(t) == t.map_values(|c: char| ascii_lower(c)));
    t
}

proof fn lemma_single_stays(s: Seq<char>)
    requires
        no_double_hyphen(s),
    ensures
        single_hyphens(s) == s,
    decreases s.len(),
{
    if s.len() > 0 {
        let init = s.drop_last();
        assert forall|i: int| 0 <= i && i + 1 < init.len() implies !(#[trigger] init[i] == '-'
            && init[i + 1] == '-') by {
            assert(init[i] == s[i] && init[i + 1] == s[i + 1]);
        }
        lemma_single_stays(init);
        if init.len() > 0 {
            assert(s[s.len() - 2] == init.last());
            assert(!(s[s.len() - 2] == '-' && s[s.len() - 2 + 1] == '-'));
        }
        assert(init.push(s.last()) =~= s);
    }
}

// ------------------------------------------------------------------------------------------
// Runs
// ------------------------------------------------------------------------------------------

proof fn lemma_runs_same(
    a: Seq<char>,
    b: Seq<char>,
    p: spec_fn(char) -> bool,
    q: spec_fn(char) -> bool,
)
    requires
        a.len() == b.len(),
        forall|i: int| 0 <= i < a.len() ==> p(#[trigger] a[i]) == q(b[i]),
        forall|i: int| 0 <= i < a.len() && p(#[trigger] a[i]) ==> a[i] == b[i],
    ensures
        runs(b, q) == runs(a, p),
    decreases a.len(),
{
    if a.len() > 0 {
        assert forall|i: int| 0 <= i < a.len() - 1 implies p(#[trigger] a.drop_last()[i]) == q(
            b.drop_last()[i],
        ) && (p(a.drop_last()[i]) ==> a.drop_last()[i] == b.drop_last()[i]) by {
            assert(a.drop_last()[i] == a[i]);
        }
        lemma_runs_same(a.drop_last(), b.drop_last(), p, q);
        assert(p(a[a.len() - 1]) == q(b[b.len() - 1]));
        if a.len() > 1 {
            assert(p(a[a.len() - 2]) == q(b[b.len() - 2]));
        }
    }
}

proof fn lemma_runs_lower(t: Seq<char>, p: spec_fn(char) -> bool)
    requires
        forall|i: int| 0 <= i < t.len() ==> p(#[trigger] t[i]) == p(ascii_lower(t[i])),
    ensures
        runs(t.map_values(|c: char| ascii_lower(c)), p) == lower_runs(runs(t, p)),
    decreases t.len(),
{
    let r = t.map_values(|c: char| ascii_lower(c));
    let low = |w: Seq<char>| w.map_values(|c: char| ascii_lower(c));
    if t.len() == 0 {
        assert(runs(r, p) =~= lower_runs(runs(t, p)));
    } else {
        let init = t.drop_last();
        assert forall|i: int| 0 <= i < init.len() implies p(#[trigger] init[i]) == p(
            ascii_lower(init[i]),
        ) by {
            assert(init[i] == t[i]);
        }
        lemma_runs_lower(init, p);
        assert(r.drop_last() =~= init.map_values(|c: char| ascii_lower(c)));
        assert(r.last() == ascii_lower(t[t.len() - 1]));
        assert(p(t[t.len() - 1]) == p(r.last()));
        let before = runs(init, p);
        assert(lower_runs(before).len() == before.len());
        if t.len() > 1 {
            assert(r[r.len() - 2] == ascii_lower(t[t.len() - 2]));
            assert(p(t[t.len() - 2]) == p(r[r.len() - 2]));
        }
        if p(t.last()) {
            if t.len() > 1 && p(t[t.len() - 2]) && before.len() > 0 {
                assert(lower_runs(before).last() == low(before.last()));
                assert(low(before.last().push(t.last())) =~= low(before.last()).push(r.last()));
                assert(runs(r, p) =~= lower_runs(runs(t, p)));
            } else {
                assert(low(seq![t.last()]) =~= seq![r.last()]);
                assert(runs(r, p) =~= lower_runs(runs(t, p)));
            }
        }
    }
}

proof fn lemma_single_last(s: Seq<char>)
    ensures
        single_hyphens(s).len() > 0 <==> s.len() > 0,
        s.len() > 0 ==> single_hyphens(s).last() == s.last(),
    decreases s.len(),
{
    if s.len() > 0 {
        lemma_single_last(s.drop_last());
    }
}

proof fn lemma_runs_single(s: Seq<char>)
    ensures
        runs(single_hyphens(s), |c: char| c != '-') == runs(s, |c: char| c != '-'),
    decreases s.len(),
{
    if s.len() > 0 {
        let init = s.drop_last();
        lemma_runs_single(init);
        lemma_single_last(init);
        let before = single_hyphens(init);
        let h = single_hyphens(s);
        if !(s.last() == '-' && before.len() > 0 && before.last() == '-') {
            assert(h == before.push(s.last()));
            assert(h.drop_last() =~= before);
            if before.len() > 0 {
                assert(h[h.len() - 2] == before.last());
                assert(s[s.len() - 2] == init.last());
            }
        }
    }
}

proof fn lemma_runs_trim_end(s: Seq<char>)
    ensures
        runs(trim_end(s, Class::One('-')), |c: char| c != '-') == runs(s, |c: char| c != '-'),
    decreases s.len(),
{
    if s.len() > 0 && s.last() == '-' {
        lemma_runs_trim_end(s.drop_last());
    }
}

proof fn lemma_runs_drop_first(s: Seq<char>)
    requires
        s.len() > 0,
        s[0] == '-',
    ensures
        runs(s.drop_first(), |c: char| c != '-') == runs(s, |c: char| c != '-'),
    decreases s.len(),
{
    let x = s.drop_first();
    if s.len() == 1 {
        assert(s.drop_last() =~= Seq::<char>::empty());
        assert(x =~= Seq::<char>::empty());
    } else {
        lemma_runs_drop_first(s.drop_last());
        assert(x.drop_last() =~= s.drop_last().drop_first());
        assert(x.last() == s.last());
        if s.len() > 2 {
            assert(x[x.len() - 2] == s[s.len() - 2]);
        }
    }
}

proof fn lemma_runs_trim_start(s: Seq<char>)
    ensures
        runs(trim_start(s, Class::One('-')), |c: char| c != '-') == runs(s, |c: char| c != '-'),
    decreases s.len(),
{
    if s.len() > 0 && s[0] == '-' {
        lemma_runs_drop_first(s);
        lemma_runs_trim_start(s.drop_first());
    }
}

// ------------------------------------------------------------------------------------------
// Laws
// ------------------------------------------------------------------------------------------

/// The part of a name that an ASCII text gives has small letters, digits, underscores and
/// hyphens only; its hyphens stand alone, and not at its ends.
pub proof fn name_parts_are_plain(s: Seq<char>)
    requires
        all_ascii(s),
    ensures
        forall|i: int| 0 <= i < name_part(s).len() ==> name_letter(#[trigger] name_part(s)[i]),
        forall|i: int|
            0 <= i && i + 1 < name_part(s).len() ==> !(#[trigger] name_part(s)[i] == '-'
                && name_part(s)[i + 1] == '-'),
        name_part(s).len() > 0 ==> name_part(s)[0] != '-' && name_part(s).last() != '-',
{
    let t = lemma_cut(s);
    let r = name_part(s);
    assert forall|i: int| 0 <= i < r.len() implies name_letter(#[trigger] r[i]) && (r[i] == '-'
        <==> t[i] == '-') by {
        assert(r[i] == ascii_lower(t[i]));
        assert(kept_in_name(t[i]) || t[i] == '-');
    }
    assert forall|i: int| 0 <= i && i + 1 < r.len() implies !(#[trigger] r[i] == '-' && r[i + 1]
        == '-') by {
        assert(r[i] == '-' <==> t[i] == '-');
        assert(r[i + 1] == '-' <==> t[i + 1] == '-');
    }
    if r.len() > 0 {
        assert(r[0] == '-' <==> t[0] == '-');
        assert(r[r.len() - 1] == '-' <==> t[t.len() - 1] == '-');
    }
}

/// What is a part of a name already is not changed.
pub proof fn name_parts_are_stable(s: Seq<char>)
    requires
        all_ascii(s),
    ensures
        name_part(name_part(s)) == name_part(s),
{
    let r = name_part(s);
    name_parts_are_plain(s);
    assert forall|i: int| 0 <= i < r.len() implies (#[trigger] r[i] as u32) < 128 && name_char(r[i])
        == r[i] && ascii_lower(r[i]) == r[i] by {
        assert(name_letter(r[i]));
        assert(alphanumeric(r[i]) == ascii_alphanumeric(r[i]));
    }
    assert(mapped(r) =~= r);
    lemma_single_stays(r);
    assert(trim_start(r, Class::One('-')) == r);
    assert(trim_end(r, Class::One('-')) == r);
    assert(all_ascii(r));
    assert(lowercase(r) =~= r);
    assert(r.map_values(|c: char| name_char(c)) =~= r);
}

/// The pieces between the hyphens of a part of a name are, in order, the words of the text: its
/// longest runs of letters, digits and underscores, in lower case.
pub proof fn name_parts_keep_the_words(s: Seq<char>)
    requires
        all_ascii(s),
    ensures
        runs(name_part(s), |c: char| c != '-') == lower_runs(
            runs(s, |c: char| kept_in_name(c)),
        ),
{
    let p = |c: char| c != '-';
    let q = |c: char| kept_in_name(c);
    let m = mapped(s);
    lemma_mapped(s);
    assert forall|i: int| 0 <= i < s.len() implies q(#[trigger] s[i]) == p(m[i]) && (q(s[i])
        ==> s[i] == m[i]) by {
        assert((m[i] != '-') <==> kept_in_name(s[i]));
    }
    lemma_runs_same(s, m, q, p);
    let h = single_hyphens(m);
    lemma_runs_single(m);
    lemma_runs_trim_start(h);
    lemma_runs_trim_end(trim_start(h, Class::One('-')));
    let t = lemma_cut(s);
    assert forall|i: int| 0 <= i < t.len() implies p(#[trigger] t[i]) == p(ascii_lower(t[i])) by {
        assert(kept_in_name(t[i]) || t[i] == '-');
    }
    lemma_runs_lower(t, p);
}

/// A text of small letters, digits, underscores and single hyphens within is a part of a name as
/// it is.
pub proof fn plain_texts_are_parts_of_names(s: Seq<char>)
    requires
        forall|i: int| 0 <= i < s.len() ==> name_letter(#[trigger] s[i]),
        forall|i: int| 0 <= i && i + 1 < s.len() ==> !(#[trigger] s[i] == '-' && s[i + 1] == '-'),
        s.len() > 0 ==> s[0] != '-' && s.last() != '-',
    ensures
        name_part(s) == s,
{
    assert forall|i: int| 0 <= i < s.len() implies (#[trigger] s[i] as u32) < 128 && name_char(s[i])
        == s[i] && ascii_lower(s[i]) == s[i] by {
        assert(name_letter(s[i]));
        assert(alphanumeric(s[i]) == ascii_alphanumeric(s[i]));
    }
    assert(mapped(s) =~= s);
    lemma_single_stays(s);
    assert(trim_start(s, Class::One('-')) == s);
    assert(trim_end(s, Class::One('-')) == s);
    assert(all_ascii(s));
    assert(lowercase(s) =~= s);
    assert(s.map_values(|c: char| name_char(c)) =~= s);
}

/// The files of a favorite are named by its source, its day and its title, with hyphens between
/// them; without a title its id takes that place.
pub proof fn favorite_is_named_by_source_day_and_title(c: crate::model::CandidateView, t: Seq<char>)
    requires
        c.title == Some(t) && t.len() > 0 || (c.title is None || c.title == Some(
            Seq::<char>::empty(),
        )) && c.id == t,
        name_part(t).len() > 0,
        name_part(t)[0] != '-',
    ensures
        c.source is Bing ==> crate::favorites::base_name(c) == "bing-"@ + name_part(c.date) + "-"@
            + name_part(t),
        c.source is Spotlight ==> crate::favorites::base_name(c) == "spotlight-"@ + name_part(
            c.date,
        ) + "-"@ + name_part(t),
        c.source is Apod ==> crate::favorites::base_name(c) == "apod-"@ + name_part(c.date) + "-"@
            + name_part(t),
        c.source is Modis ==> crate::favorites::base_name(c) == "modis-"@ + name_part(c.date)
            + "-"@ + name_part(t),
{
    reveal_strlit("bing");
    reveal_strlit("bing-");
    reveal_strlit("spotlight");
    reveal_strlit("spotlight-");
    reveal_strlit("apod");
    reveal_strlit("apod-");
    reveal_strlit("modis");
    reveal_strlit("modis-");
    reveal_strlit("-");
    let d = crate::model::dir_name(c.source);
    assert forall|i: int| 0 <= i < d.len() implies name_letter(#[trigger] d[i]) && d[i] != '-' by {}
    plain_texts_are_parts_of_names(d);
    let joined = d + "-"@ + name_part(c.date) + "-"@ + name_part(t);
    assert(joined[0] == d[0]);
    let k = Class::One('-');
    assert(!k.has(joined[0]));
    assert(trim_start(joined, k) == joined);
    lemma_some_left(joined, k);
    assert(trimmed(joined, k).len() > 0);
    assert("bing"@ + "-"@ =~= "bing-"@);
    assert("spotlight"@ + "-"@ =~= "spotlight-"@);
    assert("apod"@ + "-"@ =~= "apod-"@);
    assert("modis"@ + "-"@ =~= "modis-"@);
}

proof fn lemma_some_left(s: Seq<char>, k: Class)
    requires
        s.len() > 0,
        !k.has(s[0]),
    ensures
        trim_end(s, k).len() > 0,
    decreases s.len(),
{
    if k.has(s.last()) {
        assert(s.len() > 1);
        assert(s.drop_last()[0] == s[0]);
        lemma_some_left(s.drop_last(), k);
    }
}

} // verus!

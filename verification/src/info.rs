//! What is told about a wallpaper.

use crate::cache::{find_candidate_by_id, with_id};
use crate::error::{ErrorView, WallpaperError, failure};
use crate::model::{
    AppliedView, CacheIndex, CandidateView, LastApplied, Settings, WallpaperCandidate,
};
use crate::text::{
    Class, byte_count, byte_len, join, joined, lemma_byte_count, letters, masked, opt_text,
    repeated, replace_class, split_whitespace, texts, words,
};
use vstd::prelude::*;

verus! {

// ------------------------------------------------------------------------------------------
// Wrapping
// ------------------------------------------------------------------------------------------

/// The lines that words fill: a word goes into the last line if it fits there behind a space,
/// and starts a line otherwise.
pub open spec fn filled_lines(words: Seq<Seq<char>>, width: int) -> Seq<Seq<char>>
    decreases words.len(),
{
    if words.len() <= 1 {
        words
    } else {
        let lines = filled_lines(words.drop_last(), width);
        let word = words.last();
        if byte_count(lines.last()) + 1 + byte_count(word) > width {
            lines.push(word)
        } else {
            lines.drop_last().push(lines.last() + seq![' '] + word)
        }
    }
}

/// A text in lines of at most `width` bytes, where its words allow it; one empty line for a
/// text without words.
pub open spec fn wrapped(text: Seq<char>, width: int) -> Seq<Seq<char>> {
    if words(text).len() == 0 {
        seq![Seq::empty()]
    } else {
        filled_lines(words(text), width)
    }
}

/// Breaks a text into lines.
pub fn wrap_text(text: &str, width: usize) -> (r: Vec<String>)
    ensures
        texts(r@) == wrapped(text@, width as int),
        r@.len() > 0,
{
    let ws = split_whitespace(text);
    let ghost all = texts(ws@);
    let mut lines: Vec<String> = Vec::new();
    if ws.len() == 0 {
        lines.push(String::new());
        assert(texts(lines@) =~= seq![Seq::<char>::empty()]);
        return lines;
    }
    let mut line = ws[0].clone();
    let mut i: usize = 1;
    assert(all.take(1) =~= seq![ws@[0]@]);
    assert(texts(lines@).push(line@) =~= seq![ws@[0]@]);
    while i < ws.len()
        invariant
            1 <= i <= ws@.len(),
            all == texts(ws@),
            texts(lines@).push(line@) == filled_lines(all.take(i as int), width as int),
        decreases ws@.len() - i,
    {
        let ghost shown = texts(lines@).push(line@);
        let ghost word = ws@[i as int]@;
        proof {
            assert(all.take(i + 1).drop_last() =~= all.take(i as int));
            assert(all.take(i + 1).last() == word);
            assert(shown.last() == line@);
        }
        let used = byte_len(line.as_str());
        let room = byte_len(ws[i].as_str());
        if used >= width || room > width - used - 1 {
            let ghost done = lines@;
            lines.push(line);
            assert(texts(lines@) =~= shown);
            line = ws[i].clone();
        } else {
            line.push(' ');
            line.append(ws[i].as_str());
            assert(shown.drop_last() =~= texts(lines@));
            assert(line@ =~= shown.last() + seq![' '] + word);
        }
        i += 1;
    }
    let ghost shown = texts(lines@).push(line@);
    lines.push(line);
    assert(texts(lines@) =~= shown);
    assert(all.take(i as int) =~= all);
    lines
}

/// Wrapping loses no word and makes no line longer than `width` bytes unless it holds one word
/// only.
pub proof fn wrapping_keeps_words(ws: Seq<Seq<char>>, width: int)
    ensures
        joined(filled_lines(ws, width), seq![' ']) == joined(ws, seq![' ']),
        forall|i: int|
            0 <= i < filled_lines(ws, width).len() ==> byte_count(
                #[trigger] filled_lines(ws, width)[i],
            ) <= width || ws.contains(filled_lines(ws, width)[i]),
        ws.len() > 0 ==> filled_lines(ws, width).len() > 0,
    decreases ws.len(),
{
    let lines = filled_lines(ws, width);
    if ws.len() <= 1 {
    } else {
        let init = ws.drop_last();
        let word = ws.last();
        let before = filled_lines(init, width);
        wrapping_keeps_words(init, width);
        assert forall|t: Seq<char>| init.contains(t) implies #[trigger] ws.contains(t) by {
            let k = choose|k: int| 0 <= k < init.len() && init[k] == t;
            assert(ws[k] == t);
        }
        assert(ws[ws.len() - 1] == word);
        if byte_count(before.last()) + 1 + byte_count(word) > width {
            assert(lines.drop_last() =~= before);
            assert(lines.last() == word);
        } else {
            let last = before.last() + seq![' '] + word;
            lemma_byte_count(before.last() + seq![' '], word);
            lemma_byte_count(before.last(), seq![' ']);
            assert(byte_count(seq![' ']) == 1) by {
                reveal_with_fuel(vstd::utf8::encode_utf8, 2);
            }
            assert(lines.drop_last() =~= before.drop_last());
            assert(lines.last() == last);
            if before.len() == 1 {
                assert(lines =~= seq![last]);
            } else {
                assert(joined(lines, seq![' ']) == joined(before.drop_last(), seq![' '])
                    + seq![' '] + last);
                assert(joined(before, seq![' ']) == joined(before.drop_last(), seq![' '])
                    + seq![' '] + before.last());
                assert(joined(lines, seq![' ']) =~= joined(before, seq![' ']) + seq![' ']
                    + word);
            }
        }
    }
}

// ------------------------------------------------------------------------------------------
// Lines of information
// ------------------------------------------------------------------------------------------

/// What stands before a value: an icon, if there is one, and a label.
pub open spec fn prefix_text(icon: Seq<char>, label: Seq<char>) -> Seq<char> {
    if icon.len() == 0 {
        label + ": "@
    } else {
        icon + " "@ + label + ": "@
    }
}

/// What stands before a value, in color unless `plain`.
pub open spec fn styled_prefix(icon: Seq<char>, label: Seq<char>, plain: bool) -> Seq<char> {
    if plain {
        prefix_text(icon, label)
    } else if icon.len() == 0 {
        "\u{1b}[1;36m"@ + label + ":"@ + "\u{1b}[0m"@ + " "@
    } else {
        "\u{1b}[1;36m"@ + icon + " "@ + label + ":"@ + "\u{1b}[0m"@ + " "@
    }
}

/// A labelled value in lines: the first begins with the label, the others are indented by its
/// width. Where there is hardly room beside the label, it is one line.
pub open spec fn info_lines(
    icon: Seq<char>,
    label: Seq<char>,
    value: Seq<char>,
    width: int,
    plain: bool,
) -> Seq<Seq<char>> {
    let clean = masked(value, Class::Two('\n', '\r'), ' ');
    let indent = prefix_text(icon, label).len();
    if width <= indent + 8 {
        seq![styled_prefix(icon, label, plain) + clean]
    } else {
        let lines = wrapped(clean, width - indent);
        Seq::new(
            lines.len(),
            |i: int|
                if i == 0 {
                    styled_prefix(icon, label, plain) + lines[i]
                } else {
                    Seq::new(indent, |j: int| ' ') + lines[i]
                },
        )
    }
}

/// A labelled value in lines.
pub fn format_info_line(icon: &str, label: &str, value: &str, width: usize, plain: bool) -> (r:
    Vec<String>)
    ensures
        texts(r@) == info_lines(icon@, label@, value@, width as int, plain),
        r@.len() > 0,
{
    let clean = replace_class(value, Class::Two('\n', '\r'), ' ');
    let mut prefix = String::new();
    if !icon.is_empty() {
        prefix.append(icon);
        prefix.append(" ");
    }
    prefix.append(label);
    prefix.append(": ");
    assert(prefix@ =~= prefix_text(icon@, label@));
    let mut styled = String::new();
    if plain {
        styled.append(prefix.as_str());
    } else {
        styled.append("\u{1b}[1;36m");
        if !icon.is_empty() {
            styled.append(icon);
            styled.append(" ");
        }
        styled.append(label);
        styled.append(":");
        styled.append("\u{1b}[0m");
        styled.append(" ");
    }
    assert(styled@ =~= styled_prefix(icon@, label@, plain));
    let indent = letters(prefix.as_str()).len();
    let mut out: Vec<String> = Vec::new();
    if width <= indent || width - indent <= 8 {
        styled.append(clean.as_str());
        out.push(styled);
        assert(texts(out@) =~= info_lines(icon@, label@, value@, width as int, plain));
        return out;
    }
    let lines = wrap_text(clean.as_str(), width - indent);
    let blank = repeated(' ', indent);
    let ghost all = info_lines(icon@, label@, value@, width as int, plain);
    assert(all.len() == texts(lines@).len() == lines@.len());
    let mut i: usize = 0;
    while i < lines.len()
        invariant
            i <= lines@.len(),
            all == info_lines(icon@, label@, value@, width as int, plain),
            all.len() == lines@.len(),
            width > indent + 8,
            indent == prefix_text(icon@, label@).len(),
            texts(lines@) == wrapped(
                masked(value@, Class::Two('\n', '\r'), ' '),
                width - indent,
            ),
            blank@ == Seq::new(indent as nat, |j: int| ' '),
            styled@ == styled_prefix(icon@, label@, plain),
            texts(out@) == all.take(i as int),
        decreases lines@.len() - i,
    {
        let mut line = if i == 0 {
            styled.clone()
        } else {
            blank.clone()
        };
        line.append(lines[i].as_str());
        assert(texts(lines@)[i as int] == lines@[i as int]@);
        assert(line@ =~= all[i as int]);
        let ghost before = out@;
        out.push(line);
        assert(texts(out@) =~= texts(before).push(all[i as int]));
        assert(all.take(i + 1) =~= all.take(i as int).push(all[i as int]));
        i += 1;
    }
    assert(all.take(i as int) =~= all);
    out
}

/// An icon, or nothing in plain text.
pub open spec fn icon_text(icon: Seq<char>, plain: bool) -> Seq<char> {
    if plain {
        Seq::empty()
    } else {
        icon
    }
}

/// The lines for a value that may be missing or empty; none in that case.
pub open spec fn optional_lines(
    icon: Seq<char>,
    label: Seq<char>,
    value: Option<Seq<char>>,
    width: int,
    plain: bool,
) -> Seq<Seq<char>> {
    match value {
        Some(v) if v.len() > 0 => info_lines(icon_text(icon, plain), label, v, width, plain),
        _ => Seq::empty(),
    }
}

/// What is told about a wallpaper: title, description, credit and link, as far as there are any.
/// The credit is always told.
pub open spec fn basic_info(
    title: Option<Seq<char>>,
    description: Option<Seq<char>>,
    attribution: Option<Seq<char>>,
    info_url: Option<Seq<char>>,
    width: int,
    plain: bool,
) -> Seq<char> {
    let credit = match attribution {
        Some(a) if a.len() > 0 => a,
        _ => "Unknown copyright"@,
    };
    joined(
        optional_lines("\u{1f5bc}\u{fe0f}"@, "Title"@, title, width, plain) + optional_lines(
            "\u{1f4dd}"@,
            "About"@,
            description,
            width,
            plain,
        ) + info_lines(
            icon_text("\u{270d}\u{fe0f}"@, plain),
            "Credit"@,
            credit,
            width,
            plain,
        ) + optional_lines("\u{1f517}"@, "Link"@, info_url, width, plain),
        "\n"@,
    )
}

/// Adds the lines for a value that may be missing or empty.
fn add_lines(
    lines: &mut Vec<String>,
    icon: &str,
    label: &str,
    value: &Option<String>,
    width: usize,
    plain: bool,
)
    ensures
        texts(final(lines)@) == texts(old(lines)@) + optional_lines(
            icon@,
            label@,
            opt_text(*value),
            width as int,
            plain,
        ),
{
    let ghost before = lines@;
    if let Some(v) = value {
        if !v.as_str().is_empty() {
            let mut more = format_info_line(
                if plain {
                    ""
                } else {
                    icon
                },
                label,
                v.as_str(),
                width,
                plain,
            );
            proof {
                reveal_strlit("");
                assert(icon_text(icon@, plain) =~= if plain {
                    ""@
                } else {
                    icon@
                });
            }
            let ghost added = more@;
            lines.append(&mut more);
            assert(texts(lines@) =~= texts(before) + texts(added));
            return;
        }
    }
    assert(texts(lines@) =~= texts(before) + Seq::<Seq<char>>::empty());
}

/// What is told about a wallpaper.
pub fn format_basic_info(
    title: &Option<String>,
    description: &Option<String>,
    attribution: &Option<String>,
    info_url: &Option<String>,
    width: usize,
    plain: bool,
) -> (r: String)
    ensures
        r@ == basic_info(
            opt_text(*title),
            opt_text(*description),
            opt_text(*attribution),
            opt_text(*info_url),
            width as int,
            plain,
        ),
{
    let mut lines: Vec<String> = Vec::new();
    assert(texts(lines@) =~= Seq::<Seq<char>>::empty());
    add_lines(&mut lines, "\u{1f5bc}\u{fe0f}", "Title", title, width, plain);
    let ghost one = texts(lines@);
    assert(one =~= optional_lines("\u{1f5bc}\u{fe0f}"@, "Title"@, opt_text(*title), width as int, plain));
    add_lines(&mut lines, "\u{1f4dd}", "About", description, width, plain);
    let credit = match attribution {
        Some(a) if !a.as_str().is_empty() => a.clone(),
        _ => "Unknown copyright".to_string(),
    };
    let shown = Some(credit);
    proof {
        reveal_strlit("Unknown copyright");
    }
    add_lines(&mut lines, "\u{270d}\u{fe0f}", "Credit", &shown, width, plain);
    add_lines(&mut lines, "\u{1f517}", "Link", info_url, width, plain);
    join(&lines, "\n")
}

/// What is told about a candidate.
pub open spec fn candidate_info(c: CandidateView, width: int, plain: bool) -> Seq<char> {
    basic_info(c.title, c.description, c.attribution, c.info_url, width, plain)
}

/// What is told about a candidate.
pub fn format_candidate_info(candidate: &WallpaperCandidate, settings: &Settings) -> (r: String)
    ensures
        r@ == candidate_info(
            candidate@,
            settings.info_wrap_width as int,
            settings.info_plain_text,
        ),
{
    format_basic_info(
        &candidate.title,
        &candidate.description,
        &candidate.attribution,
        &candidate.info_url,
        settings.info_wrap_width,
        settings.info_plain_text,
    )
}

// ------------------------------------------------------------------------------------------
// The wallpaper that was applied last
// ------------------------------------------------------------------------------------------

/// How `info` goes on.
pub enum InfoStep {
    /// This is printed.
    Show(String),
    /// The candidate is looked for on every day of the cache.
    SearchAllDays,
}

/// Whether `r` is how it is begun to tell about the wallpaper that was applied last.
pub open spec fn info_begins(
    last: Option<AppliedView>,
    own_day: Result<Option<CacheIndex>, WallpaperError>,
    width: int,
    plain: bool,
    r: Result<InfoStep, WallpaperError>,
) -> bool {
    match last {
        None => r matches Err(e) && e@ == ErrorView::Message(
            "No previously applied wallpaper found. Run the download first."@,
        ),
        Some(last) => if last.date is None {
            r matches Ok(InfoStep::SearchAllDays)
        } else {
            match own_day {
                Err(told) => r matches Err(e) && e@ == told@,
                Ok(index) => match with_id(crate::cache::listed(index), last.candidate_id) {
                    Some(c) => r matches Ok(InfoStep::Show(text)) && text@ == candidate_info(
                        c,
                        width,
                        plain,
                    ),
                    None => r matches Ok(InfoStep::SearchAllDays),
                },
            }
        },
    }
}

/// Begins to tell about the wallpaper that was applied last. `own_day` is what reading the index
/// of its day gave; it is looked at only where the day is known.
pub fn show_info(
    last: Option<&LastApplied>,
    own_day: Result<Option<CacheIndex>, WallpaperError>,
    settings: &Settings,
) -> (r: Result<InfoStep, WallpaperError>)
    ensures
        match last {
            None => r matches Err(e) && e@ == ErrorView::Message(
                "No previously applied wallpaper found. Run the download first."@,
            ),
            Some(last) => if last@.date is None {
                r matches Ok(InfoStep::SearchAllDays)
            } else {
                match own_day {
                    Err(told) => r matches Err(e) && e@ == told@,
                    Ok(index) => match with_id(
                        crate::cache::listed(index),
                        last@.candidate_id,
                    ) {
                        Some(c) => r matches Ok(InfoStep::Show(text)) && text@ == candidate_info(
                            c,
                            settings.info_wrap_width as int,
                            settings.info_plain_text,
                        ),
                        None => r matches Ok(InfoStep::SearchAllDays),
                    },
                }
            },
        },
        info_begins(
            match last {
                Some(l) => Some(l@),
                None => None,
            },
            own_day,
            settings.info_wrap_width as int,
            settings.info_plain_text,
            r,
        ),
{
    let last = match last {
        Some(l) => l,
        None => {
            return Err(failure("No previously applied wallpaper found. Run the download first."));
        },
    };
    if last.date.is_none() {
        return Ok(InfoStep::SearchAllDays);
    }
    match own_day {
        Err(e) => Err(e),
        Ok(index) => match find_candidate_by_id(index.as_ref(), last.candidate_id.as_str()) {
            Some(c) => Ok(InfoStep::Show(format_candidate_info(&c, settings))),
            None => Ok(InfoStep::SearchAllDays),
        },
    }
}

/// Whether `r` is what is told about the wallpaper that was found.
pub open spec fn info_ends(
    found: Result<Option<WallpaperCandidate>, WallpaperError>,
    width: int,
    plain: bool,
    r: Result<String, WallpaperError>,
) -> bool {
    match found {
        Err(told) => r matches Err(e) && e@ == told@,
        Ok(Some(c)) => r matches Ok(text) && text@ == candidate_info(c@, width, plain),
        Ok(None) => r matches Err(e) && e@ == ErrorView::Message(
            "No metadata found for last applied wallpaper. Run the download first."@,
        ),
    }
}

/// Tells about the wallpaper that was applied last, once it has been looked for everywhere.
pub fn show_found(
    found: Result<Option<WallpaperCandidate>, WallpaperError>,
    settings: &Settings,
) -> (r: Result<String, WallpaperError>)
    ensures
        match found {
            Err(told) => r matches Err(e) && e@ == told@,
            Ok(Some(c)) => r matches Ok(text) && text@ == candidate_info(
                c@,
                settings.info_wrap_width as int,
                settings.info_plain_text,
            ),
            Ok(None) => r matches Err(e) && e@ == ErrorView::Message(
                "No metadata found for last applied wallpaper. Run the download first."@,
            ),
        },
        info_ends(found, settings.info_wrap_width as int, settings.info_plain_text, r),
{
    match found {
        Err(e) => Err(e),
        Ok(Some(c)) => Ok(format_candidate_info(&c, settings)),
        Ok(None) => Err(
            failure("No metadata found for last applied wallpaper. Run the download first."),
        ),
    }
}

/// What is told is told about the wallpaper that was applied last: about the one of its id, in the
/// index of its day; where that index does not have it, all days are searched.
pub proof fn info_is_of_the_last_wallpaper(
    last: AppliedView,
    index: Option<CacheIndex>,
    width: int,
    plain: bool,
    r: Result<InfoStep, WallpaperError>,
)
    requires
        info_begins(Some(last), Ok(index), width, plain, r),
    ensures
        r matches Ok(InfoStep::Show(text)) ==> exists|i: int|
            0 <= i < crate::cache::listed(index).len() && (
            #[trigger] crate::cache::listed(index)[i]).id == last.candidate_id && text@
                == basic_info(
                crate::cache::listed(index)[i].title,
                crate::cache::listed(index)[i].description,
                crate::cache::listed(index)[i].attribution,
                crate::cache::listed(index)[i].info_url,
                width,
                plain,
            ),
        r is Ok,
        (forall|i: int|
            0 <= i < crate::cache::listed(index).len() ==> (
            #[trigger] crate::cache::listed(index)[i]).id != last.candidate_id) ==> (
        r matches Ok(InfoStep::SearchAllDays)),
        (last.date is Some && exists|i: int|
            0 <= i < crate::cache::listed(index).len() && (
            #[trigger] crate::cache::listed(index)[i]).id == last.candidate_id) ==> (
        r matches Ok(InfoStep::Show(_))),
{
    let all = crate::cache::listed(index);
    lemma_with_id(all, last.candidate_id);
}

proof fn lemma_with_id(s: Seq<CandidateView>, id: Seq<char>)
    ensures
        match with_id(s, id) {
            Some(c) => exists|i: int|
                0 <= i < s.len() && (#[trigger] s[i]).id == id && s[i] == c,
            None => forall|i: int| 0 <= i < s.len() ==> (#[trigger] s[i]).id != id,
        },
    decreases s.len(),
{
    if s.len() > 0 && s[0].id != id {
        let t = s.drop_first();
        lemma_with_id(t, id);
        match with_id(t, id) {
            Some(c) => {
                let i = choose|i: int| 0 <= i < t.len() && (#[trigger] t[i]).id == id && t[i] == c;
                assert(s[i + 1] == t[i]);
            },
            None => {
                assert forall|i: int| 0 <= i < s.len() implies (#[trigger] s[i]).id != id by {
                    if i > 0 {
                        assert(t[i - 1] == s[i]);
                    }
                }
            },
        }
    } else if s.len() > 0 {
        assert(s[0].id == id);
    }
}

/// What is told about a wallpaper that fits on one line: title, text, credit and link, each behind
/// its name, in this order, and nothing that is missing.
pub proof fn info_names_what_is_known(
    title: Seq<char>,
    about: Seq<char>,
    credit: Seq<char>,
    link: Seq<char>,
)
    requires
        title.len() > 0,
        about.len() > 0,
        credit.len() > 0,
        link.len() > 0,
        single_line(title),
        single_line(about),
        single_line(credit),
        single_line(link),
    ensures
        basic_info(Some(title), Some(about), Some(credit), Some(link), 0, true) == "Title: "@
            + title + "\n"@ + ("About: "@ + about) + "\n"@ + ("Credit: "@ + credit) + "\n"@ + (
        "Link: "@ + link),
        basic_info(None, None, None, None, 0, true) == "Credit: Unknown copyright"@,
        basic_info(None, None, Some(credit), Some(link), 0, true) == "Credit: "@ + credit + "\n"@ + (
        "Link: "@ + link),
{
    reveal_strlit(": ");
    reveal_strlit("Title");
    reveal_strlit("About");
    reveal_strlit("Credit");
    reveal_strlit("Link");
    reveal_strlit("Title: ");
    reveal_strlit("About: ");
    reveal_strlit("Credit: ");
    reveal_strlit("Link: ");
    reveal_strlit("Unknown copyright");
    reveal_strlit("Credit: Unknown copyright");
    lemma_one_line("Title"@, title);
    lemma_one_line("About"@, about);
    lemma_one_line("Credit"@, credit);
    lemma_one_line("Link"@, link);
    lemma_one_line("Credit"@, "Unknown copyright"@);
    reveal_with_fuel(joined, 5);
    let none = Seq::<Seq<char>>::empty();
    let a = "Title"@ + ": "@ + title;
    let b = "About"@ + ": "@ + about;
    let c = "Credit"@ + ": "@ + credit;
    let d = "Link"@ + ": "@ + link;
    let u = "Credit"@ + ": "@ + "Unknown copyright"@;
    let four = seq![a] + seq![b] + seq![c] + seq![d];
    assert(four =~= seq![a, b, c, d]);
    assert(four.drop_last() =~= seq![a, b, c]);
    assert(four.drop_last().drop_last() =~= seq![a, b]);
    assert(four.drop_last().drop_last().drop_last() =~= seq![a]);
    assert(joined(four, "\n"@) =~= a + "\n"@ + b + "\n"@ + c + "\n"@ + d);
    assert(a =~= "Title: "@ + title);
    assert(b =~= "About: "@ + about);
    assert(c =~= "Credit: "@ + credit);
    assert(d =~= "Link: "@ + link);
    assert(u =~= "Credit: Unknown copyright"@);
    assert(none + none + seq![u] + none =~= seq![u]);
    assert(joined(seq![u], "\n"@) =~= u);
    let two = none + none + seq![c] + seq![d];
    assert(two =~= seq![c, d]);
    assert(two.drop_last() =~= seq![c]);
    assert(joined(two, "\n"@) =~= c + "\n"@ + d);
}

/// Whether a text has no line break.
pub open spec fn single_line(text: Seq<char>) -> bool {
    !text.contains('\n') && !text.contains('\r')
}

proof fn lemma_one_line(label: Seq<char>, value: Seq<char>)
    requires
        single_line(value),
        value.len() > 0,
    ensures
        info_lines(icon_text("x"@, true), label, value, 0, true) == seq![label + ": "@ + value],
        icon_text("x"@, true) == Seq::<char>::empty(),
{
    let clean = masked(value, Class::Two('\n', '\r'), ' ');
    assert forall|i: int| 0 <= i < value.len() implies clean[i] == value[i] by {
        assert(value.contains(value[i]));
    }
    assert(clean =~= value);
}

/// What was found is told of by its own title, text, attribution and address; where nothing was
/// found, or the search failed, that is told.
pub proof fn info_is_of_what_was_found(
    found: Result<Option<WallpaperCandidate>, WallpaperError>,
    width: int,
    plain: bool,
    r: Result<String, WallpaperError>,
)
    requires
        info_ends(found, width, plain, r),
    ensures
        found matches Ok(Some(c)) ==> (r matches Ok(text) && text@ == basic_info(
            c@.title,
            c@.description,
            c@.attribution,
            c@.info_url,
            width,
            plain,
        )),
        found matches Err(e) ==> (r matches Err(told) && told@ == e@),
        found matches Ok(None) ==> (r matches Err(told) && told@ == ErrorView::Message(
            "No metadata found for last applied wallpaper. Run the download first."@,
        )),
{
}

/// A line begins with its icon, if there is one, and its label, which is set off in color unless
/// plain text is asked for.
pub proof fn lines_begin_with_their_labels(icon: Seq<char>, label: Seq<char>)
    ensures
        styled_prefix(Seq::empty(), label, true) == label + ": "@,
        icon.len() > 0 ==> prefix_text(icon, label) == icon + " "@ + label + ": "@,
        icon.len() > 0 ==> styled_prefix(icon, label, false) == "\u{1b}[1;36m"@ + icon + " "@
            + label + ":\u{1b}[0m "@,
        styled_prefix(Seq::empty(), label, false) == "\u{1b}[1;36m"@ + label + ":\u{1b}[0m "@,
{
    reveal_strlit(":");
    reveal_strlit(" ");
    reveal_strlit("\u{1b}[0m");
    reveal_strlit(":\u{1b}[0m ");
    assert(":"@ + "\u{1b}[0m"@ + " "@ =~= ":\u{1b}[0m "@);
    let start = "\u{1b}[1;36m"@;
    assert(start + label + ":"@ + "\u{1b}[0m"@ + " "@ =~= start + label + ":\u{1b}[0m "@);
    assert(start + icon + " "@ + label + ":"@ + "\u{1b}[0m"@ + " "@ =~= start + icon + " "@ + label
        + ":\u{1b}[0m "@);
}

/// A text is wrapped wherever there is room for more than eight characters beside the label: its
/// first line follows the label, and the others stand below the first.
pub proof fn wrapped_lines_stand_below_each_other(
    icon: Seq<char>,
    label: Seq<char>,
    value: Seq<char>,
    width: int,
    plain: bool,
    i: int,
)
    requires
        width > prefix_text(icon, label).len() + 8,
        0 <= i < wrapped(
            masked(value, Class::Two('\n', '\r'), ' '),
            width - prefix_text(icon, label).len(),
        ).len(),
    ensures
        ({
            let indent = prefix_text(icon, label).len();
            let lines = wrapped(masked(value, Class::Two('\n', '\r'), ' '), width - indent);
            let shown = info_lines(icon, label, value, width, plain);
            &&& shown.len() == lines.len()
            &&& i == 0 ==> shown[i] == styled_prefix(icon, label, plain) + lines[i]
            &&& i > 0 ==> shown[i] == Seq::new(indent, |j: int| ' ') + lines[i]
        }),
{
}

} // verus!

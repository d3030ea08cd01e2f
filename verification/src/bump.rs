//! The version of the package: reading it from the manifest, raising it and writing it back.

use crate::number::{
    all_digits, decimal, decimal_reads_back, is_digit, lemma_decimal, parse_decimal, parse_number,
    u64_text,
};
use crate::text::{
    Class, begins_with, first_of, lemma_first_of, letters, opt_text, pieces, same, split,
    starts_with, stripped, text_of, texts, trim, trim_end, trim_of, trim_start, trim_start_of,
    trimmed, white_space,
};
use vstd::prelude::*;

verus! {

// ------------------------------------------------------------------------------------------
// What is raised
// ------------------------------------------------------------------------------------------

/// Which number of a version is raised.
#[derive(Clone, Copy, Debug, PartialEq, Eq, Structural)]
pub enum BumpKind {
    Major,
    Minor,
    Patch,
}

/// The name of a kind.
pub open spec fn kind_name(kind: BumpKind) -> Seq<char> {
    match kind {
        BumpKind::Major => "major"@,
        BumpKind::Minor => "minor"@,
        BumpKind::Patch => "patch"@,
    }
}

/// The kind with the given name.
pub open spec fn kind_named(value: Seq<char>) -> Option<BumpKind> {
    if value == "major"@ {
        Some(BumpKind::Major)
    } else if value == "minor"@ {
        Some(BumpKind::Minor)
    } else if value == "patch"@ {
        Some(BumpKind::Patch)
    } else {
        None
    }
}

impl BumpKind {
    /// The kind with the given name.
    pub fn from_str(value: &str) -> (r: Option<BumpKind>)
        ensures
            r == kind_named(value@),
    {
        if same(value, "major") {
            Some(BumpKind::Major)
        } else if same(value, "minor") {
            Some(BumpKind::Minor)
        } else if same(value, "patch") {
            Some(BumpKind::Patch)
        } else {
            None
        }
    }

    /// The name of the kind.
    pub fn as_str(self) -> (r: &'static str)
        ensures
            r@ == kind_name(self),
    {
        match self {
            BumpKind::Major => "major",
            BumpKind::Minor => "minor",
            BumpKind::Patch => "patch",
        }
    }
}

/// Each kind is found by its name.
pub proof fn kinds_are_found_by_name(kind: BumpKind)
    ensures
        kind_named(kind_name(kind)) == Some(kind),
{
    reveal_strlit("major");
    reveal_strlit("minor");
    reveal_strlit("patch");
    assert("major"@[1] == 'a');
    assert("minor"@[1] == 'i');
    assert("patch"@[0] == 'p');
}

/// What the arguments ask for.
#[derive(Clone, Copy, Debug, PartialEq, Eq, Structural)]
pub enum BumpRequest {
    Bump(BumpKind),
    /// Ask the user what to raise.
    Ask,
    /// Print how the program is used.
    Help,
    /// The arguments are wrong.
    Wrong,
}

/// What the arguments ask for.
pub open spec fn requested(args: Seq<Seq<char>>) -> BumpRequest {
    if args.len() > 1 {
        BumpRequest::Wrong
    } else if args.len() == 0 {
        BumpRequest::Ask
    } else if args[0] == "-h"@ || args[0] == "--help"@ {
        BumpRequest::Help
    } else {
        match kind_named(args[0]) {
            Some(kind) => BumpRequest::Bump(kind),
            None => BumpRequest::Wrong,
        }
    }
}

/// What the arguments ask for.
pub fn bump_request(args: &Vec<String>) -> (r: BumpRequest)
    ensures
        r == requested(texts(args@)),
{
    assert(texts(args@).len() == args@.len());
    if args.len() > 1 {
        return BumpRequest::Wrong;
    }
    if args.len() == 0 {
        return BumpRequest::Ask;
    }
    let arg = args[0].as_str();
    assert(arg@ == texts(args@)[0]);
    if same(arg, "-h") || same(arg, "--help") {
        return BumpRequest::Help;
    }
    match BumpKind::from_str(arg) {
        Some(kind) => BumpRequest::Bump(kind),
        None => BumpRequest::Wrong,
    }
}

// ------------------------------------------------------------------------------------------
// Versions
// ------------------------------------------------------------------------------------------

/// The three numbers of a version.
pub open spec fn version_numbers(s: Seq<char>) -> Option<(int, int, int)> {
    let parts = pieces(s, Class::One('.'));
    if parts.len() != 3 {
        None
    } else {
        match (
            parse_decimal(parts[0], u64::MAX as int),
            parse_decimal(parts[1], u64::MAX as int),
            parse_decimal(parts[2], u64::MAX as int),
        ) {
            (Some(a), Some(b), Some(c)) => Some((a, b, c)),
            _ => None,
        }
    }
}

/// The text of a version.
pub open spec fn version_text(v: (int, int, int)) -> Seq<char> {
    decimal(v.0 as nat) + "."@ + decimal(v.1 as nat) + "."@ + decimal(v.2 as nat)
}

/// A version with one of its numbers raised, and those after it set back.
pub open spec fn raised(v: (int, int, int), kind: BumpKind) -> (int, int, int) {
    match kind {
        BumpKind::Major => (v.0 + 1, 0, 0),
        BumpKind::Minor => (v.0, v.1 + 1, 0),
        BumpKind::Patch => (v.0, v.1, v.2 + 1),
    }
}

/// Whether one version comes before another.
pub open spec fn older(a: (int, int, int), b: (int, int, int)) -> bool {
    ||| a.0 < b.0
    ||| a.0 == b.0 && a.1 < b.1
    ||| a.0 == b.0 && a.1 == b.1 && a.2 < b.2
}

/// Whether the numbers of a version are in range.
pub open spec fn in_range(v: (int, int, int)) -> bool {
    0 <= v.0 <= u64::MAX && 0 <= v.1 <= u64::MAX && 0 <= v.2 <= u64::MAX
}

/// The three numbers of a version.
pub fn parse_version(current: &str) -> (r: Option<(u64, u64, u64)>)
    ensures
        match r {
            Some(v) => version_numbers(current@) == Some((v.0 as int, v.1 as int, v.2 as int)),
            None => version_numbers(current@) is None,
        },
{
    let parts = split(current, Class::One('.'));
    assert(texts(parts@).len() == parts@.len());
    if parts.len() != 3 {
        return None;
    }
    assert(texts(parts@)[0] == parts@[0]@);
    assert(texts(parts@)[1] == parts@[1]@);
    assert(texts(parts@)[2] == parts@[2]@);
    let major = parse_number(parts[0].as_str(), u64::MAX);
    let minor = parse_number(parts[1].as_str(), u64::MAX);
    let patch = parse_number(parts[2].as_str(), u64::MAX);
    match (major, minor, patch) {
        (Some(a), Some(b), Some(c)) => Some((a, b, c)),
        _ => None,
    }
}

/// Raises a version. A number that is raised has to be below the largest.
pub fn bump_version(current: &str, kind: BumpKind) -> (r: Result<String, String>)
    requires
        version_numbers(current@) matches Some(v) ==> in_range(raised(v, kind)),
    ensures
        match r {
            Ok(next) => version_numbers(current@) matches Some(v) && next@ == version_text(
                raised(v, kind),
            ),
            Err(text) => version_numbers(current@) is None && text@ == "Invalid semver: "@
                + current@,
        },
{
    let (major, minor, patch) = match parse_version(current) {
        Some(v) => v,
        None => {
            let mut text = "Invalid semver: ".to_string();
            text.append(current);
            return Err(text);
        },
    };
    let next: (u64, u64, u64) = match kind {
        BumpKind::Major => (major + 1, 0, 0),
        BumpKind::Minor => (major, minor + 1, 0),
        BumpKind::Patch => (major, minor, patch + 1),
    };
    let mut text = u64_text(next.0);
    text.append(".");
    text.append(u64_text(next.1).as_str());
    text.append(".");
    text.append(u64_text(next.2).as_str());
    Ok(text)
}

proof fn lemma_first_dot(digits: Seq<char>, rest: Seq<char>)
    requires
        all_digits(digits),
        rest.len() == 0 || rest[0] == '.',
    ensures
        first_of(digits + rest, Class::One('.')) == digits.len(),
    decreases digits.len(),
{
    let s = digits + rest;
    if digits.len() == 0 {
        if rest.len() > 0 {
            assert(s[0] == '.');
        }
    } else {
        assert(s[0] == digits[0]);
        assert(is_digit(digits[0]));
        assert forall|i: int| 0 <= i < digits.drop_first().len() implies is_digit(
            #[trigger] digits.drop_first()[i],
        ) by {
            assert(digits.drop_first()[i] == digits[i + 1]);
        }
        lemma_first_dot(digits.drop_first(), rest);
        assert(s.drop_first() =~= digits.drop_first() + rest);
    }
}

/// The text of a version says its three numbers.
pub proof fn version_reads_back(v: (int, int, int))
    requires
        in_range(v),
    ensures
        version_numbers(version_text(v)) == Some(v),
{
    reveal_strlit(".");
    let a = decimal(v.0 as nat);
    let b = decimal(v.1 as nat);
    let c = decimal(v.2 as nat);
    lemma_decimal(v.0 as nat);
    lemma_decimal(v.1 as nat);
    lemma_decimal(v.2 as nat);
    decimal_reads_back(v.0 as nat, u64::MAX as int);
    decimal_reads_back(v.1 as nat, u64::MAX as int);
    decimal_reads_back(v.2 as nat, u64::MAX as int);
    let k = Class::One('.');
    let s = version_text(v);
    let tail = "."@ + b + "."@ + c;
    assert(s =~= a + tail);
    lemma_first_dot(a, tail);
    assert(s.take(a.len() as int) =~= a);
    let s1 = b + ("."@ + c);
    assert(s.skip(a.len() as int + 1) =~= s1);
    lemma_first_dot(b, "."@ + c);
    assert(s1.take(b.len() as int) =~= b);
    assert(s1.skip(b.len() as int + 1) =~= c);
    lemma_first_dot(c, Seq::empty());
    assert(c + Seq::<char>::empty() =~= c);
    assert(pieces(c, k) == seq![c]);
    assert(pieces(s1, k) =~= seq![b, c]);
    assert(pieces(s, k) =~= seq![a, b, c]);
}

/// A version that was raised is newer.
pub proof fn raised_version_is_newer(v: (int, int, int), kind: BumpKind)
    ensures
        older(v, raised(v, kind)),
{
}

// ------------------------------------------------------------------------------------------
// Lines
// ------------------------------------------------------------------------------------------

/// A line without the carriage return before its end.
pub open spec fn without_return(line: Seq<char>) -> Seq<char> {
    if line.len() > 0 && line.last() == '\r' {
        line.drop_last()
    } else {
        line
    }
}

/// The lines of a text. The last need not be ended.
pub open spec fn lines_of(s: Seq<char>) -> Seq<Seq<char>> {
    let parts = pieces(s, Class::One('\n'));
    let ended = parts.drop_last().map_values(|l: Seq<char>| without_return(l));
    if parts.last().len() == 0 {
        ended
    } else {
        ended.push(parts.last())
    }
}

/// The text of lines, each of them ended.
pub open spec fn text_of_lines(lines: Seq<Seq<char>>) -> Seq<char>
    decreases lines.len(),
{
    if lines.len() == 0 {
        Seq::empty()
    } else {
        text_of_lines(lines.drop_last()) + lines.last() + "\n"@
    }
}

fn cut_return(line: &str) -> (r: String)
    ensures
        r@ == without_return(line@),
{
    let v = letters(line);
    if v.len() > 0 && v[v.len() - 1] == '\r' {
        assert(v@.subrange(0, v@.len() - 1) =~= v@.drop_last());
        text_of(&v, 0, v.len() - 1)
    } else {
        line.to_string()
    }
}

/// The lines of a text.
pub fn lines(s: &str) -> (r: Vec<String>)
    ensures
        texts(r@) == lines_of(s@),
{
    let parts = split(s, Class::One('\n'));
    let ghost all = texts(parts@);
    let ghost ended = all.drop_last().map_values(|l: Seq<char>| without_return(l));
    assert(all.len() == parts@.len());
    assert(all.len() > 0);
    let mut out: Vec<String> = Vec::new();
    let mut i: usize = 0;
    assert(texts(out@) =~= ended.take(0));
    while i < parts.len() - 1
        invariant
            parts@.len() > 0,
            i <= parts@.len() - 1,
            all == texts(parts@),
            ended == all.drop_last().map_values(|l: Seq<char>| without_return(l)),
            texts(out@) == ended.take(i as int),
        decreases parts@.len() - i,
    {
        let ghost before = out@;
        assert(all.drop_last()[i as int] == parts@[i as int]@);
        let line = cut_return(parts[i].as_str());
        assert(line@ == ended[i as int]);
        out.push(line);
        assert(texts(out@) =~= texts(before).push(ended[i as int]));
        assert(ended.take(i + 1) =~= ended.take(i as int).push(ended[i as int]));
        i += 1;
    }
    assert(ended.take(i as int) =~= ended);
    assert(all.last() == parts@[i as int]@);
    if !parts[i].as_str().is_empty() {
        let ghost before = out@;
        out.push(parts[i].clone());
        assert(texts(out@) =~= texts(before).push(parts@[i as int]@));
    }
    out
}

fn lines_text(lines: &Vec<String>) -> (r: String)
    ensures
        r@ == text_of_lines(texts(lines@)),
{
    let ghost all = texts(lines@);
    let mut out = String::new();
    let mut i: usize = 0;
    assert(out@ =~= text_of_lines(all.take(0)));
    while i < lines.len()
        invariant
            i <= lines@.len(),
            all == texts(lines@),
            out@ == text_of_lines(all.take(i as int)),
        decreases lines@.len() - i,
    {
        assert(all.take(i + 1).drop_last() =~= all.take(i as int));
        assert(all.take(i + 1).last() == lines@[i as int]@);
        out.append(lines[i].as_str());
        out.append("\n");
        i += 1;
    }
    assert(all.take(i as int) =~= all);
    out
}

// ------------------------------------------------------------------------------------------
// The manifest
// ------------------------------------------------------------------------------------------

/// What stands before the first `c` in `s`.
pub open spec fn before(s: Seq<char>, c: char) -> Seq<char> {
    s.take(first_of(s, Class::One(c)))
}

/// What stands after the first `c` in `s`; `None` where there is no `c`.
pub open spec fn after(s: Seq<char>, c: char) -> Option<Seq<char>> {
    let n = first_of(s, Class::One(c));
    if n < s.len() {
        Some(s.skip(n + 1))
    } else {
        None
    }
}

fn cut_at(s: &str, c: char) -> (r: (String, Option<String>))
    ensures
        r.0@ == before(s@, c),
        opt_text(r.1) == after(s@, c),
{
    let v = letters(s);
    let mut n: usize = 0;
    assert(v@.skip(0) =~= v@);
    while n < v.len() && v[n] != c
        invariant
            n <= v@.len(),
            v@ == s@,
            first_of(s@, Class::One(c)) == n + first_of(v@.skip(n as int), Class::One(c)),
        decreases v@.len() - n,
    {
        assert(v@.skip(n as int)[0] == v@[n as int]);
        assert(v@.skip(n as int).drop_first() =~= v@.skip(n + 1));
        n += 1;
    }
    proof {
        if n < v@.len() {
            assert(v@.skip(n as int)[0] == v@[n as int]);
        }
    }
    assert(first_of(s@, Class::One(c)) == n);
    assert(v@.subrange(0, n as int) =~= v@.take(n as int));
    let head = text_of(&v, 0, n);
    if n < v.len() {
        assert(v@.subrange(n + 1, v@.len() as int) =~= v@.skip(n + 1));
        (head, Some(text_of(&v, n + 1, v.len())))
    } else {
        (head, None)
    }
}

/// The key of a line `key = value`.
pub open spec fn key_of(line: Seq<char>) -> Seq<char> {
    stripped(before(before(line, '#'), '='))
}

/// The value of a line `key = value`, without its quotes.
pub open spec fn value_of(line: Seq<char>) -> Seq<char> {
    match after(before(line, '#'), '=') {
        Some(value) => trimmed(stripped(value), Class::One('"')),
        None => Seq::empty(),
    }
}

/// The version that the package's section of a manifest gives; `inside` tells whether the lines
/// begin in that section. The section ends where another begins.
pub open spec fn find_version(lines: Seq<Seq<char>>, inside: bool) -> Option<Seq<char>>
    decreases lines.len(),
{
    if lines.len() == 0 {
        None
    } else {
        let line = stripped(lines[0]);
        let rest = lines.drop_first();
        if begins_with(line, "[package]"@) {
            find_version(rest, true)
        } else if inside && begins_with(line, "["@) {
            None
        } else if inside && key_of(line) == "version"@ {
            Some(value_of(line))
        } else {
            find_version(rest, inside)
        }
    }
}

/// The line that gives `version` in the place of another; its comment is kept.
pub open spec fn version_line(line: Seq<char>, version: Seq<char>) -> Seq<char> {
    let code = before(line, '#');
    let indent = code.take(code.len() - trim_start(code, Class::WhiteSpace).len());
    indent + "version = \""@ + version + "\""@ + match after(line, '#') {
        Some(comment) => " #"@ + trim_start(comment, Class::WhiteSpace),
        None => Seq::empty(),
    }
}

/// Lines, where there are some, after others.
pub open spec fn with_front(front: Seq<Seq<char>>, lines: Option<Seq<Seq<char>>>) -> Option<
    Seq<Seq<char>>,
> {
    match lines {
        Some(l) => Some(front + l),
        None => None,
    }
}

/// The lines of a manifest with another version; `None` where they give none. `inside` tells
/// whether they begin in a section of the package.
pub open spec fn with_version(lines: Seq<Seq<char>>, inside: bool, version: Seq<char>) -> Option<
    Seq<Seq<char>>,
>
    decreases lines.len(),
{
    if lines.len() == 0 {
        None
    } else {
        let line = stripped(lines[0]);
        let rest = lines.drop_first();
        if begins_with(line, "[package]"@) {
            with_front(seq![lines[0]], with_version(rest, true, version))
        } else {
            let now = inside && !begins_with(line, "["@);
            if now && key_of(lines[0]) == "version"@ {
                Some(seq![version_line(lines[0], version)] + rest)
            } else {
                with_front(seq![lines[0]], with_version(rest, now, version))
            }
        }
    }
}

fn key_in(line: &str) -> (r: String)
    ensures
        r@ == key_of(line@),
{
    let (code, _) = cut_at(line, '#');
    let (key, _) = cut_at(code.as_str(), '=');
    trim(key.as_str())
}

fn value_in(line: &str) -> (r: String)
    ensures
        r@ == value_of(line@),
{
    let (code, _) = cut_at(line, '#');
    let (_, value) = cut_at(code.as_str(), '=');
    match value {
        Some(v) => trim_of(trim(v.as_str()).as_str(), Class::One('"')),
        None => {
            let r = String::new();
            assert(r@ =~= Seq::empty());
            r
        },
    }
}

/// The version that a manifest gives.
pub fn read_package_version(contents: &str) -> (r: Result<String, String>)
    ensures
        match find_version(lines_of(contents@), false) {
            None => r matches Err(text) && text@
                == "Could not find package version in Cargo.toml"@,
            Some(v) => if v.len() == 0 {
                r matches Err(text) && text@ == "Version field is empty"@
            } else {
                r matches Ok(version) && version@ == v
            },
        },
{
    let list = lines(contents);
    let ghost all = texts(list@);
    let mut inside = false;
    let mut i: usize = 0;
    assert(all.skip(0) =~= all);
    while i < list.len()
        invariant
            i <= list@.len(),
            all == texts(list@),
            all == lines_of(contents@),
            find_version(all, false) == find_version(all.skip(i as int), inside),
        decreases list@.len() - i,
    {
        assert(all.skip(i as int)[0] == list@[i as int]@);
        assert(all.skip(i as int).drop_first() =~= all.skip(i + 1));
        let line = trim(list[i].as_str());
        if starts_with(line.as_str(), "[package]") {
            inside = true;
        } else if inside && starts_with(line.as_str(), "[") {
            return Err("Could not find package version in Cargo.toml".to_string());
        } else if inside && same(key_in(line.as_str()).as_str(), "version") {
            let version = value_in(line.as_str());
            if version.as_str().is_empty() {
                return Err("Version field is empty".to_string());
            }
            return Ok(version);
        }
        i += 1;
    }
    Err("Could not find package version in Cargo.toml".to_string())
}

fn version_line_of(line: &str, version: &str) -> (r: String)
    ensures
        r@ == version_line(line@, version@),
{
    let (code, comment) = cut_at(line, '#');
    let rest = trim_start_of(code.as_str(), Class::WhiteSpace);
    let v = letters(code.as_str());
    let w = letters(rest.as_str());
    proof {
        lemma_trim_start(code@, Class::WhiteSpace);
    }
    assert(v@.subrange(0, v@.len() - w@.len()) =~= v@.take(v@.len() - w@.len()));
    let mut out = text_of(&v, 0, v.len() - w.len());
    out.append("version = \"");
    out.append(version);
    out.append("\"");
    let ghost core = out@;
    match comment {
        Some(text) => {
            out.append(" #");
            out.append(trim_start_of(text.as_str(), Class::WhiteSpace).as_str());
            assert(out@ =~= version_line(line@, version@));
        },
        None => {
            assert(core + Seq::<char>::empty() =~= core);
        },
    }
    out
}

/// A manifest with another version.
pub fn update_cargo_toml(contents: &str, new_version: &str) -> (r: Result<String, String>)
    ensures
        match with_version(lines_of(contents@), false, new_version@) {
            Some(changed) => r matches Ok(text) && text@ == text_of_lines(changed),
            None => r matches Err(text) && text@ == "Could not update version in Cargo.toml"@,
        },
{
    let list = lines(contents);
    let ghost all = texts(list@);
    let mut out: Vec<String> = Vec::new();
    let mut inside = false;
    let mut i: usize = 0;
    assert(all.skip(0) =~= all);
    assert(texts(out@) =~= all.take(0));
    proof {
        lemma_no_front(with_version(all, false, new_version@));
    }
    while i < list.len()
        invariant
            i <= list@.len(),
            all == texts(list@),
            all == lines_of(contents@),
            texts(out@) == all.take(i as int),
            with_version(all, false, new_version@) == with_front(
                all.take(i as int),
                with_version(all.skip(i as int), inside, new_version@),
            ),
        decreases list@.len() - i,
    {
        let ghost here = all.skip(i as int);
        let ghost done = all.take(i as int);
        assert(here[0] == list@[i as int]@);
        assert(here.drop_first() =~= all.skip(i + 1));
        assert(all.take(i + 1) =~= done + seq![here[0]]);
        let line = trim(list[i].as_str());
        if starts_with(line.as_str(), "[package]") {
            inside = true;
        } else {
            if starts_with(line.as_str(), "[") {
                inside = false;
            }
            if inside && same(key_in(list[i].as_str()).as_str(), "version") {
                let ghost so_far = out@;
                let new_line = version_line_of(list[i].as_str(), new_version);
                let ghost changed = new_line@;
                out.push(new_line);
                assert(texts(out@) =~= done.push(changed));
                i += 1;
                while i < list.len()
                    invariant
                        i <= list@.len(),
                        all == texts(list@),
                        with_version(all, false, new_version@) == Some(
                            texts(out@) + all.skip(i as int),
                        ),
                    decreases list@.len() - i,
                {
                    let ghost last = out@;
                    out.push(list[i].clone());
                    assert(texts(out@) =~= texts(last).push(all[i as int]));
                    assert(texts(last) + all.skip(i as int) =~= texts(out@) + all.skip(i + 1));
                    i += 1;
                }
                assert(texts(out@) + all.skip(i as int) =~= texts(out@));
                return Ok(lines_text(&out));
            }
        }
        let ghost so_far = out@;
        out.push(list[i].clone());
        assert(texts(out@) =~= texts(so_far).push(all[i as int]));
        proof {
            lemma_front(
                done,
                seq![here[0]],
                with_version(all.skip(i + 1), inside, new_version@),
            );
        }
        i += 1;
    }
    Err("Could not update version in Cargo.toml".to_string())
}

proof fn lemma_front(a: Seq<Seq<char>>, b: Seq<Seq<char>>, lines: Option<Seq<Seq<char>>>)
    ensures
        with_front(a, with_front(b, lines)) == with_front(a + b, lines),
{
    if let Some(l) = lines {
        assert(a + (b + l) =~= (a + b) + l);
    }
}

proof fn lemma_no_front(lines: Option<Seq<Seq<char>>>)
    ensures
        with_front(Seq::empty(), lines) == lines,
{
    if let Some(l) = lines {
        assert(Seq::<Seq<char>>::empty() + l =~= l);
    }
}

proof fn lemma_trim_start(s: Seq<char>, k: Class)
    ensures
        trim_start(s, k).len() <= s.len(),
        s.skip(s.len() - trim_start(s, k).len()) == trim_start(s, k),
        forall|i: int| 0 <= i < s.len() - trim_start(s, k).len() ==> k.has(#[trigger] s[i]),
        trim_start(s, k).len() > 0 ==> !k.has(trim_start(s, k)[0]),
    decreases s.len(),
{
    if s.len() > 0 && k.has(s[0]) {
        let rest = s.drop_first();
        lemma_trim_start(rest, k);
        let n = s.len() - trim_start(s, k).len();
        assert(s.skip(n) =~= rest.skip(n - 1));
        assert forall|i: int| 0 <= i < n implies k.has(#[trigger] s[i]) by {
            if i > 0 {
                assert(s[i] == rest[i - 1]);
            }
        }
    } else {
        assert(s.skip(0) =~= s);
    }
}

// ------------------------------------------------------------------------------------------
// What is written is read back
// ------------------------------------------------------------------------------------------

spec fn all_of(s: Seq<char>, k: Class) -> bool {
    forall|i: int| 0 <= i < s.len() ==> k.has(#[trigger] s[i])
}

spec fn lacks(s: Seq<char>, c: char) -> bool {
    forall|i: int| 0 <= i < s.len() ==> #[trigger] s[i] != c
}

proof fn lemma_trim_start_padded(pre: Seq<char>, x: Seq<char>, k: Class)
    requires
        all_of(pre, k),
    ensures
        trim_start(pre + x, k) == trim_start(x, k),
    decreases pre.len(),
{
    let s = pre + x;
    if pre.len() == 0 {
        assert(s =~= x);
    } else {
        assert(s[0] == pre[0]);
        assert(s.drop_first() =~= pre.drop_first() + x);
        assert forall|i: int| 0 <= i < pre.drop_first().len() implies k.has(
            #[trigger] pre.drop_first()[i],
        ) by {
            assert(pre.drop_first()[i] == pre[i + 1]);
        }
        lemma_trim_start_padded(pre.drop_first(), x, k);
    }
}

proof fn lemma_trim_end_padded(x: Seq<char>, post: Seq<char>, k: Class)
    requires
        all_of(post, k),
    ensures
        trim_end(x + post, k) == trim_end(x, k),
    decreases post.len(),
{
    let s = x + post;
    if post.len() == 0 {
        assert(s =~= x);
    } else {
        assert(s.last() == post[post.len() - 1]);
        assert(s.drop_last() =~= x + post.drop_last());
        assert forall|i: int| 0 <= i < post.drop_last().len() implies k.has(
            #[trigger] post.drop_last()[i],
        ) by {
            assert(post.drop_last()[i] == post[i]);
        }
        lemma_trim_end_padded(x, post.drop_last(), k);
    }
}

proof fn lemma_trim_end(s: Seq<char>, k: Class)
    ensures
        trim_end(s, k).len() <= s.len(),
        s.take(trim_end(s, k).len() as int) == trim_end(s, k),
        forall|i: int| trim_end(s, k).len() <= i < s.len() ==> k.has(#[trigger] s[i]),
    decreases s.len(),
{
    if s.len() > 0 && k.has(s.last()) {
        let rest = s.drop_last();
        lemma_trim_end(rest, k);
        let n = trim_end(s, k).len() as int;
        assert(s.take(n) =~= rest.take(n));
        assert forall|i: int| n <= i < s.len() implies k.has(#[trigger] s[i]) by {
            if i < rest.len() {
                assert(s[i] == rest[i]);
            }
        }
    } else {
        assert(s.take(s.len() as int) =~= s);
    }
}

/// The white space around a text, and the text.
proof fn lemma_around(s: Seq<char>) -> (r: (Seq<char>, Seq<char>))
    ensures
        s == r.0 + stripped(s) + r.1,
        all_of(r.0, Class::WhiteSpace),
        all_of(r.1, Class::WhiteSpace),
{
    let k = Class::WhiteSpace;
    let head = trim_start(s, k);
    lemma_trim_start(s, k);
    lemma_trim_end(head, k);
    let t = trim_end(head, k);
    let pre = s.take(s.len() - head.len());
    let post = head.skip(t.len() as int);
    assert(s =~= pre + head);
    assert(head =~= t + post);
    assert(s =~= pre + t + post);
    assert forall|i: int| 0 <= i < post.len() implies k.has(#[trigger] post[i]) by {
        assert(post[i] == head[t.len() + i]);
    }
    assert forall|i: int| 0 <= i < pre.len() implies k.has(#[trigger] pre[i]) by {
        assert(pre[i] == s[i]);
    }
    (pre, post)
}

/// Stripping a text takes off white space around it, however it was put there.
proof fn lemma_stripped_padded(pre: Seq<char>, x: Seq<char>, post: Seq<char>)
    requires
        all_of(pre, Class::WhiteSpace),
        all_of(post, Class::WhiteSpace),
    ensures
        stripped(pre + x + post) == stripped(x),
{
    let k = Class::WhiteSpace;
    assert(pre + x + post =~= pre + (x + post));
    lemma_trim_start_padded(pre, x + post, k);
    lemma_trim_start(x, k);
    let head = trim_start(x, k);
    let gap = x.take(x.len() - head.len());
    assert(x =~= gap + head);
    assert forall|i: int| 0 <= i < gap.len() implies k.has(#[trigger] gap[i]) by {
        assert(gap[i] == x[i]);
    }
    assert(x + post =~= gap + (head + post));
    lemma_trim_start_padded(gap, head + post, k);
    if head.len() > 0 {
        assert((head + post)[0] == head[0]);
        assert(trim_start(head + post, k) == head + post);
        lemma_trim_end_padded(head, post, k);
    } else {
        assert(head + post =~= post + Seq::<char>::empty());
        lemma_trim_start_padded(post, Seq::empty(), k);
        assert(trim_start(Seq::<char>::empty(), k) =~= Seq::<char>::empty());
        assert(head =~= Seq::<char>::empty());
    }
}

proof fn lemma_first_in_padded(pre: Seq<char>, x: Seq<char>, post: Seq<char>, c: char)
    requires
        lacks(pre, c),
        lacks(post, c),
    ensures
        first_of(pre + x + post, Class::One(c)) == if lacks(x, c) {
            (pre.len() + x.len() + post.len()) as int
        } else {
            pre.len() + first_of(x, Class::One(c))
        },
        !lacks(x, c) <==> first_of(x, Class::One(c)) < x.len(),
{
    let k = Class::One(c);
    let s = pre + x + post;
    lemma_first_of(s, k);
    lemma_first_of(x, k);
    let n = first_of(s, k);
    let m = first_of(x, k);
    if m < x.len() {
        assert(x[m] == c);
        assert(s[pre.len() + m] == x[m]);
        if n < pre.len() {
            assert(s[n] == pre[n]);
        } else if n < pre.len() + m {
            assert(s[n] == x[n - pre.len()]);
        } else if n > pre.len() + m {
            assert(k.has(s[pre.len() + m]));
        }
    } else {
        assert forall|i: int| 0 <= i < x.len() implies #[trigger] x[i] != c by {
            assert(!k.has(x[i]));
        }
        if n < s.len() {
            if n < pre.len() {
                assert(s[n] == pre[n]);
            } else if n < pre.len() + x.len() {
                assert(s[n] == x[n - pre.len()]);
            } else {
                assert(s[n] == post[n - pre.len() - x.len()]);
            }
        }
    }
}

proof fn lemma_white_space_lacks(s: Seq<char>, c: char)
    requires
        all_of(s, Class::WhiteSpace),
        !white_space(c),
    ensures
        lacks(s, c),
{
    assert forall|i: int| 0 <= i < s.len() implies #[trigger] s[i] != c by {
        assert(Class::WhiteSpace.has(s[i]));
    }
}

/// White space around a line changes neither its key nor its value.
proof fn lemma_line_padded(pre: Seq<char>, t: Seq<char>, post: Seq<char>)
    requires
        all_of(pre, Class::WhiteSpace),
        all_of(post, Class::WhiteSpace),
    ensures
        key_of(pre + t + post) == key_of(t),
        value_of(pre + t + post) == value_of(t),
{
    lemma_white_space_lacks(pre, '#');
    lemma_white_space_lacks(post, '#');
    lemma_white_space_lacks(pre, '=');
    lemma_white_space_lacks(post, '=');
    let none = Seq::<char>::empty();
    let line = pre + t + post;
    lemma_first_in_padded(pre, t, post, '#');
    lemma_first_in_padded(none, t, none, '#');
    assert(none + t + none =~= t);
    let y = before(t, '#');
    let q = if lacks(t, '#') {
        post
    } else {
        none
    };
    lemma_first_of(t, Class::One('#'));
    assert(y =~= t.take(first_of(t, Class::One('#'))));
    if lacks(t, '#') {
        assert(y =~= t);
        assert(before(line, '#') =~= line);
    } else {
        assert(before(line, '#') =~= pre + y + none);
    }
    let code = pre + y + q;
    assert(before(line, '#') =~= code);
    lemma_first_in_padded(pre, y, q, '=');
    lemma_first_of(y, Class::One('='));
    let n = first_of(y, Class::One('='));
    if lacks(y, '=') {
        assert(before(code, '=') =~= code);
        assert(before(y, '=') =~= y);
        lemma_stripped_padded(pre, y, q);
    } else {
        assert(before(code, '=') =~= pre + before(y, '=') + none);
        lemma_stripped_padded(pre, before(y, '='), none);
        assert(code.skip(pre.len() + n + 1) =~= none + y.skip(n + 1) + q);
        lemma_stripped_padded(none, y.skip(n + 1), q);
    }
}

proof fn lemma_line_stripped(line: Seq<char>)
    ensures
        key_of(stripped(line)) == key_of(line),
        value_of(stripped(line)) == value_of(line),
{
    let (pre, post) = lemma_around(line);
    lemma_line_padded(pre, stripped(line), post);
}

/// Whether a text can be written as a version: there is something to write, and no quotes, number
/// signs or line breaks in it.
pub open spec fn writable_version(v: Seq<char>) -> bool {
    &&& v.len() > 0
    &&& !v.contains('"')
    &&& !v.contains('#')
    &&& !v.contains('\n')
}

/// The line that gives a version is read as giving it.
proof fn lemma_version_line(line: Seq<char>, v: Seq<char>)
    requires
        writable_version(v),
    ensures
        key_of(version_line(line, v)) == "version"@,
        value_of(version_line(line, v)) == v,
        !begins_with(stripped(version_line(line, v)), "["@),
        !begins_with(stripped(version_line(line, v)), "[package]"@),
{
    reveal_strlit("version = \"");
    reveal_strlit("version");
    reveal_strlit("\"");
    reveal_strlit(" #");
    reveal_strlit("[");
    reveal_strlit("[package]");
    let k = Class::WhiteSpace;
    let none = Seq::<char>::empty();
    let n = version_line(line, v);
    let code = before(line, '#');
    lemma_trim_start(code, k);
    let indent = code.take(code.len() - trim_start(code, k).len());
    assert forall|i: int| 0 <= i < indent.len() implies k.has(#[trigger] indent[i]) by {
        assert(indent[i] == code[i]);
    }
    let core = "version = \""@ + v + "\""@;
    assert forall|i: int| 0 <= i < core.len() implies #[trigger] core[i] != '#' by {
        if 11 <= i < 11 + v.len() {
            assert(core[i] == v[i - 11]);
            assert(v.contains(v[i - 11]));
        }
    }
    let space = seq![' '];
    let tail = match after(line, '#') {
        Some(comment) => " #"@ + trim_start(comment, k),
        None => none,
    };
    assert(n =~= indent + core + tail);
    lemma_white_space_lacks(indent, '#');
    lemma_white_space_lacks(indent, '=');
    // What stands before the comment.
    let sp = if after(line, '#') is Some {
        space
    } else {
        none
    };
    let whole = indent + core + sp;
    if after(line, '#') is Some {
        let x = core + tail;
        assert(n =~= indent + x + none);
        lemma_first_in_padded(indent, x, none, '#');
        lemma_first_of(x, Class::One('#'));
        let m = first_of(x, Class::One('#'));
        assert(x[core.len() as int + 1] == '#');
        if m < core.len() {
            assert(x[m] == core[m]);
        } else if m == core.len() {
            assert(x[m] == ' ');
        } else if m > core.len() + 1 {
            assert(Class::One('#').has(x[core.len() as int + 1]));
        }
        assert(m == core.len() + 1);
        assert(before(n, '#') =~= whole);
    } else {
        lemma_first_in_padded(indent, core, none, '#');
        assert(before(n, '#') =~= whole);
    }
    // The key and the value.
    assert(all_of(sp, k));
    lemma_white_space_lacks(sp, '=');
    lemma_first_in_padded(indent, core, sp, '=');
    lemma_first_of(core, Class::One('='));
    let e = first_of(core, Class::One('='));
    assert(core[8] == '=');
    assert(e == 8) by {
        if e > 8 {
            assert(Class::One('=').has(core[8]));
        }
        assert(core[e] == '=');
    }
    let key = "version"@;
    assert(before(whole, '=') =~= indent + key + space);
    assert(all_of(space, k));
    lemma_stripped_padded(indent, key, space);
    assert(trim_start(key, k) == key) by {
        assert(key[0] == 'v');
    }
    assert(trim_end(key, k) == key) by {
        assert(key.last() == 'n');
    }
    let quoted = "\""@ + v + "\""@;
    assert(whole.skip(indent.len() as int + 9) =~= space + quoted + sp);
    lemma_stripped_padded(space, quoted, sp);
    assert(trim_start(quoted, k) == quoted) by {
        assert(quoted[0] == '"');
    }
    assert(trim_end(quoted, k) == quoted) by {
        assert(quoted.last() == '"');
    }
    let one = Class::One('"');
    assert(all_of("\""@, one));
    assert(quoted =~= "\""@ + (v + "\""@));
    lemma_trim_start_padded("\""@, v + "\""@, one);
    assert((v + "\""@)[0] == v[0]);
    assert(v.contains(v[0]));
    lemma_trim_end_padded(v, "\""@, one);
    assert(v.contains(v[v.len() - 1]));
    assert(trim_end(v, one) == v);
    // The line begins no section.
    let x = core + tail;
    assert(n =~= indent + x);
    lemma_trim_start_padded(indent, x, k);
    assert(x[0] == 'v');
    assert(trim_start(x, k) == x);
    lemma_trim_end(x, k);
    assert(trim_end(x, k).len() > 0) by {
        if trim_end(x, k).len() == 0 {
            assert(k.has(x[0]));
        }
    }
    assert(stripped(n)[0] == 'v');
    assert("["@[0] == '[');
    assert("[package]"@[0] == '[');
    assert(stripped(n).take(1)[0] == 'v');
    if stripped(n).len() >= 9 {
        assert(stripped(n).take(9)[0] == 'v');
    }
}

/// Setting the version of lines that give one is read back.
proof fn lemma_version_set(lines: Seq<Seq<char>>, inside: bool, v: Seq<char>)
    requires
        writable_version(v),
        find_version(lines, inside) is Some,
    ensures
        with_version(lines, inside, v) matches Some(changed) && find_version(changed, inside)
            == Some(v),
    decreases lines.len(),
{
    let line = stripped(lines[0]);
    let rest = lines.drop_first();
    let none = Seq::<Seq<char>>::empty();
    lemma_line_stripped(lines[0]);
    if begins_with(line, "[package]"@) {
        lemma_version_set(rest, true, v);
        let changed = with_version(lines, inside, v).unwrap();
        assert(changed[0] == lines[0]);
        assert(changed.drop_first() =~= with_version(rest, true, v).unwrap());
    } else if inside && key_of(line) == "version"@ {
        let changed = with_version(lines, inside, v).unwrap();
        lemma_version_line(lines[0], v);
        lemma_line_stripped(version_line(lines[0], v));
        assert(changed[0] == version_line(lines[0], v));
    } else {
        let now = inside && !begins_with(line, "["@);
        assert(now == inside);
        lemma_version_set(rest, inside, v);
        let changed = with_version(lines, inside, v).unwrap();
        assert(changed[0] == lines[0]);
        assert(changed.drop_first() =~= with_version(rest, inside, v).unwrap());
    }
}

proof fn lemma_lines_front(lines: Seq<Seq<char>>)
    requires
        lines.len() > 0,
    ensures
        text_of_lines(lines) == lines[0] + "\n"@ + text_of_lines(lines.drop_first()),
    decreases lines.len(),
{
    let rest = lines.drop_first();
    if lines.len() == 1 {
        assert(lines.drop_last() =~= Seq::<Seq<char>>::empty());
        assert(rest =~= Seq::<Seq<char>>::empty());
        assert(text_of_lines(lines.drop_last()) =~= Seq::<char>::empty());
        assert(text_of_lines(lines) =~= lines[0] + "\n"@ + text_of_lines(rest));
    } else {
        lemma_lines_front(lines.drop_last());
        assert(lines.drop_last().drop_first() =~= rest.drop_last());
        assert(rest.last() == lines.last());
        assert(text_of_lines(lines) =~= lines[0] + "\n"@ + text_of_lines(rest));
    }
}

proof fn lemma_pieces_of_lines(lines: Seq<Seq<char>>)
    requires
        forall|i: int| 0 <= i < lines.len() ==> lacks(#[trigger] lines[i], '\n'),
    ensures
        pieces(text_of_lines(lines), Class::One('\n')) == lines.push(Seq::empty()),
    decreases lines.len(),
{
    reveal_strlit("\n");
    let k = Class::One('\n');
    let none = Seq::<char>::empty();
    let s = text_of_lines(lines);
    if lines.len() == 0 {
        assert(s =~= none);
        assert(pieces(s, k) =~= lines.push(none));
    } else {
        let rest = lines.drop_first();
        lemma_lines_front(lines);
        assert forall|i: int| 0 <= i < rest.len() implies lacks(#[trigger] rest[i], '\n') by {
            assert(rest[i] == lines[i + 1]);
        }
        lemma_pieces_of_lines(rest);
        let first = lines[0];
        let x = "\n"@ + text_of_lines(rest);
        assert(lacks(first, '\n'));
        assert(s =~= first + x + none);
        lemma_first_in_padded(first, x, none, '\n');
        assert(x[0] == '\n');
        assert(first_of(x, k) == 0);
        assert(!lacks(x, '\n'));
        assert(s.take(first.len() as int) =~= first);
        assert(s.skip(first.len() as int + 1) =~= text_of_lines(rest));
        assert(seq![first] + rest.push(none) =~= lines.push(none));
    }
}

proof fn lemma_pieces_lack(s: Seq<char>, c: char, i: int)
    requires
        0 <= i < pieces(s, Class::One(c)).len(),
    ensures
        lacks(pieces(s, Class::One(c))[i], c),
    decreases s.len(),
{
    let k = Class::One(c);
    lemma_first_of(s, k);
    let n = first_of(s, k);
    if n >= s.len() {
        assert forall|j: int| 0 <= j < s.len() implies #[trigger] s[j] != c by {
            assert(!k.has(s[j]));
        }
    } else if i == 0 {
        let head = s.take(n);
        assert forall|j: int| 0 <= j < head.len() implies #[trigger] head[j] != c by {
            assert(!k.has(s[j]));
        }
    } else {
        lemma_pieces_lack(s.skip(n + 1), c, i - 1);
    }
}

proof fn lemma_lines_lack(s: Seq<char>, i: int)
    requires
        0 <= i < lines_of(s).len(),
    ensures
        lacks(lines_of(s)[i], '\n'),
{
    let parts = pieces(s, Class::One('\n'));
    lemma_pieces_lack(s, '\n', i);
    assert(lacks(parts[i], '\n'));
    let line = lines_of(s)[i];
    assert forall|j: int| 0 <= j < line.len() implies #[trigger] line[j] != '\n' by {
        assert(line[j] == parts[i][j]);
    }
}

proof fn lemma_version_set_lacks(
    lines: Seq<Seq<char>>,
    inside: bool,
    v: Seq<char>,
    i: int,
)
    requires
        writable_version(v),
        forall|j: int| 0 <= j < lines.len() ==> lacks(#[trigger] lines[j], '\n'),
        with_version(lines, inside, v) is Some,
        0 <= i < with_version(lines, inside, v).unwrap().len(),
    ensures
        lacks(with_version(lines, inside, v).unwrap()[i], '\n'),
    decreases lines.len(),
{
    let changed = with_version(lines, inside, v).unwrap();
    let line = stripped(lines[0]);
    let rest = lines.drop_first();
    assert forall|j: int| 0 <= j < rest.len() implies lacks(#[trigger] rest[j], '\n') by {
        assert(rest[j] == lines[j + 1]);
    }
    let now = inside && !begins_with(line, "["@);
    if begins_with(line, "[package]"@) {
        if i > 0 {
            lemma_version_set_lacks(rest, true, v, i - 1);
        }
    } else if now && key_of(lines[0]) == "version"@ {
        if i == 0 {
            lemma_version_line_lacks(lines[0], v);
        } else {
            assert(changed[i] == rest[i - 1]);
        }
    } else if i > 0 {
        lemma_version_set_lacks(rest, now, v, i - 1);
    }
}

proof fn lemma_version_line_lacks(line: Seq<char>, v: Seq<char>)
    requires
        writable_version(v),
        lacks(line, '\n'),
    ensures
        lacks(version_line(line, v), '\n'),
{
    reveal_strlit("version = \"");
    reveal_strlit("\"");
    reveal_strlit(" #");
    let k = Class::WhiteSpace;
    let code = before(line, '#');
    lemma_first_of(line, Class::One('#'));
    lemma_trim_start(code, k);
    let indent = code.take(code.len() - trim_start(code, k).len());
    let n = version_line(line, v);
    let tail = match after(line, '#') {
        Some(comment) => " #"@ + trim_start(comment, k),
        None => Seq::empty(),
    };
    assert(lacks(tail, '\n')) by {
        if let Some(comment) = after(line, '#') {
            lemma_trim_start(comment, k);
            let c = trim_start(comment, k);
            let at = first_of(line, Class::One('#')) + 1 + comment.len() - c.len();
            assert forall|i: int| 0 <= i < tail.len() implies #[trigger] tail[i] != '\n' by {
                if i >= 2 {
                    assert(tail[i] == c[i - 2]);
                    assert(c[i - 2] == comment.skip(comment.len() - c.len())[i - 2]);
                    assert(c[i - 2] == line[at + i - 2]);
                }
            }
        }
    }
    assert forall|i: int| 0 <= i < n.len() implies #[trigger] n[i] != '\n' by {
        if i < indent.len() {
            assert(n[i] == line[i]);
        } else if i < indent.len() + 11 {
            assert(n[i] == "version = \""@[i - indent.len()]);
        } else if i < indent.len() + 11 + v.len() {
            assert(n[i] == v[i - indent.len() - 11]);
            assert(v.contains(v[i - indent.len() - 11]));
        } else if i == indent.len() + 11 + v.len() {
            assert(n[i] == '"');
        } else {
            assert(n[i] == tail[i - indent.len() - 12 - v.len()]);
        }
    }
}

/// Whether a carriage return ends a line does not matter for the version.
proof fn lemma_returns(lines: Seq<Seq<char>>, inside: bool)
    ensures
        find_version(lines.map_values(|l: Seq<char>| without_return(l)), inside) == find_version(
            lines,
            inside,
        ),
    decreases lines.len(),
{
    let plain = lines.map_values(|l: Seq<char>| without_return(l));
    if lines.len() > 0 {
        let l = lines[0];
        assert(plain[0] == without_return(l));
        assert(stripped(plain[0]) == stripped(l)) by {
            if l.len() > 0 && l.last() == '\r' {
                let post = seq!['\r'];
                assert(all_of(post, Class::WhiteSpace));
                assert(all_of(Seq::<char>::empty(), Class::WhiteSpace));
                lemma_stripped_padded(Seq::empty(), l.drop_last(), post);
                assert(Seq::<char>::empty() + l.drop_last() + post =~= l);
            }
        }
        let rest = lines.drop_first();
        assert(plain.drop_first() =~= rest.map_values(|l: Seq<char>| without_return(l)));
        lemma_returns(rest, true);
        lemma_returns(rest, inside);
    }
}

/// A manifest that gives a version gives, once it was updated, the version that was written,
/// whatever can be written as one.
pub proof fn written_version_is_read_back(contents: Seq<char>, version: Seq<char>)
    requires
        find_version(lines_of(contents), false) is Some,
        writable_version(version),
    ensures
        with_version(lines_of(contents), false, version) matches Some(changed) && find_version(
            lines_of(text_of_lines(changed)),
            false,
        ) == Some(version),
{
    let all = lines_of(contents);
    lemma_version_set(all, false, version);
    let changed = with_version(all, false, version).unwrap();
    assert forall|i: int| 0 <= i < all.len() implies lacks(#[trigger] all[i], '\n') by {
        lemma_lines_lack(contents, i);
    }
    assert forall|i: int| 0 <= i < changed.len() implies lacks(#[trigger] changed[i], '\n') by {
        lemma_version_set_lacks(all, false, version, i);
    }
    lemma_pieces_of_lines(changed);
    let parts = pieces(text_of_lines(changed), Class::One('\n'));
    assert(parts.drop_last() =~= changed);
    assert(parts.last() =~= Seq::<char>::empty());
    lemma_returns(changed, false);
}

/// The text of a version is made of digits and dots, and can be written.
pub proof fn version_texts_are_plain(v: (int, int, int))
    requires
        in_range(v),
    ensures
        forall|i: int|
            0 <= i < version_text(v).len() ==> is_digit(#[trigger] version_text(v)[i])
                || version_text(v)[i] == '.',
        writable_version(version_text(v)),
{
    reveal_strlit(".");
    lemma_decimal(v.0 as nat);
    lemma_decimal(v.1 as nat);
    lemma_decimal(v.2 as nat);
    let a = decimal(v.0 as nat);
    let b = decimal(v.1 as nat);
    let c = decimal(v.2 as nat);
    let s = version_text(v);
    assert forall|i: int| 0 <= i < s.len() implies is_digit(#[trigger] s[i]) || s[i] == '.' by {
        if i < a.len() {
            assert(s[i] == a[i]);
        } else if i == a.len() {
            assert(s[i] == '.');
        } else if i < a.len() + 1 + b.len() {
            assert(s[i] == b[i - a.len() - 1]);
        } else if i == a.len() + 1 + b.len() {
            assert(s[i] == '.');
        } else {
            assert(s[i] == c[i - a.len() - b.len() - 2]);
        }
    }
}

/// Raising a number adds one to it, keeps the numbers before it, and sets those behind it to zero.
pub proof fn raising_sets_back_what_follows(a: int, b: int, c: int)
    ensures
        raised((a, b, c), BumpKind::Major) == (a + 1, 0int, 0int),
        raised((a, b, c), BumpKind::Minor) == (a, b + 1, 0int),
        raised((a, b, c), BumpKind::Patch) == (a, b, c + 1),
{
}

/// The kinds are asked for by their names, one at a time; without one the user is asked.
pub proof fn kinds_are_asked_for_by_name(args: Seq<Seq<char>>)
    ensures
        requested(seq!["major"@]) == BumpRequest::Bump(BumpKind::Major),
        requested(seq!["minor"@]) == BumpRequest::Bump(BumpKind::Minor),
        requested(seq!["patch"@]) == BumpRequest::Bump(BumpKind::Patch),
        requested(seq!["--help"@]) == BumpRequest::Help,
        requested(seq!["-h"@]) == BumpRequest::Help,
        args.len() == 0 ==> requested(args) == BumpRequest::Ask,
        args.len() > 1 ==> requested(args) == BumpRequest::Wrong,
{
    reveal_strlit("major");
    reveal_strlit("minor");
    reveal_strlit("patch");
    reveal_strlit("--help");
    reveal_strlit("-h");
    assert("major"@.len() == 5 && "minor"@.len() == 5 && "patch"@.len() == 5);
    assert("major"@[1] == 'a');
    assert("minor"@[1] == 'i');
    assert("patch"@[0] == 'p');
    assert("--help"@.len() == 6);
    assert("-h"@.len() == 2);
}

/// Writing another version changes a single line, the one that gave the version; all others stay
/// as they are.
pub proof fn only_the_version_line_changes(
    lines: Seq<Seq<char>>,
    inside: bool,
    version: Seq<char>,
) -> (i: int)
    requires
        with_version(lines, inside, version) is Some,
    ensures
        0 <= i < lines.len(),
        key_of(lines[i]) == "version"@,
        with_version(lines, inside, version) == Some(
            lines.update(i, version_line(lines[i], version)),
        ),
    decreases lines.len(),
{
    let line = stripped(lines[0]);
    let rest = lines.drop_first();
    let opens = begins_with(line, "[package]"@);
    let now = inside && !begins_with(line, "["@);
    if !opens && now && key_of(lines[0]) == "version"@ {
        assert(seq![version_line(lines[0], version)] + rest =~= lines.update(
            0,
            version_line(lines[0], version),
        ));
        0
    } else {
        let j = only_the_version_line_changes(
            rest,
            if opens {
                true
            } else {
                now
            },
            version,
        );
        assert(rest[j] == lines[j + 1]);
        assert(seq![lines[0]] + rest.update(j, version_line(rest[j], version)) =~= lines.update(
            j + 1,
            version_line(lines[j + 1], version),
        ));
        j + 1
    }
}

/// The version is the value of a line `version` behind the line `[package]`, and no other section
/// begins between the two.
pub proof fn version_is_that_of_the_package(lines: Seq<Seq<char>>, inside: bool) -> (r: (int, int))
    requires
        find_version(lines, inside) is Some,
    ensures
        -1 <= r.0 < r.1 < lines.len(),
        r.0 == -1 ==> inside,
        r.0 >= 0 ==> begins_with(stripped(lines[r.0]), "[package]"@),
        forall|i: int| r.0 < i < r.1 ==> !begins_with(stripped(#[trigger] lines[i]), "["@),
        key_of(stripped(lines[r.1])) == "version"@,
        find_version(lines, inside) == Some(value_of(stripped(lines[r.1]))),
    decreases lines.len(),
{
    let line = stripped(lines[0]);
    let rest = lines.drop_first();
    if begins_with(line, "[package]"@) {
        let (i, j) = version_is_that_of_the_package(rest, true);
        assert(rest[j] == lines[j + 1]);
        if i >= 0 {
            assert(rest[i] == lines[i + 1]);
        }
        assert forall|n: int| i + 1 < n < j + 1 implies !begins_with(
            stripped(#[trigger] lines[n]),
            "["@,
        ) by {
            assert(rest[n - 1] == lines[n]);
        }
        (i + 1, j + 1)
    } else if inside && key_of(line) == "version"@ {
        (-1, 0)
    } else {
        let (i, j) = version_is_that_of_the_package(rest, inside);
        assert(rest[j] == lines[j + 1]);
        if i >= 0 {
            assert(rest[i] == lines[i + 1]);
        }
        assert forall|n: int|
            (if i >= 0 {
                i + 1
            } else {
                -1
            }) < n < j + 1 implies !begins_with(stripped(#[trigger] lines[n]), "["@) by {
            if n > 0 {
                assert(rest[n - 1] == lines[n]);
            }
        }
        (
            if i >= 0 {
                i + 1
            } else {
                -1
            },
            j + 1,
        )
    }
}

} // verus!

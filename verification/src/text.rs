//! Text as sequences of characters: trimming, splitting, searching, joining.
//!
//! Every function is specified over the view of its string arguments, a `Seq<char>`.

use vstd::prelude::*;
use vstd::utf8::encode_utf8;

verus! {

/// `String::push` appends one character.
pub assume_specification[ String::push ](s: &mut String, ch: char)
    ensures
        final(s)@ == old(s)@.push(ch),
;

// ------------------------------------------------------------------------------------------
// Characters and strings
// ------------------------------------------------------------------------------------------

/// The views of a sequence of strings.
pub open spec fn texts(v: Seq<String>) -> Seq<Seq<char>> {
    v.map_values(|s: String| s@)
}

/// The view of an optional string.
pub open spec fn opt_text(o: Option<String>) -> Option<Seq<char>> {
    match o {
        Some(s) => Some(s@),
        None => None,
    }
}

/// The characters of `s`, in order.
pub fn letters(s: &str) -> (r: Vec<char>)
    ensures
        r@ == s@,
{
    let mut out: Vec<char> = Vec::new();
    for c in it: s.chars()
        invariant
            out@ == s@.take(it.index() as int),
            it.seq() == s@,
    {
        out.push(c);
    }
    out
}

/// The characters `from..to` of `v` as a string.
pub fn text_of(v: &Vec<char>, from: usize, to: usize) -> (r: String)
    requires
        from <= to <= v@.len(),
    ensures
        r@ == v@.subrange(from as int, to as int),
{
    let mut out = String::new();
    let mut i: usize = from;
    while i < to
        invariant
            from <= i <= to <= v@.len(),
            out@ == v@.subrange(from as int, i as int),
        decreases to - i,
    {
        out.push(v[i]);
        i += 1;
    }
    out
}

/// Whether `v` holds `pat` at position `at`.
pub open spec fn occurs_at(v: Seq<char>, pat: Seq<char>, at: int) -> bool {
    0 <= at && at + pat.len() <= v.len() && v.subrange(at, at + pat.len()) == pat
}

fn matches_at(v: &Vec<char>, pat: &Vec<char>, at: usize) -> (r: bool)
    requires
        at <= v@.len(),
    ensures
        r == occurs_at(v@, pat@, at as int),
{
    if v.len() - at < pat.len() {
        return false;
    }
    let mut i: usize = 0;
    while i < pat.len()
        invariant
            i <= pat@.len(),
            at + pat.len() <= v.len(),
            forall|j: int| 0 <= j < i ==> v@[at + j] == pat@[j],
        decreases pat@.len() - i,
    {
        if v[at + i] != pat[i] {
            assert(v@.subrange(at as int, at + pat@.len())[i as int] != pat@[i as int]);
            return false;
        }
        i += 1;
    }
    assert(v@.subrange(at as int, at + pat@.len()) =~= pat@);
    true
}

/// Whether two strings hold the same characters.
pub fn same(a: &str, b: &str) -> (r: bool)
    ensures
        r == (a@ == b@),
{
    let x = letters(a);
    let y = letters(b);
    if x.len() != y.len() {
        return false;
    }
    let r = matches_at(&x, &y, 0);
    assert(x@.subrange(0, x@.len() as int) =~= x@);
    r
}

/// Whether `s` begins with `prefix`.
pub open spec fn begins_with(s: Seq<char>, prefix: Seq<char>) -> bool {
    occurs_at(s, prefix, 0)
}

/// Whether `s` begins with `prefix`.
pub fn starts_with(s: &str, prefix: &str) -> (r: bool)
    ensures
        r == begins_with(s@, prefix@),
{
    matches_at(&letters(s), &letters(prefix), 0)
}

/// Whether one of the strings in `list` is `wanted`.
pub fn list_contains(list: &Vec<String>, wanted: &str) -> (r: bool)
    ensures
        r == texts(list@).contains(wanted@),
{
    let mut i: usize = 0;
    while i < list.len()
        invariant
            i <= list@.len(),
            forall|j: int| 0 <= j < i ==> list@[j]@ != wanted@,
        decreases list@.len() - i,
    {
        if same(list[i].as_str(), wanted) {
            assert(texts(list@)[i as int] == wanted@);
            return true;
        }
        i += 1;
    }
    assert forall|j: int| 0 <= j < texts(list@).len() implies texts(list@)[j] != wanted@ by {}
    false
}

// ------------------------------------------------------------------------------------------
// Classes of characters
// ------------------------------------------------------------------------------------------

/// The characters with the Unicode property `White_Space`.
pub open spec fn white_space(c: char) -> bool {
    let n = c as u32;
    ||| 0x09 <= n <= 0x0d
    ||| n == 0x20
    ||| n == 0x85
    ||| n == 0xa0
    ||| n == 0x1680
    ||| 0x2000 <= n <= 0x200a
    ||| n == 0x2028
    ||| n == 0x2029
    ||| n == 0x202f
    ||| n == 0x205f
    ||| n == 0x3000
}

/// Whether `c` is white space.
pub fn is_white_space(c: char) -> (r: bool)
    ensures
        r == white_space(c),
{
    let n: u32 = c as u32;
    (0x09 <= n && n <= 0x0d) || n == 0x20 || n == 0x85 || n == 0xa0 || n == 0x1680 || (0x2000 <= n
        && n <= 0x200a) || n == 0x2028 || n == 0x2029 || n == 0x202f || n == 0x205f || n == 0x3000
}

/// The ASCII letters and digits.
pub open spec fn ascii_alphanumeric(c: char) -> bool {
    ('0' <= c && c <= '9') || ('a' <= c && c <= 'z') || ('A' <= c && c <= 'Z')
}

/// What `char::is_alphanumeric` answers for `c`.
pub uninterp spec fn unicode_alphanumeric(c: char) -> bool;

/// Letters and digits: among the ASCII characters, the usual ones; beyond them, those that
/// Unicode calls alphabetic or numeric, none of which is white space.
pub open spec fn alphanumeric(c: char) -> bool {
    if (c as u32) < 128 {
        ascii_alphanumeric(c)
    } else {
        unicode_alphanumeric(c) && !white_space(c)
    }
}

/// Calls `char::is_alphanumeric`. Its answer depends on `c` alone; on the ASCII characters it is
/// true of the letters and the digits and of no other; it is false of white space, since Unicode
/// counts no separator and no control character as alphabetic or numeric.
#[verifier::external_body]
pub(crate) fn is_alphanumeric(c: char) -> (r: bool)
    ensures
        r == unicode_alphanumeric(c),
        r == alphanumeric(c),
{
    c.is_alphanumeric()
}

/// The lower-case form of an ASCII character.
pub open spec fn ascii_lower(c: char) -> char {
    if 'A' <= c && c <= 'Z' {
        (c as u32 + 32) as char
    } else {
        c
    }
}

/// Whether every character of `s` is an ASCII character.
pub open spec fn all_ascii(s: Seq<char>) -> bool {
    forall|i: int| 0 <= i < s.len() ==> (#[trigger] s[i] as u32) < 128
}

/// What `str::to_lowercase` makes of `s`.
pub uninterp spec fn unicode_lowercase(s: Seq<char>) -> Seq<char>;

/// The lower-case form of a string: an ASCII string is mapped character by character.
pub open spec fn lowercase(s: Seq<char>) -> Seq<char> {
    if all_ascii(s) {
        s.map_values(|c: char| ascii_lower(c))
    } else {
        unicode_lowercase(s)
    }
}

/// Calls `str::to_lowercase`. Its result depends on `s` alone; a string of ASCII characters is
/// mapped character by character. A string without `/` stays without it: a character without a
/// lower-case form stays as it is, and no lower-case form that Unicode gives has a `/`. Which
/// characters the lower-case form of a string beyond ASCII has is otherwise left open.
#[verifier::external_body]
pub(crate) fn to_lowercase(s: &str) -> (r: String)
    ensures
        r@ == unicode_lowercase(s@),
        r@ == lowercase(s@),
        !s@.contains('/') ==> !r@.contains('/'),
{
    s.to_lowercase()
}

/// A class of characters to trim, to split at or to replace.
#[derive(Clone, Copy, PartialEq, Eq, Structural)]
pub enum Class {
    WhiteSpace,
    One(char),
    Two(char, char),
    Three(char, char, char),
}

impl Class {
    /// Whether `c` belongs to the class.
    pub open spec fn has(self, c: char) -> bool {
        match self {
            Class::WhiteSpace => white_space(c),
            Class::One(x) => c == x,
            Class::Two(x, y) => c == x || c == y,
            Class::Three(x, y, z) => c == x || c == y || c == z,
        }
    }

    /// Whether `c` belongs to the class.
    pub fn includes(self, c: char) -> (r: bool)
        ensures
            r == self.has(c),
    {
        match self {
            Class::WhiteSpace => is_white_space(c),
            Class::One(x) => c == x,
            Class::Two(x, y) => c == x || c == y,
            Class::Three(x, y, z) => c == x || c == y || c == z,
        }
    }
}

// ------------------------------------------------------------------------------------------
// Trimming
// ------------------------------------------------------------------------------------------

/// `s` without its leading characters of class `k`.
pub open spec fn trim_start(s: Seq<char>, k: Class) -> Seq<char>
    decreases s.len(),
{
    if s.len() > 0 && k.has(s[0]) {
        trim_start(s.drop_first(), k)
    } else {
        s
    }
}

/// `s` without its trailing characters of class `k`.
pub open spec fn trim_end(s: Seq<char>, k: Class) -> Seq<char>
    decreases s.len(),
{
    if s.len() > 0 && k.has(s.last()) {
        trim_end(s.drop_last(), k)
    } else {
        s
    }
}

/// `s` without leading or trailing characters of class `k`.
pub open spec fn trimmed(s: Seq<char>, k: Class) -> Seq<char> {
    trim_end(trim_start(s, k), k)
}

/// `s` without leading or trailing white space.
pub open spec fn stripped(s: Seq<char>) -> Seq<char> {
    trimmed(s, Class::WhiteSpace)
}

/// `s` without its leading characters of class `k`.
pub fn trim_start_of(s: &str, k: Class) -> (r: String)
    ensures
        r@ == trim_start(s@, k),
{
    let v = letters(s);
    let mut from: usize = 0;
    assert(v@.skip(0) =~= v@);
    while from < v.len() && k.includes(v[from])
        invariant
            from <= v@.len(),
            v@ == s@,
            trim_start(v@.skip(from as int), k) == trim_start(s@, k),
        decreases v@.len() - from,
    {
        assert(v@.skip(from as int).drop_first() =~= v@.skip(from + 1));
        from += 1;
    }
    assert(v@.subrange(from as int, v@.len() as int) =~= v@.skip(from as int));
    text_of(&v, from, v.len())
}

/// `s` without leading or trailing characters of class `k`.
pub fn trim_of(s: &str, k: Class) -> (r: String)
    ensures
        r@ == trimmed(s@, k),
{
    let v = letters(trim_start_of(s, k).as_str());
    let ghost head = trim_start(s@, k);
    let mut to: usize = v.len();
    assert(v@.take(to as int) =~= v@);
    while to > 0 && k.includes(v[to - 1])
        invariant
            to <= v@.len(),
            v@ == head,
            trim_end(v@.take(to as int), k) == trim_end(head, k),
        decreases to,
    {
        assert(v@.take(to as int).drop_last() =~= v@.take(to - 1));
        to -= 1;
    }
    assert(v@.subrange(0, to as int) =~= v@.take(to as int));
    text_of(&v, 0, to)
}

/// `s` without leading or trailing white space.
pub fn trim(s: &str) -> (r: String)
    ensures
        r@ == stripped(s@),
{
    trim_of(s, Class::WhiteSpace)
}

// ------------------------------------------------------------------------------------------
// Splitting
// ------------------------------------------------------------------------------------------

/// The position of the first character of class `k` in `s`, or the length of `s`.
pub open spec fn first_of(s: Seq<char>, k: Class) -> int
    decreases s.len(),
{
    if s.len() == 0 || k.has(s[0]) {
        0
    } else {
        1 + first_of(s.drop_first(), k)
    }
}

pub proof fn lemma_first_of(s: Seq<char>, k: Class)
    ensures
        0 <= first_of(s, k) <= s.len(),
        first_of(s, k) < s.len() ==> k.has(s[first_of(s, k)]),
        forall|i: int| 0 <= i < first_of(s, k) ==> !k.has(#[trigger] s[i]),
    decreases s.len(),
{
    if s.len() > 0 && !k.has(s[0]) {
        lemma_first_of(s.drop_first(), k);
        let n = first_of(s.drop_first(), k);
        assert forall|i: int| 0 <= i < first_of(s, k) implies !k.has(#[trigger] s[i]) by {
            if i > 0 {
                assert(s[i] == s.drop_first()[i - 1]);
            }
        }
    }
}

/// The parts of `s` between the characters of class `k`: one more than there are of these.
pub open spec fn pieces(s: Seq<char>, k: Class) -> Seq<Seq<char>>
    decreases s.len(),
    via pieces_decreases
{
    let n = first_of(s, k);
    if n >= s.len() {
        seq![s]
    } else {
        seq![s.take(n)] + pieces(s.skip(n + 1), k)
    }
}

#[via_fn]
proof fn pieces_decreases(s: Seq<char>, k: Class) {
    lemma_first_of(s, k);
}

fn first_from(v: &Vec<char>, from: usize, k: Class) -> (r: usize)
    requires
        from <= v@.len(),
    ensures
        from <= r <= v@.len(),
        r - from == first_of(v@.skip(from as int), k),
{
    let mut i: usize = from;
    while i < v.len() && !k.includes(v[i])
        invariant
            from <= i <= v@.len(),
            first_of(v@.skip(from as int), k) == i - from + first_of(v@.skip(i as int), k),
        decreases v@.len() - i,
    {
        assert(v@.skip(i as int).drop_first() =~= v@.skip(i + 1));
        i += 1;
    }
    i
}

/// The parts of `s` between the characters of class `k`.
pub fn split(s: &str, k: Class) -> (r: Vec<String>)
    ensures
        texts(r@) == pieces(s@, k),
{
    let v = letters(s);
    let mut out: Vec<String> = Vec::new();
    let mut from: usize = 0;
    assert(v@.skip(0) =~= v@);
    assert(texts(out@) + pieces(v@.skip(0), k) =~= pieces(v@, k));
    loop
        invariant
            from <= v@.len(),
            v@ == s@,
            texts(out@) + pieces(v@.skip(from as int), k) == pieces(s@, k),
        decreases v@.len() - from,
    {
        let end = first_from(&v, from, k);
        let ghost rest = v@.skip(from as int);
        let ghost before = out@;
        out.push(text_of(&v, from, end));
        assert(v@.subrange(from as int, end as int) =~= rest.take(end - from));
        assert(texts(out@) =~= texts(before).push(rest.take(end - from)));
        if end == v.len() {
            assert(rest.take(end - from) =~= rest);
            assert(texts(out@) =~= texts(before) + seq![rest]);
            return out;
        }
        assert(rest.skip(end - from + 1) =~= v@.skip(end + 1));
        assert(texts(before) + (seq![rest.take(end - from)] + pieces(v@.skip(end + 1), k))
            =~= texts(out@) + pieces(v@.skip(end + 1), k));
        from = end + 1;
    }
}

/// The words of `s`: its longest parts without white space.
pub open spec fn words(s: Seq<char>) -> Seq<Seq<char>> {
    pieces(s, Class::WhiteSpace).filter(|w: Seq<char>| w.len() > 0)
}

/// The words of `s`.
pub fn split_whitespace(s: &str) -> (r: Vec<String>)
    ensures
        texts(r@) == words(s@),
{
    let parts = split(s, Class::WhiteSpace);
    let mut out: Vec<String> = Vec::new();
    let ghost p = |w: Seq<char>| w.len() > 0;
    let mut i: usize = 0;
    while i < parts.len()
        invariant
            i <= parts@.len(),
            p == (|w: Seq<char>| w.len() > 0),
            texts(out@) == texts(parts@).take(i as int).filter(p),
        decreases parts@.len() - i,
    {
        let ghost all = texts(parts@);
        let ghost before = out@;
        proof {
            reveal(Seq::filter);
            assert(all.take(i + 1).drop_last() =~= all.take(i as int));
            assert(all.take(i + 1).last() == parts@[i as int]@);
        }
        if !parts[i].as_str().is_empty() {
            out.push(parts[i].clone());
            assert(texts(out@) =~= texts(before).push(parts@[i as int]@));
        }
        i += 1;
    }
    assert(texts(parts@).take(i as int) =~= texts(parts@));
    out
}

/// The parts of `list`, one after the other, with `sep` between two of them.
pub open spec fn joined(list: Seq<Seq<char>>, sep: Seq<char>) -> Seq<char>
    decreases list.len(),
{
    if list.len() == 0 {
        seq![]
    } else if list.len() == 1 {
        list[0]
    } else {
        joined(list.drop_last(), sep) + sep + list.last()
    }
}

/// Joins `list` with `sep` between two parts.
pub fn join(list: &Vec<String>, sep: &str) -> (r: String)
    ensures
        r@ == joined(texts(list@), sep@),
{
    let mut out = String::new();
    let mut i: usize = 0;
    assert(texts(list@).take(0) =~= Seq::<Seq<char>>::empty());
    while i < list.len()
        invariant
            i <= list@.len(),
            out@ == joined(texts(list@).take(i as int), sep@),
        decreases list@.len() - i,
    {
        let ghost all = texts(list@);
        assert(all.take(i + 1).drop_last() =~= all.take(i as int));
        assert(all.take(i + 1).last() == list@[i as int]@);
        if i > 0 {
            out.append(sep);
        }
        let ghost mid = out@;
        out.append(list[i].as_str());
        if i == 0 {
            assert(mid + list@[0]@ =~= list@[0]@);
        }
        i += 1;
    }
    assert(texts(list@).take(i as int) =~= texts(list@));
    out
}

/// The words of `s` with one space between two of them.
pub open spec fn spaced(s: Seq<char>) -> Seq<char> {
    joined(words(s), " "@)
}

/// Collapses each run of white space to one space and drops it at both ends.
pub fn normalize_whitespace(s: &str) -> (r: String)
    ensures
        r@ == spaced(s@),
{
    join(&split_whitespace(s), " ")
}

// ------------------------------------------------------------------------------------------
// Searching and replacing
// ------------------------------------------------------------------------------------------

/// The first position at or after `from` where `s` holds `pat`.
pub open spec fn find_from(s: Seq<char>, pat: Seq<char>, from: int) -> Option<int>
    decreases s.len() - from + 1,
{
    if from < 0 || from + pat.len() > s.len() {
        None
    } else if occurs_at(s, pat, from) {
        Some(from)
    } else {
        find_from(s, pat, from + 1)
    }
}

/// The first position where `s` holds `pat`.
pub open spec fn position(s: Seq<char>, pat: Seq<char>) -> Option<int> {
    find_from(s, pat, 0)
}

pub proof fn lemma_find_from(s: Seq<char>, pat: Seq<char>, from: int)
    requires
        0 <= from,
    ensures
        match find_from(s, pat, from) {
            Some(i) => from <= i && occurs_at(s, pat, i) && forall|j: int|
                from <= j < i ==> !occurs_at(s, pat, j),
            None => forall|j: int| from <= j ==> !occurs_at(s, pat, j),
        },
    decreases s.len() - from + 1,
{
    if from + pat.len() <= s.len() && !occurs_at(s, pat, from) {
        lemma_find_from(s, pat, from + 1);
    }
}

fn find_in(v: &Vec<char>, pat: &Vec<char>, from: usize) -> (r: Option<usize>)
    requires
        from <= v@.len(),
    ensures
        match r {
            Some(i) => find_from(v@, pat@, from as int) == Some(i as int) && i + pat.len()
                <= v.len() && from <= i,
            None => find_from(v@, pat@, from as int) is None,
        },
{
    let mut i: usize = from;
    loop
        invariant
            from <= i <= v@.len(),
            find_from(v@, pat@, from as int) == find_from(v@, pat@, i as int),
        decreases v@.len() - i,
    {
        if v.len() - i < pat.len() {
            return None;
        }
        if matches_at(v, pat, i) {
            return Some(i);
        }
        assert(pat@.len() == 0 ==> v@.subrange(i as int, i as int) =~= pat@);
        i += 1;
    }
}

/// Whether `s` holds `pat` somewhere.
pub open spec fn holds(s: Seq<char>, pat: Seq<char>) -> bool {
    position(s, pat) is Some
}

/// Whether `s` holds `pat` somewhere.
pub fn contains(s: &str, pat: &str) -> (r: bool)
    ensures
        r == holds(s@, pat@),
{
    find_in(&letters(s), &letters(pat), 0).is_some()
}

/// `s` from the first `pat` on.
pub open spec fn tail_from(s: Seq<char>, pat: Seq<char>) -> Option<Seq<char>> {
    match position(s, pat) {
        Some(i) => Some(s.skip(i)),
        None => None,
    }
}

/// `s` from the first `pat` on.
pub fn from_first(s: &str, pat: &str) -> (r: Option<String>)
    ensures
        opt_text(r) == tail_from(s@, pat@),
{
    let v = letters(s);
    match find_in(&v, &letters(pat), 0) {
        Some(i) => {
            assert(v@.subrange(i as int, v@.len() as int) =~= v@.skip(i as int));
            Some(text_of(&v, i, v.len()))
        },
        None => None,
    }
}

/// What stands before and after the first `pat` in `s`.
pub open spec fn cut(s: Seq<char>, pat: Seq<char>) -> Option<(Seq<char>, Seq<char>)> {
    match position(s, pat) {
        Some(i) => Some((s.take(i), s.skip(i + pat.len()))),
        None => None,
    }
}

/// What stands before and after the first `pat` in `s`.
pub fn split_once(s: &str, pat: &str) -> (r: Option<(String, String)>)
    ensures
        match r {
            Some(p) => cut(s@, pat@) == Some((p.0@, p.1@)),
            None => cut(s@, pat@) is None,
        },
{
    let v = letters(s);
    let w = letters(pat);
    match find_in(&v, &w, 0) {
        Some(i) => {
            assert(v@.subrange(0, i as int) =~= v@.take(i as int));
            assert(v@.subrange(i + w@.len(), v@.len() as int) =~= v@.skip(i + w@.len()));
            Some((text_of(&v, 0, i), text_of(&v, i + w.len(), v.len())))
        },
        None => None,
    }
}

/// `s` with each `pat`, taken from the left, replaced by `with`.
pub open spec fn replaced(s: Seq<char>, pat: Seq<char>, with: Seq<char>) -> Seq<char>
    decreases s.len(),
    when pat.len() > 0
    via replaced_decreases
{
    match position(s, pat) {
        Some(i) => s.take(i) + with + replaced(s.skip(i + pat.len()), pat, with),
        None => s,
    }
}

#[via_fn]
proof fn replaced_decreases(s: Seq<char>, pat: Seq<char>, with: Seq<char>) {
    lemma_find_from(s, pat, 0);
}

proof fn lemma_find_shift(s: Seq<char>, pat: Seq<char>, from: int, at: int)
    requires
        0 <= from <= s.len(),
        0 <= at,
    ensures
        find_from(s.skip(from), pat, at) == (match find_from(s, pat, from + at) {
            Some(i) => Some(i - from),
            None => None,
        }),
    decreases s.len() - from - at + 1,
{
    let t = s.skip(from);
    if from + at + pat.len() <= s.len() {
        assert(t.subrange(at, at + pat.len()) =~= s.subrange(from + at, from + at + pat.len()));
        if !occurs_at(s, pat, from + at) {
            lemma_find_shift(s, pat, from, at + 1);
        }
    }
}

/// `s` with each `pat`, taken from the left, replaced by `with`.
pub fn replace(s: &str, pat: &str, with: &str) -> (r: String)
    requires
        pat@.len() > 0,
    ensures
        r@ == replaced(s@, pat@, with@),
{
    let v = letters(s);
    let w = letters(pat);
    let mut out = String::new();
    let mut from: usize = 0;
    assert(v@.skip(0) =~= v@);
    assert(out@ + replaced(v@, pat@, with@) =~= replaced(v@, pat@, with@));
    loop
        invariant
            from <= v@.len(),
            v@ == s@,
            w@ == pat@,
            pat@.len() > 0,
            out@ + replaced(v@.skip(from as int), pat@, with@) == replaced(s@, pat@, with@),
        decreases v@.len() - from,
    {
        let ghost rest = v@.skip(from as int);
        let ghost before = out@;
        proof {
            lemma_find_shift(v@, pat@, from as int, 0);
        }
        match find_in(&v, &w, from) {
            Some(i) => {
                out.append(text_of(&v, from, i).as_str());
                out.append(with);
                assert(v@.subrange(from as int, i as int) =~= rest.take(i - from));
                assert(rest.skip(i - from + pat@.len()) =~= v@.skip(i + pat@.len()));
                assert(out@ + replaced(v@.skip(i + pat@.len()), pat@, with@) =~= before
                    + replaced(rest, pat@, with@));
                from = i + w.len();
            },
            None => {
                out.append(text_of(&v, from, v.len()).as_str());
                assert(v@.subrange(from as int, v@.len() as int) =~= rest);
                return out;
            },
        }
    }
}

/// `s` with each character of class `k` replaced by `with`.
pub open spec fn masked(s: Seq<char>, k: Class, with: char) -> Seq<char> {
    s.map_values(
        |c: char|
            if k.has(c) {
                with
            } else {
                c
            },
    )
}

/// `s` with each character of class `k` replaced by `with`.
pub fn replace_class(s: &str, k: Class, with: char) -> (r: String)
    ensures
        r@ == masked(s@, k, with),
{
    let v = letters(s);
    let mut out = String::new();
    let mut i: usize = 0;
    while i < v.len()
        invariant
            i <= v@.len(),
            out@ == masked(v@.take(i as int), k, with),
        decreases v@.len() - i,
    {
        let c = v[i];
        out.push(
            if k.includes(c) {
                with
            } else {
                c
            },
        );
        assert(masked(v@.take(i + 1), k, with) =~= out@);
        i += 1;
    }
    assert(v@.take(i as int) =~= v@);
    out
}

/// `n` times the character `c`.
pub fn repeated(c: char, n: usize) -> (r: String)
    ensures
        r@ == Seq::new(n as nat, |i: int| c),
{
    let mut out = String::new();
    let mut i: usize = 0;
    while i < n
        invariant
            i <= n,
            out@ == Seq::new(i as nat, |j: int| c),
        decreases n - i,
    {
        out.push(c);
        assert(out@ =~= Seq::new((i + 1) as nat, |j: int| c));
        i += 1;
    }
    out
}

/// The number of bytes of `s` in UTF-8.
pub open spec fn byte_count(s: Seq<char>) -> nat {
    encode_utf8(s).len()
}

/// The number of bytes of `s` in UTF-8.
pub fn byte_len(s: &str) -> (r: usize)
    ensures
        r == byte_count(s@),
{
    s.as_bytes().len()
}

/// The bytes of a text are those of its parts.
pub proof fn lemma_byte_count(a: Seq<char>, b: Seq<char>)
    ensures
        byte_count(a + b) == byte_count(a) + byte_count(b),
    decreases a.len(),
{
    if a.len() == 0 {
        assert(a + b =~= b);
    } else {
        assert((a + b).drop_first() =~= a.drop_first() + b);
        lemma_byte_count(a.drop_first(), b);
    }
}

// ------------------------------------------------------------------------------------------
// Laws
// ------------------------------------------------------------------------------------------

/// Trimming takes characters of the class away at both ends, all of them and no others: what is
/// left is the part from `a` to `b`, and does not begin or end with such a character.
pub proof fn trimming_takes_only_the_ends(s: Seq<char>, k: Class) -> (r: (int, int))
    ensures
        0 <= r.0 <= r.1 <= s.len(),
        trimmed(s, k) == s.subrange(r.0, r.1),
        forall|i: int| 0 <= i < r.0 ==> k.has(#[trigger] s[i]),
        forall|i: int| r.1 <= i < s.len() ==> k.has(#[trigger] s[i]),
        r.0 < r.1 ==> !k.has(s[r.0]) && !k.has(s[r.1 - 1]),
    decreases s.len(),
{
    if s.len() > 0 && k.has(s[0]) {
        let rest = s.drop_first();
        let (a, b) = trimming_takes_only_the_ends(rest, k);
        assert(rest.subrange(a, b) =~= s.subrange(a + 1, b + 1));
        assert forall|i: int| 0 <= i < a + 1 implies k.has(#[trigger] s[i]) by {
            if i > 0 {
                assert(rest[i - 1] == s[i]);
            }
        }
        assert forall|i: int| b + 1 <= i < s.len() implies k.has(#[trigger] s[i]) by {
            assert(rest[i - 1] == s[i]);
        }
        if a < b {
            assert(rest[a] == s[a + 1]);
            assert(rest[b - 1] == s[b]);
        }
        (a + 1, b + 1)
    } else {
        let b = lemma_end(s, k);
        if b == 0 && s.len() > 0 {
            assert(k.has(s[0]));
        }
        assert(s.take(b) =~= s.subrange(0, b));
        (0, b)
    }
}

proof fn lemma_end(s: Seq<char>, k: Class) -> (b: int)
    ensures
        0 <= b <= s.len(),
        trim_end(s, k) == s.take(b),
        forall|i: int| b <= i < s.len() ==> k.has(#[trigger] s[i]),
        0 < b ==> !k.has(s[b - 1]),
    decreases s.len(),
{
    if s.len() > 0 && k.has(s.last()) {
        let rest = s.drop_last();
        let b = lemma_end(rest, k);
        assert(rest.take(b) =~= s.take(b));
        assert forall|i: int| b <= i < s.len() implies k.has(#[trigger] s[i]) by {
            if i < s.len() - 1 {
                assert(rest[i] == s[i]);
            }
        }
        b
    } else {
        assert(s.take(s.len() as int) =~= s);
        s.len() as int
    }
}

/// A text is cut at the first place where the pattern stands: what comes before it, the pattern
/// and what comes after it are the whole text.
pub proof fn text_is_cut_at_the_first_place(s: Seq<char>, pat: Seq<char>)
    ensures
        match cut(s, pat) {
            Some((a, b)) => s == a + pat + b && forall|j: int|
                0 <= j < a.len() ==> !(#[trigger] occurs_at(s, pat, j)),
            None => forall|j: int| 0 <= j ==> !(#[trigger] occurs_at(s, pat, j)),
        },
{
    lemma_find_from(s, pat, 0);
    if let Some(i) = position(s, pat) {
        assert(s.subrange(i, i + pat.len()) == pat);
        assert(s =~= s.take(i) + s.subrange(i, i + pat.len()) + s.skip(i + pat.len()));
    }
}

proof fn lemma_joined_front(x: Seq<char>, rest: Seq<Seq<char>>, sep: Seq<char>)
    requires
        rest.len() > 0,
    ensures
        joined(seq![x] + rest, sep) == x + sep + joined(rest, sep),
    decreases rest.len(),
{
    let all = seq![x] + rest;
    assert(all.last() == rest.last());
    if rest.len() == 1 {
        assert(all.drop_last() =~= seq![x]);
        reveal_with_fuel(joined, 2);
    } else {
        assert(all.drop_last() =~= seq![x] + rest.drop_last());
        lemma_joined_front(x, rest.drop_last(), sep);
        assert(joined(all, sep) =~= x + sep + joined(rest, sep));
    }
}

/// The pieces of a text, joined by what it was split at, are the text; and no piece holds it.
pub proof fn pieces_are_the_text(s: Seq<char>, c: char)
    ensures
        joined(pieces(s, Class::One(c)), seq![c]) == s,
        pieces(s, Class::One(c)).len() > 0,
        forall|i: int, j: int|
            #![trigger pieces(s, Class::One(c))[i][j]]
            0 <= i < pieces(s, Class::One(c)).len() && 0 <= j < pieces(s, Class::One(c))[i].len()
                ==> pieces(s, Class::One(c))[i][j] != c,
    decreases s.len(),
{
    let k = Class::One(c);
    let n = first_of(s, k);
    lemma_first_of(s, k);
    lemma_none_before(s, k);
    if n >= s.len() {
        reveal_with_fuel(joined, 2);
    } else {
        let rest = s.skip(n + 1);
        pieces_are_the_text(rest, c);
        lemma_joined_front(s.take(n), pieces(rest, k), seq![c]);
        lemma_at_first(s, k);
        assert(s =~= s.take(n) + seq![c] + rest);
        assert forall|i: int, j: int|
            #![trigger pieces(s, k)[i][j]]
            0 <= i < pieces(s, k).len() && 0 <= j < pieces(s, k)[i].len() implies pieces(
            s,
            k,
        )[i][j] != c by {
            if i == 0 {
                assert(s.take(n)[j] == s[j]);
            } else {
                assert(pieces(s, k)[i] == pieces(rest, k)[i - 1]);
                assert(pieces(rest, k)[i - 1][j] != c);
            }
        }
    }
}

proof fn lemma_none_before(s: Seq<char>, k: Class)
    ensures
        forall|i: int| 0 <= i < first_of(s, k) && i < s.len() ==> !k.has(#[trigger] s[i]),
    decreases s.len(),
{
    if s.len() > 0 && !k.has(s[0]) {
        let rest = s.drop_first();
        lemma_none_before(rest, k);
        assert forall|i: int| 0 <= i < first_of(s, k) && i < s.len() implies !k.has(
            #[trigger] s[i],
        ) by {
            if i > 0 {
                assert(rest[i - 1] == s[i]);
            }
        }
    }
}

proof fn lemma_at_first(s: Seq<char>, k: Class)
    ensures
        first_of(s, k) < s.len() ==> k.has(s[first_of(s, k)]),
    decreases s.len(),
{
    if s.len() > 0 && !k.has(s[0]) {
        let rest = s.drop_first();
        lemma_at_first(rest, k);
        lemma_first_of(rest, k);
        if first_of(s, k) < s.len() {
            assert(rest[first_of(rest, k)] == s[first_of(s, k)]);
        }
    }
}

/// Masking changes the characters of the class and no others, each in its place.
pub proof fn masking_changes_only_the_class(s: Seq<char>, k: Class, with: char)
    ensures
        masked(s, k, with).len() == s.len(),
        forall|i: int|
            0 <= i < s.len() ==> #[trigger] masked(s, k, with)[i] == (if k.has(s[i]) {
                with
            } else {
                s[i]
            }),
{
}

/// What does not hold the pattern is not changed by replacing it; what holds it once, between
/// `a` and `b`, is changed there alone.
pub proof fn replacing_changes_only_the_pattern(
    a: Seq<char>,
    pat: Seq<char>,
    b: Seq<char>,
    with: Seq<char>,
)
    requires
        pat.len() > 0,
        !holds(b, pat),
        position(a + pat + b, pat) == Some(a.len() as int),
    ensures
        replaced(b, pat, with) == b,
        replaced(a + pat + b, pat, with) == a + with + b,
{
    let s = a + pat + b;
    assert(s.take(a.len() as int) =~= a);
    assert(s.skip(a.len() as int + pat.len()) =~= b);
}

} // verus!

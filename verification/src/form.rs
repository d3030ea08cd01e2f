//! Query strings.

use url::form_urlencoded::Serializer;
use vstd::prelude::*;
use vstd::utf8::{encode_utf8, is_ascii_chars, is_ascii_chars_encode_utf8};

verus! {

/// An upper-case hexadecimal digit.
pub open spec fn upper_hex(d: int) -> char {
    if d < 10 {
        ('0' as int + d) as char
    } else {
        ('A' as int + d - 10) as char
    }
}

/// Whether a byte stands for itself in a query string: letters, digits, `*`, `-`, `.` and `_`.
pub open spec fn form_plain(b: u8) -> bool {
    ||| 0x30 <= b <= 0x39
    ||| 0x41 <= b <= 0x5a
    ||| 0x61 <= b <= 0x7a
    ||| b == 0x2a || b == 0x2d || b == 0x2e || b == 0x5f
}

/// A byte in a query string: itself, `+` for a space, or its hexadecimal digits behind `%`.
pub open spec fn form_byte(b: u8) -> Seq<char> {
    if form_plain(b) {
        seq![b as char]
    } else if b == 0x20 {
        seq!['+']
    } else {
        seq!['%', upper_hex(b as int / 16), upper_hex(b as int % 16)]
    }
}

/// Bytes in a query string.
pub open spec fn form_bytes(bytes: Seq<u8>) -> Seq<char>
    decreases bytes.len(),
{
    if bytes.len() == 0 {
        seq![]
    } else {
        form_byte(bytes[0]) + form_bytes(bytes.drop_first())
    }
}

/// A text in a query string.
pub open spec fn form_encoded(s: Seq<char>) -> Seq<char> {
    form_bytes(encode_utf8(s))
}

/// A query string with one more name and value.
pub open spec fn with_pair(query: Seq<char>, name: Seq<char>, value: Seq<char>) -> Seq<char> {
    (if query.len() == 0 {
        query
    } else {
        query.push('&')
    }) + form_encoded(name) + seq!['='] + form_encoded(value)
}

/// `url::form_urlencoded::Serializer::append_pair`: appends a name and a value, encoded byte by
/// byte, with `&` before them where the query is not empty.
#[verifier::external_body]
pub(crate) fn append_pair(query: String, name: &str, value: &str) -> (r: String)
    ensures
        r@ == with_pair(query@, name@, value@),
{
    Serializer::new(query).append_pair(name, value).finish()
}

/// Whether a text stands for itself in a query string.
pub open spec fn form_plain_text(s: Seq<char>) -> bool {
    forall|i: int| 0 <= i < s.len() ==> (#[trigger] s[i]) as int <= 0x7f && form_plain(s[i] as u8)
}

/// A text of plain characters is not changed in a query string.
pub proof fn plain_text_is_not_changed(s: Seq<char>)
    requires
        form_plain_text(s),
    ensures
        form_encoded(s) == s,
{
    assert(is_ascii_chars(s)) by {
        assert forall|i: int| 0 <= i < s.len() implies '\0' <= #[trigger] s[i] <= '\u{7f}' by {
            lemma_char_range(s[i]);
            assert(s[i] as int <= 0x7f);
        }
    }
    is_ascii_chars_encode_utf8(s);
    let b = encode_utf8(s);
    assert forall|i: int| 0 <= i < b.len() implies form_plain(#[trigger] b[i]) && b[i] as char
        == s[i] by {
        assert(s[i] as u8 == b[i]);
        assert(form_plain(s[i] as u8));
        let c = s[i];
        assert((c as u8) as char == c);
    }
    lemma_plain_bytes(b, s);
}

proof fn lemma_char_range(c: char)
    ensures
        0 <= c as int,
{
}

proof fn lemma_plain_bytes(b: Seq<u8>, s: Seq<char>)
    requires
        b.len() == s.len(),
        forall|i: int|
            0 <= i < b.len() ==> form_plain(#[trigger] b[i]) && b[i] as char == s[i],
    ensures
        form_bytes(b) == s,
    decreases b.len(),
{
    if b.len() > 0 {
        assert forall|i: int| 0 <= i < b.drop_first().len() implies form_plain(
            #[trigger] b.drop_first()[i],
        ) && b.drop_first()[i] as char == s.drop_first()[i] by {
            assert(form_plain(b[i + 1]));
        }
        lemma_plain_bytes(b.drop_first(), s.drop_first());
        assert(form_plain(b[0]));
        assert(seq![s[0]] + s.drop_first() =~= s);
    } else {
        assert(s =~= form_bytes(b));
    }
}

} // verus!

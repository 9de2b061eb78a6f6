//! Character sequences: classes of characters and the executable helpers
//! that the other modules share.

use vstd::prelude::*;

verus! {

/// Whether a character is in the Unicode class `\w`, as the `regex-syntax`
/// crate decides it.
pub uninterp spec fn unicode_word(c: char) -> bool;

/// An ASCII letter or digit.
pub open spec fn is_ascii_alnum(c: char) -> bool {
    ('0' <= c && c <= '9') || ('A' <= c && c <= 'Z') || ('a' <= c && c <= 'z')
}

/// A word character: below U+0080 a letter, a digit or `_`; from there on
/// whatever the class `\w` holds.
pub open spec fn is_word_char(c: char) -> bool {
    if (c as u32) < 0x80 {
        is_ascii_alnum(c) || c == '_'
    } else {
        unicode_word(c)
    }
}

/// The texts of `v` as sequences of characters, in order.
pub open spec fn views_of(v: Seq<String>) -> Seq<Seq<char>> {
    v.map_values(|s: String| s@)
}

/// Calls `regex_syntax::is_word_character`. The contract names the result and
/// claims that, among the characters below U+0080, the function accepts
/// exactly the letters, the digits and `_`. The function panics only when the
/// crate is built without its `unicode-perl` feature, which the default
/// features include.
#[verifier::external_body]
fn is_word_character(c: char) -> (r: bool)
    ensures
        r == unicode_word(c),
        (c as u32) < 0x80 ==> r == (is_ascii_alnum(c) || c == '_'),
{
    regex_syntax::is_word_character(c)
}

/// Whether `c` is a word character.
pub fn word_char(c: char) -> (r: bool)
    ensures
        r == is_word_char(c),
{
    is_word_character(c)
}

/// Whether `c` is an ASCII letter or digit.
pub fn ascii_alnum(c: char) -> (r: bool)
    ensures
        r == is_ascii_alnum(c),
{
    (c >= '0' && c <= '9') || (c >= 'A' && c <= 'Z') || (c >= 'a' && c <= 'z')
}

/// The characters of a string slice, in order.
pub fn chars_of(s: &str) -> (v: Vec<char>)
    ensures
        v@ == s@,
{
    let mut v: Vec<char> = Vec::new();
    for c in it: s.chars()
        invariant
            v@ == it.seq().take(it.index()),
            it.seq() == s@,
    {
        v.push(c);
    }
    v
}

} // verus!

//! The few operations on `String` that the library needs beyond what vstd
//! specifies, and the executable readers built on them.

use vstd::prelude::*;

verus! {

/// `String::push`: the character is appended at the end and nothing else
/// changes.
#[verifier::external_body]
pub(crate) fn push_char(s: &mut String, c: char)
    ensures
        final(s)@ == old(s)@.push(c),
{
    s.push(c)
}

/// `String::remove` at position 0: the first character leaves the string and
/// is returned. Position 0 is a character boundary of every string, and the
/// call panics only on an empty one, which `requires` leaves out.
#[verifier::external_body]
pub(crate) fn remove_first_char(s: &mut String) -> (c: char)
    requires
        old(s)@.len() > 0,
    ensures
        c == old(s)@[0],
        final(s)@ == old(s)@.drop_first(),
{
    s.remove(0)
}

/// The string that consists of the one character `c`.
pub fn char_to_string(c: char) -> (s: String)
    ensures
        s@ == seq![c],
{
    let mut s = String::new();
    push_char(&mut s, c);
    s
}

/// The first character of `s`, if it has one.
pub fn first_char(s: &str) -> (r: Option<char>)
    ensures
        r == (if s@.len() > 0 { Some(s@[0]) } else { None::<char> }),
{
    if s.is_empty() {
        None
    } else {
        Some(s.get_char(0))
    }
}

/// The last character of `s`, if it has one.
pub fn last_char(s: &str) -> (r: Option<char>)
    ensures
        r == (if s@.len() > 0 { Some(s@.last()) } else { None::<char> }),
{
    let n = s.unicode_len();
    if n == 0 {
        None
    } else {
        Some(s.get_char(n - 1))
    }
}

/// The text `s` with every ASCII hyphen replaced by an en dash.
pub open spec fn en_dashed(s: Seq<char>) -> Seq<char> {
    Seq::new(s.len(), |i: int| if s[i] == '-' {
        '\u{2013}'
    } else {
        s[i]
    })
}

/// `str::replace` with the hyphen as pattern and the en dash as replacement:
/// every hyphen, a pattern of one character, is replaced by the one character
/// of the replacement, and every other character is kept in its place.
#[verifier::external_body]
pub(crate) fn replace_hyphens(s: &str) -> (r: String)
    ensures
        r@ == en_dashed(s@),
{
    s.replace('-', "\u{2013}")
}

/// A copy of `s`, with its hyphens replaced by en dashes where `replace` is
/// set.
pub fn hyphens_replaced_if(s: &String, replace: bool) -> (r: String)
    ensures
        r@ == (if replace {
            en_dashed(s@)
        } else {
            s@
        }),
{
    if replace {
        replace_hyphens(s.as_str())
    } else {
        s.clone()
    }
}

} // verus!

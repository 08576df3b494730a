//! Character classification and string-building primitives.
//!
//! The Unicode character classes and case mappings that std provides
//! have no specification in vstd, so each is reached through a trusted
//! wrapper whose result is pinned to an uninterpreted name; everything
//! built on top of them is verified against those names.

use vstd::prelude::*;

verus! {

/// Whether std classifies the character as alphanumeric.
pub uninterp spec fn is_alnum(c: char) -> bool;

/// Whether std classifies the character as whitespace.
pub uninterp spec fn is_space(c: char) -> bool;

/// Whether std classifies the character as uppercase.
pub uninterp spec fn is_upper(c: char) -> bool;

/// Whether std classifies the character as lowercase.
pub uninterp spec fn is_lower(c: char) -> bool;

/// Whether std classifies the character as numeric.
pub uninterp spec fn is_num(c: char) -> bool;

/// The Unicode uppercase mapping of a character, one or more characters.
pub uninterp spec fn upper_of(c: char) -> Seq<char>;

/// The Unicode lowercase mapping of a string's characters.
pub uninterp spec fn lower_of(s: Seq<char>) -> Seq<char>;

/// Relies on char::is_alphanumeric: membership in the Unicode letter
/// and number categories, a property of the character alone.
#[verifier::external_body]
pub(crate) fn alnum_char(c: char) -> (r: bool)
    ensures
        r == is_alnum(c),
{
    c.is_alphanumeric()
}

/// Relies on char::is_whitespace: membership in the Unicode whitespace
/// class, a property of the character alone.
#[verifier::external_body]
pub(crate) fn space_char(c: char) -> (r: bool)
    ensures
        r == is_space(c),
{
    c.is_whitespace()
}

/// Relies on char::is_uppercase: membership in the Unicode uppercase
/// class, a property of the character alone.
#[verifier::external_body]
pub(crate) fn uppercase_char(c: char) -> (r: bool)
    ensures
        r == is_upper(c),
{
    c.is_uppercase()
}

/// Relies on char::is_lowercase: membership in the Unicode lowercase
/// class, a property of the character alone.
#[verifier::external_body]
pub(crate) fn lowercase_char(c: char) -> (r: bool)
    ensures
        r == is_lower(c),
{
    c.is_lowercase()
}

/// Relies on char::is_numeric: membership in the Unicode number
/// categories, a property of the character alone.
#[verifier::external_body]
pub(crate) fn numeric_char(c: char) -> (r: bool)
    ensures
        r == is_num(c),
{
    c.is_numeric()
}

/// Relies on char::to_uppercase: the Unicode uppercase mapping of the
/// character, a function of the character alone.
#[verifier::external_body]
pub(crate) fn upper_string(c: char) -> (r: String)
    ensures
        r@ == upper_of(c),
{
    c.to_uppercase().collect()
}

/// Relies on str::to_lowercase: the Unicode lowercase mapping of the
/// string, a function of its characters alone.
#[verifier::external_body]
pub(crate) fn lowercase(s: &str) -> (r: String)
    ensures
        r@ == lower_of(s@),
{
    s.to_lowercase()
}

/// Relies on String::push: appends the given character to the end of
/// the string.
#[verifier::external_body]
pub(crate) fn push_char(s: &mut String, c: char)
    ensures
        final(s)@ == old(s)@.push(c),
{
    s.push(c);
}

/// Collects the characters of a string into a vector with the same view.
pub(crate) fn chars_of(s: &str) -> (v: Vec<char>)
    ensures
        v@ == s@,
{
    let mut v: Vec<char> = Vec::new();
    for c in it: s.chars()
        invariant
            it.seq() == s@,
            v@ =~= it.seq().take(it.index()),
    {
        v.push(c);
    }
    proof {
        assert(v@ =~= s@);
    }
    v
}

/// Compares two strings character by character.
pub(crate) fn str_eq(a: &str, b: &str) -> (r: bool)
    ensures
        r == (a@ == b@),
{
    let va = chars_of(a);
    let vb = chars_of(b);
    if va.len() != vb.len() {
        return false;
    }
    let mut i: usize = 0;
    while i < va.len()
        invariant
            va@ == a@,
            vb@ == b@,
            va.len() == vb.len(),
            i <= va.len(),
            forall|j: int| 0 <= j < i ==> va@[j] == vb@[j],
        decreases va.len() - i,
    {
        if va[i] != vb[i] {
            return false;
        }
        i = i + 1;
    }
    proof {
        assert(a@ =~= b@);
    }
    true
}

} // verus!

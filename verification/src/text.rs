//! Text primitives: character classification and string building.
//!
//! The scanner walks the source as a `Vec<char>` and builds token text back
//! into `String`s. Unicode character classes and string assembly come from
//! std behind trusted wrappers; everything else here is verified.

use vstd::prelude::*;
use vstd::string::StrSliceExecFns;

verus! {

/// Whether this character is a Unicode letter.
pub uninterp spec fn alpha_char(c: char) -> bool;

/// Whether this character is a Unicode numeric character.
pub uninterp spec fn numeric_char(c: char) -> bool;

/// Whether this character is Unicode whitespace.
pub uninterp spec fn space_char(c: char) -> bool;

/// Relies on `char::is_alphabetic`: the Unicode letter classification,
/// a function of the character alone.
#[verifier::external_body]
pub fn char_is_alpha(c: char) -> (r: bool)
    ensures
        r == alpha_char(c),
{
    c.is_alphabetic()
}

/// Relies on `char::is_numeric`: the Unicode numeric classification,
/// a function of the character alone.
#[verifier::external_body]
pub fn char_is_numeric(c: char) -> (r: bool)
    ensures
        r == numeric_char(c),
{
    c.is_numeric()
}

/// Relies on `char::is_whitespace`: the Unicode whitespace classification,
/// a function of the character alone.
#[verifier::external_body]
pub fn char_is_space(c: char) -> (r: bool)
    ensures
        r == space_char(c),
{
    c.is_whitespace()
}

/// Whether this character is an ASCII decimal digit.
pub open spec fn digit_char(c: char) -> bool {
    '0' <= c && c <= '9'
}

/// Executable form of `digit_char`.
pub fn is_digit_char(c: char) -> (r: bool)
    ensures
        r == digit_char(c),
{
    '0' <= c && c <= '9'
}

/// Relies on String's `FromIterator<char>`: collects exactly the characters
/// of the vector, in order.
#[verifier::external_body]
pub fn chars_to_string(v: &Vec<char>) -> (r: String)
    ensures
        r@ == v@,
{
    v.iter().collect()
}

/// Relies on the `format!` macro: concatenates the two texts.
#[verifier::external_body]
pub fn str_concat(a: &str, b: &str) -> (r: String)
    ensures
        r@ == a@ + b@,
{
    format!("{}{}", a, b)
}

/// The characters of the given text, in order.
pub fn str_to_chars(s: &str) -> (r: Vec<char>)
    ensures
        r@ == s@,
{
    let n = s.unicode_len();
    let mut v: Vec<char> = Vec::new();
    let mut i: usize = 0;
    while i < n
        invariant
            i <= n,
            n == s@.len(),
            v@ == s@.subrange(0, i as int),
        decreases n - i,
    {
        let c = s.get_char(i);
        v.push(c);
        proof {
            assert(s@.subrange(0, i + 1 as int) =~= s@.subrange(0, i as int).push(s@[i as int]));
        }
        i = i + 1;
    }
    proof {
        assert(v@ =~= s@);
    }
    v
}

} // verus!

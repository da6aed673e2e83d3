//! Character and string helpers: ASCII case mapping, conversions between
//! `String` and `Vec<char>`, and the Unicode case transforms.
use vstd::prelude::*;

verus! {

/// The ASCII uppercase form of a character: `a-z` map to `A-Z`, everything
/// else is unchanged.
pub open spec fn ascii_upper(c: char) -> char {
    if 97 <= c as int <= 122 {
        (c as int - 32) as char
    } else {
        c
    }
}

/// The ASCII lowercase form of a character: `A-Z` map to `a-z`, everything
/// else is unchanged.
pub open spec fn ascii_lower(c: char) -> char {
    if 65 <= c as int <= 90 {
        (c as int + 32) as char
    } else {
        c
    }
}

/// Map a character to its ASCII uppercase form.
pub fn to_ascii_upper(c: char) -> (r: char)
    ensures
        r == ascii_upper(c),
{
    if 'a' <= c && c <= 'z' {
        match c {
            'a' => 'A', 'b' => 'B', 'c' => 'C', 'd' => 'D', 'e' => 'E',
            'f' => 'F', 'g' => 'G', 'h' => 'H', 'i' => 'I', 'j' => 'J',
            'k' => 'K', 'l' => 'L', 'm' => 'M', 'n' => 'N', 'o' => 'O',
            'p' => 'P', 'q' => 'Q', 'r' => 'R', 's' => 'S', 't' => 'T',
            'u' => 'U', 'v' => 'V', 'w' => 'W', 'x' => 'X', 'y' => 'Y',
            _ => 'Z',
        }
    } else {
        c
    }
}

/// Map a character to its ASCII lowercase form.
pub fn to_ascii_lower(c: char) -> (r: char)
    ensures
        r == ascii_lower(c),
{
    if 'A' <= c && c <= 'Z' {
        match c {
            'A' => 'a', 'B' => 'b', 'C' => 'c', 'D' => 'd', 'E' => 'e',
            'F' => 'f', 'G' => 'g', 'H' => 'h', 'I' => 'i', 'J' => 'j',
            'K' => 'k', 'L' => 'l', 'M' => 'm', 'N' => 'n', 'O' => 'o',
            'P' => 'p', 'Q' => 'q', 'R' => 'r', 'S' => 's', 'T' => 't',
            'U' => 'u', 'V' => 'v', 'W' => 'w', 'X' => 'x', 'Y' => 'y',
            _ => 'z',
        }
    } else {
        c
    }
}

/// The characters of a string, in order.
///
/// Relies on std's `str::chars` and `Iterator::collect`: collecting the
/// character iterator of a string yields exactly its characters.
#[verifier::external_body]
pub fn str_to_chars(s: &str) -> (r: Vec<char>)
    ensures
        r@ == s@,
{
    s.chars().collect()
}

/// A string holding exactly the given characters, in order.
///
/// Relies on std's `FromIterator for String`: collecting characters into a
/// `String` concatenates exactly those characters.
#[verifier::external_body]
pub fn chars_to_string(v: &Vec<char>) -> (r: String)
    ensures
        r@ == v@,
{
    v.iter().collect()
}

/// The Unicode uppercase form of a character sequence, as computed by std's
/// `str::to_uppercase`. The result depends on the characters alone.
pub uninterp spec fn upper_of(s: Seq<char>) -> Seq<char>;

/// The Unicode lowercase form of a character sequence, as computed by std's
/// `str::to_lowercase`. The result depends on the characters alone.
pub uninterp spec fn lower_of(s: Seq<char>) -> Seq<char>;

/// Uppercase every character of the sequence.
///
/// Relies on std's `str::to_uppercase`: a pure function of the characters,
/// using the Unicode uppercase mapping; an empty string stays empty.
#[verifier::external_body]
pub fn upper_chars(v: &Vec<char>) -> (r: Vec<char>)
    ensures
        r@ == upper_of(v@),
        v@.len() == 0 ==> r@.len() == 0,
{
    v.iter().collect::<String>().to_uppercase().chars().collect()
}

/// Lowercase every character of the sequence.
///
/// Relies on std's `str::to_lowercase`: a pure function of the characters,
/// using the Unicode lowercase mapping; an empty string stays empty.
#[verifier::external_body]
pub fn lower_chars(v: &Vec<char>) -> (r: Vec<char>)
    ensures
        r@ == lower_of(v@),
        v@.len() == 0 ==> r@.len() == 0,
{
    v.iter().collect::<String>().to_lowercase().chars().collect()
}

} // verus!

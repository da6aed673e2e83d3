//! The three fixed alphabets that sources draw from, and the default
//! configuration values.
use vstd::prelude::*;

verus! {

/// The digit alphabet, `0` through `9`.
pub open spec fn digits_spec() -> Seq<char> {
    seq!['0', '1', '2', '3', '4', '5', '6', '7', '8', '9']
}

/// The letter alphabet: `a` through `z`, then `A` through `Z`.
pub open spec fn letters_spec() -> Seq<char> {
    seq![
        'a', 'b', 'c', 'd', 'e', 'f', 'g', 'h', 'i', 'j', 'k', 'l', 'm',
        'n', 'o', 'p', 'q', 'r', 's', 't', 'u', 'v', 'w', 'x', 'y', 'z',
        'A', 'B', 'C', 'D', 'E', 'F', 'G', 'H', 'I', 'J', 'K', 'L', 'M',
        'N', 'O', 'P', 'Q', 'R', 'S', 'T', 'U', 'V', 'W', 'X', 'Y', 'Z',
    ]
}

/// The symbol alphabet: the 32 displayable ASCII punctuation characters.
pub open spec fn symbols_spec() -> Seq<char> {
    seq![
        '!', '"', '#', '$', '%', '&', '\'', '(', ')', '*', '+', ',', '-',
        '.', '/', ':', ';', '<', '=', '>', '?', '@', '[', '\\', ']', '^',
        '_', '`', '{', '|', '}', '~',
    ]
}

/// The digit alphabet as a vector, `0123456789`.
pub fn digits() -> (r: Vec<char>)
    ensures
        r@ == digits_spec(),
{
    let r = vec!['0', '1', '2', '3', '4', '5', '6', '7', '8', '9'];
    proof {
        assert(r@ =~= digits_spec());
    }
    r
}

/// The letter alphabet as a vector, `a-zA-Z`.
pub fn letters() -> (r: Vec<char>)
    ensures
        r@ == letters_spec(),
{
    let r = vec![
        'a', 'b', 'c', 'd', 'e', 'f', 'g', 'h', 'i', 'j', 'k', 'l', 'm',
        'n', 'o', 'p', 'q', 'r', 's', 't', 'u', 'v', 'w', 'x', 'y', 'z',
        'A', 'B', 'C', 'D', 'E', 'F', 'G', 'H', 'I', 'J', 'K', 'L', 'M',
        'N', 'O', 'P', 'Q', 'R', 'S', 'T', 'U', 'V', 'W', 'X', 'Y', 'Z',
    ];
    proof {
        assert(r@ =~= letters_spec());
    }
    r
}

/// The symbol alphabet as a vector.
pub fn symbols() -> (r: Vec<char>)
    ensures
        r@ == symbols_spec(),
{
    let r = vec![
        '!', '"', '#', '$', '%', '&', '\'', '(', ')', '*', '+', ',', '-',
        '.', '/', ':', ';', '<', '=', '>', '?', '@', '[', '\\', ']', '^',
        '_', '`', '{', '|', '}', '~',
    ];
    proof {
        assert(r@ =~= symbols_spec());
    }
    r
}

/// Default number of passwords to make.
pub const COUNT: u8 = 1;

/// Default number of words in a fixed-structure password.
pub const WORD_COUNT: u8 = 4;

/// Default minimum length of a chosen word.
pub const WORD_MIN_LENGTH: u8 = 4;

/// Default maximum length of a chosen word.
pub const WORD_MAX_LENGTH: u8 = 11;

/// Default number of digits to prepend.
pub const DIGITS_BEFORE: u8 = 2;

/// Default number of digits to append.
pub const DIGITS_AFTER: u8 = 2;

/// Default padding length under fixed padding.
pub const PADDING_LENGTH_FIXED: u8 = 2;

/// Default padding length under adaptive padding.
pub const PADDING_LENGTH_ADAPTIVE: u8 = 32;

/// Default set of characters from which padding and separator characters
/// are chosen: the symbol alphabet.
pub fn symbol_alphabet() -> (r: Vec<char>)
    ensures
        r@ == symbols_spec(),
{
    symbols()
}

} // verus!

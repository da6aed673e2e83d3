//! The fixed-structure configuration and its validating builder.
//!
//! A `ConfigBuilder` collects raw optional strings and `build` validates
//! them into a `Config`: integers are parsed and range-checked, enum names
//! are matched case-insensitively, and character sets are sorted and
//! deduplicated. Validation happens field by field, in declaration order,
//! and the first failure is the result.
use vstd::prelude::*;

use crate::consts;
use crate::text::ascii_lower;
use crate::text::to_ascii_lower;
use crate::text::str_to_chars;
use crate::parser::is_digit;
use crate::parser::digit_value;

verus! {

/// Why a raw configuration value was rejected.
#[derive(Debug, Clone)]
pub enum ValidationError {
    /// The value did not parse as a number in `[min, max]`: the raw text,
    /// the smallest legal value, and the largest.
    InvalidNumber(String, u8, u8),
    /// The value named no member of the expected enumeration.
    UnknownVariant(String),
}

/// How chosen words are transformed in a fixed-structure password.
#[derive(Clone, Copy, Debug, PartialEq, Eq, Structural)]
pub enum WordTransformationType {
    /// Lowercase every word.
    Lower,
    /// Uppercase every word.
    Upper,
    /// Uppercase the first character of every word.
    CapitalizeFirst,
    /// Uppercase the last character of every word.
    CapitalizeLast,
    /// Uppercase all but the first character of every word.
    CapitalizeNotFirst,
    /// Uppercase all but the last character of every word.
    CapitalizeNotLast,
    /// Reverse every word.
    Reversed,
}

/// How a fixed-structure password is padded.
#[derive(Clone, Copy, Debug, PartialEq, Eq, Structural)]
pub enum PaddingType {
    /// Pad with a fixed number of characters on each side.
    Fixed,
    /// Pad or trim to a fixed total length.
    Adaptive,
    /// No padding.
    Off,
}

/// Where random numbers come from.
#[derive(Clone, Copy, Debug, PartialEq, Eq, Structural)]
pub enum RngType {
    /// The operating system's random source.
    Os,
    /// A small seedable generator.
    Small,
}

/// A lowercase name for each enumeration member, and a default member.
/// `to_member` expects its input already lowercased.
pub trait StrEnum: Sized {
    /// The member a lowercase name stands for, if any.
    spec fn spec_member(s: Seq<char>) -> Option<Self>;

    /// The default member.
    spec fn spec_default() -> Self;

    /// Resolve a lowercase name to a member.
    fn to_member(value: &str) -> (r: Result<Self, ValidationError>)
        ensures
            match r {
                Ok(v) => Self::spec_member(value@) == Some(v),
                Err(e) => Self::spec_member(value@) is None && e is UnknownVariant
                    && e->UnknownVariant_0@ == value@,
            },
    ;

    /// The default member.
    fn default_member() -> (r: Self)
        ensures
            r == Self::spec_default(),
    ;
}

/// Whether two character vectors hold the same characters.
fn chars_eq(a: &Vec<char>, b: &Vec<char>) -> (r: bool)
    ensures
        r == (a@ == b@),
{
    if a.len() != b.len() {
        return false;
    }
    let mut i: usize = 0;
    while i < a.len()
        invariant
            a@.len() == b@.len(),
            i <= a@.len(),
            forall|j: int| 0 <= j < i ==> a@[j] == b@[j],
        decreases a@.len() - i,
    {
        if a[i] != b[i] {
            return false;
        }
        i = i + 1;
    }
    proof {
        assert(a@ =~= b@);
    }
    true
}

impl StrEnum for WordTransformationType {
    open spec fn spec_member(s: Seq<char>) -> Option<WordTransformationType> {
        if s == seq!['l', 'o', 'w', 'e', 'r'] {
            Some(WordTransformationType::Lower)
        } else if s == seq!['u', 'p', 'p', 'e', 'r'] {
            Some(WordTransformationType::Upper)
        } else if s == seq![
            'c', 'a', 'p', 'i', 't', 'a', 'l', 'i', 'z', 'e', 'f', 'i', 'r', 's', 't',
        ] {
            Some(WordTransformationType::CapitalizeFirst)
        } else if s == seq![
            'c', 'a', 'p', 'i', 't', 'a', 'l', 'i', 'z', 'e', 'l', 'a', 's', 't',
        ] {
            Some(WordTransformationType::CapitalizeLast)
        } else if s == seq![
            'c', 'a', 'p', 'i', 't', 'a', 'l', 'i', 'z', 'e', 'n', 'o', 't', 'f', 'i',
            'r', 's', 't',
        ] {
            Some(WordTransformationType::CapitalizeNotFirst)
        } else if s == seq![
            'c', 'a', 'p', 'i', 't', 'a', 'l', 'i', 'z', 'e', 'n', 'o', 't', 'l', 'a',
            's', 't',
        ] {
            Some(WordTransformationType::CapitalizeNotLast)
        } else if s == seq!['r', 'e', 'v', 'e', 'r', 's', 'e', 'd'] {
            Some(WordTransformationType::Reversed)
        } else {
            None
        }
    }

    open spec fn spec_default() -> WordTransformationType {
        WordTransformationType::Lower
    }

    fn to_member(value: &str) -> (r: Result<Self, ValidationError>) {
        let cs = str_to_chars(value);
        let w = vec!['l', 'o', 'w', 'e', 'r'];
        proof {
            assert(w@ =~= seq!['l', 'o', 'w', 'e', 'r']);
        }
        if chars_eq(&cs, &w) {
            return Ok(WordTransformationType::Lower);
        }
        let w = vec!['u', 'p', 'p', 'e', 'r'];
        proof {
            assert(w@ =~= seq!['u', 'p', 'p', 'e', 'r']);
        }
        if chars_eq(&cs, &w) {
            return Ok(WordTransformationType::Upper);
        }
        let w = vec!['c', 'a', 'p', 'i', 't', 'a', 'l', 'i', 'z', 'e', 'f', 'i', 'r', 's', 't'];
        proof {
            assert(w@ =~= seq![
                'c', 'a', 'p', 'i', 't', 'a', 'l', 'i', 'z', 'e', 'f', 'i', 'r', 's', 't',
            ]);
        }
        if chars_eq(&cs, &w) {
            return Ok(WordTransformationType::CapitalizeFirst);
        }
        let w = vec!['c', 'a', 'p', 'i', 't', 'a', 'l', 'i', 'z', 'e', 'l', 'a', 's', 't'];
        proof {
            assert(w@ =~= seq![
                'c', 'a', 'p', 'i', 't', 'a', 'l', 'i', 'z', 'e', 'l', 'a', 's', 't',
            ]);
        }
        if chars_eq(&cs, &w) {
            return Ok(WordTransformationType::CapitalizeLast);
        }
        let w = vec![
            'c', 'a', 'p', 'i', 't', 'a', 'l', 'i', 'z', 'e', 'n', 'o', 't', 'f', 'i',
            'r', 's', 't',
        ];
        proof {
            assert(w@ =~= seq![
                'c', 'a', 'p', 'i', 't', 'a', 'l', 'i', 'z', 'e', 'n', 'o', 't', 'f',
                'i', 'r', 's', 't',
            ]);
        }
        if chars_eq(&cs, &w) {
            return Ok(WordTransformationType::CapitalizeNotFirst);
        }
        let w = vec![
            'c', 'a', 'p', 'i', 't', 'a', 'l', 'i', 'z', 'e', 'n', 'o', 't', 'l', 'a',
            's', 't',
        ];
        proof {
            assert(w@ =~= seq![
                'c', 'a', 'p', 'i', 't', 'a', 'l', 'i', 'z', 'e', 'n', 'o', 't', 'l',
                'a', 's', 't',
            ]);
        }
        if chars_eq(&cs, &w) {
            return Ok(WordTransformationType::CapitalizeNotLast);
        }
        let w = vec!['r', 'e', 'v', 'e', 'r', 's', 'e', 'd'];
        proof {
            assert(w@ =~= seq!['r', 'e', 'v', 'e', 'r', 's', 'e', 'd']);
        }
        if chars_eq(&cs, &w) {
            return Ok(WordTransformationType::Reversed);
        }
        Err(ValidationError::UnknownVariant(value.to_owned()))
    }

    fn default_member() -> (r: Self) {
        WordTransformationType::Lower
    }
}

impl StrEnum for PaddingType {
    open spec fn spec_member(s: Seq<char>) -> Option<PaddingType> {
        if s == seq!['f', 'i', 'x', 'e', 'd'] {
            Some(PaddingType::Fixed)
        } else if s == seq!['a', 'd', 'a', 'p', 't', 'i', 'v', 'e'] {
            Some(PaddingType::Adaptive)
        } else if s == seq!['n', 'o', 'n', 'e'] {
            Some(PaddingType::Off)
        } else {
            None
        }
    }

    open spec fn spec_default() -> PaddingType {
        PaddingType::Fixed
    }

    fn to_member(value: &str) -> (r: Result<Self, ValidationError>) {
        let cs = str_to_chars(value);
        let w = vec!['f', 'i', 'x', 'e', 'd'];
        proof {
            assert(w@ =~= seq!['f', 'i', 'x', 'e', 'd']);
        }
        if chars_eq(&cs, &w) {
            return Ok(PaddingType::Fixed);
        }
        let w = vec!['a', 'd', 'a', 'p', 't', 'i', 'v', 'e'];
        proof {
            assert(w@ =~= seq!['a', 'd', 'a', 'p', 't', 'i', 'v', 'e']);
        }
        if chars_eq(&cs, &w) {
            return Ok(PaddingType::Adaptive);
        }
        let w = vec!['n', 'o', 'n', 'e'];
        proof {
            assert(w@ =~= seq!['n', 'o', 'n', 'e']);
        }
        if chars_eq(&cs, &w) {
            return Ok(PaddingType::Off);
        }
        Err(ValidationError::UnknownVariant(value.to_owned()))
    }

    fn default_member() -> (r: Self) {
        PaddingType::Fixed
    }
}

impl StrEnum for RngType {
    open spec fn spec_member(s: Seq<char>) -> Option<RngType> {
        if s == seq!['o', 's'] {
            Some(RngType::Os)
        } else if s == seq!['s', 'm', 'a', 'l', 'l'] {
            Some(RngType::Small)
        } else {
            None
        }
    }

    open spec fn spec_default() -> RngType {
        RngType::Os
    }

    fn to_member(value: &str) -> (r: Result<Self, ValidationError>) {
        let cs = str_to_chars(value);
        let w = vec!['o', 's'];
        proof {
            assert(w@ =~= seq!['o', 's']);
        }
        if chars_eq(&cs, &w) {
            return Ok(RngType::Os);
        }
        let w = vec!['s', 'm', 'a', 'l', 'l'];
        proof {
            assert(w@ =~= seq!['s', 'm', 'a', 'l', 'l']);
        }
        if chars_eq(&cs, &w) {
            return Ok(RngType::Small);
        }
        Err(ValidationError::UnknownVariant(value.to_owned()))
    }

    fn default_member() -> (r: Self) {
        RngType::Os
    }
}

/// The value of a decimal digit run, most significant first.
pub open spec fn dec_val(t: Seq<char>) -> int
    decreases t.len(),
{
    if t.len() == 0 {
        0
    } else {
        dec_val(t.drop_last()) * 10 + digit_value(t.last())
    }
}

/// Whether every character of the run is a digit.
pub open spec fn all_digits(t: Seq<char>) -> bool {
    forall|i: int| 0 <= i < t.len() ==> is_digit(#[trigger] t[i])
}

/// What `str::parse::<u8>` accepts: an optional leading `+`, then one or
/// more digits whose value fits in a `u8`.
pub open spec fn parse_u8_spec(s: Seq<char>) -> Option<u8> {
    let t: Seq<char> = if s.len() > 0 && s[0] == '+' {
        s.drop_first()
    } else {
        s
    };
    if t.len() == 0 || !all_digits(t) {
        None
    } else if dec_val(t) > 255 {
        None
    } else {
        Some(dec_val(t) as u8)
    }
}

/// A digit run's value is not negative.
proof fn lemma_dec_val_nonneg(t: Seq<char>)
    requires
        all_digits(t),
    ensures
        dec_val(t) >= 0,
    decreases t.len(),
{
    if t.len() > 0 {
        assert(all_digits(t.drop_last())) by {
            assert(forall|i: int|
                0 <= i < t.len() - 1 ==> is_digit(#[trigger] t.drop_last()[i]) == is_digit(
                    t[i],
                ));
        }
        lemma_dec_val_nonneg(t.drop_last());
    }
}

/// A digit run's value only grows as the run extends.
proof fn lemma_dec_val_grows(t: Seq<char>, i: int)
    requires
        all_digits(t),
        0 <= i <= t.len(),
    ensures
        dec_val(t) >= dec_val(t.take(i)),
    decreases t.len() - i,
{
    if i < t.len() {
        lemma_dec_val_grows(t, i + 1);
        assert(t.take(i + 1).drop_last() =~= t.take(i));
        assert(t.take(i + 1).last() == t[i]);
        assert(all_digits(t.take(i))) by {
            assert(forall|j: int|
                0 <= j < i ==> is_digit(#[trigger] t.take(i)[j]) == is_digit(t[j]));
        }
        lemma_dec_val_nonneg(t.take(i));
        assert(dec_val(t.take(i + 1)) == dec_val(t.take(i)) * 10 + digit_value(t[i]));
        assert(dec_val(t.take(i)) * 10 >= dec_val(t.take(i))) by (nonlinear_arith)
            requires dec_val(t.take(i)) >= 0;
    } else {
        assert(t.take(i) =~= t);
    }
}

/// Parse a `u8` from decimal text, as `str::parse::<u8>` would.
pub fn parse_u8(s: &str) -> (r: Option<u8>)
    ensures
        r == parse_u8_spec(s@),
{
    let cs = str_to_chars(s);
    let start: usize = if cs.len() > 0 && cs[0] == '+' {
        1
    } else {
        0
    };
    let ghost t: Seq<char> = if s@.len() > 0 && s@[0] == '+' {
        s@.drop_first()
    } else {
        s@
    };
    proof {
        assert(t =~= cs@.skip(start as int));
    }
    if start == cs.len() {
        return None;
    }
    let mut acc: u32 = 0;
    let mut i: usize = start;
    while i < cs.len()
        invariant
            cs@ == s@,
            start < cs@.len(),
            start <= i <= cs@.len(),
            t == cs@.skip(start as int),
            t == (if s@.len() > 0 && s@[0] == '+' {
                s@.drop_first()
            } else {
                s@
            }),
            t.len() == cs@.len() - start,
            acc <= 255,
            all_digits(t.take(i - start)),
            acc as int == dec_val(t.take(i - start)),
        decreases cs@.len() - i,
    {
        let c = cs[i];
        if !('0' <= c && c <= '9') {
            proof {
                assert(t[i - start] == cs@[i as int]);
                assert(!all_digits(t));
            }
            return None;
        }
        let d: u32 = match c {
            '0' => 0,
            '1' => 1,
            '2' => 2,
            '3' => 3,
            '4' => 4,
            '5' => 5,
            '6' => 6,
            '7' => 7,
            '8' => 8,
            _ => 9,
        };
        proof {
            assert(t.take(i - start + 1).drop_last() =~= t.take(i - start));
            assert(t.take(i - start + 1).last() == t[i - start]);
            assert(t[i - start] == cs@[i as int]);
        }
        acc = acc * 10 + d;
        i = i + 1;
        if acc > 255 {
            proof {
                assert(all_digits(t.take(i - start)));
                if all_digits(t) {
                    lemma_dec_val_grows(t, i - start);
                    assert(dec_val(t) > 255);
                }
            }
            return None;
        }
    }
    proof {
        assert(t.take(i - start) =~= t);
        assert(t.len() > 0);
    }
    Some(acc as u8)
}

/// Whether a value was given and lies in range, or fell back to the
/// default: the validated number, or nothing when the text is rejected.
pub open spec fn int_field(value: Option<String>, min: u8, max: u8, default: u8) -> Option<
    u8,
> {
    match value {
        Option::None => Some(default),
        Option::Some(s) => match parse_u8_spec(s@) {
            Some(x) => if min <= x && x <= max {
                Some(x)
            } else {
                Option::None
            },
            Option::None => Option::None,
        },
    }
}

/// Ensure a value parses as a number between `min` and `max`; with no
/// value, return `default`.
pub fn validate_int(value: Option<String>, min: u8, max: u8, default: u8) -> (r: Result<
    u8,
    ValidationError,
>)
    ensures
        match r {
            Ok(v) => int_field(value, min, max, default) == Some(v),
            Err(e) => int_field(value, min, max, default) is None && e is InvalidNumber
                && value is Some && e->InvalidNumber_0@ == value->0@ && e->InvalidNumber_1
                == min && e->InvalidNumber_2 == max,
        },
{
    match value {
        Option::None => Ok(default),
        Option::Some(inner) => {
            match parse_u8(inner.as_str()) {
                Some(x) => {
                    if min <= x && x <= max {
                        Ok(x)
                    } else {
                        Err(ValidationError::InvalidNumber(inner, min, max))
                    }
                },
                Option::None => Err(ValidationError::InvalidNumber(inner, min, max)),
            }
        },
    }
}

/// The ASCII-lowercased form of a character sequence.
pub open spec fn ascii_lower_seq(s: Seq<char>) -> Seq<char> {
    Seq::new(s.len(), |i: int| ascii_lower(s[i]))
}

/// Lowercase a string's characters (ASCII).
fn lowercase_chars(s: &str) -> (r: Vec<char>)
    ensures
        r@ == ascii_lower_seq(s@),
{
    let cs = str_to_chars(s);
    let mut out: Vec<char> = Vec::new();
    let mut i: usize = 0;
    while i < cs.len()
        invariant
            i <= cs@.len(),
            cs@ == s@,
            out@ == ascii_lower_seq(s@).take(i as int),
        decreases cs@.len() - i,
    {
        out.push(to_ascii_lower(cs[i]));
        proof {
            assert(out@ =~= ascii_lower_seq(s@).take(i + 1));
        }
        i = i + 1;
    }
    proof {
        assert(out@ =~= ascii_lower_seq(s@));
    }
    out
}

/// Whether a value named an enumeration member (after lowercasing), or
/// fell back to the default member.
pub open spec fn enum_field<T: StrEnum>(value: Option<String>) -> Option<T> {
    match value {
        Option::None => Some(T::spec_default()),
        Option::Some(s) => T::spec_member(ascii_lower_seq(s@)),
    }
}

/// Ensure a value names a member of the enumeration, case-insensitively;
/// with no value, return the default member.
pub fn validate_enum<T: StrEnum>(value: Option<String>) -> (r: Result<T, ValidationError>)
    ensures
        match r {
            Ok(v) => enum_field::<T>(value) == Some(v),
            Err(e) => enum_field::<T>(value) is None && value is Some && e
                is UnknownVariant && e->UnknownVariant_0@ == ascii_lower_seq(value->0@),
        },
{
    match value {
        Option::None => Ok(T::default_member()),
        Option::Some(inner) => {
            let lowered = lowercase_chars(inner.as_str());
            let lowered_str = crate::text::chars_to_string(&lowered);
            T::to_member(lowered_str.as_str())
        },
    }
}

/// Whether the characters are strictly ascending (so also free of
/// duplicates).
pub open spec fn strictly_sorted(s: Seq<char>) -> bool {
    forall|i: int, j: int| 0 <= i < j < s.len() ==> (s[i] as int) < (s[j] as int)
}

/// Insert a character into an ascending sequence, keeping it ascending;
/// a character already present is dropped.
fn sorted_insert(v: &mut Vec<char>, c: char)
    requires
        strictly_sorted(old(v)@),
    ensures
        strictly_sorted(final(v)@),
        final(v)@.to_set() == old(v)@.to_set().insert(c),
{
    let ghost old_view = v@;
    let mut k: usize = 0;
    while k < v.len() && v[k] < c
        invariant
            v@ == old_view,
            k <= v@.len(),
            forall|j: int| 0 <= j < k ==> (v@[j] as int) < (c as int),
        decreases v@.len() - k,
    {
        k = k + 1;
    }
    if k < v.len() && v[k] == c {
        proof {
            assert(old_view.to_set().contains(c)) by {
                assert(old_view[k as int] == c);
            }
            assert(old_view.to_set().insert(c) =~= old_view.to_set());
        }
        return;
    }
    let ghost above: bool = k < v@.len();
    proof {
        if above {
            assert((c as int) < (old_view[k as int] as int));
        }
    }
    v.insert(k, c);
    proof {
        assert(v@ == old_view.insert(k as int, c));
        assert(forall|j: int| 0 <= j < k ==> v@[j] == old_view[j]);
        assert(v@[k as int] == c);
        assert(forall|j: int| k < j < v@.len() ==> v@[j] == old_view[j - 1]);
        assert forall|i2: int, j2: int|
            0 <= i2 < j2 < v@.len() implies (v@[i2] as int) < (v@[j2] as int) by {
            if i2 < k && j2 < k {
            } else if i2 < k && j2 == k {
                assert((old_view[i2] as int) < (c as int));
            } else if i2 < k && j2 > k {
                assert((old_view[i2] as int) < (c as int));
                assert((c as int) < (old_view[j2 - 1] as int)) by {
                    assert(j2 - 1 >= k);
                    if j2 - 1 > k {
                        assert((old_view[k as int] as int) < (old_view[j2 - 1] as int));
                    }
                }
            } else if i2 == k {
                assert(j2 > k);
                assert((c as int) < (old_view[j2 - 1] as int)) by {
                    if j2 - 1 > k {
                        assert((old_view[k as int] as int) < (old_view[j2 - 1] as int));
                    }
                }
            } else {
                assert((old_view[i2 - 1] as int) < (old_view[j2 - 1] as int));
            }
        }
        assert(v@.to_set() =~= old_view.to_set().insert(c)) by {
            assert forall|x: char|
                v@.to_set().contains(x) implies old_view.to_set().insert(c).contains(
                x,
            ) by {
                let j = choose|j: int| 0 <= j < v@.len() && v@[j] == x;
                if j < k {
                    assert(old_view[j] == x);
                    assert(old_view.to_set().contains(x));
                } else if j > k {
                    assert(old_view[j - 1] == x);
                    assert(old_view.to_set().contains(x));
                }
            }
            assert forall|x: char|
                old_view.to_set().insert(c).contains(x) implies v@.to_set().contains(
                x,
            ) by {
                if x == c {
                    assert(v@[k as int] == x);
                } else {
                    let j = choose|j: int| 0 <= j < old_view.len() && old_view[j] == x;
                    if j < k {
                        assert(v@[j] == x);
                    } else {
                        assert(v@[j + 1] == x);
                    }
                }
            }
        }
    }
}

/// The ascending, duplicate-free arrangement of a character sequence.
pub open spec fn uniquify_spec(s: Seq<char>) -> Set<char> {
    s.to_set()
}

/// Turn a string into a sorted vector of characters with no duplicates;
/// with no value, return `default` as it stands.
pub fn uniquify_chars(value: Option<String>, default: &Vec<char>) -> (r: Vec<char>)
    ensures
        value is None ==> r@ == default@,
        value is Some ==> strictly_sorted(r@) && r@.to_set() == uniquify_spec(value->0@),
{
    match value {
        Option::None => crate::eval::clone_chars(default),
        Option::Some(inner) => {
            let cs = str_to_chars(inner.as_str());
            let mut out: Vec<char> = Vec::new();
            let mut i: usize = 0;
            proof {
                assert(out@.to_set() =~= cs@.take(0).to_set());
            }
            while i < cs.len()
                invariant
                    i <= cs@.len(),
                    cs@ == inner@,
                    strictly_sorted(out@),
                    out@.to_set() == cs@.take(i as int).to_set(),
                decreases cs@.len() - i,
            {
                sorted_insert(&mut out, cs[i]);
                proof {
                    assert(cs@.take(i + 1) =~= cs@.take(i as int).push(cs@[i as int]));
                    cs@.take(i as int).lemma_push_to_set_commute(cs@[i as int]);
                }
                i = i + 1;
            }
            proof {
                assert(cs@.take(cs@.len() as int) =~= cs@);
            }
            out
        },
    }
}


/// A validated fixed-structure configuration.
#[derive(Debug, Clone, PartialEq, Eq)]
pub struct Config {
    /// How many passwords to make.
    pub count: u8,
    /// Number of words to choose.
    pub word_count: u8,
    /// Minimum length of a chosen word.
    pub word_min_length: u8,
    /// Maximum length of a chosen word.
    pub word_max_length: u8,
    /// Transformation to apply to the selected words.
    pub word_transformation: WordTransformationType,
    /// Number of digits to prepend.
    pub digits_before: u8,
    /// Number of digits to append.
    pub digits_after: u8,
    /// How to apply padding.
    pub padding_type: PaddingType,
    /// How much to pad.
    pub padding_length: u8,
    /// Characters from which the padding character is chosen.
    pub padding_characters: Vec<char>,
    /// Characters from which the separator character is chosen.
    pub separator_characters: Vec<char>,
    /// Method of random number generation.
    pub rng_type: RngType,
}

/// Collects raw optional values and validates them into a [`Config`].
pub struct ConfigBuilder {
    /// How many passwords to make.
    pub count: Option<String>,
    /// Number of words to choose.
    pub word_count: Option<String>,
    /// Minimum length of a chosen word.
    pub word_min_length: Option<String>,
    /// Maximum length of a chosen word.
    pub word_max_length: Option<String>,
    /// Transformation to apply to the selected words.
    pub word_transformation: Option<String>,
    /// Number of digits to prepend.
    pub digits_before: Option<String>,
    /// Number of digits to append.
    pub digits_after: Option<String>,
    /// How to apply padding.
    pub padding_type: Option<String>,
    /// How much to pad.
    pub padding_length: Option<String>,
    /// Characters from which the padding character is chosen.
    pub padding_characters: Option<String>,
    /// Characters from which the separator character is chosen.
    pub separator_characters: Option<String>,
    /// Method of random number generation.
    pub rng_type: Option<String>,
}

/// The model of a rejected build: which value was rejected and how.
pub enum BuildErrV {
    /// A number failed to parse or lay out of range.
    Num { text: Seq<char>, min: u8, max: u8 },
    /// A name matched no enumeration member (already lowercased).
    Variant { text: Seq<char> },
}

/// The model of a validation error.
pub open spec fn err_view(e: ValidationError) -> BuildErrV {
    match e {
        ValidationError::InvalidNumber(s, a, b) => BuildErrV::Num { text: s@, min: a, max: b },
        ValidationError::UnknownVariant(s) => BuildErrV::Variant { text: s@ },
    }
}

/// The default padding length under each padding type.
pub open spec fn padding_default(t: PaddingType) -> u8 {
    match t {
        PaddingType::Fixed => consts::PADDING_LENGTH_FIXED,
        PaddingType::Adaptive => consts::PADDING_LENGTH_ADAPTIVE,
        PaddingType::Off => 0,
    }
}

/// Whether the padding character set comes out empty: only an explicitly
/// empty value makes it so (the default set is the symbol alphabet).
pub open spec fn padding_set_empty(b: ConfigBuilder) -> bool {
    b.padding_characters is Some && b.padding_characters->0@.len() == 0
}

/// The padding type a builder resolves to, when none of its fields before
/// it was rejected: forced off by an empty padding set, else validated.
pub open spec fn resolved_padding_type(b: ConfigBuilder) -> Option<PaddingType> {
    if padding_set_empty(b) {
        Some(PaddingType::Off)
    } else {
        enum_field::<PaddingType>(b.padding_type)
    }
}

/// The first rejection `build` runs into, in field order, if any.
pub open spec fn spec_build_err(b: ConfigBuilder) -> Option<BuildErrV> {
    if int_field(b.count, 1, 255, consts::COUNT) is None {
        Some(BuildErrV::Num { text: b.count->0@, min: 1, max: 255 })
    } else if int_field(b.word_count, 0, 32, consts::WORD_COUNT) is None {
        Some(BuildErrV::Num { text: b.word_count->0@, min: 0, max: 32 })
    } else if int_field(b.word_min_length, 1, 255, consts::WORD_MIN_LENGTH) is None {
        Some(BuildErrV::Num { text: b.word_min_length->0@, min: 1, max: 255 })
    } else {
        let wmin = int_field(b.word_min_length, 1, 255, consts::WORD_MIN_LENGTH)->0;
        if int_field(b.word_max_length, wmin, 255, consts::WORD_MAX_LENGTH) is None {
            Some(BuildErrV::Num { text: b.word_max_length->0@, min: wmin, max: 255 })
        } else if enum_field::<WordTransformationType>(b.word_transformation) is None {
            Some(BuildErrV::Variant {
                text: ascii_lower_seq(b.word_transformation->0@),
            })
        } else if int_field(b.digits_before, 0, 255, consts::DIGITS_BEFORE) is None {
            Some(BuildErrV::Num { text: b.digits_before->0@, min: 0, max: 255 })
        } else if int_field(b.digits_after, 0, 255, consts::DIGITS_AFTER) is None {
            Some(BuildErrV::Num { text: b.digits_after->0@, min: 0, max: 255 })
        } else if !padding_set_empty(b) && enum_field::<PaddingType>(b.padding_type)
            is None {
            Some(BuildErrV::Variant { text: ascii_lower_seq(b.padding_type->0@) })
        } else {
            let ptype = resolved_padding_type(b)->0;
            if int_field(b.padding_length, 0, 255, padding_default(ptype)) is None {
                Some(BuildErrV::Num { text: b.padding_length->0@, min: 0, max: 255 })
            } else if enum_field::<RngType>(b.rng_type) is None {
                Some(BuildErrV::Variant { text: ascii_lower_seq(b.rng_type->0@) })
            } else {
                None
            }
        }
    }
}

/// What a successful build holds, field by field.
pub open spec fn build_ok(b: ConfigBuilder, c: Config) -> bool {
    &&& int_field(b.count, 1, 255, consts::COUNT) == Some(c.count)
    &&& int_field(b.word_count, 0, 32, consts::WORD_COUNT) == Some(c.word_count)
    &&& int_field(b.word_min_length, 1, 255, consts::WORD_MIN_LENGTH) == Some(
        c.word_min_length,
    )
    &&& int_field(b.word_max_length, c.word_min_length, 255, consts::WORD_MAX_LENGTH)
        == Some(c.word_max_length)
    &&& enum_field::<WordTransformationType>(b.word_transformation) == Some(
        c.word_transformation,
    )
    &&& int_field(b.digits_before, 0, 255, consts::DIGITS_BEFORE) == Some(c.digits_before)
    &&& int_field(b.digits_after, 0, 255, consts::DIGITS_AFTER) == Some(c.digits_after)
    &&& (b.padding_characters is None ==> c.padding_characters@ == crate::consts::symbols_spec())
    &&& (b.padding_characters is Some ==> strictly_sorted(c.padding_characters@)
        && c.padding_characters@.to_set() == b.padding_characters->0@.to_set())
    &&& Some(c.padding_type) == resolved_padding_type(b)
    &&& int_field(b.padding_length, 0, 255, padding_default(c.padding_type)) == Some(
        c.padding_length,
    )
    &&& (b.separator_characters is None ==> c.separator_characters@
        == crate::consts::symbols_spec())
    &&& (b.separator_characters is Some ==> strictly_sorted(c.separator_characters@)
        && c.separator_characters@.to_set() == b.separator_characters->0@.to_set())
    &&& enum_field::<RngType>(b.rng_type) == Some(c.rng_type)
}

impl ConfigBuilder {
    /// A builder with no values set: `build` yields the defaults.
    pub fn new() -> (r: Self)
        ensures
            r.count is None,
            r.word_count is None,
            r.word_min_length is None,
            r.word_max_length is None,
            r.word_transformation is None,
            r.digits_before is None,
            r.digits_after is None,
            r.padding_type is None,
            r.padding_length is None,
            r.padding_characters is None,
            r.separator_characters is None,
            r.rng_type is None,
    {
        ConfigBuilder {
            count: None,
            word_count: None,
            word_min_length: None,
            word_max_length: None,
            word_transformation: None,
            digits_before: None,
            digits_after: None,
            padding_type: None,
            padding_length: None,
            padding_characters: None,
            separator_characters: None,
            rng_type: None,
        }
    }

    /// Set how many passwords to make.
    pub fn count(self, value: Option<String>) -> (r: Self)
        ensures
            r == (ConfigBuilder { count: value, ..self }),
    {
        ConfigBuilder { count: value, ..self }
    }

    /// Set the number of words to choose.
    pub fn word_count(self, value: Option<String>) -> (r: Self)
        ensures
            r == (ConfigBuilder { word_count: value, ..self }),
    {
        ConfigBuilder { word_count: value, ..self }
    }

    /// Set the minimum length of a chosen word.
    pub fn word_min_length(self, value: Option<String>) -> (r: Self)
        ensures
            r == (ConfigBuilder { word_min_length: value, ..self }),
    {
        ConfigBuilder { word_min_length: value, ..self }
    }

    /// Set the maximum length of a chosen word.
    pub fn word_max_length(self, value: Option<String>) -> (r: Self)
        ensures
            r == (ConfigBuilder { word_max_length: value, ..self }),
    {
        ConfigBuilder { word_max_length: value, ..self }
    }

    /// Set the transformation to apply to the selected words.
    pub fn word_transformation(self, value: Option<String>) -> (r: Self)
        ensures
            r == (ConfigBuilder { word_transformation: value, ..self }),
    {
        ConfigBuilder { word_transformation: value, ..self }
    }

    /// Set the number of digits to prepend.
    pub fn digits_before(self, value: Option<String>) -> (r: Self)
        ensures
            r == (ConfigBuilder { digits_before: value, ..self }),
    {
        ConfigBuilder { digits_before: value, ..self }
    }

    /// Set the number of digits to append.
    pub fn digits_after(self, value: Option<String>) -> (r: Self)
        ensures
            r == (ConfigBuilder { digits_after: value, ..self }),
    {
        ConfigBuilder { digits_after: value, ..self }
    }

    /// Set how to apply padding.
    pub fn padding_type(self, value: Option<String>) -> (r: Self)
        ensures
            r == (ConfigBuilder { padding_type: value, ..self }),
    {
        ConfigBuilder { padding_type: value, ..self }
    }

    /// Set how much to pad.
    pub fn padding_length(self, value: Option<String>) -> (r: Self)
        ensures
            r == (ConfigBuilder { padding_length: value, ..self }),
    {
        ConfigBuilder { padding_length: value, ..self }
    }

    /// Set the characters from which the padding character is chosen.
    pub fn padding_characters(self, value: Option<String>) -> (r: Self)
        ensures
            r == (ConfigBuilder { padding_characters: value, ..self }),
    {
        ConfigBuilder { padding_characters: value, ..self }
    }

    /// Set the characters from which the separator character is chosen.
    pub fn separator_characters(self, value: Option<String>) -> (r: Self)
        ensures
            r == (ConfigBuilder { separator_characters: value, ..self }),
    {
        ConfigBuilder { separator_characters: value, ..self }
    }

    /// Set the method of random number generation.
    pub fn rng_type(self, value: Option<String>) -> (r: Self)
        ensures
            r == (ConfigBuilder { rng_type: value, ..self }),
    {
        ConfigBuilder { rng_type: value, ..self }
    }

    /// Validate every collected value, in field order, into a `Config`;
    /// the first rejection is the result.
    pub fn build(self) -> (r: Result<Config, ValidationError>)
        ensures
            match r {
                Ok(c) => spec_build_err(self) is None && build_ok(self, c),
                Err(e) => spec_build_err(self) == Some(err_view(e)),
            },
    {
        let count = match validate_int(self.count, 1, 255, consts::COUNT) {
            Ok(v) => v,
            Err(e) => {
                return Err(e);
            },
        };
        let word_count = match validate_int(self.word_count, 0, 32, consts::WORD_COUNT) {
            Ok(v) => v,
            Err(e) => {
                return Err(e);
            },
        };
        let word_min_length = match validate_int(
            self.word_min_length,
            1,
            255,
            consts::WORD_MIN_LENGTH,
        ) {
            Ok(v) => v,
            Err(e) => {
                return Err(e);
            },
        };
        let word_max_length = match validate_int(
            self.word_max_length,
            word_min_length,
            255,
            consts::WORD_MAX_LENGTH,
        ) {
            Ok(v) => v,
            Err(e) => {
                return Err(e);
            },
        };
        let word_transformation = match validate_enum::<WordTransformationType>(
            self.word_transformation,
        ) {
            Ok(v) => v,
            Err(e) => {
                return Err(e);
            },
        };
        let digits_before = match validate_int(
            self.digits_before,
            0,
            255,
            consts::DIGITS_BEFORE,
        ) {
            Ok(v) => v,
            Err(e) => {
                return Err(e);
            },
        };
        let digits_after = match validate_int(
            self.digits_after,
            0,
            255,
            consts::DIGITS_AFTER,
        ) {
            Ok(v) => v,
            Err(e) => {
                return Err(e);
            },
        };
        let defaults = consts::symbol_alphabet();
        let ghost padding_value = self.padding_characters;
        let padding_characters = uniquify_chars(self.padding_characters, &defaults);
        proof {
            if padding_value is Some {
                if padding_value->0@.len() == 0 {
                    if padding_characters@.len() > 0 {
                        assert(padding_characters@.to_set().contains(
                            padding_characters@[0],
                        ));
                        assert(padding_value->0@.contains(padding_characters@[0]));
                    }
                } else {
                    assert(padding_value->0@.to_set().contains(padding_value->0@[0]));
                    assert(padding_characters@.to_set().contains(padding_value->0@[0]));
                    assert(padding_characters@.len() > 0);
                }
            } else {
                assert(padding_characters@.len() == 32);
            }
        }
        let padding_type = if padding_characters.len() == 0 {
            PaddingType::Off
        } else {
            match validate_enum::<PaddingType>(self.padding_type) {
                Ok(v) => v,
                Err(e) => {
                    return Err(e);
                },
            }
        };
        let padding_length_default: u8 = match padding_type {
            PaddingType::Fixed => consts::PADDING_LENGTH_FIXED,
            PaddingType::Adaptive => consts::PADDING_LENGTH_ADAPTIVE,
            PaddingType::Off => 0,
        };
        let padding_length = match validate_int(
            self.padding_length,
            0,
            255,
            padding_length_default,
        ) {
            Ok(v) => v,
            Err(e) => {
                return Err(e);
            },
        };
        let defaults2 = consts::symbol_alphabet();
        let separator_characters = uniquify_chars(self.separator_characters, &defaults2);
        let rng_type = match validate_enum::<RngType>(self.rng_type) {
            Ok(v) => v,
            Err(e) => {
                return Err(e);
            },
        };
        Ok(Config {
            count,
            word_count,
            word_min_length,
            word_max_length,
            word_transformation,
            digits_before,
            digits_after,
            padding_type,
            padding_length,
            padding_characters,
            separator_characters,
            rng_type,
        })
    }
}

impl Default for ConfigBuilder {
    /// A builder with no values set.
    fn default() -> (r: Self)
        ensures
            r.count is None,
            r.word_count is None,
            r.word_min_length is None,
            r.word_max_length is None,
            r.word_transformation is None,
            r.digits_before is None,
            r.digits_after is None,
            r.padding_type is None,
            r.padding_length is None,
            r.padding_characters is None,
            r.separator_characters is None,
            r.rng_type is None,
    {
        ConfigBuilder::new()
    }
}

impl Default for Config {
    /// The configuration that an empty builder yields.
    fn default() -> (r: Config)
        ensures
            r.count == consts::COUNT,
            r.word_count == consts::WORD_COUNT,
            r.word_min_length == consts::WORD_MIN_LENGTH,
            r.word_max_length == consts::WORD_MAX_LENGTH,
            r.word_transformation == WordTransformationType::Lower,
            r.digits_before == consts::DIGITS_BEFORE,
            r.digits_after == consts::DIGITS_AFTER,
            r.padding_type == PaddingType::Fixed,
            r.padding_length == consts::PADDING_LENGTH_FIXED,
            r.padding_characters@ == crate::consts::symbols_spec(),
            r.separator_characters@ == crate::consts::symbols_spec(),
            r.rng_type == RngType::Os,
    {
        let r = ConfigBuilder::new().build();
        match r {
            Ok(c) => c,
            Err(_) => {
                proof {
                    assert(false);
                }
                unreached()
            },
        }
    }
}

} // verus!

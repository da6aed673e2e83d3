//! The recursive-descent parser: template text in, expression tree and
//! definition table out, or a single terminal syntax error.
//!
//! Every parsing function has a spec-level mirror over the character
//! sequence; the executable function is proved to return exactly what the
//! mirror says, so parsing is a deterministic function of the input text.
//! Positions index characters, not bytes.
//!
//! A custom source is resolved while parsing, by substituting the named
//! definition's already-parsed body into the tree. A definition can
//! therefore only reference definitions that precede it, and cyclic
//! definitions cannot arise: a self-reference fails as an unknown source.
use vstd::prelude::*;

use crate::text::ascii_lower;
use crate::text::to_ascii_lower;
use crate::text::str_to_chars;
use crate::text::chars_to_string;
use crate::types::Block;
use crate::types::BlockV;
use crate::types::Expression;
use crate::types::ExpressionItem;
use crate::types::ExpressionItemV;
use crate::types::ExpressionV;
use crate::types::Filter;
use crate::types::Group;
use crate::types::GroupV;
use crate::types::KeyValue;
use crate::types::LabeledSource;
use crate::types::LabeledSourceV;
use crate::types::Source;
use crate::types::SourceV;
use crate::types::block_view;
use crate::types::blocks_view;
use crate::types::group_view;
use crate::types::item_view;
use crate::types::items_view;
use crate::types::source_view;
use crate::types::lemma_items_view;
use crate::types::clone_items_from;

verus! {

/// Why a template failed to parse.
#[derive(Clone, Copy, Debug, PartialEq, Eq, Structural)]
pub enum ParseErrorKind {
    /// A block, group or character list was never closed.
    UnterminatedConstruct,
    /// An identifier matched neither a builtin keyword nor any known
    /// definition.
    UnknownSource,
    /// A numeric literal lay outside its legal range: the value (saturated
    /// on overflow), the smallest legal value, and the largest.
    InvalidNumericLiteral(u32, u8, u8),
    /// A backslash was not followed by an escapable character.
    InvalidEscape,
    /// A `min`/`max` key-value list was attached to a non-word source.
    MisplacedKeyValue,
    /// The input did not match the structure the grammar asks for.
    UnexpectedInput,
}

/// A parse failure: what went wrong and where. `at` is the character
/// position of the unconsumed remainder that caused the failure. `hard`
/// failures abort the whole parse; soft ones let an enclosing choice try
/// its next alternative.
#[derive(Clone, Copy, Debug, PartialEq, Eq, Structural)]
pub struct ParseError {
    /// Why the parse failed.
    pub kind: ParseErrorKind,
    /// The character position of the offending remainder.
    pub at: usize,
    /// Whether the failure aborts the whole parse.
    pub hard: bool,
}

/// The spec-level outcome of a parsing function: the parsed value and the
/// position after it, or a failure.
pub enum PRes<T> {
    /// The parse succeeded: the value and the next position.
    Got { v: T, next: nat },
    /// The parse failed at `at`.
    Fail { kind: ParseErrorKind, at: nat, hard: bool },
}

/// A soft structural mismatch at `at`.
pub open spec fn soft<T>(at: nat) -> PRes<T> {
    PRes::Fail { kind: ParseErrorKind::UnexpectedInput, at, hard: false }
}

/// Whether a character is a digit `1-9`.
pub open spec fn is_nonzero_digit(c: char) -> bool {
    49 <= c as int <= 57
}

/// Whether a character is a digit `0-9`.
pub open spec fn is_digit(c: char) -> bool {
    48 <= c as int <= 57
}

/// Whether a character is a lowercase letter `a-z`.
pub open spec fn is_lower_letter(c: char) -> bool {
    97 <= c as int <= 122
}

/// The numeric value of a digit character.
pub open spec fn digit_value(c: char) -> int {
    c as int - 48
}

/// Whether a character may stand escaped after a backslash inside a
/// character list.
pub open spec fn is_escapable(c: char) -> bool {
    c == '\\' || c == '{' || c == '}' || c == '[' || c == ']' || c == '(' || c == ')'
}

/// What `nonzero_digit` yields: one digit `1-9`.
pub open spec fn spec_nonzero_digit(s: Seq<char>, pos: nat) -> PRes<char> {
    if pos < s.len() && is_nonzero_digit(s[pos as int]) {
        PRes::Got { v: s[pos as int], next: pos + 1 }
    } else {
        soft(pos)
    }
}

/// What `digit` yields: one digit `0-9`.
pub open spec fn spec_digit(s: Seq<char>, pos: nat) -> PRes<char> {
    if pos < s.len() && is_digit(s[pos as int]) {
        PRes::Got { v: s[pos as int], next: pos + 1 }
    } else {
        soft(pos)
    }
}

/// What `letter` yields: one lowercase letter `a-z`.
pub open spec fn spec_letter(s: Seq<char>, pos: nat) -> PRes<char> {
    if pos < s.len() && is_lower_letter(s[pos as int]) {
        PRes::Got { v: s[pos as int], next: pos + 1 }
    } else {
        soft(pos)
    }
}

/// What `not_escaped` yields: one character that is neither a backslash
/// nor a structural character.
pub open spec fn spec_not_escaped(s: Seq<char>, pos: nat) -> PRes<char> {
    if pos < s.len() && !is_escapable(s[pos as int]) {
        PRes::Got { v: s[pos as int], next: pos + 1 }
    } else {
        soft(pos)
    }
}

/// Parse one digit `1-9`.
pub fn nonzero_digit(s: &Vec<char>, pos: usize) -> (r: Result<(char, usize), ParseError>)
    requires
        pos <= s@.len(),
    ensures
        ({
            let sr = spec_nonzero_digit(s@, pos as nat);
            match r {
                Ok((v, next)) => sr == (PRes::Got { v, next: next as nat }) && pos < next
                    <= s@.len(),
                Err(e) => sr == (PRes::<char>::Fail {
                    kind: e.kind,
                    at: e.at as nat,
                    hard: e.hard,
                }),
            }
        }),
{
    if pos < s.len() {
        let c = s[pos];
        if '1' <= c && c <= '9' {
            return Ok((c, pos + 1));
        }
    }
    Err(ParseError { kind: ParseErrorKind::UnexpectedInput, at: pos, hard: false })
}

/// Parse one digit `0-9`.
pub fn digit(s: &Vec<char>, pos: usize) -> (r: Result<(char, usize), ParseError>)
    requires
        pos <= s@.len(),
    ensures
        ({
            let sr = spec_digit(s@, pos as nat);
            match r {
                Ok((v, next)) => sr == (PRes::Got { v, next: next as nat }) && pos < next
                    <= s@.len(),
                Err(e) => sr == (PRes::<char>::Fail {
                    kind: e.kind,
                    at: e.at as nat,
                    hard: e.hard,
                }),
            }
        }),
{
    if pos < s.len() {
        let c = s[pos];
        if '0' <= c && c <= '9' {
            return Ok((c, pos + 1));
        }
    }
    Err(ParseError { kind: ParseErrorKind::UnexpectedInput, at: pos, hard: false })
}

/// Parse one lowercase letter `a-z`.
pub fn letter(s: &Vec<char>, pos: usize) -> (r: Result<(char, usize), ParseError>)
    requires
        pos <= s@.len(),
    ensures
        ({
            let sr = spec_letter(s@, pos as nat);
            match r {
                Ok((v, next)) => sr == (PRes::Got { v, next: next as nat }) && pos < next
                    <= s@.len(),
                Err(e) => sr == (PRes::<char>::Fail {
                    kind: e.kind,
                    at: e.at as nat,
                    hard: e.hard,
                }),
            }
        }),
{
    if pos < s.len() {
        let c = s[pos];
        if 'a' <= c && c <= 'z' {
            return Ok((c, pos + 1));
        }
    }
    Err(ParseError { kind: ParseErrorKind::UnexpectedInput, at: pos, hard: false })
}

/// Whether a character may stand escaped after a backslash.
fn escapable(c: char) -> (r: bool)
    ensures
        r == is_escapable(c),
{
    c == '\\' || c == '{' || c == '}' || c == '[' || c == ']' || c == '(' || c == ')'
}

/// Parse one character that is neither a backslash nor structural.
pub fn not_escaped(s: &Vec<char>, pos: usize) -> (r: Result<(char, usize), ParseError>)
    requires
        pos <= s@.len(),
    ensures
        ({
            let sr = spec_not_escaped(s@, pos as nat);
            match r {
                Ok((v, next)) => sr == (PRes::Got { v, next: next as nat }) && pos < next
                    <= s@.len(),
                Err(e) => sr == (PRes::<char>::Fail {
                    kind: e.kind,
                    at: e.at as nat,
                    hard: e.hard,
                }),
            }
        }),
{
    if pos < s.len() {
        let c = s[pos];
        if !escapable(c) {
            return Ok((c, pos + 1));
        }
    }
    Err(ParseError { kind: ParseErrorKind::UnexpectedInput, at: pos, hard: false })
}

/// Whether the characters of `w` stand at `pos` in `s`, exactly.
pub open spec fn match_at(s: Seq<char>, pos: nat, w: Seq<char>) -> bool {
    pos + w.len() <= s.len() && forall|i: int|
        0 <= i < w.len() ==> s[pos + i] == #[trigger] w[i]
}

/// Whether the characters of the lowercase keyword `w` stand at `pos` in
/// `s`, compared case-insensitively (ASCII).
pub open spec fn match_ci_at(s: Seq<char>, pos: nat, w: Seq<char>) -> bool {
    pos + w.len() <= s.len() && forall|i: int|
        0 <= i < w.len() ==> ascii_lower(s[pos + i]) == #[trigger] w[i]
}

/// Test whether the characters of `w` stand at `pos` in `s`, exactly.
fn tag_at(s: &Vec<char>, pos: usize, w: &Vec<char>) -> (r: bool)
    requires
        pos <= s@.len(),
    ensures
        r == match_at(s@, pos as nat, w@),
{
    if s.len() - pos < w.len() {
        return false;
    }
    let mut i: usize = 0;
    while i < w.len()
        invariant
            pos + w@.len() <= s@.len(),
            s@.len() <= usize::MAX,
            i <= w@.len(),
            forall|j: int| 0 <= j < i ==> s@[pos + j] == #[trigger] w@[j],
        decreases w@.len() - i,
    {
        if s[pos + i] != w[i] {
            return false;
        }
        i = i + 1;
    }
    true
}

/// Test whether the lowercase keyword `w` stands at `pos` in `s`,
/// compared case-insensitively (ASCII).
fn tag_ci_at(s: &Vec<char>, pos: usize, w: &Vec<char>) -> (r: bool)
    requires
        pos <= s@.len(),
    ensures
        r == match_ci_at(s@, pos as nat, w@),
{
    if s.len() - pos < w.len() {
        return false;
    }
    let mut i: usize = 0;
    while i < w.len()
        invariant
            pos + w@.len() <= s@.len(),
            s@.len() <= usize::MAX,
            i <= w@.len(),
            forall|j: int| 0 <= j < i ==> ascii_lower(s@[pos + j]) == #[trigger] w@[j],
        decreases w@.len() - i,
    {
        if to_ascii_lower(s[pos + i]) != w[i] {
            return false;
        }
        i = i + 1;
    }
    true
}


/// Where a run of characters is cut by `pos`, counted from `pos`: the
/// remaining length, 0 once past the end.
pub open spec fn rem(s: Seq<char>, pos: nat) -> nat {
    if pos <= s.len() {
        (s.len() - pos) as nat
    } else {
        0
    }
}

/// The end of the run of lowercase letters starting at `pos`.
pub open spec fn run_letters(s: Seq<char>, pos: nat) -> nat
    decreases rem(s, pos),
{
    if pos < s.len() && is_lower_letter(s[pos as int]) {
        run_letters(s, pos + 1)
    } else {
        pos
    }
}

/// The end of the run of digits starting at `pos`.
pub open spec fn run_digits(s: Seq<char>, pos: nat) -> nat
    decreases rem(s, pos),
{
    if pos < s.len() && is_digit(s[pos as int]) {
        run_digits(s, pos + 1)
    } else {
        pos
    }
}

/// A digit run ends where it starts or later, within the input.
pub proof fn lemma_run_digits_bounds(s: Seq<char>, pos: nat)
    requires
        pos <= s.len(),
    ensures
        pos <= run_digits(s, pos) <= s.len(),
    decreases rem(s, pos),
{
    if pos < s.len() && is_digit(s[pos as int]) {
        lemma_run_digits_bounds(s, pos + 1);
    }
}

/// What `identifier` yields: one or more lowercase letters followed by
/// zero or more digits, as one name.
pub open spec fn spec_identifier(s: Seq<char>, pos: nat) -> PRes<Seq<char>> {
    if pos < s.len() && is_lower_letter(s[pos as int]) {
        let e1 = run_letters(s, pos);
        let e2 = run_digits(s, e1);
        PRes::Got { v: s.subrange(pos as int, e2 as int), next: e2 }
    } else {
        soft(pos)
    }
}

/// Parse an identifier: letters then digits, `foo1`.
pub fn identifier(s: &Vec<char>, pos: usize) -> (r: Result<(String, usize), ParseError>)
    requires
        pos <= s@.len(),
    ensures
        ({
            let sr = spec_identifier(s@, pos as nat);
            match r {
                Ok((v, next)) => sr == (PRes::Got { v: v@, next: next as nat }) && pos
                    < next <= s@.len(),
                Err(e) => sr == (PRes::<Seq<char>>::Fail {
                    kind: e.kind,
                    at: e.at as nat,
                    hard: e.hard,
                }),
            }
        }),
{
    if !(pos < s.len() && 'a' <= s[pos] && s[pos] <= 'z') {
        return Err(ParseError { kind: ParseErrorKind::UnexpectedInput, at: pos, hard: false });
    }
    let mut p: usize = pos;
    while p < s.len() && 'a' <= s[p] && s[p] <= 'z'
        invariant
            pos <= p <= s@.len(),
            run_letters(s@, pos as nat) == run_letters(s@, p as nat),
        decreases s@.len() - p,
    {
        p = p + 1;
    }
    let e1 = p;
    while p < s.len() && '0' <= s[p] && s[p] <= '9'
        invariant
            e1 <= p <= s@.len(),
            run_digits(s@, e1 as nat) == run_digits(s@, p as nat),
        decreases s@.len() - p,
    {
        p = p + 1;
    }
    let mut name: Vec<char> = Vec::new();
    let mut j: usize = pos;
    while j < p
        invariant
            pos <= j <= p <= s@.len(),
            name@ == s@.subrange(pos as int, j as int),
        decreases p - j,
    {
        name.push(s[j]);
        proof {
            assert(name@ =~= s@.subrange(pos as int, j + 1));
        }
        j = j + 1;
    }
    let out = chars_to_string(&name);
    Ok((out, p))
}

/// What `anychar_escaped_transform` yields: the longest run of ordinary
/// and escaped characters from `pos`, with escapes resolved. The run ends
/// at an unescaped structural character or at the end of input; a
/// backslash not followed by an escapable character is a hard error.
pub open spec fn spec_escaped_transform(s: Seq<char>, pos: nat) -> PRes<Seq<char>>
    decreases rem(s, pos),
{
    if pos >= s.len() {
        PRes::Got { v: Seq::empty(), next: pos }
    } else if !is_escapable(s[pos as int]) {
        match spec_escaped_transform(s, pos + 1) {
            PRes::Got { v, next } => PRes::Got { v: seq![s[pos as int]] + v, next },
            PRes::Fail { kind, at, hard } => PRes::Fail { kind, at, hard },
        }
    } else if s[pos as int] == '\\' {
        if pos + 1 < s.len() && is_escapable(s[pos + 1 as int]) {
            match spec_escaped_transform(s, pos + 2) {
                PRes::Got { v, next } => PRes::Got { v: seq![s[pos + 1 as int]] + v, next },
                PRes::Fail { kind, at, hard } => PRes::Fail { kind, at, hard },
            }
        } else {
            PRes::Fail { kind: ParseErrorKind::InvalidEscape, at: pos, hard: true }
        }
    } else {
        PRes::Got { v: Seq::empty(), next: pos }
    }
}

/// Collect ordinary and escaped characters from `pos` on, resolving
/// escapes, stopping at an unescaped structural character.
fn escaped_transform_chars(s: &Vec<char>, pos: usize) -> (r: Result<
    (Vec<char>, usize),
    ParseError,
>)
    requires
        pos <= s@.len(),
    ensures
        ({
            let sr = spec_escaped_transform(s@, pos as nat);
            match r {
                Ok((v, next)) => sr == (PRes::Got { v: v@, next: next as nat }) && pos
                    <= next <= s@.len(),
                Err(e) => sr == (PRes::<Seq<char>>::Fail {
                    kind: e.kind,
                    at: e.at as nat,
                    hard: e.hard,
                }),
            }
        }),
    decreases s@.len() - pos,
{
    if pos >= s.len() {
        return Ok((Vec::new(), pos));
    }
    let c = s[pos];
    if !escapable(c) {
        match escaped_transform_chars(s, pos + 1) {
            Ok((v, next)) => {
                let mut out: Vec<char> = Vec::new();
                out.push(c);
                let mut v = v;
                out.append(&mut v);
                Ok((out, next))
            },
            Err(e) => Err(e),
        }
    } else if c == '\\' {
        if pos + 1 < s.len() && escapable(s[pos + 1]) {
            let esc = s[pos + 1];
            match escaped_transform_chars(s, pos + 2) {
                Ok((v, next)) => {
                    let mut out: Vec<char> = Vec::new();
                    out.push(esc);
                    let mut v = v;
                    out.append(&mut v);
                    Ok((out, next))
                },
                Err(e) => Err(e),
            }
        } else {
            Err(ParseError { kind: ParseErrorKind::InvalidEscape, at: pos, hard: true })
        }
    } else {
        Ok((Vec::new(), pos))
    }
}

/// Parse a run of ordinary and escaped characters, resolving escapes.
pub fn anychar_escaped_transform(s: &Vec<char>, pos: usize) -> (r: Result<
    (String, usize),
    ParseError,
>)
    requires
        pos <= s@.len(),
    ensures
        ({
            let sr = spec_escaped_transform(s@, pos as nat);
            match r {
                Ok((v, next)) => sr == (PRes::Got { v: v@, next: next as nat }) && pos
                    <= next <= s@.len(),
                Err(e) => sr == (PRes::<Seq<char>>::Fail {
                    kind: e.kind,
                    at: e.at as nat,
                    hard: e.hard,
                }),
            }
        }),
{
    match escaped_transform_chars(s, pos) {
        Ok((v, next)) => Ok((chars_to_string(&v), next)),
        Err(e) => Err(e),
    }
}

/// What a label or repeat count yields: a number 1..=99, one nonzero
/// digit optionally followed by one more digit.
pub open spec fn spec_number_1_99(s: Seq<char>, pos: nat) -> PRes<u8> {
    if pos < s.len() && is_nonzero_digit(s[pos as int]) {
        if pos + 1 < s.len() && is_digit(s[pos + 1 as int]) {
            PRes::Got {
                v: (10 * digit_value(s[pos as int]) + digit_value(s[pos + 1 as int])) as u8,
                next: pos + 2,
            }
        } else {
            PRes::Got { v: digit_value(s[pos as int]) as u8, next: pos + 1 }
        }
    } else {
        soft(pos)
    }
}

/// The numeric value of one digit character.
fn digit_val(c: char) -> (r: u8)
    requires
        is_digit(c),
    ensures
        r as int == digit_value(c),
{
    match c {
        '0' => 0,
        '1' => 1,
        '2' => 2,
        '3' => 3,
        '4' => 4,
        '5' => 5,
        '6' => 6,
        '7' => 7,
        '8' => 8,
        _ => 9,
    }
}

/// Parse a number 1..=99.
fn number_1_99(s: &Vec<char>, pos: usize) -> (r: Result<(u8, usize), ParseError>)
    requires
        pos <= s@.len(),
    ensures
        ({
            let sr = spec_number_1_99(s@, pos as nat);
            match r {
                Ok((v, next)) => sr == (PRes::Got { v, next: next as nat }) && pos < next
                    <= s@.len(),
                Err(e) => sr == (PRes::<u8>::Fail {
                    kind: e.kind,
                    at: e.at as nat,
                    hard: e.hard,
                }),
            }
        }),
{
    if pos < s.len() && '1' <= s[pos] && s[pos] <= '9' {
        let d1 = digit_val(s[pos]);
        if pos + 1 < s.len() && '0' <= s[pos + 1] && s[pos + 1] <= '9' {
            let d2 = digit_val(s[pos + 1]);
            Ok((10 * d1 + d2, pos + 2))
        } else {
            Ok((d1, pos + 1))
        }
    } else {
        Err(ParseError { kind: ParseErrorKind::UnexpectedInput, at: pos, hard: false })
    }
}

/// What `repeat` yields: `!` followed by a count 1..=99.
pub open spec fn spec_repeat(s: Seq<char>, pos: nat) -> PRes<u8> {
    if pos < s.len() && s[pos as int] == '!' {
        spec_number_1_99(s, pos + 1)
    } else {
        soft(pos)
    }
}

/// Parse a repeat count, `!4`.
pub fn repeat(s: &Vec<char>, pos: usize) -> (r: Result<(u8, usize), ParseError>)
    requires
        pos <= s@.len(),
    ensures
        ({
            let sr = spec_repeat(s@, pos as nat);
            match r {
                Ok((v, next)) => sr == (PRes::Got { v, next: next as nat }) && pos < next
                    <= s@.len(),
                Err(e) => sr == (PRes::<u8>::Fail {
                    kind: e.kind,
                    at: e.at as nat,
                    hard: e.hard,
                }),
            }
        }),
{
    if pos < s.len() && s[pos] == '!' {
        number_1_99(s, pos + 1)
    } else {
        Err(ParseError { kind: ParseErrorKind::UnexpectedInput, at: pos, hard: false })
    }
}

/// What `label` yields: a number 1..=99 followed by `@`.
pub open spec fn spec_label(s: Seq<char>, pos: nat) -> PRes<u8> {
    match spec_number_1_99(s, pos) {
        PRes::Got { v, next } => {
            if next < s.len() && s[next as int] == '@' {
                PRes::Got { v, next: next + 1 }
            } else {
                soft(pos)
            }
        },
        PRes::Fail { .. } => soft(pos),
    }
}

/// Parse a label, `7@`.
pub fn label(s: &Vec<char>, pos: usize) -> (r: Result<(u8, usize), ParseError>)
    requires
        pos <= s@.len(),
    ensures
        ({
            let sr = spec_label(s@, pos as nat);
            match r {
                Ok((v, next)) => sr == (PRes::Got { v, next: next as nat }) && pos < next
                    <= s@.len(),
                Err(e) => sr == (PRes::<u8>::Fail {
                    kind: e.kind,
                    at: e.at as nat,
                    hard: e.hard,
                }),
            }
        }),
{
    match number_1_99(s, pos) {
        Ok((v, next)) => {
            if next < s.len() && s[next] == '@' {
                Ok((v, next + 1))
            } else {
                Err(ParseError { kind: ParseErrorKind::UnexpectedInput, at: pos, hard: false })
            }
        },
        Err(_) => Err(ParseError {
            kind: ParseErrorKind::UnexpectedInput,
            at: pos,
            hard: false,
        }),
    }
}

/// What `character_list` yields: `[`, a possibly empty escaped run, `]`.
/// A missing `]` is a hard error.
pub open spec fn spec_character_list(s: Seq<char>, pos: nat) -> PRes<Seq<char>> {
    if pos < s.len() && s[pos as int] == '[' {
        match spec_escaped_transform(s, pos + 1) {
            PRes::Got { v, next } => {
                if next < s.len() && s[next as int] == ']' {
                    PRes::Got { v, next: next + 1 }
                } else {
                    PRes::Fail {
                        kind: ParseErrorKind::UnterminatedConstruct,
                        at: next,
                        hard: true,
                    }
                }
            },
            PRes::Fail { kind, at, hard } => PRes::Fail { kind, at, hard },
        }
    } else {
        soft(pos)
    }
}

/// Parse a character list, `[abc]`, with escapes resolved.
pub fn character_list(s: &Vec<char>, pos: usize) -> (r: Result<(String, usize), ParseError>)
    requires
        pos <= s@.len(),
    ensures
        ({
            let sr = spec_character_list(s@, pos as nat);
            match r {
                Ok((v, next)) => sr == (PRes::Got { v: v@, next: next as nat }) && pos
                    < next <= s@.len(),
                Err(e) => sr == (PRes::<Seq<char>>::Fail {
                    kind: e.kind,
                    at: e.at as nat,
                    hard: e.hard,
                }),
            }
        }),
{
    if pos < s.len() && s[pos] == '[' {
        match escaped_transform_chars(s, pos + 1) {
            Ok((v, next)) => {
                if next < s.len() && s[next] == ']' {
                    Ok((chars_to_string(&v), next + 1))
                } else {
                    Err(ParseError {
                        kind: ParseErrorKind::UnterminatedConstruct,
                        at: next,
                        hard: true,
                    })
                }
            },
            Err(e) => Err(e),
        }
    } else {
        Err(ParseError { kind: ParseErrorKind::UnexpectedInput, at: pos, hard: false })
    }
}


/// The keyword `word`.
pub open spec fn kw_word() -> Seq<char> {
    seq!['w', 'o', 'r', 'd']
}

/// The keyword `letter`.
pub open spec fn kw_letter() -> Seq<char> {
    seq!['l', 'e', 't', 't', 'e', 'r']
}

/// The keyword `symbol`.
pub open spec fn kw_symbol() -> Seq<char> {
    seq!['s', 'y', 'm', 'b', 'o', 'l']
}

/// The keyword `digit`.
pub open spec fn kw_digit() -> Seq<char> {
    seq!['d', 'i', 'g', 'i', 't']
}

/// The keyword `min`.
pub open spec fn kw_min() -> Seq<char> {
    seq!['m', 'i', 'n']
}

/// The keyword `max`.
pub open spec fn kw_max() -> Seq<char> {
    seq!['m', 'a', 'x']
}

/// The keyword `reversed`.
pub open spec fn kw_reversed() -> Seq<char> {
    seq!['r', 'e', 'v', 'e', 'r', 's', 'e', 'd']
}

/// The keyword `upper`.
pub open spec fn kw_upper() -> Seq<char> {
    seq!['u', 'p', 'p', 'e', 'r']
}

/// The keyword `lower`.
pub open spec fn kw_lower() -> Seq<char> {
    seq!['l', 'o', 'w', 'e', 'r']
}

/// The keyword `capitalizefirst`.
pub open spec fn kw_capitalizefirst() -> Seq<char> {
    seq!['c', 'a', 'p', 'i', 't', 'a', 'l', 'i', 'z', 'e', 'f', 'i', 'r', 's', 't']
}

/// The keyword `capitalizelast`.
pub open spec fn kw_capitalizelast() -> Seq<char> {
    seq!['c', 'a', 'p', 'i', 't', 'a', 'l', 'i', 'z', 'e', 'l', 'a', 's', 't']
}

/// The keyword `capitalizenotfirst`.
pub open spec fn kw_capitalizenotfirst() -> Seq<char> {
    seq!['c', 'a', 'p', 'i', 't', 'a', 'l', 'i', 'z', 'e', 'n', 'o', 't', 'f', 'i', 'r', 's', 't']
}

/// The keyword `capitalizenotlast`.
pub open spec fn kw_capitalizenotlast() -> Seq<char> {
    seq!['c', 'a', 'p', 'i', 't', 'a', 'l', 'i', 'z', 'e', 'n', 'o', 't', 'l', 'a', 's', 't']
}

/// The keyword `word` as a vector.
fn kwv_word() -> (r: Vec<char>)
    ensures
        r@ == kw_word(),
{
    let r = vec!['w', 'o', 'r', 'd'];
    proof {
        assert(r@ =~= kw_word());
    }
    r
}

/// The keyword `letter` as a vector.
fn kwv_letter() -> (r: Vec<char>)
    ensures
        r@ == kw_letter(),
{
    let r = vec!['l', 'e', 't', 't', 'e', 'r'];
    proof {
        assert(r@ =~= kw_letter());
    }
    r
}

/// The keyword `symbol` as a vector.
fn kwv_symbol() -> (r: Vec<char>)
    ensures
        r@ == kw_symbol(),
{
    let r = vec!['s', 'y', 'm', 'b', 'o', 'l'];
    proof {
        assert(r@ =~= kw_symbol());
    }
    r
}

/// The keyword `digit` as a vector.
fn kwv_digit() -> (r: Vec<char>)
    ensures
        r@ == kw_digit(),
{
    let r = vec!['d', 'i', 'g', 'i', 't'];
    proof {
        assert(r@ =~= kw_digit());
    }
    r
}

/// The keyword `min` as a vector.
fn kwv_min() -> (r: Vec<char>)
    ensures
        r@ == kw_min(),
{
    let r = vec!['m', 'i', 'n'];
    proof {
        assert(r@ =~= kw_min());
    }
    r
}

/// The keyword `max` as a vector.
fn kwv_max() -> (r: Vec<char>)
    ensures
        r@ == kw_max(),
{
    let r = vec!['m', 'a', 'x'];
    proof {
        assert(r@ =~= kw_max());
    }
    r
}

/// The keyword `reversed` as a vector.
fn kwv_reversed() -> (r: Vec<char>)
    ensures
        r@ == kw_reversed(),
{
    let r = vec!['r', 'e', 'v', 'e', 'r', 's', 'e', 'd'];
    proof {
        assert(r@ =~= kw_reversed());
    }
    r
}

/// The keyword `upper` as a vector.
fn kwv_upper() -> (r: Vec<char>)
    ensures
        r@ == kw_upper(),
{
    let r = vec!['u', 'p', 'p', 'e', 'r'];
    proof {
        assert(r@ =~= kw_upper());
    }
    r
}

/// The keyword `lower` as a vector.
fn kwv_lower() -> (r: Vec<char>)
    ensures
        r@ == kw_lower(),
{
    let r = vec!['l', 'o', 'w', 'e', 'r'];
    proof {
        assert(r@ =~= kw_lower());
    }
    r
}

/// The keyword `capitalizefirst` as a vector.
fn kwv_capitalizefirst() -> (r: Vec<char>)
    ensures
        r@ == kw_capitalizefirst(),
{
    let r = vec!['c', 'a', 'p', 'i', 't', 'a', 'l', 'i', 'z', 'e', 'f', 'i', 'r', 's', 't'];
    proof {
        assert(r@ =~= kw_capitalizefirst());
    }
    r
}

/// The keyword `capitalizelast` as a vector.
fn kwv_capitalizelast() -> (r: Vec<char>)
    ensures
        r@ == kw_capitalizelast(),
{
    let r = vec!['c', 'a', 'p', 'i', 't', 'a', 'l', 'i', 'z', 'e', 'l', 'a', 's', 't'];
    proof {
        assert(r@ =~= kw_capitalizelast());
    }
    r
}

/// The keyword `capitalizenotfirst` as a vector.
fn kwv_capitalizenotfirst() -> (r: Vec<char>)
    ensures
        r@ == kw_capitalizenotfirst(),
{
    let r = vec![
        'c', 'a', 'p', 'i', 't', 'a', 'l', 'i', 'z', 'e', 'n', 'o', 't', 'f', 'i', 'r',
        's', 't',
    ];
    proof {
        assert(r@ =~= kw_capitalizenotfirst());
    }
    r
}

/// The keyword `capitalizenotlast` as a vector.
fn kwv_capitalizenotlast() -> (r: Vec<char>)
    ensures
        r@ == kw_capitalizenotlast(),
{
    let r = vec![
        'c', 'a', 'p', 'i', 't', 'a', 'l', 'i', 'z', 'e', 'n', 'o', 't', 'l', 'a', 's',
        't',
    ];
    proof {
        assert(r@ =~= kw_capitalizenotlast());
    }
    r
}

/// Parse a bare pipe, `|`.
pub fn pipe(s: &Vec<char>, pos: usize) -> (r: Result<((), usize), ParseError>)
    requires
        pos <= s@.len(),
    ensures
        r is Ok <==> pos < s@.len() && s@[pos as int] == '|',
        r is Ok ==> r->Ok_0.1 == pos + 1,
{
    if pos < s.len() && s[pos] == '|' {
        Ok(((), pos + 1))
    } else {
        Err(ParseError { kind: ParseErrorKind::UnexpectedInput, at: pos, hard: false })
    }
}

/// Parse a spaced pipe, one space, `|`, one space.
pub fn pipe_spaced(s: &Vec<char>, pos: usize) -> (r: Result<((), usize), ParseError>)
    requires
        pos <= s@.len(),
    ensures
        r is Ok <==> match_at(s@, pos as nat, seq![' ', '|', ' ']),
        r is Ok ==> r->Ok_0.1 == pos + 3,
{
    let n = s.len();
    let w = vec![' ', '|', ' '];
    proof {
        assert(w@ =~= seq![' ', '|', ' ']);
    }
    if tag_at(s, pos, &w) {
        Ok(((), pos + 3))
    } else {
        Err(ParseError { kind: ParseErrorKind::UnexpectedInput, at: pos, hard: false })
    }
}

/// Parse a bare equals sign.
pub fn equals(s: &Vec<char>, pos: usize) -> (r: Result<((), usize), ParseError>)
    requires
        pos <= s@.len(),
    ensures
        r is Ok <==> pos < s@.len() && s@[pos as int] == '=',
        r is Ok ==> r->Ok_0.1 == pos + 1,
{
    if pos < s.len() && s[pos] == '=' {
        Ok(((), pos + 1))
    } else {
        Err(ParseError { kind: ParseErrorKind::UnexpectedInput, at: pos, hard: false })
    }
}

/// Parse a spaced equals sign, one space, `=`, one space.
pub fn equals_spaced(s: &Vec<char>, pos: usize) -> (r: Result<((), usize), ParseError>)
    requires
        pos <= s@.len(),
    ensures
        r is Ok <==> match_at(s@, pos as nat, seq![' ', '=', ' ']),
        r is Ok ==> r->Ok_0.1 == pos + 3,
{
    let n = s.len();
    let w = vec![' ', '=', ' '];
    proof {
        assert(w@ =~= seq![' ', '=', ' ']);
    }
    if tag_at(s, pos, &w) {
        Ok(((), pos + 3))
    } else {
        Err(ParseError { kind: ParseErrorKind::UnexpectedInput, at: pos, hard: false })
    }
}

/// Parse either form of equals sign, bare first.
pub fn equals_alt(s: &Vec<char>, pos: usize) -> (r: Result<((), usize), ParseError>)
    requires
        pos <= s@.len(),
    ensures
        r is Ok <==> (pos < s@.len() && s@[pos as int] == '=') || match_at(
            s@,
            pos as nat,
            seq![' ', '=', ' '],
        ),
        r is Ok && pos < s@.len() && s@[pos as int] == '=' ==> r->Ok_0.1 == pos + 1,
        r is Ok && !(pos < s@.len() && s@[pos as int] == '=') ==> r->Ok_0.1 == pos + 3,
{
    match equals(s, pos) {
        Ok(v) => Ok(v),
        Err(_) => equals_spaced(s, pos),
    }
}

/// What `filter_expr` yields: a pipe (bare or spaced), then one filter
/// name, case-insensitively.
pub open spec fn spec_filter_expr(s: Seq<char>, pos: nat) -> PRes<Filter> {
    if pos < s.len() && s[pos as int] == '|' {
        spec_filter_name(s, pos + 1, pos)
    } else if match_at(s, pos, seq![' ', '|', ' ']) {
        spec_filter_name(s, pos + 3, pos)
    } else {
        soft(pos)
    }
}

/// The filter name standing at `p`, tried in declaration order.
pub open spec fn spec_filter_name(s: Seq<char>, p: nat, start: nat) -> PRes<Filter> {
    if match_ci_at(s, p, kw_reversed()) {
        PRes::Got { v: Filter::Reversed, next: p + 8 }
    } else if match_ci_at(s, p, kw_upper()) {
        PRes::Got { v: Filter::Upper, next: p + 5 }
    } else if match_ci_at(s, p, kw_lower()) {
        PRes::Got { v: Filter::Lower, next: p + 5 }
    } else if match_ci_at(s, p, kw_capitalizefirst()) {
        PRes::Got { v: Filter::CapitalizeFirst, next: p + 15 }
    } else if match_ci_at(s, p, kw_capitalizelast()) {
        PRes::Got { v: Filter::CapitalizeLast, next: p + 14 }
    } else if match_ci_at(s, p, kw_capitalizenotfirst()) {
        PRes::Got { v: Filter::CapitalizeNotFirst, next: p + 18 }
    } else if match_ci_at(s, p, kw_capitalizenotlast()) {
        PRes::Got { v: Filter::CapitalizeNotLast, next: p + 17 }
    } else {
        soft(start)
    }
}

/// Parse one filter, `|upper` or ` | upper`.
pub fn filter_expr(s: &Vec<char>, pos: usize) -> (r: Result<(Filter, usize), ParseError>)
    requires
        pos <= s@.len(),
    ensures
        ({
            let sr = spec_filter_expr(s@, pos as nat);
            match r {
                Ok((v, next)) => sr == (PRes::Got { v, next: next as nat }) && pos < next
                    <= s@.len(),
                Err(e) => sr == (PRes::<Filter>::Fail {
                    kind: e.kind,
                    at: e.at as nat,
                    hard: e.hard,
                }),
            }
        }),
{
    let n = s.len();
    let p: usize = match pipe(s, pos) {
        Ok((_, next)) => next,
        Err(_) => {
            match pipe_spaced(s, pos) {
                Ok((_, next)) => next,
                Err(_) => {
                    return Err(ParseError {
                        kind: ParseErrorKind::UnexpectedInput,
                        at: pos,
                        hard: false,
                    });
                },
            }
        },
    };
    let kw = kwv_reversed();
    if tag_ci_at(s, p, &kw) {
        return Ok((Filter::Reversed, p + 8));
    }
    let kw = kwv_upper();
    if tag_ci_at(s, p, &kw) {
        return Ok((Filter::Upper, p + 5));
    }
    let kw = kwv_lower();
    if tag_ci_at(s, p, &kw) {
        return Ok((Filter::Lower, p + 5));
    }
    let kw = kwv_capitalizefirst();
    if tag_ci_at(s, p, &kw) {
        return Ok((Filter::CapitalizeFirst, p + 15));
    }
    let kw = kwv_capitalizelast();
    if tag_ci_at(s, p, &kw) {
        return Ok((Filter::CapitalizeLast, p + 14));
    }
    let kw = kwv_capitalizenotfirst();
    if tag_ci_at(s, p, &kw) {
        return Ok((Filter::CapitalizeNotFirst, p + 18));
    }
    let kw = kwv_capitalizenotlast();
    if tag_ci_at(s, p, &kw) {
        return Ok((Filter::CapitalizeNotLast, p + 17));
    }
    Err(ParseError { kind: ParseErrorKind::UnexpectedInput, at: pos, hard: false })
}

/// A value clamped to `u32` range.
pub open spec fn sat_u32(x: int) -> int {
    if x > 4294967295 {
        4294967295
    } else if x < 0 {
        0
    } else {
        x
    }
}

/// The value of the digit run `[pos, end)`, folded left with saturation.
pub open spec fn digits_val_acc(s: Seq<char>, pos: nat, end: nat, acc: int) -> int
    decreases rem(s, pos) + 1 - (if end <= s.len() { rem(s, end) + 1 } else { 0 }),
    when pos <= end <= s.len()
{
    if pos >= end {
        acc
    } else {
        digits_val_acc(s, pos + 1, end, sat_u32(acc * 10 + digit_value(s[pos as int])))
    }
}

/// What `key_value` yields: `min` or `max` (case-insensitively), an equals
/// sign (bare or spaced), and a number 0..=255. A larger number is a hard
/// error.
pub open spec fn spec_key_value(s: Seq<char>, pos: nat) -> PRes<KeyValue> {
    if match_ci_at(s, pos, kw_min()) {
        spec_key_value_num(s, pos + 3, pos, true)
    } else if match_ci_at(s, pos, kw_max()) {
        spec_key_value_num(s, pos + 3, pos, false)
    } else {
        soft(pos)
    }
}

/// The equals sign and number part of a key-value, after the key.
pub open spec fn spec_key_value_num(s: Seq<char>, p: nat, start: nat, is_min: bool) -> PRes<
    KeyValue,
> {
    if p < s.len() && (s[p as int] == '=' || match_at(s, p, seq![' ', '=', ' '])) {
        let q: nat = if s[p as int] == '=' {
            p + 1
        } else {
            p + 3
        };
        if q < s.len() && is_digit(s[q as int]) {
            let e = run_digits(s, q);
            let val = digits_val_acc(s, q, e, 0);
            if val <= 255 {
                PRes::Got {
                    v: if is_min {
                        KeyValue::Min(val as u8)
                    } else {
                        KeyValue::Max(val as u8)
                    },
                    next: e,
                }
            } else {
                PRes::Fail {
                    kind: ParseErrorKind::InvalidNumericLiteral(val as u32, 0, 255),
                    at: q,
                    hard: true,
                }
            }
        } else {
            soft(start)
        }
    } else {
        soft(start)
    }
}

/// The saturated fold stays within `u32` range.
pub proof fn lemma_digits_val_acc_range(s: Seq<char>, pos: nat, end: nat, acc: int)
    requires
        pos <= end <= s.len(),
        0 <= acc <= 4294967295,

    ensures
        0 <= digits_val_acc(s, pos, end, acc) <= 4294967295,
    decreases end - pos,
{
    if pos < end {
        lemma_digits_val_acc_range(s, pos + 1, end, sat_u32(acc * 10 + digit_value(s[pos as int])));
    }
}

/// Parse the digit run at `pos` (which must start with a digit) into its
/// saturated value and its end.
fn digits_value(s: &Vec<char>, pos: usize) -> (r: (u32, usize))
    requires
        pos < s@.len(),
        is_digit(s@[pos as int]),
    ensures
        r.0 as int == digits_val_acc(s@, pos as nat, run_digits(s@, pos as nat), 0),
        r.1 as nat == run_digits(s@, pos as nat),
        pos < r.1 <= s@.len(),
{
    proof {
        lemma_run_digits_bounds(s@, pos as nat);
    }
    let ghost e = run_digits(s@, pos as nat);
    let mut acc: u32 = 0;
    let mut j: usize = pos;
    while j < s.len() && '0' <= s[j] && s[j] <= '9'
        invariant
            pos <= j <= s@.len(),
            run_digits(s@, j as nat) == e,
            j <= e <= s@.len(),
            digits_val_acc(s@, j as nat, e, acc as int) == digits_val_acc(
                s@,
                pos as nat,
                e,
                0,
            ),
        decreases s@.len() - j,
    {
        proof {
            lemma_run_digits_bounds(s@, (j + 1) as nat);
        }
        let d = digit_val(s[j]);
        let t: u64 = (acc as u64) * 10 + (d as u64);
        acc = if t > 4294967295 {
            4294967295u32
        } else {
            t as u32
        };
        j = j + 1;
    }
    proof {
        assert(j as nat == e);
    }
    (acc, j)
}

/// Parse one key-value, `min=3` or `max = 11`.
pub fn key_value(s: &Vec<char>, pos: usize) -> (r: Result<(KeyValue, usize), ParseError>)
    requires
        pos <= s@.len(),
    ensures
        ({
            let sr = spec_key_value(s@, pos as nat);
            match r {
                Ok((v, next)) => sr == (PRes::Got { v, next: next as nat }) && pos < next
                    <= s@.len(),
                Err(e) => sr == (PRes::<KeyValue>::Fail {
                    kind: e.kind,
                    at: e.at as nat,
                    hard: e.hard,
                }),
            }
        }),
{
    let n = s.len();
    let kw = kwv_min();
    let is_min = tag_ci_at(s, pos, &kw);
    let kw2 = kwv_max();
    let is_max = !is_min && tag_ci_at(s, pos, &kw2);
    if !is_min && !is_max {
        return Err(ParseError { kind: ParseErrorKind::UnexpectedInput, at: pos, hard: false });
    }
    let p = pos + 3;
    let q: usize = match equals_alt(s, p) {
        Ok((_, next)) => next,
        Err(_) => {
            return Err(ParseError {
                kind: ParseErrorKind::UnexpectedInput,
                at: pos,
                hard: false,
            });
        },
    };
    if q < s.len() && '0' <= s[q] && s[q] <= '9' {
        proof {
            lemma_run_digits_bounds(s@, q as nat);
            lemma_digits_val_acc_range(s@, q as nat, run_digits(s@, q as nat), 0);
        }
        let (val, e) = digits_value(s, q);
        if val <= 255 {
            if is_min {
                Ok((KeyValue::Min(val as u8), e))
            } else {
                Ok((KeyValue::Max(val as u8), e))
            }
        } else {
            Err(ParseError {
                kind: ParseErrorKind::InvalidNumericLiteral(val, 0, 255),
                at: q,
                hard: true,
            })
        }
    } else {
        Err(ParseError { kind: ParseErrorKind::UnexpectedInput, at: pos, hard: false })
    }
}


/// The model of a definition table: each entry binds a name to the model
/// of its resolved body, in insertion order.
pub open spec fn defs_view(d: Seq<(String, Vec<ExpressionItem>)>) -> Seq<
    (Seq<char>, Seq<ExpressionItemV>),
> {
    Seq::new(d.len(), |i: int| (d[i].0@, items_view(d[i].1@)))
}

/// The first definition at or after index `j` whose name stands at `pos`,
/// as a custom source; an unknown name is a hard error.
pub open spec fn spec_find_def(
    s: Seq<char>,
    pos: nat,
    defs: Seq<(Seq<char>, Seq<ExpressionItemV>)>,
    j: nat,
) -> PRes<SourceV>
    decreases defs.len() - j when j <= defs.len()
{
    if j >= defs.len() {
        PRes::Fail { kind: ParseErrorKind::UnknownSource, at: pos, hard: true }
    } else if defs[j as int].0.len() > 0 && match_at(s, pos, defs[j as int].0) {
        PRes::Got {
            v: SourceV::Custom { name: defs[j as int].0, items: defs[j as int].1 },
            next: pos + defs[j as int].0.len(),
        }
    } else {
        spec_find_def(s, pos, defs, j + 1)
    }
}

/// What `source` yields, in resolution order: the four builtin keywords
/// (case-insensitively), then a character list, then the known definition
/// names (in insertion order, by exact prefix match). Anything else is an
/// unknown source, a hard error.
pub open spec fn spec_source(
    s: Seq<char>,
    pos: nat,
    defs: Seq<(Seq<char>, Seq<ExpressionItemV>)>,
) -> PRes<SourceV> {
    if match_ci_at(s, pos, kw_word()) {
        PRes::Got { v: SourceV::Word { min: None, max: None }, next: pos + 4 }
    } else if match_ci_at(s, pos, kw_letter()) {
        PRes::Got { v: SourceV::Letter, next: pos + 6 }
    } else if match_ci_at(s, pos, kw_symbol()) {
        PRes::Got { v: SourceV::Symbol, next: pos + 6 }
    } else if match_ci_at(s, pos, kw_digit()) {
        PRes::Got { v: SourceV::Digit, next: pos + 5 }
    } else {
        match spec_character_list(s, pos) {
            PRes::Got { v, next } => PRes::Got {
                v: SourceV::CharacterList { chars: v },
                next,
            },
            PRes::Fail { kind, at, hard } => {
                if hard {
                    PRes::Fail { kind, at, hard }
                } else {
                    spec_find_def(s, pos, defs, 0)
                }
            },
        }
    }
}

/// Find the first definition at or after `j` whose name stands at `pos`.
fn find_def(
    s: &Vec<char>,
    pos: usize,
    defs: &Vec<(String, Vec<ExpressionItem>)>,
    j: usize,
) -> (r: Result<(Source, usize), ParseError>)
    requires
        pos <= s@.len(),
        j <= defs@.len(),
    ensures
        ({
            let sr = spec_find_def(s@, pos as nat, defs_view(defs@), j as nat);
            match r {
                Ok((v, next)) => sr == (PRes::Got { v: source_view(v), next: next as nat })
                    && pos < next <= s@.len(),
                Err(e) => sr == (PRes::<SourceV>::Fail {
                    kind: e.kind,
                    at: e.at as nat,
                    hard: e.hard,
                }),
            }
        }),
    decreases defs@.len() - j,
{
    let n = s.len();
    if j >= defs.len() {
        return Err(ParseError { kind: ParseErrorKind::UnknownSource, at: pos, hard: true });
    }
    let name_chars = str_to_chars(defs[j].0.as_str());
    if name_chars.len() > 0 && tag_at(s, pos, &name_chars) {
        let items = clone_items_from(&defs[j].1, 0);
        proof {
            assert(defs[j as int].1@.skip(0) =~= defs[j as int].1@);
        }
        let src = Source::Custom(defs[j].0.clone(), items);
        Ok((src, pos + name_chars.len()))
    } else {
        find_def(s, pos, defs, j + 1)
    }
}

/// Parse a source: a builtin keyword, a character list, or a known
/// definition name.
pub fn source(
    s: &Vec<char>,
    pos: usize,
    defs: &Vec<(String, Vec<ExpressionItem>)>,
) -> (r: Result<(Source, usize), ParseError>)
    requires
        pos <= s@.len(),
    ensures
        ({
            let sr = spec_source(s@, pos as nat, defs_view(defs@));
            match r {
                Ok((v, next)) => sr == (PRes::Got { v: source_view(v), next: next as nat })
                    && pos < next <= s@.len(),
                Err(e) => sr == (PRes::<SourceV>::Fail {
                    kind: e.kind,
                    at: e.at as nat,
                    hard: e.hard,
                }),
            }
        }),
{
    let n = s.len();
    let kw = kwv_word();
    if tag_ci_at(s, pos, &kw) {
        return Ok((Source::Word(None, None), pos + 4));
    }
    let kw = kwv_letter();
    if tag_ci_at(s, pos, &kw) {
        return Ok((Source::Letter, pos + 6));
    }
    let kw = kwv_symbol();
    if tag_ci_at(s, pos, &kw) {
        return Ok((Source::Symbol, pos + 6));
    }
    let kw = kwv_digit();
    if tag_ci_at(s, pos, &kw) {
        return Ok((Source::Digit, pos + 5));
    }
    match character_list(s, pos) {
        Ok((chars, next)) => Ok((Source::CharacterList(chars), next)),
        Err(e) => {
            if e.hard {
                Err(e)
            } else {
                find_def(s, pos, defs, 0)
            }
        },
    }
}

/// What `labeled_source` yields: an optional label, then a source.
pub open spec fn spec_labeled_source(
    s: Seq<char>,
    pos: nat,
    defs: Seq<(Seq<char>, Seq<ExpressionItemV>)>,
) -> PRes<LabeledSourceV> {
    match spec_label(s, pos) {
        PRes::Got { v: l, next: p } => {
            match spec_source(s, p, defs) {
                PRes::Got { v: src, next } => PRes::Got {
                    v: LabeledSourceV { source: src, label: Some(l) },
                    next,
                },
                PRes::Fail { kind, at, hard } => PRes::Fail { kind, at, hard },
            }
        },
        PRes::Fail { .. } => {
            match spec_source(s, pos, defs) {
                PRes::Got { v: src, next } => PRes::Got {
                    v: LabeledSourceV { source: src, label: None },
                    next,
                },
                PRes::Fail { kind, at, hard } => PRes::Fail { kind, at, hard },
            }
        },
    }
}

/// Parse a labeled source, `1@symbol` or `word`.
pub fn labeled_source(
    s: &Vec<char>,
    pos: usize,
    defs: &Vec<(String, Vec<ExpressionItem>)>,
) -> (r: Result<(LabeledSource, usize), ParseError>)
    requires
        pos <= s@.len(),
    ensures
        ({
            let sr = spec_labeled_source(s@, pos as nat, defs_view(defs@));
            match r {
                Ok((v, next)) => sr == (PRes::Got { v: v@, next: next as nat }) && pos
                    < next <= s@.len(),
                Err(e) => sr == (PRes::<LabeledSourceV>::Fail {
                    kind: e.kind,
                    at: e.at as nat,
                    hard: e.hard,
                }),
            }
        }),
{
    match label(s, pos) {
        Ok((l, p)) => {
            match source(s, p, defs) {
                Ok((src, next)) => Ok((
                    LabeledSource { source: src, label: Some(l) },
                    next,
                )),
                Err(e) => Err(e),
            }
        },
        Err(_) => {
            match source(s, pos, defs) {
                Ok((src, next)) => Ok((LabeledSource { source: src, label: None }, next)),
                Err(e) => Err(e),
            }
        },
    }
}

/// What a run of filters yields: zero or more `filter_expr`, collected in
/// order; the run ends before the first non-filter.
pub open spec fn spec_filters_seq(s: Seq<char>, pos: nat) -> PRes<Seq<Filter>>
    decreases rem(s, pos),
{
    match spec_filter_expr(s, pos) {
        PRes::Fail { kind, at, hard } => {
            if hard {
                PRes::Fail { kind, at, hard }
            } else {
                PRes::Got { v: Seq::empty(), next: pos }
            }
        },
        PRes::Got { v: f, next: p } => {
            if p > pos && p <= s.len() {
                match spec_filters_seq(s, p) {
                    PRes::Got { v: fs, next } => PRes::Got { v: seq![f] + fs, next },
                    PRes::Fail { kind, at, hard } => PRes::Fail { kind, at, hard },
                }
            } else {
                PRes::Got { v: Seq::empty(), next: pos }
            }
        },
    }
}

/// Parse a run of filters.
fn filters_seq(s: &Vec<char>, pos: usize) -> (r: Result<(Vec<Filter>, usize), ParseError>)
    requires
        pos <= s@.len(),
    ensures
        ({
            let sr = spec_filters_seq(s@, pos as nat);
            match r {
                Ok((v, next)) => sr == (PRes::Got { v: v@, next: next as nat }) && pos
                    <= next <= s@.len(),
                Err(e) => sr == (PRes::<Seq<Filter>>::Fail {
                    kind: e.kind,
                    at: e.at as nat,
                    hard: e.hard,
                }),
            }
        }),
    decreases s@.len() - pos,
{
    match filter_expr(s, pos) {
        Err(e) => {
            if e.hard {
                Err(e)
            } else {
                Ok((Vec::new(), pos))
            }
        },
        Ok((f, p)) => {
            match filters_seq(s, p) {
                Ok((fs, next)) => {
                    let mut out: Vec<Filter> = Vec::new();
                    let ghost fs_view = fs@;
                    out.push(f);
                    let mut fs = fs;
                    out.append(&mut fs);
                    proof {
                        assert(out@ =~= seq![f] + fs_view);
                    }
                    Ok((out, next))
                },
                Err(e) => Err(e),
            }
        },
    }
}

/// What `key_value_seq` yields: zero or more key-values each followed by
/// a comma separator (`, ` tried before `,`); a key-value not followed by
/// a separator is left unconsumed.
pub open spec fn spec_key_value_seq(s: Seq<char>, pos: nat) -> PRes<Seq<KeyValue>>
    decreases rem(s, pos),
{
    match spec_key_value(s, pos) {
        PRes::Fail { kind, at, hard } => {
            if hard {
                PRes::Fail { kind, at, hard }
            } else {
                PRes::Got { v: Seq::empty(), next: pos }
            }
        },
        PRes::Got { v, next: p } => {
            if match_at(s, p, seq![',', ' ']) {
                if p + 2 > pos && p + 2 <= s.len() {
                    match spec_key_value_seq(s, (p + 2) as nat) {
                        PRes::Got { v: vs, next } => PRes::Got { v: seq![v] + vs, next },
                        PRes::Fail { kind, at, hard } => PRes::Fail { kind, at, hard },
                    }
                } else {
                    PRes::Got { v: Seq::empty(), next: pos }
                }
            } else if p < s.len() && s[p as int] == ',' {
                if p + 1 > pos {
                    match spec_key_value_seq(s, (p + 1) as nat) {
                        PRes::Got { v: vs, next } => PRes::Got { v: seq![v] + vs, next },
                        PRes::Fail { kind, at, hard } => PRes::Fail { kind, at, hard },
                    }
                } else {
                    PRes::Got { v: Seq::empty(), next: pos }
                }
            } else {
                PRes::Got { v: Seq::empty(), next: pos }
            }
        },
    }
}

/// Parse a run of comma-terminated key-values.
pub fn key_value_seq(s: &Vec<char>, pos: usize) -> (r: Result<
    (Vec<KeyValue>, usize),
    ParseError,
>)
    requires
        pos <= s@.len(),
    ensures
        ({
            let sr = spec_key_value_seq(s@, pos as nat);
            match r {
                Ok((v, next)) => sr == (PRes::Got { v: v@, next: next as nat }) && pos
                    <= next <= s@.len(),
                Err(e) => sr == (PRes::<Seq<KeyValue>>::Fail {
                    kind: e.kind,
                    at: e.at as nat,
                    hard: e.hard,
                }),
            }
        }),
    decreases s@.len() - pos,
{
    let n = s.len();
    match key_value(s, pos) {
        Err(e) => {
            if e.hard {
                Err(e)
            } else {
                Ok((Vec::new(), pos))
            }
        },
        Ok((v, p)) => {
            let w = vec![',', ' '];
            proof {
                assert(w@ =~= seq![',', ' ']);
            }
            let q: usize = if tag_at(s, p, &w) {
                p + 2
            } else if p < s.len() && s[p] == ',' {
                p + 1
            } else {
                return Ok((Vec::new(), pos));
            };
            match key_value_seq(s, q) {
                Ok((vs, next)) => {
                    let mut out: Vec<KeyValue> = Vec::new();
                    let ghost vs_view = vs@;
                    out.push(v);
                    let mut vs = vs;
                    out.append(&mut vs);
                    proof {
                        assert(out@ =~= seq![v] + vs_view);
                    }
                    Ok((out, next))
                },
                Err(e) => Err(e),
            }
        },
    }
}

/// What `key_value_expr` yields: a colon (`: ` tried before `:`), a run of
/// comma-terminated key-values, and one final key-value.
pub open spec fn spec_key_value_expr(s: Seq<char>, pos: nat) -> PRes<Seq<KeyValue>> {
    if match_at(s, pos, seq![':', ' ']) {
        spec_key_value_body(s, pos + 2, pos)
    } else if pos < s.len() && s[pos as int] == ':' {
        spec_key_value_body(s, pos + 1, pos)
    } else {
        soft(pos)
    }
}

/// The key-value list after the colon.
pub open spec fn spec_key_value_body(s: Seq<char>, p: nat, start: nat) -> PRes<Seq<KeyValue>> {
    if p <= s.len() {
        match spec_key_value_seq(s, p) {
            PRes::Got { v: vs, next: p2 } => {
                match spec_key_value(s, p2) {
                    PRes::Got { v: kv, next: p3 } => PRes::Got { v: vs.push(kv), next: p3 },
                    PRes::Fail { kind, at, hard } => {
                        if hard {
                            PRes::Fail { kind, at, hard }
                        } else {
                            soft(start)
                        }
                    },
                }
            },
            PRes::Fail { kind, at, hard } => PRes::Fail { kind, at, hard },
        }
    } else {
        soft(start)
    }
}

/// Parse a key-value list, `:min=3,max=11` or `: min = 3`.
pub fn key_value_expr(s: &Vec<char>, pos: usize) -> (r: Result<
    (Vec<KeyValue>, usize),
    ParseError,
>)
    requires
        pos <= s@.len(),
    ensures
        ({
            let sr = spec_key_value_expr(s@, pos as nat);
            match r {
                Ok((v, next)) => sr == (PRes::Got { v: v@, next: next as nat }) && pos
                    < next <= s@.len(),
                Err(e) => sr == (PRes::<Seq<KeyValue>>::Fail {
                    kind: e.kind,
                    at: e.at as nat,
                    hard: e.hard,
                }),
            }
        }),
{
    let n = s.len();
    let w = vec![':', ' '];
    proof {
        assert(w@ =~= seq![':', ' ']);
    }
    let p: usize = if tag_at(s, pos, &w) {
        pos + 2
    } else if pos < s.len() && s[pos] == ':' {
        pos + 1
    } else {
        return Err(ParseError { kind: ParseErrorKind::UnexpectedInput, at: pos, hard: false });
    };
    match key_value_seq(s, p) {
        Ok((vs, p2)) => {
            match key_value(s, p2) {
                Ok((kv, p3)) => {
                    let mut out = vs;
                    let ghost vs_view = out@;
                    out.push(kv);
                    proof {
                        assert(out@ =~= vs_view.push(kv));
                    }
                    Ok((out, p3))
                },
                Err(e) => {
                    if e.hard {
                        Err(e)
                    } else {
                        Err(ParseError {
                            kind: ParseErrorKind::UnexpectedInput,
                            at: pos,
                            hard: false,
                        })
                    }
                },
            }
        },
        Err(e) => Err(e),
    }
}

/// The bounds a key-value list sets on a word source: for each of `min`
/// and `max`, the last occurrence wins.
pub open spec fn fold_kvs(kvs: Seq<KeyValue>) -> (Option<u8>, Option<u8>)
    decreases kvs.len(),
{
    if kvs.len() == 0 {
        (None, None)
    } else {
        let prev = fold_kvs(kvs.drop_last());
        match kvs.last() {
            KeyValue::Min(v) => (Some(v), prev.1),
            KeyValue::Max(v) => (prev.0, Some(v)),
        }
    }
}

/// Collapse a key-value list into its `min` and `max` bounds, last wins.
fn fold_key_values(kvs: &Vec<KeyValue>) -> (r: (Option<u8>, Option<u8>))
    ensures
        r == fold_kvs(kvs@),
{
    let mut min: Option<u8> = None;
    let mut max: Option<u8> = None;
    let mut i: usize = 0;
    while i < kvs.len()
        invariant
            i <= kvs@.len(),
            (min, max) == fold_kvs(kvs@.take(i as int)),
        decreases kvs@.len() - i,
    {
        proof {
            assert(kvs@.take(i + 1).drop_last() =~= kvs@.take(i as int));
            assert(kvs@.take(i + 1).last() == kvs@[i as int]);
        }
        match kvs[i] {
            KeyValue::Min(v) => {
                min = Some(v);
            },
            KeyValue::Max(v) => {
                max = Some(v);
            },
        }
        i = i + 1;
    }
    proof {
        assert(kvs@.take(kvs@.len() as int) =~= kvs@);
    }
    (min, max)
}


/// What follows a block's source and key-values: its filter chain.
pub open spec fn spec_block_tail(
    s: Seq<char>,
    p: nat,
    ls: LabeledSourceV,
) -> PRes<(LabeledSourceV, Seq<Filter>)> {
    match spec_filters_seq(s, p) {
        PRes::Got { v: fs, next } => PRes::Got { v: (ls, fs), next },
        PRes::Fail { kind, at, hard } => PRes::Fail { kind, at, hard },
    }
}

/// What `block_inner` yields: a labeled source, an optional key-value
/// list (legal only on a word source; elsewhere a hard error), and a
/// filter chain.
pub open spec fn spec_block_inner(
    s: Seq<char>,
    pos: nat,
    defs: Seq<(Seq<char>, Seq<ExpressionItemV>)>,
) -> PRes<(LabeledSourceV, Seq<Filter>)> {
    match spec_labeled_source(s, pos, defs) {
        PRes::Fail { kind, at, hard } => PRes::Fail { kind, at, hard },
        PRes::Got { v: ls, next: p } => {
            match spec_key_value_expr(s, p) {
                PRes::Got { v: kvs, next: p2 } => {
                    match ls.source {
                        SourceV::Word { .. } => {
                            let mm = fold_kvs(kvs);
                            spec_block_tail(
                                s,
                                p2,
                                LabeledSourceV {
                                    source: SourceV::Word { min: mm.0, max: mm.1 },
                                    label: ls.label,
                                },
                            )
                        },
                        _ => PRes::Fail {
                            kind: ParseErrorKind::MisplacedKeyValue,
                            at: p,
                            hard: true,
                        },
                    }
                },
                PRes::Fail { kind, at, hard } => {
                    if hard {
                        PRes::Fail { kind, at, hard }
                    } else {
                        spec_block_tail(s, p, ls)
                    }
                },
            }
        },
    }
}

/// Parse the inside of a block: labeled source, key-values, filters.
pub fn block_inner(
    s: &Vec<char>,
    pos: usize,
    defs: &Vec<(String, Vec<ExpressionItem>)>,
) -> (r: Result<((LabeledSource, Vec<Filter>), usize), ParseError>)
    requires
        pos <= s@.len(),
    ensures
        ({
            let sr = spec_block_inner(s@, pos as nat, defs_view(defs@));
            match r {
                Ok(((ls, fs), next)) => sr == (PRes::Got {
                    v: (ls@, fs@),
                    next: next as nat,
                }) && pos < next <= s@.len(),
                Err(e) => sr == (PRes::<(LabeledSourceV, Seq<Filter>)>::Fail {
                    kind: e.kind,
                    at: e.at as nat,
                    hard: e.hard,
                }),
            }
        }),
{
    let (mut ls, p) = match labeled_source(s, pos, defs) {
        Ok(v) => v,
        Err(e) => {
            return Err(e);
        },
    };
    match key_value_expr(s, p) {
        Ok((kvs, p2)) => {
            let is_word = match &ls.source {
                Source::Word(_, _) => true,
                _ => false,
            };
            if is_word {
                let (min, max) = fold_key_values(&kvs);
                ls.source = Source::Word(min, max);
                match filters_seq(s, p2) {
                    Ok((fs, next)) => Ok(((ls, fs), next)),
                    Err(e) => Err(e),
                }
            } else {
                Err(ParseError { kind: ParseErrorKind::MisplacedKeyValue, at: p, hard: true })
            }
        },
        Err(e) => {
            if e.hard {
                Err(e)
            } else {
                match filters_seq(s, p) {
                    Ok((fs, next)) => Ok(((ls, fs), next)),
                    Err(e2) => Err(e2),
                }
            }
        },
    }
}

/// What `block` yields: `(`, the block's inside, `)` (a missing `)` is a
/// hard error), and an optional repeat count, 1 when absent.
pub open spec fn spec_block(
    s: Seq<char>,
    pos: nat,
    defs: Seq<(Seq<char>, Seq<ExpressionItemV>)>,
) -> PRes<BlockV> {
    if pos < s.len() && s[pos as int] == '(' {
        match spec_block_inner(s, pos + 1, defs) {
            PRes::Got { v: (ls, fs), next: p } => {
                if p < s.len() && s[p as int] == ')' {
                    match spec_repeat(s, p + 1) {
                        PRes::Got { v: rep, next: p2 } => PRes::Got {
                            v: BlockV { source: ls, filters: fs, repeat: rep },
                            next: p2,
                        },
                        PRes::Fail { kind, at, hard } => {
                            if hard {
                                PRes::Fail { kind, at, hard }
                            } else {
                                PRes::Got {
                                    v: BlockV { source: ls, filters: fs, repeat: 1 },
                                    next: p + 1,
                                }
                            }
                        },
                    }
                } else {
                    PRes::Fail { kind: ParseErrorKind::UnterminatedConstruct, at: p, hard: true }
                }
            },
            PRes::Fail { kind, at, hard } => PRes::Fail { kind, at, hard },
        }
    } else {
        soft(pos)
    }
}

/// Parse one block, `(1@word:min=3|upper)!4`.
pub fn block(
    s: &Vec<char>,
    pos: usize,
    defs: &Vec<(String, Vec<ExpressionItem>)>,
) -> (r: Result<(Block, usize), ParseError>)
    requires
        pos <= s@.len(),
    ensures
        ({
            let sr = spec_block(s@, pos as nat, defs_view(defs@));
            match r {
                Ok((b, next)) => sr == (PRes::Got { v: block_view(b), next: next as nat })
                    && pos < next <= s@.len(),
                Err(e) => sr == (PRes::<BlockV>::Fail {
                    kind: e.kind,
                    at: e.at as nat,
                    hard: e.hard,
                }),
            }
        }),
{
    if pos < s.len() && s[pos] == '(' {
        match block_inner(s, pos + 1, defs) {
            Ok(((ls, fs), p)) => {
                if p < s.len() && s[p] == ')' {
                    match repeat(s, p + 1) {
                        Ok((rep, p2)) => Ok((
                            Block { source: ls, filters: fs, repeat: rep },
                            p2,
                        )),
                        Err(e) => {
                            if e.hard {
                                Err(e)
                            } else {
                                Ok((Block { source: ls, filters: fs, repeat: 1 }, p + 1))
                            }
                        },
                    }
                } else {
                    Err(ParseError {
                        kind: ParseErrorKind::UnterminatedConstruct,
                        at: p,
                        hard: true,
                    })
                }
            },
            Err(e) => Err(e),
        }
    } else {
        Err(ParseError { kind: ParseErrorKind::UnexpectedInput, at: pos, hard: false })
    }
}

/// Zero or more further blocks, ending before the first non-block.
pub open spec fn spec_blocks_seq0(
    s: Seq<char>,
    pos: nat,
    defs: Seq<(Seq<char>, Seq<ExpressionItemV>)>,
) -> PRes<Seq<BlockV>>
    decreases rem(s, pos),
{
    match spec_block(s, pos, defs) {
        PRes::Fail { kind, at, hard } => {
            if hard {
                PRes::Fail { kind, at, hard }
            } else {
                PRes::Got { v: Seq::empty(), next: pos }
            }
        },
        PRes::Got { v: b, next: p } => {
            if p > pos && p <= s.len() {
                match spec_blocks_seq0(s, p, defs) {
                    PRes::Got { v: bs, next } => PRes::Got { v: seq![b] + bs, next },
                    PRes::Fail { kind, at, hard } => PRes::Fail { kind, at, hard },
                }
            } else {
                PRes::Got { v: Seq::empty(), next: pos }
            }
        },
    }
}

/// One or more blocks.
pub open spec fn spec_blocks_seq1(
    s: Seq<char>,
    pos: nat,
    defs: Seq<(Seq<char>, Seq<ExpressionItemV>)>,
) -> PRes<Seq<BlockV>> {
    match spec_block(s, pos, defs) {
        PRes::Fail { kind, at, hard } => PRes::Fail { kind, at, hard },
        PRes::Got { v: b, next: p } => {
            if p > pos && p <= s.len() {
                match spec_blocks_seq0(s, p, defs) {
                    PRes::Got { v: bs, next } => PRes::Got { v: seq![b] + bs, next },
                    PRes::Fail { kind, at, hard } => PRes::Fail { kind, at, hard },
                }
            } else {
                PRes::Got { v: seq![b], next: p }
            }
        },
    }
}

/// Parse zero or more further blocks.
fn blocks_seq0(
    s: &Vec<char>,
    pos: usize,
    defs: &Vec<(String, Vec<ExpressionItem>)>,
) -> (r: Result<(Vec<Block>, usize), ParseError>)
    requires
        pos <= s@.len(),
    ensures
        ({
            let sr = spec_blocks_seq0(s@, pos as nat, defs_view(defs@));
            match r {
                Ok((v, next)) => sr == (PRes::Got {
                    v: blocks_view(v@),
                    next: next as nat,
                }) && pos <= next <= s@.len(),
                Err(e) => sr == (PRes::<Seq<BlockV>>::Fail {
                    kind: e.kind,
                    at: e.at as nat,
                    hard: e.hard,
                }),
            }
        }),
    decreases s@.len() - pos,
{
    match block(s, pos, defs) {
        Err(e) => {
            if e.hard {
                Err(e)
            } else {
                let r: Vec<Block> = Vec::new();
                proof {
                    assert(blocks_view(r@) =~= Seq::<BlockV>::empty());
                }
                Ok((r, pos))
            }
        },
        Ok((b, p)) => {
            match blocks_seq0(s, p, defs) {
                Ok((bs, next)) => {
                    let mut out: Vec<Block> = Vec::new();
                    let ghost bs_view = bs@;
                    out.push(b);
                    let mut bs = bs;
                    out.append(&mut bs);
                    proof {
                        assert(out@.drop_first() =~= bs_view);
                        assert(blocks_view(out@) =~= seq![block_view(out@[0])] + blocks_view(
                            bs_view,
                        ));
                    }
                    Ok((out, next))
                },
                Err(e) => Err(e),
            }
        },
    }
}

/// Parse one or more blocks.
fn blocks_seq1(
    s: &Vec<char>,
    pos: usize,
    defs: &Vec<(String, Vec<ExpressionItem>)>,
) -> (r: Result<(Vec<Block>, usize), ParseError>)
    requires
        pos <= s@.len(),
    ensures
        ({
            let sr = spec_blocks_seq1(s@, pos as nat, defs_view(defs@));
            match r {
                Ok((v, next)) => sr == (PRes::Got {
                    v: blocks_view(v@),
                    next: next as nat,
                }) && pos < next <= s@.len(),
                Err(e) => sr == (PRes::<Seq<BlockV>>::Fail {
                    kind: e.kind,
                    at: e.at as nat,
                    hard: e.hard,
                }),
            }
        }),
{
    match block(s, pos, defs) {
        Err(e) => Err(e),
        Ok((b, p)) => {
            match blocks_seq0(s, p, defs) {
                Ok((bs, next)) => {
                    let mut out: Vec<Block> = Vec::new();
                    let ghost bs_view = bs@;
                    out.push(b);
                    let mut bs = bs;
                    out.append(&mut bs);
                    proof {
                        assert(out@.drop_first() =~= bs_view);
                        assert(blocks_view(out@) =~= seq![block_view(out@[0])] + blocks_view(
                            bs_view,
                        ));
                    }
                    Ok((out, next))
                },
                Err(e) => Err(e),
            }
        },
    }
}

/// What `group` yields: `{`, one or more blocks, a filter chain, `}` (a
/// missing `}` is a hard error), and an optional repeat count.
pub open spec fn spec_group(
    s: Seq<char>,
    pos: nat,
    defs: Seq<(Seq<char>, Seq<ExpressionItemV>)>,
) -> PRes<GroupV> {
    if pos < s.len() && s[pos as int] == '{' {
        match spec_blocks_seq1(s, pos + 1, defs) {
            PRes::Got { v: bs, next: p } => {
                match spec_filters_seq(s, p) {
                    PRes::Got { v: fs, next: p2 } => {
                        if p2 < s.len() && s[p2 as int] == '}' {
                            match spec_repeat(s, p2 + 1) {
                                PRes::Got { v: rep, next: p3 } => PRes::Got {
                                    v: GroupV { blocks: bs, filters: fs, repeat: rep },
                                    next: p3,
                                },
                                PRes::Fail { kind, at, hard } => {
                                    if hard {
                                        PRes::Fail { kind, at, hard }
                                    } else {
                                        PRes::Got {
                                            v: GroupV { blocks: bs, filters: fs, repeat: 1 },
                                            next: p2 + 1,
                                        }
                                    }
                                },
                            }
                        } else {
                            PRes::Fail {
                                kind: ParseErrorKind::UnterminatedConstruct,
                                at: p2,
                                hard: true,
                            }
                        }
                    },
                    PRes::Fail { kind, at, hard } => PRes::Fail { kind, at, hard },
                }
            },
            PRes::Fail { kind, at, hard } => PRes::Fail { kind, at, hard },
        }
    } else {
        soft(pos)
    }
}

/// Parse one group, `{(word)(digit)|upper}!2`.
pub fn group(
    s: &Vec<char>,
    pos: usize,
    defs: &Vec<(String, Vec<ExpressionItem>)>,
) -> (r: Result<(Group, usize), ParseError>)
    requires
        pos <= s@.len(),
    ensures
        ({
            let sr = spec_group(s@, pos as nat, defs_view(defs@));
            match r {
                Ok((g, next)) => sr == (PRes::Got { v: group_view(g), next: next as nat })
                    && pos < next <= s@.len(),
                Err(e) => sr == (PRes::<GroupV>::Fail {
                    kind: e.kind,
                    at: e.at as nat,
                    hard: e.hard,
                }),
            }
        }),
{
    if pos < s.len() && s[pos] == '{' {
        match blocks_seq1(s, pos + 1, defs) {
            Ok((bs, p)) => {
                match filters_seq(s, p) {
                    Ok((fs, p2)) => {
                        if p2 < s.len() && s[p2] == '}' {
                            match repeat(s, p2 + 1) {
                                Ok((rep, p3)) => Ok((
                                    Group { blocks: bs, filters: fs, repeat: rep },
                                    p3,
                                )),
                                Err(e) => {
                                    if e.hard {
                                        Err(e)
                                    } else {
                                        Ok((
                                            Group { blocks: bs, filters: fs, repeat: 1 },
                                            p2 + 1,
                                        ))
                                    }
                                },
                            }
                        } else {
                            Err(ParseError {
                                kind: ParseErrorKind::UnterminatedConstruct,
                                at: p2,
                                hard: true,
                            })
                        }
                    },
                    Err(e) => Err(e),
                }
            },
            Err(e) => Err(e),
        }
    } else {
        Err(ParseError { kind: ParseErrorKind::UnexpectedInput, at: pos, hard: false })
    }
}

/// What one template item yields: a group, or failing that softly, a
/// block.
pub open spec fn spec_item(
    s: Seq<char>,
    pos: nat,
    defs: Seq<(Seq<char>, Seq<ExpressionItemV>)>,
) -> PRes<ExpressionItemV> {
    match spec_group(s, pos, defs) {
        PRes::Got { v: g, next } => PRes::Got { v: ExpressionItemV::Group(g), next },
        PRes::Fail { kind, at, hard } => {
            if hard {
                PRes::Fail { kind, at, hard }
            } else {
                match spec_block(s, pos, defs) {
                    PRes::Got { v: b, next } => PRes::Got {
                        v: ExpressionItemV::Block(b),
                        next,
                    },
                    PRes::Fail { kind: k2, at: a2, hard: h2 } => PRes::Fail {
                        kind: k2,
                        at: a2,
                        hard: h2,
                    },
                }
            }
        },
    }
}

/// Parse one template item: a group or a block.
fn item(
    s: &Vec<char>,
    pos: usize,
    defs: &Vec<(String, Vec<ExpressionItem>)>,
) -> (r: Result<(ExpressionItem, usize), ParseError>)
    requires
        pos <= s@.len(),
    ensures
        ({
            let sr = spec_item(s@, pos as nat, defs_view(defs@));
            match r {
                Ok((v, next)) => sr == (PRes::Got { v: item_view(v), next: next as nat })
                    && pos < next <= s@.len(),
                Err(e) => sr == (PRes::<ExpressionItemV>::Fail {
                    kind: e.kind,
                    at: e.at as nat,
                    hard: e.hard,
                }),
            }
        }),
{
    match group(s, pos, defs) {
        Ok((g, next)) => Ok((ExpressionItem::Group(g), next)),
        Err(e) => {
            if e.hard {
                Err(e)
            } else {
                match block(s, pos, defs) {
                    Ok((b, next)) => Ok((ExpressionItem::Block(b), next)),
                    Err(e2) => Err(e2),
                }
            }
        },
    }
}

/// Zero or more further template items.
pub open spec fn spec_items0(
    s: Seq<char>,
    pos: nat,
    defs: Seq<(Seq<char>, Seq<ExpressionItemV>)>,
) -> PRes<Seq<ExpressionItemV>>
    decreases rem(s, pos),
{
    match spec_item(s, pos, defs) {
        PRes::Fail { kind, at, hard } => {
            if hard {
                PRes::Fail { kind, at, hard }
            } else {
                PRes::Got { v: Seq::empty(), next: pos }
            }
        },
        PRes::Got { v: it, next: p } => {
            if p > pos && p <= s.len() {
                match spec_items0(s, p, defs) {
                    PRes::Got { v: its, next } => PRes::Got { v: seq![it] + its, next },
                    PRes::Fail { kind, at, hard } => PRes::Fail { kind, at, hard },
                }
            } else {
                PRes::Got { v: Seq::empty(), next: pos }
            }
        },
    }
}

/// One or more template items.
pub open spec fn spec_items1(
    s: Seq<char>,
    pos: nat,
    defs: Seq<(Seq<char>, Seq<ExpressionItemV>)>,
) -> PRes<Seq<ExpressionItemV>> {
    match spec_item(s, pos, defs) {
        PRes::Fail { kind, at, hard } => PRes::Fail { kind, at, hard },
        PRes::Got { v: it, next: p } => {
            if p > pos && p <= s.len() {
                match spec_items0(s, p, defs) {
                    PRes::Got { v: its, next } => PRes::Got { v: seq![it] + its, next },
                    PRes::Fail { kind, at, hard } => PRes::Fail { kind, at, hard },
                }
            } else {
                PRes::Got { v: seq![it], next: p }
            }
        },
    }
}

/// Parse zero or more further template items.
fn items_seq0(
    s: &Vec<char>,
    pos: usize,
    defs: &Vec<(String, Vec<ExpressionItem>)>,
) -> (r: Result<(Vec<ExpressionItem>, usize), ParseError>)
    requires
        pos <= s@.len(),
    ensures
        ({
            let sr = spec_items0(s@, pos as nat, defs_view(defs@));
            match r {
                Ok((v, next)) => sr == (PRes::Got {
                    v: items_view(v@),
                    next: next as nat,
                }) && pos <= next <= s@.len(),
                Err(e) => sr == (PRes::<Seq<ExpressionItemV>>::Fail {
                    kind: e.kind,
                    at: e.at as nat,
                    hard: e.hard,
                }),
            }
        }),
    decreases s@.len() - pos,
{
    match item(s, pos, defs) {
        Err(e) => {
            if e.hard {
                Err(e)
            } else {
                let r: Vec<ExpressionItem> = Vec::new();
                proof {
                    assert(items_view(r@) =~= Seq::<ExpressionItemV>::empty());
                }
                Ok((r, pos))
            }
        },
        Ok((it, p)) => {
            match items_seq0(s, p, defs) {
                Ok((its, next)) => {
                    let mut out: Vec<ExpressionItem> = Vec::new();
                    let ghost its_view = its@;
                    out.push(it);
                    let mut its = its;
                    out.append(&mut its);
                    proof {
                        assert(out@.drop_first() =~= its_view);
                        assert(items_view(out@) =~= seq![item_view(out@[0])] + items_view(
                            its_view,
                        ));
                    }
                    Ok((out, next))
                },
                Err(e) => Err(e),
            }
        },
    }
}

/// Parse one or more template items.
fn items_seq1(
    s: &Vec<char>,
    pos: usize,
    defs: &Vec<(String, Vec<ExpressionItem>)>,
) -> (r: Result<(Vec<ExpressionItem>, usize), ParseError>)
    requires
        pos <= s@.len(),
    ensures
        ({
            let sr = spec_items1(s@, pos as nat, defs_view(defs@));
            match r {
                Ok((v, next)) => sr == (PRes::Got {
                    v: items_view(v@),
                    next: next as nat,
                }) && pos < next <= s@.len(),
                Err(e) => sr == (PRes::<Seq<ExpressionItemV>>::Fail {
                    kind: e.kind,
                    at: e.at as nat,
                    hard: e.hard,
                }),
            }
        }),
{
    match item(s, pos, defs) {
        Err(e) => Err(e),
        Ok((it, p)) => {
            match items_seq0(s, p, defs) {
                Ok((its, next)) => {
                    let mut out: Vec<ExpressionItem> = Vec::new();
                    let ghost its_view = its@;
                    out.push(it);
                    let mut its = its;
                    out.append(&mut its);
                    proof {
                        assert(out@.drop_first() =~= its_view);
                        assert(items_view(out@) =~= seq![item_view(out@[0])] + items_view(
                            its_view,
                        ));
                    }
                    Ok((out, next))
                },
                Err(e) => Err(e),
            }
        },
    }
}

/// What `custom_source_label` yields: an identifier followed by `#`.
pub open spec fn spec_custom_source_label(s: Seq<char>, pos: nat) -> PRes<Seq<char>> {
    match spec_identifier(s, pos) {
        PRes::Got { v: name, next: p } => {
            if p < s.len() && s[p as int] == '#' {
                PRes::Got { v: name, next: p + 1 }
            } else {
                soft(pos)
            }
        },
        PRes::Fail { .. } => soft(pos),
    }
}

/// Parse a definition's name, `foo#`.
pub fn custom_source_label(s: &Vec<char>, pos: usize) -> (r: Result<
    (String, usize),
    ParseError,
>)
    requires
        pos <= s@.len(),
    ensures
        ({
            let sr = spec_custom_source_label(s@, pos as nat);
            match r {
                Ok((v, next)) => sr == (PRes::Got { v: v@, next: next as nat }) && pos
                    < next <= s@.len(),
                Err(e) => sr == (PRes::<Seq<char>>::Fail {
                    kind: e.kind,
                    at: e.at as nat,
                    hard: e.hard,
                }),
            }
        }),
{
    match identifier(s, pos) {
        Ok((name, p)) => {
            if p < s.len() && s[p] == '#' {
                Ok((name, p + 1))
            } else {
                Err(ParseError { kind: ParseErrorKind::UnexpectedInput, at: pos, hard: false })
            }
        },
        Err(_) => Err(ParseError {
            kind: ParseErrorKind::UnexpectedInput,
            at: pos,
            hard: false,
        }),
    }
}

/// What `definition` yields: a name, `#`, and the items it stands for.
/// Earlier definitions are visible inside the body.
pub open spec fn spec_definition(
    s: Seq<char>,
    pos: nat,
    defs: Seq<(Seq<char>, Seq<ExpressionItemV>)>,
) -> PRes<(Seq<char>, Seq<ExpressionItemV>)> {
    match spec_custom_source_label(s, pos) {
        PRes::Got { v: name, next: p } => {
            if p <= s.len() {
                match spec_items1(s, p, defs) {
                    PRes::Got { v: items, next } => PRes::Got { v: (name, items), next },
                    PRes::Fail { kind, at, hard } => PRes::Fail { kind, at, hard },
                }
            } else {
                soft(pos)
            }
        },
        PRes::Fail { kind, at, hard } => PRes::Fail { kind, at, hard },
    }
}

/// Parse one definition, `foo#(word)(digit)`.
pub fn definition(
    s: &Vec<char>,
    pos: usize,
    defs: &Vec<(String, Vec<ExpressionItem>)>,
) -> (r: Result<((String, Vec<ExpressionItem>), usize), ParseError>)
    requires
        pos <= s@.len(),
    ensures
        ({
            let sr = spec_definition(s@, pos as nat, defs_view(defs@));
            match r {
                Ok(((name, items), next)) => sr == (PRes::Got {
                    v: (name@, items_view(items@)),
                    next: next as nat,
                }) && pos < next <= s@.len(),
                Err(e) => sr == (PRes::<(Seq<char>, Seq<ExpressionItemV>)>::Fail {
                    kind: e.kind,
                    at: e.at as nat,
                    hard: e.hard,
                }),
            }
        }),
{
    match custom_source_label(s, pos) {
        Ok((name, p)) => {
            match items_seq1(s, p, defs) {
                Ok((items, next)) => Ok(((name, items), next)),
                Err(e) => Err(e),
            }
        },
        Err(e) => Err(e),
    }
}

/// A copy of a definition table with the same model.
fn clone_defs(d: &Vec<(String, Vec<ExpressionItem>)>) -> (r: Vec<
    (String, Vec<ExpressionItem>),
>)
    ensures
        defs_view(r@) == defs_view(d@),
{
    let mut r: Vec<(String, Vec<ExpressionItem>)> = Vec::new();
    let mut i: usize = 0;
    while i < d.len()
        invariant
            i <= d@.len(),
            r@.len() == i,
            forall|j: int|
                0 <= j < i ==> #[trigger] r@[j].0@ == d@[j].0@ && items_view(r@[j].1@)
                    == items_view(d@[j].1@),
        decreases d@.len() - i,
    {
        let name = d[i].0.clone();
        let items = clone_items_from(&d[i].1, 0);
        proof {
            assert(d@[i as int].1@.skip(0) =~= d@[i as int].1@);
        }
        r.push((name, items));
        i = i + 1;
    }
    proof {
        assert(defs_view(r@) =~= defs_view(d@));
    }
    r
}

/// What one definition statement yields: one or more definitions separated
/// by commas (`, ` tried before `,`), terminated by `; `; the table grown
/// by each of them, in order. Each definition is visible to the ones after
/// it.
pub open spec fn spec_definition_expr(
    s: Seq<char>,
    pos: nat,
    defs: Seq<(Seq<char>, Seq<ExpressionItemV>)>,
) -> PRes<Seq<(Seq<char>, Seq<ExpressionItemV>)>>
    decreases rem(s, pos),
{
    match spec_definition(s, pos, defs) {
        PRes::Fail { kind, at, hard } => PRes::Fail { kind, at, hard },
        PRes::Got { v: entry, next: p } => {
            let defs2 = defs.push(entry);
            if match_at(s, p, seq![';', ' ']) {
                PRes::Got { v: defs2, next: p + 2 }
            } else if match_at(s, p, seq![',', ' ']) {
                if p + 2 > pos && p + 2 <= s.len() {
                    spec_definition_expr(s, (p + 2) as nat, defs2)
                } else {
                    soft(pos)
                }
            } else if p < s.len() && s[p as int] == ',' {
                if p + 1 > pos {
                    spec_definition_expr(s, (p + 1) as nat, defs2)
                } else {
                    soft(pos)
                }
            } else {
                soft(pos)
            }
        },
    }
}

/// Parse one definition statement, `foo#(word), bar#(foo)(digit); `,
/// yielding the table grown by its definitions.
pub fn definition_expr(
    s: &Vec<char>,
    pos: usize,
    defs: &Vec<(String, Vec<ExpressionItem>)>,
) -> (r: Result<(Vec<(String, Vec<ExpressionItem>)>, usize), ParseError>)
    requires
        pos <= s@.len(),
    ensures
        ({
            let sr = spec_definition_expr(s@, pos as nat, defs_view(defs@));
            match r {
                Ok((v, next)) => sr == (PRes::Got {
                    v: defs_view(v@),
                    next: next as nat,
                }) && pos < next <= s@.len(),
                Err(e) => sr == (PRes::<Seq<(Seq<char>, Seq<ExpressionItemV>)>>::Fail {
                    kind: e.kind,
                    at: e.at as nat,
                    hard: e.hard,
                }),
            }
        }),
    decreases s@.len() - pos,
{
    let n = s.len();
    match definition(s, pos, defs) {
        Err(e) => Err(e),
        Ok(((name, items), p)) => {
            let mut defs2 = clone_defs(defs);
            let ghost defs2_view = defs_view(defs2@);
            defs2.push((name, items));
            proof {
                assert(defs_view(defs2@) =~= defs_view(defs@).push(
                    (defs2@.last().0@, items_view(defs2@.last().1@)),
                ));
            }
            let w = vec![';', ' '];
            proof {
                assert(w@ =~= seq![';', ' ']);
            }
            if tag_at(s, p, &w) {
                return Ok((defs2, p + 2));
            }
            let w2 = vec![',', ' '];
            proof {
                assert(w2@ =~= seq![',', ' ']);
            }
            if tag_at(s, p, &w2) {
                return definition_expr(s, p + 2, &defs2);
            }
            if p < s.len() && s[p] == ',' {
                return definition_expr(s, p + 1, &defs2);
            }
            Err(ParseError { kind: ParseErrorKind::UnexpectedInput, at: pos, hard: false })
        },
    }
}

/// Zero or more definition statements, threading the growing table.
pub open spec fn spec_defs_all(
    s: Seq<char>,
    pos: nat,
    defs: Seq<(Seq<char>, Seq<ExpressionItemV>)>,
) -> PRes<Seq<(Seq<char>, Seq<ExpressionItemV>)>>
    decreases rem(s, pos),
{
    match spec_definition_expr(s, pos, defs) {
        PRes::Fail { kind, at, hard } => {
            if hard {
                PRes::Fail { kind, at, hard }
            } else {
                PRes::Got { v: defs, next: pos }
            }
        },
        PRes::Got { v: defs2, next: p } => {
            if p > pos && p <= s.len() {
                spec_defs_all(s, p, defs2)
            } else {
                PRes::Got { v: defs2, next: p }
            }
        },
    }
}

/// Parse all definition statements at the start of a template.
fn defs_all(
    s: &Vec<char>,
    pos: usize,
    defs: Vec<(String, Vec<ExpressionItem>)>,
) -> (r: Result<(Vec<(String, Vec<ExpressionItem>)>, usize), ParseError>)
    requires
        pos <= s@.len(),
    ensures
        ({
            let sr = spec_defs_all(s@, pos as nat, defs_view(defs@));
            match r {
                Ok((v, next)) => sr == (PRes::Got {
                    v: defs_view(v@),
                    next: next as nat,
                }) && pos <= next <= s@.len(),
                Err(e) => sr == (PRes::<Seq<(Seq<char>, Seq<ExpressionItemV>)>>::Fail {
                    kind: e.kind,
                    at: e.at as nat,
                    hard: e.hard,
                }),
            }
        }),
    decreases s@.len() - pos,
{
    match definition_expr(s, pos, &defs) {
        Err(e) => {
            if e.hard {
                Err(e)
            } else {
                Ok((defs, pos))
            }
        },
        Ok((defs2, p)) => defs_all(s, p, defs2),
    }
}

/// What `parse` yields: the definition statements, then one or more
/// template items consuming the whole input, evaluated against the final
/// definition table. Anything left over is an error.
pub open spec fn spec_parse(s: Seq<char>) -> PRes<ExpressionV> {
    match spec_defs_all(s, 0, Seq::empty()) {
        PRes::Fail { kind, at, hard } => PRes::Fail { kind, at, hard },
        PRes::Got { v: defs, next: p } => {
            if p <= s.len() {
                match spec_items1(s, p, defs) {
                    PRes::Fail { kind, at, hard } => PRes::Fail { kind, at, hard },
                    PRes::Got { v: items, next: q } => {
                        if q == s.len() {
                            PRes::Got { v: ExpressionV { items }, next: q }
                        } else {
                            PRes::Fail {
                                kind: ParseErrorKind::UnexpectedInput,
                                at: q,
                                hard: false,
                            }
                        }
                    },
                }
            } else {
                PRes::Fail { kind: ParseErrorKind::UnexpectedInput, at: p, hard: false }
            }
        },
    }
}

/// Parse a whole template into an expression tree, or fail with a single
/// terminal syntax error naming the offending position.
pub fn parse(input: &str) -> (r: Result<Expression, ParseError>)
    ensures
        ({
            let sr = spec_parse(input@);
            match r {
                Ok(expr) => sr == (PRes::Got { v: expr@, next: input@.len() as nat }),
                Err(e) => sr == (PRes::<ExpressionV>::Fail {
                    kind: e.kind,
                    at: e.at as nat,
                    hard: e.hard,
                }),
            }
        }),
{
    let s = str_to_chars(input);
    let defs0: Vec<(String, Vec<ExpressionItem>)> = Vec::new();
    proof {
        assert(defs_view(defs0@) =~= Seq::<(Seq<char>, Seq<ExpressionItemV>)>::empty());
    }
    match defs_all(&s, 0, defs0) {
        Err(e) => Err(e),
        Ok((defs, p)) => {
            match items_seq1(&s, p, &defs) {
                Err(e) => Err(e),
                Ok((items, q)) => {
                    if q == s.len() {
                        Ok(Expression { items })
                    } else {
                        Err(ParseError {
                            kind: ParseErrorKind::UnexpectedInput,
                            at: q,
                            hard: false,
                        })
                    }
                },
            }
        },
    }
}

} // verus!

//! The notation in which a sensor sends its values: decimal numbers with an
//! optional fraction and exponent, and the names of the two infinities and of
//! the value that is no number.
//!
//! ```text
//! Number   ::= Sign? ( Special | Decimal )
//! Special  ::= 'inf' | 'infinity' | 'nan'          in capitals or small letters
//! Decimal  ::= Digit* ( '.' Digit* )? Exponent?    with at least one digit
//! Exponent ::= ( 'e' | 'E' ) Sign? Digit+
//! Sign     ::= '+' | '-'
//! ```
//!
//! This is the notation from which Rust reads a 64-bit floating-point number.

use crate::decimal::{is_digit, is_digit_char};
use vstd::prelude::*;
use vstd::slice::slice_subrange;

verus! {

/// Whether `c` is a plus or a minus sign.
pub open spec fn is_sign(c: char) -> bool {
    c == '+' || c == '-'
}

/// `c`, with one of the capital letters `A` to `Z` turned into its small letter.
pub open spec fn lower(c: char) -> char {
    if 'A' <= c <= 'Z' {
        (c as int + 32) as char
    } else {
        c
    }
}

/// Whether `s` is `word`, letter for letter, when capitals count as small
/// letters. `word` is in small letters.
pub open spec fn spells(s: Seq<char>, word: Seq<char>) -> bool {
    &&& s.len() == word.len()
    &&& forall|i: int| 0 <= i < s.len() ==> lower(#[trigger] s[i]) == word[i]
}

/// Whether `s` names an infinity or the value that is no number.
pub open spec fn is_special(s: Seq<char>) -> bool {
    ||| spells(s, seq!['i', 'n', 'f'])
    ||| spells(s, seq!['i', 'n', 'f', 'i', 'n', 'i', 't', 'y'])
    ||| spells(s, seq!['n', 'a', 'n'])
}

/// Where the run of digits that starts at `from` ends: the first position at
/// or after `from` that holds no digit, or the length of `s`.
pub open spec fn digits_end(s: Seq<char>, from: int) -> int
    decreases s.len() - from,
{
    if 0 <= from < s.len() && is_digit(s[from]) {
        digits_end(s, from + 1)
    } else {
        from
    }
}

/// Whether `s` is an exponent: the letter `e`, an optional sign, and one or
/// more digits up to the end.
pub open spec fn is_exponent(s: Seq<char>) -> bool {
    let start: int = if s.len() > 1 && is_sign(s[1]) { 2 } else { 1 };
    &&& s.len() > 0
    &&& (s[0] == 'e' || s[0] == 'E')
    &&& start < s.len()
    &&& digits_end(s, start) == s.len()
}

/// Whether `s` is an unsigned decimal number: digits, then optionally a point
/// and more digits, with at least one digit among them, then optionally an
/// exponent.
pub open spec fn is_decimal(s: Seq<char>) -> bool {
    let int_end = digits_end(s, 0);
    let frac_start = if int_end < s.len() && s[int_end] == '.' { int_end + 1 } else { int_end };
    let frac_end = digits_end(s, frac_start);
    &&& int_end + (frac_end - frac_start) > 0
    &&& (frac_end == s.len() || is_exponent(s.skip(frac_end)))
}

/// Whether `s` is written in the notation of numbers: an optional sign in
/// front of a decimal number or of one of the three names.
pub open spec fn is_number(s: Seq<char>) -> bool {
    let body = if s.len() > 0 && is_sign(s[0]) { s.skip(1) } else { s };
    is_special(body) || is_decimal(body)
}

/// A run of digits holds digits only, and ends before the first character
/// that is none.
pub proof fn lemma_digits_end(s: Seq<char>, from: int)
    requires
        0 <= from <= s.len(),
    ensures
        from <= digits_end(s, from) <= s.len(),
        digits_end(s, from) < s.len() ==> !is_digit(s[digits_end(s, from)]),
        forall|i: int| from <= i < digits_end(s, from) ==> is_digit(#[trigger] s[i]),
    decreases s.len() - from,
{
    if from < s.len() && is_digit(s[from]) {
        lemma_digits_end(s, from + 1);
    }
}

/// A position before which, from `from` on, all are digits, and which holds
/// none itself or is the length, is where the run of digits ends.
pub proof fn lemma_digits_end_is(s: Seq<char>, from: int, at: int)
    requires
        0 <= from <= at <= s.len(),
        forall|i: int| from <= i < at ==> is_digit(#[trigger] s[i]),
        at < s.len() ==> !is_digit(s[at]),
    ensures
        digits_end(s, from) == at,
    decreases at - from,
{
    if from < at {
        lemma_digits_end_is(s, from + 1, at);
    }
}

/// A number holds neither a comma nor a line feed.
pub proof fn lemma_number_has_no_separator(s: Seq<char>)
    requires
        is_number(s),
    ensures
        forall|i: int| 0 <= i < s.len() ==> #[trigger] s[i] != ',' && s[i] != '\n',
{
    let signed = s.len() > 0 && is_sign(s[0]);
    let body = if signed { s.skip(1) } else { s };
    let shift: int = if signed { 1 } else { 0 };
    assert forall|k: int| 0 <= k < body.len() implies #[trigger] body[k] != ',' && body[k] != '\n' by {
        if is_special(body) {
            assert(lower(body[k]) != ',' && lower(body[k]) != '\n');
        } else {
            let int_end = digits_end(body, 0);
            lemma_digits_end(body, 0);
            let frac_start = if int_end < body.len() && body[int_end] == '.' { int_end + 1 } else { int_end };
            lemma_digits_end(body, frac_start);
            let frac_end = digits_end(body, frac_start);
            if k >= frac_end {
                let tail = body.skip(frac_end);
                let start: int = if tail.len() > 1 && is_sign(tail[1]) { 2 } else { 1 };
                lemma_digits_end(tail, start);
                assert(body[k] == tail[k - frac_end]);
            }
        }
    }
    assert forall|i: int| 0 <= i < s.len() implies #[trigger] s[i] != ',' && s[i] != '\n' by {
        if i >= shift {
            assert(s[i] == body[i - shift]);
        }
    }
}

/// Where the run of digits of `s` that starts at `from` ends.
fn digits_run(s: &[char], from: usize) -> (end: usize)
    requires
        from <= s.len(),
    ensures
        end == digits_end(s@, from as int),
        from <= end <= s.len(),
{
    let mut i: usize = from;
    while i < s.len() && is_digit_char(s[i])
        invariant
            from <= i <= s.len(),
            forall|k: int| from <= k < i ==> is_digit(#[trigger] s@[k]),
        decreases s.len() - i,
    {
        i = i + 1;
    }
    proof {
        lemma_digits_end_is(s@, from as int, i as int);
    }
    i
}

/// Whether `c` is the small letter `small` or its capital.
fn is_letter(c: char, small: char) -> (b: bool)
    requires
        'a' <= small <= 'z',
    ensures
        b == (lower(c) == small),
{
    c == small || c as u32 + 32 == small as u32
}

/// Whether `s` names an infinity or the value that is no number.
fn is_special_chars(s: &[char]) -> (b: bool)
    ensures
        b == is_special(s@),
{
    if s.len() == 3 {
        let inf = is_letter(s[0], 'i') && is_letter(s[1], 'n') && is_letter(s[2], 'f');
        let nan = is_letter(s[0], 'n') && is_letter(s[1], 'a') && is_letter(s[2], 'n');
        inf || nan
    } else if s.len() == 8 {
        is_letter(s[0], 'i') && is_letter(s[1], 'n') && is_letter(s[2], 'f') && is_letter(s[3], 'i')
            && is_letter(s[4], 'n') && is_letter(s[5], 'i') && is_letter(s[6], 't') && is_letter(
            s[7],
            'y',
        )
    } else {
        false
    }
}

/// Whether `s` is an exponent.
fn is_exponent_chars(s: &[char]) -> (b: bool)
    ensures
        b == is_exponent(s@),
{
    if s.len() == 0 || !(s[0] == 'e' || s[0] == 'E') {
        return false;
    }
    let start: usize = if s.len() > 1 && (s[1] == '+' || s[1] == '-') { 2 } else { 1 };
    start < s.len() && digits_run(s, start) == s.len()
}

/// Whether `s` is an unsigned decimal number.
fn is_decimal_chars(s: &[char]) -> (b: bool)
    ensures
        b == is_decimal(s@),
{
    let int_end: usize = digits_run(s, 0);
    let frac_start: usize = if int_end < s.len() && s[int_end] == '.' { int_end + 1 } else { int_end };
    let frac_end: usize = digits_run(s, frac_start);
    if int_end + (frac_end - frac_start) == 0 {
        return false;
    }
    if frac_end == s.len() {
        return true;
    }
    let tail = slice_subrange(s, frac_end, s.len());
    assert(tail@ =~= s@.skip(frac_end as int));
    is_exponent_chars(tail)
}

/// Whether the characters of `s` are written in the notation of numbers.
pub fn is_number_chars(s: &[char]) -> (b: bool)
    ensures
        b == is_number(s@),
{
    let signed = s.len() > 0 && (s[0] == '+' || s[0] == '-');
    let body = if signed { slice_subrange(s, 1, s.len()) } else { s };
    assert(body@ =~= if signed { s@.skip(1) } else { s@ });
    is_special_chars(body) || is_decimal_chars(body)
}

/// Whether `s` is written in the notation of numbers.
pub fn is_number_text(s: &str) -> (b: bool)
    ensures
        b == is_number(s@),
{
    let chars = crate::text::chars_of(s);
    is_number_chars(chars.as_slice())
}

} // verus!

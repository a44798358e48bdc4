//! Whole numbers as decimal text, and back.

use vstd::prelude::*;

verus! {

/// Whether `c` is one of the ten decimal digits.
pub open spec fn is_digit(c: char) -> bool {
    '0' <= c <= '9'
}

/// The character that stands for the digit `d`, where `0 <= d < 10`.
pub open spec fn digit_char(d: int) -> char {
    ('0' as int + d) as char
}

/// The digit that the character `c` stands for.
pub open spec fn digit_value(c: char) -> int {
    c as int - '0' as int
}

/// Whether every character of `s` is a decimal digit.
pub open spec fn all_digits(s: Seq<char>) -> bool {
    forall|i: int| 0 <= i < s.len() ==> is_digit(#[trigger] s[i])
}

/// The decimal digits of `n`, most significant first, with no leading zero
/// (zero itself is the single digit `0`).
pub open spec fn nat_text(n: nat) -> Seq<char>
    decreases n,
{
    if n < 10 {
        seq![digit_char(n as int)]
    } else {
        nat_text(n / 10).push(digit_char((n % 10) as int))
    }
}

/// The decimal text of `n`: a minus sign for a negative number, then the
/// digits of its magnitude.
pub open spec fn int_text(n: int) -> Seq<char> {
    if n < 0 {
        seq!['-'] + nat_text((-n) as nat)
    } else {
        nat_text(n as nat)
    }
}

/// The number that a run of digits denotes, read most significant first.
/// The empty run denotes zero.
pub open spec fn digits_value(s: Seq<char>) -> nat
    decreases s.len(),
{
    if s.len() == 0 {
        0
    } else {
        (digits_value(s.drop_last()) * 10 + digit_value(s.last())) as nat
    }
}

/// The 64-bit signed number that `s` denotes: an optional minus sign, then one
/// or more digits, whose value lies in the range of `i64`. `None` for any
/// other text.
pub open spec fn text_int(s: Seq<char>) -> Option<int> {
    let negative = s.len() > 0 && s[0] == '-';
    let digits = if negative { s.skip(1) } else { s };
    let value = if negative { -(digits_value(digits) as int) } else { digits_value(digits) as int };
    if digits.len() > 0 && all_digits(digits) && i64::MIN <= value <= i64::MAX {
        Some(value)
    } else {
        None
    }
}

/// The text of a natural number is made of digits only, at least one.
pub proof fn lemma_nat_text_digits(n: nat)
    ensures
        nat_text(n).len() > 0,
        all_digits(nat_text(n)),
    decreases n,
{
    if n >= 10 {
        lemma_nat_text_digits(n / 10);
    }
}

/// Reading the text of a natural number gives the number back.
pub proof fn lemma_nat_text_value(n: nat)
    ensures
        digits_value(nat_text(n)) == n,
    decreases n,
{
    let s = nat_text(n);
    if n < 10 {
        assert(s.drop_last() =~= Seq::<char>::empty());
        assert(digits_value(s.drop_last()) == 0);
        assert(digit_value(s.last()) == n);
    } else {
        lemma_nat_text_value(n / 10);
        assert(s.drop_last() =~= nat_text(n / 10));
        assert(digit_value(s.last()) == n % 10);
    }
}

/// Reading the decimal text of a 64-bit number gives the number back.
pub proof fn lemma_int_text_round_trip(n: int)
    requires
        i64::MIN <= n <= i64::MAX,
    ensures
        text_int(int_text(n)) == Some(n),
{
    let s = int_text(n);
    if n < 0 {
        let m = (-n) as nat;
        lemma_nat_text_digits(m);
        lemma_nat_text_value(m);
        assert(s.skip(1) =~= nat_text(m));
    } else {
        lemma_nat_text_digits(n as nat);
        lemma_nat_text_value(n as nat);
        assert(s[0] != '-');
    }
}

/// The decimal text of a number holds digits and, in front of a negative
/// number, one minus sign: nothing else.
pub proof fn lemma_int_text_chars(n: int)
    ensures
        int_text(n).len() > 0,
        forall|i: int| 0 <= i < int_text(n).len() ==> is_digit(#[trigger] int_text(n)[i]) || int_text(n)[i] == '-',
{
    if n < 0 {
        lemma_nat_text_digits((-n) as nat);
    } else {
        lemma_nat_text_digits(n as nat);
    }
}

/// A run of digits denotes at least what any of its prefixes denotes.
pub proof fn lemma_digits_value_prefix(s: Seq<char>, k: int)
    requires
        all_digits(s),
        0 <= k <= s.len(),
    ensures
        digits_value(s.take(k)) <= digits_value(s),
    decreases s.len() - k,
{
    if k < s.len() {
        lemma_digits_value_prefix(s, k + 1);
        let longer = s.take(k + 1);
        assert(longer.drop_last() =~= s.take(k));
        assert(is_digit(longer.last()));
    } else {
        assert(s.take(k) =~= s);
    }
}

/// Whether `c` is a decimal digit.
pub fn is_digit_char(c: char) -> (b: bool)
    ensures
        b == is_digit(c),
{
    c >= '0' && c <= '9'
}

/// Appends the digits of `n` to `out`.
fn push_digits(out: &mut String, n: u64)
    ensures
        final(out)@ == old(out)@ + nat_text(n as nat),
    decreases n,
{
    if n >= 10 {
        push_digits(out, n / 10);
    }
    let d: u8 = (n % 10) as u8;
    out.push((48u8 + d) as char);
    assert(final(out)@ =~= old(out)@ + nat_text(n as nat));
}

/// The decimal text of `n`.
pub fn format_i64(n: i64) -> (s: String)
    ensures
        s@ == int_text(n as int),
{
    let mut s = String::new();
    if n < 0 {
        s.push('-');
        let magnitude: u64 = (-(n + 1)) as u64 + 1;
        push_digits(&mut s, magnitude);
        assert(s@ =~= int_text(n as int));
    } else {
        push_digits(&mut s, n as u64);
        assert(s@ =~= int_text(n as int));
    }
    s
}

/// Reads a 64-bit signed number: `None` unless `s` is an optional minus sign
/// and then digits that denote a number in range.
pub fn parse_i64(s: &[char]) -> (r: Option<i64>)
    ensures
        match r {
            Some(n) => text_int(s@) == Some(n as int),
            None => text_int(s@) is None,
        },
{
    let negative = s.len() > 0 && s[0] == '-';
    let start: usize = if negative { 1 } else { 0 };
    let ghost digits = s@.skip(start as int);
    if start == s.len() {
        return None;
    }
    // The magnitude is gathered below zero, where `i64` has room for one more.
    let mut acc: i64 = 0;
    let mut i: usize = start;
    while i < s.len()
        invariant
            start <= i <= s.len(),
            start < s.len(),
            negative == (s@.len() > 0 && s@[0] == '-'),
            digits == s@.skip(start as int),
            digits == if negative { s@.skip(1) } else { s@ },
            all_digits(digits.take(i - start)),
            acc as int == -(digits_value(digits.take(i - start)) as int),
        decreases s.len() - i,
    {
        let c = s[i];
        let ghost before = digits.take(i - start);
        let ghost after = digits.take(i + 1 - start);
        assert(after.drop_last() =~= before);
        assert(after.last() == c);
        if !is_digit_char(c) {
            assert(!is_digit(digits[i - start]));
            return None;
        }
        let d: i64 = (c as u32 - '0' as u32) as i64;
        assert(d == digit_value(c));
        let next = match acc.checked_mul(10) {
            Some(tenfold) => tenfold.checked_sub(d),
            None => None,
        };
        match next {
            Some(value) => {
                acc = value;
            },
            None => {
                proof {
                    // ten times the magnitude so far, and this digit, pass
                    // the range; whatever follows only adds to it
                    assert(acc * 10 - d < i64::MIN);
                    if all_digits(digits) {
                        lemma_digits_value_prefix(digits, i + 1 - start);
                    }
                }
                return None;
            },
        }
        i = i + 1;
        assert(all_digits(after)) by {
            assert forall|k: int| 0 <= k < after.len() implies is_digit(#[trigger] after[k]) by {
                if k < before.len() {
                    assert(after[k] == before[k]);
                }
            }
        }
    }
    assert(digits.take(s.len() - start) =~= digits);
    if negative {
        Some(acc)
    } else if acc == i64::MIN {
        None
    } else {
        Some(-acc)
    }
}

} // verus!

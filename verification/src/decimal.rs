//! Unsigned decimal numerals.
//!
//! A numeral is an optional `+` sign followed by one or more ASCII digits.
//! Its value must fit the target integer type; anything else is not a
//! numeral. Years, months, days and page numbers are written as numerals in
//! URLs and captions, and each of them counts from one: a numeral worth zero
//! names none of them.

use vstd::prelude::*;

verus! {

/// `c` is one of the ASCII digits `0` to `9`.
pub open spec fn is_digit(c: char) -> bool {
    '0' <= c && c <= '9'
}

/// The number that the ASCII digit `c` stands for.
pub open spec fn digit_value(c: char) -> nat
    recommends
        is_digit(c),
{
    (c as nat - '0' as nat) as nat
}

/// Every character of `s` is an ASCII digit.
pub open spec fn all_digits(s: Seq<char>) -> bool {
    forall|i: int| 0 <= i < s.len() ==> is_digit(#[trigger] s[i])
}

/// The number written by the digit string `s`, most significant digit first.
/// The empty string counts as zero.
pub open spec fn decimal_value(s: Seq<char>) -> nat
    recommends
        all_digits(s),
    decreases s.len(),
{
    if s.len() == 0 {
        0
    } else {
        decimal_value(s.drop_last()) * 10 + digit_value(s.last())
    }
}

/// What is left of `s` once one leading `+` sign, if present, is removed.
pub open spec fn without_plus(s: Seq<char>) -> Seq<char> {
    if s.len() > 0 && s[0] == '+' {
        s.skip(1)
    } else {
        s
    }
}

/// `s` is a numeral whose value fits in 32 bits.
pub open spec fn is_u32_numeral(s: Seq<char>) -> bool {
    let digits = without_plus(s);
    &&& digits.len() > 0
    &&& all_digits(digits)
    &&& decimal_value(digits) <= u32::MAX
}

/// The value of `s` where it is a 32-bit numeral, `None` elsewhere.
pub open spec fn u32_numeral(s: Seq<char>) -> Option<u32> {
    if is_u32_numeral(s) {
        Some(decimal_value(without_plus(s)) as u32)
    } else {
        None
    }
}

/// The value of `s` where it is a 32-bit numeral worth more than zero,
/// `None` elsewhere.
pub open spec fn positive_numeral(s: Seq<char>) -> Option<u32> {
    match u32_numeral(s) {
        Some(value) if value > 0 => Some(value),
        _ => None,
    }
}

/// A digit string is worth at least as much as any of its prefixes.
pub proof fn lemma_prefix_value_le(s: Seq<char>, k: int)
    requires
        0 <= k <= s.len(),
    ensures
        decimal_value(s.take(k)) <= decimal_value(s),
    decreases s.len(),
{
    if k == s.len() {
        assert(s.take(k) == s);
    } else {
        assert(s.drop_last().take(k) == s.take(k));
        lemma_prefix_value_le(s.drop_last(), k);
    }
}

/// A string of `n` digits is worth less than the `n`-th power of ten; the two
/// and four digit cases are what dates need.
pub proof fn lemma_short_values(s: Seq<char>)
    requires
        all_digits(s),
    ensures
        s.len() == 1 ==> decimal_value(s) == digit_value(s[0]),
        s.len() == 2 ==> decimal_value(s) == digit_value(s[0]) * 10 + digit_value(s[1]),
        s.len() == 4 ==> decimal_value(s) == digit_value(s[0]) * 1000 + digit_value(s[1]) * 100
            + digit_value(s[2]) * 10 + digit_value(s[3]),
        s.len() <= 4 ==> decimal_value(s) <= 9999,
{
    reveal_with_fuel(decimal_value, 5);
    if s.len() == 1 {
        assert(s.drop_last().len() == 0);
    } else if s.len() == 2 {
        let a = s.drop_last();
        assert(a[0] == s[0]);
        assert(a.drop_last().len() == 0);
    } else if s.len() == 3 {
        let a = s.drop_last();
        let b = a.drop_last();
        assert(a.last() == s[1]);
        assert(b.last() == s[0]);
        assert(b.drop_last().len() == 0);
    } else if s.len() == 4 {
        let a = s.drop_last();
        let b = a.drop_last();
        let c = b.drop_last();
        assert(a.last() == s[2]);
        assert(b.last() == s[1]);
        assert(c.last() == s[0]);
        assert(c.drop_last().len() == 0);
    }
}

/// Whether `c` is an ASCII digit.
pub fn is_ascii_digit(c: char) -> (yes: bool)
    ensures
        yes == is_digit(c),
{
    '0' <= c && c <= '9'
}

/// Reads the characters of `chars` from `from` up to, not including, `to` as
/// a 32-bit numeral.
pub fn parse_u32_range(chars: &Vec<char>, from: usize, to: usize) -> (value: Option<u32>)
    requires
        from <= to <= chars@.len(),
    ensures
        value == u32_numeral(chars@.subrange(from as int, to as int)),
{
    let ghost text = chars@.subrange(from as int, to as int);
    let start: usize = if from < to && chars[from] == '+' {
        from + 1
    } else {
        from
    };
    let ghost digits = without_plus(text);
    assert(digits == chars@.subrange(start as int, to as int));
    if start == to {
        return None;
    }
    let mut acc: u64 = 0;
    let mut i: usize = start;
    while i < to
        invariant
            start <= i <= to <= chars@.len(),
            digits == chars@.subrange(start as int, to as int),
            digits == without_plus(text),
            text == chars@.subrange(from as int, to as int),
            digits.len() > 0,
            all_digits(digits.take(i - start)),
            acc == decimal_value(digits.take(i - start)),
            acc <= u32::MAX,
        decreases to - i,
    {
        let c = chars[i];
        assert(c == digits[i - start]);
        if !is_ascii_digit(c) {
            return None;
        }
        let d: u64 = (c as u32 - '0' as u32) as u64;
        let next: u64 = acc * 10 + d;
        proof {
            let shorter = digits.take(i - start);
            let longer = digits.take(i - start + 1);
            assert(longer.drop_last() == shorter);
            assert(longer.last() == c);
            assert(next == decimal_value(longer));
            assert forall|j: int| 0 <= j < longer.len() implies is_digit(#[trigger] longer[j]) by {
                if j < shorter.len() {
                    assert(longer[j] == shorter[j]);
                }
            }
        }
        if next > 0xffff_ffff {
            proof {
                lemma_prefix_value_le(digits, i - start + 1);
            }
            return None;
        }
        acc = next;
        i = i + 1;
    }
    assert(digits.take(to - start) == digits);
    Some(acc as u32)
}

/// Reads the whole of `chars` as a 32-bit numeral.
pub fn parse_u32(chars: &Vec<char>) -> (value: Option<u32>)
    ensures
        value == u32_numeral(chars@),
{
    assert(chars@.subrange(0, chars@.len() as int) == chars@);
    parse_u32_range(chars, 0, chars.len())
}

/// Reads the characters of `chars` from `from` up to, not including, `to` as
/// a 32-bit numeral worth more than zero.
pub fn parse_positive_range(chars: &Vec<char>, from: usize, to: usize) -> (value: Option<u32>)
    requires
        from <= to <= chars@.len(),
    ensures
        value == positive_numeral(chars@.subrange(from as int, to as int)),
{
    match parse_u32_range(chars, from, to) {
        Some(value) => if value > 0 {
            Some(value)
        } else {
            None
        },
        None => None,
    }
}

/// Reads the whole of `chars` as a 32-bit numeral worth more than zero.
pub fn parse_positive(chars: &Vec<char>) -> (value: Option<u32>)
    ensures
        value == positive_numeral(chars@),
{
    assert(chars@.subrange(0, chars@.len() as int) == chars@);
    parse_positive_range(chars, 0, chars.len())
}

} // verus!

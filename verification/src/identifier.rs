//! Node keys read from URLs by position.
//!
//! The part of a URL after its last `/` is its tail. A month index is named
//! by a tail of exactly six characters, a four-character year followed by a
//! two-character month. A day page carries its day in the seventh and
//! eighth character of its tail. Each of the three fields is a numeral
//! worth more than zero. Nothing is guessed: a URL that does not fit is
//! reported with the reason.

use vstd::prelude::*;
use crate::decimal::{
    all_digits,
    digit_value,
    is_digit,
    lemma_short_values,
    parse_positive_range,
    positive_numeral,
    without_plus,
};
use crate::error::IdentifierFault;

verus! {

/// Number of characters in the tail of a month index URL.
pub const MONTH_TAIL_LEN: usize = 6;

/// Number of characters of the tail that a year takes.
pub const YEAR_LEN: usize = 4;

/// Position in the tail of the first character of the day.
pub const DAY_START: usize = 6;

/// Position in the tail just after the last character of the day.
pub const DAY_END: usize = 8;

/// Position of the last `/` in `s`, if there is one.
pub open spec fn last_separator(s: Seq<char>) -> Option<int>
    decreases s.len(),
{
    if s.len() == 0 {
        None
    } else if s.last() == '/' {
        Some(s.len() - 1)
    } else {
        last_separator(s.drop_last())
    }
}

/// The tail of `url`: what follows its last `/`. A URL without a `/` has none.
pub open spec fn tail_of(url: Seq<char>) -> Option<Seq<char>> {
    match last_separator(url) {
        Some(i) => Some(url.skip(i + 1)),
        None => None,
    }
}

/// The year and month that `url` names, or the reason why it names none.
pub open spec fn month_key(url: Seq<char>) -> Result<(u32, u32), IdentifierFault> {
    match tail_of(url) {
        None => Err(IdentifierFault::NoSeparator),
        Some(tail) => if tail.len() != MONTH_TAIL_LEN {
            Err(IdentifierFault::WrongLength)
        } else {
            match (
                positive_numeral(tail.subrange(0, YEAR_LEN as int)),
                positive_numeral(tail.subrange(YEAR_LEN as int, MONTH_TAIL_LEN as int)),
            ) {
                (Some(year), Some(month)) => Ok((year, month)),
                _ => Err(IdentifierFault::NotNumeric),
            }
        },
    }
}

/// The day that `url` names, or the reason why it names none.
pub open spec fn day_key(url: Seq<char>) -> Result<u32, IdentifierFault> {
    match tail_of(url) {
        None => Err(IdentifierFault::NoSeparator),
        Some(tail) => if tail.len() < DAY_END {
            Err(IdentifierFault::WrongLength)
        } else {
            match positive_numeral(tail.subrange(DAY_START as int, DAY_END as int)) {
                Some(day) => Ok(day),
                None => Err(IdentifierFault::NotNumeric),
            }
        },
    }
}

/// `last_separator` finds a `/` after which no other `/` follows, and finds
/// none only where the string holds none.
pub proof fn lemma_last_separator(s: Seq<char>)
    ensures
        match last_separator(s) {
            Some(i) => 0 <= i < s.len() && s[i] == '/' && forall|j: int|
                i < j < s.len() ==> s[j] != '/',
            None => forall|j: int| 0 <= j < s.len() ==> s[j] != '/',
        },
    decreases s.len(),
{
    if s.len() > 0 && s.last() != '/' {
        lemma_last_separator(s.drop_last());
        let shorter = s.drop_last();
        assert forall|j: int| 0 <= j < shorter.len() implies shorter[j] == s[j] by {}
    }
}

/// A position that holds a `/` and is followed by none is the last separator.
pub proof fn lemma_last_separator_unique(s: Seq<char>, i: int)
    requires
        0 <= i < s.len(),
        s[i] == '/',
        forall|j: int| i < j < s.len() ==> s[j] != '/',
    ensures
        last_separator(s) == Some(i),
{
    lemma_last_separator(s);
}

/// Finds the last `/` of `chars`.
pub fn find_last_separator(chars: &Vec<char>) -> (found: Option<usize>)
    ensures
        match found {
            Some(i) => i < chars@.len() && last_separator(chars@) == Some(i as int),
            None => last_separator(chars@) is None,
        },
{
    let mut i: usize = chars.len();
    while i > 0
        invariant
            i <= chars@.len(),
            forall|j: int| i <= j < chars@.len() ==> chars@[j] != '/',
        decreases i,
    {
        i = i - 1;
        if chars[i] == '/' {
            proof {
                lemma_last_separator_unique(chars@, i as int);
            }
            return Some(i);
        }
    }
    proof {
        lemma_last_separator(chars@);
    }
    None
}

/// Reads the year and month out of the characters of a month index URL.
pub fn parse_month_key(chars: &Vec<char>) -> (key: Result<(u32, u32), IdentifierFault>)
    ensures
        key == month_key(chars@),
{
    let len: usize = chars.len();
    let start: usize = match find_last_separator(chars) {
        Some(i) => i + 1,
        None => {
            return Err(IdentifierFault::NoSeparator);
        },
    };
    let ghost tail = chars@.skip(start as int);
    if len - start != MONTH_TAIL_LEN {
        return Err(IdentifierFault::WrongLength);
    }
    assert(tail.subrange(0, YEAR_LEN as int) == chars@.subrange(
        start as int,
        start + YEAR_LEN as int,
    ));
    assert(tail.subrange(YEAR_LEN as int, MONTH_TAIL_LEN as int) == chars@.subrange(
        start + YEAR_LEN as int,
        start + MONTH_TAIL_LEN as int,
    ));
    let year = parse_positive_range(chars, start, start + YEAR_LEN);
    let month = parse_positive_range(chars, start + YEAR_LEN, start + MONTH_TAIL_LEN);
    match (year, month) {
        (Some(year), Some(month)) => Ok((year, month)),
        _ => Err(IdentifierFault::NotNumeric),
    }
}

/// Reads the day out of the characters of a day page URL.
pub fn parse_day_key(chars: &Vec<char>) -> (key: Result<u32, IdentifierFault>)
    ensures
        key == day_key(chars@),
{
    let len: usize = chars.len();
    let start: usize = match find_last_separator(chars) {
        Some(i) => i + 1,
        None => {
            return Err(IdentifierFault::NoSeparator);
        },
    };
    let ghost tail = chars@.skip(start as int);
    if len - start < DAY_END {
        return Err(IdentifierFault::WrongLength);
    }
    assert(tail.subrange(DAY_START as int, DAY_END as int) == chars@.subrange(
        start + DAY_START as int,
        start + DAY_END as int,
    ));
    match parse_positive_range(chars, start + DAY_START, start + DAY_END) {
        Some(day) => Ok(day),
        None => Err(IdentifierFault::NotNumeric),
    }
}

/// The number that four digits spell in base ten.
pub open spec fn four_digits(a: char, b: char, c: char, d: char) -> nat {
    digit_value(a) * 1000 + digit_value(b) * 100 + digit_value(c) * 10 + digit_value(d)
}

/// The number that two digits spell in base ten.
pub open spec fn two_digits(a: char, b: char) -> nat {
    digit_value(a) * 10 + digit_value(b)
}

/// What a month key is, in terms of the tail. A tail of fewer than six
/// characters names no month. A tail of exactly six names the year that its
/// first four characters spell and the month that its last two spell, where
/// both are numerals above zero. Where all six are digits, these are the
/// numbers that the digits stand for in base ten, and the tail names no
/// month where either number is zero.
pub proof fn lemma_month_key_exact(url: Seq<char>, tail: Seq<char>)
    requires
        tail_of(url) == Some(tail),
    ensures
        tail.len() < 6 ==> month_key(url) == Err::<(u32, u32), IdentifierFault>(
            IdentifierFault::WrongLength,
        ),
        tail.len() == 6 ==> (month_key(url) is Ok <==> positive_numeral(tail.subrange(0, 4))
            is Some && positive_numeral(tail.subrange(4, 6)) is Some),
        tail.len() == 6 && month_key(url) is Ok ==> month_key(url) == Ok::<
            (u32, u32),
            IdentifierFault,
        >((positive_numeral(tail.subrange(0, 4))->0, positive_numeral(tail.subrange(4, 6))->0)),
        month_key(url) matches Ok((year, month)) ==> year > 0 && month > 0,
        tail.len() == 6 && all_digits(tail) && four_digits(tail[0], tail[1], tail[2], tail[3]) > 0
            && two_digits(tail[4], tail[5]) > 0 ==> month_key(url) == Ok::<
            (u32, u32),
            IdentifierFault,
        >(
            (
                four_digits(tail[0], tail[1], tail[2], tail[3]) as u32,
                two_digits(tail[4], tail[5]) as u32,
            ),
        ),
        tail.len() == 6 && all_digits(tail) && (four_digits(tail[0], tail[1], tail[2], tail[3])
            == 0 || two_digits(tail[4], tail[5]) == 0) ==> month_key(url) == Err::<
            (u32, u32),
            IdentifierFault,
        >(IdentifierFault::NotNumeric),
{
    if tail.len() == 6 && all_digits(tail) {
        let year = tail.subrange(0, 4);
        let month = tail.subrange(4, 6);
        assert(all_digits(year)) by {
            assert forall|i: int| 0 <= i < year.len() implies is_digit(#[trigger] year[i]) by {
                assert(year[i] == tail[i]);
            }
        }
        assert(all_digits(month)) by {
            assert forall|i: int| 0 <= i < month.len() implies is_digit(#[trigger] month[i]) by {
                assert(month[i] == tail[i + 4]);
            }
        }
        assert(is_digit(year[0]));
        assert(is_digit(month[0]));
        assert(without_plus(year) == year);
        assert(without_plus(month) == month);
        lemma_short_values(year);
        lemma_short_values(month);
    }
}

/// What a day key is, in terms of the tail. In a tail of eight characters
/// or more the day is the number above zero that the seventh and eighth
/// character spell, whatever stands around them. Where the two are digits,
/// it is the number that they stand for in base ten, and the tail names no
/// day where that number is zero. A shorter tail names no day.
pub proof fn lemma_day_key_exact(url: Seq<char>, tail: Seq<char>)
    requires
        tail_of(url) == Some(tail),
    ensures
        tail.len() < 8 ==> day_key(url) == Err::<u32, IdentifierFault>(
            IdentifierFault::WrongLength,
        ),
        tail.len() >= 8 ==> day_key(url) == match positive_numeral(tail.subrange(6, 8)) {
            Some(day) => Ok::<u32, IdentifierFault>(day),
            None => Err::<u32, IdentifierFault>(IdentifierFault::NotNumeric),
        },
        day_key(url) matches Ok(day) ==> day > 0,
        tail.len() >= 8 && is_digit(tail[6]) && is_digit(tail[7]) && two_digits(tail[6], tail[7])
            > 0 ==> day_key(url) == Ok::<u32, IdentifierFault>(
            two_digits(tail[6], tail[7]) as u32,
        ),
        tail.len() >= 8 && is_digit(tail[6]) && is_digit(tail[7]) && two_digits(tail[6], tail[7])
            == 0 ==> day_key(url) == Err::<u32, IdentifierFault>(IdentifierFault::NotNumeric),
{
    if tail.len() >= 8 && is_digit(tail[6]) && is_digit(tail[7]) {
        let day = tail.subrange(6, 8);
        assert(day[0] == tail[6]);
        assert(day[1] == tail[7]);
        assert(all_digits(day));
        assert(without_plus(day) == day);
        lemma_short_values(day);
    }
}

} // verus!

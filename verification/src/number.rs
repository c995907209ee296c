//! Signed decimal integers written as text.
//!
//! An integer is written as an optional sign, `+` or `-`, and then one or more
//! of the digits `0` to `9`. Nothing else may stand in the text: no white
//! space, no separator, no fraction.

use crate::text::to_chars;
use vstd::prelude::*;
use vstd::string::StringExecFns;

verus! {

/// Whether `c` is one of the digits `0` to `9`.
pub open spec fn is_digit(c: char) -> bool {
    '0' <= c <= '9'
}

/// The number that the digit `c` stands for.
pub open spec fn digit_value(c: char) -> nat
    recommends
        is_digit(c),
{
    (c as u32 - '0' as u32) as nat
}

/// Whether `s` holds digits only.
pub open spec fn all_digits(s: Seq<char>) -> bool {
    forall|i: int| 0 <= i < s.len() ==> is_digit(#[trigger] s[i])
}

/// The number that the digits `s` spell in base ten.
pub open spec fn decimal_value(s: Seq<char>) -> nat
    recommends
        all_digits(s),
    decreases s.len(),
{
    if s.len() == 0 {
        0
    } else {
        10 * decimal_value(s.drop_last()) + digit_value(s.last())
    }
}

/// Whether `s` begins with a sign.
pub open spec fn has_sign(s: Seq<char>) -> bool {
    s.len() > 0 && (s[0] == '+' || s[0] == '-')
}

/// The digits of `s`: what follows the sign, if there is one.
pub open spec fn digits_of(s: Seq<char>) -> Seq<char> {
    if has_sign(s) {
        s.drop_first()
    } else {
        s
    }
}

/// Whether `s` is an integer written in base ten.
pub open spec fn is_integer(s: Seq<char>) -> bool {
    digits_of(s).len() > 0 && all_digits(digits_of(s))
}

/// The integer that `s` spells, of any size.
pub open spec fn integer_value(s: Seq<char>) -> int
    recommends
        is_integer(s),
{
    if has_sign(s) && s[0] == '-' {
        -(decimal_value(digits_of(s)) as int)
    } else {
        decimal_value(digits_of(s)) as int
    }
}

/// The integer that `s` spells, where `s` is an integer that fits in 64 bits.
pub open spec fn parsed_i64(s: Seq<char>) -> Option<i64> {
    if is_integer(s) && i64::MIN <= integer_value(s) <= i64::MAX {
        Some(integer_value(s) as i64)
    } else {
        None
    }
}

/// Digits that `s` begins with spell no more than `s` does.
pub proof fn lemma_decimal_value_of_prefix(s: Seq<char>, n: int)
    requires
        0 <= n <= s.len(),
    ensures
        decimal_value(s.take(n)) <= decimal_value(s),
    decreases s.len(),
{
    if n < s.len() {
        lemma_decimal_value_of_prefix(s.drop_last(), n);
        assert(s.drop_last().take(n) == s.take(n));
    } else {
        assert(s.take(n) == s);
    }
}

/// The number that the digit `c` stands for, if `c` is a digit.
pub fn digit(c: char) -> (d: Option<u8>)
    ensures
        d is Some <==> is_digit(c),
        d matches Some(v) ==> v == digit_value(c) && v <= 9,
{
    if c >= '0' && c <= '9' {
        Some(((c as u32) - ('0' as u32)) as u8)
    } else {
        None
    }
}

/// Reads the characters of `chars` from `start` up to, and without, `end` as
/// an integer of 64 bits.
#[verifier::loop_isolation(false)]
pub(crate) fn parse_i64_between(chars: &Vec<char>, start: usize, end: usize) -> (value: Option<i64>)
    requires
        start <= end <= chars.len(),
    ensures
        value == parsed_i64(chars@.subrange(start as int, end as int)),
{
    let ghost text = chars@.subrange(start as int, end as int);
    let mut at: usize = start;
    let mut negative: bool = false;
    if at < end && (chars[at] == '+' || chars[at] == '-') {
        negative = chars[at] == '-';
        at += 1;
    }
    let first: usize = at;
    let ghost digits = digits_of(text);
    assert(digits == chars@.subrange(first as int, end as int));
    if first == end {
        return None;
    }
    // The largest magnitude that fits: one more below zero than above.
    let limit: u64 = if negative {
        0x8000_0000_0000_0000
    } else {
        0x7fff_ffff_ffff_ffff
    };
    let mut magnitude: u64 = 0;
    while at < end
        invariant
            first <= at <= end,
            all_digits(digits.take(at - first)),
            magnitude == decimal_value(digits.take(at - first)),
            magnitude <= limit,
        decreases end - at,
    {
        let ghost read = digits.take(at - first);
        let ghost next = digits.take(at - first + 1);
        assert(next.drop_last() == read);
        assert(next.last() == chars[at as int]);
        match digit(chars[at]) {
            None => {
                assert(!is_digit(digits[at - first]));
                return None;
            },
            Some(d) => {
                assert forall|i: int| 0 <= i < next.len() implies is_digit(#[trigger] next[i]) by {
                    if i < read.len() {
                        assert(next[i] == read[i]);
                    }
                }
                if magnitude > (limit - d as u64) / 10 {
                    proof {
                        assert(decimal_value(next) > limit);
                        lemma_decimal_value_of_prefix(digits, at - first + 1);
                    }
                    return None;
                }
                magnitude = magnitude * 10 + d as u64;
            },
        }
        at += 1;
    }
    assert(digits.take(end - first) == digits);
    if negative {
        if magnitude == 0x8000_0000_0000_0000 {
            Some(i64::MIN)
        } else {
            Some(-(magnitude as i64))
        }
    } else {
        Some(magnitude as i64)
    }
}

/// Reads `text` as an integer of 64 bits.
///
/// Gives `None` where `text` is not an integer, or is one that 64 bits cannot
/// hold.
pub fn parse_i64(text: &str) -> (value: Option<i64>)
    ensures
        value == parsed_i64(text@),
{
    let chars: Vec<char> = to_chars(text);
    assert(chars@.subrange(0, chars.len() as int) == text@);
    parse_i64_between(&chars, 0, chars.len())
}

/// The character that stands for the digit of value `d`.
pub open spec fn digit_char(d: nat) -> char
    recommends
        d <= 9,
{
    ('0' as u32 + d) as char
}

/// The digits that spell `n` in base ten, with no zero in front: the number
/// 0 is spelled `0`.
pub open spec fn decimal_digits(n: nat) -> Seq<char>
    decreases n,
{
    if n < 10 {
        seq![digit_char(n)]
    } else {
        decimal_digits(n / 10).push(digit_char(n % 10))
    }
}

/// The text of the integer `v` in base ten: its digits, behind a `-` where
/// `v` is below zero.
pub open spec fn decimal_text(v: int) -> Seq<char> {
    if v < 0 {
        seq!['-'] + decimal_digits((-v) as nat)
    } else {
        decimal_digits(v as nat)
    }
}

/// The digits of a number are digits, and they spell the number.
pub proof fn lemma_decimal_digits_spell(n: nat)
    ensures
        decimal_digits(n).len() > 0,
        all_digits(decimal_digits(n)),
        decimal_value(decimal_digits(n)) == n,
        !has_sign(decimal_digits(n)),
    decreases n,
{
    let digits = decimal_digits(n);
    if n < 10 {
        assert(digits[0] == digit_char(n));
        assert(digits.drop_last() == Seq::<char>::empty());
        assert(decimal_value(digits.drop_last()) == 0);
    } else {
        let front = decimal_digits(n / 10);
        lemma_decimal_digits_spell(n / 10);
        assert(digits.drop_last() == front);
        assert(digits.last() == digit_char(n % 10));
        assert forall|i: int| 0 <= i < digits.len() implies is_digit(#[trigger] digits[i]) by {
            if i < front.len() {
                assert(digits[i] == front[i]);
            }
        }
        assert(digits[0] == front[0]);
    }
}

/// The text of an integer of 64 bits is read back as that integer.
pub proof fn lemma_decimal_text_is_read_back(v: i64)
    ensures
        parsed_i64(decimal_text(v as int)) == Some(v),
{
    let text = decimal_text(v as int);
    if v < 0 {
        let digits = decimal_digits((-v) as nat);
        lemma_decimal_digits_spell((-v) as nat);
        assert(text[0] == '-');
        assert(text.drop_first() == digits);
    } else {
        lemma_decimal_digits_spell(v as nat);
    }
}

/// The text of the digit of value `d`.
fn digit_text(d: u8) -> (text: &'static str)
    requires
        d <= 9,
    ensures
        text@ == seq![digit_char(d as nat)],
{
    proof {
        reveal_strlit("0");
        reveal_strlit("1");
        reveal_strlit("2");
        reveal_strlit("3");
        reveal_strlit("4");
        reveal_strlit("5");
        reveal_strlit("6");
        reveal_strlit("7");
        reveal_strlit("8");
        reveal_strlit("9");
    }
    let text: &'static str = match d {
        0 => "0",
        1 => "1",
        2 => "2",
        3 => "3",
        4 => "4",
        5 => "5",
        6 => "6",
        7 => "7",
        8 => "8",
        _ => "9",
    };
    assert(text@ =~= seq![digit_char(d as nat)]);
    text
}

/// Writes the digits of `n` behind `text`.
fn append_decimal_digits(text: &mut String, n: u64)
    ensures
        final(text)@ == old(text)@ + decimal_digits(n as nat),
    decreases n,
{
    if n >= 10 {
        append_decimal_digits(text, n / 10);
    }
    let last: u8 = (n % 10) as u8;
    text.append(digit_text(last));
    proof {
        if n >= 10 {
            assert(text@ =~= old(text)@ + decimal_digits(n as nat / 10).push(
                digit_char(n as nat % 10),
            ));
        }
    }
}

/// The text of `v` in base ten.
pub fn i64_text(v: i64) -> (text: String)
    ensures
        text@ == decimal_text(v as int),
{
    let mut text: String = String::new();
    if v < 0 {
        proof {
            reveal_strlit("-");
        }
        text.append("-");
        assert(text@ =~= seq!['-']);
        let magnitude: u64 = if v == i64::MIN {
            0x8000_0000_0000_0000
        } else {
            (-v) as u64
        };
        append_decimal_digits(&mut text, magnitude);
    } else {
        append_decimal_digits(&mut text, v as u64);
        assert(text@ =~= decimal_digits(v as nat));
    }
    text
}

} // verus!

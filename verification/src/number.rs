//! Reading an unsigned decimal number.
//!
//! A number is an optional `+` followed by at least one decimal digit. Leading
//! zeros are allowed; a value that does not fit the type is no number.

use vstd::prelude::*;
use vstd::string::*;
use crate::text::{chars_of, push_char};

verus! {

/// Whether `c` is one of `0` to `9`.
pub open spec fn is_digit(c: char) -> bool {
    '0' <= c && c <= '9'
}

/// The value of the digit `c`.
pub open spec fn digit_value(c: char) -> nat {
    (c as int - '0' as int) as nat
}

/// Whether `s` holds digits only.
pub open spec fn all_digits(s: Seq<char>) -> bool {
    forall|i: int| 0 <= i < s.len() ==> is_digit(#[trigger] s[i])
}

/// The value of the digits `s`, read as a decimal number; zero for no digit.
pub open spec fn decimal_value(s: Seq<char>) -> nat
    decreases s.len(),
{
    if s.len() == 0 {
        0
    } else {
        10 * decimal_value(s.drop_last()) + digit_value(s.last())
    }
}

/// `s` without the `+` that may stand in front.
pub open spec fn without_sign(s: Seq<char>) -> Seq<char> {
    if s.len() > 0 && s[0] == '+' {
        s.drop_first()
    } else {
        s
    }
}

/// The number that `s` stands for, if it is one.
pub open spec fn parsed_usize(s: Seq<char>) -> Option<usize> {
    let digits = without_sign(s);
    if digits.len() > 0 && all_digits(digits) && decimal_value(digits) <= usize::MAX {
        Some(decimal_value(digits) as usize)
    } else {
        None
    }
}

/// A longer run of digits does not stand for a smaller number.
pub proof fn lemma_decimal_value_grows(s: Seq<char>, i: int, j: int)
    requires
        0 <= i <= j <= s.len(),
    ensures
        decimal_value(s.subrange(0, i)) <= decimal_value(s.subrange(0, j)),
    decreases j - i,
{
    if i < j {
        lemma_decimal_value_grows(s, i, j - 1);
        assert(s.subrange(0, j).drop_last() =~= s.subrange(0, j - 1));
    }
}

/// The value of a digit, or `None` for any other character.
pub fn digit_of(c: char) -> (d: Option<usize>)
    ensures
        is_digit(c) ==> d == Some(digit_value(c) as usize),
        !is_digit(c) ==> d is None,
        d matches Some(v) ==> v <= 9,
{
    match c {
        '0' => Some(0),
        '1' => Some(1),
        '2' => Some(2),
        '3' => Some(3),
        '4' => Some(4),
        '5' => Some(5),
        '6' => Some(6),
        '7' => Some(7),
        '8' => Some(8),
        '9' => Some(9),
        _ => None,
    }
}

/// Reads `text` as an unsigned decimal number.
pub fn parse_usize(text: &str) -> (number: Option<usize>)
    ensures
        number == parsed_usize(text@),
{
    let chars: Vec<char> = chars_of(text);
    let n: usize = chars.len();
    let start: usize = if n > 0 && chars[0] == '+' {
        1
    } else {
        0
    };
    let ghost digits = without_sign(text@);
    assert(digits =~= chars@.subrange(start as int, n as int));
    if start == n {
        return None;
    }
    let mut value: usize = 0;
    let mut i: usize = start;
    assert(digits.subrange(0, 0) =~= Seq::<char>::empty());
    while i < n
        invariant
            start <= i <= n,
            n == chars@.len(),
            digits == chars@.subrange(start as int, n as int),
            digits == without_sign(text@),
            all_digits(digits.subrange(0, i - start)),
            value == decimal_value(digits.subrange(0, i - start)),
        decreases n - i,
    {
        let ghost seen = digits.subrange(0, i - start);
        let ghost next = digits.subrange(0, i - start + 1);
        assert(next.drop_last() =~= seen);
        assert(next.last() == chars@[i as int]);
        match digit_of(chars[i]) {
            None => {
                assert(!is_digit(digits[i - start]));
                return None;
            },
            Some(d) => {
                proof {
                    lemma_decimal_value_grows(digits, i - start + 1, digits.len() as int);
                    assert(digits.subrange(0, digits.len() as int) =~= digits);
                    assert forall|k: int| 0 <= k < next.len() implies is_digit(
                        #[trigger] next[k],
                    ) by {
                        if k < seen.len() {
                            assert(next[k] == seen[k]);
                        }
                    }
                }
                if value > (usize::MAX - d) / 10 {
                    assert(decimal_value(next) > usize::MAX);
                    return None;
                }
                value = value * 10 + d;
            },
        }
        i += 1;
    }
    assert(digits.subrange(0, digits.len() as int) =~= digits);
    Some(value)
}

/// The character for the digit `d`.
pub open spec fn digit_char(d: nat) -> char {
    if d == 0 {
        '0'
    } else if d == 1 {
        '1'
    } else if d == 2 {
        '2'
    } else if d == 3 {
        '3'
    } else if d == 4 {
        '4'
    } else if d == 5 {
        '5'
    } else if d == 6 {
        '6'
    } else if d == 7 {
        '7'
    } else if d == 8 {
        '8'
    } else {
        '9'
    }
}

/// The decimal digits of `n`, most significant first, without leading zeros.
pub open spec fn decimal_digits(n: nat) -> Seq<char>
    decreases n,
{
    if n < 10 {
        seq![digit_char(n)]
    } else {
        decimal_digits(n / 10).push(digit_char(n % 10))
    }
}

/// The decimal text of `n`: its digits, after a `-` where it is negative.
pub open spec fn decimal_text(n: int) -> Seq<char> {
    if n < 0 {
        seq!['-'] + decimal_digits((-n) as nat)
    } else {
        decimal_digits(n as nat)
    }
}

/// The digits written for a number are digits, and they stand for that number.
pub proof fn lemma_digits_round_trip(n: nat)
    ensures
        decimal_digits(n).len() > 0,
        all_digits(decimal_digits(n)),
        decimal_value(decimal_digits(n)) == n,
    decreases n,
{
    if n < 10 {
        let s = decimal_digits(n);
        assert(s.drop_last() =~= Seq::<char>::empty());
        assert(decimal_value(s.drop_last()) == 0);
        assert(digit_value(digit_char(n)) == n);
    } else {
        lemma_digits_round_trip(n / 10);
        let s = decimal_digits(n);
        let front = decimal_digits(n / 10);
        assert(s.drop_last() =~= front);
        assert(digit_value(digit_char(n % 10)) == n % 10);
        assert forall|i: int| 0 <= i < s.len() implies is_digit(#[trigger] s[i]) by {
            if i < front.len() {
                assert(s[i] == front[i]);
            }
        }
    }
}

/// A number that fits the type is read back from its own digits.
pub proof fn lemma_parse_of_digits(n: usize)
    ensures
        parsed_usize(decimal_digits(n as nat)) == Some(n),
{
    lemma_digits_round_trip(n as nat);
}

/// The character for a digit below ten.
fn char_of_digit(d: u128) -> (c: char)
    requires
        d < 10,
    ensures
        c == digit_char(d as nat),
{
    if d == 0 {
        '0'
    } else if d == 1 {
        '1'
    } else if d == 2 {
        '2'
    } else if d == 3 {
        '3'
    } else if d == 4 {
        '4'
    } else if d == 5 {
        '5'
    } else if d == 6 {
        '6'
    } else if d == 7 {
        '7'
    } else if d == 8 {
        '8'
    } else {
        '9'
    }
}

/// Appends the decimal digits of `n` to `out`.
pub fn push_digits(out: &mut String, n: u128)
    ensures
        final(out)@ == old(out)@ + decimal_digits(n as nat),
{
    let mut low_first: Vec<char> = Vec::new();
    let mut rest: u128 = n;
    assert(decimal_digits(rest as nat) + low_first@.reverse() =~= decimal_digits(n as nat));
    while rest >= 10
        invariant
            decimal_digits(rest as nat) + low_first@.reverse() == decimal_digits(n as nat),
        decreases rest,
    {
        let c: char = char_of_digit(rest % 10);
        proof {
            let before = low_first@;
            let after = before.push(c);
            assert(after.reverse() =~= seq![c] + before.reverse());
            assert(decimal_digits((rest / 10) as nat) + after.reverse() =~= decimal_digits(
                (rest / 10) as nat,
            ).push(c) + before.reverse());
        }
        low_first.push(c);
        rest = rest / 10;
    }
    let c: char = char_of_digit(rest);
    proof {
        let before = low_first@;
        let after = before.push(c);
        assert(after.reverse() =~= seq![c] + before.reverse());
        assert(after.reverse() =~= decimal_digits(n as nat));
    }
    low_first.push(c);
    let mut j: usize = low_first.len();
    let ghost digits = low_first@.reverse();
    assert(out@ =~= old(out)@ + digits.subrange(0, 0));
    while j > 0
        invariant
            j <= low_first@.len(),
            digits == low_first@.reverse(),
            out@ == old(out)@ + digits.subrange(0, low_first@.len() - j),
        decreases j,
    {
        j -= 1;
        push_char(out, low_first[j]);
        assert(digits[low_first@.len() - 1 - j] == low_first@[j as int]);
        assert(out@ =~= old(out)@ + digits.subrange(0, low_first@.len() - j));
    }
    assert(digits.subrange(0, digits.len() as int) =~= digits);
}

/// Appends the decimal text of `n` to `out`.
pub fn push_decimal(out: &mut String, n: i128)
    ensures
        final(out)@ == old(out)@ + decimal_text(n as int),
{
    if n < 0 {
        push_char(out, '-');
        let magnitude: u128 = ((-(n + 1)) as u128) + 1;
        push_digits(out, magnitude);
        assert(out@ =~= old(out)@ + decimal_text(n as int));
    } else {
        push_digits(out, n as u128);
    }
}

} // verus!

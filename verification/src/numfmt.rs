//! Decimal digits: rendering numbers as text and parsing post ids.

use vstd::prelude::*;

verus! {

/// The decimal digit character for `d` in `0..=9`.
pub open spec fn digit_char(d: int) -> char {
    if d == 0 {
        '0'
    } else if d == 1 {
        '1'
    } else if d == 2 {
        '2'
    } else if d == 3 {
        '3'
    } else if d == 4 {
        '4'
    } else if d == 5 {
        '5'
    } else if d == 6 {
        '6'
    } else if d == 7 {
        '7'
    } else if d == 8 {
        '8'
    } else {
        '9'
    }
}

/// The decimal digits of `n`, most significant first, no leading zero
/// except for zero itself.
pub open spec fn dec_nat(n: nat) -> Seq<char>
    decreases n,
{
    if n < 10 {
        seq![digit_char(n as int)]
    } else {
        dec_nat(n / 10) + seq![digit_char((n % 10) as int)]
    }
}

/// The decimal text of `m`, with a leading minus sign when negative.
pub open spec fn dec_int(m: int) -> Seq<char> {
    if m < 0 {
        seq!['-'] + dec_nat((-m) as nat)
    } else {
        dec_nat(m as nat)
    }
}

/// Two decimal digits, zero padded, for `n` in `0..100`.
pub open spec fn two_digits(n: int) -> Seq<char> {
    seq![digit_char(n / 10), digit_char(n % 10)]
}

/// Four decimal digits, zero padded, for `n` in `0..10000`.
pub open spec fn four_digits(n: int) -> Seq<char> {
    seq![
        digit_char(n / 1000),
        digit_char((n / 100) % 10),
        digit_char((n / 10) % 10),
        digit_char(n % 10),
    ]
}

/// Whether `c` is a decimal digit.
pub open spec fn is_dec_digit(c: char) -> bool {
    digit_val(c) >= 0
}

/// The value of the digit character `c`, and `-1` for any other character.
pub open spec fn digit_val(c: char) -> int {
    if c == '0' {
        0
    } else if c == '1' {
        1
    } else if c == '2' {
        2
    } else if c == '3' {
        3
    } else if c == '4' {
        4
    } else if c == '5' {
        5
    } else if c == '6' {
        6
    } else if c == '7' {
        7
    } else if c == '8' {
        8
    } else if c == '9' {
        9
    } else {
        -1
    }
}

/// Whether every character of `s` is a decimal digit.
pub open spec fn all_digits(s: Seq<char>) -> bool {
    forall|i: int| 0 <= i < s.len() ==> is_dec_digit(s[i])
}

/// The value of the digit string `s`, read most significant first.
pub open spec fn dec_value(s: Seq<char>) -> int
    decreases s.len(),
{
    if s.len() == 0 {
        0
    } else {
        dec_value(s.drop_last()) * 10 + digit_val(s.last())
    }
}

/// A digit string's value is never negative.
proof fn lemma_dec_value_nonneg(s: Seq<char>)
    requires
        all_digits(s),
    ensures
        dec_value(s) >= 0,
    decreases s.len(),
{
    if s.len() > 0 {
        lemma_dec_value_nonneg(s.drop_last());
    }
}

/// A digit string's value is at least the value of each of its prefixes.
proof fn lemma_dec_value_prefix_le(s: Seq<char>, j: int)
    requires
        all_digits(s),
        0 <= j <= s.len(),
    ensures
        dec_value(s.take(j)) <= dec_value(s),
    decreases s.len() - j,
{
    if j < s.len() {
        assert(all_digits(s.take(j)));
        lemma_dec_value_nonneg(s.take(j));
        assert(s.take(j + 1).drop_last() =~= s.take(j));
        assert(s.take(j + 1).last() == s[j]);
        lemma_dec_value_prefix_le(s, j + 1);
    } else {
        assert(s.take(j) =~= s);
    }
}

/// The value of a digit character, `None` for any other character.
pub fn char_digit(c: char) -> (r: Option<u8>)
    ensures
        (r is Some) == is_dec_digit(c),
        r matches Some(d) ==> d <= 9 && d as int == digit_val(c),
{
    if c == '0' {
        Some(0)
    } else if c == '1' {
        Some(1)
    } else if c == '2' {
        Some(2)
    } else if c == '3' {
        Some(3)
    } else if c == '4' {
        Some(4)
    } else if c == '5' {
        Some(5)
    } else if c == '6' {
        Some(6)
    } else if c == '7' {
        Some(7)
    } else if c == '8' {
        Some(8)
    } else if c == '9' {
        Some(9)
    } else {
        None
    }
}

/// The digit character for `d` in `0..=9`.
pub fn digit_to_char(d: u8) -> (c: char)
    requires
        d < 10,
    ensures
        c == digit_char(d as int),
{
    if d == 0 {
        '0'
    } else if d == 1 {
        '1'
    } else if d == 2 {
        '2'
    } else if d == 3 {
        '3'
    } else if d == 4 {
        '4'
    } else if d == 5 {
        '5'
    } else if d == 6 {
        '6'
    } else if d == 7 {
        '7'
    } else if d == 8 {
        '8'
    } else {
        '9'
    }
}

/// The decimal digits of `n`, most significant first.
pub fn u64_to_dec_chars(n: u64) -> (r: Vec<char>)
    ensures
        r@ == dec_nat(n as nat),
    decreases n,
{
    if n < 10 {
        let mut v: Vec<char> = Vec::new();
        v.push(digit_to_char(n as u8));
        proof {
            assert(v@ =~= seq![digit_char(n as int)]);
        }
        v
    } else {
        let mut v = u64_to_dec_chars(n / 10);
        v.push(digit_to_char((n % 10) as u8));
        proof {
            assert(v@ =~= dec_nat((n as nat) / 10) + seq![digit_char((n as nat % 10) as int)]);
        }
        v
    }
}

/// The decimal text of `m`, with a minus sign when negative.
pub fn i64_to_dec_chars(m: i64) -> (r: Vec<char>)
    requires
        m > i64::MIN,
    ensures
        r@ == dec_int(m as int),
{
    if m < 0 {
        let mut v: Vec<char> = Vec::new();
        v.push('-');
        let mut w = u64_to_dec_chars((-m) as u64);
        v.append(&mut w);
        proof {
            assert(v@ =~= seq!['-'] + dec_nat((-(m as int)) as nat));
        }
        v
    } else {
        u64_to_dec_chars(m as u64)
    }
}

/// Parse a digit string into an `i64`.
///
/// The result is `Some` exactly when the text is non-empty, holds decimal
/// digits only, and its value fits in an `i64`; the value is then the
/// decimal value of the digits.
pub fn parse_decimal_i64(s: &Vec<char>) -> (r: Option<i64>)
    ensures
        (r is Some) <==> (s@.len() > 0 && all_digits(s@) && dec_value(s@) <= i64::MAX),
        r matches Some(v) ==> v == dec_value(s@),
{
    let n = s.len();
    if n == 0 {
        return None;
    }
    let mut acc: i64 = 0;
    let mut i: usize = 0;
    while i < n
        invariant
            n == s@.len(),
            0 < n,
            i <= n,
            all_digits(s@.take(i as int)),
            acc == dec_value(s@.take(i as int)),
            acc >= 0,
        decreases n - i,
    {
        let c = s[i];
        proof {
            assert(s@.take(i as int + 1).drop_last() =~= s@.take(i as int));
            assert(s@.take(i as int + 1).last() == s@[i as int]);
        }
        let d: i64 = match char_digit(c) {
            Some(d8) => d8 as i64,
            None => {
                proof {
                    assert(!is_dec_digit(s@[i as int]));
                    assert(!all_digits(s@));
                }
                return None;
            },
        };
        proof {
            assert(is_dec_digit(s@[i as int]));
            assert(digit_val(s@[i as int]) == d as int);
            assert forall|k: int| 0 <= k < i as int + 1 implies #[trigger] is_dec_digit(
                s@.take(i as int + 1)[k],
            ) by {
                if k < i as int {
                    assert(s@.take(i as int + 1)[k] == s@.take(i as int)[k]);
                } else {
                    assert(s@.take(i as int + 1)[k] == s@[i as int]);
                }
            }
            assert(dec_value(s@.take(i as int + 1)) == acc * 10 + d);
        }
        if acc > i64::MAX / 10 || (acc == i64::MAX / 10 && d > i64::MAX % 10) {
            proof {
                assert(dec_value(s@.take(i as int + 1)) > i64::MAX);
                if all_digits(s@) {
                    lemma_dec_value_prefix_le(s@, i as int + 1);
                }
            }
            return None;
        }
        acc = acc * 10 + d;
        i += 1;
    }
    proof {
        assert(s@.take(n as int) =~= s@);
    }
    Some(acc)
}

} // verus!

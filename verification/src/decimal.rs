//! Decimal integer tokens: their shape, their value, and a parser for the
//! ones that fit in 32 bits.

use vstd::prelude::*;
use vstd::string::is_ascii_spec_bytes;

verus! {

/// Whether `c` is one of the ten decimal digits.
pub open spec fn is_digit(c: char) -> bool {
    '0' <= c <= '9'
}

/// The number that the digit `c` stands for.
pub open spec fn digit_value(c: char) -> int {
    c as int - '0' as int
}

/// Whether every character of `s` is a decimal digit.
pub open spec fn all_digits(s: Seq<char>) -> bool {
    forall|i: int| 0 <= i < s.len() ==> is_digit(#[trigger] s[i])
}

/// The number that a run of digits denotes in base ten, most significant
/// digit first. The empty run denotes zero.
pub open spec fn digits_value(s: Seq<char>) -> int
    decreases s.len(),
{
    if s.len() == 0 {
        0
    } else {
        digits_value(s.drop_last()) * 10 + digit_value(s.last())
    }
}

/// Whether `s` begins with a minus sign.
pub open spec fn has_minus(s: Seq<char>) -> bool {
    s.len() > 0 && s[0] == '-'
}

/// The shape of a decimal integer token: an optional leading `-`, then one or
/// more digits, and nothing else.
pub open spec fn is_decimal_integer(s: Seq<char>) -> bool {
    if has_minus(s) {
        s.len() > 1 && all_digits(s.skip(1))
    } else {
        s.len() > 0 && all_digits(s)
    }
}

/// The integer that a token of that shape denotes.
pub open spec fn decimal_value(s: Seq<char>) -> int {
    if has_minus(s) {
        -digits_value(s.skip(1))
    } else {
        digits_value(s)
    }
}

/// The signed 32-bit integer that `s` denotes, if `s` has the shape of a
/// decimal integer and its value fits in 32 bits.
pub open spec fn decimal_i32(s: Seq<char>) -> Option<i32> {
    if is_decimal_integer(s) && i32::MIN <= decimal_value(s) <= i32::MAX {
        Some(decimal_value(s) as i32)
    } else {
        None
    }
}

/// The digit character for `d`, where `0 <= d <= 9`.
pub open spec fn digit_char(d: int) -> char {
    ('0' as int + d) as char
}

/// The digits of `n` in base ten, without leading zeros.
pub open spec fn decimal_digits(n: nat) -> Seq<char>
    decreases n,
{
    if n < 10 {
        seq![digit_char(n as int)]
    } else {
        decimal_digits(n / 10).push(digit_char((n % 10) as int))
    }
}

/// The usual way to write the integer `n` in base ten: a `-` if it is
/// negative, then the digits of its magnitude.
pub open spec fn decimal(n: int) -> Seq<char> {
    if n < 0 {
        seq!['-'] + decimal_digits((-n) as nat)
    } else {
        decimal_digits(n as nat)
    }
}

/// A run of digits never denotes a negative number.
pub proof fn lemma_digits_value_nonnegative(s: Seq<char>)
    requires
        all_digits(s),
    ensures
        digits_value(s) >= 0,
    decreases s.len(),
{
    if s.len() > 0 {
        lemma_digits_value_nonnegative(s.drop_last());
    }
}

/// Reading more digits never makes the value smaller.
pub proof fn lemma_digits_value_prefix(s: Seq<char>, k: int)
    requires
        all_digits(s),
        0 <= k <= s.len(),
    ensures
        0 <= digits_value(s.take(k)) <= digits_value(s),
    decreases s.len(),
{
    if k == s.len() {
        assert(s.take(k) =~= s);
        lemma_digits_value_nonnegative(s);
    } else {
        assert(s.drop_last().take(k) =~= s.take(k));
        lemma_digits_value_prefix(s.drop_last(), k);
    }
}

/// The digits written for `n` are digits, there is at least one, and they
/// denote `n`.
pub proof fn lemma_decimal_digits(n: nat)
    ensures
        decimal_digits(n).len() > 0,
        all_digits(decimal_digits(n)),
        digits_value(decimal_digits(n)) == n,
    decreases n,
{
    if n < 10 {
        let s = decimal_digits(n);
        assert(digits_value(s.drop_last()) == 0);
    } else {
        lemma_decimal_digits(n / 10);
        let s = decimal_digits(n);
        assert(s.drop_last() =~= decimal_digits(n / 10));
    }
}

/// Writing an integer in base ten and reading it back gives the integer.
pub proof fn lemma_decimal_round_trip(n: int)
    ensures
        is_decimal_integer(decimal(n)),
        decimal_value(decimal(n)) == n,
{
    if n < 0 {
        let m = (-n) as nat;
        lemma_decimal_digits(m);
        assert(decimal(n).skip(1) =~= decimal_digits(m));
    } else {
        lemma_decimal_digits(n as nat);
    }
}

/// A decimal integer token holds ASCII characters only.
pub proof fn lemma_decimal_integer_is_ascii(s: Seq<char>)
    requires
        is_decimal_integer(s),
    ensures
        vstd::utf8::is_ascii_chars(s),
{
    assert forall|i: int| 0 <= i < s.len() implies '\0' <= #[trigger] s[i] <= '\u{7f}' by {
        if has_minus(s) && i > 0 {
            assert(is_digit(s.skip(1)[i - 1]));
        }
    }
}

/// Reads `s` as a decimal integer of 32 bits: an optional leading `-` and one
/// or more digits whose value lies between `i32::MIN` and `i32::MAX`.
/// Anything else, an empty token and a token with a leading `+` included,
/// gives `None`.
pub fn parse_i32(s: &str) -> (r: Option<i32>)
    ensures
        r == decimal_i32(s@),
{
    if !s.is_ascii() {
        proof {
            if is_decimal_integer(s@) {
                lemma_decimal_integer_is_ascii(s@);
            }
        }
        return None;
    }
    let bytes = s.as_bytes();
    proof {
        is_ascii_spec_bytes(s);
    }
    let n: usize = bytes.len();
    if n == 0 {
        return None;
    }
    let negative: bool = bytes[0] == 45u8;
    let start: usize = if negative { 1 } else { 0 };
    if start == n {
        return None;
    }
    let ghost digits: Seq<char> = s@.skip(start as int);
    let limit: i64 = 2147483648;
    let mut acc: i64 = 0;
    let mut i: usize = start;
    while i < n
        invariant
            start <= i <= n,
            n == bytes@.len(),
            n == s@.len(),
            digits == s@.skip(start as int),
            negative == has_minus(s@),
            start == if negative { 1usize } else { 0usize },
            forall|j: int| 0 <= j < n ==> bytes@[j] == #[trigger] s@[j] as u8,
            forall|j: int| 0 <= j < n ==> '\0' <= #[trigger] s@[j] <= '\u{7f}',
            all_digits(digits.take(i - start)),
            acc == digits_value(digits.take(i - start)),
            0 <= acc <= limit,
            limit == 2147483648,
        decreases n - i,
    {
        let b: u8 = bytes[i];
        if b < 48u8 || b > 57u8 {
            proof {
                assert(digits[i - start] == s@[i as int]);
            }
            return None;
        }
        let next: i64 = acc * 10 + (b - 48u8) as i64;
        proof {
            let prev = digits.take(i - start);
            let cur = digits.take(i - start + 1);
            assert(cur.drop_last() =~= prev);
        }
        if next > limit {
            proof {
                assert(s@.skip(0) =~= s@);
                if all_digits(digits) {
                    lemma_digits_value_prefix(digits, i - start + 1);
                }
            }
            return None;
        }
        acc = next;
        i = i + 1;
    }
    proof {
        assert(digits.take(n - start) =~= digits);
        assert(s@.skip(0) =~= s@);
    }
    if negative {
        Some((-acc) as i32)
    } else if acc == limit {
        None
    } else {
        Some(acc as i32)
    }
}

} // verus!

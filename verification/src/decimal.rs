//! Decimal numbers as text: reading a literal with range checks, and writing a
//! small number out.

use vstd::prelude::*;

verus! {

/// Whether `c` is one of the ten ASCII digits.
pub open spec fn is_digit(c: char) -> bool {
    '0' <= c <= '9'
}

/// The number an ASCII digit stands for.
pub open spec fn digit_value(c: char) -> nat {
    (c as u32 - '0' as u32) as nat
}

/// Whether every character of `s` is an ASCII digit.
pub open spec fn all_digits(s: Seq<char>) -> bool {
    forall|i: int| 0 <= i < s.len() ==> is_digit(#[trigger] s[i])
}

/// The number that a string of digits denotes in base ten.
pub open spec fn digits_value(s: Seq<char>) -> nat
    decreases s.len(),
{
    if s.len() == 0 {
        0
    } else {
        digits_value(s.drop_last()) * 10 + digit_value(s.last())
    }
}

/// Whether `s` starts with a sign that is accepted: `+` always, `-` only
/// for a signed number.
pub open spec fn has_sign(s: Seq<char>, signed: bool) -> bool {
    s.len() > 0 && (s[0] == '+' || (signed && s[0] == '-'))
}

/// The integer that `s` denotes as a decimal literal: an optional sign, then
/// at least one digit and nothing else. `None` where `s` is no literal.
pub open spec fn decimal_literal(s: Seq<char>, signed: bool) -> Option<int> {
    let digits = if has_sign(s, signed) {
        s.drop_first()
    } else {
        s
    };
    if digits.len() == 0 || !all_digits(digits) {
        None
    } else if has_sign(s, signed) && s[0] == '-' {
        Some(-(digits_value(digits) as int))
    } else {
        Some(digits_value(digits) as int)
    }
}

/// The literal's value where it lies in `min..=max`, else `None`.
pub open spec fn decimal_in_range(s: Seq<char>, signed: bool, min: int, max: int) -> Option<int> {
    match decimal_literal(s, signed) {
        Some(v) if min <= v <= max => Some(v),
        _ => None,
    }
}

/// A longer string of digits denotes no smaller number than its prefix.
pub proof fn lemma_digits_value_grows(s: Seq<char>, k: int)
    requires
        0 <= k <= s.len(),
    ensures
        digits_value(s.take(k)) <= digits_value(s),
    decreases s.len() - k,
{
    if k == s.len() {
        assert(s.take(k) == s);
    } else {
        lemma_digits_value_grows(s, k + 1);
        assert(s.take(k + 1).drop_last() == s.take(k));
    }
}

/// Reads a decimal literal whose value must lie in `min..=max`.
pub fn parse_decimal(chars: &Vec<char>, signed: bool, min: i64, max: i64) -> (r: Option<i64>)
    requires
        -0x1_0000_0000 <= min <= 0 <= max <= 0x1_0000_0000,
    ensures
        r == match decimal_in_range(chars@, signed, min as int, max as int) {
            Some(v) => Some(v as i64),
            None => None,
        },
{
    let n = chars.len();
    let negative = n > 0 && signed && chars[0] == '-';
    let start: usize = if n > 0 && (chars[0] == '+' || negative) {
        1
    } else {
        0
    };
    let ghost digits = chars@.skip(start as int);
    proof {
        assert(has_sign(chars@, signed) <==> start == 1);
        if start == 1 {
            assert(digits == chars@.drop_first());
        } else {
            assert(digits == chars@);
        }
    }
    if start == n {
        return None;
    }
    let limit: u64 = if negative {
        (-min) as u64
    } else {
        max as u64
    };
    let mut acc: u64 = 0;
    let mut i: usize = start;
    proof {
        assert(digits.take(0).len() == 0);
    }
    while i < n
        invariant
            n == chars@.len(),
            start <= i <= n,
            digits == chars@.skip(start as int),
            digits == if has_sign(chars@, signed) {
                chars@.drop_first()
            } else {
                chars@
            },
            negative == (has_sign(chars@, signed) && chars@[0] == '-'),
            limit == if negative {
                -min
            } else {
                max as int
            },
            all_digits(digits.take(i - start)),
            acc == digits_value(digits.take(i - start)),
            acc <= limit <= 0x1_0000_0000,
        decreases n - i,
    {
        let c = chars[i];
        if !(c >= '0' && c <= '9') {
            proof {
                assert(digits[i - start] == c);
            }
            return None;
        }
        let d: u64 = (c as u32 - '0' as u32) as u64;
        let next: u64 = acc * 10 + d;
        proof {
            let longer = digits.take(i - start + 1);
            assert(longer.drop_last() == digits.take(i - start));
            assert(longer.last() == c);
            assert(next == digits_value(longer));
            assert forall|k: int| 0 <= k < longer.len() implies is_digit(#[trigger] longer[k]) by {
                if k < i - start {
                    assert(longer[k] == digits.take(i - start)[k]);
                }
            }
            if next > limit {
                lemma_digits_value_grows(digits, i - start + 1);
                assert(all_digits(digits) ==> digits_value(digits) > limit);
            }
        }
        if next > limit {
            return None;
        }
        acc = next;
        i += 1;
    }
    proof {
        assert(digits.take(n - start) == digits);
    }
    if negative {
        Some(-(acc as i64))
    } else {
        Some(acc as i64)
    }
}

/// The character that writes the digit `d`.
pub open spec fn digit_char(d: nat) -> char {
    (('0' as u32 + d) as u8) as char
}

/// The decimal digits of `n`, without leading zeros.
pub open spec fn decimal_digits(n: nat) -> Seq<char>
    decreases n,
{
    if n < 10 {
        seq![digit_char(n)]
    } else {
        decimal_digits(n / 10).push(digit_char(n % 10))
    }
}

/// Reading back the digits of `n` gives `n`: two numbers with the same
/// digits are equal.
pub proof fn lemma_decimal_round_trip(n: nat)
    ensures
        decimal_digits(n).len() > 0,
        all_digits(decimal_digits(n)),
        digits_value(decimal_digits(n)) == n,
        decimal_literal(decimal_digits(n), false) == Some(n as int),
    decreases n,
{
    let s = decimal_digits(n);
    if n < 10 {
        assert(s.drop_last().len() == 0);
        assert(digits_value(s.drop_last()) == 0);
        assert(digit_value(s.last()) == n);
    } else {
        lemma_decimal_round_trip(n / 10);
        assert(s.drop_last() == decimal_digits(n / 10));
        assert(s.last() == digit_char(n % 10));
        assert(digit_value(s.last()) == n % 10);
        assert forall|i: int| 0 <= i < s.len() implies is_digit(#[trigger] s[i]) by {
            if i < s.len() - 1 {
                assert(s[i] == decimal_digits(n / 10)[i]);
            }
        }
    }
    assert(!has_sign(s, false)) by {
        assert(is_digit(s[0]));
    }
}

/// Appends the decimal digits of `n` to `s`.
pub fn push_decimal(s: &mut String, n: u8)
    ensures
        final(s)@ == old(s)@ + decimal_digits(n as nat),
{
    if n >= 100 {
        crate::text::push_char(s, (48u8 + n / 100) as char);
    }
    if n >= 10 {
        crate::text::push_char(s, (48u8 + (n / 10) % 10) as char);
    }
    crate::text::push_char(s, (48u8 + n % 10) as char);
    proof {
        let m = n as nat;
        reveal_with_fuel(decimal_digits, 3);
        assert(final(s)@ == old(s)@ + decimal_digits(m));
    }
}

} // verus!

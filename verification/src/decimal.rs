//! Whole numbers as decimal text.

use vstd::prelude::*;

use crate::text::chars_of;

verus! {

/// The character of a digit.
pub open spec fn digit(d: nat) -> char {
    (48 + d) as char
}

/// Whether a character is one of `0` to `9`.
pub open spec fn is_digit(c: char) -> bool {
    '0' <= c && c <= '9'
}

/// The decimal text of a natural number, without leading zeros.
pub open spec fn decimal(n: nat) -> Seq<char>
    decreases n,
{
    if n < 10 {
        seq![digit(n)]
    } else {
        decimal(n / 10).push(digit(n % 10))
    }
}

/// The decimal text of an integer: a minus sign before the magnitude of a
/// negative one.
pub open spec fn signed_decimal(i: int) -> Seq<char> {
    if i < 0 {
        seq!['-'] + decimal((-i) as nat)
    } else {
        decimal(i as nat)
    }
}

/// The number that a run of digits stands for.
pub open spec fn digits_value(s: Seq<char>) -> nat
    decreases s.len(),
{
    if s.len() == 0 {
        0
    } else {
        10 * digits_value(s.drop_last()) + (s.last() as nat - 48) as nat
    }
}

/// Whether a text is one or more digits and nothing else.
pub open spec fn all_digits(s: Seq<char>) -> bool {
    s.len() > 0 && forall|i: int| 0 <= i < s.len() ==> is_digit(#[trigger] s[i])
}

/// The integer that a text of digits, with one sign before them or none, stands
/// for, if it is such a text and the integer fits 64 bits.
pub open spec fn parsed_integer(s: Seq<char>) -> Option<int> {
    let signed = s.len() > 0 && (s[0] == '-' || s[0] == '+');
    let digits = if signed {
        s.drop_first()
    } else {
        s
    };
    let value = if s.len() > 0 && s[0] == '-' {
        -(digits_value(digits) as int)
    } else {
        digits_value(digits) as int
    };
    if all_digits(digits) && i64::MIN <= value <= i64::MAX {
        Some(value)
    } else {
        None
    }
}

/// The decimal text of an unsigned number.
pub fn unsigned_text(n: u64) -> (r: String)
    ensures
        r@ == decimal(n as nat),
    decreases n,
{
    if n < 10 {
        let mut out = String::new();
        out.push((48u8 + n as u8) as char);
        out
    } else {
        let mut out = unsigned_text(n / 10);
        out.push((48u8 + (n % 10) as u8) as char);
        out
    }
}

/// The decimal text of a signed number.
pub fn signed_text(n: i64) -> (r: String)
    ensures
        r@ == signed_decimal(n as int),
{
    if n < 0 {
        let magnitude: u64 = (-(n + 1)) as u64 + 1;
        let mut out = String::new();
        out.push('-');
        let digits = unsigned_text(magnitude);
        out.append(digits.as_str());
        out
    } else {
        unsigned_text(n as u64)
    }
}

/// Reads a signed 64-bit number: an optional sign followed by digits only.
pub fn parse_integer(s: &str) -> (r: Option<i64>)
    ensures
        r is Some <==> parsed_integer(s@) is Some,
        r is Some ==> r->0 as int == parsed_integer(s@)->0,
{
    let chars = chars_of(s);
    let negative = chars.len() > 0 && chars[0] == '-';
    let signed = chars.len() > 0 && (chars[0] == '-' || chars[0] == '+');
    let start: usize = if signed {
        1
    } else {
        0
    };
    let ghost digits = if signed {
        s@.drop_first()
    } else {
        s@
    };
    if chars.len() == start {
        return None;
    }
    let limit: u64 = 9223372036854775808;
    let mut value: u64 = 0;
    let mut too_large = false;
    let mut i: usize = start;
    assert(digits.take(0) == Seq::<char>::empty());
    while i < chars.len()
        invariant
            start <= i <= chars@.len(),
            start <= 1,
            chars@ == s@,
            digits == chars@.skip(start as int),
            signed == (s@.len() > 0 && (s@[0] == '-' || s@[0] == '+')),
            signed ==> digits == s@.drop_first(),
            !signed ==> digits == s@,
            limit == 9223372036854775808,
            forall|j: int| 0 <= j < i - start ==> is_digit(#[trigger] digits[j]),
            !too_large ==> value <= limit && value == digits_value(digits.take(i - start)),
            too_large ==> digits_value(digits.take(i - start)) > limit,
        decreases chars@.len() - i,
    {
        let c = chars[i];
        assert(c == digits[i - start]);
        if c < '0' || c > '9' {
            assert(!is_digit(digits[i - start]));
            return None;
        }
        assert(digits.take(i - start + 1).drop_last() == digits.take(i - start));
        assert(digits.take(i - start + 1).last() == c);
        if !too_large {
            let d: u64 = c as u64 - 48;
            if value > 922337203685477580 || value * 10 + d > limit {
                too_large = true;
            } else {
                value = value * 10 + d;
            }
        }
        i = i + 1;
    }
    assert(digits.take(i - start) == digits);
    assert(all_digits(digits));
    if too_large {
        return None;
    }
    if negative {
        if value == limit {
            Some(i64::MIN)
        } else {
            Some(-(value as i64))
        }
    } else if value < limit {
        Some(value as i64)
    } else {
        None
    }
}

proof fn lemma_decimal_reads_back(n: nat)
    ensures
        all_digits(decimal(n)),
        digits_value(decimal(n)) == n,
    decreases n,
{
    if n < 10 {
        let d = decimal(n);
        assert(d.drop_last() == Seq::<char>::empty());
        assert(digits_value(d.drop_last()) == 0);
    } else {
        lemma_decimal_reads_back(n / 10);
        let d = decimal(n);
        assert(d.drop_last() == decimal(n / 10));
        assert forall|i: int| 0 <= i < d.len() implies is_digit(#[trigger] d[i]) by {
            if i < d.len() - 1 {
                assert(d[i] == decimal(n / 10)[i]);
            }
        }
    }
}

/// A number read back from its decimal text is the number that was written.
pub proof fn law_integer_reads_back(n: i64)
    ensures
        parsed_integer(signed_decimal(n as int)) == Some(n as int),
{
    if n < 0 {
        lemma_decimal_reads_back((-n) as nat);
        assert(signed_decimal(n as int).drop_first() == decimal((-n) as nat));
    } else {
        lemma_decimal_reads_back(n as nat);
        assert(is_digit(decimal(n as nat)[0]));
    }
}

/// Two numbers with the same decimal text are the same number.
pub proof fn law_decimal_is_injective(a: nat, b: nat)
    requires
        decimal(a) == decimal(b),
    ensures
        a == b,
{
    lemma_decimal_reads_back(a);
    lemma_decimal_reads_back(b);
}

/// The decimal text of a natural number is digits only.
pub proof fn law_decimal_is_digits(n: nat)
    ensures
        all_digits(decimal(n)),
{
    lemma_decimal_reads_back(n);
}

/// The text of a number has no zeros before it, and one more digit makes the
/// number ten times as large and adds the digit.
pub proof fn law_decimal_grows_by_digits(n: nat, d: nat)
    requires
        d < 10,
    ensures
        n > 0 ==> decimal(10 * n + d) == decimal(n).push(digit(d)),
        n > 0 ==> decimal(n)[0] != '0',
        decimal(d) == seq![digit(d)],
        digit(d) as nat == 48 + d,
    decreases n,
{
    if n > 0 {
        assert((10 * n + d) / 10 == n && (10 * n + d) % 10 == d);
        if n >= 10 {
            law_decimal_grows_by_digits(n / 10, 0);
            assert(decimal(n)[0] == decimal(n / 10)[0]) by {
                lemma_decimal_reads_back(n / 10);
            }
        }
    }
}

/// What is read as a number is digits, with one sign before them or none. A
/// minus sign makes the number negative, and nothing else does. What is not such
/// a text, or does not fit 64 bits, is not read.
pub proof fn law_numbers_are_digits_with_a_sign(digits: Seq<char>)
    requires
        digits.len() > 0,
        forall|i: int| 0 <= i < digits.len() ==> '0' <= #[trigger] digits[i] <= '9',
    ensures
        digits_value(digits) <= i64::MAX ==> {
            &&& parsed_integer(digits) == Some(digits_value(digits) as int)
            &&& parsed_integer(seq!['+'] + digits) == Some(digits_value(digits) as int)
            &&& parsed_integer(seq!['-'] + digits) == Some(-(digits_value(digits) as int))
        },
        digits_value(digits) > i64::MAX ==> parsed_integer(digits) is None && parsed_integer(
            seq!['+'] + digits,
        ) is None,
        digits_value(digits) > i64::MAX + 1 ==> parsed_integer(seq!['-'] + digits) is None,
{
    assert((seq!['+'] + digits).drop_first() == digits);
    assert((seq!['-'] + digits).drop_first() == digits);
    assert('0' <= digits[0] <= '9');
    assert(all_digits(digits));
}

/// A text that is read as a number holds nothing but digits behind its first
/// character, which is a digit or a sign that digits follow.
pub proof fn law_other_texts_are_no_numbers(s: Seq<char>)
    requires
        parsed_integer(s) is Some,
    ensures
        s.len() > 0,
        '0' <= s[0] <= '9' || ((s[0] == '+' || s[0] == '-') && s.len() > 1),
        forall|i: int| 1 <= i < s.len() ==> '0' <= #[trigger] s[i] <= '9',
{
    if s[0] == '+' || s[0] == '-' {
        assert forall|i: int| 1 <= i < s.len() implies '0' <= #[trigger] s[i] <= '9' by {
            assert(is_digit(s.drop_first()[i - 1]));
        }
    } else {
        assert(is_digit(s[0]));
        assert forall|i: int| 1 <= i < s.len() implies '0' <= #[trigger] s[i] <= '9' by {
            assert(is_digit(s[i]));
        }
    }
}

} // verus!

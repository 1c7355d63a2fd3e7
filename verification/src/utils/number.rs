use vstd::prelude::*;

verus! {

/// Whether the character is one of the ten decimal digits.
pub open spec fn is_digit(c: char) -> bool {
    '0' <= c <= '9'
}

/// The number that a decimal digit stands for.
pub open spec fn digit_value(c: char) -> nat {
    (c as nat - '0' as nat) as nat
}

/// Whether every character is a decimal digit.
pub open spec fn all_digits(text: Seq<char>) -> bool {
    forall|i: int| 0 <= i < text.len() ==> is_digit(#[trigger] text[i])
}

/// The number that a row of decimal digits stands for; zero for no digits.
pub open spec fn digits_value(text: Seq<char>) -> nat
    decreases text.len(),
{
    if text.len() == 0 {
        0
    } else {
        digits_value(text.drop_last()) * 10 + digit_value(text.last())
    }
}

/// Whether the text is a number without sign: at least one character, and
/// each one a decimal digit.
pub open spec fn is_number(text: Seq<char>) -> bool {
    text.len() > 0 && all_digits(text)
}

/// The text without a plus sign in front of it.
pub open spec fn without_plus(text: Seq<char>) -> Seq<char> {
    if text.len() > 0 && text[0] == '+' {
        text.drop_first()
    } else {
        text
    }
}

/// The number below 2^32 that the text stands for: decimal digits, which a
/// plus sign may precede. `None` for any other text, and for a number that
/// is too large.
pub open spec fn parsed_u32(text: Seq<char>) -> Option<u32> {
    let digits = without_plus(text);
    if is_number(digits) && digits_value(digits) <= u32::MAX {
        Some(digits_value(digits) as u32)
    } else {
        None
    }
}

/// The signed number of 64 bits that the text stands for: decimal digits,
/// which a plus or a minus sign may precede. `None` for any other text, and
/// for a number out of range.
pub open spec fn parsed_i64(text: Seq<char>) -> Option<i64> {
    if text.len() > 0 && text[0] == '-' {
        let digits = text.drop_first();
        if is_number(digits) && digits_value(digits) <= 0x8000_0000_0000_0000 {
            Some((-digits_value(digits)) as i64)
        } else {
            None
        }
    } else {
        let digits = without_plus(text);
        if is_number(digits) && digits_value(digits) <= i64::MAX {
            Some(digits_value(digits) as i64)
        } else {
            None
        }
    }
}

/// A row of digits stands for at least what any of its beginnings stands for.
proof fn lemma_digits_value_grows(text: Seq<char>, k: int)
    requires
        0 <= k <= text.len(),
    ensures
        digits_value(text.take(k)) <= digits_value(text),
    decreases text.len(),
{
    if k == text.len() {
        assert(text.take(k) =~= text);
    } else {
        lemma_digits_value_grows(text.drop_last(), k);
        assert(text.drop_last().take(k) =~= text.take(k));
    }
}

/// The number that the characters of `text` from `start` on stand for, if
/// they are decimal digits, at least one, and the number is at most `limit`.
fn read_digits(text: &str, start: usize, limit: u64) -> (r: Option<u64>)
    requires
        start <= text@.len(),
        limit <= 0x8000_0000_0000_0000,
    ensures
        r is Some <==> is_number(text@.skip(start as int)) && digits_value(
            text@.skip(start as int),
        ) <= limit,
        r matches Some(n) ==> n == digits_value(text@.skip(start as int)),
{
    let ghost digits = text@.skip(start as int);
    let len = text.unicode_len();
    if start >= len {
        return None;
    }
    let mut value: u128 = 0;
    let mut i: usize = start;
    while i < len
        invariant
            start <= i <= len,
            len == text@.len(),
            digits == text@.skip(start as int),
            limit <= 0x8000_0000_0000_0000,
            all_digits(digits.take(i - start)),
            value == digits_value(digits.take(i - start)),
            value <= limit,
        decreases len - i,
    {
        let c = text.get_char(i);
        assert(digits[i - start] == c);
        assert(digits.take(i - start + 1).drop_last() =~= digits.take(i - start));
        assert(digits.take(i - start + 1).last() == c);
        if c < '0' || c > '9' {
            assert(!is_digit(digits[i - start]));
            return None;
        }
        let digit: u128 = (c as u128) - ('0' as u128);
        assert(digit == digit_value(c));
        let next: u128 = value * 10 + digit;
        proof {
            assert(next == digits_value(digits.take(i - start + 1)));
            lemma_digits_value_grows(digits, i - start + 1);
        }
        if next > limit as u128 {
            return None;
        }
        value = next;
        assert(all_digits(digits.take(i - start + 1))) by {
            assert forall|k: int| 0 <= k < i - start + 1 implies is_digit(
                #[trigger] digits.take(i - start + 1)[k],
            ) by {
                if k < i - start {
                    assert(digits.take(i - start + 1)[k] == digits.take(i - start)[k]);
                }
            }
        }
        i += 1;
    }
    assert(digits.take(len - start) =~= digits);
    Some(value as u64)
}

/// Reads a number below 2^32 from its decimal digits.
pub fn parse_u32(text: &str) -> (r: Option<u32>)
    ensures
        r == parsed_u32(text@),
{
    let len = text.unicode_len();
    let start: usize = if len > 0 && text.get_char(0) == '+' {
        1
    } else {
        0
    };
    proof {
        if start == 1 {
            assert(text@.skip(1) =~= text@.drop_first());
        } else {
            assert(text@.skip(0) =~= text@);
        }
    }
    match read_digits(text, start, 0xFFFF_FFFF) {
        Some(n) => Some(n as u32),
        None => None,
    }
}

/// Reads a signed number of 64 bits from its decimal digits.
pub fn parse_i64(text: &str) -> (r: Option<i64>)
    ensures
        r == parsed_i64(text@),
{
    let len = text.unicode_len();
    if len > 0 && text.get_char(0) == '-' {
        assert(text@.skip(1) =~= text@.drop_first());
        match read_digits(text, 1, 0x8000_0000_0000_0000) {
            Some(n) => {
                if n == 0x8000_0000_0000_0000 {
                    Some(i64::MIN)
                } else {
                    Some(-(n as i64))
                }
            },
            None => None,
        }
    } else {
        let start: usize = if len > 0 && text.get_char(0) == '+' {
            1
        } else {
            0
        };
        proof {
            if start == 1 {
                assert(text@.skip(1) =~= text@.drop_first());
            } else {
                assert(text@.skip(0) =~= text@);
            }
        }
        match read_digits(text, start, 0x7FFF_FFFF_FFFF_FFFF) {
            Some(n) => Some(n as i64),
            None => None,
        }
    }
}

} // verus!

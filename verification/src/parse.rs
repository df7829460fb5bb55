//! Reading the profiler's numbers: decimal counters and hexadecimal addresses.

use vstd::prelude::*;

verus! {

/// The value of `c` as a digit of the given radix (10 or 16), if it is one.
pub open spec fn digit_value(c: char, radix: u32) -> Option<nat> {
    if '0' <= c <= '9' {
        Some((c as u32 - '0' as u32) as nat)
    } else if radix == 16 && 'a' <= c <= 'f' {
        Some((c as u32 - 'a' as u32 + 10) as nat)
    } else if radix == 16 && 'A' <= c <= 'F' {
        Some((c as u32 - 'A' as u32 + 10) as nat)
    } else {
        None
    }
}

/// Every character of `digits` is a digit of the radix.
pub open spec fn all_digits(digits: Seq<char>, radix: u32) -> bool {
    forall|i: int| 0 <= i < digits.len() ==> digit_value(#[trigger] digits[i], radix).is_some()
}

/// The number that `digits` write in the radix, most significant digit first.
pub open spec fn digits_value(digits: Seq<char>, radix: u32) -> nat
    decreases digits.len(),
{
    if digits.len() == 0 {
        0
    } else {
        digits_value(digits.drop_last(), radix) * (radix as nat) + digit_value(
            digits.last(),
            radix,
        ).unwrap_or(0)
    }
}

/// The number that `digits` write: at least one digit of the radix and
/// nothing else, with a value that fits in 64 bits.
pub open spec fn read_digits(digits: Seq<char>, radix: u32) -> Option<u64> {
    if digits.len() > 0 && all_digits(digits, radix) && digits_value(digits, radix) <= u64::MAX {
        Some(digits_value(digits, radix) as u64)
    } else {
        None
    }
}

/// The number that `text` writes: an optional `+`, then digits.
pub open spec fn parse_number(text: Seq<char>, radix: u32) -> Option<u64> {
    if text.len() > 0 && text[0] == '+' {
        read_digits(text.drop_first(), radix)
    } else {
        read_digits(text, radix)
    }
}

/// A prefix of digits writes no more than the whole.
proof fn lemma_digits_value_grows(digits: Seq<char>, radix: u32, n: int)
    requires
        0 <= n <= digits.len(),
        radix >= 1,
    ensures
        digits_value(digits.take(n), radix) <= digits_value(digits, radix),
    decreases digits.len() - n,
{
    if n == digits.len() {
        assert(digits.take(n) =~= digits);
    } else {
        lemma_digits_value_grows(digits.drop_last(), radix, n);
        assert(digits.drop_last().take(n) =~= digits.take(n));
        let shorter = digits_value(digits.drop_last(), radix);
        assert(shorter <= shorter * (radix as nat)) by (nonlinear_arith)
            requires
                radix >= 1,
        ;
    }
}

/// The value of one character as a digit of the radix.
fn digit(c: char, radix: u32) -> (value: Option<u64>)
    requires
        radix == 10 || radix == 16,
    ensures
        value matches Some(v) ==> digit_value(c, radix) == Some(v as nat) && v < radix,
        value.is_none() ==> digit_value(c, radix).is_none(),
{
    let code = c as u32;
    if '0' as u32 <= code && code <= '9' as u32 {
        Some((code - '0' as u32) as u64)
    } else if radix == 16 && 'a' as u32 <= code && code <= 'f' as u32 {
        Some((code - 'a' as u32 + 10) as u64)
    } else if radix == 16 && 'A' as u32 <= code && code <= 'F' as u32 {
        Some((code - 'A' as u32 + 10) as u64)
    } else {
        None
    }
}

/// Reads the characters of `text` from position `start` on as a number in
/// the given radix, with an optional `+` in front.
fn parse_from(text: &str, start: usize, radix: u32) -> (number: Option<u64>)
    requires
        radix == 10 || radix == 16,
        start <= text@.len(),
    ensures
        number == parse_number(text@.skip(start as int), radix),
{
    let len = text.unicode_len();
    let ghost tail = text@.skip(start as int);
    let mut first = start;
    if first < len && text.get_char(first) == '+' {
        first += 1;
    }
    let ghost digits = text@.skip(first as int);
    proof {
        if first > start {
            assert(tail[0] == '+');
            assert(tail.drop_first() =~= digits);
        } else {
            assert(tail =~= digits);
            if tail.len() > 0 {
                assert(tail[0] == text@[start as int]);
            }
        }
    }
    assert(parse_number(tail, radix) == read_digits(digits, radix));
    if first == len {
        return None;
    }
    let mut value: u64 = 0;
    let mut i = first;
    while i < len
        invariant
            radix == 10 || radix == 16,
            first <= i <= len,
            len == text@.len(),
            digits == text@.skip(first as int),
            parse_number(text@.skip(start as int), radix) == read_digits(digits, radix),
            all_digits(digits.take(i - first), radix),
            value == digits_value(digits.take(i - first), radix),
        decreases len - i,
    {
        let c = text.get_char(i);
        let ghost seen = digits.take(i - first);
        let ghost next = digits.take(i - first + 1);
        proof {
            assert(next.drop_last() =~= seen);
            assert(next.last() == c);
        }
        match digit(c, radix) {
            None => {
                proof {
                    assert(digits[i - first] == c);
                    assert(!all_digits(digits, radix));
                }
                return None;
            },
            Some(d) => {
                let scaled = value.checked_mul(radix as u64);
                let sum = match scaled {
                    Some(s) => s.checked_add(d),
                    None => None,
                };
                match sum {
                    None => {
                        proof {
                            assert(digits_value(next, radix) > u64::MAX);
                            lemma_digits_value_grows(digits, radix, i - first + 1);
                            if all_digits(digits, radix) {
                                assert(digits_value(digits, radix) > u64::MAX);
                            }
                        }
                        return None;
                    },
                    Some(v) => {
                        proof {
                            assert forall|k: int| 0 <= k < next.len() implies digit_value(
                                #[trigger] next[k],
                                radix,
                            ).is_some() by {
                                if k < seen.len() {
                                    assert(next[k] == seen[k]);
                                }
                            }
                        }
                        value = v;
                    },
                }
            },
        }
        i += 1;
    }
    proof {
        assert(digits.take(len - first) =~= digits);
    }
    Some(value)
}

/// Reads `text` as a decimal number, as the profiler writes its counters.
/// `None` where it is no such number or does not fit in 64 bits.
pub fn parse_decimal(text: &str) -> (number: Option<u64>)
    ensures
        number == parse_number(text@, 10),
{
    assert(text@.skip(0) =~= text@);
    parse_from(text, 0, 10)
}

/// The number that a position token writes: hexadecimal after `0x`, decimal
/// otherwise.
pub open spec fn parse_position_spec(text: Seq<char>) -> Option<u64> {
    if text.len() >= 2 && text[0] == '0' && text[1] == 'x' {
        parse_number(text.skip(2), 16)
    } else {
        parse_number(text, 10)
    }
}

/// Reads a position token: an address in hexadecimal after `0x`, or a line
/// number in decimal. `None` where it is neither or does not fit in 64 bits.
pub fn parse_position(text: &str) -> (number: Option<u64>)
    ensures
        number == parse_position_spec(text@),
{
    let len = text.unicode_len();
    if len >= 2 && text.get_char(0) == '0' && text.get_char(1) == 'x' {
        parse_from(text, 2, 16)
    } else {
        assert(text@.skip(0) =~= text@);
        parse_from(text, 0, 10)
    }
}

} // verus!

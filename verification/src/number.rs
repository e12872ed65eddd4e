//! Reading and writing unsigned integers as decimal or hexadecimal text.

use crate::text::string_from_chars;
use vstd::prelude::*;

verus! {

/// Whether `c` is a digit in base 10 or 16. Hexadecimal letters count in
/// either case.
pub open spec fn is_digit(c: char, radix: int) -> bool {
    ||| '0' <= c <= '9'
    ||| radix == 16 && ('a' <= c <= 'f' || 'A' <= c <= 'F')
}

/// What a digit is worth; a character that is no digit is worth nothing.
pub open spec fn digit_value(c: char, radix: int) -> int {
    if '0' <= c <= '9' {
        c as int - '0' as int
    } else if radix == 16 && 'a' <= c <= 'f' {
        c as int - 'a' as int + 10
    } else if radix == 16 && 'A' <= c <= 'F' {
        c as int - 'A' as int + 10
    } else {
        0
    }
}

/// The number that a run of digits writes, most significant digit first.
pub open spec fn number_value(s: Seq<char>, radix: int) -> int
    decreases s.len(),
{
    if s.len() == 0 {
        0
    } else {
        number_value(s.drop_last(), radix) * radix + digit_value(s.last(), radix)
    }
}

/// A numeral: one digit or more, and nothing else.
pub open spec fn is_numeral(s: Seq<char>, radix: int) -> bool {
    s.len() > 0 && forall|i: int| 0 <= i < s.len() ==> is_digit(#[trigger] s[i], radix)
}

/// The number that `s` writes in the given base, where `s` is a numeral
/// and the number is at most `max`.
pub open spec fn parse_number(s: Seq<char>, radix: int, max: int) -> Option<int> {
    if is_numeral(s, radix) && number_value(s, radix) <= max {
        Some(number_value(s, radix))
    } else {
        None
    }
}

/// The decimal digit that stands for `d`.
pub open spec fn digit_char(d: int) -> char {
    ('0' as int + d) as char
}

/// The decimal numeral of `n`, without leading zeros.
pub open spec fn decimal_text(n: nat) -> Seq<char>
    decreases n,
{
    if n < 10 {
        seq![digit_char(n as int)]
    } else {
        decimal_text(n / 10).push(digit_char((n % 10) as int))
    }
}

/// A longer run of digits never writes a smaller number than its prefix.
pub proof fn lemma_number_value_prefix(s: Seq<char>, radix: int, k: int)
    requires
        radix == 10 || radix == 16,
        0 <= k <= s.len(),
    ensures
        0 <= number_value(s.take(k), radix) <= number_value(s, radix),
    decreases s.len(),
{
    if k == s.len() {
        assert(s.take(k) == s);
        if s.len() > 0 {
            lemma_number_value_prefix(s.drop_last(), radix, 0);
        }
    } else {
        assert(s.drop_last().take(k) == s.take(k));
        lemma_number_value_prefix(s.drop_last(), radix, k);
    }
    if s.len() > 0 {
        let rest = number_value(s.drop_last(), radix);
        assert(rest * radix >= rest) by (nonlinear_arith)
            requires
                rest >= 0,
                radix >= 1,
        ;
    }
}

/// Reading the decimal numeral of a number gives the number back.
pub proof fn lemma_decimal_text_parses(n: nat)
    ensures
        is_numeral(decimal_text(n), 10),
        number_value(decimal_text(n), 10) == n,
        decimal_text(n).len() > 0,
    decreases n,
{
    if n < 10 {
        let s = decimal_text(n);
        assert(s.drop_last() == Seq::<char>::empty());
        assert(number_value(s.drop_last(), 10) == 0);
    } else {
        lemma_decimal_text_parses(n / 10);
        let s = decimal_text(n);
        assert(s.drop_last() == decimal_text(n / 10));
        assert forall|i: int| 0 <= i < s.len() implies is_digit(#[trigger] s[i], 10) by {
            if i < s.len() - 1 {
                assert(s[i] == decimal_text(n / 10)[i]);
            }
        }
    }
}

/// What `c` is worth as a digit of the given base, if it is one.
pub fn digit_of(c: char, radix: u64) -> (d: Option<u64>)
    requires
        radix == 10 || radix == 16,
    ensures
        d is Some <==> is_digit(c, radix as int),
        d matches Some(v) ==> v == digit_value(c, radix as int) && v < radix,
{
    if '0' <= c && c <= '9' {
        Some((c as u32 - '0' as u32) as u64)
    } else if radix == 16 && 'a' <= c && c <= 'f' {
        Some((c as u32 - 'a' as u32 + 10) as u64)
    } else if radix == 16 && 'A' <= c && c <= 'F' {
        Some((c as u32 - 'A' as u32 + 10) as u64)
    } else {
        None
    }
}

/// Reads a numeral of base 10 or 16 whose value is at most `max`.
pub fn read_number(text: &[char], radix: u64, max: u64) -> (value: Option<u64>)
    requires
        radix == 10 || radix == 16,
    ensures
        value is Some <==> parse_number(text@, radix as int, max as int) is Some,
        value matches Some(v) ==> parse_number(text@, radix as int, max as int) == Some(v as int),
{
    if text.len() == 0 {
        return None;
    }
    let mut acc: u64 = 0;
    let mut i: usize = 0;
    while i < text.len()
        invariant
            radix == 10 || radix == 16,
            i <= text.len(),
            acc == number_value(text@.take(i as int), radix as int),
            acc <= max,
            forall|j: int| 0 <= j < i ==> is_digit(#[trigger] text@[j], radix as int),
        decreases text.len() - i,
    {
        let ghost next = text@.take(i + 1);
        assert(next.drop_last() == text@.take(i as int));
        proof {
            lemma_number_value_prefix(text@, radix as int, i + 1);
        }
        let digit = match digit_of(text[i], radix) {
            Some(d) => d,
            None => { return None; },
        };
        let shifted = match acc.checked_mul(radix) {
            Some(v) => v,
            None => { return None; },
        };
        let sum = match shifted.checked_add(digit) {
            Some(v) => v,
            None => { return None; },
        };
        if sum > max {
            return None;
        }
        acc = sum;
        i += 1;
    }
    assert(text@.take(i as int) == text@);
    Some(acc)
}

/// Reads a decimal numeral that fits in 32 bits.
pub fn read_decimal_u32(text: &[char]) -> (value: Option<u32>)
    ensures
        value is Some <==> parse_number(text@, 10, u32::MAX as int) is Some,
        value matches Some(v) ==> parse_number(text@, 10, u32::MAX as int) == Some(v as int),
{
    match read_number(text, 10, 0xffff_ffff) {
        Some(v) => Some(v as u32),
        None => None,
    }
}

/// Reads a decimal numeral that fits in 64 bits.
pub fn read_decimal_u64(text: &[char]) -> (value: Option<u64>)
    ensures
        value is Some <==> parse_number(text@, 10, u64::MAX as int) is Some,
        value matches Some(v) ==> parse_number(text@, 10, u64::MAX as int) == Some(v as int),
{
    read_number(text, 10, 0xffff_ffff_ffff_ffff)
}

/// Reads a hexadecimal numeral that fits in 32 bits.
pub fn read_hex_u32(text: &[char]) -> (value: Option<u32>)
    ensures
        value is Some <==> parse_number(text@, 16, u32::MAX as int) is Some,
        value matches Some(v) ==> parse_number(text@, 16, u32::MAX as int) == Some(v as int),
{
    match read_number(text, 16, 0xffff_ffff) {
        Some(v) => Some(v as u32),
        None => None,
    }
}

/// Appends the decimal numeral of `value` to `out`.
pub fn push_decimal(value: u32, out: &mut Vec<char>)
    ensures
        final(out)@ == old(out)@ + decimal_text(value as nat),
    decreases value,
{
    if value >= 10 {
        push_decimal(value / 10, out);
    }
    let digit = (value % 10) as u8;
    out.push((0x30 + digit) as char);
    assert(final(out)@ == old(out)@ + decimal_text(value as nat));
}

/// The decimal numeral of `value`.
pub fn format_decimal(value: u32) -> (text: String)
    ensures
        text@ == decimal_text(value as nat),
{
    let mut digits: Vec<char> = Vec::new();
    push_decimal(value, &mut digits);
    string_from_chars(digits.as_slice())
}

} // verus!

//! Decimal and hexadecimal numbers: how `str::parse` reads an unsigned
//! number, and how `{}`, `{:02x}` and `{:#08x}` write one.

use vstd::prelude::*;
use crate::text::{push_char, push_str};

verus! {

/// `c` is an ASCII decimal digit.
pub open spec fn is_digit(c: char) -> bool {
    '0' <= c && c <= '9'
}

/// The value of the decimal digit `c`.
pub open spec fn digit_value(c: char) -> nat {
    (c as int - '0' as int) as nat
}

/// The value of a string of decimal digits, most significant first.
pub open spec fn digits_value(s: Seq<char>) -> nat
    decreases s.len(),
{
    if s.len() == 0 {
        0
    } else {
        digits_value(s.drop_last()) * 10 + digit_value(s.last())
    }
}

/// Every character of `s` is a decimal digit.
pub open spec fn all_digits(s: Seq<char>) -> bool {
    forall|i: int| 0 <= i < s.len() ==> is_digit(#[trigger] s[i])
}

/// The unsigned number that `s` spells as `str::parse` reads it for an
/// unsigned integer type: an optional `+` followed by one or more ASCII
/// digits, and nothing else. `None` where `s` has any other shape.
pub open spec fn decimal_number(s: Seq<char>) -> Option<nat> {
    let d = if s.len() > 0 && s[0] == '+' { s.drop_first() } else { s };
    if d.len() > 0 && all_digits(d) {
        Some(digits_value(d))
    } else {
        None
    }
}

/// The number `s` spells, where it spells one that fits in `max`.
pub open spec fn bounded_number(s: Seq<char>, max: nat) -> Option<nat> {
    match decimal_number(s) {
        Some(n) => if n <= max { Some(n) } else { None },
        None => None,
    }
}

/// The error that `str::parse::<usize>` gives for a text it refuses; it
/// depends on the text alone (its kind: empty, invalid digit, overflow).
pub uninterp spec fn usize_parse_error(s: Seq<char>) -> std::num::ParseIntError;

/// `str::parse::<usize>`: the standard library reads an optional `+`
/// followed by ASCII digits, and fails on anything else or on a value above
/// `usize::MAX`. The error is named, not described.
#[verifier::external_body]
pub fn parse_usize(s: &str) -> (r: Result<usize, std::num::ParseIntError>)
    ensures
        r is Ok <==> bounded_number(s@, usize::MAX as nat) is Some,
        r matches Ok(v) ==> v as nat == bounded_number(s@, usize::MAX as nat)->0,
        r matches Err(e) ==> e == usize_parse_error(s@),
{
    s.parse::<usize>()
}

/// `str::parse::<u16>`: as `parse_usize`, with the bound `u16::MAX`.
#[verifier::external_body]
pub fn parse_u16(s: &str) -> (r: Result<u16, std::num::ParseIntError>)
    ensures
        r is Ok <==> bounded_number(s@, u16::MAX as nat) is Some,
        r matches Ok(v) ==> v as nat == bounded_number(s@, u16::MAX as nat)->0,
{
    s.parse::<u16>()
}

/// The character of a digit below 16: `0`-`9`, then `a`-`f`.
pub open spec fn digit_char(d: int) -> char {
    if d < 10 {
        (48 + d) as char
    } else {
        (87 + d) as char
    }
}

/// The decimal digits of `n`, without leading zeros (`0` for zero).
pub open spec fn decimal_digits(n: nat) -> Seq<char>
    decreases n,
{
    if n < 10 {
        seq![digit_char(n as int)]
    } else {
        decimal_digits(n / 10).push(digit_char((n % 10) as int))
    }
}

/// The lowercase hexadecimal digits of `n`, without leading zeros.
pub open spec fn hex_digits(n: nat) -> Seq<char>
    decreases n,
{
    if n < 16 {
        seq![digit_char(n as int)]
    } else {
        hex_digits(n / 16).push(digit_char((n % 16) as int))
    }
}

/// What `{}` writes for an `i32`.
pub open spec fn display_i32(n: i32) -> Seq<char> {
    if n < 0 {
        seq!['-'] + decimal_digits((-n) as nat)
    } else {
        decimal_digits(n as nat)
    }
}

/// `s` preceded by as many `0` as it takes to reach `width` characters.
pub open spec fn zero_padded(s: Seq<char>, width: nat) -> Seq<char> {
    if s.len() < width {
        Seq::new((width - s.len()) as nat, |i: int| '0') + s
    } else {
        s
    }
}

/// What `{:#08x}` writes for an `i32`: `0x` and the lowercase hexadecimal
/// digits of its two's complement bits, padded with zeros to eight
/// characters in all.
pub open spec fn address_text(n: i32) -> Seq<char> {
    seq!['0', 'x'] + zero_padded(hex_digits((n as u32) as nat), 6)
}

/// What `{:02x}` writes for a byte: always two lowercase hexadecimal digits.
pub open spec fn byte_hex(b: u8) -> Seq<char> {
    seq![digit_char((b / 16) as int), digit_char((b % 16) as int)]
}

fn digit_of(d: u32) -> (c: char)
    requires
        d < 16,
    ensures
        c == digit_char(d as int),
{
    let b: u8 = d as u8;
    if b < 10 {
        (48u8 + b) as char
    } else {
        (87u8 + b) as char
    }
}

/// The digits of `n` in base 10 or 16, most significant first.
fn digits_in(n: u32, base: u32) -> (v: Vec<char>)
    requires
        base == 10 || base == 16,
    ensures
        base == 10 ==> v@ == decimal_digits(n as nat),
        base == 16 ==> v@ == hex_digits(n as nat),
{
    let mut q: u32 = n;
    let mut v: Vec<char> = Vec::new();
    while q >= base
        invariant
            base == 10 || base == 16,
            base == 10 ==> decimal_digits(n as nat) == decimal_digits(q as nat) + v@,
            base == 16 ==> hex_digits(n as nat) == hex_digits(q as nat) + v@,
        decreases q,
    {
        let d = digit_of(q % base);
        let ghost old_v = v@;
        v.insert(0, d);
        assert(v@ == seq![d] + old_v);
        proof {
            if base == 10 {
                assert(decimal_digits(q as nat) == decimal_digits((q / 10) as nat).push(d));
                assert(decimal_digits((q / 10) as nat).push(d) + old_v
                    == decimal_digits((q / 10) as nat) + v@);
            } else {
                assert(hex_digits(q as nat) == hex_digits((q / 16) as nat).push(d));
                assert(hex_digits((q / 16) as nat).push(d) + old_v
                    == hex_digits((q / 16) as nat) + v@);
            }
        }
        q = q / base;
    }
    let d = digit_of(q);
    let ghost old_v = v@;
    v.insert(0, d);
    assert(v@ == seq![d] + old_v);
    v
}

/// Appends the characters of `v` to `s`.
fn push_all(s: &mut String, v: &Vec<char>)
    ensures
        final(s)@ == old(s)@ + v@,
{
    let mut i: usize = 0;
    while i < v.len()
        invariant
            i <= v.len(),
            s@ == old(s)@ + v@.take(i as int),
        decreases v.len() - i,
    {
        push_char(s, v[i]);
        assert(v@.take(i as int + 1) == v@.take(i as int).push(v@[i as int]));
        i = i + 1;
    }
    assert(v@.take(v.len() as int) == v@);
}

/// Writes `n` as `{}` does.
pub fn format_i32(n: i32) -> (s: String)
    ensures
        s@ == display_i32(n),
{
    let mut s = String::new();
    if n < 0 {
        push_char(&mut s, '-');
        let m: u32 = if n == i32::MIN { 2147483648u32 } else { (-n) as u32 };
        let v = digits_in(m, 10);
        push_all(&mut s, &v);
    } else {
        let v = digits_in(n as u32, 10);
        push_all(&mut s, &v);
    }
    s
}

/// Writes `n` as `{:#08x}` does.
pub fn format_address(n: i32) -> (s: String)
    ensures
        s@ == address_text(n),
{
    let mut s = String::new();
    push_str(&mut s, "0x");
    proof { reveal_strlit("0x"); }
    let v = digits_in(n as u32, 16);
    let mut k: usize = v.len();
    while k < 6
        invariant
            v.len() <= k <= 6 || (v.len() >= 6 && k == v.len()),
            s@ == seq!['0', 'x'] + Seq::new((k - v.len()) as nat, |i: int| '0'),
        decreases 6 - k,
    {
        push_char(&mut s, '0');
        assert(Seq::new((k + 1 - v.len()) as nat, |i: int| '0')
            == Seq::new((k - v.len()) as nat, |i: int| '0').push('0'));
        k = k + 1;
    }
    push_all(&mut s, &v);
    proof {
        if v.len() >= 6 {
            assert(Seq::new((k - v.len()) as nat, |i: int| '0') == Seq::<char>::empty());
        }
    }
    s
}

/// Appends what `{:02x}` writes for `b`.
pub fn push_byte_hex(s: &mut String, b: u8)
    ensures
        final(s)@ == old(s)@ + byte_hex(b),
{
    let hi = digit_of((b / 16) as u32);
    let lo = digit_of((b % 16) as u32);
    push_char(s, hi);
    push_char(s, lo);
}

} // verus!

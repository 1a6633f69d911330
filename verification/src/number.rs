//! Decimal, hexadecimal and octal numerals.
use vstd::prelude::*;
use vstd::string::*;

verus! {

/// The character of the digit `d` in any radix up to sixteen, in lower case.
pub open spec fn digit(d: nat) -> char {
    if d < 10 {
        ((48 + d) as u8) as char
    } else {
        ((87 + d) as u8) as char
    }
}

/// The decimal numeral of `n`, without leading zeros.
pub open spec fn decimal(n: nat) -> Seq<char>
    decreases n,
{
    if n < 10 {
        seq![digit(n)]
    } else {
        decimal(n / 10).push(digit(n % 10))
    }
}

/// The decimal numeral of `n`, with a minus sign in front if `n` is negative.
pub open spec fn signed_decimal(n: int) -> Seq<char> {
    if n < 0 {
        seq!['-'] + decimal((-n) as nat)
    } else {
        decimal(n as nat)
    }
}

/// The numeral of `n` in radix `radix` on exactly `width` digits: the `width`
/// lowest digits of `n`, the most significant first.
pub open spec fn fixed_width(n: nat, radix: nat, width: nat) -> Seq<char>
    decreases width,
{
    if width == 0 || radix == 0 {
        Seq::empty()
    } else {
        fixed_width(n / radix, radix, (width - 1) as nat).push(digit(n % radix))
    }
}

/// `0x` and the `width` lowest hexadecimal digits of `n`.
pub open spec fn hex(n: nat, width: nat) -> Seq<char> {
    seq!['0', 'x'] + fixed_width(n, 16, width)
}

/// The number that bytes spell, the least significant byte first.
pub open spec fn le_value(bytes: Seq<u8>) -> nat
    decreases bytes.len(),
{
    if bytes.len() == 0 {
        0
    } else {
        bytes[0] as nat + 256 * le_value(bytes.skip(1))
    }
}

/// The three octal digits of a byte.
pub open spec fn octal3(b: u8) -> Seq<char> {
    fixed_width(b as nat, 8, 3)
}

/// `String::push` appends one character to the string.
pub assume_specification[ std::string::String::push ](s: &mut std::string::String, ch: char)
    ensures
        final(s)@ == old(s)@.push(ch),
;

/// The character of a digit below sixteen.
pub fn digit_char(d: u8) -> (c: char)
    requires
        d < 16,
    ensures
        c == digit(d as nat),
{
    if d < 10 {
        (48 + d) as char
    } else {
        (87 + d) as char
    }
}

/// Appends the decimal numeral of `n`.
pub fn push_decimal(out: &mut String, n: u64)
    ensures
        final(out)@ == old(out)@ + decimal(n as nat),
    decreases n,
{
    if n >= 10 {
        push_decimal(out, n / 10);
    }
    out.push(digit_char((n % 10) as u8));
}

/// Appends the decimal numeral of a signed number.
pub fn push_signed_decimal(out: &mut String, n: i64)
    ensures
        final(out)@ == old(out)@ + signed_decimal(n as int),
{
    if n < 0 {
        out.push('-');
        let magnitude: u64 = if n == i64::MIN {
            9223372036854775808u64
        } else {
            (-n) as u64
        };
        push_decimal(out, magnitude);
    } else {
        push_decimal(out, n as u64);
    }
}

/// Appends the `width` lowest digits of `n` in radix `radix`.
pub fn push_fixed_width(out: &mut String, n: u64, radix: u8, width: u8)
    requires
        2 <= radix <= 16,
    ensures
        final(out)@ == old(out)@ + fixed_width(n as nat, radix as nat, width as nat),
    decreases width,
{
    if width > 0 {
        push_fixed_width(out, n / (radix as u64), radix, width - 1);
        out.push(digit_char((n % (radix as u64)) as u8));
    }
}

} // verus!

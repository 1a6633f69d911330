//! Escaping of byte strings for quoted literals, and the inverse reading.
use vstd::prelude::*;
use crate::number::{digit, fixed_width, octal3};

verus! {

/// Whether a byte stands for itself inside a quoted literal: printable ASCII
/// other than the backslash and the two quote characters.
pub open spec fn is_plain(b: u8) -> bool {
    0x20 <= b <= 0x7e && b != 0x5c && b != 0x27 && b != 0x22
}

/// The text that stands for one byte inside a quoted literal.
pub open spec fn escape_byte(b: u8) -> Seq<char> {
    if b == 0x09 {
        seq!['\\', 't']
    } else if b == 0x0d {
        seq!['\\', 'r']
    } else if b == 0x0a {
        seq!['\\', 'n']
    } else if b == 0x5c {
        seq!['\\', '\\']
    } else if b == 0x27 {
        seq!['\\', '\'']
    } else if b == 0x22 {
        seq!['\\', '"']
    } else if is_plain(b) {
        seq![b as char]
    } else {
        seq!['\\'] + octal3(b)
    }
}

/// The escaped text of a byte string: the escaped bytes, in order.
pub open spec fn escape(bytes: Seq<u8>) -> Seq<char>
    decreases bytes.len(),
{
    if bytes.len() == 0 {
        Seq::empty()
    } else {
        escape_byte(bytes[0]) + escape(bytes.skip(1))
    }
}

/// A quoted literal: the escaped text between double quotes.
pub open spec fn quoted(bytes: Seq<u8>) -> Seq<char> {
    seq!['"'] + escape(bytes) + seq!['"']
}

/// The byte that a character names after a backslash, for the six short escapes.
pub open spec fn short_escape(c: char) -> Option<u8> {
    if c == 't' {
        Some(0x09u8)
    } else if c == 'r' {
        Some(0x0du8)
    } else if c == 'n' {
        Some(0x0au8)
    } else if c == '\\' {
        Some(0x5cu8)
    } else if c == '\'' {
        Some(0x27u8)
    } else if c == '"' {
        Some(0x22u8)
    } else {
        None
    }
}

/// Whether a character is an octal digit.
pub open spec fn is_octal(c: char) -> bool {
    '0' <= c <= '7'
}

/// The value of three octal digits.
pub open spec fn octal_value(a: char, b: char, c: char) -> int {
    64 * (a as int - 48) + 8 * (b as int - 48) + (c as int - 48)
}

/// `bytes` with `b` in front, where `bytes` could be read.
pub open spec fn prepend(b: u8, bytes: Option<Seq<u8>>) -> Option<Seq<u8>> {
    match bytes {
        Some(rest) => Some(seq![b] + rest),
        None => None,
    }
}

/// Reads escaped text back into bytes, as a reader of the text format does:
/// a backslash starts a short escape or three octal digits, any other
/// character must be plain and stands for itself. `None` where the text is
/// not well formed.
pub open spec fn unescape(text: Seq<char>) -> Option<Seq<u8>>
    decreases text.len(),
{
    if text.len() == 0 {
        Some(Seq::empty())
    } else if text[0] == '\\' {
        if text.len() >= 2 && short_escape(text[1]) is Some {
            prepend(short_escape(text[1])->Some_0, unescape(text.skip(2)))
        } else if text.len() >= 4 && is_octal(text[1]) && is_octal(text[2]) && is_octal(text[3])
            && octal_value(text[1], text[2], text[3]) < 256 {
            prepend(octal_value(text[1], text[2], text[3]) as u8, unescape(text.skip(4)))
        } else {
            None
        }
    } else if text[0] as int <= 0x7e && is_plain(text[0] as u8) {
        prepend(text[0] as u8, unescape(text.skip(1)))
    } else {
        None
    }
}

/// Escaping two byte strings one after the other escapes their concatenation.
pub proof fn lemma_escape_concat(a: Seq<u8>, b: Seq<u8>)
    ensures
        escape(a + b) == escape(a) + escape(b),
    decreases a.len(),
{
    if a.len() == 0 {
        assert(a + b =~= b);
        assert(escape(a) + escape(b) =~= escape(b));
    } else {
        assert((a + b).skip(1) =~= a.skip(1) + b);
        lemma_escape_concat(a.skip(1), b);
        assert((a + b)[0] == a[0]);
        assert(escape(a + b) =~= escape(a) + escape(b));
    }
}

/// Escaping one more byte appends its escaped text.
pub proof fn lemma_escape_push(bytes: Seq<u8>, i: int)
    requires
        0 <= i < bytes.len(),
    ensures
        escape(bytes.take(i + 1)) == escape(bytes.take(i)) + escape_byte(bytes[i]),
{
    let one = seq![bytes[i]];
    assert(bytes.take(i + 1) =~= bytes.take(i) + one);
    lemma_escape_concat(bytes.take(i), one);
    assert(one.skip(1) =~= Seq::<u8>::empty());
    assert(escape(one) =~= escape_byte(bytes[i])) by {
        reveal_with_fuel(escape, 2);
    }
}

/// Reading the escaped text of one byte, followed by any text, gives the byte
/// and what the rest reads as.
pub proof fn lemma_unescape_byte(b: u8, rest: Seq<char>)
    ensures
        unescape(escape_byte(b) + rest) == prepend(b, unescape(rest)),
{
    let text = escape_byte(b) + rest;
    if b == 0x09 || b == 0x0d || b == 0x0a || b == 0x5c || b == 0x27 || b == 0x22 {
        assert(text.skip(2) =~= rest);
    } else if is_plain(b) {
        assert(text.skip(1) =~= rest);
        assert(text[0] == b as char);
    } else {
        reveal_with_fuel(fixed_width, 4);
        let n = b as nat;
        assert(octal3(b) =~= seq![digit(n / 8 / 8 % 8), digit(n / 8 % 8), digit(n % 8)]);
        assert(text[0] == '\\');
        assert(text[1] == digit(n / 8 / 8 % 8));
        assert(text[2] == digit(n / 8 % 8));
        assert(text[3] == digit(n % 8));
        assert(text.skip(4) =~= rest);
        assert(octal_value(text[1], text[2], text[3]) == n);
    }
}

/// Escaping can be undone: reading the escaped text of any byte string gives
/// the byte string back.
pub proof fn lemma_escape_round_trip(bytes: Seq<u8>)
    ensures
        unescape(escape(bytes)) == Some(bytes),
    decreases bytes.len(),
{
    if bytes.len() == 0 {
        assert(bytes =~= Seq::<u8>::empty());
    } else {
        lemma_escape_round_trip(bytes.skip(1));
        lemma_unescape_byte(bytes[0], escape(bytes.skip(1)));
        assert(seq![bytes[0]] + bytes.skip(1) =~= bytes);
    }
}

/// Every character of escaped text is printable ASCII, and a double quote
/// occurs in it only behind a backslash: a quoted literal ends at its closing
/// quote and nowhere before.
pub proof fn lemma_escape_is_printable(bytes: Seq<u8>, i: int)
    requires
        0 <= i < escape(bytes).len(),
    ensures
        0x20 <= escape(bytes)[i] as int <= 0x7e,
        escape(bytes)[i] == '"' ==> i > 0 && escape(bytes)[i - 1] == '\\',
    decreases bytes.len(),
{
    if bytes.len() > 0 {
        let head = escape_byte(bytes[0]);
        let tail = escape(bytes.skip(1));
        reveal_with_fuel(fixed_width, 4);
        assert(head.len() >= 1);
        assert(forall|j: int| 0 <= j < head.len() ==> 0x20 <= #[trigger] head[j] as int <= 0x7e);
        if i < head.len() {
            assert(escape(bytes)[i] == head[i]);
            if i > 0 {
                assert(escape(bytes)[i - 1] == head[i - 1]);
            }
        } else {
            lemma_escape_is_printable(bytes.skip(1), i - head.len());
            assert(escape(bytes)[i] == tail[i - head.len()]);
            if i - head.len() > 0 {
                assert(escape(bytes)[i - 1] == tail[i - head.len() - 1]);
            }
        }
    }
}

} // verus!

//! Character classes and small text utilities shared by the parsers and
//! the renderers.

use vstd::prelude::*;

verus! {

/// An ASCII letter.
pub open spec fn is_letter(c: char) -> bool {
    ('a' <= c && c <= 'z') || ('A' <= c && c <= 'Z')
}

/// An ASCII decimal digit.
pub open spec fn is_digit(c: char) -> bool {
    '0' <= c && c <= '9'
}

/// The number a decimal digit stands for.
pub open spec fn digit_value(c: char) -> int {
    c as int - 48
}

/// The lower-case form of an ASCII letter; every other character is kept.
pub open spec fn lower(c: char) -> char {
    if 'A' <= c && c <= 'Z' {
        ((c as int) + 32) as char
    } else {
        c
    }
}

/// Two texts that differ at most in the case of their ASCII letters.
pub open spec fn same_ignoring_case(a: Seq<char>, b: Seq<char>) -> bool {
    &&& a.len() == b.len()
    &&& forall|i: int| 0 <= i < a.len() ==> lower(#[trigger] a[i]) == lower(b[i])
}

/// The line terminator: a carriage return followed by a line feed.
pub open spec fn crlf() -> Seq<char> {
    seq!['\r', '\n']
}

/// The text ends with a carriage return followed by a line feed.
pub open spec fn ends_with_crlf(s: Seq<char>) -> bool {
    s.len() >= 2 && s[s.len() - 2] == '\r' && s[s.len() - 1] == '\n'
}

/// The character that spells a digit below sixteen, in lower case.
pub open spec fn digit_char(d: int) -> char {
    if d < 10 {
        (d + 48) as char
    } else {
        (d + 87) as char
    }
}

/// The decimal spelling of a number, without leading zeros.
pub open spec fn decimal(n: nat) -> Seq<char>
    decreases n,
{
    if n < 10 {
        seq![digit_char(n as int)]
    } else {
        decimal(n / 10).push(digit_char((n % 10) as int))
    }
}

/// The hexadecimal spelling of a number, in lower case and without
/// leading zeros.
pub open spec fn hexadecimal(n: nat) -> Seq<char>
    decreases n,
{
    if n < 16 {
        seq![digit_char(n as int)]
    } else {
        hexadecimal(n / 16).push(digit_char((n % 16) as int))
    }
}

/// The one-character text that spells a digit below sixteen.
pub fn digit_text(d: u8) -> (r: &'static str)
    requires
        d < 16,
    ensures
        r@ == seq![digit_char(d as int)],
{
    proof {
        reveal_strlit("0");
        reveal_strlit("1");
        reveal_strlit("2");
        reveal_strlit("3");
        reveal_strlit("4");
        reveal_strlit("5");
        reveal_strlit("6");
        reveal_strlit("7");
        reveal_strlit("8");
        reveal_strlit("9");
        reveal_strlit("a");
        reveal_strlit("b");
        reveal_strlit("c");
        reveal_strlit("d");
        reveal_strlit("e");
        reveal_strlit("f");
    }
    let r = match d {
        0 => "0",
        1 => "1",
        2 => "2",
        3 => "3",
        4 => "4",
        5 => "5",
        6 => "6",
        7 => "7",
        8 => "8",
        9 => "9",
        10 => "a",
        11 => "b",
        12 => "c",
        13 => "d",
        14 => "e",
        _ => "f",
    };
    assert(r@ =~= seq![digit_char(d as int)]);
    r
}

/// Appends the decimal spelling of a byte.
pub fn push_decimal(out: &mut String, n: u8)
    ensures
        final(out)@ == old(out)@ + decimal(n as nat),
{
    proof {
        reveal_with_fuel(decimal, 3);
    }
    if n >= 100 {
        out.append(digit_text(n / 100));
    }
    if n >= 10 {
        out.append(digit_text((n / 10) % 10));
    }
    out.append(digit_text(n % 10));
    assert(out@ =~= old(out)@ + decimal(n as nat));
}

/// Appends the hexadecimal spelling of a sixteen-bit number.
pub fn push_hexadecimal(out: &mut String, n: u16)
    ensures
        final(out)@ == old(out)@ + hexadecimal(n as nat),
{
    proof {
        reveal_with_fuel(hexadecimal, 4);
    }
    if n >= 4096 {
        out.append(digit_text((n / 4096) as u8));
    }
    if n >= 256 {
        out.append(digit_text(((n / 256) % 16) as u8));
    }
    if n >= 16 {
        out.append(digit_text(((n / 16) % 16) as u8));
    }
    out.append(digit_text((n % 16) as u8));
    assert(out@ =~= old(out)@ + hexadecimal(n as nat));
}

/// Lower-cases one ASCII byte.
pub fn lower_byte(b: u8) -> (r: u8)
    requires
        b < 128,
    ensures
        r as char == lower(b as char),
        r < 128,
{
    if b >= 65 && b <= 90 {
        b + 32
    } else {
        b
    }
}

/// Tells whether a text ends with the line terminator.
pub fn has_line_end(s: &str) -> (r: bool)
    ensures
        r == ends_with_crlf(s@),
{
    let n: usize = s.unicode_len();
    if n < 2 {
        return false;
    }
    s.get_char(n - 2) == '\r' && s.get_char(n - 1) == '\n'
}

} // verus!

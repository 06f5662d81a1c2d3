//! Decimal and hexadecimal rendering of numbers in messages.

use vstd::prelude::*;
use vstd::string::*;

verus! {

/// What `String::from_utf8_lossy` makes of these bytes.
pub uninterp spec fn lossy_text(bytes: Seq<u8>) -> Seq<char>;

/// `String::from_utf8_lossy`: the text of bytes, with a sign in place of what is no text. The
/// outcome depends on the bytes alone, and bytes that are a text are that text.
#[verifier::external_body]
pub(crate) fn lossy(bytes: &[u8]) -> (r: String)
    ensures
        r@ == lossy_text(bytes@),
        vstd::utf8::valid_utf8(bytes@) ==> vstd::utf8::encode_utf8(r@) == bytes@,
{
    String::from_utf8_lossy(bytes).into_owned()
}

/// The character of one hexadecimal digit.
pub open spec fn digit_char(d: int) -> char {
    if d < 10 {
        (48 + d) as char
    } else {
        (87 + d) as char
    }
}

/// `n` written in decimal without leading zeros.
pub open spec fn decimal(n: nat) -> Seq<char>
    decreases n,
{
    if n < 10 {
        seq![digit_char(n as int)]
    } else {
        decimal(n / 10).push(digit_char((n % 10) as int))
    }
}

/// A byte written as two lower-case hexadecimal digits.
pub open spec fn hex_byte(b: u8) -> Seq<char> {
    seq![digit_char(b as int / 16), digit_char(b as int % 16)]
}

/// The text of one hexadecimal digit.
fn digit_text(d: u8) -> (r: &'static str)
    requires
        d < 16,
    ensures
        r@ == seq![digit_char(d as int)],
{
    proof {
        reveal_strlit("0");
        reveal_strlit("1");
        reveal_strlit("2");
        reveal_strlit("3");
        reveal_strlit("4");
        reveal_strlit("5");
        reveal_strlit("6");
        reveal_strlit("7");
        reveal_strlit("8");
        reveal_strlit("9");
        reveal_strlit("a");
        reveal_strlit("b");
        reveal_strlit("c");
        reveal_strlit("d");
        reveal_strlit("e");
        reveal_strlit("f");
    }
    match d {
        0 => "0",
        1 => "1",
        2 => "2",
        3 => "3",
        4 => "4",
        5 => "5",
        6 => "6",
        7 => "7",
        8 => "8",
        9 => "9",
        10 => "a",
        11 => "b",
        12 => "c",
        13 => "d",
        14 => "e",
        _ => "f",
    }
}

/// Appends one hexadecimal digit.
pub fn push_digit(out: &mut String, d: u8)
    requires
        d < 16,
    ensures
        final(out)@ == old(out)@.push(digit_char(d as int)),
{
    out.append(digit_text(d));
    assert(out@ =~= old(out)@.push(digit_char(d as int)));
}

/// Appends `n` in decimal.
pub fn push_decimal(out: &mut String, n: u64)
    ensures
        final(out)@ == old(out)@ + decimal(n as nat),
    decreases n,
{
    if n >= 10 {
        push_decimal(out, n / 10);
    }
    out.append(digit_text((n % 10) as u8));
    assert(out@ =~= old(out)@ + decimal(n as nat));
}

/// Appends `b` as two lower-case hexadecimal digits.
pub fn push_hex_byte(out: &mut String, b: u8)
    ensures
        final(out)@ == old(out)@ + hex_byte(b),
{
    out.append(digit_text(b / 16));
    out.append(digit_text(b % 16));
    assert(out@ =~= old(out)@ + hex_byte(b));
}

/// `n` written in hexadecimal with at least `digits` digits.
pub open spec fn hexadecimal(n: nat, digits: nat) -> Seq<char>
    decreases n, digits,
{
    if n < 16 && digits <= 1 {
        seq![digit_char(n as int)]
    } else {
        let left = if digits == 0 {
            0
        } else {
            (digits - 1) as nat
        };
        hexadecimal(n / 16, left).push(digit_char((n % 16) as int))
    }
}

/// `i` written in decimal, with a sign where it is negative.
pub open spec fn integer(i: int) -> Seq<char> {
    if i < 0 {
        "-"@ + decimal((-i) as nat)
    } else {
        decimal(i as nat)
    }
}

/// Appends `n` in hexadecimal with at least `digits` digits.
pub fn push_hexadecimal(out: &mut String, n: u32, digits: u8)
    ensures
        final(out)@ == old(out)@ + hexadecimal(n as nat, digits as nat),
    decreases n, digits,
{
    if n >= 16 || digits > 1 {
        let left: u8 = if digits == 0 {
            0
        } else {
            digits - 1
        };
        push_hexadecimal(out, n / 16, left);
    }
    out.append(digit_text((n % 16) as u8));
    assert(out@ =~= old(out)@ + hexadecimal(n as nat, digits as nat));
}

/// Appends `i` in decimal, with a sign where it is negative.
pub fn push_integer(out: &mut String, i: i32)
    ensures
        final(out)@ == old(out)@ + integer(i as int),
{
    if i < 0 {
        out.append("-");
        let size: i64 = -(i as i64);
        push_decimal(out, size as u64);
    } else {
        push_decimal(out, i as u64);
    }
    assert(out@ =~= old(out)@ + integer(i as int));
}

/// The character of one upper-case hexadecimal digit.
pub open spec fn upper_digit_char(d: int) -> char {
    if d < 10 {
        (48 + d) as char
    } else {
        (55 + d) as char
    }
}

/// A byte written as two upper-case hexadecimal digits.
pub open spec fn upper_hex_byte(b: u8) -> Seq<char> {
    seq![upper_digit_char(b as int / 16), upper_digit_char(b as int % 16)]
}

/// The text of one upper-case hexadecimal digit.
fn upper_digit_text(d: u8) -> (r: &'static str)
    requires
        d < 16,
    ensures
        r@ == seq![upper_digit_char(d as int)],
{
    proof {
        reveal_strlit("A");
        reveal_strlit("B");
        reveal_strlit("C");
        reveal_strlit("D");
        reveal_strlit("E");
        reveal_strlit("F");
    }
    match d {
        10 => "A",
        11 => "B",
        12 => "C",
        13 => "D",
        14 => "E",
        15 => "F",
        _ => digit_text(d),
    }
}

/// Appends `b` as two upper-case hexadecimal digits.
pub fn push_upper_hex_byte(out: &mut String, b: u8)
    ensures
        final(out)@ == old(out)@ + upper_hex_byte(b),
{
    out.append(upper_digit_text(b / 16));
    out.append(upper_digit_text(b % 16));
    assert(out@ =~= old(out)@ + upper_hex_byte(b));
}

/// What a digit counts.
pub open spec fn digit_value(c: char) -> int {
    let n = c as u32;
    if 48 <= n <= 57 {
        n - 48
    } else if 97 <= n <= 102 {
        n - 87
    } else if 65 <= n <= 70 {
        n - 55
    } else {
        -1
    }
}

/// The number that digits write, each place counting `base` times the one behind it.
pub open spec fn number_written(text: Seq<char>, base: int) -> int
    decreases text.len(),
{
    if text.len() == 0 {
        0
    } else {
        base * number_written(text.drop_last(), base) + digit_value(text.last())
    }
}

/// A number written in decimal is that number, without a zero in front of it.
pub proof fn law_decimal_is_read_back(n: nat)
    ensures
        number_written(decimal(n), 10) == n,
        decimal(n).len() >= 1,
        n >= 1 ==> digit_value(decimal(n)[0]) >= 1,
    decreases n,
{
    let text = decimal(n);
    reveal_with_fuel(number_written, 2);
    if n < 10 {
        assert(text.drop_last() =~= Seq::empty());
    } else {
        law_decimal_is_read_back(n / 10);
        assert(text.drop_last() =~= decimal(n / 10));
    }
}

/// A number written in hexadecimal is that number, in as many digits as asked for at least, and in
/// no more than it needs beyond those. A byte always has two, with small letters or with capitals.
pub proof fn law_hexadecimal_is_read_back(n: nat, digits: nat, b: u8)
    ensures
        number_written(hexadecimal(n, digits), 16) == n,
        hexadecimal(n, digits).len() >= digits,
        hexadecimal(n, digits).len() > digits && hexadecimal(n, digits).len() > 1 ==> digit_value(
            hexadecimal(n, digits)[0],
        ) >= 1,
        hexadecimal(n, digits).len() >= 1,
        hex_byte(b).len() == 2 && number_written(hex_byte(b), 16) == b,
        upper_hex_byte(b).len() == 2 && number_written(upper_hex_byte(b), 16) == b,
        hex_byte(b)[0] as u32 >= 48 && !(65 <= hex_byte(b)[0] as u32 <= 90),
        hex_byte(b)[1] as u32 >= 48 && !(65 <= hex_byte(b)[1] as u32 <= 90),
        upper_hex_byte(b)[0] as u32 <= 90 && upper_hex_byte(b)[1] as u32 <= 90,
    decreases n, digits,
{
    let text = hexadecimal(n, digits);
    if n < 16 && digits <= 1 {
        assert(text.drop_last() =~= Seq::empty());
    } else {
        let left = if digits == 0 {
            0
        } else {
            (digits - 1) as nat
        };
        law_hexadecimal_is_read_back(n / 16, left, b);
        assert(text.drop_last() =~= hexadecimal(n / 16, left));
    }
    reveal_with_fuel(number_written, 3);
    assert(hex_byte(b).drop_last() =~= seq![hex_byte(b)[0]]);
    assert(seq![hex_byte(b)[0]].drop_last() =~= Seq::empty());
    assert(upper_hex_byte(b).drop_last() =~= seq![upper_hex_byte(b)[0]]);
    assert(seq![upper_hex_byte(b)[0]].drop_last() =~= Seq::empty());
}

/// A number below zero is written as a sign and its size.
pub proof fn law_sign_stands_in_front(i: int)
    requires
        i > 0,
    ensures
        integer(-i) == seq!['-'] + integer(i),
        number_written(integer(i), 10) == i,
{
    reveal_strlit("-");
    assert("-"@ =~= seq!['-']);
    law_decimal_is_read_back(i as nat);
}

} // verus!

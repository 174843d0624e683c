//! Numbers as text: upper-case hexadecimal with a minimum width, and decimal.

use vstd::prelude::*;

verus! {

/// `String::push` of the standard library: the character is appended to the
/// text and nothing else changes.
pub assume_specification[ String::push ](s: &mut String, ch: char)
    ensures
        final(s)@ == old(s)@.push(ch),
;

/// The digit for a value below 16: `0`..`9`, then `A`..`F`.
pub open spec fn digit_char(d: nat) -> char {
    if d < 10 {
        (48 + d) as char
    } else {
        (55 + d) as char
    }
}

/// The value that a digit stands for, or 16 where the character is no
/// upper-case hexadecimal digit.
pub open spec fn digit_value(c: char) -> nat {
    if '0' <= c <= '9' {
        (c as nat - 48) as nat
    } else if 'A' <= c <= 'F' {
        (c as nat - 55) as nat
    } else {
        16
    }
}

/// `n` in upper-case hexadecimal, most significant digit first, filled with
/// leading zeros up to `width` digits and never cut short.
pub open spec fn upper_hex(n: nat, width: nat) -> Seq<char>
    decreases n, width,
{
    if n < 16 && width <= 1 {
        seq![digit_char(n)]
    } else {
        upper_hex(n / 16, if width > 0 { (width - 1) as nat } else { 0 }).push(digit_char(n % 16))
    }
}

/// `n` in decimal, most significant digit first, without leading zeros.
pub open spec fn decimal(n: nat) -> Seq<char>
    decreases n,
{
    if n < 10 {
        seq![digit_char(n)]
    } else {
        decimal(n / 10).push(digit_char(n % 10))
    }
}

/// Every digit stands for its own value.
pub proof fn lemma_digit_value(d: nat)
    requires
        d < 16,
    ensures
        digit_value(digit_char(d)) == d,
        '0' <= digit_char(d) <= 'F',
{
}

/// The text of a number is at least `width` digits long, never empty, and
/// holds digits only.
pub proof fn lemma_upper_hex_shape(n: nat, width: nat)
    ensures
        upper_hex(n, width).len() >= width,
        upper_hex(n, width).len() >= 1,
        forall|i: int|
            0 <= i < upper_hex(n, width).len() ==> digit_value(#[trigger] upper_hex(n, width)[i])
                < 16,
    decreases n, width,
{
    if n < 16 && width <= 1 {
        lemma_digit_value(n);
    } else {
        let rest: nat = if width > 0 { (width - 1) as nat } else { 0 };
        lemma_upper_hex_shape(n / 16, rest);
        lemma_digit_value(n % 16);
    }
}

/// A number below 16^8 takes exactly eight digits at width 8.
pub proof fn lemma_upper_hex_eight(n: nat)
    requires
        n < 0x1_0000_0000,
    ensures
        upper_hex(n, 8).len() == 8,
{
    reveal_with_fuel(upper_hex, 9);
}

/// A byte at width 2 is its high digit, then its low digit.
pub proof fn lemma_upper_hex_byte(byte: u8)
    ensures
        upper_hex(byte as nat, 2) =~= seq![
            digit_char(byte as nat / 16),
            digit_char(byte as nat % 16),
        ],
{
    reveal_with_fuel(upper_hex, 3);
}

/// The digit character of a value below 16.
fn digit(d: u8) -> (c: char)
    requires
        d < 16,
    ensures
        c == digit_char(d as nat),
{
    if d < 10 {
        (48u8 + d) as char
    } else {
        (55u8 + d) as char
    }
}

/// Appends `n` in upper-case hexadecimal, at least `width` digits wide.
pub fn push_upper_hex(out: &mut String, n: usize, width: usize)
    ensures
        final(out)@ == old(out)@ + upper_hex(n as nat, width as nat),
    decreases n, width,
{
    if n >= 16 || width > 1 {
        let rest: usize = if width > 0 { width - 1 } else { 0 };
        push_upper_hex(out, n / 16, rest);
    }
    out.push(digit((n % 16) as u8));
    assert(out@ =~= old(out)@ + upper_hex(n as nat, width as nat));
}

/// Appends `n` in decimal.
pub fn push_decimal(out: &mut String, n: usize)
    ensures
        final(out)@ == old(out)@ + decimal(n as nat),
    decreases n,
{
    if n >= 10 {
        push_decimal(out, n / 10);
    }
    out.push(digit((n % 10) as u8));
    assert(out@ =~= old(out)@ + decimal(n as nat));
}

} // verus!

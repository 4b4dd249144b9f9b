//! Decimal and hexadecimal digit text, built on `String` by appending.
use vstd::prelude::*;
use vstd::string::*;

verus! {

/// The lowercase hexadecimal digits, in order of value.
pub open spec fn hex_digits() -> Seq<char> {
    "0123456789abcdef"@
}

/// The decimal digits, in order of value.
pub open spec fn dec_digits() -> Seq<char> {
    "0123456789"@
}

/// Two lowercase hexadecimal digits of a byte, high nibble first.
pub open spec fn hex_byte_text(b: u8) -> Seq<char> {
    seq![hex_digits()[b as int / 16], hex_digits()[b as int % 16]]
}

/// Decimal text of a natural number, without leading zeros.
pub open spec fn dec_text(n: nat) -> Seq<char>
    decreases n,
{
    if n < 10 {
        seq![dec_digits()[n as int]]
    } else {
        dec_text(n / 10) + seq![dec_digits()[(n % 10) as int]]
    }
}

/// Decimal text of an integer, with a leading `-` when it is negative.
pub open spec fn int_text(x: int) -> Seq<char> {
    if x < 0 {
        "-"@ + dec_text((-x) as nat)
    } else {
        dec_text(x as nat)
    }
}

/// Value of a hexadecimal digit of either case, if `c` is one.
pub open spec fn hex_value(c: char) -> Option<nat> {
    if '0' <= c && c <= '9' {
        Some((c as u32 - '0' as u32) as nat)
    } else if 'a' <= c && c <= 'f' {
        Some((c as u32 - 'a' as u32 + 10) as nat)
    } else if 'A' <= c && c <= 'F' {
        Some((c as u32 - 'A' as u32 + 10) as nat)
    } else {
        None
    }
}

/// The digit tables, character by character.
pub proof fn lemma_hex_digits_reveal()
    ensures
        hex_digits() == seq!['0', '1', '2', '3', '4', '5', '6', '7', '8', '9', 'a', 'b', 'c', 'd', 'e', 'f'],
        dec_digits() == seq!['0', '1', '2', '3', '4', '5', '6', '7', '8', '9'],
{
    reveal_strlit("0123456789abcdef");
    reveal_strlit("0123456789");
    assert(hex_digits() =~= seq!['0', '1', '2', '3', '4', '5', '6', '7', '8', '9', 'a', 'b', 'c', 'd', 'e', 'f']);
    assert(dec_digits() =~= seq!['0', '1', '2', '3', '4', '5', '6', '7', '8', '9']);
}

/// Each lowercase digit reads back as its own value.
pub proof fn lemma_hex_digit_value(d: int)
    requires
        0 <= d < 16,
    ensures
        hex_value(hex_digits()[d]) == Some(d as nat),
{
    lemma_hex_digits_reveal();
}

/// Appends the decimal text of `n` to `out`.
pub fn push_decimal(out: &mut String, n: u128)
    ensures
        final(out)@ == old(out)@ + dec_text(n as nat),
    decreases n,
{
    proof {
        lemma_hex_digits_reveal();
    }
    if n >= 10 {
        push_decimal(out, n / 10);
    }
    let d: usize = (n % 10) as usize;
    let digit = "0123456789".substring_char(d, d + 1);
    assert(digit@ =~= seq![dec_digits()[d as int]]);
    out.append(digit);
}

/// Appends the decimal text of `x` to `out`, with a `-` before a negative value.
pub fn push_integer(out: &mut String, x: i128)
    ensures
        final(out)@ == old(out)@ + int_text(x as int),
{
    if x < 0 {
        out.append("-");
        let magnitude: u128 = if x == i128::MIN {
            (i128::MAX as u128) + 1
        } else {
            (-x) as u128
        };
        push_decimal(out, magnitude);
        assert(out@ =~= old(out)@ + int_text(x as int));
    } else {
        push_decimal(out, x as u128);
    }
}

/// Appends the two lowercase hexadecimal digits of `b` to `out`.
pub fn push_hex_byte(out: &mut String, b: u8)
    ensures
        final(out)@ == old(out)@ + hex_byte_text(b),
{
    proof {
        lemma_hex_digits_reveal();
    }
    let hi: usize = (b / 16) as usize;
    let lo: usize = (b % 16) as usize;
    let high = "0123456789abcdef".substring_char(hi, hi + 1);
    let low = "0123456789abcdef".substring_char(lo, lo + 1);
    out.append(high);
    out.append(low);
    assert(out@ =~= old(out)@ + hex_byte_text(b));
}

} // verus!

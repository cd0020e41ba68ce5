//! Rendering of numbers and ASCII bytes as text, the way `{}`, `{:?}` and
//! `{:#x}` render integers.

use vstd::prelude::*;
use vstd::utf8::*;

use crate::cstr::utf8_str;

verus! {

/// The characters of ASCII bytes.
pub open spec fn ascii_text(bytes: Seq<u8>) -> Seq<char> {
    bytes.map_values(|b: u8| b as char)
}

/// Every byte is ASCII.
pub open spec fn is_ascii_bytes(bytes: Seq<u8>) -> bool {
    forall|i: int| 0 <= i < bytes.len() ==> #[trigger] bytes[i] < 128
}

/// The ASCII digit for `d` (`0`-`9`, then `a`-`f`).
pub open spec fn digit_ascii(d: nat) -> u8 {
    if d < 10 {
        (48 + d) as u8
    } else {
        (87 + d) as u8
    }
}

/// Decimal digits of `n`, most significant first, no leading zero.
pub open spec fn decimal_ascii(n: nat) -> Seq<u8>
    decreases n,
{
    if n < 10 {
        seq![digit_ascii(n)]
    } else {
        decimal_ascii(n / 10).push(digit_ascii(n % 10))
    }
}

/// Lower-case hexadecimal digits of `n`, most significant first, no leading zero.
pub open spec fn hex_ascii(n: nat) -> Seq<u8>
    decreases n,
{
    if n < 16 {
        seq![digit_ascii(n)]
    } else {
        hex_ascii(n / 16).push(digit_ascii(n % 16))
    }
}

/// Decimal text of a signed number: a minus sign before the digits of its
/// magnitude when it is negative.
pub open spec fn signed_decimal_ascii(n: int) -> Seq<u8> {
    if n < 0 {
        seq![45u8] + decimal_ascii((-n) as nat)
    } else {
        decimal_ascii(n as nat)
    }
}

/// Value of an ASCII digit (`0`-`9`, `a`-`f`).
pub open spec fn digit_value(b: u8) -> int {
    if b <= 57 {
        b - 48
    } else {
        b - 87
    }
}

/// Decimal digits: at least one, each `0`-`9`.
pub open spec fn is_decimal_digits(digits: Seq<u8>) -> bool {
    &&& digits.len() >= 1
    &&& forall|i: int| 0 <= i < digits.len() ==> 48 <= #[trigger] digits[i] <= 57
}

/// Lower-case hexadecimal digits: at least one, each `0`-`9` or `a`-`f`.
pub open spec fn is_hex_digits(digits: Seq<u8>) -> bool {
    &&& digits.len() >= 1
    &&& forall|i: int|
        0 <= i < digits.len() ==> (48 <= #[trigger] digits[i] <= 57 || 97 <= digits[i] <= 102)
}

/// Decimal digits, possibly after a minus sign.
pub open spec fn is_signed_decimal(text: Seq<u8>) -> bool {
    ||| is_decimal_digits(text)
    ||| (text.len() >= 1 && text[0] == 45u8 && is_decimal_digits(text.drop_first()))
}

/// The number that a signed decimal text stands for.
pub open spec fn signed_digits_value(text: Seq<u8>) -> int {
    if text.len() >= 1 && text[0] == 45u8 {
        -digits_value(text.drop_first(), 10)
    } else {
        digits_value(text, 10)
    }
}

/// The number that digits in base `base` stand for.
pub open spec fn digits_value(digits: Seq<u8>, base: int) -> int
    decreases digits.len(),
{
    if digits.len() == 0 {
        0
    } else {
        digits_value(digits.drop_last(), base) * base + digit_value(digits.last())
    }
}

/// The decimal text of `n` is made of ASCII digits and reads back as `n`.
pub proof fn lemma_decimal_reads_back(n: nat)
    ensures
        is_ascii_bytes(decimal_ascii(n)),
        is_decimal_digits(decimal_ascii(n)),
        digits_value(decimal_ascii(n), 10) == n,
    decreases n,
{
    let d = n % 10;
    assert(digit_value(digit_ascii(d)) == d);
    if n >= 10 {
        lemma_decimal_reads_back(n / 10);
        assert(decimal_ascii(n).drop_last() =~= decimal_ascii(n / 10));
        assert(decimal_ascii(n).last() == digit_ascii(d));
    } else {
        assert(decimal_ascii(n).drop_last() =~= Seq::<u8>::empty());
        assert(digits_value(Seq::<u8>::empty(), 10) == 0);
    }
}

/// The hexadecimal text of `n` is made of ASCII digits and reads back as `n`.
pub proof fn lemma_hex_reads_back(n: nat)
    ensures
        is_ascii_bytes(hex_ascii(n)),
        is_hex_digits(hex_ascii(n)),
        digits_value(hex_ascii(n), 16) == n,
    decreases n,
{
    let d = n % 16;
    assert(digit_value(digit_ascii(d)) == d);
    if n >= 16 {
        lemma_hex_reads_back(n / 16);
        assert(hex_ascii(n).drop_last() =~= hex_ascii(n / 16));
        assert(hex_ascii(n).last() == digit_ascii(d));
    } else {
        assert(hex_ascii(n).drop_last() =~= Seq::<u8>::empty());
        assert(digits_value(Seq::<u8>::empty(), 16) == 0);
    }
}

/// The signed decimal text of `n` is a minus sign (for a negative `n`) and
/// ASCII digits, and reads back as `n`.
pub proof fn lemma_signed_decimal_reads_back(n: int)
    ensures
        is_ascii_bytes(signed_decimal_ascii(n)),
        is_signed_decimal(signed_decimal_ascii(n)),
        signed_digits_value(signed_decimal_ascii(n)) == n,
{
    let t = signed_decimal_ascii(n);
    if n < 0 {
        let m = (-n) as nat;
        lemma_decimal_reads_back(m);
        assert(t.drop_first() =~= decimal_ascii(m));
        assert(t[0] == 45u8);
    } else {
        lemma_decimal_reads_back(n as nat);
        assert(t[0] != 45u8);
    }
}

/// Appends the decimal digits of `n`.
fn push_decimal(n: u64, out: &mut Vec<u8>)
    ensures
        final(out)@ == old(out)@ + decimal_ascii(n as nat),
    decreases n,
{
    if n >= 10 {
        push_decimal(n / 10, out);
    }
    out.push(48u8 + (n % 10) as u8);
    assert(final(out)@ =~= old(out)@ + decimal_ascii(n as nat));
}

/// Appends the lower-case hexadecimal digits of `n`.
fn push_hex(n: u64, out: &mut Vec<u8>)
    ensures
        final(out)@ == old(out)@ + hex_ascii(n as nat),
    decreases n,
{
    if n >= 16 {
        push_hex(n / 16, out);
    }
    let d = (n % 16) as u8;
    if d < 10 {
        out.push(48u8 + d);
    } else {
        out.push(87u8 + d);
    }
    assert(final(out)@ =~= old(out)@ + hex_ascii(n as nat));
}

/// The string made of ASCII bytes.
pub fn ascii_string(bytes: &[u8]) -> (s: String)
    requires
        is_ascii_bytes(bytes@),
    ensures
        s@ == ascii_text(bytes@),
{
    let ghost chars = ascii_text(bytes@);
    proof {
        assert(is_ascii_chars(chars));
        is_ascii_chars_encode_utf8(chars);
        assert(encode_utf8(chars) =~= bytes@);
        encode_utf8_valid_utf8(chars);
        encode_utf8_decode_utf8(chars);
    }
    match utf8_str(bytes) {
        Some(t) => {
            proof {
                encode_utf8_decode_utf8(t@);
            }
            t.to_owned()
        },
        None => {
            assert(false);
            String::new()
        },
    }
}

/// `n` rendered in decimal, as `{}` and `{:?}` render it.
pub fn decimal_string(n: u64) -> (s: String)
    ensures
        s@ == ascii_text(decimal_ascii(n as nat)),
{
    let mut v: Vec<u8> = Vec::new();
    push_decimal(n, &mut v);
    proof {
        lemma_decimal_reads_back(n as nat);
        assert(v@ =~= decimal_ascii(n as nat));
    }
    ascii_string(v.as_slice())
}

/// `n` rendered in decimal with its sign, as `{}` and `{:?}` render it.
pub fn signed_decimal_string(n: i64) -> (s: String)
    ensures
        s@ == ascii_text(signed_decimal_ascii(n as int)),
{
    let mut v: Vec<u8> = Vec::new();
    let magnitude: u64;
    if n < 0 {
        v.push(45u8);
        magnitude = (-(n + 1)) as u64 + 1;
    } else {
        magnitude = n as u64;
    }
    push_decimal(magnitude, &mut v);
    proof {
        lemma_decimal_reads_back(magnitude as nat);
        assert(v@ =~= signed_decimal_ascii(n as int));
    }
    ascii_string(v.as_slice())
}

/// `n` rendered as `{:#x}` renders it: `0x` and lower-case hexadecimal digits.
pub fn hex_string(n: u64) -> (s: String)
    ensures
        s@ == ascii_text(seq![48u8, 120u8] + hex_ascii(n as nat)),
{
    let mut v: Vec<u8> = Vec::new();
    v.push(48u8);
    v.push(120u8);
    push_hex(n, &mut v);
    proof {
        lemma_hex_reads_back(n as nat);
        assert(v@ =~= seq![48u8, 120u8] + hex_ascii(n as nat));
    }
    ascii_string(v.as_slice())
}

} // verus!

use crate::text::string_from_utf8;
use vstd::prelude::*;
use vstd::slice::*;
use vstd::string::*;
use vstd::utf8::*;

verus! {

/// The characters that a sequence of ASCII bytes spells.
pub open spec fn ascii_chars(bytes: Seq<u8>) -> Seq<char> {
    Seq::new(bytes.len(), |i: int| bytes[i] as char)
}

/// Whether every byte is an ASCII code.
pub open spec fn all_ascii(bytes: Seq<u8>) -> bool {
    forall|i: int| 0 <= i < bytes.len() ==> #[trigger] bytes[i] < 128
}

/// ASCII bytes are the UTF-8 encoding of the characters they spell.
pub proof fn lemma_ascii_encoding(bytes: Seq<u8>)
    requires
        all_ascii(bytes),
    ensures
        encode_utf8(ascii_chars(bytes)) == bytes,
        valid_utf8(bytes),
        decode_utf8(bytes) == ascii_chars(bytes),
{
    let chars = ascii_chars(bytes);
    assert(is_ascii_chars(chars)) by {
        assert forall|i: int| 0 <= i < chars.len() implies '\0' <= #[trigger] chars[i]
            <= '\u{7f}' by {
            assert(bytes[i] < 128);
        }
    }
    is_ascii_chars_encode_utf8(chars);
    assert(encode_utf8(chars) =~= bytes) by {
        assert forall|i: int| 0 <= i < bytes.len() implies encode_utf8(chars)[i] == bytes[i] by {
            assert(chars[i] as u8 == encode_utf8(chars)[i]);
            assert(bytes[i] < 128);
        }
    }
    encode_utf8_valid_utf8(chars);
    encode_utf8_decode_utf8(chars);
}

/// Turns ASCII bytes into the text they spell.
pub fn ascii_string(bytes: Vec<u8>) -> (text: String)
    requires
        all_ascii(bytes@),
    ensures
        text@ == ascii_chars(bytes@),
{
    proof {
        lemma_ascii_encoding(bytes@);
    }
    match string_from_utf8(bytes) {
        Some(text) => text,
        None => String::new(),
    }
}

/// The decimal digits of a number, as ASCII bytes, without leading zeros.
pub open spec fn decimal_digits(n: nat) -> Seq<u8>
    decreases n,
{
    if n < 10 {
        seq![(48 + n) as u8]
    } else {
        decimal_digits(n / 10).push((48 + n % 10) as u8)
    }
}

/// The last `width` decimal digits of a number, as ASCII bytes, with leading
/// zeros where the number is short.
pub open spec fn padded_digits(n: nat, width: nat) -> Seq<u8>
    decreases width,
{
    if width == 0 {
        Seq::empty()
    } else {
        padded_digits(n / 10, (width - 1) as nat).push((48 + n % 10) as u8)
    }
}

/// How a price in millionths reads with six decimals: the whole units, a
/// point, and six digits.
pub open spec fn price_text(micros: u64) -> Seq<u8> {
    decimal_digits((micros / 1_000_000) as nat) + seq![46u8] + padded_digits(
        (micros % 1_000_000) as nat,
        6,
    )
}

/// Decimal digits are ASCII.
pub proof fn lemma_decimal_digits_ascii(n: nat)
    ensures
        all_ascii(decimal_digits(n)),
        decimal_digits(n).len() >= 1,
    decreases n,
{
    if n >= 10 {
        lemma_decimal_digits_ascii(n / 10);
    }
}

/// Padded digits are ASCII and fill the width.
pub proof fn lemma_padded_digits_ascii(n: nat, width: nat)
    ensures
        all_ascii(padded_digits(n, width)),
        padded_digits(n, width).len() == width,
    decreases width,
{
    if width > 0 {
        lemma_padded_digits_ascii(n / 10, (width - 1) as nat);
    }
}

/// Appends the decimal digits of a number.
pub fn push_decimal(out: &mut Vec<u8>, n: u64)
    ensures
        final(out)@ == old(out)@ + decimal_digits(n as nat),
    decreases n,
{
    if n >= 10 {
        push_decimal(out, n / 10);
    }
    let digit: u8 = (48 + n % 10) as u8;
    out.push(digit);
    assert(out@ =~= old(out)@ + decimal_digits(n as nat));
}

/// Appends the last `width` decimal digits of a number, zero-padded.
pub fn push_padded(out: &mut Vec<u8>, n: u64, width: u8)
    ensures
        final(out)@ == old(out)@ + padded_digits(n as nat, width as nat),
    decreases width,
{
    if width > 0 {
        push_padded(out, n / 10, width - 1);
        let digit: u8 = (48 + n % 10) as u8;
        out.push(digit);
    }
    assert(out@ =~= old(out)@ + padded_digits(n as nat, width as nat));
}

/// Appends a price in millionths as text with six decimals.
pub fn push_price(out: &mut Vec<u8>, micros: u64)
    ensures
        final(out)@ == old(out)@ + price_text(micros),
{
    push_decimal(out, micros / 1_000_000);
    out.push(46u8);
    push_padded(out, micros % 1_000_000, 6);
    assert(out@ =~= old(out)@ + price_text(micros));
}

/// The ASCII code of a hexadecimal digit, in lower case.
pub open spec fn hex_digit(nibble: u8) -> u8 {
    if nibble < 10 {
        (48 + nibble) as u8
    } else {
        (87 + nibble) as u8
    }
}

/// The lower-case hexadecimal rendering of bytes, two digits each.
pub open spec fn hex_lower(bytes: Seq<u8>) -> Seq<u8>
    decreases bytes.len(),
{
    if bytes.len() == 0 {
        Seq::empty()
    } else {
        hex_lower(bytes.drop_last()).push(hex_digit(bytes.last() / 16)).push(
            hex_digit(bytes.last() % 16),
        )
    }
}

/// A hexadecimal rendering is ASCII, two digits to the byte.
pub proof fn lemma_hex_lower_ascii(bytes: Seq<u8>)
    ensures
        all_ascii(hex_lower(bytes)),
        hex_lower(bytes).len() == 2 * bytes.len(),
    decreases bytes.len(),
{
    if bytes.len() > 0 {
        lemma_hex_lower_ascii(bytes.drop_last());
    }
}

/// Renders bytes in lower-case hexadecimal.
pub fn to_hex_lower(bytes: &[u8]) -> (text: String)
    ensures
        text@ == ascii_chars(hex_lower(bytes@)),
{
    let mut out: Vec<u8> = Vec::new();
    let mut i: usize = 0;
    assert(bytes@.take(0) =~= Seq::<u8>::empty());
    while i < bytes.len()
        invariant
            i <= bytes@.len(),
            out@ == hex_lower(bytes@.take(i as int)),
        decreases bytes@.len() - i,
    {
        let byte: u8 = bytes[i];
        let high: u8 = byte / 16;
        let low: u8 = byte % 16;
        proof {
            assert(bytes@.take(i + 1).drop_last() =~= bytes@.take(i as int));
            assert(bytes@.take(i + 1).last() == byte);
        }
        out.push(if high < 10 { 48 + high } else { 87 + high });
        out.push(if low < 10 { 48 + low } else { 87 + low });
        i = i + 1;
    }
    proof {
        assert(bytes@.take(i as int) =~= bytes@);
        lemma_hex_lower_ascii(bytes@);
    }
    ascii_string(out)
}

/// The number that decimal digits spell.
pub open spec fn digits_value(digits: Seq<u8>) -> nat
    decreases digits.len(),
{
    if digits.len() == 0 {
        0
    } else {
        digits_value(digits.drop_last()) * 10 + (digits.last() - 48) as nat
    }
}

/// Whether every byte is a decimal digit.
pub open spec fn all_digits(bytes: Seq<u8>) -> bool {
    forall|i: int| 0 <= i < bytes.len() ==> 48 <= #[trigger] bytes[i] <= 57
}

/// The integer that a text spells in the way `i64` is parsed: an optional
/// sign, then one or more decimal digits, with a value that an `i64` holds.
pub open spec fn parsed_i64(bytes: Seq<u8>) -> Option<i64> {
    if bytes.len() == 0 {
        None
    } else {
        let signed = bytes[0] == 43 || bytes[0] == 45;
        let digits = if signed {
            bytes.skip(1)
        } else {
            bytes
        };
        let value = if bytes[0] == 45 {
            -(digits_value(digits) as int)
        } else {
            digits_value(digits) as int
        };
        if digits.len() == 0 || !all_digits(digits) || value < i64::MIN || value > i64::MAX {
            None
        } else {
            Some(value as i64)
        }
    }
}

/// Parses an integer as `i64` is parsed from text.
pub fn parse_i64(bytes: &[u8]) -> (value: Option<i64>)
    ensures
        value == parsed_i64(bytes@),
{
    if bytes.len() == 0 {
        return None;
    }
    let negative = bytes[0] == 45u8;
    let start: usize = if bytes[0] == 43u8 || bytes[0] == 45u8 {
        1
    } else {
        0
    };
    if start == bytes.len() {
        return None;
    }
    let ghost digits = bytes@.skip(start as int);
    assert(bytes@.skip(0) =~= bytes@);
    // the magnitude so far, as long as it is at most 2^63
    let mut magnitude: u64 = 0;
    let mut i: usize = start;
    assert(digits.take(0) =~= Seq::<u8>::empty());
    while i < bytes.len()
        invariant
            start <= i <= bytes@.len(),
            bytes@.len() > 0,
            start < bytes@.len(),
            bytes@.skip(0) == bytes@,
            start == (if bytes@[0] == 43 || bytes@[0] == 45 {
                1int
            } else {
                0int
            }),
            negative == (bytes@[0] == 45),
            digits == bytes@.skip(start as int),
            all_digits(digits.take(i - start)),
            magnitude == digits_value(digits.take(i - start)),
            magnitude <= 0x8000_0000_0000_0000u64,
        decreases bytes@.len() - i,
    {
        let byte: u8 = bytes[i];
        let ghost next = digits.take(i - start + 1);
        proof {
            assert(next.drop_last() =~= digits.take(i - start));
            assert(next.last() == byte);
        }
        if byte < 48 || byte > 57 {
            proof {
                assert(digits[i - start] == byte);
                assert(!all_digits(digits));
            }
            return None;
        }
        let digit: u64 = (byte - 48) as u64;
        if magnitude > (0x8000_0000_0000_0000u64 - digit) / 10 {
            proof {
                lemma_digits_value_grows(digits, i - start + 1);
                assert(digits_value(next) == magnitude * 10 + digit);
                assert(digits_value(next) > 0x8000_0000_0000_0000u64);
                assert(digits_value(digits) > 0x8000_0000_0000_0000u64);
            }
            return None;
        }
        magnitude = magnitude * 10 + digit;
        proof {
            assert forall|k: int| 0 <= k < next.len() implies 48 <= #[trigger] next[k] <= 57 by {
                if k < next.len() - 1 {
                    assert(next[k] == digits.take(i - start)[k]);
                }
            }
        }
        i = i + 1;
    }
    proof {
        assert(digits.len() == i - start);
        assert(digits.take(i - start) =~= digits);
        assert(all_digits(digits));
        assert(magnitude == digits_value(digits));
    }
    if negative {
        if magnitude == 0x8000_0000_0000_0000u64 {
            Some(i64::MIN)
        } else {
            Some(-(magnitude as i64))
        }
    } else if magnitude == 0x8000_0000_0000_0000u64 {
        None
    } else {
        Some(magnitude as i64)
    }
}

/// More digits never spell a smaller number.
pub proof fn lemma_digits_value_grows(digits: Seq<u8>, n: int)
    requires
        0 <= n <= digits.len(),
    ensures
        digits_value(digits.take(n)) <= digits_value(digits),
    decreases digits.len() - n,
{
    if n < digits.len() {
        lemma_digits_value_grows(digits, n + 1);
        assert(digits.take(n + 1).drop_last() =~= digits.take(n));
    } else {
        assert(digits.take(n) =~= digits);
    }
}

/// Ten to the power of `n`.
pub open spec fn ten_to(n: nat) -> nat
    decreases n,
{
    if n == 0 {
        1
    } else {
        10 * ten_to((n - 1) as nat)
    }
}

/// Digits spell a number below ten to the power of their count.
pub proof fn lemma_digits_value_below(digits: Seq<u8>)
    requires
        all_digits(digits),
    ensures
        digits_value(digits) < ten_to(digits.len()),
    decreases digits.len(),
{
    if digits.len() > 0 {
        let front = digits.drop_last();
        assert forall|i: int| 0 <= i < front.len() implies 48 <= #[trigger] front[i] <= 57 by {
            assert(front[i] == digits[i]);
        }
        lemma_digits_value_below(front);
        assert(digits.last() == digits[digits.len() - 1]);
    }
}

/// Up to ten digits spell a number below ten thousand million, which an
/// `i64` holds.
pub proof fn lemma_ten_digits_fit(digits: Seq<u8>)
    requires
        all_digits(digits),
        digits.len() <= 10,
    ensures
        digits_value(digits) < 10_000_000_000,
{
    lemma_digits_value_below(digits);
    reveal_with_fuel(ten_to, 11);
    assert(ten_to(10) == 10_000_000_000);
    lemma_ten_to_grows(digits.len(), 10);
}

/// Ten to a higher power is no less.
pub proof fn lemma_ten_to_grows(low: nat, high: nat)
    requires
        low <= high,
    ensures
        1 <= ten_to(low) <= ten_to(high),
    decreases high,
{
    if low < high {
        lemma_ten_to_grows(low, (high - 1) as nat);
    } else if low > 0 {
        lemma_ten_to_grows((low - 1) as nat, (low - 1) as nat);
    }
}

/// Digits that do not begin with a zero spell a number above zero.
pub proof fn lemma_digits_value_positive(digits: Seq<u8>)
    requires
        all_digits(digits),
        digits.len() > 0,
        digits[0] >= 49,
    ensures
        digits_value(digits) >= 1,
    decreases digits.len(),
{
    if digits.len() > 1 {
        let front = digits.drop_last();
        assert forall|i: int| 0 <= i < front.len() implies 48 <= #[trigger] front[i] <= 57 by {
            assert(front[i] == digits[i]);
        }
        assert(front[0] == digits[0]);
        lemma_digits_value_positive(front);
    } else {
        assert(digits.drop_last() =~= Seq::<u8>::empty());
        assert(digits.last() == digits[0]);
    }
}

} // verus!

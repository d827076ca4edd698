//! Text helpers: hexadecimal notation and string assembly.

use crate::primitives::string_push;
use vstd::prelude::*;
use vstd::string::*;

verus! {

/// Lower-case hexadecimal digit for a value below 16.
pub open spec fn hex_char(v: u8) -> char {
    if v < 10 {
        (48 + v) as char
    } else {
        (87 + v) as char
    }
}

/// Lower-case hexadecimal text of a byte string, two digits per byte.
pub open spec fn hex_text(b: Seq<u8>) -> Seq<char>
    decreases b.len(),
{
    if b.len() == 0 {
        Seq::empty()
    } else {
        seq![hex_char(b[0] / 16), hex_char(b[0] % 16)] + hex_text(b.drop_first())
    }
}

/// Hexadecimal text has two characters per byte.
pub proof fn lemma_hex_text_len(b: Seq<u8>)
    ensures
        hex_text(b).len() == 2 * b.len(),
    decreases b.len(),
{
    if b.len() > 0 {
        lemma_hex_text_len(b.drop_first());
    }
}

/// The ASCII byte of the lower-case hexadecimal digit for a value below 16.
pub open spec fn hex_digit_byte(v: u8) -> u8 {
    if v < 10 {
        (48 + v) as u8
    } else {
        (87 + v) as u8
    }
}

/// A hexadecimal digit is one ASCII byte, which reads back as its value.
proof fn lemma_hex_char_byte(v: u8)
    requires
        v < 16,
    ensures
        vstd::utf8::encode_scalar(hex_char(v) as u32) == seq![hex_digit_byte(v)],
        hex_digit_value(hex_digit_byte(v)) == Some(v),
{
    let c = hex_char(v);
    assert(c as u32 == hex_digit_byte(v) as u32);
    let u = c as u32;
    assert(u <= 0x7f);
    assert((u & 0x7F) as u8 == u as u8) by (bit_vector)
        requires
            u <= 0x7f,
    ;
}

/// The UTF-8 bytes of hexadecimal text: two ASCII digits per byte.
pub open spec fn hex_ascii(b: Seq<u8>) -> Seq<u8>
    decreases b.len(),
{
    if b.len() == 0 {
        Seq::empty()
    } else {
        seq![hex_digit_byte(b[0] / 16), hex_digit_byte(b[0] % 16)] + hex_ascii(b.drop_first())
    }
}

/// Hexadecimal text encodes to its ASCII digits, each of them a digit.
pub proof fn lemma_hex_text_bytes(b: Seq<u8>)
    ensures
        vstd::utf8::encode_utf8(hex_text(b)) == hex_ascii(b),
        hex_ascii(b).len() == 2 * b.len(),
        forall|i: int| 0 <= i < hex_ascii(b).len() ==> #[trigger] hex_digit_value(hex_ascii(b)[i]) is Some,
    decreases b.len(),
{
    if b.len() > 0 {
        let rest = b.drop_first();
        let c1 = hex_char(b[0] / 16);
        let c2 = hex_char(b[0] % 16);
        let t = hex_text(b);
        assert(t == seq![c1, c2] + hex_text(rest));
        assert(t[0] == c1);
        assert(t.drop_first() =~= seq![c2] + hex_text(rest));
        assert(t.drop_first()[0] == c2);
        assert(t.drop_first().drop_first() =~= hex_text(rest));
        lemma_hex_char_byte(b[0] / 16);
        lemma_hex_char_byte(b[0] % 16);
        lemma_hex_text_bytes(rest);
        let e = vstd::utf8::encode_utf8(t);
        assert(e == vstd::utf8::encode_scalar(c1 as u32) + vstd::utf8::encode_utf8(t.drop_first()));
        assert(vstd::utf8::encode_utf8(t.drop_first()) == vstd::utf8::encode_scalar(c2 as u32)
            + vstd::utf8::encode_utf8(t.drop_first().drop_first()));
        assert(e =~= hex_ascii(b));
        let h = hex_ascii(b);
        let hr = hex_ascii(rest);
        assert forall|i: int| 0 <= i < h.len() implies #[trigger] hex_digit_value(h[i]) is Some by {
            if i >= 2 {
                assert(h[i] == hr[i - 2]);
            }
        }
    }
}

/// The ASCII digits of a byte string read back to the byte string.
proof fn lemma_hex_ascii_reads_back(b: Seq<u8>)
    ensures
        hex_bytes_of(hex_ascii(b)) == Some(b),
    decreases b.len(),
{
    if b.len() > 0 {
        let rest = b.drop_first();
        let h = hex_ascii(b);
        lemma_hex_char_byte(b[0] / 16);
        lemma_hex_char_byte(b[0] % 16);
        lemma_hex_ascii_reads_back(rest);
        lemma_hex_text_bytes(rest);
        assert(h.skip(2) =~= hex_ascii(rest));
        assert(h[0] == hex_digit_byte(b[0] / 16));
        assert(h[1] == hex_digit_byte(b[0] % 16));
        assert(((b[0] / 16) * 16 + b[0] % 16) as u8 == b[0]);
        assert(seq![b[0]] + rest =~= b);
    }
}

/// Hexadecimal text, as UTF-8 bytes, reads back to the bytes it was
/// written from.
pub proof fn law_hex_text_reads_back(b: Seq<u8>)
    ensures
        hex_bytes_of(vstd::utf8::encode_utf8(hex_text(b))) == Some(b),
        vstd::utf8::encode_utf8(hex_text(b)).len() == 2 * b.len(),
{
    lemma_hex_text_bytes(b);
    lemma_hex_ascii_reads_back(b);
}

/// Value of one hexadecimal digit (either case), given as an ASCII byte.
pub open spec fn hex_digit_value(c: u8) -> Option<u8> {
    if 48 <= c <= 57 {
        Some((c - 48) as u8)
    } else if 97 <= c <= 102 {
        Some((c - 87) as u8)
    } else if 65 <= c <= 70 {
        Some((c - 55) as u8)
    } else {
        None
    }
}

/// Bytes denoted by pairs of hexadecimal digits; `None` for an odd length
/// or a character that is not a hexadecimal digit.
pub open spec fn hex_bytes_of(s: Seq<u8>) -> Option<Seq<u8>>
    decreases s.len(),
{
    if s.len() == 0 {
        Some(Seq::empty())
    } else if s.len() == 1 {
        None
    } else {
        match (hex_digit_value(s[0]), hex_digit_value(s[1]), hex_bytes_of(s.skip(2))) {
            (Some(h), Some(l), Some(rest)) => Some(seq![(h * 16 + l) as u8] + rest),
            _ => None,
        }
    }
}

/// `a` followed by `b`.
pub fn concat_str(a: &str, b: &str) -> (r: String)
    ensures
        r@ == a@ + b@,
{
    let mut r = String::from_str(a);
    r.append(b);
    r
}

/// ASCII decimal digit for a value below 10.
pub open spec fn digit_char(d: nat) -> char {
    (48 + d) as char
}

/// Decimal notation of a natural number (no leading zeros).
pub open spec fn decimal(n: nat) -> Seq<char>
    decreases n,
{
    if n < 10 {
        seq![digit_char(n)]
    } else {
        decimal(n / 10).push(digit_char(n % 10))
    }
}

/// Decimal notation is made of the digits `0` to `9`.
pub proof fn lemma_decimal_digits(n: nat)
    ensures
        forall|i: int| 0 <= i < decimal(n).len() ==> '0' <= #[trigger] decimal(n)[i] <= '9',
    decreases n,
{
    let d = if n < 10 {
        n
    } else {
        n % 10
    };
    assert('0' <= digit_char(d) <= '9');
    if n >= 10 {
        lemma_decimal_digits(n / 10);
        assert forall|i: int| 0 <= i < decimal(n).len() implies '0' <= #[trigger] decimal(n)[i]
            <= '9' by {
            if i < decimal(n / 10).len() {
                assert(decimal(n)[i] == decimal(n / 10)[i]);
            }
        }
    } else {
        assert(decimal(n) == seq![digit_char(n)]);
    }
}

/// Appends the decimal notation of `n` to `s`.
pub fn push_decimal(s: &mut String, n: u64)
    ensures
        final(s)@ == old(s)@ + decimal(n as nat),
    decreases n,
{
    if n < 10 {
        let c = (48u8 + n as u8) as char;
        string_push(s, c);
        assert(decimal(n as nat) =~= seq![digit_char(n as nat)]);
    } else {
        push_decimal(s, n / 10);
        let c = (48u8 + (n % 10) as u8) as char;
        string_push(s, c);
    }
}

/// Decimal notation of `n` with leading zeros to at least `w` digits.
pub open spec fn padded_decimal(n: nat, w: nat) -> Seq<char>
    decreases w,
{
    if w <= 1 {
        decimal(n)
    } else {
        padded_decimal(n / 10, (w - 1) as nat).push(digit_char(n % 10))
    }
}

/// Appends the decimal notation of `n`, zero-padded to `w` digits, to `s`.
pub fn push_padded_decimal(s: &mut String, n: u64, w: u64)
    ensures
        final(s)@ == old(s)@ + padded_decimal(n as nat, w as nat),
    decreases w,
{
    if w <= 1 {
        push_decimal(s, n);
    } else {
        let ghost before = s@;
        push_padded_decimal(s, n / 10, w - 1);
        let c = (48u8 + (n % 10) as u8) as char;
        string_push(s, c);
        assert(s@ =~= before + padded_decimal(n as nat, w as nat));
    }
}

/// `a` followed by the decimal notation of `n`.
pub fn str_with_decimal(a: &str, n: u64) -> (r: String)
    ensures
        r@ == a@ + decimal(n as nat),
{
    let mut r = String::from_str(a);
    push_decimal(&mut r, n);
    r
}

/// `a`, the decimal notation of `n`, then `b`.
pub fn decimal_between(a: &str, n: u64, b: &str) -> (r: String)
    ensures
        r@ == a@ + decimal(n as nat) + b@,
{
    let mut r = String::from_str(a);
    push_decimal(&mut r, n);
    r.append(b);
    r
}

/// Equality of two strings, compared through their UTF-8 bytes.
pub fn str_eq(a: &str, b: &str) -> (r: bool)
    ensures
        r == (a@ == b@),
{
    let r = bytes_equal(a.as_bytes(), b.as_bytes());
    proof {
        vstd::utf8::encode_utf8_decode_utf8(a@);
        vstd::utf8::encode_utf8_decode_utf8(b@);
    }
    r
}

/// Byte-wise equality of two slices.
pub fn bytes_equal(a: &[u8], b: &[u8]) -> (r: bool)
    ensures
        r == (a@ == b@),
{
    if a.len() != b.len() {
        return false;
    }
    let mut i: usize = 0;
    while i < a.len()
        invariant
            i <= a@.len(),
            a@.len() == b@.len(),
            forall|j: int| 0 <= j < i ==> a@[j] == b@[j],
        decreases a@.len() - i,
    {
        if a[i] != b[i] {
            return false;
        }
        i = i + 1;
    }
    assert(a@ =~= b@);
    true
}

} // verus!

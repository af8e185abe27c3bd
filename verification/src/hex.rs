//! Hexadecimal text: every character becomes the two lower-case digits of its
//! low byte, and pairs of digits become characters again.
//!
//! This hides a text from a casual reader and nothing more: there is no key.

use vstd::prelude::*;
use vstd::string::*;
use vstd::utf8::*;
use crate::text::{chars_of, code_point, lemma_char_is_code_point};

verus! {

/// The lower-case hexadecimal digit for `n`, where `0 <= n < 16`.
pub open spec fn digit_char(n: int) -> char {
    if n < 10 {
        ('0' as int + n) as char
    } else {
        ('a' as int + n - 10) as char
    }
}

/// The value of a hexadecimal digit of either case, `None` for any other
/// character.
pub open spec fn digit_value(c: char) -> Option<int> {
    if '0' <= c <= '9' {
        Some(c as int - '0' as int)
    } else if 'a' <= c <= 'f' {
        Some(c as int - 'a' as int + 10)
    } else if 'A' <= c <= 'F' {
        Some(c as int - 'A' as int + 10)
    } else {
        None
    }
}

/// The low eight bits of a character's code point.
pub open spec fn low_byte(c: char) -> int {
    (c as int) % 256
}

/// The hexadecimal text of `s`: two digits for each character, high nibble
/// first.
pub open spec fn hex_encoding(s: Seq<char>) -> Seq<char> {
    Seq::new(
        2 * s.len(),
        |i: int|
            if i % 2 == 0 {
                digit_char(low_byte(s[i / 2]) / 16)
            } else {
                digit_char(low_byte(s[i / 2]) % 16)
            },
    )
}

/// Whether `s` is made of an even number of hexadecimal digits.
pub open spec fn is_hex_text(s: Seq<char>) -> bool {
    &&& s.len() % 2 == 0
    &&& forall|i: int| 0 <= i < s.len() ==> (#[trigger] digit_value(s[i])) is Some
}

/// The character that a pair of hexadecimal digits stands for.
pub open spec fn pair_char(hi: char, lo: char) -> char {
    (16 * digit_value(hi).unwrap() + digit_value(lo).unwrap()) as char
}

/// The text that the hexadecimal text `s` stands for: one character, of code
/// point below 256, for each pair of digits.
pub open spec fn hex_decoding(s: Seq<char>) -> Seq<char> {
    Seq::new((s.len() / 2) as nat, |i: int| pair_char(s[2 * i], s[2 * i + 1]))
}

/// Why a text cannot be decoded.
#[derive(Clone, Copy, Debug, PartialEq, Eq, Structural)]
pub enum HexFault {
    /// The text has an odd number of bytes.
    OddLength,
    /// A pair of bytes is not text by itself: it cuts through a character
    /// that takes more than one byte.
    BrokenPair,
    /// A pair of bytes is text, and is not two hexadecimal digits.
    BadDigit,
}

/// The message for `HexFault::OddLength`.
pub const ODD_LENGTH: &'static str = "Invalid hexadecimal input: length must be even.";

/// The message for `HexFault::BrokenPair`.
pub const BROKEN_PAIR: &'static str = "Invalid UTF-8 sequence";

/// The message for `HexFault::BadDigit`.
pub const BAD_DIGIT: &'static str = "Invalid hexadecimal value";

impl HexFault {
    /// The message that `from_hex` reports for this fault.
    pub open spec fn text(self) -> Seq<char> {
        match self {
            HexFault::OddLength => ODD_LENGTH@,
            HexFault::BrokenPair => BROKEN_PAIR@,
            HexFault::BadDigit => BAD_DIGIT@,
        }
    }

    /// The message of this fault.
    pub fn message(self) -> (m: &'static str)
        ensures
            m@ == self.text(),
    {
        match self {
            HexFault::OddLength => ODD_LENGTH,
            HexFault::BrokenPair => BROKEN_PAIR,
            HexFault::BadDigit => BAD_DIGIT,
        }
    }
}

/// Whether the byte is the code of a hexadecimal digit.
pub open spec fn is_hex_byte(b: u8) -> bool {
    digit_value(b as char) is Some
}

/// What is wrong with the pair of bytes `b0`, `b1`, if anything.
pub open spec fn pair_fault(b0: u8, b1: u8) -> Option<HexFault> {
    if is_hex_byte(b0) && is_hex_byte(b1) {
        None
    } else if valid_utf8(seq![b0, b1]) {
        Some(HexFault::BadDigit)
    } else {
        Some(HexFault::BrokenPair)
    }
}

/// The fault of the first faulty pair among the pairs that start at the even
/// index `from` or later.
pub open spec fn first_pair_fault(bytes: Seq<u8>, from: int) -> Option<HexFault>
    decreases bytes.len() - from,
{
    if from < 0 || from + 2 > bytes.len() {
        None
    } else if pair_fault(bytes[from], bytes[from + 1]) is Some {
        pair_fault(bytes[from], bytes[from + 1])
    } else {
        first_pair_fault(bytes, from + 2)
    }
}

/// Why the text with the UTF-8 bytes `bytes` cannot be decoded, `None` if it
/// can. The length is looked at first, then the pairs from left to right.
pub open spec fn hex_fault(bytes: Seq<u8>) -> Option<HexFault> {
    if bytes.len() % 2 != 0 {
        Some(HexFault::OddLength)
    } else {
        first_pair_fault(bytes, 0)
    }
}

/// The digit for `n` as a character.
fn digit_of(n: u8) -> (c: char)
    requires
        n < 16,
    ensures
        c == digit_char(n as int),
{
    if n < 10 {
        (0x30u8 + n) as char
    } else {
        (0x61u8 + (n - 10)) as char
    }
}

/// Appends the hexadecimal text of `t` to `bytes`.
pub fn to_hex(t: &str, bytes: &mut String)
    ensures
        final(bytes)@ == old(bytes)@ + hex_encoding(t@),
{
    let chars = chars_of(t);
    let mut k: usize = 0;
    while k < chars.len()
        invariant
            k <= chars@.len(),
            chars@ == t@,
            bytes@ == old(bytes)@ + hex_encoding(t@.take(k as int)),
        decreases chars@.len() - k,
    {
        let code: u32 = code_point(chars[k]);
        let low: u8 = (code % 256) as u8;
        bytes.push(digit_of(low / 16));
        bytes.push(digit_of(low % 16));
        k += 1;
        assert(hex_encoding(t@.take(k as int)) == hex_encoding(t@.take(k - 1)).push(
            digit_char(low_byte(t@[k - 1]) / 16),
        ).push(digit_char(low_byte(t@[k - 1]) % 16)));
    }
    assert(t@.take(k as int) == t@);
}

/// The value of the hexadecimal digit with code `b`, if it is one.
fn nibble(b: u8) -> (n: Option<u8>)
    ensures
        n is Some <==> is_hex_byte(b),
        n matches Some(v) ==> v < 16 && digit_value(b as char) == Some(v as int),
{
    if 0x30 <= b && b <= 0x39 {
        Some(b - 0x30)
    } else if 0x61 <= b && b <= 0x66 {
        Some(b - 0x61 + 10)
    } else if 0x41 <= b && b <= 0x46 {
        Some(b - 0x41 + 10)
    } else {
        None
    }
}

/// Two bytes are text by themselves when both are ASCII, or when they are the
/// two bytes of one character.
proof fn lemma_pair_is_text(b0: u8, b1: u8)
    ensures
        valid_utf8(seq![b0, b1]) <==> (b0 < 0x80 && b1 < 0x80) || (0xc2 <= b0 <= 0xdf && 0x80 <= b1
            <= 0xbf),
{
    let pair = seq![b0, b1];
    let rest = pop_first_scalar(pair);
    reveal_with_fuel(valid_utf8, 3);
    if b0 < 0x80 {
        assert((b0 & 0x7f) as u32 <= 0x7f) by (bit_vector);
        assert(rest =~= seq![b1]);
        if b1 < 0x80 {
            assert((b1 & 0x7f) as u32 <= 0x7f) by (bit_vector);
            assert(pop_first_scalar(rest) =~= Seq::<u8>::empty());
        }
    } else if 0xc0 <= b0 <= 0xdf && 0x80 <= b1 <= 0xbf {
        let cp = codepoint_width_2(b0, b1);
        assert(cp == (((b0 & 0x1f) as u32) << 6) | ((b1 & 0x3f) as u32));
        assert(((((b0 & 0x1f) as u32) << 6) | ((b1 & 0x3f) as u32)) < 0x800) by (bit_vector);
        assert(0xc0 <= b0 <= 0xdf ==> (0x80 <= ((((b0 & 0x1f) as u32) << 6) | ((b1 & 0x3f) as u32))
            <==> 0xc2 <= b0)) by (bit_vector);
        assert(rest =~= Seq::<u8>::empty());
    }
}

/// Whether the two bytes are text by themselves.
fn pair_is_text(b0: u8, b1: u8) -> (t: bool)
    ensures
        t == valid_utf8(seq![b0, b1]),
{
    proof {
        lemma_pair_is_text(b0, b1);
    }
    (b0 < 0x80 && b1 < 0x80) || (0xc2 <= b0 && b0 <= 0xdf && 0x80 <= b1 && b1 <= 0xbf)
}

/// A text of ASCII bytes holds one character for each byte, with the byte's
/// code.
proof fn lemma_ascii_bytes(bytes: Seq<u8>)
    requires
        forall|i: int| 0 <= i < bytes.len() ==> bytes[i] < 0x80,
    ensures
        valid_utf8(bytes),
        decode_utf8(bytes) == Seq::new(bytes.len(), |i: int| bytes[i] as char),
    decreases bytes.len(),
{
    if bytes.len() > 0 {
        let b = bytes[0];
        let rest = pop_first_scalar(bytes);
        assert((b & 0x7f) as u32 == b as u32) by (bit_vector)
            requires
                b < 0x80,
        ;
        assert(rest =~= bytes.drop_first());
        lemma_ascii_bytes(rest);
        assert(decode_utf8(bytes) =~= Seq::new(bytes.len(), |i: int| bytes[i] as char));
    } else {
        assert(decode_utf8(bytes) =~= Seq::new(bytes.len(), |i: int| bytes[i] as char));
    }
}

/// No pair of hexadecimal digits is faulty.
proof fn lemma_hex_bytes_have_no_fault(bytes: Seq<u8>, from: int)
    requires
        forall|i: int| 0 <= i < bytes.len() ==> is_hex_byte(#[trigger] bytes[i]),
    ensures
        first_pair_fault(bytes, from) is None,
    decreases bytes.len() - from,
{
    if 0 <= from && from + 2 <= bytes.len() {
        lemma_hex_bytes_have_no_fault(bytes, from + 2);
    }
}

/// A text of hexadecimal digits has no fault in its bytes.
proof fn lemma_hex_text_has_no_fault(chars: Seq<char>)
    requires
        is_hex_text(chars),
    ensures
        hex_fault(encode_utf8(chars)) is None,
{
    let bytes = encode_utf8(chars);
    assert(is_ascii_chars(chars)) by {
        assert forall|i: int| 0 <= i < chars.len() implies '\0' <= #[trigger] chars[i]
            <= '\u{7f}' by {
            assert(digit_value(chars[i]) is Some);
        }
    }
    is_ascii_chars_encode_utf8(chars);
    assert forall|i: int| 0 <= i < bytes.len() implies is_hex_byte(#[trigger] bytes[i]) by {
        assert(digit_value(chars[i]) is Some);
        assert(chars[i] as u8 == bytes[i]);
        assert(bytes[i] as char == chars[i]);
    }
    lemma_hex_bytes_have_no_fault(bytes, 0);
}

/// Where every byte of a text is a hexadecimal digit, every character is one,
/// and stands where its byte stands.
proof fn lemma_hex_bytes_are_hex_text(chars: Seq<char>)
    requires
        forall|i: int|
            0 <= i < encode_utf8(chars).len() ==> is_hex_byte(#[trigger] encode_utf8(chars)[i]),
    ensures
        chars.len() == encode_utf8(chars).len(),
        forall|i: int| 0 <= i < chars.len() ==> #[trigger] chars[i] == encode_utf8(chars)[i] as char,
{
    let bytes = encode_utf8(chars);
    assert forall|i: int| 0 <= i < bytes.len() implies bytes[i] < 0x80 by {
        assert(is_hex_byte(bytes[i]));
    }
    lemma_ascii_bytes(bytes);
    encode_utf8_decode_utf8(chars);
}

/// Decodes a hexadecimal text. `Ok` exactly for an even number of
/// hexadecimal digits, of either case; otherwise the message of the first
/// fault.
pub fn from_hex(hex: &str) -> (r: Result<String, &'static str>)
    ensures
        r is Ok <==> is_hex_text(hex@),
        r is Ok <==> hex_fault(hex.spec_bytes()) is None,
        r matches Ok(s) ==> s@ == hex_decoding(hex@),
        r matches Err(e) ==> e@ == hex_fault(hex.spec_bytes()).unwrap().text(),
{
    let bytes = hex.as_bytes();
    let n = bytes.len();
    if n % 2 != 0 {
        proof {
            if is_hex_text(hex@) {
                lemma_hex_text_has_no_fault(hex@);
            }
        }
        return Err(HexFault::OddLength.message());
    }
    let mut out = String::new();
    let mut i: usize = 0;
    while i < n
        invariant
            n == bytes@.len(),
            bytes@ == hex.spec_bytes(),
            n % 2 == 0,
            i % 2 == 0,
            i <= n,
            forall|j: int| 0 <= j < i ==> is_hex_byte(#[trigger] bytes@[j]),
            first_pair_fault(bytes@, 0) == first_pair_fault(bytes@, i as int),
            out@ == Seq::new(
                (i / 2) as nat,
                |k: int| pair_char(bytes@[2 * k] as char, bytes@[2 * k + 1] as char),
            ),
        decreases n - i,
    {
        let b0 = bytes[i];
        let b1 = bytes[i + 1];
        let hi = nibble(b0);
        let lo = nibble(b1);
        if hi.is_some() && lo.is_some() {
            let byte: u8 = hi.unwrap() * 16 + lo.unwrap();
            let ghost before = out@;
            out.push(byte as char);
            i += 2;
            assert(out@ =~= Seq::new(
                (i / 2) as nat,
                |k: int| pair_char(bytes@[2 * k] as char, bytes@[2 * k + 1] as char),
            ));
        } else {
            let fault = if pair_is_text(b0, b1) {
                HexFault::BadDigit
            } else {
                HexFault::BrokenPair
            };
            proof {
                assert(hex_fault(bytes@) == Some(fault));
                if is_hex_text(hex@) {
                    lemma_hex_text_has_no_fault(hex@);
                }
            }
            return Err(fault.message());
        }
    }
    proof {
        lemma_hex_bytes_have_no_fault(bytes@, 0);
        lemma_hex_bytes_are_hex_text(hex@);
        assert(is_hex_text(hex@)) by {
            assert forall|j: int| 0 <= j < hex@.len() implies (#[trigger] digit_value(
                hex@[j],
            )) is Some by {
                assert(is_hex_byte(bytes@[j]));
            }
        }
        assert(out@ =~= hex_decoding(hex@));
    }
    Ok(out)
}

/// What `to_hex` writes can always be decoded, and decodes to the low bytes
/// of the characters it was written for.
pub proof fn encoding_decodes_to_low_bytes(s: Seq<char>)
    ensures
        is_hex_text(hex_encoding(s)),
        hex_decoding(hex_encoding(s)) == Seq::new(s.len(), |i: int| low_byte(s[i]) as char),
{
    let e = hex_encoding(s);
    assert forall|i: int| 0 <= i < e.len() implies (#[trigger] digit_value(e[i])) is Some by {
        let b = low_byte(s[i / 2]);
        assert(0 <= b < 256);
    }
    assert forall|k: int| 0 <= k < s.len() implies #[trigger] hex_decoding(e)[k] == low_byte(
        s[k],
    ) as char by {
        let b = low_byte(s[k]);
        assert(0 <= b < 256);
        assert(e[2 * k] == digit_char(b / 16));
        assert(e[2 * k + 1] == digit_char(b % 16));
        assert(digit_value(digit_char(b / 16)) == Some(b / 16));
        assert(digit_value(digit_char(b % 16)) == Some(b % 16));
    }
    assert(hex_decoding(e) =~= Seq::new(s.len(), |i: int| low_byte(s[i]) as char));
}

/// Decoding undoes encoding on every text whose characters have code points
/// below 256, so on every text of printable ASCII characters.
pub proof fn hex_round_trip(s: Seq<char>)
    requires
        forall|i: int| 0 <= i < s.len() ==> ((#[trigger] s[i]) as int) < 256,
    ensures
        is_hex_text(hex_encoding(s)),
        hex_decoding(hex_encoding(s)) == s,
{
    encoding_decodes_to_low_bytes(s);
    assert forall|i: int| 0 <= i < s.len() implies low_byte(#[trigger] s[i]) as char == s[i] by {
        lemma_char_is_code_point(s[i]);
    }
    assert(hex_decoding(hex_encoding(s)) =~= s);
}

} // verus!

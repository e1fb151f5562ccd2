//! Codecs for what arrives on the wire: span and trace ids, timestamps, decimal numbers.

use crate::failure::Failure;
use crate::text::{chars_of, is_ascii_digit};
use base64::Engine;
use vstd::prelude::*;

verus! {

/// The sixteen lower-case hexadecimal digits, by value.
pub open spec fn hex_digits() -> Seq<char> {
    seq!['0', '1', '2', '3', '4', '5', '6', '7', '8', '9', 'a', 'b', 'c', 'd', 'e', 'f']
}

/// The lower-case hexadecimal text of a byte string: two digits for each byte, the high
/// half first.
pub open spec fn hex_lower(bytes: Seq<u8>) -> Seq<char>
    decreases bytes.len(),
{
    if bytes.len() == 0 {
        Seq::empty()
    } else {
        hex_lower(bytes.drop_last()).push(hex_digits()[bytes.last() as int / 16]).push(
            hex_digits()[bytes.last() as int % 16],
        )
    }
}

/// The bytes that a text stands for in standard base64 with padding, where it is valid
/// base64: what the `STANDARD` engine of the `base64` crate decodes it to.
pub uninterp spec fn base64_decoded(s: Seq<char>) -> Option<Seq<u8>>;

/// The SHA-256 digest of a byte string.
pub uninterp spec fn sha256_digest(data: Seq<u8>) -> Seq<u8>;

/// The plain value of an optional byte vector.
pub open spec fn bytes_view(bytes: Option<Vec<u8>>) -> Option<Seq<u8>> {
    match bytes {
        Some(b) => Some(b@),
        None => None,
    }
}

/// Decodes standard base64.
///
/// Trusted: calls `Engine::decode` of the `base64` crate on its `STANDARD` engine (the
/// standard alphabet, padding required) and turns a decoding error into `None`. The result
/// depends on the text alone; the contract gives it the name [`base64_decoded`].
#[verifier::external_body]
pub(crate) fn base64_decode(s: &str) -> (bytes: Option<Vec<u8>>)
    ensures
        bytes_view(bytes) == base64_decoded(s@),
{
    base64::engine::general_purpose::STANDARD.decode(s).ok()
}

/// Encodes bytes as lower-case hexadecimal text.
///
/// Trusted: calls `hex::encode`, which writes each byte as two digits out of
/// `0123456789abcdef`, the high half first.
#[verifier::external_body]
pub(crate) fn hex_encode(bytes: &[u8]) -> (text: String)
    ensures
        text@ == hex_lower(bytes@),
{
    hex::encode(bytes)
}

/// The SHA-256 digest of `data`.
///
/// Trusted: calls `Sha256::digest` of the `sha2` crate. The digest depends on the bytes
/// alone; the contract gives it the name [`sha256_digest`].
#[verifier::external_body]
pub(crate) fn sha256(data: &[u8]) -> (digest: Vec<u8>)
    ensures
        digest@ == sha256_digest(data@),
{
    <sha2::Sha256 as sha2::Digest>::digest(data).to_vec()
}

/// The id that a text of the wire format stands for, given what the text decodes to as
/// base64: the hexadecimal text of the bytes, or the text itself where it is no base64.
pub open spec fn id_from(s: Seq<char>, decoded: Option<Seq<u8>>) -> Seq<char> {
    match decoded {
        Some(bytes) => hex_lower(bytes),
        None => s,
    }
}

/// The id that a text of the wire format stands for.
pub open spec fn decoded_id(s: Seq<char>) -> Seq<char> {
    id_from(s, base64_decoded(s))
}

/// Normalizes an id given the result of decoding it as base64.
pub fn decode_id_with(s: &str, decoded: Option<Vec<u8>>) -> (id: String)
    ensures
        id@ == id_from(s@, bytes_view(decoded)),
{
    match decoded {
        Some(bytes) => hex_encode(bytes.as_slice()),
        None => s.to_owned(),
    }
}

/// Normalizes a trace or span id: OTLP sends ids as base64 or as hexadecimal text, and they
/// are stored as lower-case hexadecimal text.
pub fn decode_id(s: &str) -> (id: String)
    ensures
        id@ == decoded_id(s@),
{
    decode_id_with(s, base64_decode(s))
}

/// What normalizing an id gives: a text that is valid base64 for the bytes `b` gives the
/// hexadecimal text of `b`, and a text that is no base64 gives itself. A hexadecimal id may
/// happen to be valid base64, so it gives itself or the hexadecimal text of what it decodes
/// to.
pub proof fn lemma_decode_id_cases(s: Seq<char>, b: Seq<u8>)
    ensures
        base64_decoded(s) == Some(b) ==> decoded_id(s) == hex_lower(b),
        base64_decoded(s).is_none() ==> decoded_id(s) == s,
        decoded_id(hex_lower(b)) == hex_lower(b) || exists|bytes: Seq<u8>|
            base64_decoded(hex_lower(b)) == Some(bytes) && decoded_id(hex_lower(b)) == hex_lower(
                bytes,
            ),
{
}

/// The value of a decimal digit.
pub open spec fn digit_value(c: char) -> int {
    c as u32 - 0x30
}

/// Whether a text consists of decimal digits only.
pub open spec fn all_digits(s: Seq<char>) -> bool {
    forall|i: int| 0 <= i < s.len() ==> is_ascii_digit(#[trigger] s[i])
}

/// The number that a text of decimal digits stands for.
pub open spec fn digits_value(s: Seq<char>) -> int
    decreases s.len(),
{
    if s.len() == 0 {
        0
    } else {
        digits_value(s.drop_last()) * 10 + digit_value(s.last())
    }
}

/// The number that a text stands for: an optional sign, `+` or `-`, and at least one decimal
/// digit. Any other text stands for none.
pub open spec fn decimal_value(s: Seq<char>) -> Option<int> {
    if s.len() == 0 {
        None
    } else if s[0] == '-' || s[0] == '+' {
        let digits = s.subrange(1, s.len() as int);
        if digits.len() > 0 && all_digits(digits) {
            Some(
                if s[0] == '-' {
                    -digits_value(digits)
                } else {
                    digits_value(digits)
                },
            )
        } else {
            None
        }
    } else if all_digits(s) {
        Some(digits_value(s))
    } else {
        None
    }
}

/// The signed 64-bit number that a text stands for, if it stands for one.
pub open spec fn i64_value(s: Seq<char>) -> Option<i64> {
    match decimal_value(s) {
        Some(v) => if i64::MIN <= v <= i64::MAX {
            Some(v as i64)
        } else {
            None
        },
        None => None,
    }
}

/// The signed 32-bit number that a text stands for, if it stands for one.
pub open spec fn i32_value(s: Seq<char>) -> Option<i32> {
    match decimal_value(s) {
        Some(v) => if i32::MIN <= v <= i32::MAX {
            Some(v as i32)
        } else {
            None
        },
        None => None,
    }
}

/// The number of a prefix of a text of digits is at most the number of the text.
proof fn lemma_digits_value_grows(s: Seq<char>, i: int)
    requires
        0 <= i <= s.len(),
        all_digits(s),
    ensures
        0 <= digits_value(s.take(i)) <= digits_value(s),
    decreases s.len() - i,
{
    lemma_digits_value_nonnegative(s.take(i));
    if i < s.len() {
        assert(s.take(i + 1).drop_last() =~= s.take(i));
        lemma_digits_value_grows(s, i + 1);
    } else {
        assert(s.take(i) =~= s);
    }
}

/// The number of a text of digits is not negative.
proof fn lemma_digits_value_nonnegative(s: Seq<char>)
    requires
        all_digits(s),
    ensures
        0 <= digits_value(s),
    decreases s.len(),
{
    if s.len() > 0 {
        lemma_digits_value_nonnegative(s.drop_last());
    }
}

/// The magnitude of the digits of `s` from index `from` on, as long as it is at most
/// 2^63: `None` where a character is no digit, where there is none, or where the
/// magnitude is larger.
fn parse_magnitude(s: &Vec<char>, from: usize) -> (r: Option<u64>)
    requires
        from <= s.len(),
    ensures
        match r {
            Some(v) => {
                &&& from < s.len()
                &&& all_digits(s@.subrange(from as int, s.len() as int))
                &&& v == digits_value(s@.subrange(from as int, s.len() as int))
                &&& v <= 0x8000_0000_0000_0000
            },
            None => {
                ||| from == s.len()
                ||| !all_digits(s@.subrange(from as int, s.len() as int))
                ||| digits_value(s@.subrange(from as int, s.len() as int))
                    > 0x8000_0000_0000_0000
            },
        },
{
    if from == s.len() {
        return None;
    }
    let ghost d = s@.subrange(from as int, s.len() as int);
    // First make sure that every character is a digit.
    let mut k: usize = from;
    while k < s.len()
        invariant
            from <= k <= s.len(),
            d == s@.subrange(from as int, s.len() as int),
            forall|j: int| 0 <= j < k - from ==> is_ascii_digit(#[trigger] d[j]),
        decreases s.len() - k,
    {
        let c = s[k];
        let u: u32 = c as u32;
        if !(0x30 <= u && u <= 0x39) {
            assert(d[k - from] == s@[k as int]);
            return None;
        }
        k += 1;
    }
    let mut acc: u64 = 0;
    let mut i: usize = from;
    while i < s.len()
        invariant
            from <= i <= s.len(),
            d == s@.subrange(from as int, s.len() as int),
            all_digits(d),
            acc == digits_value(d.take(i - from)),
            acc <= 0x8000_0000_0000_0000,
        decreases s.len() - i,
    {
        let c = s[i];
        proof {
            assert(d.take(i - from + 1).drop_last() =~= d.take(i - from));
            lemma_digits_value_grows(d, i - from + 1);
        }
        let digit: u64 = (c as u32 - 0x30) as u64;
        if acc > 922_337_203_685_477_580 || acc * 10 > 0x8000_0000_0000_0000 - digit {
            return None;
        }
        acc = acc * 10 + digit;
        i += 1;
    }
    proof {
        assert(d.take(s.len() - from) =~= d);
    }
    Some(acc)
}

/// Reads a signed decimal number of 64 bits.
pub fn parse_i64(s: &str) -> (r: Option<i64>)
    ensures
        r == i64_value(s@),
{
    let chars = chars_of(s);
    if chars.len() == 0 {
        return None;
    }
    let first = chars[0];
    if first == '-' {
        match parse_magnitude(&chars, 1) {
            Some(m) => {
                if m == 0x8000_0000_0000_0000 {
                    Some(i64::MIN)
                } else {
                    Some(-(m as i64))
                }
            },
            None => {
                // What stands behind the sign is no number, or one beyond 2^63.
                assert(i64_value(s@).is_none());
                None
            },
        }
    } else if first == '+' {
        match parse_magnitude(&chars, 1) {
            Some(m) => {
                if m == 0x8000_0000_0000_0000 {
                    None
                } else {
                    Some(m as i64)
                }
            },
            None => None,
        }
    } else {
        proof {
            assert(chars@.subrange(0, chars.len() as int) =~= chars@);
        }
        match parse_magnitude(&chars, 0) {
            Some(m) => {
                if m == 0x8000_0000_0000_0000 {
                    None
                } else {
                    Some(m as i64)
                }
            },
            None => None,
        }
    }
}

/// Reads a signed decimal number of 32 bits.
pub fn parse_i32(s: &str) -> (r: Option<i32>)
    ensures
        r == i32_value(s@),
{
    match parse_i64(s) {
        Some(v) => {
            if -0x8000_0000 <= v && v <= 0x7fff_ffff {
                Some(v as i32)
            } else {
                None
            }
        },
        None => None,
    }
}

/// Reads a timestamp in nanoseconds since the Unix epoch.
pub fn parse_nano(s: &str) -> (r: Result<i64, Failure>)
    ensures
        r == match i64_value(s@) {
            Some(v) => Ok::<i64, Failure>(v),
            None => Err(Failure::InvalidTimestamp),
        },
{
    match parse_i64(s) {
        Some(v) => Ok(v),
        None => Err(Failure::InvalidTimestamp),
    }
}

} // verus!

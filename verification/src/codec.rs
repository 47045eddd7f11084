//! Byte and text encodings used across the app: base64 (standard and
//! URL-safe without padding), lower-case hex and percent-decoding.
//!
//! The base64 and percent-decoding codecs are those of the `base64` and
//! `percent-encoding` crates; the items marked `external_body` below are the
//! only places that call them. Hex is short enough to be written and proved
//! here.

use base64::Engine;
use vstd::prelude::*;

use crate::text::{digit, digit_char, push_char};

verus! {

/// The two renderings of a base64 decoding error: its `Display` text and its
/// `Debug` text.
pub struct DecodeFailure {
    pub display: String,
    pub debug: String,
}

/// What `base64::engine::general_purpose::URL_SAFE_NO_PAD.decode` gives for
/// the UTF-8 bytes of `text`: the decoded bytes, or the `Display` and `Debug`
/// texts of the `DecodeError`.
pub uninterp spec fn url_safe_no_pad_decoded(text: Seq<char>) -> Result<
    Seq<u8>,
    (Seq<char>, Seq<char>),
>;

/// What `base64::engine::general_purpose::STANDARD.decode` gives for the
/// UTF-8 bytes of `text`: the decoded bytes, or the `Display` and `Debug`
/// texts of the `DecodeError`.
pub uninterp spec fn standard_decoded(text: Seq<char>) -> Result<
    Seq<u8>,
    (Seq<char>, Seq<char>),
>;

/// What `base64::engine::general_purpose::URL_SAFE_NO_PAD.encode` gives for
/// `bytes`.
pub uninterp spec fn url_safe_no_pad_encoded(bytes: Seq<u8>) -> Seq<char>;

/// What `base64::engine::general_purpose::STANDARD.encode` gives for
/// `bytes`.
pub uninterp spec fn standard_encoded(bytes: Seq<u8>) -> Seq<char>;

/// What `percent_encoding::percent_decode_str(text).decode_utf8_lossy()`
/// gives: `%XX` sequences decoded to bytes, then read as UTF-8 with invalid
/// sequences replaced.
pub uninterp spec fn percent_decoded_lossy(text: Seq<char>) -> Seq<char>;

/// The plain-value form of a decode result: the failure's two texts on error.
pub open spec fn decode_view(r: Result<Vec<u8>, DecodeFailure>) -> Result<
    Seq<u8>,
    (Seq<char>, Seq<char>),
> {
    match r {
        Ok(v) => Ok(v@),
        Err(f) => Err((f.display@, f.debug@)),
    }
}

/// Calls `URL_SAFE_NO_PAD.decode` of the `base64` crate. The contract claims
/// that the result is the crate's answer for this text, and that text the
/// same engine encoded decodes back to the bytes it encoded (the crate's
/// round trip: the encoder writes no padding and the decoder asks for none).
#[verifier::external_body]
pub(crate) fn decode_url_safe_no_pad(text: &str) -> (r: Result<Vec<u8>, DecodeFailure>)
    ensures
        decode_view(r) == url_safe_no_pad_decoded(text@),
        r matches Ok(v) ==> forall|b: Seq<u8>| #[trigger] url_safe_no_pad_encoded(b) == text@ ==> v@ == b,
        r is Err ==> forall|b: Seq<u8>| #[trigger] url_safe_no_pad_encoded(b) != text@,
{
    base64::engine::general_purpose::URL_SAFE_NO_PAD.decode(text).map_err(
        |e| DecodeFailure { display: e.to_string(), debug: format!("{:?}", e) },
    )
}

/// Calls `STANDARD.decode` of the `base64` crate. The contract claims that
/// the result is the crate's answer for this text; that what it decodes is
/// no longer than the text (every four symbols, which are ASCII, carry at
/// most three bytes); and that text the same engine encoded decodes back to
/// the bytes it encoded (the crate's round trip: the encoder writes
/// canonical padding and no stray trailing bits, which is what the decoder
/// asks for).
#[verifier::external_body]
pub(crate) fn decode_standard(text: &str) -> (r: Result<Vec<u8>, DecodeFailure>)
    ensures
        decode_view(r) == standard_decoded(text@),
        r matches Ok(v) ==> v@.len() <= text@.len(),
        r matches Ok(v) ==> forall|b: Seq<u8>| #[trigger] standard_encoded(b) == text@ ==> v@ == b,
        r is Err ==> forall|b: Seq<u8>| #[trigger] standard_encoded(b) != text@,
{
    base64::engine::general_purpose::STANDARD.decode(text).map_err(
        |e| DecodeFailure { display: e.to_string(), debug: format!("{:?}", e) },
    )
}

/// Calls `URL_SAFE_NO_PAD.encode` of the `base64` crate. The contract
/// claims that the result is the crate's encoding of `bytes`, and that no
/// other bytes encode to the same text (the same engine decodes it back to
/// `bytes`). The crate panics only when the encoded length overflows
/// `usize`, which the bound on `bytes` rules out.
#[verifier::external_body]
pub(crate) fn encode_url_safe_no_pad(bytes: &[u8]) -> (r: String)
    requires
        bytes@.len() < usize::MAX / 2,
    ensures
        r@ == url_safe_no_pad_encoded(bytes@),
        forall|b: Seq<u8>| #[trigger] url_safe_no_pad_encoded(b) == r@ ==> b == bytes@,
{
    base64::engine::general_purpose::URL_SAFE_NO_PAD.encode(bytes)
}

/// The length of padded base64 text for `n` input bytes.
pub open spec fn padded_base64_len(n: nat) -> nat {
    if n % 3 == 0 {
        (n / 3) * 4
    } else {
        (n / 3) * 4 + 4
    }
}

/// Calls `STANDARD.encode` of the `base64` crate. The contract claims that
/// the result is the crate's encoding of `bytes`, that it has the padded
/// length the crate's `encoded_len` computes, and that no other bytes encode
/// to the same text (the same engine decodes it back to `bytes`); the crate
/// panics only when that length overflows `usize`, which the bound on
/// `bytes` rules out.
#[verifier::external_body]
pub(crate) fn encode_standard(bytes: &[u8]) -> (r: String)
    requires
        bytes@.len() < usize::MAX / 2,
    ensures
        r@ == standard_encoded(bytes@),
        r@.len() == padded_base64_len(bytes@.len()),
        forall|b: Seq<u8>| #[trigger] standard_encoded(b) == r@ ==> b == bytes@,
{
    base64::engine::general_purpose::STANDARD.encode(bytes)
}

/// The lower-case hex digit for `n`, which is below sixteen.
pub open spec fn hex_digit(n: nat) -> char {
    if n < 10 {
        digit_char(n)
    } else if n == 10 {
        'a'
    } else if n == 11 {
        'b'
    } else if n == 12 {
        'c'
    } else if n == 13 {
        'd'
    } else if n == 14 {
        'e'
    } else {
        'f'
    }
}

/// Two lower-case hex digits per byte, high nibble first.
pub open spec fn hex_lower(bytes: Seq<u8>) -> Seq<char>
    decreases bytes.len(),
{
    if bytes.len() == 0 {
        seq![]
    } else {
        seq![hex_digit((bytes[0] / 16) as nat), hex_digit((bytes[0] % 16) as nat)] + hex_lower(
            bytes.drop_first(),
        )
    }
}

/// The lower-case hex digit for a nibble.
fn hex_char(n: u8) -> (c: char)
    requires
        n < 16,
    ensures
        c == hex_digit(n as nat),
{
    if n < 10 {
        digit(n as usize)
    } else if n == 10 {
        'a'
    } else if n == 11 {
        'b'
    } else if n == 12 {
        'c'
    } else if n == 13 {
        'd'
    } else if n == 14 {
        'e'
    } else {
        'f'
    }
}

/// Hex of bytes followed by one more byte is the old hex followed by the
/// byte's two digits.
proof fn lemma_hex_lower_push(bytes: Seq<u8>, b: u8)
    ensures
        hex_lower(bytes.push(b)) == hex_lower(bytes) + seq![
            hex_digit((b / 16) as nat),
            hex_digit((b % 16) as nat),
        ],
    decreases bytes.len(),
{
    if bytes.len() == 0 {
        assert(bytes.push(b).drop_first() =~= Seq::<u8>::empty());
        assert(hex_lower(Seq::<u8>::empty()) =~= Seq::<char>::empty());
    } else {
        lemma_hex_lower_push(bytes.drop_first(), b);
        assert(bytes.push(b).drop_first() =~= bytes.drop_first().push(b));
    }
}

/// Writes each byte as two lower-case hex digits, high nibble first, as
/// `hex::encode` does.
pub fn hex_encode(bytes: &[u8]) -> (r: String)
    ensures
        r@ == hex_lower(bytes@),
{
    let mut r = String::new();
    let mut i: usize = 0;
    assert(bytes@.subrange(0, 0) =~= Seq::<u8>::empty());
    while i < bytes.len()
        invariant
            i <= bytes@.len(),
            r@ == hex_lower(bytes@.subrange(0, i as int)),
        decreases bytes@.len() - i,
    {
        let b = bytes[i];
        proof {
            lemma_hex_lower_push(bytes@.subrange(0, i as int), b);
            assert(bytes@.subrange(0, i as int).push(b) =~= bytes@.subrange(0, i + 1));
        }
        push_char(&mut r, hex_char(b / 16));
        push_char(&mut r, hex_char(b % 16));
        i += 1;
    }
    assert(bytes@.subrange(0, bytes@.len() as int) =~= bytes@);
    r
}

/// Calls `percent_decode_str(text).decode_utf8_lossy()` of the
/// `percent-encoding` crate. The contract claims that the result is the
/// crate's answer for this text, and that text without a `%` comes back
/// unchanged (the decoder copies every byte that is not `%`, and valid UTF-8
/// reads back as itself).
#[verifier::external_body]
pub(crate) fn percent_decode_lossy(text: &str) -> (r: String)
    ensures
        r@ == percent_decoded_lossy(text@),
        !text@.contains('%') ==> r@ == text@,
{
    percent_encoding::percent_decode_str(text).decode_utf8_lossy().into_owned()
}

} // verus!

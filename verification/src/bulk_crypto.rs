//! Host-side bulk encryption of attachments with ChaCha20-Poly1305.
//!
//! A screenshot is far too large for the keystore's per-call frame limit, so
//! the image is sealed once here under a fresh single-use key and nonce, and
//! only the 32-byte content key is wrapped to each recipient. Every call of
//! [`bulk_encrypt`] draws a new key, so no (key, nonce) pair is ever used
//! twice.
//!
//! The cipher is `ring`'s; the items marked `external_body` are the only
//! places that call it, and its results are named by
//! [`chacha20_poly1305_sealed`] and [`chacha20_poly1305_opened`].

use ring::aead;
use ring::rand::SecureRandom;
use vstd::prelude::*;

use crate::text::owned;

verus! {

#[verifier::external_type_specification]
#[verifier::external_body]
pub struct ExSystemRandom(ring::rand::SystemRandom);

#[verifier::external_type_specification]
#[verifier::external_body]
pub struct ExUnspecified(ring::error::Unspecified);

/// The longest input ChaCha20-Poly1305 accepts in one call (RFC 8439, 2.8);
/// on a 32-bit target every slice is shorter.
pub open spec fn chacha20_poly1305_max_input() -> int {
    274_877_906_880
}

/// What sealing `plaintext` under `key` and `nonce` with ChaCha20-Poly1305
/// and empty associated data gives: the ciphertext followed by the 16-byte
/// Poly1305 tag.
pub uninterp spec fn chacha20_poly1305_sealed(key: Seq<u8>, nonce: Seq<u8>, plaintext: Seq<u8>) -> Seq<u8>;

/// What opening `sealed` (ciphertext followed by tag) under `key` and
/// `nonce` gives: the plaintext when the tag authenticates, none otherwise.
pub uninterp spec fn chacha20_poly1305_opened(key: Seq<u8>, nonce: Seq<u8>, sealed: Seq<u8>) -> Option<Seq<u8>>;

/// `m` is a plaintext the cipher accepts, and sealing it under `key` and
/// `nonce` gives `sealed`.
pub open spec fn seals_to(key: Seq<u8>, nonce: Seq<u8>, m: Seq<u8>, sealed: Seq<u8>) -> bool {
    m.len() <= chacha20_poly1305_max_input() && chacha20_poly1305_sealed(key, nonce, m) == sealed
}

/// `SystemRandom::new` of `ring`: a handle on the operating system's random
/// source. Nothing is claimed of it.
pub assume_specification[ ring::rand::SystemRandom::new ]() -> (r: ring::rand::SystemRandom);

/// Calls `SecureRandom::fill` on `SystemRandom`, which fills `dest` from the
/// operating system's random source or fails. Nothing is claimed of the bytes
/// or of whether it succeeds.
#[verifier::external_body]
fn fill_random<const N: usize>(rng: &ring::rand::SystemRandom, dest: &mut [u8; N]) -> (r: Result<
    (),
    ring::error::Unspecified,
>) {
    rng.fill(dest)
}

/// Calls `LessSafeKey::seal_in_place_append_tag` of `ring` with
/// `CHACHA20_POLY1305`, empty associated data, and the key and nonce built
/// from the given bytes (`UnboundKey::new` fails only for a key of another
/// length than 32, which the type rules out). The contract claims that it
/// fails exactly when the plaintext is longer than the cipher allows, and
/// otherwise gives the named sealing, 16 bytes longer than the plaintext. The
/// bound on the length keeps the growing buffer within what a `Vec` can hold.
#[verifier::external_body]
fn chacha20_poly1305_seal(key: &[u8; 32], nonce: &[u8; 12], plaintext: &[u8]) -> (r: Result<
    Vec<u8>,
    ring::error::Unspecified,
>)
    requires
        plaintext@.len() + 16 <= isize::MAX,
    ensures
        r is Ok <==> plaintext@.len() <= chacha20_poly1305_max_input(),
        r matches Ok(c) ==> c@ == chacha20_poly1305_sealed(key@, nonce@, plaintext@) && c@.len()
            == plaintext@.len() + 16,
{
    let key = aead::LessSafeKey::new(aead::UnboundKey::new(&aead::CHACHA20_POLY1305, key)?);
    let mut in_out = plaintext.to_vec();
    key.seal_in_place_append_tag(
        aead::Nonce::assume_unique_for_key(*nonce),
        aead::Aad::empty(),
        &mut in_out,
    )?;
    Ok(in_out)
}

/// Calls `LessSafeKey::open_in_place` of `ring` with `CHACHA20_POLY1305`,
/// empty associated data, and the key and nonce built from the given bytes,
/// and copies out the plaintext. The contract claims that the result is the
/// named opening; that input shorter than a tag never opens; that a plaintext
/// is 16 bytes shorter than what it came from; and that what was sealed under
/// this key and nonce opens to the plaintext it was sealed from.
#[verifier::external_body]
fn chacha20_poly1305_open(key: &[u8; 32], nonce: &[u8; 12], sealed: &[u8]) -> (r: Result<
    Vec<u8>,
    ring::error::Unspecified,
>)
    ensures
        r matches Ok(p) ==> chacha20_poly1305_opened(key@, nonce@, sealed@) == Some(p@),
        r is Err ==> chacha20_poly1305_opened(key@, nonce@, sealed@) is None,
        sealed@.len() < 16 ==> r is Err,
        r matches Ok(p) ==> p@.len() + 16 == sealed@.len(),
        r matches Ok(p) ==> forall|m: Seq<u8>| #[trigger] seals_to(key@, nonce@, m, sealed@) ==> p@ == m,
        r is Err ==> forall|m: Seq<u8>| !#[trigger] seals_to(key@, nonce@, m, sealed@),
{
    let key = aead::LessSafeKey::new(aead::UnboundKey::new(&aead::CHACHA20_POLY1305, key)?);
    let mut in_out = sealed.to_vec();
    let plaintext = key.open_in_place(
        aead::Nonce::assume_unique_for_key(*nonce),
        aead::Aad::empty(),
        &mut in_out,
    )?;
    Ok(plaintext.to_vec())
}

/// Seals `plaintext` under a given content key and nonce: the step of
/// [`bulk_encrypt`] that follows drawing them.
pub fn seal_with_key(key: &[u8; 32], nonce: &[u8; 12], plaintext: &[u8]) -> (r: Result<
    Vec<u8>,
    String,
>)
    requires
        plaintext@.len() + 16 <= isize::MAX,
    ensures
        plaintext@.len() <= chacha20_poly1305_max_input() ==> (r matches Ok(c) && c@
            == chacha20_poly1305_sealed(key@, nonce@, plaintext@) && c@.len() == plaintext@.len()
            + 16),
        plaintext@.len() > chacha20_poly1305_max_input() ==> (r matches Err(e) && e@
            == "bulk_encrypt: sealing failed"@),
{
    match chacha20_poly1305_seal(key, nonce, plaintext) {
        Ok(c) => Ok(c),
        Err(_) => Err(owned("bulk_encrypt: sealing failed")),
    }
}

/// Bulk-encrypts `plaintext` (an image, say) under a fresh random 32-byte
/// content key and 12-byte nonce. Returns the key, the nonce and the
/// ciphertext with its 16-byte tag appended; the key is then wrapped to each
/// recipient, the nonce and ciphertext stored once.
pub fn bulk_encrypt(plaintext: &[u8]) -> (r: Result<([u8; 32], [u8; 12], Vec<u8>), String>)
    requires
        plaintext@.len() + 16 <= isize::MAX,
    ensures
        match r {
            Ok((key, nonce, c)) => {
                &&& plaintext@.len() <= chacha20_poly1305_max_input()
                &&& c@ == chacha20_poly1305_sealed(key@, nonce@, plaintext@)
                &&& c@.len() == plaintext@.len() + 16
            },
            Err(e) => {
                ||| e@ == "bulk_encrypt: failed to generate content key"@
                ||| e@ == "bulk_encrypt: failed to generate nonce"@
                ||| (e@ == "bulk_encrypt: sealing failed"@ && plaintext@.len()
                    > chacha20_poly1305_max_input())
            },
        },
        plaintext@.len() > chacha20_poly1305_max_input() ==> r is Err,
{
    let rng = ring::rand::SystemRandom::new();
    let mut key = [0u8; 32];
    if fill_random(&rng, &mut key).is_err() {
        return Err(owned("bulk_encrypt: failed to generate content key"));
    }
    let mut nonce = [0u8; 12];
    if fill_random(&rng, &mut nonce).is_err() {
        return Err(owned("bulk_encrypt: failed to generate nonce"));
    }
    match seal_with_key(&key, &nonce, plaintext) {
        Ok(c) => Ok((key, nonce, c)),
        Err(e) => Err(e),
    }
}

/// Bulk-decrypts what [`bulk_encrypt`] produced, given the content key (as
/// recovered from the recipient's wrapped copy) and the stored nonce. A wrong
/// key, a wrong nonce or any tampering fails rather than returning junk; what
/// was sealed under this key and nonce comes back as it was.
pub fn bulk_decrypt(key_bytes: &[u8; 32], nonce_bytes: &[u8; 12], ciphertext_and_tag: &[u8]) -> (r:
    Result<Vec<u8>, String>)
    ensures
        match r {
            Ok(p) => chacha20_poly1305_opened(key_bytes@, nonce_bytes@, ciphertext_and_tag@) == Some(
                p@,
            ),
            Err(e) => chacha20_poly1305_opened(
                key_bytes@,
                nonce_bytes@,
                ciphertext_and_tag@,
            ) is None && e@
                == "bulk_decrypt: opening failed (wrong key/nonce or tampered ciphertext)"@,
        },
        ciphertext_and_tag@.len() < 16 ==> r is Err,
        r matches Ok(p) ==> p@.len() + 16 == ciphertext_and_tag@.len(),
        forall|m: Seq<u8>| #[trigger] seals_to(key_bytes@, nonce_bytes@, m, ciphertext_and_tag@) ==> (r matches Ok(p) && p@ == m),
{
    match chacha20_poly1305_open(key_bytes, nonce_bytes, ciphertext_and_tag) {
        Ok(p) => Ok(p),
        Err(_) => Err(owned("bulk_decrypt: opening failed (wrong key/nonce or tampered ciphertext)")),
    }
}

} // verus!

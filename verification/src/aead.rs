//! ChaCha20-Poly1305 as used by FMP established frames: the Noise nonce
//! layout and the two calls into the `chacha20poly1305` crate.
use vstd::prelude::*;
use vstd::bytes::{spec_u64_to_le_bytes, u64_to_le_bytes, lemma_auto_spec_u64_to_from_le_bytes};
use chacha20poly1305::{AeadInPlace, ChaCha20Poly1305, Key, KeyInit, Nonce, Tag};

verus! {

/// What `ChaCha20Poly1305::encrypt_in_place_detached` yields for a key, a
/// 12-byte nonce, associated data and a plaintext: the ciphertext and the tag.
pub uninterp spec fn chacha20poly1305_seal(key: Seq<u8>, nonce: Seq<u8>, aad: Seq<u8>, plaintext: Seq<u8>) -> (Seq<u8>, Seq<u8>);

/// What `ChaCha20Poly1305::decrypt_in_place_detached` yields for a key, a
/// nonce, associated data, a ciphertext and a tag: the plaintext, or `None`
/// when the tag does not authenticate.
pub uninterp spec fn chacha20poly1305_open(key: Seq<u8>, nonce: Seq<u8>, aad: Seq<u8>, ciphertext: Seq<u8>, tag: Seq<u8>) -> Option<Seq<u8>>;

/// The Noise ChaChaPoly nonce: four zero bytes, then the counter little-endian.
pub open spec fn spec_noise_nonce(counter: u64) -> Seq<u8> {
    seq![0u8, 0u8, 0u8, 0u8] + spec_u64_to_le_bytes(counter)
}

/// Builds the 12-byte Noise nonce for `counter`.
pub fn noise_nonce(counter: u64) -> (r: [u8; 12])
    ensures
        r@ == spec_noise_nonce(counter),
{
    proof {
        lemma_auto_spec_u64_to_from_le_bytes();
    }
    let b = u64_to_le_bytes(counter);
    assert(b@.len() == 8);
    let r = [0u8, 0u8, 0u8, 0u8, b[0], b[1], b[2], b[3], b[4], b[5], b[6], b[7]];
    assert(r@ =~= spec_noise_nonce(counter));
    r
}

/// Calls `ChaCha20Poly1305::encrypt_in_place_detached` on a copy of
/// `plaintext`. Claimed of it: the result is the named seal result, the
/// ciphertext is as long as the plaintext, and opening it with the same key,
/// nonce and associated data gives the plaintext back (AEAD correctness).
/// The crate fails only for messages of 2^38 bytes or more, which
/// `requires` leaves out.
#[verifier::external_body]
pub(crate) fn aead_seal(key: &[u8; 32], nonce: &[u8; 12], aad: &[u8], plaintext: &[u8]) -> (r: (Vec<u8>, [u8; 16]))
    requires
        plaintext@.len() <= 65535,
    ensures
        (r.0@, r.1@) == chacha20poly1305_seal(key@, nonce@, aad@, plaintext@),
        r.0@.len() == plaintext@.len(),
        chacha20poly1305_open(key@, nonce@, aad@, r.0@, r.1@) == Some(plaintext@),
{
    let cipher = ChaCha20Poly1305::new(Key::from_slice(key));
    let mut buf = plaintext.to_vec();
    let tag = cipher.encrypt_in_place_detached(Nonce::from_slice(nonce), aad, &mut buf).unwrap();
    (buf, tag.into())
}

/// Calls `ChaCha20Poly1305::decrypt_in_place_detached` on a copy of
/// `ciphertext`. Claimed of it: the result is the named open result, and a
/// plaintext is as long as the ciphertext.
#[verifier::external_body]
pub(crate) fn aead_open(key: &[u8; 32], nonce: &[u8; 12], aad: &[u8], ciphertext: &[u8], tag: &[u8; 16]) -> (r: Option<Vec<u8>>)
    ensures
        match r {
            Some(p) => chacha20poly1305_open(key@, nonce@, aad@, ciphertext@, tag@) == Some(p@),
            None => chacha20poly1305_open(key@, nonce@, aad@, ciphertext@, tag@) is None,
        },
        r matches Some(p) ==> p@.len() == ciphertext@.len(),
{
    let cipher = ChaCha20Poly1305::new(Key::from_slice(key));
    let mut buf = ciphertext.to_vec();
    match cipher.decrypt_in_place_detached(Nonce::from_slice(nonce), aad, &mut buf, Tag::from_slice(tag)) {
        Ok(()) => Some(buf),
        Err(_) => None,
    }
}

} // verus!

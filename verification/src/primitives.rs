//! Cryptographic primitives from outside crates: X25519 (x25519-dalek),
//! ChaCha20Poly1305 (chacha20poly1305), SHA-256 (sha2) and hex (hex).
//!
//! Each function here makes one outside call; its contract is what the
//! library believes of that call. Values that take pages to state are named
//! by the uninterpreted spec functions below.

use chacha20poly1305::aead::{AeadInPlace, KeyInit};
use sha2::Digest;
use vstd::prelude::*;

verus! {

/// The X25519 public key (RFC 7748) of a 32-byte secret, as computed by
/// `PublicKey::from(&StaticSecret)` in x25519-dalek.
pub uninterp spec fn x25519_public_key(secret: Seq<u8>) -> Seq<u8>;

/// The X25519 shared secret of a 32-byte secret and a 32-byte peer public
/// key, as computed by `StaticSecret::diffie_hellman` in x25519-dalek.
pub uninterp spec fn x25519_shared_secret(secret: Seq<u8>, public: Seq<u8>) -> Seq<u8>;

/// The (tag, ciphertext) pair that ChaCha20Poly1305 `encrypt_in_place_detached`
/// produces for a key, a 12-byte nonce, empty associated data and a plaintext.
pub uninterp spec fn chacha20poly1305_seal(key: Seq<u8>, nonce: Seq<u8>, plaintext: Seq<u8>) -> (
    Seq<u8>,
    Seq<u8>,
);

/// What ChaCha20Poly1305 `decrypt_in_place_detached` yields for a key, a
/// 12-byte nonce, empty associated data, a ciphertext and a 16-byte tag:
/// the plaintext, or `None` when authentication fails.
pub uninterp spec fn chacha20poly1305_open(
    key: Seq<u8>,
    nonce: Seq<u8>,
    ciphertext: Seq<u8>,
    tag: Seq<u8>,
) -> Option<Seq<u8>>;

/// The bytes held by an optional buffer.
pub open spec fn bytes_option_view(o: Option<Vec<u8>>) -> Option<Seq<u8>> {
    match o {
        Some(v) => Some(v@),
        None => None,
    }
}

/// The SHA-256 digest of a byte string, as computed by sha2's `Sha256`.
pub uninterp spec fn sha256(data: Seq<u8>) -> Seq<u8>;

/// The lower-case hex digit for a value below 16.
pub open spec fn hex_digit(n: int) -> char {
    if n < 10 {
        (48 + n) as char
    } else {
        (87 + n) as char
    }
}

/// Lower-case hex encoding: two digits per byte, high nibble first.
pub open spec fn hex_lower(data: Seq<u8>) -> Seq<char>
    decreases data.len(),
{
    if data.len() == 0 {
        Seq::empty()
    } else {
        seq![hex_digit(data[0] as int / 16), hex_digit(data[0] as int % 16)] + hex_lower(data.drop_first())
    }
}

/// Whether a character is a lower-case hex digit: '0'..='9' or 'a'..='f'.
pub open spec fn is_lower_hex_digit(c: char) -> bool {
    ('0' <= c <= '9') || ('a' <= c <= 'f')
}

/// The hex encoding is twice as long as its input, pure ASCII, and made of
/// lower-case hex digits only.
pub proof fn lemma_hex_lower_len_ascii(data: Seq<u8>)
    ensures
        hex_lower(data).len() == 2 * data.len(),
        vstd::utf8::is_ascii_chars(hex_lower(data)),
        forall|i: int| 0 <= i < hex_lower(data).len() ==> is_lower_hex_digit(#[trigger] hex_lower(data)[i]),
    decreases data.len(),
{
    if data.len() > 0 {
        lemma_hex_lower_len_ascii(data.drop_first());
        let head = seq![hex_digit(data[0] as int / 16), hex_digit(data[0] as int % 16)];
        let tail = hex_lower(data.drop_first());
        assert(hex_lower(data) == head + tail);
        assert forall|i: int| 0 <= i < hex_lower(data).len() implies '\0' <= #[trigger] hex_lower(
            data,
        )[i] <= '\u{7f}' && is_lower_hex_digit(hex_lower(data)[i]) by {
            if i >= 2 {
                assert(hex_lower(data)[i] == tail[i - 2]);
            } else {
                assert(hex_lower(data)[i] == head[i]);
            }
        }
    }
}

/// A fresh X25519 secret: `StaticSecret::random_from_rng(rand::thread_rng())`,
/// returned as its 32 bytes. Nothing is stated of the bytes: they are random.
#[verifier::external_body]
pub(crate) fn x25519_random_secret() -> (secret: [u8; 32]) {
    x25519_dalek::StaticSecret::random_from_rng(rand::thread_rng()).to_bytes()
}

/// `PublicKey::from(&StaticSecret::from(secret))`: the X25519 public key of
/// `secret`, named by `x25519_public_key`.
#[verifier::external_body]
pub(crate) fn x25519_public(secret: &[u8; 32]) -> (public: [u8; 32])
    ensures
        public@ == x25519_public_key(secret@),
{
    x25519_dalek::PublicKey::from(&x25519_dalek::StaticSecret::from(*secret)).to_bytes()
}

/// `StaticSecret::from(secret).diffie_hellman(&PublicKey::from(peer))`: the
/// shared secret, named by `x25519_shared_secret`. As x25519-dalek documents
/// for key agreement, when `peer` is the public key of another secret, that
/// secret with this secret's public key gives the same shared secret.
#[verifier::external_body]
pub(crate) fn x25519_diffie_hellman(secret: &[u8; 32], peer: &[u8; 32]) -> (shared: [u8; 32])
    ensures
        shared@ == x25519_shared_secret(secret@, peer@),
        forall|other: Seq<u8>|
            other.len() == 32 && peer@ == #[trigger] x25519_public_key(other) ==> shared@
                == x25519_shared_secret(other, x25519_public_key(secret@)),
{
    x25519_dalek::StaticSecret::from(*secret).diffie_hellman(
        &x25519_dalek::PublicKey::from(*peer),
    ).to_bytes()
}

/// ChaCha20Poly1305 `encrypt_in_place_detached` with empty associated data,
/// on a copy of `plaintext`. The crate refuses (`Err`) exactly when the
/// plaintext has `u32::MAX` or more 64-byte blocks; otherwise it yields a
/// 16-byte tag and a ciphertext as long as the plaintext, named by
/// `chacha20poly1305_seal`.
#[verifier::external_body]
pub(crate) fn chacha20poly1305_encrypt(key: &[u8; 32], nonce: &[u8], plaintext: &[u8]) -> (sealed:
    Option<(Vec<u8>, Vec<u8>)>)
    requires
        nonce@.len() == 12,
    ensures
        sealed is Some <==> plaintext@.len() / 64 < u32::MAX,
        sealed matches Some(out) ==> {
            &&& (out.0@, out.1@) == chacha20poly1305_seal(key@, nonce@, plaintext@)
            &&& out.0@.len() == 16
            &&& out.1@.len() == plaintext@.len()
        },
{
    let cipher = chacha20poly1305::ChaCha20Poly1305::new(chacha20poly1305::Key::from_slice(key));
    let mut buffer = plaintext.to_vec();
    match cipher.encrypt_in_place_detached(
        chacha20poly1305::Nonce::from_slice(nonce),
        &[],
        &mut buffer,
    ) {
        Ok(tag) => Some((tag.to_vec(), buffer)),
        Err(_) => None,
    }
}

/// ChaCha20Poly1305 `decrypt_in_place_detached` with empty associated data,
/// on a copy of `ciphertext`; the result is named by `chacha20poly1305_open`.
/// Decryption is in place, so an opened plaintext is as long as the
/// ciphertext. As for any AEAD, a tag and ciphertext that sealing produced for a
/// plaintext (under the same key and nonce) open to that plaintext.
#[verifier::external_body]
pub(crate) fn chacha20poly1305_decrypt(
    key: &[u8; 32],
    nonce: &[u8],
    ciphertext: &[u8],
    tag: &[u8],
) -> (opened: Option<Vec<u8>>)
    requires
        nonce@.len() == 12,
        tag@.len() == 16,
    ensures
        bytes_option_view(opened) == chacha20poly1305_open(key@, nonce@, ciphertext@, tag@),
        opened is Some ==> opened->0@.len() == ciphertext@.len(),
        forall|p: Seq<u8>|
            p.len() / 64 < u32::MAX && #[trigger] chacha20poly1305_seal(key@, nonce@, p) == (
                tag@,
                ciphertext@,
            ) ==> bytes_option_view(opened) == Some(p),
{
    let cipher = chacha20poly1305::ChaCha20Poly1305::new(chacha20poly1305::Key::from_slice(key));
    let mut buffer = ciphertext.to_vec();
    match cipher.decrypt_in_place_detached(
        chacha20poly1305::Nonce::from_slice(nonce),
        &[],
        &mut buffer,
        chacha20poly1305::Tag::from_slice(tag),
    ) {
        Ok(()) => Some(buffer),
        Err(_) => None,
    }
}

/// `Sha256::digest(data)`: the 32-byte SHA-256 digest, named by `sha256`.
#[verifier::external_body]
pub(crate) fn sha256_digest(data: &[u8]) -> (digest: Vec<u8>)
    ensures
        digest@ == sha256(data@),
        digest@.len() == 32,
{
    sha2::Sha256::digest(data).to_vec()
}

/// `hex::encode(data)`: lower-case hex, two digits per byte.
#[verifier::external_body]
pub(crate) fn hex_encode(data: &[u8]) -> (encoded: String)
    ensures
        encoded@ == hex_lower(data@),
{
    hex::encode(data)
}

} // verus!

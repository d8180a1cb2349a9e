//! Session encryption, identities and the reserved-name registry.
//!
//! A session holds an X25519 key pair, the shared secret of the last key
//! exchange and a message counter. Each message is sealed with
//! ChaCha20Poly1305 under the shared secret and a nonce made of the counter,
//! which both sides advance once per message.
//!
//! The two sides share one counter sequence: a message is opened with the
//! counter value it was sealed with, and a (key, nonce) pair must never seal
//! two messages. So the peers alternate, each sending or receiving one
//! message per counter step; two sessions that both seal at the same
//! counter would reuse a nonce.

use crate::primitives::{
    bytes_option_view, chacha20poly1305_decrypt, chacha20poly1305_encrypt, chacha20poly1305_open,
    chacha20poly1305_seal, hex_encode, hex_lower, is_lower_hex_digit, lemma_hex_lower_len_ascii, sha256,
    sha256_digest,
    x25519_diffie_hellman, x25519_public, x25519_public_key,
    x25519_random_secret, x25519_shared_secret,
};
use crate::text::string_views;
use vstd::prelude::*;
use vstd::string::*;

verus! {

/// The 12-byte nonce of message number `counter`: the counter's eight bytes
/// in little-endian order, then four zero bytes.
pub open spec fn session_nonce(counter: u64) -> Seq<u8> {
    Seq::new(
        12,
        |i: int|
            if i < 8 {
                ((counter >> ((8 * i) as u64)) & 0xffu64) as u8
            } else {
                0u8
            },
    )
}

/// The wire form of a sealed message: the 16-byte tag, then the ciphertext.
pub open spec fn session_seal(key: Seq<u8>, counter: u64, plaintext: Seq<u8>) -> Seq<u8> {
    let sealed = chacha20poly1305_seal(key, session_nonce(counter), plaintext);
    sealed.0 + sealed.1
}

/// Whether the tag of that seal is 16 bytes long (as every tag the cipher
/// produces is).
pub open spec fn session_tag_is_full(key: Seq<u8>, counter: u64, plaintext: Seq<u8>) -> bool {
    chacha20poly1305_seal(key, session_nonce(counter), plaintext).0.len() == 16
}

/// Whether a plaintext is short enough for the cipher (fewer than
/// `u32::MAX` blocks of 64 bytes).
pub open spec fn sealable(plaintext: Seq<u8>) -> bool {
    plaintext.len() / 64 < u32::MAX
}

/// What a key exchange of `secret` with the peer key `peer` yields: the
/// X25519 shared secret of the two; and, when `peer` is the public key of a
/// 32-byte secret `other`, the same value that `other` gets from the public
/// key of `secret`.
pub open spec fn exchange_result(secret: Seq<u8>, peer: Seq<u8>, shared: Seq<u8>) -> bool {
    &&& shared == x25519_shared_secret(secret, peer)
    &&& forall|other: Seq<u8>|
        other.len() == 32 && peer == #[trigger] x25519_public_key(other) ==> shared
            == x25519_shared_secret(other, x25519_public_key(secret))
}

/// Key agreement: two sessions with 32-byte secrets that each exchanged with
/// the other's public key hold the same shared key, the X25519 shared secret
/// of the first secret and the second public key.
pub proof fn lemma_key_agreement(
    a_secret: Seq<u8>,
    b_secret: Seq<u8>,
    a_shared: Seq<u8>,
    b_shared: Seq<u8>,
)
    requires
        a_secret.len() == 32,
        b_secret.len() == 32,
        exchange_result(a_secret, x25519_public_key(b_secret), a_shared),
        exchange_result(b_secret, x25519_public_key(a_secret), b_shared),
    ensures
        a_shared == b_shared,
        a_shared == x25519_shared_secret(a_secret, x25519_public_key(b_secret)),
{
    assert(a_shared == x25519_shared_secret(b_secret, x25519_public_key(a_secret)));
}

/// Hybrid encryption session: an X25519 key pair, the shared secret of the
/// last exchange (all zero before any), and the per-message counter.
pub struct CryptoSession {
    secret: [u8; 32],
    public: [u8; 32],
    shared: [u8; 32],
    nonce_counter: u64,
}

impl CryptoSession {
    #[verifier::type_invariant]
    spec fn public_matches_secret(self) -> bool {
        self.public@ == x25519_public_key(self.secret@)
    }

    /// The session's X25519 secret key.
    pub closed spec fn secret_key(self) -> Seq<u8> {
        self.secret@
    }

    /// The shared secret of the last key exchange.
    pub closed spec fn shared_key(self) -> Seq<u8> {
        self.shared@
    }

    /// The number of the last message sealed or opened since the exchange.
    pub closed spec fn counter(self) -> u64 {
        self.nonce_counter
    }

    /// Creates a session with a fresh random X25519 key pair, an all-zero
    /// shared secret and the counter at zero.
    pub fn new() -> (session: Self)
        ensures
            session.secret_key().len() == 32,
            session.shared_key() == Seq::new(32, |i: int| 0u8),
            session.counter() == 0,
    {
        let secret = x25519_random_secret();
        let public = x25519_public(&secret);
        let shared = [0u8; 32];
        assert(shared@ == Seq::new(32, |i: int| 0u8));
        CryptoSession { secret, public, shared, nonce_counter: 0 }
    }

    /// Key exchange with the peer's public key: the shared secret becomes the
    /// X25519 shared secret and the counter restarts at zero. When the peer's
    /// key belongs to a secret `other`, the result equals what `other` gets
    /// from this session's public key, so both sides agree on the key.
    pub fn exchange(&mut self, peer_public: &[u8; 32])
        ensures
            final(self).secret_key() == old(self).secret_key(),
            final(self).secret_key().len() == 32,
            exchange_result(old(self).secret_key(), peer_public@, final(self).shared_key()),
            final(self).counter() == 0,
    {
        proof {
            use_type_invariant(&*self);
        }
        let shared = x25519_diffie_hellman(&self.secret, peer_public);
        self.shared = shared;
        self.nonce_counter = 0;
    }

    /// Seals a plaintext for the peer: the counter advances by one and the
    /// result is the 16-byte tag followed by the ciphertext, under the shared
    /// secret and the nonce of the new counter.
    pub fn encrypt(&mut self, plaintext: &[u8]) -> (ciphertext: Vec<u8>)
        requires
            old(self).counter() < u64::MAX,
            sealable(plaintext@),
        ensures
            final(self).secret_key() == old(self).secret_key(),
            final(self).secret_key().len() == 32,
            final(self).shared_key() == old(self).shared_key(),
            final(self).counter() == old(self).counter() + 1,
            ciphertext@ == session_seal(old(self).shared_key(), final(self).counter(), plaintext@),
            session_tag_is_full(old(self).shared_key(), final(self).counter(), plaintext@),
            ciphertext@.len() == 16 + plaintext@.len(),
    {
        proof {
            use_type_invariant(&*self);
        }
        self.nonce_counter = self.nonce_counter + 1;
        let nonce = nonce_bytes(self.nonce_counter);
        let sealed = chacha20poly1305_encrypt(&self.shared, nonce.as_slice(), plaintext);
        match sealed {
            Some((tag, body)) => {
                let mut result = tag;
                let mut body = body;
                result.append(&mut body);
                result
            },
            None => {
                proof {
                    assert(false);
                }
                Vec::new()
            },
        }
    }

    /// Opens a message from the peer. Input shorter than a tag is refused
    /// with the counter unchanged; otherwise the counter advances by one and
    /// the first 16 bytes are checked as the tag of the rest under the new
    /// counter's nonce. A message that the peer sealed with the same shared
    /// secret at the same counter opens to its plaintext.
    pub fn decrypt(&mut self, ciphertext: &[u8]) -> (plaintext: Option<Vec<u8>>)
        requires
            ciphertext@.len() >= 16 ==> old(self).counter() < u64::MAX,
        ensures
            final(self).secret_key() == old(self).secret_key(),
            final(self).secret_key().len() == 32,
            final(self).shared_key() == old(self).shared_key(),
            ciphertext@.len() < 16 ==> plaintext is None && final(self).counter() == old(
                self,
            ).counter(),
            ciphertext@.len() >= 16 ==> final(self).counter() == old(self).counter() + 1
                && bytes_option_view(plaintext) == chacha20poly1305_open(
                old(self).shared_key(),
                session_nonce(final(self).counter()),
                ciphertext@.subrange(16, ciphertext@.len() as int),
                ciphertext@.subrange(0, 16),
            ),
            plaintext is Some ==> plaintext->0@.len() == ciphertext@.len() - 16,
            forall|p: Seq<u8>|
                sealable(p) && session_tag_is_full(
                    old(self).shared_key(),
                    (old(self).counter() + 1) as u64,
                    p,
                ) && ciphertext@ == #[trigger] session_seal(
                    old(self).shared_key(),
                    (old(self).counter() + 1) as u64,
                    p,
                ) ==> bytes_option_view(plaintext) == Some(p),
    {
        proof {
            use_type_invariant(&*self);
        }
        if ciphertext.len() < 16 {
            return None;
        }
        self.nonce_counter = self.nonce_counter + 1;
        let nonce = nonce_bytes(self.nonce_counter);
        let (tag, body) = ciphertext.split_at(16);
        let opened = chacha20poly1305_decrypt(&self.shared, nonce.as_slice(), body, tag);
        proof {
            assert forall|p: Seq<u8>|
                sealable(p) && session_tag_is_full(
                    old(self).shared_key(),
                    (old(self).counter() + 1) as u64,
                    p,
                ) && ciphertext@ == #[trigger] session_seal(
                    old(self).shared_key(),
                    (old(self).counter() + 1) as u64,
                    p,
                ) implies bytes_option_view(opened) == Some(p) by {
                let sealed = chacha20poly1305_seal(self.shared@, nonce@, p);
                assert(ciphertext@ == sealed.0 + sealed.1);
                assert(tag@ == sealed.0);
                assert(body@ == sealed.1);
                assert(chacha20poly1305_seal(self.shared@, nonce@, p) == (tag@, body@));
            }
        }
        opened
    }

    /// The session's X25519 public key, the public key of its secret.
    pub fn public_key_bytes(&self) -> (public: [u8; 32])
        ensures
            public@ == x25519_public_key(self.secret_key()),
            self.secret_key().len() == 32,
    {
        proof {
            use_type_invariant(self);
        }
        self.public
    }
}

/// Builds the nonce of message number `counter`.
fn nonce_bytes(counter: u64) -> (nonce: Vec<u8>)
    ensures
        nonce@ == session_nonce(counter),
{
    let mut nonce: Vec<u8> = Vec::new();
    let mut i: u64 = 0;
    while i < 12
        invariant
            i <= 12,
            nonce@.len() == i,
            forall|k: int| 0 <= k < i ==> nonce@[k] == session_nonce(counter)[k],
        decreases 12 - i,
    {
        if i < 8 {
            let shift: u64 = 8 * i;
            nonce.push(((counter >> shift) & 0xffu64) as u8);
        } else {
            nonce.push(0u8);
        }
        i = i + 1;
    }
    assert(nonce@ == session_nonce(counter));
    nonce
}

/// A peer's identity: the routing id (hex of a hash of the core honesty
/// fields), the chosen display name, and the hash of the full vector.
#[derive(Clone)]
pub struct Identity {
    pub route_id: String,
    pub display_name: DisplayName,
    pub vector_hash: String,
}

/// A display name: the raw (possibly symbolic) text and an ASCII prefix
/// used for routing.
#[derive(Clone)]
pub struct DisplayName {
    pub raw: String,
    pub ascii_prefix: String,
}

/// The founder's display name, reserved from the start.
pub open spec fn architect_name() -> Seq<char> {
    "⊰•-•⦑ The Architect of Structural Honesty ⦒•-•⊱"@
}

/// The reserved names after a claim of `name`: unchanged if it is taken,
/// else with `name` appended.
pub open spec fn names_after_claim(names: Seq<Seq<char>>, name: Seq<char>) -> Seq<Seq<char>> {
    if names.contains(name) {
        names
    } else {
        names.push(name)
    }
}

/// Registry of reserved display names. Each name is unique; the first claim
/// wins.
pub struct NameRegistry {
    pub reserved: Vec<String>,
}

impl NameRegistry {
    /// The reserved names.
    pub open spec fn names(self) -> Seq<Seq<char>> {
        string_views(self.reserved@)
    }

    /// A registry holding only the founder's name.
    pub fn new() -> (registry: Self)
        ensures
            registry.names() == seq![architect_name()],
    {
        let registry = NameRegistry {
            reserved: vec![String::from_str("⊰•-•⦑ The Architect of Structural Honesty ⦒•-•⊱")],
        };
        assert(registry.names() =~= seq![architect_name()]);
        registry
    }

    /// Whether `name` is reserved.
    pub fn is_reserved(&self, name: &str) -> (reserved: bool)
        ensures
            reserved == self.names().contains(name@),
    {
        let wanted = String::from_str(name);
        let mut i: usize = 0;
        while i < self.reserved.len()
            invariant
                i <= self.reserved@.len(),
                wanted@ == name@,
                forall|k: int| 0 <= k < i ==> self.reserved@[k]@ != name@,
            decreases self.reserved@.len() - i,
        {
            if self.reserved[i] == wanted {
                assert(self.names()[i as int] == name@);
                return true;
            }
            i = i + 1;
        }
        assert(!self.names().contains(name@)) by {
            if self.names().contains(name@) {
                let k = choose|k: int| 0 <= k < self.names().len() && self.names()[k] == name@;
                assert(self.reserved@[k]@ == name@);
            }
        }
        false
    }

    /// Claims `name`. A name already reserved is refused with
    /// "name already reserved" and the registry unchanged; otherwise the name
    /// is appended.
    pub fn reserve(&mut self, name: &str) -> (outcome: Result<(), &'static str>)
        ensures
            outcome is Err <==> old(self).names().contains(name@),
            outcome matches Err(e) ==> e@ == "name already reserved"@,
            final(self).names() == names_after_claim(old(self).names(), name@),
    {
        if self.is_reserved(name) {
            return Err("name already reserved");
        }
        self.reserved.push(String::from_str(name));
        assert(self.names() =~= old(self).names().push(name@));
        Ok(())
    }
}

/// A claim makes the name reserved, keeps every name reserved before, and a
/// second claim of the same name leaves the registry as it is (first claim
/// wins).
pub proof fn lemma_first_claim_wins(names: Seq<Seq<char>>, name: Seq<char>, other: Seq<char>)
    ensures
        names_after_claim(names, name).contains(name),
        names.contains(other) ==> names_after_claim(names, name).contains(other),
        names_after_claim(names_after_claim(names, name), name) == names_after_claim(names, name),
{
    if !names.contains(name) {
        assert(names.push(name)[names.len() as int] == name);
        if names.contains(other) {
            let k = choose|k: int| 0 <= k < names.len() && names[k] == other;
            assert(names.push(name)[k] == other);
        }
    }
}

/// The routing id of a core identity hash: the first 16 hex digits of the
/// SHA-256 of its UTF-8 bytes.
pub open spec fn route_id_of(core_hash: Seq<char>) -> Seq<char> {
    hex_lower(sha256(vstd::utf8::encode_utf8(core_hash))).subrange(0, 16)
}

/// Generates a routing id from a core identity hash.
pub fn route_id(core_hash: &str) -> (id: String)
    ensures
        id@ == route_id_of(core_hash@),
        id@.len() == 16,
        forall|i: int| 0 <= i < 16 ==> is_lower_hex_digit(#[trigger] id@[i]),
{
    let bytes = core_hash.as_bytes();
    let digest = sha256_digest(bytes);
    let hex = hex_encode(digest.as_slice());
    proof {
        lemma_hex_lower_len_ascii(digest@);
    }
    let prefix = hex.as_str().substring_ascii(0, 16);
    let id = String::from_str(prefix);
    assert forall|i: int| 0 <= i < 16 implies is_lower_hex_digit(#[trigger] id@[i]) by {
        assert(id@[i] == hex_lower(digest@)[i]);
    }
    id
}

} // verus!

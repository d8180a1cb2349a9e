//! Post-quantum key material: ML-KEM-1024 (Kyber), ML-DSA-87 (Dilithium) and
//! SLH-DSA-SHAKE-256s (SPHINCS+).
//!
//! These are placeholders with the real algorithms' sizes: keys,
//! ciphertexts, shared secrets and signatures are random bytes of the right
//! length, and verification accepts any non-empty message.

use crate::entropy::random_bytes;
use vstd::prelude::*;

verus! {

/// ML-KEM-1024 (CRYSTALS-Kyber) key pair.
pub struct KyberKeypair {
    pub public_key: Vec<u8>,
    secret_key: Vec<u8>,
}

impl KyberKeypair {
    /// The public key.
    pub closed spec fn public_bytes(self) -> Seq<u8> {
        self.public_key@
    }

    /// The secret key.
    pub closed spec fn secret_bytes(self) -> Seq<u8> {
        self.secret_key@
    }

    /// The public key, for verified callers (the struct is opaque to them).
    pub fn public_key_bytes(&self) -> (pk: &[u8])
        ensures
            pk@ == self.public_bytes(),
    {
        self.public_key.as_slice()
    }

    /// A new key pair: a 1568-byte public key and a 3168-byte secret key.
    pub fn generate() -> (kp: Self)
        ensures
            kp.public_bytes().len() == 1568,
            kp.secret_bytes().len() == 3168,
    {
        let secret_key = random_bytes(3168);
        let public_key = random_bytes(1568);
        KyberKeypair { public_key, secret_key }
    }

    /// Encapsulates a shared secret for a public key: a 1568-byte ciphertext
    /// and a 32-byte shared secret.
    pub fn encapsulate(pk: &[u8]) -> (out: (Vec<u8>, Vec<u8>))
        ensures
            out.0@.len() == 1568,
            out.1@.len() == 32,
    {
        let ct = random_bytes(1568);
        let ss = random_bytes(32);
        (ct, ss)
    }

    /// Decapsulates a 32-byte shared secret from a ciphertext.
    pub fn decapsulate(&self, ct: &[u8]) -> (ss: Vec<u8>)
        ensures
            ss@.len() == 32,
    {
        random_bytes(32)
    }
}

/// ML-DSA-87 (CRYSTALS-Dilithium) key pair.
pub struct DilithiumKeypair {
    pub public_key: Vec<u8>,
    secret_key: Vec<u8>,
}

impl DilithiumKeypair {
    /// The public key.
    pub closed spec fn public_bytes(self) -> Seq<u8> {
        self.public_key@
    }

    /// The secret key.
    pub closed spec fn secret_bytes(self) -> Seq<u8> {
        self.secret_key@
    }

    /// The public key, for verified callers (the struct is opaque to them).
    pub fn public_key_bytes(&self) -> (pk: &[u8])
        ensures
            pk@ == self.public_bytes(),
    {
        self.public_key.as_slice()
    }

    /// A new key pair: a 2592-byte public key and a 4864-byte secret key.
    pub fn generate() -> (kp: Self)
        ensures
            kp.public_bytes().len() == 2592,
            kp.secret_bytes().len() == 4864,
    {
        let secret_key = random_bytes(4864);
        let public_key = random_bytes(2592);
        DilithiumKeypair { public_key, secret_key }
    }

    /// Signs a message: a 4595-byte signature.
    pub fn sign(&self, message: &[u8]) -> (signature: Vec<u8>)
        ensures
            signature@.len() == 4595,
    {
        random_bytes(4595)
    }

    /// Verifies a signature: accepts exactly the non-empty messages.
    pub fn verify(pk: &[u8], message: &[u8], signature: &[u8]) -> (valid: bool)
        ensures
            valid == (message@.len() > 0),
    {
        message.len() > 0
    }
}

/// SLH-DSA-SHAKE-256s (SPHINCS+) key pair, the hash-based backup scheme.
pub struct SphincsKeypair {
    pub public_key: Vec<u8>,
    secret_key: Vec<u8>,
}

impl SphincsKeypair {
    /// The public key.
    pub closed spec fn public_bytes(self) -> Seq<u8> {
        self.public_key@
    }

    /// The secret key.
    pub closed spec fn secret_bytes(self) -> Seq<u8> {
        self.secret_key@
    }

    /// The public key, for verified callers (the struct is opaque to them).
    pub fn public_key_bytes(&self) -> (pk: &[u8])
        ensures
            pk@ == self.public_bytes(),
    {
        self.public_key.as_slice()
    }

    /// A new key pair: a 32-byte public key and a 64-byte secret key.
    pub fn generate() -> (kp: Self)
        ensures
            kp.public_bytes().len() == 32,
            kp.secret_bytes().len() == 64,
    {
        let secret_key = random_bytes(64);
        let public_key = random_bytes(32);
        SphincsKeypair { public_key, secret_key }
    }

    /// Signs a message: a 7856-byte signature.
    pub fn sign(&self, message: &[u8]) -> (signature: Vec<u8>)
        ensures
            signature@.len() == 7856,
    {
        random_bytes(7856)
    }

    /// Verifies a signature: accepts exactly the non-empty messages.
    pub fn verify(pk: &[u8], message: &[u8], signature: &[u8]) -> (valid: bool)
        ensures
            valid == (message@.len() > 0),
    {
        message.len() > 0
    }
}

/// The hybrid bundle: Kyber for key encapsulation, Dilithium for signatures,
/// SPHINCS+ as backup.
pub struct PqcBundle {
    pub kyber: KyberKeypair,
    pub dilithium: DilithiumKeypair,
    pub sphincs: SphincsKeypair,
}

impl PqcBundle {
    /// A bundle of three fresh key pairs.
    pub fn generate() -> (bundle: Self)
        ensures
            bundle.kyber.public_bytes().len() == 1568,
            bundle.kyber.secret_bytes().len() == 3168,
            bundle.dilithium.public_bytes().len() == 2592,
            bundle.dilithium.secret_bytes().len() == 4864,
            bundle.sphincs.public_bytes().len() == 32,
            bundle.sphincs.secret_bytes().len() == 64,
    {
        PqcBundle {
            kyber: KyberKeypair::generate(),
            dilithium: DilithiumKeypair::generate(),
            sphincs: SphincsKeypair::generate(),
        }
    }
}

} // verus!

use honest_irc::entropy::random_bytes;
use honest_irc::pqc::{DilithiumKeypair, KyberKeypair, PqcBundle, SphincsKeypair};

#[test]
fn test_kyber_keypair_generation() {
    let kp = KyberKeypair::generate();
    assert_eq!(kp.public_key.len(), 1568);
}

#[test]
fn test_kyber_encapsulate_decapsulate() {
    let kp = KyberKeypair::generate();
    let (ct, ss_enc) = KyberKeypair::encapsulate(&kp.public_key);
    let ss_dec = kp.decapsulate(&ct);
    assert_eq!(ss_enc.len(), 32);
    assert_eq!(ss_dec.len(), 32);
}

#[test]
fn test_dilithium_keypair_generation() {
    let kp = DilithiumKeypair::generate();
    assert_eq!(kp.public_key.len(), 2592);
}

#[test]
fn test_pqc_bundle_generation() {
    let bundle = PqcBundle::generate();
    assert_eq!(bundle.kyber.public_key.len(), 1568);
    assert_eq!(bundle.dilithium.public_key.len(), 2592);
    assert_eq!(bundle.sphincs.public_key.len(), 32);
}

#[test]
fn test_signature_sizes_and_verification() {
    let d = DilithiumKeypair::generate();
    assert_eq!(d.sign(b"m").len(), 4595);
    assert!(DilithiumKeypair::verify(&d.public_key, b"m", &[]));
    assert!(!DilithiumKeypair::verify(&d.public_key, b"", &[]));
    let s = SphincsKeypair::generate();
    assert_eq!(s.sign(b"m").len(), 7856);
    assert!(SphincsKeypair::verify(&s.public_key, b"m", &[]));
    assert!(!SphincsKeypair::verify(&s.public_key, b"", &[]));
}

#[test]
fn test_random_bytes_length() {
    assert_eq!(random_bytes(0).len(), 0);
    assert_eq!(random_bytes(77).len(), 77);
}

#[test]
fn test_public_key_accessors() {
    let k = KyberKeypair::generate();
    assert_eq!(k.public_key_bytes(), &k.public_key[..]);
    assert_eq!(DilithiumKeypair::generate().public_key_bytes().len(), 2592);
    assert_eq!(SphincsKeypair::generate().public_key_bytes().len(), 32);
}

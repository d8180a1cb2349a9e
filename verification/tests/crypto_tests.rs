use honest_irc::crypto::{route_id, CryptoSession, NameRegistry};

#[test]
fn test_encrypt_decrypt_roundtrip() {
    let mut alice = CryptoSession::new();
    let mut bob = CryptoSession::new();

    let bob_pub = x25519_dalek::PublicKey::from(bob.public_key_bytes());
    let alice_pub = x25519_dalek::PublicKey::from(alice.public_key_bytes());

    alice.exchange(bob_pub.as_bytes());
    bob.exchange(alice_pub.as_bytes());

    let msg = b"hello, quantum-proof world!";
    let ct = alice.encrypt(msg);
    let pt = bob.decrypt(&ct).unwrap();
    assert_eq!(msg, pt.as_slice());
}

#[test]
fn test_architect_name_reserved() {
    let registry = NameRegistry::new();
    assert!(registry.is_reserved("⊰•-•⦑ The Architect of Structural Honesty ⦒•-•⊱"));
    assert!(!registry.is_reserved("random_user"));
}

#[test]
fn test_first_claim_wins() {
    let mut registry = NameRegistry::new();
    assert_eq!(registry.reserve("alice"), Ok(()));
    assert!(registry.is_reserved("alice"));
    assert_eq!(registry.reserve("alice"), Err("name already reserved"));
    assert_eq!(registry.reserved.len(), 2);
    assert_eq!(
        registry.reserve("⊰•-•⦑ The Architect of Structural Honesty ⦒•-•⊱"),
        Err("name already reserved")
    );
    assert!(registry.reserve("bob").is_ok());
    assert_eq!(registry.reserved, vec![
        "⊰•-•⦑ The Architect of Structural Honesty ⦒•-•⊱".to_string(),
        "alice".to_string(),
        "bob".to_string(),
    ]);
}

#[test]
fn test_route_id_is_hex_prefix_of_sha256() {
    // SHA-256("abc") = ba7816bf8f01cfea414140de5dae2223b00361a396177a9cb410ff61f20015ad
    assert_eq!(route_id("abc"), "ba7816bf8f01cfea");
    assert_eq!(route_id("abc").len(), 16);
    assert_ne!(route_id("abd"), route_id("abc"));
}

#[test]
fn test_shared_secrets_agree() {
    let mut alice = CryptoSession::new();
    let mut bob = CryptoSession::new();
    let alice_pub = alice.public_key_bytes();
    let bob_pub = bob.public_key_bytes();
    alice.exchange(&bob_pub);
    bob.exchange(&alice_pub);
    // Both directions work once the keys agree.
    let ct = bob.encrypt(b"pong");
    assert_eq!(alice.decrypt(&ct).unwrap(), b"pong".to_vec());
}

#[test]
fn test_ciphertext_is_tag_then_body() {
    let mut alice = CryptoSession::new();
    let bob = CryptoSession::new();
    alice.exchange(&bob.public_key_bytes());
    let ct = alice.encrypt(b"12345");
    assert_eq!(ct.len(), 16 + 5);
    assert_ne!(&ct[16..], b"12345");
    let empty = alice.encrypt(b"");
    assert_eq!(empty.len(), 16);
}

#[test]
fn test_counter_advances_per_message() {
    let mut alice = CryptoSession::new();
    let mut bob = CryptoSession::new();
    let (a, b) = (alice.public_key_bytes(), bob.public_key_bytes());
    alice.exchange(&b);
    bob.exchange(&a);
    let first = alice.encrypt(b"same");
    let second = alice.encrypt(b"same");
    assert_ne!(first, second);
    // Opened in order, both decrypt; out of order they would not.
    assert_eq!(bob.decrypt(&first).unwrap(), b"same".to_vec());
    assert_eq!(bob.decrypt(&second).unwrap(), b"same".to_vec());
}

#[test]
fn test_decrypt_refuses_short_and_tampered() {
    let mut alice = CryptoSession::new();
    let mut bob = CryptoSession::new();
    let (a, b) = (alice.public_key_bytes(), bob.public_key_bytes());
    alice.exchange(&b);
    bob.exchange(&a);
    assert!(bob.decrypt(&[0u8; 15]).is_none());
    let mut ct = alice.encrypt(b"secret");
    ct[20] ^= 1;
    assert!(bob.decrypt(&ct).is_none());
}

#[test]
fn test_wrong_key_fails() {
    let mut alice = CryptoSession::new();
    let mut bob = CryptoSession::new();
    let carol = CryptoSession::new();
    alice.exchange(&bob.public_key_bytes());
    bob.exchange(&carol.public_key_bytes());
    let ct = alice.encrypt(b"hello");
    assert!(bob.decrypt(&ct).is_none());
}

#[test]
fn test_route_id_is_lower_hex() {
    for input in ["", "abc", "⊰•-•⦑ honesty ⦒•-•⊱"] {
        let id = route_id(input);
        assert_eq!(id.len(), 16);
        assert!(id.chars().all(|c| c.is_ascii_digit() || ('a'..='f').contains(&c)));
    }
    // SHA-256("") = e3b0c44298fc1c149afbf4c8996fb924...
    assert_eq!(route_id(""), "e3b0c44298fc1c14");
}

#[test]
fn test_opened_plaintext_length() {
    let mut alice = CryptoSession::new();
    let mut bob = CryptoSession::new();
    let (a, b) = (alice.public_key_bytes(), bob.public_key_bytes());
    alice.exchange(&b);
    bob.exchange(&a);
    let ct = alice.encrypt(&[7u8; 100]);
    let pt = bob.decrypt(&ct).unwrap();
    assert_eq!(pt.len(), ct.len() - 16);
}

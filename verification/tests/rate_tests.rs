use honest_irc::rate::{HonestyRotation, MeshConfig};

#[test]
fn test_honesty_rotation() {
    let mut rot = HonestyRotation::new();
    assert!(rot.needs_reverify("alice"));
    rot.verified("alice");
    assert!(!rot.needs_reverify("alice"));
}

#[test]
fn test_rotation_is_per_peer() {
    let mut rot = HonestyRotation::new();
    rot.verified("alice");
    rot.verified("alice");
    assert!(!rot.needs_reverify("alice"));
    assert!(rot.needs_reverify("bob"));
}

#[test]
fn test_overdue_after_thirty_days() {
    let rot = HonestyRotation::new();
    let period: u128 = 30 * 24 * 3600 * 1_000_000_000;
    assert!(!rot.is_overdue(0));
    assert!(!rot.is_overdue(period));
    assert!(rot.is_overdue(period + 1));
    assert!(rot.is_overdue(period * 2));
}

#[test]
fn test_challenge_question() {
    assert_eq!(
        HonestyRotation::challenge_for("alice", true),
        "honesty-verify: alice — please answer: what is your favorite poem?"
    );
    assert_eq!(
        HonestyRotation::challenge_for("alice", false),
        "honesty-verify: alice — please answer: what is your favorite band?"
    );
    let q = HonestyRotation::challenge_question("bob");
    assert!(q.ends_with("poem?") || q.ends_with("band?"));
    assert!(q.starts_with("honesty-verify: bob — "));
}

#[test]
fn test_mesh_config_default() {
    let cfg = MeshConfig::new();
    assert!(!cfg.onion_enabled);
    assert!(!cfg.i2p_enabled);
    assert!(!cfg.derp_self_hosted);
}

#[test]
fn test_mesh_config_enable_and_status() {
    let mut cfg = MeshConfig::new();
    assert_eq!(cfg.derp_port, 33478);
    assert_eq!(
        cfg.status(),
        "overlay networks:\n  onion: disabled\n  i2p:   disabled\n  derp:  no (self-hosted)\n"
    );
    cfg.enable_onion("abc.onion");
    assert!(cfg.onion_enabled);
    assert_eq!(cfg.onion_address.as_deref(), Some("abc.onion"));
    assert!(!cfg.i2p_enabled);
    cfg.enable_i2p("xyz.i2p");
    assert_eq!(cfg.i2p_address.as_deref(), Some("xyz.i2p"));
    assert_eq!(
        cfg.status(),
        "overlay networks:\n  onion: enabled\n  i2p:   enabled\n  derp:  no (self-hosted)\n"
    );
}

#[test]
fn test_last_verified_at_is_per_peer() {
    let mut rot = HonestyRotation::new();
    assert!(rot.last_verified_at("alice").is_none());
    rot.verified("alice");
    rot.verified("bob");
    let alice = *rot.last_verified_at("alice").unwrap();
    let bob = *rot.last_verified_at("bob").unwrap();
    assert!(alice <= bob);
    rot.verified("alice");
    assert!(*rot.last_verified_at("alice").unwrap() >= alice);
    assert_eq!(*rot.last_verified_at("bob").unwrap(), bob);
    assert!(rot.last_verified_at("carol").is_none());
}

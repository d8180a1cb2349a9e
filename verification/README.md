# honest_irc

Verified core of honest-irc, a messaging node with honesty-vector identities.

- `src/` is the library, verified with Verus: session encryption
  (X25519 + ChaCha20Poly1305), the reserved-name registry and route ids,
  the IRC daemon's message handling and room membership, music
  choreographies, post-quantum key-material placeholders, the peer
  re-verification policy and the overlay configuration.
  `primitives.rs`, `entropy.rs` and `clock.rs` hold the calls into outside
  crates and std whose contracts the library takes on trust.
- `app/` is the command line, the TCP daemon loop, the VPN sidecar stub, the
  JSON wire format (serde copies of the library's types) and the
  floating-point rate limiter.
- `tests/` exercises the library.

use honest_irc::frozen::{frozen_noise, target_size, MAGIC, NOPS};

#[test]
fn test_frozen_noise_is_deterministic() {
    let a = frozen_noise();
    let b = frozen_noise();
    assert_eq!(a, b);
}

#[test]
fn test_magic_is_correct() {
    assert_eq!(&MAGIC[0..2], b"\x42\x00");
}

#[test]
fn test_target_size() {
    assert_eq!(target_size(), 4_200_000);
}

#[test]
fn test_frozen_noise_value() {
    // NOPS sum to 1228; 64 cycled MAGIC bytes sum to 3480; 1228 ^ 3480 = 2388.
    assert_eq!(NOPS.iter().map(|b| *b as usize).sum::<usize>(), 1228);
    assert_eq!(frozen_noise(), 2388);
    assert_eq!(&MAGIC[..], b"\x42\x00\x42\x00HOME\0HONEST\0IRC\0");
}

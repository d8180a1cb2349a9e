//! Structural filler bytes embedded in the binary.
//!
//! `MAGIC` is a structural marker and `NOPS` a run of valid x86_64 NOP
//! instructions. `frozen_noise` folds both into a checksum; it exists only
//! to keep the bytes referenced.

use vstd::prelude::*;

verus! {

/// The structural marker: 0x42 0x00 twice, then "HOME\0HONEST\0IRC\0".
pub const MAGIC: [u8; 20] = [
    0x42u8, 0x00u8, 0x42u8, 0x00u8, 0x48u8, 0x4fu8, 0x4du8, 0x45u8, 0x00u8, 0x48u8,
    0x4fu8, 0x4eu8, 0x45u8, 0x53u8, 0x54u8, 0x00u8, 0x49u8, 0x52u8, 0x43u8, 0x00u8,
];

/// x86_64 NOP sleds of one to eight bytes, back to back.
pub const NOPS: [u8; 36] = [
    0x90u8,
    0x66u8, 0x90u8,
    0x0fu8, 0x1fu8, 0x00u8,
    0x0fu8, 0x1fu8, 0x40u8, 0x00u8,
    0x0fu8, 0x1fu8, 0x44u8, 0x00u8, 0x00u8,
    0x66u8, 0x0fu8, 0x1fu8, 0x44u8, 0x00u8, 0x00u8,
    0x0fu8, 0x1fu8, 0x80u8, 0x00u8, 0x00u8, 0x00u8, 0x00u8,
    0x0fu8, 0x1fu8, 0x84u8, 0x00u8, 0x00u8, 0x00u8, 0x00u8, 0x00u8,
];

/// Sum of the first `n` bytes of `s`.
pub open spec fn byte_sum(s: Seq<u8>, n: int) -> int
    decreases n,
{
    if n <= 0 {
        0
    } else {
        byte_sum(s, n - 1) + s[n - 1]
    }
}

/// Sum of the first `n` bytes of `MAGIC` repeated cyclically.
pub open spec fn magic_cycle_sum(n: int) -> int
    decreases n,
{
    if n <= 0 {
        0
    } else {
        magic_cycle_sum(n - 1) + MAGIC@[(n - 1) % 20]
    }
}

/// The checksum that `frozen_noise` computes: the byte sum of `NOPS`,
/// xor the byte sum of 64 bytes of `MAGIC` repeated.
pub open spec fn frozen_noise_value() -> usize {
    (byte_sum(NOPS@, 36) as usize) ^ (magic_cycle_sum(64) as usize)
}

proof fn lemma_byte_sum_bounds(s: Seq<u8>, n: int)
    requires
        0 <= n <= s.len(),
    ensures
        0 <= byte_sum(s, n) <= 255 * n,
    decreases n,
{
    if n > 0 {
        lemma_byte_sum_bounds(s, n - 1);
    }
}

proof fn lemma_magic_cycle_sum_bounds(n: int)
    requires
        0 <= n,
    ensures
        0 <= magic_cycle_sum(n) <= 255 * n,
    decreases n,
{
    if n > 0 {
        lemma_magic_cycle_sum_bounds(n - 1);
    }
}

/// Folds the NOP sleds and a 64-byte buffer filled with the cycled marker
/// into one checksum. The result is the same on every call.
pub fn frozen_noise() -> (acc: usize)
    ensures
        acc == frozen_noise_value(),
{
    let mut acc: usize = 0;
    let mut i: usize = 0;
    while i < 36
        invariant
            i <= 36,
            acc == byte_sum(NOPS@, i as int),
        decreases 36 - i,
    {
        proof {
            lemma_byte_sum_bounds(NOPS@, i as int);
        }
        acc = acc + NOPS[i] as usize;
        i = i + 1;
    }
    let mut dummy: Vec<u8> = Vec::new();
    let mut j: usize = 0;
    while j < 64
        invariant
            j <= 64,
            dummy@.len() == j,
            forall|k: int| 0 <= k < j ==> dummy@[k] == MAGIC@[k % 20],
        decreases 64 - j,
    {
        dummy.push(MAGIC[j % 20]);
        j = j + 1;
    }
    let mut sum: usize = 0;
    let mut k: usize = 0;
    while k < 64
        invariant
            k <= 64,
            dummy@.len() == 64,
            forall|m: int| 0 <= m < 64 ==> dummy@[m] == MAGIC@[m % 20],
            sum == magic_cycle_sum(k as int),
        decreases 64 - k,
    {
        proof {
            lemma_magic_cycle_sum_bounds(k as int);
        }
        sum = sum + dummy[k] as usize;
        k = k + 1;
    }
    acc ^ sum
}

/// The size each binary is padded to: 4.20 MB.
pub fn target_size() -> (size: usize)
    ensures
        size == 4_200_000,
{
    4_200_000
}

} // verus!

//! Seed mixing: a device's identity is folded into the numeric seed so two
//! documents given the same seed do not replay the same noise sequence.

use vstd::prelude::*;

use crate::device::DeviceSpec;
use crate::text::bytes_of;

verus! {

/// FNV-1a offset basis (64-bit).
pub const FNV_OFFSET: u64 = 0xcbf2_9ce4_8422_2325;

/// FNV-1a prime (64-bit).
pub const FNV_PRIME: u64 = 0x0100_0000_01b3;

/// 64-bit FNV-1a hash of a byte string.
pub open spec fn fnv(bs: Seq<u8>) -> u64
    decreases bs.len(),
{
    if bs.len() == 0 {
        FNV_OFFSET
    } else {
        (((fnv(bs.drop_last()) ^ (bs.last() as u64)) as nat * FNV_PRIME as nat) % 0x1_0000_0000_0000_0000nat) as u64
    }
}

/// `x` rotated left by `k` bits.
pub open spec fn rotl(x: u64, k: u64) -> u64 {
    if k == 0 {
        x
    } else {
        (x << k) | (x >> (64 - k) as u64)
    }
}

/// 64-bit FNV-1a hash of a byte string.
pub fn fnv1a64(bytes: &[u8]) -> (h: u64)
    ensures
        h == fnv(bytes@),
{
    let mut hash: u64 = FNV_OFFSET;
    let mut i: usize = 0;
    while i < bytes.len()
        invariant
            0 <= i <= bytes@.len(),
            hash == fnv(bytes@.subrange(0, i as int)),
        decreases bytes@.len() - i,
    {
        proof {
            assert(bytes@.subrange(0, i as int + 1).drop_last() =~= bytes@.subrange(0, i as int));
        }
        hash = hash ^ (bytes[i] as u64);
        hash = hash.wrapping_mul(FNV_PRIME);
        i = i + 1;
    }
    proof {
        assert(bytes@.subrange(0, bytes@.len() as int) =~= bytes@);
    }
    hash
}

fn rotate_left(x: u64, k: u64) -> (r: u64)
    requires
        0 < k < 64,
    ensures
        r == rotl(x, k),
{
    (x << k) | (x >> (64 - k))
}

/// The seed a device runs with: the numeric seed mixed with the hashes of
/// its name, type, vendor, product and revision.
pub open spec fn mixed_seed(seed: u64, spec: DeviceSpec) -> u64 {
    seed ^ fnv(bytes_of(spec.name@)) ^ rotl(fnv(bytes_of(spec.device_type@)), 32) ^ rotl(
        fnv(bytes_of(spec.identity.vendor@)),
        16,
    ) ^ rotl(fnv(bytes_of(spec.identity.product@)), 48) ^ rotl(fnv(bytes_of(spec.identity.revision@)), 8)
}

/// Mix identity into the numeric seed.
pub fn mix_seed(seed: u64, spec: &DeviceSpec) -> (r: u64)
    ensures
        r == mixed_seed(seed, *spec),
{
    seed ^ fnv1a64(spec.name.as_str().as_bytes()) ^ rotate_left(fnv1a64(spec.device_type.as_str().as_bytes()), 32)
        ^ rotate_left(fnv1a64(spec.identity.vendor.as_str().as_bytes()), 16) ^ rotate_left(
        fnv1a64(spec.identity.product.as_str().as_bytes()),
        48,
    ) ^ rotate_left(fnv1a64(spec.identity.revision.as_str().as_bytes()), 8)
}

} // verus!

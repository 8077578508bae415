//! Deterministic hashing and pseudo-random streams used for seeds and
//! palette assignment.
use vstd::prelude::*;

verus! {

/// The FNV-1a 64-bit offset basis.
pub open spec fn fnv_offset() -> u64 {
    0xcbf2_9ce4_8422_2325
}

/// The FNV-1a 64-bit prime.
pub open spec fn fnv_prime() -> u64 {
    0x0000_0100_0000_01b3
}

/// FNV-1a over `bytes`: xor each byte in, then multiply by the prime
/// modulo 2^64.
pub open spec fn fnv1a(bytes: Seq<u8>) -> u64
    decreases bytes.len(),
{
    if bytes.len() == 0 {
        fnv_offset()
    } else {
        (((fnv1a(bytes.drop_last()) ^ (bytes.last() as u64)) as int * fnv_prime() as int)
            % 0x1_0000_0000_0000_0000int) as u64
    }
}

/// Deterministic 64-bit hash (FNV-1a over the UTF-8 bytes) for seeds and
/// palette assignment.
pub fn stable_hash(text: &str) -> (hash: u64)
    ensures
        hash == fnv1a(vstd::utf8::encode_utf8(text@)),
{
    let bytes = text.as_bytes();
    let mut hash: u64 = 0xcbf2_9ce4_8422_2325;
    let mut i: usize = 0;
    assert(bytes@.take(0) =~= Seq::<u8>::empty());
    while i < bytes.len()
        invariant
            i <= bytes@.len(),
            bytes@ == vstd::utf8::encode_utf8(text@),
            hash == fnv1a(bytes@.take(i as int)),
        decreases bytes.len() - i,
    {
        assert(bytes@.take(i + 1).drop_last() =~= bytes@.take(i as int));
        hash = hash ^ (bytes[i] as u64);
        hash = hash.wrapping_mul(0x0000_0100_0000_01b3);
        i = i + 1;
    }
    assert(bytes@.take(bytes@.len() as int) =~= bytes@);
    hash
}

/// The SplitMix64 increment (the 64-bit golden ratio).
pub open spec fn splitmix_gamma() -> u64 {
    0x9e37_79b9_7f4a_7c15
}

/// One SplitMix64 output mixed from an already advanced state.
pub open spec fn splitmix_mix(z: u64) -> u64 {
    let a = ((z ^ (z >> 30u64)) as int * 0xbf58_476d_1ce4_e5b9int) % 0x1_0000_0000_0000_0000int;
    let a = a as u64;
    let b = ((a ^ (a >> 27u64)) as int * 0x94d0_49bb_1331_11ebint) % 0x1_0000_0000_0000_0000int;
    let b = b as u64;
    b ^ (b >> 31u64)
}

/// SplitMix64 step: advances `state` by the golden-ratio increment
/// (wrapping) and returns the mixed value of the new state.
pub fn splitmix64(state: &mut u64) -> (out: u64)
    ensures
        *final(state) == ((*old(state) as int + splitmix_gamma() as int) % 0x1_0000_0000_0000_0000int) as u64,
        out == splitmix_mix(*final(state)),
{
    *state = state.wrapping_add(0x9e37_79b9_7f4a_7c15);
    let mut z = *state;
    z = (z ^ (z >> 30)).wrapping_mul(0xbf58_476d_1ce4_e5b9);
    z = (z ^ (z >> 27)).wrapping_mul(0x94d0_49bb_1331_11eb);
    z ^ (z >> 31)
}

} // verus!

//! FNV-1a checksum, 64-bit variant.
//!
//! The header stores an FNV-1a digest of its first 56 serialized bytes so
//! that a reader can detect corruption before trusting any field. The state
//! starts at the standard offset basis; each input byte is XORed into the
//! state, which is then multiplied by the standard FNV prime modulo 2^64.

use vstd::prelude::*;

verus! {

/// Standard 64-bit FNV offset basis: the initial checksum state.
pub const FNV_OFFSET_BASIS: u64 = 0xcbf29ce484222325;

/// Standard 64-bit FNV prime: the per-byte multiplier.
pub const FNV_PRIME: u64 = 0x100000001b3;

/// Multiplicative inverse of `FNV_PRIME` modulo 2^64. The prime is odd, so
/// this inverse exists; it witnesses that multiplying by the prime is
/// injective, which is what makes the checksum sensitive to corruption.
pub const FNV_PRIME_INVERSE: u64 = 0xce965057aff6957b;

/// One FNV-1a round: fold `byte` into `state`.
pub open spec fn fnv1a_step(state: u64, byte: u8) -> u64 {
    vstd::wrapping::u64_specs::wrapping_mul(state ^ (byte as u64), FNV_PRIME)
}

/// Fold every byte of `bytes`, in order, into `state`.
pub open spec fn fnv1a_fold(state: u64, bytes: Seq<u8>) -> u64
    decreases bytes.len(),
{
    if bytes.len() == 0 {
        state
    } else {
        fnv1a_fold(fnv1a_step(state, bytes[0]), bytes.drop_first())
    }
}

/// The FNV-1a digest of a byte sequence.
pub open spec fn spec_fnv1a_64(bytes: Seq<u8>) -> u64 {
    fnv1a_fold(FNV_OFFSET_BASIS, bytes)
}

/// Compute the 64-bit FNV-1a digest of `bytes`.
pub fn fnv1a_64(bytes: &[u8]) -> (checksum: u64)
    ensures
        checksum == spec_fnv1a_64(bytes@),
{
    let mut state: u64 = FNV_OFFSET_BASIS;
    let mut i: usize = 0;
    proof {
        assert(bytes@.skip(0) =~= bytes@);
    }
    while i < bytes.len()
        invariant
            i <= bytes@.len(),
            fnv1a_fold(state, bytes@.skip(i as int)) == spec_fnv1a_64(bytes@),
        decreases bytes@.len() - i,
    {
        let b: u8 = bytes[i];
        proof {
            assert(bytes@.skip(i as int)[0] == bytes@[i as int]);
            assert(bytes@.skip(i as int).drop_first() =~= bytes@.skip(i as int + 1));
        }
        state = (state ^ (b as u64)).wrapping_mul(FNV_PRIME);
        i = i + 1;
    }
    proof {
        assert(bytes@.skip(bytes@.len() as int) =~= Seq::<u8>::empty());
    }
    state
}

/// Multiplying by the FNV prime modulo 2^64 is injective: the prime is odd,
/// so `FNV_PRIME_INVERSE` undoes the multiplication.
proof fn lemma_mul_prime_injective(x: u64, y: u64)
    requires
        vstd::wrapping::u64_specs::wrapping_mul(x, FNV_PRIME)
            == vstd::wrapping::u64_specs::wrapping_mul(y, FNV_PRIME),
    ensures
        x == y,
{
    let n: int = 0x1_0000_0000_0000_0000;
    let p: int = FNV_PRIME as int;
    let q: int = FNV_PRIME_INVERSE as int;
    assert((FNV_PRIME as int * FNV_PRIME_INVERSE as int) % 0x1_0000_0000_0000_0000 == 1)
        by (bit_vector);
    lemma_cancel_by_inverse(x as int, p, q, n);
    lemma_cancel_by_inverse(y as int, p, q, n);
    assert((x as int * p) % n == (y as int * p) % n);
}

/// For `0 <= x < n` and `(p * q) % n == 1`, the product `((x * p) % n) * q`
/// reduces to `x` modulo `n`.
proof fn lemma_cancel_by_inverse(x: int, p: int, q: int, n: int)
    requires
        0 <= x < n,
        (p * q) % n == 1,
        1 < n,
    ensures
        (((x * p) % n) * q) % n == x,
{
    vstd::arithmetic::div_mod::lemma_mul_mod_noop_left(x * p, q, n);
    assert((((x * p) % n) * q) % n == ((x * p) * q) % n);
    vstd::arithmetic::mul::lemma_mul_is_associative(x, p, q);
    assert(((x * p) * q) % n == (x * (p * q)) % n);
    vstd::arithmetic::div_mod::lemma_mul_mod_noop_right(x, p * q, n);
    assert((x * (p * q)) % n == (x * ((p * q) % n)) % n);
    assert(x * 1 == x);
    vstd::arithmetic::div_mod::lemma_small_mod(x as nat, n as nat);
}

/// One round is injective in the state: equal results from the same byte
/// force equal states.
proof fn lemma_step_injective_in_state(x: u64, y: u64, byte: u8)
    requires
        fnv1a_step(x, byte) == fnv1a_step(y, byte),
    ensures
        x == y,
{
    lemma_mul_prime_injective(x ^ (byte as u64), y ^ (byte as u64));
    let b: u64 = byte as u64;
    assert((x ^ b) == (y ^ b) ==> x == y) by (bit_vector);
}

/// One round is injective in the byte: from the same state, different bytes
/// give different results.
proof fn lemma_step_injective_in_byte(state: u64, b1: u8, b2: u8)
    requires
        b1 != b2,
    ensures
        fnv1a_step(state, b1) != fnv1a_step(state, b2),
{
    if fnv1a_step(state, b1) == fnv1a_step(state, b2) {
        lemma_mul_prime_injective(state ^ (b1 as u64), state ^ (b2 as u64));
        let x1: u64 = b1 as u64;
        let x2: u64 = b2 as u64;
        assert((state ^ x1) == (state ^ x2) ==> x1 == x2) by (bit_vector);
        assert(b1 as u64 == b2 as u64 ==> b1 == b2) by (bit_vector);
    }
}

/// Folding the same bytes keeps distinct states distinct.
proof fn lemma_fold_injective_in_state(x: u64, y: u64, bytes: Seq<u8>)
    requires
        x != y,
    ensures
        fnv1a_fold(x, bytes) != fnv1a_fold(y, bytes),
    decreases bytes.len(),
{
    if bytes.len() > 0 {
        if fnv1a_step(x, bytes[0]) == fnv1a_step(y, bytes[0]) {
            lemma_step_injective_in_state(x, y, bytes[0]);
        }
        lemma_fold_injective_in_state(
            fnv1a_step(x, bytes[0]),
            fnv1a_step(y, bytes[0]),
            bytes.drop_first(),
        );
    }
}

/// Folding two equal-length sequences that differ in exactly one position
/// gives different results, whatever the starting state.
proof fn lemma_fold_single_byte_sensitive(state: u64, s: Seq<u8>, t: Seq<u8>, i: int)
    requires
        s.len() == t.len(),
        0 <= i < s.len(),
        s[i] != t[i],
        forall|j: int| 0 <= j < s.len() && j != i ==> s[j] == t[j],
    ensures
        fnv1a_fold(state, s) != fnv1a_fold(state, t),
    decreases i,
{
    if i == 0 {
        lemma_step_injective_in_byte(state, s[0], t[0]);
        assert(s.drop_first() =~= t.drop_first());
        lemma_fold_injective_in_state(
            fnv1a_step(state, s[0]),
            fnv1a_step(state, t[0]),
            s.drop_first(),
        );
    } else {
        lemma_fold_single_byte_sensitive(
            fnv1a_step(state, s[0]),
            s.drop_first(),
            t.drop_first(),
            i - 1,
        );
    }
}

/// Changing exactly one byte of a sequence changes its FNV-1a digest. This
/// is what lets the header checksum catch any single corrupted byte — in
/// particular any single flipped bit — in the bytes it covers.
pub proof fn lemma_fnv1a_single_byte_sensitive(s: Seq<u8>, t: Seq<u8>, i: int)
    requires
        s.len() == t.len(),
        0 <= i < s.len(),
        s[i] != t[i],
        forall|j: int| 0 <= j < s.len() && j != i ==> s[j] == t[j],
    ensures
        spec_fnv1a_64(s) != spec_fnv1a_64(t),
{
    lemma_fold_single_byte_sensitive(FNV_OFFSET_BASIS, s, t, i);
}

} // verus!

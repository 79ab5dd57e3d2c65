//! Deterministic assignment of the first mover when a game is joined.
//!
//! The two identities are concatenated and hashed with FNV-1a, a stable,
//! well-specified hash; the parity of the bit-reversed hash value (its top
//! bit) picks who moves first. Every replica computes the same answer from
//! the same pair of identities because the whole computation is a pure
//! function of the two byte strings.

use vstd::prelude::*;
use crate::board::{MARK_HOSTER, MARK_JOINER};

verus! {

/// The FNV-1a 64-bit offset basis.
pub const FNV_OFFSET: u64 = 0xcbf29ce484222325;

/// The FNV-1a 64-bit prime.
pub const FNV_PRIME: u64 = 0x100000001b3;

/// One FNV-1a round: fold the byte in, then multiply by the prime.
pub open spec fn fnv1a_step(h: u64, b: u8) -> u64 {
    (h ^ (b as u64)).wrapping_mul(FNV_PRIME)
}

/// The FNV-1a state after absorbing `s`, starting from `h`.
pub open spec fn fnv1a(s: Seq<u8>, h: u64) -> u64
    decreases s.len(),
{
    if s.len() == 0 {
        h
    } else {
        fnv1a(s.drop_first(), fnv1a_step(h, s[0]))
    }
}

/// Absorbing a concatenation is absorbing the parts in order.
pub proof fn lemma_fnv1a_concat(a: Seq<u8>, b: Seq<u8>, h: u64)
    ensures
        fnv1a(a + b, h) == fnv1a(b, fnv1a(a, h)),
    decreases a.len(),
{
    if a.len() == 0 {
        assert(a + b =~= b);
    } else {
        assert((a + b).drop_first() =~= a.drop_first() + b);
        lemma_fnv1a_concat(a.drop_first(), b, fnv1a_step(h, a[0]));
    }
}

/// The turn code of the first mover for a given pair of identities: the
/// hoster when the parity of the bit-reversed hash of `hoster + joiner` is
/// even, the joiner when it is odd.
pub open spec fn spec_first_turn(hoster: Seq<u8>, joiner: Seq<u8>) -> u16 {
    if fnv1a(hoster + joiner, FNV_OFFSET) >> 63 == 0 {
        MARK_HOSTER
    } else {
        MARK_JOINER
    }
}

/// Absorbs a byte string into a running FNV-1a state.
fn fnv1a_accum(bytes: &Vec<u8>, h0: u64) -> (r: u64)
    ensures
        r == fnv1a(bytes@, h0),
{
    let mut h = h0;
    let mut i: usize = 0;
    proof {
        assert(bytes@.skip(0) =~= bytes@);
    }
    while i < bytes.len()
        invariant
            i <= bytes@.len(),
            fnv1a(bytes@, h0) == fnv1a(bytes@.skip(i as int), h),
        decreases bytes@.len() - i,
    {
        proof {
            assert(bytes@.skip(i as int).drop_first() =~= bytes@.skip(i as int + 1));
            assert(bytes@.skip(i as int)[0] == bytes@[i as int]);
        }
        h = (h ^ (bytes[i] as u64)).wrapping_mul(FNV_PRIME);
        i += 1;
    }
    proof {
        assert(bytes@.skip(bytes@.len() as int) =~= Seq::<u8>::empty());
    }
    h
}

/// Computes the first mover's turn code for a pair of identities.
pub fn first_turn(hoster: &Vec<u8>, joiner: &Vec<u8>) -> (t: u16)
    ensures
        t == spec_first_turn(hoster@, joiner@),
        t == MARK_HOSTER || t == MARK_JOINER,
{
    let h1 = fnv1a_accum(hoster, FNV_OFFSET);
    let h = fnv1a_accum(joiner, h1);
    proof {
        lemma_fnv1a_concat(hoster@, joiner@, FNV_OFFSET);
    }
    if h >> 63u64 == 0 {
        MARK_HOSTER
    } else {
        MARK_JOINER
    }
}

/// Join fairness is deterministic: the assigned first mover is a pure
/// function of the two identities, so equal pairs always produce the same
/// assignment, and it is always one of the two participants.
pub proof fn lemma_join_fairness(h1: Seq<u8>, j1: Seq<u8>, h2: Seq<u8>, j2: Seq<u8>)
    requires
        h1 == h2,
        j1 == j2,
    ensures
        spec_first_turn(h1, j1) == spec_first_turn(h2, j2),
        spec_first_turn(h1, j1) == MARK_HOSTER || spec_first_turn(h1, j1) == MARK_JOINER,
{
}

} // verus!

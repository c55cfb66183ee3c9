//! Deterministic identifier derivation.
//!
//! Account ids, note ids, transaction ids and artifact digests are pure
//! functions of the values they identify.  They are all derived with the
//! same folding digest over a sequence of `u64` words; the fold keeps its
//! accumulator below `2^32` so that every step stays in machine range.

use vstd::prelude::*;

verus! {

/// Multiplier of one folding step.
pub const DIGEST_PRIME: u64 = 0x0100_0193;

/// Initial accumulator of the fold.
pub const DIGEST_SEED: u64 = 0x811c_9dc5;

/// Exclusive upper bound of the accumulator.
pub const DIGEST_RANGE: u64 = 0x1_0000_0000;

/// The accumulator invariant of the fold.
pub open spec fn digest_ok(h: u64) -> bool {
    h < DIGEST_RANGE
}

/// One folding step of the digest.
pub open spec fn spec_mix(h: u64, x: u64) -> u64 {
    ((h * DIGEST_PRIME + x) % (DIGEST_RANGE as int)) as u64
}

/// Folds one word into the accumulator.
pub fn mix(h: u64, x: u64) -> (r: u64)
    requires
        digest_ok(h),
    ensures
        r == spec_mix(h, x),
        digest_ok(r),
{
    assert((h as u128) * (DIGEST_PRIME as u128) < 0x0100_0193_0000_0000u128) by (nonlinear_arith)
        requires
            h < 0x1_0000_0000u64,
    ;
    let t: u128 = (h as u128) * (DIGEST_PRIME as u128) + (x as u128);
    let m: u128 = t % (DIGEST_RANGE as u128);
    assert(m < 0x1_0000_0000u128);
    m as u64
}

/// The digest of a sequence of words, folded left to right.
pub open spec fn spec_digest(s: Seq<u64>) -> u64
    decreases s.len(),
{
    if s.len() == 0 {
        DIGEST_SEED
    } else {
        spec_mix(spec_digest(s.drop_last()), s.last())
    }
}

/// The digest never leaves the accumulator range.
pub proof fn lemma_digest_ok(s: Seq<u64>)
    ensures
        digest_ok(spec_digest(s)),
    decreases s.len(),
{
    if s.len() > 0 {
        lemma_digest_ok(s.drop_last());
    }
}

/// Computes the digest of a vector of words.
pub fn digest_words(v: &Vec<u64>) -> (r: u64)
    ensures
        r == spec_digest(v@),
        digest_ok(r),
{
    let mut h: u64 = DIGEST_SEED;
    let mut i: usize = 0;
    while i < v.len()
        invariant
            i <= v.len(),
            digest_ok(h),
            h == spec_digest(v@.take(i as int)),
        decreases v.len() - i,
    {
        let x = v[i];
        h = mix(h, x);
        proof {
            assert(v@.take(i + 1).drop_last() =~= v@.take(i as int));
            assert(v@.take(i + 1).last() == v@[i as int]);
        }
        i = i + 1;
    }
    proof {
        assert(v@.take(v@.len() as int) =~= v@);
    }
    h
}

} // verus!

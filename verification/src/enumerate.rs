//! Bucket enumerators.
//!
//! The store exposes no "list all buckets" query, so a full-set retrieval
//! sweeps a finite, restartable sequence of keys instead. For a hash-prefix
//! strategy with `n` bits that sequence is exactly the decimal renderings of
//! `0` through `2^n - 1`, complete by construction.

use vstd::prelude::*;
use vstd::arithmetic::power2::pow2;
use crate::decimal::dec_digits;
use crate::decimal::u32_to_decimal;
use crate::decimal::lemma_dec_digits_injective;

verus! {

/// The full key sequence of a hash-prefix strategy with `n` bits: the
/// decimal renderings of `0` through `2^n - 1`, in order.
pub open spec fn hash_prefix_keys(n: nat) -> Seq<Seq<char>> {
    Seq::new(pow2(n), |i: int| dec_digits(i as nat))
}

/// The keys that a full-set retrieval must sweep for a bucketing strategy.
/// The sequence is finite and a pure function of the implementing type, so
/// re-evaluating it yields the same keys. Its set must cover every key the
/// strategy can produce; a record whose derived key lies outside it is
/// reachable only by a direct keyed retrieval.
pub trait BucketIterable {
    /// The key sequence, as a mathematical value.
    spec fn buckets_spec() -> Seq<Seq<char>>;

    /// Whether the key sequence is small enough to materialize.
    spec fn buckets_wf() -> bool;

    /// Materializes the key sequence.
    fn buckets() -> (r: Vec<String>)
        requires
            Self::buckets_wf(),
        ensures
            r@.len() == Self::buckets_spec().len(),
            forall|i: int| 0 <= i < r@.len() ==> r@[i]@ == Self::buckets_spec()[i],
    ;
}

/// The key sequence of a hash-prefix strategy with `n_prefix_bits` bits,
/// materialized: `2^n` keys, so the bit count is kept small.
pub fn hash_prefix_bucket_iterator(n_prefix_bits: u32) -> (r: Vec<String>)
    requires
        n_prefix_bits <= 16,
    ensures
        r@.len() == pow2(n_prefix_bits as nat),
        forall|i: int| 0 <= i < r@.len() ==> r@[i]@ == dec_digits(i as nat),
{
    let count: u32 = 1u32 << n_prefix_bits;
    proof {
        vstd::arithmetic::power2::lemma2_to64();
        vstd::arithmetic::power2::lemma_pow2_strictly_increases(n_prefix_bits as nat, 32 as nat);
        vstd::bits::lemma_u32_shl_is_mul(1u32, n_prefix_bits);
    }
    let mut r: Vec<String> = Vec::new();
    let mut i: u32 = 0;
    while i < count
        invariant
            i <= count,
            count == pow2(n_prefix_bits as nat),
            r@.len() == i as nat,
            forall|j: int| 0 <= j < r@.len() ==> r@[j]@ == dec_digits(j as nat),
        decreases count - i,
    {
        r.push(u32_to_decimal(i));
        i = i + 1;
    }
    r
}

/// The enumerator of a hash-prefix strategy with `N` prefix bits.
pub struct HashPrefixBuckets<const N: u32>;

impl<const N: u32> BucketIterable for HashPrefixBuckets<N> {
    open spec fn buckets_spec() -> Seq<Seq<char>> {
        hash_prefix_keys(N as nat)
    }

    open spec fn buckets_wf() -> bool {
        N <= 16
    }

    fn buckets() -> (r: Vec<String>) {
        hash_prefix_bucket_iterator(N)
    }
}

/// Enumerator completeness for a hash-prefix strategy with `n` bits: the
/// enumerator yields exactly `2^n` keys, they are pairwise distinct, and the
/// key of every bucket number below `2^n` is among them.
pub proof fn lemma_hash_prefix_enumerator_complete(n: nat)
    ensures
        hash_prefix_keys(n).len() == pow2(n),
        forall|i: int, j: int|
            0 <= i < j < pow2(n) ==> hash_prefix_keys(n)[i] != hash_prefix_keys(n)[j],
        forall|k: nat| k < pow2(n) ==> hash_prefix_keys(n).contains(dec_digits(k)),
{
    assert forall|i: int, j: int|
        0 <= i < j < pow2(n) implies hash_prefix_keys(n)[i] != hash_prefix_keys(n)[j] by {
        lemma_dec_digits_injective(i as nat, j as nat);
    }
    assert forall|k: nat| k < pow2(n) implies hash_prefix_keys(n).contains(dec_digits(k)) by {
        assert(hash_prefix_keys(n)[k as int] == dec_digits(k));
    }
}

/// A hash-prefix key always lies within the hash-prefix enumerator: the
/// bucket number is reduced modulo `2^n`, so every derivable key is among
/// the enumerator's keys, and a stored record is never unreachable.
pub proof fn lemma_hash_prefix_key_enumerated(s: Seq<char>, n: nat)
    ensures
        hash_prefix_keys(n).contains(crate::keys::hash_prefix_key(s, n)),
{
    vstd::arithmetic::power2::lemma_pow2_pos(n);
    let v = crate::keys::bucket_number(
        crate::keys::multihash_digest_of(crate::keys::base58_decoded(s)),
        n,
    );
    vstd::arithmetic::div_mod::lemma_mod_bound(
        crate::keys::le_u32_of(crate::keys::multihash_digest_of(crate::keys::base58_decoded(s))),
        pow2(n) as int,
    );
    assert(0 <= v < pow2(n));
    assert(hash_prefix_keys(n)[v] == dec_digits(v as nat));
}

} // verus!

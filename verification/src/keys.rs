//! Hash-prefix bucket key derivation.
//!
//! A content address is base58 text that encodes a multihash: a one-byte
//! algorithm code, a one-byte digest length, then the raw digest. The bucket
//! key for a record is the low `n` bits of the first four raw digest bytes
//! (read little-endian), rendered in decimal. The two tag bytes must be
//! stripped first, or records would cluster by hash algorithm rather than by
//! content.

use vstd::prelude::*;
use vstd::arithmetic::power2::pow2;
use rust_base58::FromBase58;

verus! {

/// Why a bucket key could not be derived from a textual content address.
#[derive(Debug, Clone, Copy, PartialEq, Eq, Structural)]
pub enum DerivationError {
    /// The address is not base58 text.
    InvalidBase58,
    /// The decoded bytes are not a well-formed multihash.
    InvalidMultihash,
}

/// The base58 alphabet: digits and letters without `0`, `I`, `O` and `l`.
pub open spec fn is_base58_char(c: char) -> bool {
    ('1' <= c && c <= '9') || ('A' <= c && c <= 'H') || ('J' <= c && c <= 'N') || ('P' <= c && c
        <= 'Z') || ('a' <= c && c <= 'k') || ('m' <= c && c <= 'z')
}

pub open spec fn valid_base58(s: Seq<char>) -> bool {
    forall|i: int| 0 <= i < s.len() ==> is_base58_char(#[trigger] s[i])
}

/// The bytes that base58 text decodes to.
pub uninterp spec fn base58_decoded(s: Seq<char>) -> Seq<u8>;

/// Relies on rust_base58's `FromBase58` for `str`: decodes base58 text to
/// bytes, and fails exactly when some character is outside the base58
/// alphabet.
#[verifier::external_body]
fn base58_decode(s: &str) -> (r: Option<Vec<u8>>)
    ensures
        r is Some <==> valid_base58(s@),
        r matches Some(b) ==> b@ == base58_decoded(s@),
{
    s.from_base58().ok()
}

/// The digest length in bytes for a multihash algorithm code, for the
/// algorithm codes the multihash crate accepts.
pub open spec fn multihash_digest_len(code: u8) -> Option<nat> {
    if code == 0x11 {
        Some(20 as nat)
    } else if code == 0x12 {
        Some(32 as nat)
    } else if code == 0x13 {
        Some(64 as nat)
    } else if code == 0x14 {
        Some(64 as nat)
    } else if code == 0x15 {
        Some(48 as nat)
    } else if code == 0x16 {
        Some(32 as nat)
    } else if code == 0x17 {
        Some(28 as nat)
    } else if code == 0x1A {
        Some(28 as nat)
    } else if code == 0x1B {
        Some(32 as nat)
    } else if code == 0x1C {
        Some(48 as nat)
    } else if code == 0x1D {
        Some(64 as nat)
    } else if code == 0x40 {
        Some(64 as nat)
    } else if code == 0x41 {
        Some(32 as nat)
    } else {
        None
    }
}

/// A well-formed multihash: a known algorithm code, then one length byte,
/// then exactly as many bytes as the algorithm's digest length.
pub open spec fn multihash_wf(b: Seq<u8>) -> bool {
    b.len() >= 1 && match multihash_digest_len(b[0]) {
        Some(n) => b.len() == n + 2,
        None => false,
    }
}

/// The raw digest: the multihash bytes with the two leading tag bytes
/// stripped.
pub open spec fn multihash_digest_of(b: Seq<u8>) -> Seq<u8> {
    b.skip(2)
}

/// Relies on multihash::decode: it accepts exactly the well-formed
/// multihashes and hands back the bytes after the two-byte tag.
#[verifier::external_body]
fn multihash_decode_digest(b: &Vec<u8>) -> (r: Option<Vec<u8>>)
    ensures
        r is Some <==> multihash_wf(b@),
        r matches Some(d) ==> d@ == multihash_digest_of(b@),
{
    multihash::decode(b).ok().map(|m| m.digest.to_vec())
}

/// Every digest length in the multihash table is at least twenty bytes, so a
/// well-formed multihash always has the four bytes the prefix needs.
pub proof fn lemma_multihash_digest_len(b: Seq<u8>)
    ensures
        multihash_wf(b) ==> multihash_digest_of(b).len() >= 20,
{
}

/// The first four digest bytes read as a little-endian 32-bit integer.
pub open spec fn le_u32_of(d: Seq<u8>) -> int {
    d[0] + d[1] * 0x100 + d[2] * 0x10000 + d[3] * 0x1000000
}

/// The bucket number for `n` prefix bits: the low `n` bits of the
/// little-endian value of the first four digest bytes.
pub open spec fn bucket_number(d: Seq<u8>, n: nat) -> int {
    le_u32_of(d) % (pow2(n) as int)
}

/// The derived bucket key, as text, for a hash-prefix strategy over a
/// textual content address.
pub open spec fn hash_prefix_key(s: Seq<char>, n: nat) -> Seq<char> {
    crate::decimal::dec_digits(
        bucket_number(multihash_digest_of(base58_decoded(s)), n) as nat,
    )
}

/// Derives the bucket key from a textual content address: base58-decode,
/// strip the multihash tag, keep the low `n_prefix_bits` bits of the first
/// four digest bytes, and render them in decimal.
pub fn hash_prefix(hash: &str, n_prefix_bits: u32) -> (r: Result<String, DerivationError>)
    requires
        n_prefix_bits <= 32,
    ensures
        match r {
            Ok(key) => valid_base58(hash@) && multihash_wf(base58_decoded(hash@)) && key@
                == hash_prefix_key(hash@, n_prefix_bits as nat),
            Err(DerivationError::InvalidBase58) => !valid_base58(hash@),
            Err(DerivationError::InvalidMultihash) => valid_base58(hash@) && !multihash_wf(
                base58_decoded(hash@),
            ),
        },
{
    let bytes = match base58_decode(hash) {
        Some(b) => b,
        None => {
            return Err(DerivationError::InvalidBase58);
        },
    };
    let digest = match multihash_decode_digest(&bytes) {
        Some(d) => d,
        None => {
            return Err(DerivationError::InvalidMultihash);
        },
    };
    proof {
        lemma_multihash_digest_len(bytes@);
    }
    let value: u32 = digest[0] as u32 + (digest[1] as u32) * 0x100 + (digest[2] as u32) * 0x10000
        + (digest[3] as u32) * 0x1000000;
    let modulus: u64 = 1u64 << n_prefix_bits;
    proof {
        vstd::arithmetic::power2::lemma2_to64();
        if n_prefix_bits < 32 {
            vstd::arithmetic::power2::lemma_pow2_strictly_increases(
                n_prefix_bits as nat,
                32 as nat,
            );
        }
        vstd::bits::lemma_u64_shl_is_mul(1u64, n_prefix_bits as u64);
        assert(modulus == pow2(n_prefix_bits as nat));
        assert(value == le_u32_of(digest@));
    }
    let masked: u64 = (value as u64) % modulus;
    proof {
        assert(masked < modulus);
        assert(masked <= u32::MAX as u64);
    }
    Ok(crate::decimal::u32_to_decimal(masked as u32))
}

/// Derives the bucket key for a record from the textual content address that
/// the content addresser computed for it.
pub fn bucket_id_from_hash_prefix(entry_address: &str, n_prefix_bits: u32) -> (r: Result<
    String,
    DerivationError,
>)
    requires
        n_prefix_bits <= 32,
    ensures
        match r {
            Ok(key) => valid_base58(entry_address@) && multihash_wf(base58_decoded(entry_address@))
                && key@ == hash_prefix_key(entry_address@, n_prefix_bits as nat),
            Err(DerivationError::InvalidBase58) => !valid_base58(entry_address@),
            Err(DerivationError::InvalidMultihash) => valid_base58(entry_address@)
                && !multihash_wf(base58_decoded(entry_address@)),
        },
{
    hash_prefix(entry_address, n_prefix_bits)
}

} // verus!

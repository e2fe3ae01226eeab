use bucket_set::decimal::u32_to_decimal;
use bucket_set::enumerate::BucketIterable;
use bucket_set::enumerate::HashPrefixBuckets;
use bucket_set::enumerate::hash_prefix_bucket_iterator;
use bucket_set::keys::DerivationError;
use bucket_set::keys::bucket_id_from_hash_prefix;
use bucket_set::keys::hash_prefix;
use rust_base58::ToBase58;

fn sha256_multihash_base58(data: &str) -> String {
    let bytes = multihash::encode(multihash::Hash::SHA2256, data.as_bytes()).unwrap();
    bytes.to_base58()
}

#[test]
fn test_hash_prefix() {
    // the hash of this happens to have the leading digest byte 00110110
    let hash = sha256_multihash_base58("test daaataaaa");
    assert_eq!(hash_prefix(&hash, 1).unwrap(), "0"); // 0b0
    assert_eq!(hash_prefix(&hash, 2).unwrap(), "2"); // 0b10
    assert_eq!(hash_prefix(&hash, 3).unwrap(), "6"); // 0b110
    assert_eq!(hash_prefix(&hash, 4).unwrap(), "6"); // 0b0110
}

#[test]
fn hash_prefix_masking_fixture() {
    // a crafted sha2-256 multihash whose digest starts with 0x36 = 0b00110110
    let mut raw: Vec<u8> = vec![0x12, 0x20];
    raw.push(0x36);
    raw.extend(std::iter::repeat(0u8).take(31));
    let hash = raw.to_base58();
    assert_eq!(hash_prefix(&hash, 1).unwrap(), "0");
    assert_eq!(hash_prefix(&hash, 2).unwrap(), "2");
    assert_eq!(hash_prefix(&hash, 3).unwrap(), "6");
    assert_eq!(hash_prefix(&hash, 4).unwrap(), "6");
    // all 32 bits keep the full little-endian value of the first four bytes
    assert_eq!(hash_prefix(&hash, 32).unwrap(), "54");
}

#[test]
fn hash_prefix_is_deterministic() {
    let hash = sha256_multihash_base58("some record content");
    let first = hash_prefix(&hash, 8).unwrap();
    let second = hash_prefix(&hash, 8).unwrap();
    assert_eq!(first, second);
    assert_eq!(
        bucket_id_from_hash_prefix(&hash, 8).unwrap(),
        first
    );
}

#[test]
fn hash_prefix_strips_algorithm_tag() {
    // two multihashes with identical tag bytes but different digests must
    // not land in one bucket just because of the tag
    let a = sha256_multihash_base58("record a");
    let b = sha256_multihash_base58("record b");
    let key_a = hash_prefix(&a, 16).unwrap();
    let key_b = hash_prefix(&b, 16).unwrap();
    assert_ne!(key_a, key_b);
}

#[test]
fn hash_prefix_rejects_invalid_base58() {
    // '0' is not in the base58 alphabet
    assert_eq!(hash_prefix("0cafe", 4), Err(DerivationError::InvalidBase58));
    assert_eq!(hash_prefix("I", 4), Err(DerivationError::InvalidBase58));
}

#[test]
fn hash_prefix_rejects_invalid_multihash() {
    // "z" decodes to the single byte 57, which is no multihash
    assert_eq!(hash_prefix("z", 4), Err(DerivationError::InvalidMultihash));
    // the empty string decodes to no bytes at all
    assert_eq!(hash_prefix("", 4), Err(DerivationError::InvalidMultihash));
    // a sha2-256 tag followed by too few digest bytes
    let truncated = vec![0x12u8, 0x20, 0x36, 0x00].to_base58();
    assert_eq!(
        hash_prefix(&truncated, 4),
        Err(DerivationError::InvalidMultihash)
    );
}

#[test]
fn decimal_rendering_exact_values() {
    assert_eq!(u32_to_decimal(0), "0");
    assert_eq!(u32_to_decimal(7), "7");
    assert_eq!(u32_to_decimal(10), "10");
    assert_eq!(u32_to_decimal(65535), "65535");
    assert_eq!(u32_to_decimal(4294967295), "4294967295");
}

#[test]
fn enumerator_yields_all_keys_once() {
    let keys = hash_prefix_bucket_iterator(3);
    assert_eq!(keys, vec!["0", "1", "2", "3", "4", "5", "6", "7"]);
    for i in 0..keys.len() {
        for j in 0..i {
            assert_ne!(keys[i], keys[j]);
        }
    }
}

#[test]
fn enumerator_zero_bits_single_bucket() {
    let keys = hash_prefix_bucket_iterator(0);
    assert_eq!(keys, vec!["0"]);
}

#[test]
fn enumerator_trait_matches_iterator() {
    let keys = <HashPrefixBuckets<4> as BucketIterable>::buckets();
    assert_eq!(keys.len(), 16);
    assert_eq!(keys, hash_prefix_bucket_iterator(4));
}

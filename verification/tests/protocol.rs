use bucket_set::enumerate::HashPrefixBuckets;
use bucket_set::marker::BucketEntry;
use bucket_set::marker::BucketSetStorable;
use bucket_set::marker::EntryContent;
use bucket_set::marker::FieldKeyedRecord;
use bucket_set::marker::bucket_entry_type_for;
use bucket_set::store::MemoryStore;
use bucket_set::store::retrieve;
use bucket_set::store::retrieve_all;
use bucket_set::store::store;
use bucket_set::validate::BucketWrite;
use bucket_set::validate::validate_bucket_write;

fn record(bucket: &str, payload: &str) -> FieldKeyedRecord {
    FieldKeyedRecord { bucket: bucket.to_string(), payload: payload.to_string() }
}

fn marker_content(entry_type: &str, id: &str) -> EntryContent {
    BucketEntry::new(entry_type.to_string(), id.to_string()).entry()
}

#[test]
fn bucket_entry_type_is_namespaced() {
    assert_eq!(bucket_entry_type_for("post"), "__bucket_for_post");
    assert_eq!(bucket_entry_type_for(""), "__bucket_for_");
}

#[test]
fn marker_is_deterministic() {
    let a = marker_content("post", "6");
    let b = marker_content("post", "6");
    assert!(a == b);
    assert_eq!(a.entry_type, "__bucket_for_post");
    assert_eq!(a.content, "6");
    // distinct record types or keys never share a marker
    assert!(marker_content("post", "6") != marker_content("comment", "6"));
    assert!(marker_content("post", "6") != marker_content("post", "7"));
}

#[test]
fn derive_bucket_id_is_deterministic() {
    let r = record("3", "hello");
    assert_eq!(r.derive_bucket_id(), r.derive_bucket_id());
    let bucket = r.get_bucket("post");
    assert_eq!(bucket.bucket_for, "post");
    assert_eq!(bucket.id, "3");
}

#[test]
fn store_is_idempotent() {
    let mut host = MemoryStore::new();
    let r = record("3", "hello");
    let first = store(&mut host, "post", &r);
    let second = store(&mut host, "post", &r);
    assert!(first == second);
    let members = retrieve(&host, "post", "3".to_string());
    // the address appears exactly once, with the record's type and content
    assert_eq!(members.len(), 1);
    assert!(members[0] == first);
    assert_eq!(members[0].entry_type, "post");
    assert_eq!(members[0].content, "hello");
}

#[test]
fn retrieve_finds_only_the_matching_bucket() {
    let mut host = MemoryStore::new();
    let a = store(&mut host, "post", &record("1", "first"));
    let b = store(&mut host, "post", &record("2", "second"));
    let one = retrieve(&host, "post", "1".to_string());
    assert_eq!(one.len(), 1);
    assert!(one[0] == a);
    let two = retrieve(&host, "post", "2".to_string());
    assert_eq!(two.len(), 1);
    assert!(two[0] == b);
    // same key under another record type is a different bucket
    assert_eq!(retrieve(&host, "comment", "1".to_string()).len(), 0);
}

#[test]
fn empty_bucket_query_returns_empty_set() {
    let host = MemoryStore::new();
    let members = retrieve(&host, "post", "42".to_string());
    assert_eq!(members.len(), 0);
}

#[test]
fn retrieve_all_reaches_every_stored_record() {
    let mut host = MemoryStore::new();
    // bucket keys "0" through "3" lie within a two-bit enumerator
    let a = store(&mut host, "post", &record("0", "zero"));
    let b = store(&mut host, "post", &record("3", "three"));
    let c = store(&mut host, "post", &record("3", "more"));
    let all = retrieve_all::<HashPrefixBuckets<2>>(&host, "post");
    assert_eq!(all.len(), 3);
    assert!(all.iter().any(|e| *e == a));
    assert!(all.iter().any(|e| *e == b));
    assert!(all.iter().any(|e| *e == c));
}

#[test]
fn retrieve_all_deduplicates() {
    let mut host = MemoryStore::new();
    let r = record("1", "once");
    let addr = store(&mut host, "post", &r);
    store(&mut host, "post", &r);
    let all = retrieve_all::<HashPrefixBuckets<1>>(&host, "post");
    assert_eq!(all.len(), 1);
    assert!(all[0] == addr);
}

#[test]
fn validation_permits_only_creation() {
    let entry = marker_content("post", "6");
    assert!(validate_bucket_write(&BucketWrite::Create { entry }).is_ok());
    let modify = BucketWrite::Modify {
        new_entry: marker_content("post", "7"),
        old_entry: marker_content("post", "6"),
    };
    assert_eq!(
        validate_bucket_write(&modify),
        Err("Modifying buckets not permitted".to_string())
    );
    let delete = BucketWrite::Delete { old_entry: marker_content("post", "6") };
    assert_eq!(
        validate_bucket_write(&delete),
        Err("Deleting buckets not permitted".to_string())
    );
}

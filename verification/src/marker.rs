//! Bucket markers.
//!
//! A bucket marker is the indexed representation of "this bucket exists for
//! this record type and key". Its content is the pair of a namespaced entry
//! type (the record type behind a fixed prefix) and the bucket key, so its
//! content address is a pure function of that pair: independent writers that
//! derive the same key for the same record type build the identical marker
//! with no coordination.

use vstd::prelude::*;
use vstd::string::StringExecFns;

verus! {

/// The canonical content of an entry in the store: an entry type name and
/// the entry's serialized content. In the host model the content address of
/// an entry is exactly this pair, since content addressing is injective.
pub struct EntryContent {
    pub entry_type: String,
    pub content: String,
}

/// The mathematical value of an entry: its type name and content as
/// character sequences.
#[verifier::ext_equal]
pub struct EntryView {
    pub entry_type: Seq<char>,
    pub content: Seq<char>,
}

impl View for EntryContent {
    type V = EntryView;

    open spec fn view(&self) -> EntryView {
        EntryView { entry_type: self.entry_type@, content: self.content@ }
    }
}

impl PartialEq for EntryContent {
    fn eq(&self, other: &EntryContent) -> (r: bool) {
        self.entry_type == other.entry_type && self.content == other.content
    }
}

impl vstd::std_specs::cmp::PartialEqSpecImpl for EntryContent {
    open spec fn obeys_eq_spec() -> bool {
        true
    }

    open spec fn eq_spec(&self, other: &EntryContent) -> bool {
        self@ == other@
    }
}

impl EntryContent {
    /// A copy with the same type name and content.
    pub fn duplicate(&self) -> (r: EntryContent)
        ensures
            r@ == self@,
    {
        EntryContent { entry_type: self.entry_type.clone(), content: self.content.clone() }
    }
}

/// The prefix that namespaces a record type's shadow bucket entry type.
pub open spec fn bucket_type_prefix() -> Seq<char> {
    "__bucket_for_"@
}

/// The entry type name of the buckets for a record type.
pub open spec fn bucket_type_spec(entry_type: Seq<char>) -> Seq<char> {
    bucket_type_prefix() + entry_type
}

/// The marker entry for a record type and bucket key.
pub open spec fn marker_view(entry_type: Seq<char>, bucket_id: Seq<char>) -> EntryView {
    EntryView { entry_type: bucket_type_spec(entry_type), content: bucket_id }
}

/// The entry type name under which the buckets for `entry_type` are stored.
pub fn bucket_entry_type_for(entry_type: &str) -> (r: String)
    ensures
        r@ == bucket_type_spec(entry_type@),
{
    let mut s = String::from_str("__bucket_for_");
    s.append(entry_type);
    s
}

/// A bucket marker: the bucket with id `id` for entries of type
/// `bucket_for`.
pub struct BucketEntry {
    pub bucket_for: String,
    pub id: String,
}

impl BucketEntry {
    pub fn new(bucket_for: String, id: String) -> (r: BucketEntry)
        ensures
            r.bucket_for@ == bucket_for@,
            r.id@ == id@,
    {
        BucketEntry { bucket_for, id }
    }

    /// The canonical store entry for this marker.
    pub fn entry(&self) -> (r: EntryContent)
        ensures
            r@ == marker_view(self.bucket_for@, self.id@),
    {
        EntryContent {
            entry_type: bucket_entry_type_for(self.bucket_for.as_str()),
            content: self.id.clone(),
        }
    }
}

/// A record that can be stored in a bucket set: it derives its own bucket
/// key (the field-derived strategy), and it has a canonical serialized
/// content. Both are pure functions of the record, stated by the two spec
/// functions, so derivation never depends on store state.
pub trait BucketSetStorable {
    /// The bucket key of this record, as a mathematical value.
    spec fn bucket_id_spec(&self) -> Seq<char>;

    /// The serialized content of this record, as a mathematical value.
    spec fn serialized_spec(&self) -> Seq<char>;

    /// Derives the bucket key of this record.
    fn derive_bucket_id(&self) -> (r: String)
        ensures
            r@ == self.bucket_id_spec(),
    ;

    /// The canonical serialized content of this record.
    fn serialized(&self) -> (r: String)
        ensures
            r@ == self.serialized_spec(),
    ;

    /// The bucket marker this record belongs to, for a record type.
    fn get_bucket(&self, entry_type: &str) -> (r: BucketEntry)
        ensures
            r.bucket_for@ == entry_type@,
            r.id@ == self.bucket_id_spec(),
    {
        BucketEntry { bucket_for: String::from_str(entry_type), id: self.derive_bucket_id() }
    }
}

/// A record whose bucket key is an explicit field: the simplest
/// field-derived strategy.
pub struct FieldKeyedRecord {
    pub bucket: String,
    pub payload: String,
}

impl BucketSetStorable for FieldKeyedRecord {
    open spec fn bucket_id_spec(&self) -> Seq<char> {
        self.bucket@
    }

    open spec fn serialized_spec(&self) -> Seq<char> {
        self.payload@
    }

    fn derive_bucket_id(&self) -> (r: String) {
        self.bucket.clone()
    }

    fn serialized(&self) -> (r: String) {
        self.payload.clone()
    }
}

/// Marker determinism: the marker entry is the same exactly when record type
/// and bucket key are the same. Two independent writers deriving the same
/// key for the same record type thus compute the identical marker, and two
/// distinct record types or keys never collide on one marker.
pub proof fn lemma_marker_deterministic(
    t1: Seq<char>,
    k1: Seq<char>,
    t2: Seq<char>,
    k2: Seq<char>,
)
    ensures
        marker_view(t1, k1) == marker_view(t2, k2) <==> (t1 == t2 && k1 == k2),
{
    if marker_view(t1, k1) == marker_view(t2, k2) {
        assert(bucket_type_spec(t1).skip(bucket_type_prefix().len() as int) =~= t1);
        assert(bucket_type_spec(t2).skip(bucket_type_prefix().len() as int) =~= t2);
    }
    if t1 == t2 && k1 == k2 {
        assert(marker_view(t1, k1) == marker_view(t2, k2));
    }
}

} // verus!

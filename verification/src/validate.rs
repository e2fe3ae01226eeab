//! The validation rule for bucket marker writes.
//!
//! Markers are immutable once created: creation always passes (a duplicate
//! create of identical content is a no-op for the store), while modification
//! and deletion are always rejected. A marker's content is its key, so
//! modifying it is meaningless, and deleting it would orphan membership
//! links.

use vstd::prelude::*;
use vstd::string::StringExecFns;
use crate::marker::EntryContent;

verus! {

/// A proposed write to a bucket marker address.
pub enum BucketWrite {
    /// Create the marker entry.
    Create { entry: EntryContent },
    /// Replace an existing marker entry with new content.
    Modify { new_entry: EntryContent, old_entry: EntryContent },
    /// Delete an existing marker entry.
    Delete { old_entry: EntryContent },
}

/// Validates a proposed write to a bucket marker: only creation is
/// permitted, whatever the contents proposed.
pub fn validate_bucket_write(write: &BucketWrite) -> (r: Result<(), String>)
    ensures
        r is Ok <==> write is Create,
        write is Modify ==> (r matches Err(m) && m@ == "Modifying buckets not permitted"@),
        write is Delete ==> (r matches Err(m) && m@ == "Deleting buckets not permitted"@),
{
    match write {
        BucketWrite::Create { entry: _ } => Ok(()),
        BucketWrite::Modify { new_entry: _, old_entry: _ } => Err(
            String::from_str("Modifying buckets not permitted"),
        ),
        BucketWrite::Delete { old_entry: _ } => Err(
            String::from_str("Deleting buckets not permitted"),
        ),
    }
}

} // verus!

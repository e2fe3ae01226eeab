//! The store and retrieve protocol.
//!
//! The host store is content-addressed and append-only: entries are created
//! idempotently, and tagged links are added between addresses. Storing a
//! record creates its bucket marker (lazily, on first use), creates the
//! record entry, and links the record under the marker; retrieval recomputes
//! the marker address — a pure function, no lookup — and queries the links
//! leaving it. `MemoryStore` realizes that host contract in memory, with an
//! entry addressed by its own canonical content, since content addressing is
//! injective on content.

use vstd::prelude::*;
use vstd::string::StringExecFns;
use crate::marker::BucketEntry;
use crate::marker::BucketSetStorable;
use crate::marker::EntryContent;
use crate::marker::EntryView;
use crate::marker::marker_view;
use crate::enumerate::BucketIterable;

verus! {

/// The tag on every membership link from a bucket marker to a record.
pub open spec fn contains_tag() -> Seq<char> {
    "contains"@
}

fn contains_tag_string() -> (r: String)
    ensures
        r@ == contains_tag(),
{
    String::from_str("contains")
}

/// A tagged, directed link from one content address to another.
pub struct LinkRecord {
    pub base: EntryContent,
    pub target: EntryContent,
    pub tag: String,
}

/// The mathematical value of a link.
#[verifier::ext_equal]
pub struct LinkView {
    pub base: EntryView,
    pub target: EntryView,
    pub tag: Seq<char>,
}

impl View for LinkRecord {
    type V = LinkView;

    open spec fn view(&self) -> LinkView {
        LinkView { base: self.base@, target: self.target@, tag: self.tag@ }
    }
}

/// The state of the host store: which entries exist, and which links. Links
/// form a set, so adding an identical link twice changes nothing.
#[verifier::ext_equal]
pub struct StoreView {
    pub entries: Set<EntryView>,
    pub links: Set<LinkView>,
}

impl StoreView {
    pub open spec fn empty() -> StoreView {
        StoreView { entries: Set::empty(), links: Set::empty() }
    }
}

/// The members of a bucket: the targets of the `contains` links leaving its
/// marker.
pub open spec fn bucket_members(s: StoreView, mk: EntryView) -> Set<EntryView> {
    Set::new(
        |t: EntryView| s.links.contains(LinkView { base: mk, target: t, tag: contains_tag() }),
    )
}

/// What one store call does to the host: afterwards the marker and record
/// entries exist, and a membership link runs from the marker to the record.
pub open spec fn store_effect(s: StoreView, mk: EntryView, record: EntryView) -> StoreView {
    StoreView {
        entries: s.entries.insert(mk).insert(record),
        links: s.links.insert(LinkView { base: mk, target: record, tag: contains_tag() }),
    }
}

/// The members of every bucket whose key is in `keys`, for one record type.
pub open spec fn swept_members(
    s: StoreView,
    entry_type: Seq<char>,
    keys: Seq<Seq<char>>,
) -> Set<EntryView> {
    Set::new(
        |t: EntryView|
            exists|k: int|
                0 <= k < keys.len() && bucket_members(
                    s,
                    marker_view(entry_type, keys[k]),
                ).contains(t),
    )
}

/// Whether `r` lists an entry whose value is `t`.
pub open spec fn listed(r: Seq<EntryContent>, t: EntryView) -> bool {
    exists|j: int| 0 <= j < r.len() && r[j]@ == t
}

/// Whether one of the first `n` entries of `r` has the value `t`.
spec fn listed_below(r: Seq<EntryContent>, n: int, t: EntryView) -> bool {
    exists|j: int| 0 <= j < n && r[j]@ == t
}

/// Whether one of the first `n` links has this base, tag and target.
spec fn linked_below(
    links: Seq<LinkRecord>,
    n: int,
    base: EntryView,
    tag: Seq<char>,
    t: EntryView,
) -> bool {
    exists|l: int|
        0 <= l < n && links[l]@.base == base && links[l]@.tag == tag && links[l]@.target == t
}

/// Whether one of the first `n` keys names a bucket containing `t`.
spec fn swept_below(
    s: StoreView,
    entry_type: Seq<char>,
    keys: Seq<Seq<char>>,
    n: int,
    t: EntryView,
) -> bool {
    exists|k: int| 0 <= k < n && bucket_members(s, marker_view(entry_type, keys[k])).contains(t)
}

/// An in-memory host store offering what the indexing layer requires of its
/// host: content-addressed idempotent entry creation, additive tagged link
/// creation, and link queries.
pub struct MemoryStore {
    entries: Vec<EntryContent>,
    links: Vec<LinkRecord>,
}

impl View for MemoryStore {
    type V = StoreView;

    closed spec fn view(&self) -> StoreView {
        StoreView {
            entries: Set::new(
                |e: EntryView|
                    exists|i: int| 0 <= i < self.entries@.len() && self.entries@[i]@ == e,
            ),
            links: Set::new(
                |l: LinkView| exists|i: int| 0 <= i < self.links@.len() && self.links@[i]@ == l,
            ),
        }
    }
}

fn contains_entry(v: &Vec<EntryContent>, e: &EntryContent) -> (b: bool)
    ensures
        b <==> listed(v@, e@),
{
    let mut i: usize = 0;
    while i < v.len()
        invariant
            i <= v@.len(),
            forall|j: int| 0 <= j < i ==> v@[j]@ != e@,
        decreases v@.len() - i,
    {
        if v[i] == *e {
            return true;
        }
        i = i + 1;
    }
    false
}

impl MemoryStore {
    /// A fresh host store holding no entries and no links.
    pub fn new() -> (r: MemoryStore)
        ensures
            r@ == StoreView::empty(),
    {
        let r = MemoryStore { entries: Vec::new(), links: Vec::new() };
        proof {
            assert(r@.entries =~= Set::<EntryView>::empty());
            assert(r@.links =~= Set::<LinkView>::empty());
            assert(r@ =~= StoreView::empty());
        }
        r
    }

    /// Creates an entry and returns its address. Creation is idempotent on
    /// identical content: afterwards the entry exists, whether or not it
    /// already did.
    pub fn create_entry(&mut self, entry: &EntryContent) -> (addr: EntryContent)
        ensures
            final(self)@.entries == old(self)@.entries.insert(entry@),
            final(self)@.links == old(self)@.links,
            addr@ == entry@,
    {
        self.entries.push(entry.duplicate());
        proof {
            assert forall|e: EntryView| self@.entries.contains(e) implies old(
                self,
            )@.entries.insert(entry@).contains(e) by {
                let i = choose|i: int| 0 <= i < self.entries@.len() && self.entries@[i]@ == e;
                if i < old(self).entries@.len() {
                    assert(old(self)@.entries.contains(e));
                }
            }
            assert forall|e: EntryView| old(self)@.entries.insert(entry@).contains(
                e,
            ) implies self@.entries.contains(e) by {
                if e == entry@ {
                    assert(self.entries@[self.entries@.len() - 1]@ == e);
                } else {
                    let i = choose|i: int|
                        0 <= i < old(self).entries@.len() && old(self).entries@[i]@ == e;
                    assert(self.entries@[i]@ == e);
                }
            }
            assert(self@.entries =~= old(self)@.entries.insert(entry@));
            assert forall|l: LinkView| self@.links.contains(l) implies old(self)@.links.contains(
                l,
            ) by {
                let i = choose|i: int| 0 <= i < self.links@.len() && self.links@[i]@ == l;
                assert(old(self).links@[i]@ == l);
            }
            assert forall|l: LinkView| old(self)@.links.contains(l) implies self@.links.contains(
                l,
            ) by {
                let i = choose|i: int| 0 <= i < old(self).links@.len() && old(self).links@[i]@ == l;
                assert(self.links@[i]@ == l);
            }
            assert(self@.links =~= old(self)@.links);
        }
        entry.duplicate()
    }

    /// Creates a tagged link from one address to another. Link creation is
    /// additive: it never touches entry content, and two callers linking
    /// different records under one marker never contend.
    pub fn create_link(&mut self, base: &EntryContent, target: &EntryContent, tag: &String)
        ensures
            final(self)@.links == old(self)@.links.insert(
                LinkView { base: base@, target: target@, tag: tag@ },
            ),
            final(self)@.entries == old(self)@.entries,
    {
        self.links.push(
            LinkRecord { base: base.duplicate(), target: target.duplicate(), tag: tag.clone() },
        );
        proof {
            let added = LinkView { base: base@, target: target@, tag: tag@ };
            assert forall|l: LinkView| self@.links.contains(l) implies old(
                self,
            )@.links.insert(added).contains(l) by {
                let i = choose|i: int| 0 <= i < self.links@.len() && self.links@[i]@ == l;
                if i < old(self).links@.len() {
                    assert(old(self)@.links.contains(l));
                } else {
                    assert(l =~= added);
                }
            }
            assert forall|l: LinkView| old(self)@.links.insert(added).contains(
                l,
            ) implies self@.links.contains(l) by {
                if l == added {
                    assert(self.links@[self.links@.len() - 1]@ =~= added);
                } else {
                    let i = choose|i: int| 0 <= i < old(self).links@.len() && old(self).links@[i]@ == l;
                    assert(self.links@[i]@ == l);
                }
            }
            assert(self@.links =~= old(self)@.links.insert(added));
            assert forall|e: EntryView| self@.entries.contains(e) implies old(
                self,
            )@.entries.contains(e) by {
                let i = choose|i: int| 0 <= i < self.entries@.len() && self.entries@[i]@ == e;
                assert(old(self).entries@[i]@ == e);
            }
            assert forall|e: EntryView| old(self)@.entries.contains(
                e,
            ) implies self@.entries.contains(e) by {
                let i = choose|i: int|
                    0 <= i < old(self).entries@.len() && old(self).entries@[i]@ == e;
                assert(self.entries@[i]@ == e);
            }
            assert(self@.entries =~= old(self)@.entries);
        }
    }

    /// Lists the targets of the links with this base and tag, each exactly
    /// once, even if the host holds duplicate identical links. An address
    /// with no links yields an empty result, never an error.
    pub fn query_links(&self, base: &EntryContent, tag: &String) -> (r: Vec<EntryContent>)
        ensures
            forall|j: int, k: int| 0 <= j < k < r@.len() ==> r@[j]@ != r@[k]@,
            forall|t: EntryView|
                #[trigger] listed(r@, t) <==> self@.links.contains(
                    LinkView { base: base@, target: t, tag: tag@ },
                ),
    {
        let mut r: Vec<EntryContent> = Vec::new();
        let mut i: usize = 0;
        while i < self.links.len()
            invariant
                i <= self.links@.len(),
                forall|j: int, k: int| 0 <= j < k < r@.len() ==> r@[j]@ != r@[k]@,
                forall|t: EntryView|
                    #[trigger] listed(r@, t) <==> linked_below(
                        self.links@,
                        i as int,
                        base@,
                        tag@,
                        t,
                    ),
            decreases self.links@.len() - i,
        {
            let ghost r0 = r@;
            let matches_base = self.links[i].base == *base;
            let matches_tag = self.links[i].tag == *tag;
            if matches_base && matches_tag {
                if !contains_entry(&r, &self.links[i].target) {
                    r.push(self.links[i].target.duplicate());
                }
            }
            proof {
                assert forall|t: EntryView| #[trigger]
                    listed(r@, t) <==> linked_below(
                        self.links@,
                        i as int + 1,
                        base@,
                        tag@,
                        t,
                    ) by {
                    if listed(r@, t) {
                        let j = choose|j: int| 0 <= j < r@.len() && r@[j]@ == t;
                        if j < r0.len() {
                            assert(r0[j]@ == t);
                            assert(listed(r0, t));
                            let l = choose|l: int|
                                0 <= l < i && self.links@[l]@.base == base@ && self.links@[l]@.tag
                                    == tag@ && self.links@[l]@.target == t;
                            assert(linked_below(self.links@, i as int + 1, base@, tag@, t));
                        } else {
                            assert(t == self.links@[i as int]@.target);
                            assert(linked_below(self.links@, i as int + 1, base@, tag@, t));
                        }
                    }
                    if linked_below(self.links@, i as int + 1, base@, tag@, t) {
                        let l = choose|l: int|
                            0 <= l < i as int + 1 && self.links@[l]@.base == base@
                                && self.links@[l]@.tag == tag@ && self.links@[l]@.target == t;
                        if l < i as int {
                            assert(linked_below(self.links@, i as int, base@, tag@, t));
                            assert(listed(r0, t));
                            let j = choose|j: int| 0 <= j < r0.len() && r0[j]@ == t;
                            assert(r@[j]@ == t);
                            assert(listed(r@, t));
                        } else {
                            assert(matches_base && matches_tag);
                            if listed(r0, t) {
                                let j = choose|j: int| 0 <= j < r0.len() && r0[j]@ == t;
                                assert(r@[j]@ == t);
                                assert(listed(r@, t));
                            } else {
                                assert(r@[r@.len() - 1]@ == t);
                                assert(listed(r@, t));
                            }
                        }
                    }
                }
            }
            i = i + 1;
        }
        proof {
            assert forall|t: EntryView| #[trigger]
                listed(r@, t) <==> self@.links.contains(
                    LinkView { base: base@, target: t, tag: tag@ },
                ) by {
                if listed(r@, t) {
                    let l = choose|l: int|
                        0 <= l < self.links@.len() && self.links@[l]@.base == base@
                            && self.links@[l]@.tag == tag@ && self.links@[l]@.target == t;
                    assert(self.links@[l]@ =~= LinkView { base: base@, target: t, tag: tag@ });
                    assert(self@.links.contains(LinkView { base: base@, target: t, tag: tag@ }));
                }
                if self@.links.contains(LinkView { base: base@, target: t, tag: tag@ }) {
                    let l = choose|l: int|
                        0 <= l < self.links@.len() && self.links@[l]@ == (LinkView {
                            base: base@,
                            target: t,
                            tag: tag@,
                        });
                    assert(self.links@[l]@.base == base@ && self.links@[l]@.tag == tag@
                        && self.links@[l]@.target == t);
                    assert(linked_below(self.links@, self.links@.len() as int, base@, tag@, t));
                }
            }
        }
        r
    }
}

/// Stores a record: derives its bucket key, creates the bucket marker
/// (idempotently, on first use of the bucket), creates the record entry, and
/// links the record under the marker. Returns the record's address — a pure
/// function of record type and content, so storing the same record twice
/// returns the same address both times.
pub fn store<T: BucketSetStorable>(
    host: &mut MemoryStore,
    entry_type: &str,
    entry_data: &T,
) -> (addr: EntryContent)
    ensures
        final(host)@ == store_effect(
            old(host)@,
            marker_view(entry_type@, entry_data.bucket_id_spec()),
            EntryView { entry_type: entry_type@, content: entry_data.serialized_spec() },
        ),
        addr@ == (EntryView { entry_type: entry_type@, content: entry_data.serialized_spec() }),
{
    let bucket = entry_data.get_bucket(entry_type);
    let marker = bucket.entry();
    let bucket_address = host.create_entry(&marker);
    let entry = EntryContent {
        entry_type: String::from_str(entry_type),
        content: entry_data.serialized(),
    };
    let entry_address = host.create_entry(&entry);
    let tag = contains_tag_string();
    host.create_link(&bucket_address, &entry_address, &tag);
    proof {
        assert(host@ =~= store_effect(
            old(host)@,
            marker_view(entry_type@, entry_data.bucket_id_spec()),
            EntryView { entry_type: entry_type@, content: entry_data.serialized_spec() },
        ));
    }
    entry_address
}

/// Retrieves the addresses of every record stored under one bucket key. The
/// marker address is recomputed — a pure function, no lookup — and the
/// `contains` links leaving it are queried. A never-populated key yields an
/// empty result, not an error; each address is listed exactly once.
pub fn retrieve(host: &MemoryStore, entry_type: &str, bucket_id: String) -> (r: Vec<EntryContent>)
    ensures
        forall|j: int, k: int| 0 <= j < k < r@.len() ==> r@[j]@ != r@[k]@,
        forall|t: EntryView|
            #[trigger] listed(r@, t) <==> bucket_members(
                host@,
                marker_view(entry_type@, bucket_id@),
            ).contains(t),
{
    let marker = BucketEntry::new(String::from_str(entry_type), bucket_id).entry();
    let tag = contains_tag_string();
    host.query_links(&marker, &tag)
}

/// Retrieves the addresses in every bucket that the strategy's enumerator
/// yields, as one deduplicated union.
pub fn retrieve_all<T: BucketIterable>(host: &MemoryStore, entry_type: &str) -> (r: Vec<EntryContent>)
    requires
        T::buckets_wf(),
    ensures
        forall|j: int, k: int| 0 <= j < k < r@.len() ==> r@[j]@ != r@[k]@,
        forall|t: EntryView|
            #[trigger] listed(r@, t) <==> swept_members(
                host@,
                entry_type@,
                T::buckets_spec(),
            ).contains(t),
{
    let keys = T::buckets();
    let mut r: Vec<EntryContent> = Vec::new();
    let mut i: usize = 0;
    while i < keys.len()
        invariant
            i <= keys@.len(),
            keys@.len() == T::buckets_spec().len(),
            forall|x: int| 0 <= x < keys@.len() ==> keys@[x]@ == T::buckets_spec()[x],
            forall|j: int, k: int| 0 <= j < k < r@.len() ==> r@[j]@ != r@[k]@,
            forall|t: EntryView|
                #[trigger] listed(r@, t) <==> swept_below(
                    host@,
                    entry_type@,
                    T::buckets_spec(),
                    i as int,
                    t,
                ),
        decreases keys@.len() - i,
    {
        let bucket = retrieve(host, entry_type, keys[i].clone());
        let mut j: usize = 0;
        while j < bucket.len()
            invariant
                j <= bucket@.len(),
                i < keys@.len(),
                keys@.len() == T::buckets_spec().len(),
                keys@[i as int]@ == T::buckets_spec()[i as int],
                forall|t: EntryView|
                    #[trigger] listed(bucket@, t) <==> bucket_members(
                        host@,
                        marker_view(entry_type@, T::buckets_spec()[i as int]),
                    ).contains(t),
                forall|p: int, q: int| 0 <= p < q < r@.len() ==> r@[p]@ != r@[q]@,
                forall|t: EntryView|
                    #[trigger] listed(r@, t) <==> (swept_below(
                        host@,
                        entry_type@,
                        T::buckets_spec(),
                        i as int,
                        t,
                    ) || listed_below(bucket@, j as int, t)),
            decreases bucket@.len() - j,
        {
            let ghost r0 = r@;
            if !contains_entry(&r, &bucket[j]) {
                r.push(bucket[j].duplicate());
            }
            proof {
                assert forall|t: EntryView| #[trigger]
                    listed(r@, t) <==> (swept_below(
                        host@,
                        entry_type@,
                        T::buckets_spec(),
                        i as int,
                        t,
                    ) || listed_below(bucket@, j as int + 1, t)) by {
                    if listed(r@, t) {
                        let p = choose|p: int| 0 <= p < r@.len() && r@[p]@ == t;
                        if p < r0.len() {
                            assert(r0[p]@ == t);
                            assert(listed(r0, t));
                            if listed_below(bucket@, j as int, t) {
                                let x = choose|x: int| 0 <= x < j && bucket@[x]@ == t;
                                assert(listed_below(bucket@, j as int + 1, t));
                            }
                        } else {
                            assert(t == bucket@[j as int]@);
                            assert(listed_below(bucket@, j as int + 1, t));
                        }
                    }
                    if swept_below(host@, entry_type@, T::buckets_spec(), i as int, t) {
                        assert(listed(r0, t));
                        let p = choose|p: int| 0 <= p < r0.len() && r0[p]@ == t;
                        assert(r@[p]@ == t);
                        assert(listed(r@, t));
                    }
                    if listed_below(bucket@, j as int + 1, t) {
                        let x = choose|x: int| 0 <= x < j as int + 1 && bucket@[x]@ == t;
                        if x < j as int {
                            assert(listed_below(bucket@, j as int, t));
                            assert(listed(r0, t));
                            let p = choose|p: int| 0 <= p < r0.len() && r0[p]@ == t;
                            assert(r@[p]@ == t);
                            assert(listed(r@, t));
                        } else {
                            if listed(r0, bucket@[j as int]@) {
                                let p = choose|p: int|
                                    0 <= p < r0.len() && r0[p]@ == bucket@[j as int]@;
                                assert(r@[p]@ == t);
                                assert(listed(r@, t));
                            } else {
                                assert(r@[r@.len() - 1]@ == t);
                                assert(listed(r@, t));
                            }
                        }
                    }
                }
            }
            j = j + 1;
        }
        proof {
            assert forall|t: EntryView| #[trigger]
                listed(r@, t) <==> swept_below(
                    host@,
                    entry_type@,
                    T::buckets_spec(),
                    i as int + 1,
                    t,
                ) by {
                if listed(r@, t) {
                    if listed_below(bucket@, bucket@.len() as int, t) {
                        assert(listed(bucket@, t));
                        assert(bucket_members(
                            host@,
                            marker_view(entry_type@, T::buckets_spec()[i as int]),
                        ).contains(t));
                    }
                }
                if swept_below(host@, entry_type@, T::buckets_spec(), i as int + 1, t) {
                    let k = choose|k: int|
                        0 <= k < i as int + 1 && bucket_members(
                            host@,
                            marker_view(entry_type@, T::buckets_spec()[k]),
                        ).contains(t);
                    if k == i as int {
                        assert(listed(bucket@, t));
                        assert(listed_below(bucket@, bucket@.len() as int, t));
                    } else {
                        assert(swept_below(host@, entry_type@, T::buckets_spec(), i as int, t));
                    }
                }
            }
        }
        i = i + 1;
    }
    proof {
        assert forall|t: EntryView| #[trigger]
            listed(r@, t) <==> swept_members(host@, entry_type@, T::buckets_spec()).contains(
                t,
            ) by {
            if swept_members(host@, entry_type@, T::buckets_spec()).contains(t) {
                assert(swept_below(
                    host@,
                    entry_type@,
                    T::buckets_spec(),
                    T::buckets_spec().len() as int,
                    t,
                ));
            }
        }
    }
    r
}

/// Idempotent store: a second identical store leaves the host exactly as
/// the first left it. Duplicate creates of identical content and duplicate
/// identical links change nothing.
pub proof fn lemma_store_idempotent(s: StoreView, mk: EntryView, record: EntryView)
    ensures
        store_effect(store_effect(s, mk, record), mk, record) == store_effect(s, mk, record),
{
    assert(store_effect(store_effect(s, mk, record), mk, record).entries =~= store_effect(
        s,
        mk,
        record,
    ).entries);
    assert(store_effect(store_effect(s, mk, record), mk, record).links =~= store_effect(
        s,
        mk,
        record,
    ).links);
    assert(store_effect(store_effect(s, mk, record), mk, record) =~= store_effect(s, mk, record));
}

/// A stored record is a member of its own bucket.
pub proof fn lemma_store_then_retrieve(
    s: StoreView,
    entry_type: Seq<char>,
    bucket_id: Seq<char>,
    record: EntryView,
)
    ensures
        bucket_members(
            store_effect(s, marker_view(entry_type, bucket_id), record),
            marker_view(entry_type, bucket_id),
        ).contains(record),
{
}

/// Completeness: after a store, a full-set retrieval over an enumerator
/// whose keys include the record's bucket key reaches the record's address.
pub proof fn lemma_store_then_retrieve_all_complete(
    s: StoreView,
    entry_type: Seq<char>,
    bucket_id: Seq<char>,
    record: EntryView,
    keys: Seq<Seq<char>>,
)
    requires
        keys.contains(bucket_id),
    ensures
        swept_members(
            store_effect(s, marker_view(entry_type, bucket_id), record),
            entry_type,
            keys,
        ).contains(record),
{
    let k = choose|k: int| 0 <= k < keys.len() && keys[k] == bucket_id;
    assert(bucket_members(
        store_effect(s, marker_view(entry_type, bucket_id), record),
        marker_view(entry_type, keys[k]),
    ).contains(record));
}

/// Completeness for the hash-prefix strategy, with no caller obligation:
/// after a store under the key that hash-prefix derivation yields for the
/// record's content address, a full sweep of the hash-prefix enumerator
/// with the same bit count reaches the record.
pub proof fn lemma_hash_prefix_store_complete(
    s: StoreView,
    entry_type: Seq<char>,
    address_text: Seq<char>,
    record: EntryView,
    n: nat,
)
    ensures
        swept_members(
            store_effect(
                s,
                marker_view(entry_type, crate::keys::hash_prefix_key(address_text, n)),
                record,
            ),
            entry_type,
            crate::enumerate::hash_prefix_keys(n),
        ).contains(record),
{
    crate::enumerate::lemma_hash_prefix_key_enumerated(address_text, n);
    lemma_store_then_retrieve_all_complete(
        s,
        entry_type,
        crate::keys::hash_prefix_key(address_text, n),
        record,
        crate::enumerate::hash_prefix_keys(n),
    );
}

/// A never-populated bucket is empty: in a store holding no links, keyed
/// retrieval of any bucket yields the empty set.
pub proof fn lemma_empty_store_bucket(entry_type: Seq<char>, bucket_id: Seq<char>)
    ensures
        bucket_members(StoreView::empty(), marker_view(entry_type, bucket_id)) == Set::<
            EntryView,
        >::empty(),
{
    assert(bucket_members(StoreView::empty(), marker_view(entry_type, bucket_id))
        =~= Set::<EntryView>::empty());
}

} // verus!

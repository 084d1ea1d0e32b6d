//! The cache of decoded blocks: it keeps what there is room for, and never serves what is stale.
use quick_cache::sync::Cache;
use slatedb::db_cache::{CachedEntry, CachedKey};
use vstd::prelude::*;

verus! {

/// How many bytes the cached entries may have together.
pub const CACHE_BYTES: u64 = 4_194_304;

/// How many entries the cache is laid out for.
pub const ESTIMATED_ENTRIES: usize = 4096;

/// Up to how many bytes the cache forgets nothing. A cache of this layout is parted into at most 128
/// shards, and each keeps 97 in 100 of its share of the bytes for what is in use.
pub const SURE_BYTES: u64 = 31_784;

/// `slatedb::db_cache::CachedKey`: what an entry is found by.
#[verifier::external_type_specification]
#[verifier::external_body]
pub struct ExCachedKey(CachedKey);

/// `slatedb::db_cache::CachedEntry`: a decoded piece of a table.
#[verifier::external_type_specification]
#[verifier::external_body]
pub struct ExCachedEntry(CachedEntry);

/// `slatedb::db_cache::CachedEntry::size`, which counts the bytes of an entry. Nothing is said of the
/// count, which for some entries depends on the machine.
pub assume_specification[ CachedEntry::size ](entry: &CachedEntry) -> (bytes: usize);

/// Whether so many bytes are what `slatedb::db_cache::CachedEntry::size` counts of an entry.
pub open spec fn is_size(entry: CachedEntry, bytes: nat) -> bool {
    exists|count: usize|
        #[trigger] call_ensures(CachedEntry::size, (&entry,), count) && count == bytes
}

/// Weighs a cached entry by its bytes.
#[derive(Clone, Copy)]
pub struct EntryWeighter;

impl quick_cache::Weighter<CachedKey, CachedEntry> for EntryWeighter {
    /// The bytes of the entry.
    fn weight(&self, _key: &CachedKey, value: &CachedEntry) -> (weight: u64)
        ensures
            is_size(*value, weight as nat),
    {
        value.size() as u64
    }
}

/// A `quick_cache::sync::Cache`, which forgets entries as it fills up, with the weights of its
/// entries.
#[verifier::external_body]
pub struct Entries {
    cache: Cache<CachedKey, CachedEntry, EntryWeighter>,
}

/// What a cache holds.
pub uninterp spec fn cached(entries: Entries) -> Map<CachedKey, CachedEntry>;

/// No entries.
pub open spec fn nothing() -> Map<CachedKey, CachedEntry> {
    Map::empty()
}

/// The number of entries and of bytes that a cache was made for.
pub uninterp spec fn made_for(entries: Entries) -> (usize, u64);

/// The bytes of all entries that a cache holds, as `quick_cache::sync::Cache::weight` adds them up.
pub uninterp spec fn held_bytes(entries: Entries) -> nat;

/// Whether a cache may hold `after` once an entry has been put into one that held `before`: nothing
/// but the new entry under its key and old entries under other keys.
pub open spec fn may_follow(
    before: Map<CachedKey, CachedEntry>,
    after: Map<CachedKey, CachedEntry>,
    key: CachedKey,
    value: CachedEntry,
) -> bool {
    after.submap_of(before.insert(key, value))
}

/// Calls `quick_cache::sync::Cache::with_weighter`. The cache holds nothing, of no bytes. How it
/// parts the bytes that it was made for among its shards, whose number depends on the machine, is
/// left unsaid.
#[verifier::external_body]
fn new_cache(estimated_entries: usize, bytes: u64) -> (entries: Entries)
    ensures
        cached(entries) == nothing(),
        made_for(entries) == (estimated_entries, bytes),
        held_bytes(entries) == 0,
{
    Entries { cache: Cache::with_weighter(estimated_entries, bytes, EntryWeighter) }
}

/// Calls `quick_cache::sync::Cache::get`, which gives a copy of the entry under the key, where the
/// cache holds one.
#[verifier::external_body]
fn get_entry(entries: &Entries, key: &CachedKey) -> (entry: Option<CachedEntry>)
    ensures
        entry == (if cached(*entries).contains_key(*key) {
            Some(cached(*entries)[*key])
        } else {
            None
        }),
{
    entries.cache.get(key)
}

/// Calls `quick_cache::sync::Cache::insert`. Afterwards the cache holds nothing but the new entry
/// under its key and entries that it held under other keys. Of a cache with the layout above: its
/// bytes grow by no more than those of the new entry and stay within its limit, and while they stay
/// within what every shard has room for, it takes the new entry in and forgets none. Which entries
/// it forgets beyond that, the new one not excepted, is left unsaid. All of this goes by sizes that
/// do not change while an entry is held, as the cache asks of its weights.
#[verifier::external_body]
fn insert_entry(entries: &mut Entries, key: CachedKey, value: CachedEntry)
    ensures
        may_follow(cached(*old(entries)), cached(*final(entries)), key, value),
        made_for(*final(entries)) == made_for(*old(entries)),
        made_for(*old(entries)) == (ESTIMATED_ENTRIES, CACHE_BYTES) ==> held_bytes(*final(entries))
            <= CACHE_BYTES,
        made_for(*old(entries)) == (ESTIMATED_ENTRIES, CACHE_BYTES) ==> (exists|bytes: nat|
            {
                &&& #[trigger] is_size(value, bytes)
                &&& held_bytes(*final(entries)) <= held_bytes(*old(entries)) + bytes
                &&& held_bytes(*old(entries)) + bytes <= SURE_BYTES ==> cached(*final(entries))
                    == cached(*old(entries)).insert(key, value)
            }),
{
    entries.cache.insert(key, value);
}

/// Calls `quick_cache::sync::Cache::remove`, which takes out the entry under the key, where the
/// cache holds one, and nothing else. The bytes that the cache holds do not grow.
#[verifier::external_body]
fn remove_entry(entries: &mut Entries, key: &CachedKey)
    ensures
        cached(*final(entries)) == cached(*old(entries)).remove(*key),
        made_for(*final(entries)) == made_for(*old(entries)),
        held_bytes(*final(entries)) <= held_bytes(*old(entries)),
{
    entries.cache.remove(key);
}

/// Calls `quick_cache::sync::Cache::len`, which counts the entries that the cache holds.
#[verifier::external_body]
fn count_entries(entries: &Entries) -> (count: usize)
    ensures
        count == cached(*entries).len(),
{
    entries.cache.len()
}

/// The cache of a database.
pub struct QuickDbCache {
    entries: Entries,
}

impl View for QuickDbCache {
    type V = Map<CachedKey, CachedEntry>;

    closed spec fn view(&self) -> Map<CachedKey, CachedEntry> {
        cached(self.entries)
    }
}

impl QuickDbCache {
    /// The number of entries and of bytes that the cache was made for.
    pub closed spec fn limits(self) -> (usize, u64) {
        made_for(self.entries)
    }

    /// The bytes of all entries that the cache holds.
    pub closed spec fn bytes(self) -> nat {
        held_bytes(self.entries)
    }

    /// Whether the cache has its layout and is within its limit.
    pub open spec fn well_formed(self) -> bool {
        self.limits() == (ESTIMATED_ENTRIES, CACHE_BYTES) && self.bytes() <= CACHE_BYTES
    }

    /// Whether this cache follows from `before` by putting in an entry of so many bytes: it has
    /// grown by no more than that, and has forgotten nothing where it was sure to have room.
    pub open spec fn has_taken(
        self,
        before: QuickDbCache,
        key: CachedKey,
        value: CachedEntry,
        bytes: nat,
    ) -> bool {
        &&& self.bytes() <= before.bytes() + bytes
        &&& before.bytes() + bytes <= SURE_BYTES ==> self@ == before@.insert(key, value)
    }

    /// An empty cache.
    pub fn new() -> (cache: QuickDbCache)
        ensures
            cache@ == nothing(),
            cache.well_formed(),
            cache.bytes() == 0,
    {
        QuickDbCache { entries: new_cache(ESTIMATED_ENTRIES, CACHE_BYTES) }
    }

    /// The entry under a key, where the cache holds one.
    pub fn get(&self, key: &CachedKey) -> (entry: Option<CachedEntry>)
        ensures
            entry == (if self@.contains_key(*key) {
                Some(self@[*key])
            } else {
                None
            }),
    {
        get_entry(&self.entries, key)
    }

    /// Puts an entry in. While there is sure to be room the cache forgets nothing; beyond that it
    /// may forget this and any other entry.
    pub fn insert(&mut self, key: CachedKey, value: CachedEntry)
        ensures
            may_follow(old(self)@, final(self)@, key, value),
            final(self).limits() == old(self).limits(),
            old(self).well_formed() ==> final(self).well_formed(),
            old(self).well_formed() ==> (exists|bytes: nat| #[trigger]
                is_size(value, bytes) && final(self).has_taken(*old(self), key, value, bytes)),
    {
        insert_entry(&mut self.entries, key, value);
    }

    /// Takes the entry under a key out.
    pub fn remove(&mut self, key: &CachedKey)
        ensures
            final(self)@ == old(self)@.remove(*key),
            final(self).limits() == old(self).limits(),
            final(self).bytes() <= old(self).bytes(),
            old(self).well_formed() ==> final(self).well_formed(),
    {
        remove_entry(&mut self.entries, key);
    }

    /// How many entries the cache holds.
    pub fn entry_count(&self) -> (count: u64)
        ensures
            count == self@.len(),
    {
        count_entries(&self.entries) as u64
    }
}

/// The cache never serves what is stale: what it holds stays a part of everything that was last put
/// in under each key and not taken out.
pub proof fn law_cache_serves_the_latest(
    latest: Map<CachedKey, CachedEntry>,
    before: Map<CachedKey, CachedEntry>,
    after: Map<CachedKey, CachedEntry>,
    key: CachedKey,
    value: CachedEntry,
)
    requires
        before.submap_of(latest),
    ensures
        may_follow(before, after, key, value) ==> after.submap_of(latest.insert(key, value)),
        before.remove(key).submap_of(latest.remove(key)),
{
    if may_follow(before, after, key, value) {
        let grown = before.insert(key, value);
        let newest = latest.insert(key, value);
        assert forall|k: CachedKey| #[trigger] after.dom().contains(k) implies newest.dom().contains(k)
            && after[k] == newest[k] by {
            assert(grown.dom().contains(k) && after[k] == grown[k]);
            assert(k != key ==> before.dom().contains(k));
        }
        assert(after.submap_of(newest));
    }
}

/// A cache that has taken an entry in while there was sure to be room gives that entry under its key
/// and every other entry that it held, and has grown by no more than the entry's bytes.
pub proof fn law_taken_entries_are_there(
    before: QuickDbCache,
    after: QuickDbCache,
    key: CachedKey,
    value: CachedEntry,
    bytes: nat,
    other: CachedKey,
)
    requires
        after.has_taken(before, key, value, bytes),
    ensures
        after.bytes() <= before.bytes() + bytes,
        before.bytes() + bytes <= 31_784 ==> {
            &&& after@.contains_key(key) && after@[key] == value
            &&& other != key ==> (after@.contains_key(other) <==> before@.contains_key(other))
            &&& other != key && before@.contains_key(other) ==> after@[other] == before@[other]
        },
{
}

/// A cache with its layout is made for 4096 entries and four mebibytes, and holds no more bytes.
pub proof fn law_caches_keep_to_their_limits(cache: QuickDbCache)
    ensures
        cache.well_formed() <==> cache.limits().0 == 4096 && cache.limits().1 == 4_194_304
            && cache.bytes() <= 4_194_304,
{
}

} // verus!

//! Fixed-capacity cache of stories, ordered by recency of use.
//!
//! The entries are kept by an `lru::LruCache`. Its contents are modelled as a
//! sequence of identifier and entry, the most recently used first; every
//! lookup that finds an entry and every insertion moves that entry to the
//! front, and an insertion into a full cache drops the last one.
use crate::story::CachedStory;
use crate::story::CachedStoryView;
use lru::LruCache;
use std::num::NonZeroUsize;
use vstd::prelude::*;

verus! {

/// `lru::LruCache`, the outside collection that holds the entries.
#[verifier::external_type_specification]
#[verifier::external_body]
#[verifier::reject_recursive_types(K)]
#[verifier::reject_recursive_types(V)]
#[verifier::reject_recursive_types(S)]
pub struct ExLruCache<K, V, S>(LruCache<K, V, S>);

/// `lru::DefaultHasher`, the hasher of a cache made without naming one.
#[verifier::external_type_specification]
#[verifier::external_body]
pub struct ExDefaultHasher(lru::DefaultHasher);

/// What the cache holds, the most recently used entry first.
pub uninterp spec fn lru_entries(cache: LruCache<u32, CachedStory>) -> Seq<(u32, CachedStoryView)>;

/// The number of entries that the cache was made to hold at most.
pub uninterp spec fn lru_capacity(cache: LruCache<u32, CachedStory>) -> nat;

/// True when some entry has the identifier `id`.
pub open spec fn has_key(entries: Seq<(u32, CachedStoryView)>, id: u32) -> bool {
    exists|i: int| 0 <= i < entries.len() && (#[trigger] entries[i]).0 == id
}

/// The place of an entry with the identifier `id`, where there is one.
pub open spec fn key_index(entries: Seq<(u32, CachedStoryView)>, id: u32) -> int {
    choose|i: int| 0 <= i < entries.len() && (#[trigger] entries[i]).0 == id
}

/// No identifier occurs twice.
pub open spec fn distinct_keys(entries: Seq<(u32, CachedStoryView)>) -> bool {
    forall|i: int, j: int|
        0 <= i < j < entries.len() ==> (#[trigger] entries[i]).0 != (#[trigger] entries[j]).0
}

/// The entry kept under `id`, if any.
pub open spec fn lookup(entries: Seq<(u32, CachedStoryView)>, id: u32) -> Option<CachedStoryView> {
    if has_key(entries, id) {
        Some(entries[key_index(entries, id)].1)
    } else {
        None
    }
}

/// The entries after a lookup of `id`: an entry that was found is now the
/// first; nothing changes otherwise.
pub open spec fn touched(entries: Seq<(u32, CachedStoryView)>, id: u32) -> Seq<
    (u32, CachedStoryView),
> {
    if has_key(entries, id) {
        let i = key_index(entries, id);
        seq![entries[i]] + entries.remove(i)
    } else {
        entries
    }
}

/// The entries after `entry` was put under `id` into a cache of the given
/// capacity: the new entry is the first; it replaces one with the same
/// identifier, and otherwise pushes the last one out of a full cache.
pub open spec fn inserted(
    entries: Seq<(u32, CachedStoryView)>,
    capacity: nat,
    id: u32,
    entry: CachedStoryView,
) -> Seq<(u32, CachedStoryView)> {
    if has_key(entries, id) {
        seq![(id, entry)] + entries.remove(key_index(entries, id))
    } else if entries.len() == capacity {
        seq![(id, entry)] + entries.drop_last()
    } else {
        seq![(id, entry)] + entries
    }
}

/// `lru::LruCache::sparse`: an empty cache that holds at most `capacity`
/// entries.
#[verifier::external_body]
fn lru_sparse(capacity: usize) -> (cache: LruCache<u32, CachedStory>)
    requires
        capacity >= 1,
    ensures
        lru_entries(cache) == Seq::<(u32, CachedStoryView)>::empty(),
        lru_capacity(cache) == capacity,
{
    LruCache::sparse(NonZeroUsize::new(capacity).unwrap())
}

/// `lru::LruCache::get`: hands out a copy of the entry kept under `id` and
/// makes that entry the most recently used; finds nothing and changes nothing
/// where no entry has that identifier.
#[verifier::external_body]
fn lru_get(cache: &mut LruCache<u32, CachedStory>, id: u32) -> (found: Option<CachedStory>)
    ensures
        lru_capacity(*final(cache)) == lru_capacity(*old(cache)),
        lru_entries(*final(cache)) == touched(lru_entries(*old(cache)), id),
        match found {
            Some(entry) => lookup(lru_entries(*old(cache)), id) == Some(entry@),
            None => lookup(lru_entries(*old(cache)), id) is None,
        },
{
    cache.get(&id).cloned()
}

/// `lru::LruCache::put`: keeps `entry` under `id` as the most recently used
/// entry. An entry with the same identifier is replaced; otherwise a full
/// cache loses its least recently used entry.
#[verifier::external_body]
fn lru_put(cache: &mut LruCache<u32, CachedStory>, id: u32, entry: CachedStory)
    ensures
        lru_capacity(*final(cache)) == lru_capacity(*old(cache)),
        lru_entries(*final(cache)) == inserted(
            lru_entries(*old(cache)),
            lru_capacity(*old(cache)),
            id,
            entry@,
        ),
{
    cache.put(id, entry);
}

/// `lru::LruCache::len`: the number of entries.
#[verifier::external_body]
fn lru_len(cache: &LruCache<u32, CachedStory>) -> (len: usize)
    ensures
        len == lru_entries(*cache).len(),
{
    cache.len()
}

/// `lru::LruCache::cap`: the capacity that the cache was made with.
#[verifier::external_body]
fn lru_cap(cache: &LruCache<u32, CachedStory>) -> (capacity: usize)
    ensures
        capacity == lru_capacity(*cache),
{
    cache.cap().get()
}

/// A lookup keeps the identifiers distinct and the number of entries.
pub proof fn lemma_touched_keeps_shape(entries: Seq<(u32, CachedStoryView)>, id: u32)
    requires
        distinct_keys(entries),
    ensures
        distinct_keys(touched(entries, id)),
        touched(entries, id).len() == entries.len(),
        forall|other: u32| has_key(touched(entries, id), other) == has_key(entries, other),
        forall|other: u32| lookup(touched(entries, id), other) == lookup(entries, other),
{
    let after = touched(entries, id);
    if has_key(entries, id) {
        let k = key_index(entries, id);
        assert forall|i: int| 0 <= i < after.len() implies #[trigger] after[i] == entries[if i
            == 0 {
            k
        } else if i <= k {
            i - 1
        } else {
            i
        }] by {}
        assert forall|other: u32| has_key(after, other) == has_key(entries, other) by {
            if has_key(entries, other) {
                let j = key_index(entries, other);
                let j2 = if j == k {
                    0
                } else if j < k {
                    j + 1
                } else {
                    j
                };
                assert(after[j2] == entries[j]);
            }
            if has_key(after, other) {
                let j = key_index(after, other);
                let j0 = if j == 0 {
                    k
                } else if j <= k {
                    j - 1
                } else {
                    j
                };
                assert(after[j] == entries[j0]);
            }
        }
        assert forall|other: u32| lookup(after, other) == lookup(entries, other) by {
            if has_key(entries, other) {
                let j = key_index(after, other);
                let j0 = if j == 0 {
                    k
                } else if j <= k {
                    j - 1
                } else {
                    j
                };
                assert(after[j] == entries[j0]);
                let j1 = key_index(entries, other);
                assert(j0 == j1);
            }
        }
    }
}

/// An insertion keeps the identifiers distinct and the cache within its
/// capacity, and makes the new entry the one found under its identifier.
pub proof fn lemma_inserted_keeps_shape(
    entries: Seq<(u32, CachedStoryView)>,
    capacity: nat,
    id: u32,
    entry: CachedStoryView,
)
    requires
        distinct_keys(entries),
        entries.len() <= capacity,
        capacity >= 1,
    ensures
        distinct_keys(inserted(entries, capacity, id, entry)),
        inserted(entries, capacity, id, entry).len() <= capacity,
        inserted(entries, capacity, id, entry).len() >= 1,
        inserted(entries, capacity, id, entry)[0] == (id, entry),
        lookup(inserted(entries, capacity, id, entry), id) == Some(entry),
{
    let after = inserted(entries, capacity, id, entry);
    if has_key(entries, id) {
        let k = key_index(entries, id);
        assert forall|i: int| 1 <= i < after.len() implies #[trigger] after[i] == entries[if i
            <= k {
            i - 1
        } else {
            i
        }] by {}
    } else if entries.len() == capacity {
        assert forall|i: int| 1 <= i < after.len() implies #[trigger] after[i] == entries[i - 1] by {}
    } else {
        assert forall|i: int| 1 <= i < after.len() implies #[trigger] after[i] == entries[i - 1] by {}
    }
    assert(after[0] == (id, entry));
    assert(has_key(after, id));
    let found = key_index(after, id);
    assert(found == 0) by {
        if found != 0 {
            assert(after[0].0 != after[found].0);
        }
    }
}

/// The cache of stories.
pub struct ItemCache {
    inner: LruCache<u32, CachedStory>,
}

impl ItemCache {
    /// The entries, the most recently used first.
    pub closed spec fn entries(&self) -> Seq<(u32, CachedStoryView)> {
        lru_entries(self.inner)
    }

    /// The number of entries that the cache holds at most.
    pub closed spec fn capacity(&self) -> nat {
        lru_capacity(self.inner)
    }

    /// The cache holds no identifier twice and no more entries than its
    /// capacity, which is at least one.
    pub open spec fn wf(&self) -> bool {
        &&& distinct_keys(self.entries())
        &&& self.entries().len() <= self.capacity()
        &&& self.capacity() >= 1
    }

    /// An empty cache for `capacity` entries; for one entry where `capacity`
    /// is zero.
    pub fn new(capacity: usize) -> (cache: ItemCache)
        ensures
            cache.wf(),
            cache.entries().len() == 0,
            cache.capacity() == if capacity == 0 {
                1
            } else {
                capacity as nat
            },
    {
        let capacity: usize = if capacity == 0 {
            1
        } else {
            capacity
        };
        ItemCache { inner: lru_sparse(capacity) }
    }

    /// The entry kept under `id`, which becomes the most recently used one.
    /// A lookup that finds nothing changes nothing.
    pub fn get(&mut self, id: u32) -> (found: Option<CachedStory>)
        requires
            old(self).wf(),
        ensures
            final(self).wf(),
            final(self).capacity() == old(self).capacity(),
            final(self).entries() == touched(old(self).entries(), id),
            match found {
                Some(entry) => lookup(old(self).entries(), id) == Some(entry@),
                None => lookup(old(self).entries(), id) is None,
            },
    {
        proof {
            lemma_touched_keeps_shape(self.entries(), id);
        }
        lru_get(&mut self.inner, id)
    }

    /// Keeps `entry` under `id` as the most recently used entry. It replaces
    /// an entry with the same identifier; otherwise, in a full cache, the
    /// least recently used entry makes room for it.
    pub fn put(&mut self, id: u32, entry: CachedStory)
        requires
            old(self).wf(),
        ensures
            final(self).wf(),
            final(self).capacity() == old(self).capacity(),
            final(self).entries() == inserted(
                old(self).entries(),
                old(self).capacity(),
                id,
                entry@,
            ),
    {
        proof {
            lemma_inserted_keeps_shape(self.entries(), self.capacity(), id, entry@);
        }
        lru_put(&mut self.inner, id, entry)
    }

    /// The number of entries.
    pub fn len(&self) -> (len: usize)
        ensures
            len == self.entries().len(),
    {
        lru_len(&self.inner)
    }

    /// The number of entries that the cache holds at most.
    pub fn cap(&self) -> (capacity: usize)
        ensures
            capacity == self.capacity(),
    {
        lru_cap(&self.inner)
    }
}

/// The entries after `values` were put under `ids`, place by place and from
/// left to right.
pub open spec fn filled(
    entries: Seq<(u32, CachedStoryView)>,
    capacity: nat,
    ids: Seq<u32>,
    values: Seq<CachedStoryView>,
) -> Seq<(u32, CachedStoryView)>
    recommends
        ids.len() == values.len(),
    decreases ids.len(),
{
    if ids.len() == 0 {
        entries
    } else {
        inserted(
            filled(entries, capacity, ids.drop_last(), values.drop_last()),
            capacity,
            ids.last(),
            values.last(),
        )
    }
}

/// As long as no more distinct identifiers are put than the cache has room
/// for, all of them stay, the latest first.
pub proof fn lemma_recent_entries_stay(
    entries: Seq<(u32, CachedStoryView)>,
    capacity: nat,
    ids: Seq<u32>,
    values: Seq<CachedStoryView>,
)
    requires
        distinct_keys(entries),
        entries.len() <= capacity,
        capacity >= 1,
        ids.len() == values.len(),
        ids.len() <= capacity,
        ids.no_duplicates(),
    ensures
        distinct_keys(filled(entries, capacity, ids, values)),
        ids.len() <= filled(entries, capacity, ids, values).len() <= capacity,
        forall|j: int|
            0 <= j < ids.len() ==> #[trigger] filled(entries, capacity, ids, values)[j] == (
                ids[ids.len() - 1 - j],
                values[ids.len() - 1 - j],
            ),
        forall|j: int|
            0 <= j < ids.len() ==> lookup(
                filled(entries, capacity, ids, values),
                #[trigger] ids[j],
            ) == Some(values[j]),
    decreases ids.len(),
{
    let n = ids.len() as int;
    let after = filled(entries, capacity, ids, values);
    if n > 0 {
        let before = filled(entries, capacity, ids.drop_last(), values.drop_last());
        let id = ids.last();
        let value = values.last();
        lemma_recent_entries_stay(entries, capacity, ids.drop_last(), values.drop_last());
        lemma_inserted_keeps_shape(before, capacity, id, value);
        assert forall|j: int| 0 <= j < n - 1 implies (#[trigger] before[j]).0 != id by {
            assert(before[j].0 == ids.drop_last()[n - 2 - j]);
            assert(ids[n - 2 - j] != ids[n - 1]);
        }
        if has_key(before, id) {
            let k = key_index(before, id);
            assert(k >= n - 1) by {
                if k < n - 1 {
                    assert(before[k].0 != id);
                }
            }
            assert forall|j: int| 1 <= j < n implies #[trigger] after[j] == before[j - 1] by {}
        } else {
            assert forall|j: int| 1 <= j < n implies #[trigger] after[j] == before[j - 1] by {}
        }
        assert forall|j: int| 0 <= j < n implies #[trigger] after[j] == (
            ids[n - 1 - j],
            values[n - 1 - j],
        ) by {
            if j > 0 {
                assert(after[j] == before[j - 1]);
                assert(before[j - 1] == (
                    ids.drop_last()[n - 2 - (j - 1)],
                    values.drop_last()[n - 2 - (j - 1)],
                ));
            }
        }
        assert forall|j: int| 0 <= j < n implies lookup(after, #[trigger] ids[j]) == Some(
            values[j],
        ) by {
            let at = n - 1 - j;
            assert(after[at] == (ids[j], values[j]));
            assert(has_key(after, ids[j]));
            let found = key_index(after, ids[j]);
            if found != at {
                if found < at {
                    assert(after[found].0 != after[at].0);
                } else {
                    assert(after[at].0 != after[found].0);
                }
            }
        }
    }
}

/// Putting one more distinct identifier than the cache has room for leaves
/// the cache exactly full: the identifier that was put first, which is the
/// one used least recently, is gone, and every later one is kept with its
/// entry.
pub proof fn lemma_overfill_evicts_oldest(
    entries: Seq<(u32, CachedStoryView)>,
    capacity: nat,
    ids: Seq<u32>,
    values: Seq<CachedStoryView>,
)
    requires
        distinct_keys(entries),
        entries.len() <= capacity,
        capacity >= 1,
        ids.len() == values.len(),
        ids.len() == capacity + 1,
        ids.no_duplicates(),
    ensures
        filled(entries, capacity, ids, values).len() == capacity,
        !has_key(filled(entries, capacity, ids, values), ids[0]),
        forall|j: int|
            1 <= j < ids.len() ==> lookup(
                filled(entries, capacity, ids, values),
                #[trigger] ids[j],
            ) == Some(values[j]),
{
    let n = ids.len() as int;
    let after = filled(entries, capacity, ids, values);
    let before = filled(entries, capacity, ids.drop_last(), values.drop_last());
    let id = ids.last();
    let value = values.last();
    lemma_recent_entries_stay(entries, capacity, ids.drop_last(), values.drop_last());
    lemma_inserted_keeps_shape(before, capacity, id, value);
    assert(before.len() == capacity);
    assert forall|j: int| 0 <= j < n - 1 implies #[trigger] before[j] == (
        ids[n - 2 - j],
        values[n - 2 - j],
    ) by {
        assert(before[j] == (ids.drop_last()[n - 2 - j], values.drop_last()[n - 2 - j]));
    }
    assert(!has_key(before, id)) by {
        if has_key(before, id) {
            let k = key_index(before, id);
            assert(before[k].0 == ids[n - 2 - k]);
            assert(ids[n - 2 - k] != ids[n - 1]);
        }
    }
    assert(after =~= seq![(id, value)] + before.drop_last());
    assert forall|j: int| 1 <= j < n - 1 implies #[trigger] after[j] == (
        ids[n - 1 - j],
        values[n - 1 - j],
    ) by {
        assert(after[j] == before[j - 1]);
    }
    assert(!has_key(after, ids[0])) by {
        if has_key(after, ids[0]) {
            let k = key_index(after, ids[0]);
            if k == 0 {
                assert(ids[n - 1] != ids[0]);
            } else {
                assert(after[k].0 == ids[n - 1 - k]);
                assert(ids[n - 1 - k] != ids[0]);
            }
        }
    }
    assert forall|j: int| 1 <= j < n implies lookup(after, #[trigger] ids[j]) == Some(
        values[j],
    ) by {
        let at = n - 1 - j;
        assert(after[at] == (ids[j], values[j]));
        assert(has_key(after, ids[j]));
        let found = key_index(after, ids[j]);
        if found != at {
            if found < at {
                assert(after[found].0 != after[at].0);
            } else {
                assert(after[at].0 != after[found].0);
            }
        }
    }
}

/// One use of the cache: a lookup, or the insertion of an entry.
pub enum CacheUse {
    Lookup(u32),
    Insert(u32, CachedStoryView),
}

impl CacheUse {
    /// The identifier that is looked up or put.
    pub open spec fn id(self) -> u32 {
        match self {
            CacheUse::Lookup(id) => id,
            CacheUse::Insert(id, _) => id,
        }
    }

    /// The entries after this use.
    pub open spec fn applied(self, entries: Seq<(u32, CachedStoryView)>, capacity: nat) -> Seq<
        (u32, CachedStoryView),
    > {
        match self {
            CacheUse::Lookup(id) => touched(entries, id),
            CacheUse::Insert(id, entry) => inserted(entries, capacity, id, entry),
        }
    }
}

/// The entries after the uses `uses`, made in that order.
pub open spec fn used(entries: Seq<(u32, CachedStoryView)>, capacity: nat, uses: Seq<CacheUse>) -> Seq<
    (u32, CachedStoryView),
>
    decreases uses.len(),
{
    if uses.len() == 0 {
        entries
    } else {
        uses.last().applied(used(entries, capacity, uses.drop_last()), capacity)
    }
}

/// The identifiers that `uses` look up or put.
pub open spec fn used_ids(uses: Seq<CacheUse>) -> Set<u32> {
    uses.map_values(|one: CacheUse| one.id()).to_set()
}

/// The cache is in shape and keeps `entry` under `id`, and every entry that
/// was used more recently has its identifier in `recent`.
spec fn kept_behind(
    entries: Seq<(u32, CachedStoryView)>,
    capacity: nat,
    id: u32,
    entry: CachedStoryView,
    recent: Set<u32>,
) -> bool {
    &&& distinct_keys(entries)
    &&& entries.len() <= capacity
    &&& exists|at: int|
        0 <= at < entries.len() && #[trigger] entries[at] == (id, entry) && forall|j: int|
            0 <= j < at ==> recent.contains((#[trigger] entries[j]).0)
}

/// One use of another identifier keeps the entry, as long as the cache has
/// room for all the identifiers used since.
proof fn lemma_use_keeps_entry(
    entries: Seq<(u32, CachedStoryView)>,
    capacity: nat,
    id: u32,
    entry: CachedStoryView,
    recent: Set<u32>,
    one: CacheUse,
)
    requires
        kept_behind(entries, capacity, id, entry, recent),
        capacity >= 1,
        one.id() != id,
        recent.finite(),
        recent.insert(one.id()).len() < capacity,
    ensures
        kept_behind(one.applied(entries, capacity), capacity, id, entry, recent.insert(one.id())),
{
    let k = one.id();
    let after = one.applied(entries, capacity);
    let later = recent.insert(k);
    let at = choose|at: int|
        0 <= at < entries.len() && #[trigger] entries[at] == (id, entry) && forall|j: int|
            0 <= j < at ==> recent.contains((#[trigger] entries[j]).0);
    match one {
        CacheUse::Lookup(_) => {
            lemma_touched_keeps_shape(entries, k);
        },
        CacheUse::Insert(_, value) => {
            lemma_inserted_keeps_shape(entries, capacity, k, value);
        },
    }
    if has_key(entries, k) {
        let i = key_index(entries, k);
        assert(i != at);
        let moved = if i > at {
            at + 1
        } else {
            at
        };
        assert(after[moved] == (id, entry));
        assert forall|j: int| 0 <= j < moved implies later.contains((#[trigger] after[j]).0) by {
            if j > 0 {
                let from = if j <= i {
                    j - 1
                } else {
                    j
                };
                assert(after[j] == entries[from]);
                assert(recent.contains(entries[from].0));
            }
        }
    } else {
        match one {
            CacheUse::Lookup(_) => {
                assert(after == entries);
                assert forall|j: int| 0 <= j < at implies later.contains(
                    (#[trigger] after[j]).0,
                ) by {
                    assert(recent.contains(entries[j].0));
                }
            },
            CacheUse::Insert(_, value) => {
                if entries.len() == capacity {
                    let ahead = entries.take(at).map_values(|pair: (u32, CachedStoryView)| pair.0);
                    let keys = ahead.push(k);
                    assert(keys.no_duplicates()) by {
                        assert forall|a: int, b: int|
                            0 <= a < keys.len() && 0 <= b < keys.len() && a != b implies keys[a]
                            != keys[b] by {
                            if a < at && b < at {
                                if a < b {
                                    assert(entries[a].0 != entries[b].0);
                                } else {
                                    assert(entries[b].0 != entries[a].0);
                                }
                            } else if a < at {
                                assert(entries[a].0 != k);
                            } else {
                                assert(entries[b].0 != k);
                            }
                        }
                    }
                    assert(keys.to_set().subset_of(later)) by {
                        assert forall|key: u32| keys.to_set().contains(key) implies later.contains(
                            key,
                        ) by {
                            let a = choose|a: int| 0 <= a < keys.len() && keys[a] == key;
                            if a < at {
                                assert(recent.contains(entries[a].0));
                            }
                        }
                    }
                    keys.unique_seq_to_set();
                    vstd::set_lib::lemma_len_subset(keys.to_set(), later);
                    assert(at + 1 < capacity);
                }
                assert(after[at + 1] == (id, entry));
                assert forall|j: int| 0 <= j < at + 1 implies later.contains(
                    (#[trigger] after[j]).0,
                ) by {
                    if j > 0 {
                        assert(after[j] == entries[j - 1]);
                        assert(recent.contains(entries[j - 1].0));
                    }
                }
            },
        }
    }
}

/// The entry stays through the first `n` of the uses.
proof fn lemma_entry_outlives_prefix(
    entries: Seq<(u32, CachedStoryView)>,
    capacity: nat,
    id: u32,
    entry: CachedStoryView,
    uses: Seq<CacheUse>,
    n: int,
)
    requires
        distinct_keys(entries),
        entries.len() <= capacity,
        capacity >= 1,
        forall|i: int| 0 <= i < uses.len() ==> (#[trigger] uses[i]).id() != id,
        used_ids(uses).len() < capacity,
        0 <= n <= uses.len(),
    ensures
        kept_behind(
            used(inserted(entries, capacity, id, entry), capacity, uses.take(n)),
            capacity,
            id,
            entry,
            used_ids(uses.take(n)),
        ),
    decreases n,
{
    broadcast use vstd::seq_lib::seq_to_set_is_finite;

    let start = inserted(entries, capacity, id, entry);
    if n == 0 {
        lemma_inserted_keeps_shape(entries, capacity, id, entry);
        assert(uses.take(0).len() == 0);
        assert(start[0] == (id, entry));
    } else {
        lemma_entry_outlives_prefix(entries, capacity, id, entry, uses, n - 1);
        let one = uses[n - 1];
        let recent = used_ids(uses.take(n - 1));
        let later = used_ids(uses.take(n));
        assert(uses.take(n).drop_last() =~= uses.take(n - 1));
        assert(uses.take(n).last() == one);
        let ids = uses.map_values(|one: CacheUse| one.id());
        let ids_before = uses.take(n - 1).map_values(|one: CacheUse| one.id());
        let ids_now = uses.take(n).map_values(|one: CacheUse| one.id());
        assert(later =~= recent.insert(one.id())) by {
            assert forall|key: u32| later.contains(key) == recent.insert(one.id()).contains(
                key,
            ) by {
                if later.contains(key) {
                    let a = choose|a: int| 0 <= a < ids_now.len() && ids_now[a] == key;
                    if a < n - 1 {
                        assert(ids_before[a] == key);
                    }
                }
                if recent.contains(key) {
                    let a = choose|a: int| 0 <= a < ids_before.len() && ids_before[a] == key;
                    assert(ids_now[a] == key);
                }
                if key == one.id() {
                    assert(ids_now[n - 1] == key);
                }
            }
        }
        assert(later.subset_of(used_ids(uses))) by {
            assert forall|key: u32| later.contains(key) implies used_ids(uses).contains(key) by {
                let a = choose|a: int| 0 <= a < ids_now.len() && ids_now[a] == key;
                assert(ids[a] == key);
            }
        }
        vstd::set_lib::lemma_len_subset(later, used_ids(uses));
        lemma_use_keeps_entry(
            used(start, capacity, uses.take(n - 1)),
            capacity,
            id,
            entry,
            recent,
            one,
        );
    }
}

/// An entry stays in the cache, and is found under its identifier, while
/// the identifiers that are looked up or put after it are fewer than the
/// cache has room for, whatever the order and number of their uses.
pub proof fn lemma_entry_outlives_few_uses(
    entries: Seq<(u32, CachedStoryView)>,
    capacity: nat,
    id: u32,
    entry: CachedStoryView,
    uses: Seq<CacheUse>,
)
    requires
        distinct_keys(entries),
        entries.len() <= capacity,
        capacity >= 1,
        forall|i: int| 0 <= i < uses.len() ==> (#[trigger] uses[i]).id() != id,
        used_ids(uses).len() < capacity,
    ensures
        lookup(used(inserted(entries, capacity, id, entry), capacity, uses), id) == Some(entry),
{
    lemma_entry_outlives_prefix(entries, capacity, id, entry, uses, uses.len() as int);
    assert(uses.take(uses.len() as int) =~= uses);
    let after = used(inserted(entries, capacity, id, entry), capacity, uses);
    let at = choose|at: int| 0 <= at < after.len() && #[trigger] after[at] == (id, entry);
    assert(has_key(after, id));
    let found = key_index(after, id);
    if found != at {
        if found < at {
            assert(after[found].0 != after[at].0);
        } else {
            assert(after[at].0 != after[found].0);
        }
    }
}

/// Making one list of uses and then another is making both in a row.
pub proof fn lemma_used_in_a_row(
    entries: Seq<(u32, CachedStoryView)>,
    capacity: nat,
    first: Seq<CacheUse>,
    second: Seq<CacheUse>,
)
    ensures
        used(used(entries, capacity, first), capacity, second) == used(
            entries,
            capacity,
            first + second,
        ),
    decreases second.len(),
{
    if second.len() == 0 {
        assert(first + second =~= first);
    } else {
        lemma_used_in_a_row(entries, capacity, first, second.drop_last());
        assert((first + second).drop_last() =~= first + second.drop_last());
        assert((first + second).last() == second.last());
    }
}

} // verus!

//! Bounded in-memory thumbnail cache.
//!
//! Maps a `(source path, target size)` key to a ready-to-serve payload.
//! The cache keeps its entries in insertion order and evicts the
//! oldest-inserted entry when a new key arrives at capacity. Re-inserting an
//! existing key overwrites the payload in place and does *not* move the entry
//! to the back of the eviction order: recency of insertion, not of access,
//! is what protects an entry. This deliberate first-in-first-out tradeoff is
//! part of the interface, not an accident.

use vstd::prelude::*;

verus! {

/// Upper bound on the number of entries the in-memory thumbnail cache holds.
pub const MAX_CACHE_ENTRIES: usize = 200;

/// One cached thumbnail: the source path and requested size it was made for,
/// and the encoded payload that is served for them.
pub struct CacheEntry {
    pub path: String,
    pub size: u32,
    pub payload: String,
}

impl View for CacheEntry {
    type V = (Seq<char>, u32, Seq<char>);

    open spec fn view(&self) -> (Seq<char>, u32, Seq<char>) {
        (self.path@, self.size, self.payload@)
    }
}

/// The keys of a cache model, in insertion order.
pub open spec fn keys_of(s: Seq<(Seq<char>, u32, Seq<char>)>) -> Seq<(Seq<char>, u32)> {
    s.map(|i: int, t: (Seq<char>, u32, Seq<char>)| (t.0, t.1))
}

/// Whether the model holds an entry for `(path, size)`.
pub open spec fn has_key(s: Seq<(Seq<char>, u32, Seq<char>)>, path: Seq<char>, size: u32) -> bool {
    exists|i: int| 0 <= i < s.len() && (#[trigger] s[i].0, s[i].1) == (path, size)
}

/// The position of the entry for `(path, size)`; meaningful when `has_key`
/// holds and the keys are distinct.
pub open spec fn key_index(s: Seq<(Seq<char>, u32, Seq<char>)>, path: Seq<char>, size: u32) -> int {
    choose|i: int| 0 <= i < s.len() && (#[trigger] s[i].0, s[i].1) == (path, size)
}

/// The payload stored for `(path, size)`, if any.
pub open spec fn lookup(
    s: Seq<(Seq<char>, u32, Seq<char>)>,
    path: Seq<char>,
    size: u32,
) -> Option<Seq<char>> {
    if has_key(s, path, size) {
        Some(s[key_index(s, path, size)].2)
    } else {
        None
    }
}

/// No two entries share a key.
pub open spec fn distinct_keys(s: Seq<(Seq<char>, u32, Seq<char>)>) -> bool {
    forall|i: int, j: int|
        0 <= i < j < s.len() ==> ((#[trigger] s[i]).0, s[i].1) != ((#[trigger] s[j]).0, s[j].1)
}

/// What insertion does to the model: overwrite in place for a known key;
/// append for a fresh key, evicting the oldest entry first when the cache
/// is full.
pub open spec fn insert_model(
    s: Seq<(Seq<char>, u32, Seq<char>)>,
    max: int,
    path: Seq<char>,
    size: u32,
    payload: Seq<char>,
) -> Seq<(Seq<char>, u32, Seq<char>)> {
    if has_key(s, path, size) {
        s.update(key_index(s, path, size), (path, size, payload))
    } else if s.len() < max {
        s.push((path, size, payload))
    } else {
        s.subrange(1, s.len() as int).push((path, size, payload))
    }
}

/// In-memory thumbnail cache with a strict entry-count bound and
/// insertion-order eviction.
pub struct ThumbnailCache {
    entries: Vec<CacheEntry>,
    max_size: usize,
}

impl ThumbnailCache {
    /// The cached entries as `(path, size, payload)` triples, oldest first.
    pub closed spec fn model(self) -> Seq<(Seq<char>, u32, Seq<char>)> {
        self.entries@.map(|i: int, e: CacheEntry| e@)
    }

    /// The entry-count bound the cache was created with.
    pub closed spec fn spec_max(self) -> int {
        self.max_size as int
    }

    pub open spec fn spec_len(self) -> int {
        self.model().len() as int
    }

    /// Well-formedness: a positive bound that the entry count respects, and
    /// one entry per key.
    pub open spec fn wf(self) -> bool {
        &&& 1 <= self.spec_max()
        &&& self.spec_len() <= self.spec_max()
        &&& distinct_keys(self.model())
    }

    /// Creates an empty cache that will hold at most `max_size` entries.
    pub fn new(max_size: usize) -> (r: Self)
        requires
            1 <= max_size,
        ensures
            r.wf(),
            r.model() =~= Seq::<(Seq<char>, u32, Seq<char>)>::empty(),
            r.spec_max() == max_size,
    {
        ThumbnailCache { entries: Vec::new(), max_size }
    }

    /// How many thumbnails are cached.
    pub fn len(&self) -> (r: usize)
        ensures
            r == self.spec_len(),
    {
        self.entries.len()
    }

    /// Index of the entry for `key`, if present.
    fn find(&self, path: &String, size: u32) -> (r: Option<usize>)
        ensures
            match r {
                Some(i) => {
                    &&& 0 <= i < self.spec_len()
                    &&& (self.model()[i as int].0, self.model()[i as int].1) == (path@, size)
                },
                None => !has_key(self.model(), path@, size),
            },
    {
        let ghost m = self.model();
        let mut i: usize = 0;
        while i < self.entries.len()
            invariant
                i <= self.entries.len(),
                m == self.model(),
                m.len() == self.entries.len(),
                forall|j: int| 0 <= j < i ==> ((#[trigger] m[j]).0, m[j].1) != (path@, size),
            decreases self.entries.len() - i,
        {
            let e = &self.entries[i];
            if e.size == size && e.path == *path {
                assert((m[i as int].0, m[i as int].1) == (path@, size));
                return Some(i);
            }
            i += 1;
        }
        None
    }

    /// Pure lookup; access does not disturb the eviction order.
    pub fn get(&self, key: &(String, u32)) -> (r: Option<String>)
        requires
            self.wf(),
        ensures
            match r {
                Some(v) => lookup(self.model(), key.0@, key.1) == Some(v@),
                None => lookup(self.model(), key.0@, key.1) is None,
            },
    {
        match self.find(&key.0, key.1) {
            Some(i) => {
                proof {
                    lemma_key_index_unique(self.model(), key.0@, key.1, i as int);
                }
                Some(self.entries[i].payload.clone())
            },
            None => None,
        }
    }

    /// Stores `value` under `key`. A known key is overwritten in place; a
    /// fresh key is appended, after evicting the oldest entry if the cache
    /// is at capacity.
    pub fn insert(&mut self, key: (String, u32), value: String)
        requires
            old(self).wf(),
        ensures
            final(self).wf(),
            final(self).spec_max() == old(self).spec_max(),
            final(self).model() == insert_model(
                old(self).model(),
                old(self).spec_max(),
                key.0@,
                key.1,
                value@,
            ),
            lookup(final(self).model(), key.0@, key.1) == Some(value@),
    {
        let ghost m0 = self.model();
        let ghost k: (Seq<char>, u32) = (key.0@, key.1);
        match self.find(&key.0, key.1) {
            Some(i) => {
                proof {
                    lemma_key_index_unique(m0, k.0, k.1, i as int);
                }
                self.entries[i] = CacheEntry { path: key.0, size: key.1, payload: value };
                proof {
                    assert(self.model() =~= m0.update(i as int, (k.0, k.1, value@)));
                    lemma_insert_wf_and_lookup(m0, old(self).spec_max(), k.0, k.1, value@);
                }
            },
            None => {
                proof {
                    assert(m0.subrange(0, m0.len() as int) =~= m0);
                }
                while self.entries.len() >= self.max_size
                    invariant
                        self.max_size == old(self).max_size,
                        1 <= self.max_size,
                        self.model() == m0.subrange(
                            m0.len() - self.entries@.len(),
                            m0.len() as int,
                        ),
                        self.entries@.len() <= m0.len(),
                        self.entries@.len() == m0.len() || self.entries@.len() + 1
                            >= self.max_size,
                    decreases self.entries.len(),
                {
                    let ghost prev = self.model();
                    self.entries.remove(0);
                    proof {
                        assert forall|j: int| 0 <= j < self.model().len() implies self.model()[j]
                            == prev[j + 1] by {}
                        assert(self.model() =~= m0.subrange(
                            m0.len() - self.entries@.len(),
                            m0.len() as int,
                        ));
                    }
                }
                let ghost prev = self.model();
                let ghost dropped = m0.len() - prev.len();
                self.entries.push(CacheEntry { path: key.0, size: key.1, payload: value });
                proof {
                    assert(self.model() =~= prev.push((k.0, k.1, value@)));
                    if m0.len() < old(self).spec_max() {
                        assert(dropped == 0);
                        assert(prev =~= m0);
                        assert(self.model() =~= m0.push((k.0, k.1, value@)));
                    } else {
                        assert(dropped == 1);
                        assert(prev =~= m0.subrange(1, m0.len() as int));
                        assert(self.model() =~= m0.subrange(1, m0.len() as int).push(
                            (k.0, k.1, value@),
                        ));
                    }
                    lemma_insert_wf_and_lookup(m0, old(self).spec_max(), k.0, k.1, value@);
                }
            },
        }
    }
}

/// Under distinct keys, any index whose entry carries the key is the one
/// `key_index` picks.
pub proof fn lemma_key_index_unique(
    s: Seq<(Seq<char>, u32, Seq<char>)>,
    path: Seq<char>,
    size: u32,
    i: int,
)
    requires
        distinct_keys(s),
        0 <= i < s.len(),
        (s[i].0, s[i].1) == (path, size),
    ensures
        has_key(s, path, size),
        key_index(s, path, size) == i,
{
    assert(has_key(s, path, size));
    let j = key_index(s, path, size);
    assert(0 <= j < s.len() && (s[j].0, s[j].1) == (path, size));
    if i != j {
        if i < j {
            assert((s[i].0, s[i].1) != (s[j].0, s[j].1));
        } else {
            assert((s[j].0, s[j].1) != (s[i].0, s[i].1));
        }
    }
}

/// Law: storing a payload and then looking the same key up yields exactly
/// that payload, whatever the cache held before. A repeated thumbnail
/// request is therefore answered from memory with the stored payload.
pub proof fn lemma_insert_wf_and_lookup(
    s: Seq<(Seq<char>, u32, Seq<char>)>,
    max: int,
    path: Seq<char>,
    size: u32,
    payload: Seq<char>,
)
    requires
        1 <= max,
        s.len() <= max,
        distinct_keys(s),
    ensures
        distinct_keys(insert_model(s, max, path, size, payload)),
        insert_model(s, max, path, size, payload).len() <= max,
        lookup(insert_model(s, max, path, size, payload), path, size) == Some(payload),
{
    let s1 = insert_model(s, max, path, size, payload);
    if has_key(s, path, size) {
        let i = key_index(s, path, size);
        assert(0 <= i < s.len() && (s[i].0, s[i].1) == (path, size));
        assert(distinct_keys(s1)) by {
            assert(forall|a: int, b: int|
                0 <= a < b < s1.len() ==> ((#[trigger] s1[a]).0, s1[a].1) == (s[a].0, s[a].1)
                    && ((#[trigger] s1[b]).0, s1[b].1) == (s[b].0, s[b].1));
        }
        lemma_key_index_unique(s1, path, size, i);
    } else if s.len() < max {
        assert(forall|j: int| 0 <= j < s.len() ==> ((#[trigger] s[j]).0, s[j].1) != (path, size));
        lemma_key_index_unique(s1, path, size, s.len() as int);
    } else {
        let t = s.subrange(1, s.len() as int);
        assert(forall|j: int| 0 <= j < s.len() ==> ((#[trigger] s[j]).0, s[j].1) != (path, size));
        assert(forall|j: int| 0 <= j < t.len() ==> ((#[trigger] t[j]).0, t[j].1) != (path, size));
        assert(distinct_keys(t));
        lemma_key_index_unique(s1, path, size, t.len() as int);
    }
}

/// Law: the cache never outgrows its bound — after any insertion the entry
/// count is at most `max`.
pub proof fn lemma_insert_bounded(
    s: Seq<(Seq<char>, u32, Seq<char>)>,
    max: int,
    path: Seq<char>,
    size: u32,
    payload: Seq<char>,
)
    requires
        1 <= max,
        s.len() <= max,
        distinct_keys(s),
    ensures
        insert_model(s, max, path, size, payload).len() <= max,
{
    lemma_insert_wf_and_lookup(s, max, path, size, payload);
}

/// Law: re-inserting a key that is already cached replaces the payload but
/// keeps the eviction order exactly as it was — the refreshed entry does not
/// move to the back.
pub proof fn lemma_update_keeps_order(
    s: Seq<(Seq<char>, u32, Seq<char>)>,
    max: int,
    path: Seq<char>,
    size: u32,
    payload: Seq<char>,
)
    requires
        distinct_keys(s),
        has_key(s, path, size),
    ensures
        keys_of(insert_model(s, max, path, size, payload)) =~= keys_of(s),
{
    let i = key_index(s, path, size);
    assert(0 <= i < s.len() && (s[i].0, s[i].1) == (path, size));
}

/// Law: when a fresh key arrives at capacity, exactly the oldest-inserted
/// entry is evicted; every other entry survives in its old position.
pub proof fn lemma_eviction_drops_oldest(
    s: Seq<(Seq<char>, u32, Seq<char>)>,
    max: int,
    path: Seq<char>,
    size: u32,
    payload: Seq<char>,
)
    requires
        1 <= max,
        s.len() == max,
        distinct_keys(s),
        !has_key(s, path, size),
    ensures
        insert_model(s, max, path, size, payload) =~= s.subrange(1, s.len() as int).push(
            (path, size, payload),
        ),
{
}

} // verus!

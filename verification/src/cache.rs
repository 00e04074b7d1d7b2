//! A cache whose entries are valid for a fixed time after they were stored.
//!
//! Staleness is checked when an entry is read, never in the background: an
//! expired entry stays until it is overwritten or the cache is cleared. The
//! cache does not read a clock; callers hand in the time, and times and the
//! window are counted in the same unit.

use vstd::prelude::*;
use vstd::hash_map::StringHashMap;

verus! {

/// The freshness window of rendered documents: one hour, in seconds.
pub const DOCUMENT_WINDOW_SECS: i64 = 3600;

/// The freshness window of remote projects: 24 hours, in seconds.
pub const PROJECT_WINDOW_SECS: i64 = 86400;

/// A stored value with the time at which it was stored.
pub struct CacheEntry<V> {
    pub value: V,
    pub stored_at: i64,
}

/// A map from string keys to values, each valid for `window` after it was
/// stored.
#[verifier::reject_recursive_types(V)]
pub struct TtlCache<V> {
    entries: StringHashMap<CacheEntry<V>>,
    window: i64,
}

/// An entry stored at `stored_at` is still valid at `now`.
pub open spec fn is_fresh(stored_at: int, now: int, window: int) -> bool {
    now - stored_at < window
}

/// What a read of `key` at `now` gives in a cache with the given contents:
/// the value, if one is stored under the key and is still valid.
pub open spec fn lookup_in<V>(
    contents: Map<Seq<char>, (V, int)>,
    window: int,
    key: Seq<char>,
    now: int,
) -> Option<V> {
    if contents.contains_key(key) && is_fresh(contents[key].1, now, window) {
        Some(contents[key].0)
    } else {
        None
    }
}

/// The value and the time of an entry.
pub open spec fn entry_pair<V>(entry: CacheEntry<V>) -> (V, int) {
    (entry.value, entry.stored_at as int)
}

impl<V> TtlCache<V> {
    /// What the cache holds: under each key, a value and the time at which
    /// it was stored.
    pub closed spec fn view(&self) -> Map<Seq<char>, (V, int)> {
        self.entries@.map_values(|e: CacheEntry<V>| entry_pair(e))
    }

    /// The freshness window.
    pub closed spec fn spec_window(&self) -> int {
        self.window as int
    }

    /// What a read of `key` at `now` gives.
    pub open spec fn lookup(&self, key: Seq<char>, now: int) -> Option<V> {
        lookup_in(self@, self.spec_window(), key, now)
    }

    /// An empty cache with the given freshness window.
    pub fn new(window: i64) -> (cache: Self)
        ensures
            cache@ == Map::<Seq<char>, (V, int)>::empty(),
            cache.spec_window() == window,
    {
        let cache = TtlCache { entries: StringHashMap::new(), window };
        proof {
            assert(cache@ =~= Map::<Seq<char>, (V, int)>::empty());
        }
        cache
    }

    /// The freshness window.
    pub fn window(&self) -> (w: i64)
        ensures
            w == self.spec_window(),
    {
        self.window
    }

    /// Reads the value stored under `key`: it is handed out only if it was
    /// stored less than the window before `now`. The cache is not changed.
    pub fn get(&self, key: &str, now: i64) -> (r: Option<&V>)
        ensures
            match r {
                Some(v) => self.lookup(key@, now as int) == Some(*v),
                None => self.lookup(key@, now as int) is None,
            },
    {
        match self.entries.get(key) {
            None => None,
            Some(entry) => {
                if (now as i128) - (entry.stored_at as i128) < (self.window as i128) {
                    Some(&entry.value)
                } else {
                    None
                }
            },
        }
    }

    /// Stores `value` under `key` with the time `now`, in place of what was
    /// stored under that key before.
    pub fn put(&mut self, key: &str, value: V, now: i64)
        ensures
            final(self)@ == old(self)@.insert(key@, (value, now as int)),
            final(self).spec_window() == old(self).spec_window(),
    {
        self.entries.insert(String::from_str(key), CacheEntry { value, stored_at: now });
        proof {
            assert(self@ =~= old(self)@.insert(key@, (value, now as int)));
        }
    }

    /// Removes every entry.
    pub fn clear(&mut self)
        ensures
            final(self)@ == Map::<Seq<char>, (V, int)>::empty(),
            final(self).spec_window() == old(self).spec_window(),
    {
        self.entries.clear();
        proof {
            assert(self@ =~= Map::<Seq<char>, (V, int)>::empty());
        }
    }

    /// The number of entries, expired ones included.
    pub fn len(&self) -> (n: usize)
        ensures
            n == self@.len(),
    {
        proof {
            assert(self@.dom() =~= self.entries@.dom());
        }
        self.entries.len()
    }
}

/// Two reads of one key that both fall within the freshness window of what
/// is stored give the same value, whatever the two times are.
pub proof fn lemma_fresh_reads_agree<V>(
    contents: Map<Seq<char>, (V, int)>,
    window: int,
    key: Seq<char>,
    first: int,
    second: int,
)
    requires
        contents.contains_key(key),
        is_fresh(contents[key].1, first, window),
        is_fresh(contents[key].1, second, window),
    ensures
        lookup_in(contents, window, key, first) == Some(contents[key].0),
        lookup_in(contents, window, key, second) == lookup_in(contents, window, key, first),
{
}

/// A value stored at `stored` is read back until the window has elapsed,
/// and a read at or after that is a miss, as if nothing had been stored.
pub proof fn lemma_store_then_read<V>(
    contents: Map<Seq<char>, (V, int)>,
    window: int,
    key: Seq<char>,
    value: V,
    stored: int,
    now: int,
)
    ensures
        now - stored < window ==> lookup_in(contents.insert(key, (value, stored)), window, key, now)
            == Some(value),
        now - stored >= window ==> lookup_in(
            contents.insert(key, (value, stored)),
            window,
            key,
            now,
        ) is None,
{
}

/// Storing under one key leaves what is read under every other key as it was.
pub proof fn lemma_store_keeps_other_keys<V>(
    contents: Map<Seq<char>, (V, int)>,
    window: int,
    key: Seq<char>,
    value: V,
    stored: int,
    other: Seq<char>,
    now: int,
)
    requires
        other != key,
    ensures
        lookup_in(contents.insert(key, (value, stored)), window, other, now) == lookup_in(
            contents,
            window,
            other,
            now,
        ),
{
}

/// In a cache that was cleared, every read is a miss, whatever the time.
pub proof fn lemma_cleared_cache_misses<V>(window: int, key: Seq<char>, now: int)
    ensures
        lookup_in(Map::<Seq<char>, (V, int)>::empty(), window, key, now) is None,
{
}

} // verus!

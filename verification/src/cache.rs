use std::collections::hash_map::RandomState;

use lru::LruCache;
use vstd::prelude::*;

verus! {

#[verifier::external_type_specification]
#[verifier::external_body]
#[verifier::reject_recursive_types(K)]
#[verifier::reject_recursive_types(V)]
#[verifier::reject_recursive_types(S)]
pub struct ExLruCache<K, V, S>(lru::LruCache<K, V, S>);

/// The entries of an LRU cache of image sizes, as (path, size in bytes),
/// from the least recently used to the most recently used.
pub uninterp spec fn lru_entries(c: LruCache<String, usize, RandomState>) -> Seq<(Seq<char>, usize)>;

/// The number of entries an LRU cache was made to hold.
pub uninterp spec fn lru_capacity(c: LruCache<String, usize, RandomState>) -> nat;

/// `e` holds an entry for the path `k`.
pub open spec fn has_key(e: Seq<(Seq<char>, usize)>, k: Seq<char>) -> bool {
    exists|i: int| 0 <= i < e.len() && #[trigger] e[i].0 == k
}

/// The position of the entry for `k` in `e`.
pub open spec fn key_index(e: Seq<(Seq<char>, usize)>, k: Seq<char>) -> int {
    choose|i: int| 0 <= i < e.len() && #[trigger] e[i].0 == k
}

/// No path has two entries.
pub open spec fn keys_distinct(e: Seq<(Seq<char>, usize)>) -> bool {
    forall|i: int, j: int| 0 <= i < e.len() && 0 <= j < e.len() && i != j ==> e[i].0 != e[j].0
}

/// What the source of `lru::LruCache` keeps true: distinct keys, at most
/// `cap` entries, and a capacity of at least one.
pub open spec fn lru_valid(c: LruCache<String, usize, RandomState>) -> bool {
    &&& keys_distinct(lru_entries(c))
    &&& lru_entries(c).len() <= lru_capacity(c)
    &&& lru_capacity(c) > 0
}

/// Calls `LruCache::with_hasher` with capacity `cap` and std's hasher: the
/// cache starts empty.
#[verifier::external_body]
fn lru_new(cap: usize) -> (r: LruCache<String, usize, RandomState>)
    requires
        cap > 0,
    ensures
        lru_entries(r).len() == 0,
        lru_capacity(r) == cap,
        lru_valid(r),
{
    LruCache::with_hasher(std::num::NonZeroUsize::new(cap).unwrap(), RandomState::new())
}

/// Calls `LruCache::put`. A present key gets the new value, moves to the most
/// recently used end and its old value is returned. Otherwise the entry is
/// added at that end; when the cache was full the least recently used entry
/// is dropped first, and nothing is returned.
#[verifier::external_body]
fn lru_put(c: &mut LruCache<String, usize, RandomState>, k: String, v: usize) -> (r: Option<usize>)
    requires
        lru_valid(*old(c)),
    ensures
        lru_valid(*final(c)),
        lru_capacity(*final(c)) == lru_capacity(*old(c)),
        ({
            let e = lru_entries(*old(c));
            if has_key(e, k@) {
                let i = key_index(e, k@);
                &&& r == Some(e[i].1)
                &&& lru_entries(*final(c)) == e.remove(i).push((k@, v))
            } else if e.len() == lru_capacity(*old(c)) {
                &&& r is None
                &&& lru_entries(*final(c)) == e.drop_first().push((k@, v))
            } else {
                &&& r is None
                &&& lru_entries(*final(c)) == e.push((k@, v))
            }
        }),
{
    c.put(k, v)
}

/// Calls `LruCache::pop_lru`: removes and returns the least recently used entry.
#[verifier::external_body]
fn lru_pop_lru(c: &mut LruCache<String, usize, RandomState>) -> (r: Option<(String, usize)>)
    requires
        lru_valid(*old(c)),
    ensures
        lru_valid(*final(c)),
        lru_capacity(*final(c)) == lru_capacity(*old(c)),
        ({
            let e = lru_entries(*old(c));
            if e.len() == 0 {
                r is None && lru_entries(*final(c)) == e
            } else {
                &&& r matches Some(p) && p.0@ == e[0].0 && p.1 == e[0].1
                &&& lru_entries(*final(c)) == e.drop_first()
            }
        }),
{
    c.pop_lru()
}

/// Calls `LruCache::peek_lru`: the path of the least recently used entry,
/// leaving the order as it is.
#[verifier::external_body]
fn lru_peek_lru_key(c: &LruCache<String, usize, RandomState>) -> (r: Option<String>)
    requires
        lru_valid(*c),
    ensures
        ({
            let e = lru_entries(*c);
            if e.len() == 0 {
                r is None
            } else {
                r matches Some(p) && p@ == e[0].0
            }
        }),
{
    c.peek_lru().map(|(k, _)| k.clone())
}

/// Calls `LruCache::get`: the value of a present key, which moves to the most
/// recently used end.
#[verifier::external_body]
fn lru_get(c: &mut LruCache<String, usize, RandomState>, k: &str) -> (r: Option<usize>)
    requires
        lru_valid(*old(c)),
    ensures
        lru_valid(*final(c)),
        lru_capacity(*final(c)) == lru_capacity(*old(c)),
        ({
            let e = lru_entries(*old(c));
            if has_key(e, k@) {
                let i = key_index(e, k@);
                &&& r == Some(e[i].1)
                &&& lru_entries(*final(c)) == e.remove(i).push(e[i])
            } else {
                r is None && lru_entries(*final(c)) == e
            }
        }),
{
    c.get(k).copied()
}

/// Calls `LruCache::contains`, which leaves the order as it is.
#[verifier::external_body]
fn lru_contains(c: &LruCache<String, usize, RandomState>, k: &str) -> (r: bool)
    ensures
        r == has_key(lru_entries(*c), k@),
{
    c.contains(k)
}

/// Calls `LruCache::pop`: removes the entry of a present key and returns its value.
#[verifier::external_body]
fn lru_pop(c: &mut LruCache<String, usize, RandomState>, k: &str) -> (r: Option<usize>)
    requires
        lru_valid(*old(c)),
    ensures
        lru_valid(*final(c)),
        lru_capacity(*final(c)) == lru_capacity(*old(c)),
        ({
            let e = lru_entries(*old(c));
            if has_key(e, k@) {
                let i = key_index(e, k@);
                &&& r == Some(e[i].1)
                &&& lru_entries(*final(c)) == e.remove(i)
            } else {
                r is None && lru_entries(*final(c)) == e
            }
        }),
{
    c.pop(k)
}

/// Calls `LruCache::clear`: no entry is left.
#[verifier::external_body]
fn lru_clear(c: &mut LruCache<String, usize, RandomState>)
    requires
        lru_valid(*old(c)),
    ensures
        lru_valid(*final(c)),
        lru_capacity(*final(c)) == lru_capacity(*old(c)),
        lru_entries(*final(c)).len() == 0,
{
    c.clear()
}

/// Calls `LruCache::len`: the number of entries.
#[verifier::external_body]
fn lru_len(c: &LruCache<String, usize, RandomState>) -> (r: usize)
    ensures
        r == lru_entries(*c).len(),
{
    c.len()
}

/// How many entries [`Cache`] holds at most, whatever their size.
pub const ENTRY_LIMIT: usize = 100;

/// The abstract state of a [`Cache`].
pub struct CacheView {
    pub entries: Seq<(Seq<char>, usize)>,
    pub total_size: usize,
    pub max_size: usize,
}

/// Drops least recently used entries while an image of `size` bytes does not
/// fit beside `total` bytes within `limit`. Gives the entries left, the total
/// left, and how many entries were dropped (the first ones of `e`).
pub open spec fn evict_for(e: Seq<(Seq<char>, usize)>, total: usize, size: usize, limit: usize) -> (
    Seq<(Seq<char>, usize)>,
    usize,
    nat,
)
    decreases e.len(),
{
    if size + total <= limit || e.len() == 0 {
        (e, total, 0)
    } else {
        let next = evict_for(
            e.drop_first(),
            vstd::wrapping::usize_specs::wrapping_sub(total, e[0].1),
            size,
            limit,
        );
        (next.0, next.1, next.2 + 1)
    }
}

/// What [`Cache::put`] did.
#[derive(Debug, Clone, PartialEq, Eq)]
pub struct PutOutcome {
    /// The image was recorded; false when it alone is larger than the cache.
    pub stored: bool,
    /// Paths whose images are no longer cached, least recently used first.
    pub evicted: Vec<String>,
}

/// A least-recently-used record of the loaded images by path, bounded by a
/// total size in bytes and by a number of entries. The images themselves are
/// kept by the caller, who drops those the cache evicts.
pub struct Cache {
    lru: LruCache<String, usize, RandomState>,
    total_size: usize,
    max_size: usize,
}

impl View for Cache {
    type V = CacheView;

    closed spec fn view(&self) -> CacheView {
        CacheView {
            entries: lru_entries(self.lru),
            total_size: self.total_size,
            max_size: self.max_size,
        }
    }
}

impl Cache {
    /// The cache is usable: its record is consistent and bounded by [`ENTRY_LIMIT`] entries.
    pub closed spec fn wf(&self) -> bool {
        &&& lru_valid(self.lru)
        &&& lru_capacity(self.lru) == ENTRY_LIMIT
    }

    /// An empty cache for at most `max_size` bytes.
    pub fn new(max_size: usize) -> (r: Cache)
        ensures
            r.wf(),
            r@.entries.len() == 0,
            r@.total_size == 0,
            r@.max_size == max_size,
    {
        Cache { lru: lru_new(ENTRY_LIMIT), total_size: 0, max_size }
    }

    /// Records an image of `size` bytes for `path` as the most recently used.
    /// An image as large as the cache or larger is not recorded. Otherwise the
    /// least recently used images are dropped until it fits; when the cache
    /// then holds [`ENTRY_LIMIT`] other images, the least recently used one
    /// is dropped as well, its size still counted in the total.
    pub fn put(&mut self, path: String, size: usize) -> (r: PutOutcome)
        requires
            old(self).wf(),
        ensures
            final(self).wf(),
            final(self)@.max_size == old(self)@.max_size,
            size >= old(self)@.max_size ==> !r.stored && r.evicted@.len() == 0 && final(self)@
                == old(self)@,
            size < old(self)@.max_size ==> final(self)@.entries.len() > 0
                && final(self)@.entries.last() == (path@, size),
            size < old(self)@.max_size ==> ({
                let e = old(self)@.entries;
                let ev = evict_for(e, old(self)@.total_size, size, old(self)@.max_size);
                let kept = ev.0;
                let full = !has_key(kept, path@) && kept.len() == ENTRY_LIMIT;
                &&& r.stored
                &&& final(self)@.total_size == vstd::wrapping::usize_specs::wrapping_add(
                    ev.1,
                    size,
                )
                &&& r.evicted@.len() == ev.2 + (if full {
                    1int
                } else {
                    0int
                })
                &&& forall|i: int| 0 <= i < ev.2 ==> #[trigger] r.evicted@[i]@ == e[i].0
                &&& full ==> r.evicted@[ev.2 as int]@ == kept[0].0
                &&& if has_key(kept, path@) {
                    final(self)@.entries == kept.remove(key_index(kept, path@)).push((path@, size))
                } else if full {
                    final(self)@.entries == kept.drop_first().push((path@, size))
                } else {
                    final(self)@.entries == kept.push((path@, size))
                }
            }),
    {
        let mut evicted: Vec<String> = Vec::new();
        if size >= self.max_size {
            return PutOutcome { stored: false, evicted };
        }
        let ghost e = self@.entries;
        let ghost limit = self.max_size;
        while self.total_size > self.max_size - size
            invariant
                self.wf(),
                size < self.max_size,
                limit == self.max_size,
                evicted@.len() <= e.len(),
                e.skip(evicted@.len() as int) == lru_entries(self.lru),
                forall|i: int| 0 <= i < evicted@.len() ==> #[trigger] evicted@[i]@ == e[i].0,
                evict_for(e, old(self)@.total_size, size, limit) == ({
                    let ev = evict_for(lru_entries(self.lru), self.total_size, size, limit);
                    (ev.0, ev.1, ev.2 + evicted@.len())
                }),
            ensures
                self.wf(),
                size < self.max_size,
                evicted@.len() <= e.len(),
                e.skip(evicted@.len() as int) == lru_entries(self.lru),
                forall|i: int| 0 <= i < evicted@.len() ==> #[trigger] evicted@[i]@ == e[i].0,
                evict_for(e, old(self)@.total_size, size, limit) == (
                    lru_entries(self.lru),
                    self.total_size,
                    evicted@.len(),
                ),
            decreases lru_entries(self.lru).len(),
        {
            let ghost cur = lru_entries(self.lru);
            match lru_pop_lru(&mut self.lru) {
                Some((k, v)) => {
                    proof {
                        assert(cur[0] == e[evicted@.len() as int]);
                        assert(e.skip(evicted@.len() + 1int) =~= cur.drop_first());
                    }
                    self.total_size = self.total_size.wrapping_sub(v);
                    evicted.push(k);
                },
                None => {
                    break;
                },
            }
        }
        let len = lru_len(&self.lru);
        if !lru_contains(&self.lru, path.as_str()) && len == ENTRY_LIMIT {
            match lru_peek_lru_key(&self.lru) {
                Some(k) => {
                    evicted.push(k);
                },
                None => {},
            }
        }
        self.total_size = self.total_size.wrapping_add(size);
        lru_put(&mut self.lru, path, size);
        PutOutcome { stored: true, evicted }
    }

    /// The size recorded for `path`, which becomes the most recently used.
    pub fn get(&mut self, path: &str) -> (r: Option<usize>)
        requires
            old(self).wf(),
        ensures
            final(self).wf(),
            final(self)@.total_size == old(self)@.total_size,
            final(self)@.max_size == old(self)@.max_size,
            ({
                let e = old(self)@.entries;
                if has_key(e, path@) {
                    let i = key_index(e, path@);
                    &&& r == Some(e[i].1)
                    &&& final(self)@.entries == e.remove(i).push(e[i])
                } else {
                    r is None && final(self)@.entries == e
                }
            }),
    {
        lru_get(&mut self.lru, path)
    }

    /// Whether an image is recorded for `path`; the order is left as it is.
    pub fn contains(&self, path: &str) -> (r: bool)
        ensures
            r == has_key(self@.entries, path@),
    {
        lru_contains(&self.lru, path)
    }

    /// Forgets the image of `path`, and its size in the total.
    pub fn pop(&mut self, path: &str) -> (r: Option<usize>)
        requires
            old(self).wf(),
        ensures
            final(self).wf(),
            final(self)@.max_size == old(self)@.max_size,
            ({
                let e = old(self)@.entries;
                if has_key(e, path@) {
                    let i = key_index(e, path@);
                    &&& r == Some(e[i].1)
                    &&& final(self)@.entries == e.remove(i)
                    &&& final(self)@.total_size == vstd::wrapping::usize_specs::wrapping_sub(
                        old(self)@.total_size,
                        e[i].1,
                    )
                } else {
                    r is None && final(self)@ == old(self)@
                }
            }),
    {
        let r = lru_pop(&mut self.lru, path);
        match r {
            Some(size) => {
                self.total_size = self.total_size.wrapping_sub(size);
            },
            None => {},
        }
        r
    }

    /// Forgets every image.
    pub fn clear(&mut self)
        requires
            old(self).wf(),
        ensures
            final(self).wf(),
            final(self)@.entries.len() == 0,
            final(self)@.total_size == 0,
            final(self)@.max_size == old(self)@.max_size,
    {
        self.total_size = 0;
        lru_clear(&mut self.lru);
    }
}

/// A usable cache holds at most [`ENTRY_LIMIT`] images, and each path once.
pub proof fn cache_is_bounded(c: &Cache)
    requires
        c.wf(),
    ensures
        c@.entries.len() <= ENTRY_LIMIT,
        keys_distinct(c@.entries),
{
}

/// Making room drops only the least recently used entries, in order: what is
/// left is the entries after the dropped ones, and the most recently used
/// entries are never dropped before older ones. Nothing is dropped when the
/// image fits already.
pub proof fn eviction_drops_oldest_first(
    e: Seq<(Seq<char>, usize)>,
    total: usize,
    size: usize,
    limit: usize,
)
    ensures
        evict_for(e, total, size, limit).2 <= e.len(),
        evict_for(e, total, size, limit).0 == e.skip(evict_for(e, total, size, limit).2 as int),
        size + total <= limit ==> evict_for(e, total, size, limit).2 == 0,
    decreases e.len(),
{
    if size + total <= limit || e.len() == 0 {
        assert(e.skip(0) =~= e);
    } else {
        let t = vstd::wrapping::usize_specs::wrapping_sub(total, e[0].1);
        eviction_drops_oldest_first(e.drop_first(), t, size, limit);
        let n = evict_for(e.drop_first(), t, size, limit).2;
        assert(e.drop_first().skip(n as int) =~= e.skip((n + 1) as int));
    }
}

} // verus!

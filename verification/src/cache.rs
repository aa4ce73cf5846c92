//! Size bounded memory cache for completed renders, least recently used first out.

use std::sync::Arc;

use vstd::prelude::*;

use crate::result::{RenderedMath, saturating_sum};
use crate::text::{owned, utf8_len};

verus! {

/// Resource limits for one render cache.
#[derive(Clone, Copy, Debug, PartialEq, Eq, Structural)]
pub struct CacheLimits {
    /// Maximum stored entry count.
    pub max_entries: usize,
    /// Maximum estimated content bytes.
    pub max_bytes: usize,
}

impl Default for CacheLimits {
    fn default() -> (r: Self)
        ensures
            r.max_entries == 256,
            r.max_bytes == 33554432,
    {
        CacheLimits { max_entries: 256, max_bytes: 33554432 }
    }
}

/// Outcome of adding one render result.
#[derive(Clone, Copy, Debug, PartialEq, Eq, Structural)]
pub enum CacheInsert {
    /// The value was stored and is available for lookup.
    Stored,
    /// The value alone exceeds the configured byte limit.
    SkippedOversized,
    /// The value has no cache key.
    SkippedInvalidKey,
}

/// Snapshot of cache usage and lifetime counters.
#[derive(Clone, Copy, Debug, PartialEq, Eq, Structural)]
pub struct CacheStats {
    /// Current stored entry count.
    pub entries: usize,
    /// Current estimated content bytes.
    pub bytes: usize,
    /// Successful lookup count.
    pub hits: u64,
    /// Unsuccessful lookup count.
    pub misses: u64,
    /// Capacity eviction count.
    pub evictions: u64,
}

impl Default for CacheStats {
    fn default() -> (r: Self)
        ensures
            r == (CacheStats { entries: 0, bytes: 0, hits: 0, misses: 0, evictions: 0 }),
    {
        CacheStats { entries: 0, bytes: 0, hits: 0, misses: 0, evictions: 0 }
    }
}

/// One stored result: its key, value and accounted size.
pub struct CacheEntryView {
    pub key: Seq<char>,
    pub value: RenderedMath,
    pub bytes: int,
}

/// The state of a cache: entries from least to most recently used, the byte counter
/// and the lifetime counters.
pub struct CacheView {
    pub limits: CacheLimits,
    pub entries: Seq<CacheEntryView>,
    pub bytes: int,
    pub hits: int,
    pub misses: int,
    pub evictions: int,
}

/// `a + b`, capped at `max`.
pub open spec fn capped_add(a: int, b: int, max: int) -> int {
    if a + b > max {
        max
    } else {
        a + b
    }
}

/// `a - b`, floored at zero.
pub open spec fn floored_sub(a: int, b: int) -> int {
    if a < b {
        0
    } else {
        a - b
    }
}

/// The bytes a result is accounted for: SVG, accessibility text and key, capped.
pub open spec fn value_size(v: RenderedMath) -> int {
    saturating_sum(
        saturating_sum(v.svg@.len() as int, utf8_len(v.accessibility_text@) as int),
        utf8_len(v.cache_key@) as int,
    )
}

/// The sum of the accounted sizes of the entries.
pub open spec fn total_bytes(entries: Seq<CacheEntryView>) -> int
    decreases entries.len(),
{
    if entries.len() == 0 {
        0
    } else {
        total_bytes(entries.drop_last()) + entries.last().bytes
    }
}

pub open spec fn has_key(entries: Seq<CacheEntryView>, key: Seq<char>) -> bool {
    exists|i: int| 0 <= i < entries.len() && #[trigger] entries[i].key == key
}

/// The position of a stored key.
pub open spec fn index_of(entries: Seq<CacheEntryView>, key: Seq<char>) -> int {
    choose|i: int| 0 <= i < entries.len() && #[trigger] entries[i].key == key
}

/// Every stored key occurs once.
pub open spec fn distinct_keys(entries: Seq<CacheEntryView>) -> bool {
    forall|i: int, j: int| 0 <= i < j < entries.len() ==> #[trigger] entries[i].key != #[trigger] entries[j].key
}

/// The invariant of every cache.
pub open spec fn cache_inv(c: CacheView) -> bool {
    &&& c.limits.max_entries > 0
    &&& c.limits.max_bytes > 0
    &&& c.entries.len() <= c.limits.max_entries
    &&& 0 <= c.bytes <= c.limits.max_bytes
    &&& 0 <= c.hits <= u64::MAX
    &&& 0 <= c.misses <= u64::MAX
    &&& 0 <= c.evictions <= u64::MAX
    &&& distinct_keys(c.entries)
    &&& forall|i: int| 0 <= i < c.entries.len() ==> {
        let e = #[trigger] c.entries[i];
        &&& e.key.len() > 0
        &&& e.key == e.value.cache_key@
        &&& e.bytes == value_size(e.value)
        &&& 0 <= e.bytes <= c.limits.max_bytes
    }
    &&& (c.limits.max_bytes < usize::MAX ==> c.bytes == total_bytes(c.entries))
}

/// The result stored under a key.
pub open spec fn lookup(c: CacheView, key: Seq<char>) -> Option<RenderedMath> {
    if has_key(c.entries, key) {
        Some(c.entries[index_of(c.entries, key)].value)
    } else {
        None
    }
}

/// A lookup: a hit moves the entry to the most recent position.
pub open spec fn get_model(c: CacheView, key: Seq<char>) -> (CacheView, Option<RenderedMath>) {
    if has_key(c.entries, key) {
        let i = index_of(c.entries, key);
        (
            CacheView {
                entries: c.entries.remove(i).push(c.entries[i]),
                hits: capped_add(c.hits, 1, u64::MAX as int),
                ..c
            },
            Some(c.entries[i].value),
        )
    } else {
        (CacheView { misses: capped_add(c.misses, 1, u64::MAX as int), ..c }, None)
    }
}

/// Drops the entry stored under a key, if any.
pub open spec fn remove_model(c: CacheView, key: Seq<char>) -> CacheView {
    if has_key(c.entries, key) {
        let i = index_of(c.entries, key);
        CacheView { entries: c.entries.remove(i), bytes: floored_sub(c.bytes, c.entries[i].bytes), ..c }
    } else {
        c
    }
}

/// Whether room must be made before storing `vb` more bytes.
pub open spec fn must_evict(c: CacheView, vb: int) -> bool {
    c.entries.len() >= c.limits.max_entries || capped_add(c.bytes, vb, usize::MAX as int) > c.limits.max_bytes
}

/// Evicts least recently used entries until `vb` more bytes fit, or nothing is left.
pub open spec fn evict_model(c: CacheView, vb: int) -> CacheView
    decreases c.entries.len(),
{
    if c.entries.len() > 0 && must_evict(c, vb) {
        evict_model(
            CacheView {
                entries: c.entries.drop_first(),
                bytes: floored_sub(c.bytes, c.entries[0].bytes),
                evictions: capped_add(c.evictions, 1, u64::MAX as int),
                ..c
            },
            vb,
        )
    } else {
        c
    }
}

/// Storing a result: keyless and oversized results are skipped; otherwise a previous
/// entry under the key is replaced, the least recently used entries are evicted until
/// the result fits, and it becomes the most recent entry.
pub open spec fn insert_model(c: CacheView, v: RenderedMath) -> (CacheView, CacheInsert) {
    if v.cache_key@.len() == 0 {
        (c, CacheInsert::SkippedInvalidKey)
    } else if value_size(v) > c.limits.max_bytes {
        (c, CacheInsert::SkippedOversized)
    } else {
        let vb = value_size(v);
        let c2 = evict_model(remove_model(c, v.cache_key@), vb);
        (
            CacheView {
                entries: c2.entries.push(CacheEntryView { key: v.cache_key@, value: v, bytes: vb }),
                bytes: capped_add(c2.bytes, vb, usize::MAX as int),
                ..c2
            },
            CacheInsert::Stored,
        )
    }
}

struct CacheEntry {
    key: String,
    value: Arc<RenderedMath>,
    bytes: usize,
}

impl CacheEntry {
    spec fn view_entry(&self) -> CacheEntryView {
        CacheEntryView { key: self.key@, value: *self.value, bytes: self.bytes as int }
    }
}

/// An in memory least recently used cache bounded by entries and bytes.
pub struct RenderCache {
    limits: CacheLimits,
    entries: Vec<CacheEntry>,
    bytes: usize,
    hits: u64,
    misses: u64,
    evictions: u64,
}

impl View for RenderCache {
    type V = CacheView;

    closed spec fn view(&self) -> CacheView {
        CacheView {
            limits: self.limits,
            entries: self.entries@.map_values(|e: CacheEntry| e.view_entry()),
            bytes: self.bytes as int,
            hits: self.hits as int,
            misses: self.misses as int,
            evictions: self.evictions as int,
        }
    }
}

/// Another shared pointer to the same result (`Arc::clone`).
#[verifier::external_body]
fn share(value: &Arc<RenderedMath>) -> (r: Arc<RenderedMath>)
    ensures
        *r == **value,
{
    Arc::clone(value)
}

impl RenderCache {
    /// The invariant of every cache.
    pub open spec fn wf(&self) -> bool {
        cache_inv(self@)
    }

    /// Creates an empty cache or returns `None` for zero limits.
    pub fn new(limits: CacheLimits) -> (r: Option<Self>)
        ensures
            (limits.max_entries == 0 || limits.max_bytes == 0) ==> r is None,
            (limits.max_entries > 0 && limits.max_bytes > 0) ==> (r matches Some(c) && c.wf()
                && c@.limits == limits && c@.entries.len() == 0 && c@.bytes == 0 && c@.hits == 0
                && c@.misses == 0 && c@.evictions == 0),
    {
        if limits.max_entries == 0 || limits.max_bytes == 0 {
            return None;
        }
        let c = RenderCache { limits, entries: Vec::new(), bytes: 0, hits: 0, misses: 0, evictions: 0 };
        assert(c@.entries =~= Seq::<CacheEntryView>::empty());
        Some(c)
    }

    /// The position of a key among the entries.
    fn find(&self, key: &String) -> (r: Option<usize>)
        requires
            self.wf(),
        ensures
            match r {
                Some(i) => has_key(self@.entries, key@) && i as int == index_of(self@.entries, key@),
                None => !has_key(self@.entries, key@),
            },
    {
        let mut i: usize = 0;
        while i < self.entries.len()
            invariant
                i <= self.entries@.len(),
                self.wf(),
                forall|j: int| 0 <= j < i ==> #[trigger] self@.entries[j].key != key@,
            decreases self.entries@.len() - i,
        {
            if self.entries[i].key == *key {
                assert(self@.entries[i as int].key == key@);
                let ghost k = index_of(self@.entries, key@);
                assert(self@.entries[k].key == key@);
                assert(k == i) by {
                    if k != i {
                        if k < i {
                            assert(self@.entries[k].key != self@.entries[i as int].key);
                        } else {
                            assert(self@.entries[i as int].key != self@.entries[k].key);
                        }
                    }
                }
                return Some(i);
            }
            i = i + 1;
        }
        None
    }
}


proof fn lemma_total_remove(s: Seq<CacheEntryView>, i: int)
    requires
        0 <= i < s.len(),
    ensures
        total_bytes(s.remove(i)) == total_bytes(s) - s[i].bytes,
    decreases s.len(),
{
    if i == s.len() - 1 {
        assert(s.remove(i) =~= s.drop_last());
    } else {
        let d = s.drop_last();
        lemma_total_remove(d, i);
        assert(s.remove(i) =~= d.remove(i).push(s.last()));
        assert(s.remove(i).drop_last() =~= d.remove(i));
    }
}

proof fn lemma_total_push(s: Seq<CacheEntryView>, e: CacheEntryView)
    ensures
        total_bytes(s.push(e)) == total_bytes(s) + e.bytes,
{
    assert(s.push(e).drop_last() =~= s);
}

proof fn lemma_total_nonneg(s: Seq<CacheEntryView>)
    requires
        forall|i: int| 0 <= i < s.len() ==> #[trigger] s[i].bytes >= 0,
    ensures
        total_bytes(s) >= 0,
        forall|i: int| 0 <= i < s.len() ==> #[trigger] s[i].bytes <= total_bytes(s),
    decreases s.len(),
{
    if s.len() > 0 {
        let d = s.drop_last();
        assert forall|i: int| 0 <= i < d.len() implies #[trigger] d[i].bytes >= 0 by {
            assert(d[i] == s[i]);
        }
        lemma_total_nonneg(d);
        assert forall|i: int| 0 <= i < s.len() implies #[trigger] s[i].bytes <= total_bytes(s) by {
            if i < s.len() - 1 {
                assert(d[i] == s[i]);
            }
        }
    }
}

/// Removing the entry at `i` keeps the invariant (bounds only shrink).
proof fn lemma_remove_inv(c: CacheView, i: int)
    requires
        cache_inv(c),
        0 <= i < c.entries.len(),
    ensures
        cache_inv(CacheView { entries: c.entries.remove(i), bytes: floored_sub(c.bytes, c.entries[i].bytes), ..c }),
{
    let r = CacheView { entries: c.entries.remove(i), bytes: floored_sub(c.bytes, c.entries[i].bytes), ..c };
    assert forall|a: int, b: int| 0 <= a < b < r.entries.len() implies #[trigger] r.entries[a].key != #[trigger] r.entries[b].key by {
        let a0 = if a < i { a } else { a + 1 };
        let b0 = if b < i { b } else { b + 1 };
        assert(r.entries[a] == c.entries[a0]);
        assert(r.entries[b] == c.entries[b0]);
        assert(c.entries[a0].key != c.entries[b0].key);
    }
    assert forall|k: int| 0 <= k < r.entries.len() implies {
        let e = #[trigger] r.entries[k];
        &&& e.key.len() > 0
        &&& e.key == e.value.cache_key@
        &&& e.bytes == value_size(e.value)
        &&& 0 <= e.bytes <= c.limits.max_bytes
    } by {
        let k0 = if k < i { k } else { k + 1 };
        assert(r.entries[k] == c.entries[k0]);
    }
    if c.limits.max_bytes < usize::MAX {
        lemma_total_remove(c.entries, i);
        assert forall|k: int| 0 <= k < c.entries.len() implies #[trigger] c.entries[k].bytes >= 0 by {}
        lemma_total_nonneg(c.entries);
    }
}

/// Eviction keeps the invariant, drops only least recent entries, and stops once the
/// new bytes fit or nothing is left.
proof fn lemma_evict(c: CacheView, vb: int)
    requires
        cache_inv(c),
    ensures
        cache_inv(evict_model(c, vb)),
        evict_model(c, vb).entries.len() <= c.entries.len(),
        evict_model(c, vb).entries == c.entries.skip(c.entries.len() - evict_model(c, vb).entries.len()),
        !(evict_model(c, vb).entries.len() > 0 && must_evict(evict_model(c, vb), vb)),
        evict_model(c, vb).limits == c.limits,
        evict_model(c, vb).hits == c.hits,
        evict_model(c, vb).misses == c.misses,
    decreases c.entries.len(),
{
    if c.entries.len() > 0 && must_evict(c, vb) {
        let c1 = CacheView {
            entries: c.entries.drop_first(),
            bytes: floored_sub(c.bytes, c.entries[0].bytes),
            evictions: capped_add(c.evictions, 1, u64::MAX as int),
            ..c
        };
        lemma_remove_inv(c, 0);
        assert(c.entries.remove(0) =~= c.entries.drop_first());
        lemma_evict(c1, vb);
        let r = evict_model(c1, vb);
        assert(r.entries =~= c.entries.skip(c.entries.len() - r.entries.len()));
    } else {
        assert(c.entries.skip(0) =~= c.entries);
    }
}

proof fn lemma_removed_key_absent(c: CacheView, key: Seq<char>)
    requires
        cache_inv(c),
    ensures
        !has_key(remove_model(c, key).entries, key),
{
    if has_key(c.entries, key) {
        let i = index_of(c.entries, key);
        let r = c.entries.remove(i);
        if has_key(r, key) {
            let j = choose|j: int| 0 <= j < r.len() && #[trigger] r[j].key == key;
            let j0 = if j < i { j } else { j + 1 };
            assert(r[j] == c.entries[j0]);
            if j0 < i {
                assert(c.entries[j0].key != c.entries[i].key);
            } else {
                assert(c.entries[i].key != c.entries[j0].key);
            }
        }
    }
}

/// Appending an absent key after eviction keeps the invariant.
proof fn lemma_store(removed: CacheView, evicted: CacheView, e: CacheEntryView)
    requires
        cache_inv(removed),
        !has_key(removed.entries, e.key),
        evicted == evict_model(removed, e.bytes),
        evicted.entries.len() == 0 || !must_evict(evicted, e.bytes),
        e.key.len() > 0,
        e.key == e.value.cache_key@,
        e.bytes == value_size(e.value),
        0 <= e.bytes <= removed.limits.max_bytes,
    ensures
        cache_inv(CacheView {
            entries: evicted.entries.push(e),
            bytes: capped_add(evicted.bytes, e.bytes, usize::MAX as int),
            ..evicted
        }),
{
    lemma_evict(removed, e.bytes);
    let s = evicted.entries.push(e);
    let off = removed.entries.len() - evicted.entries.len();
    assert forall|a: int, b: int| 0 <= a < b < s.len() implies #[trigger] s[a].key != #[trigger] s[b].key by {
        assert(s[a] == removed.entries[a + off]);
        if b == s.len() - 1 {
            assert(s[b] == e);
        } else {
            assert(s[b] == removed.entries[b + off]);
        }
    }
    assert forall|k: int| 0 <= k < s.len() implies {
        let x = #[trigger] s[k];
        &&& x.key.len() > 0
        &&& x.key == x.value.cache_key@
        &&& x.bytes == value_size(x.value)
        &&& 0 <= x.bytes <= removed.limits.max_bytes
    } by {
        if k < s.len() - 1 {
            assert(s[k] == evicted.entries[k]);
        }
    }
    if evicted.entries.len() == 0 && removed.limits.max_bytes < usize::MAX {
        assert(total_bytes(evicted.entries) == 0);
    }
    lemma_total_push(evicted.entries, e);
}

impl RenderCache {
    /// Drops the entry stored under a key; returns whether there was one.
    fn remove_key(&mut self, key: &String) -> (r: bool)
        requires
            old(self).wf(),
        ensures
            final(self).wf(),
            final(self)@ == remove_model(old(self)@, key@),
            r == has_key(old(self)@.entries, key@),
    {
        match self.find(key) {
            None => false,
            Some(i) => {
                proof {
                    lemma_remove_inv(self@, i as int);
                }
                let entry = self.entries.remove(i);
                self.bytes = self.bytes.saturating_sub(entry.bytes);
                assert(self@.entries =~= old(self)@.entries.remove(i as int));
                true
            },
        }
    }

    /// Evicts the least recently used entry; returns whether there was one.
    fn evict_oldest(&mut self) -> (r: bool)
        requires
            old(self).wf(),
        ensures
            final(self).wf(),
            r == (old(self)@.entries.len() > 0),
            r ==> final(self)@ == (CacheView {
                entries: old(self)@.entries.drop_first(),
                bytes: floored_sub(old(self)@.bytes, old(self)@.entries[0].bytes),
                evictions: capped_add(old(self)@.evictions, 1, u64::MAX as int),
                ..old(self)@
            }),
            !r ==> final(self)@ == old(self)@,
    {
        if self.entries.len() == 0 {
            return false;
        }
        proof {
            lemma_remove_inv(self@, 0);
        }
        let entry = self.entries.remove(0);
        self.bytes = self.bytes.saturating_sub(entry.bytes);
        self.evictions = self.evictions.saturating_add(1);
        assert(self@.entries =~= old(self)@.entries.drop_first());
        assert(old(self)@.entries.remove(0) =~= old(self)@.entries.drop_first());
        true
    }

    /// Returns a shared result and makes it the most recently used entry.
    pub fn get(&mut self, key: &str) -> (r: Option<Arc<RenderedMath>>)
        requires
            old(self).wf(),
        ensures
            final(self).wf(),
            final(self)@ == get_model(old(self)@, key@).0,
            match get_model(old(self)@, key@).1 {
                Some(v) => r matches Some(a) && *a == v,
                None => r is None,
            },
    {
        let k = owned(key);
        match self.find(&k) {
            None => {
                self.misses = self.misses.saturating_add(1);
                None
            },
            Some(i) => {
                let ghost before = self@;
                let entry = self.entries.remove(i);
                let value = share(&entry.value);
                self.entries.push(entry);
                self.hits = self.hits.saturating_add(1);
                proof {
                    let e = before.entries[i as int];
                    assert(self@.entries =~= before.entries.remove(i as int).push(e));
                    lemma_remove_inv(before, i as int);
                    let mid = before.entries.remove(i as int);
                    assert forall|a: int, b: int| 0 <= a < b < self@.entries.len() implies #[trigger] self@.entries[a].key != #[trigger] self@.entries[b].key by {
                        if b == self@.entries.len() - 1 {
                            let a0 = if a < i { a } else { a + 1 };
                            assert(self@.entries[a] == before.entries[a0]);
                            if a0 < i {
                                assert(before.entries[a0].key != before.entries[i as int].key);
                            } else {
                                assert(before.entries[i as int].key != before.entries[a0].key);
                            }
                        } else {
                            assert(self@.entries[a] == mid[a]);
                            assert(self@.entries[b] == mid[b]);
                        }
                    }
                    assert forall|k: int| 0 <= k < self@.entries.len() implies {
                        let x = #[trigger] self@.entries[k];
                        &&& x.key.len() > 0
                        &&& x.key == x.value.cache_key@
                        &&& x.bytes == value_size(x.value)
                        &&& 0 <= x.bytes <= before.limits.max_bytes
                    } by {
                        if k < self@.entries.len() - 1 {
                            assert(self@.entries[k] == mid[k]);
                        }
                    }
                    if before.limits.max_bytes < usize::MAX {
                        lemma_total_remove(before.entries, i as int);
                        lemma_total_push(mid, e);
                    }
                }
                Some(value)
            },
        }
    }

    /// Stores a result after evicting older entries when required.
    pub fn insert(&mut self, value: RenderedMath) -> (r: CacheInsert)
        requires
            old(self).wf(),
        ensures
            final(self).wf(),
            (final(self)@, r) == insert_model(old(self)@, value),
    {
        if value.cache_key.as_str().is_empty() {
            return CacheInsert::SkippedInvalidKey;
        }
        let value_bytes = value.estimated_size_bytes();
        if value_bytes > self.limits.max_bytes {
            return CacheInsert::SkippedOversized;
        }
        let key = value.cache_key.clone();
        self.remove_key(&key);
        let ghost removed = self@;
        proof {
            lemma_removed_key_absent(old(self)@, key@);
        }
        while self.entries.len() >= self.limits.max_entries || self.bytes.saturating_add(value_bytes)
            > self.limits.max_bytes
            invariant
                self.wf(),
                evict_model(self@, value_bytes as int) == evict_model(removed, value_bytes as int),
            ensures
                self.wf(),
                evict_model(self@, value_bytes as int) == evict_model(removed, value_bytes as int),
                self@.entries.len() == 0 || !must_evict(self@, value_bytes as int),
            decreases self.entries@.len(),
        {
            if !self.evict_oldest() {
                break;
            }
        }
        let ghost evicted = self@;
        self.bytes = self.bytes.saturating_add(value_bytes);
        let entry = CacheEntry { key, value: Arc::new(value), bytes: value_bytes };
        self.entries.push(entry);
        proof {
            lemma_evict(removed, value_bytes as int);
            let e = CacheEntryView { key: value.cache_key@, value, bytes: value_bytes as int };
            assert(self@.entries =~= evicted.entries.push(e));
            lemma_store(removed, evicted, e);
        }
        CacheInsert::Stored
    }

    /// Removes all entries while preserving lifetime counters.
    pub fn clear(&mut self)
        requires
            old(self).wf(),
        ensures
            final(self).wf(),
            final(self)@ == (CacheView { entries: Seq::empty(), bytes: 0, ..old(self)@ }),
    {
        self.entries.clear();
        self.bytes = 0;
        assert(self@.entries =~= Seq::<CacheEntryView>::empty());
    }

    /// Returns current usage and lifetime counters.
    pub fn stats(&self) -> (r: CacheStats)
        requires
            self.wf(),
        ensures
            r.entries == self@.entries.len(),
            r.bytes == self@.bytes,
            r.hits == self@.hits,
            r.misses == self@.misses,
            r.evictions == self@.evictions,
    {
        CacheStats {
            entries: self.entries.len(),
            bytes: self.bytes,
            hits: self.hits,
            misses: self.misses,
            evictions: self.evictions,
        }
    }
}


/// Read after write: once a result is stored, looking up its key returns it.
pub proof fn law_lookup_after_insert(c: CacheView, v: RenderedMath)
    requires
        cache_inv(c),
        insert_model(c, v).1 == CacheInsert::Stored,
    ensures
        lookup(insert_model(c, v).0, v.cache_key@) == Some(v),
        get_model(insert_model(c, v).0, v.cache_key@).1 == Some(v),
{
    let vb = value_size(v);
    let removed = remove_model(c, v.cache_key@);
    lemma_removed_key_absent(c, v.cache_key@);
    lemma_remove_model_inv(c, v.cache_key@);
    let evicted = evict_model(removed, vb);
    lemma_evict(removed, vb);
    let e = CacheEntryView { key: v.cache_key@, value: v, bytes: vb };
    lemma_store(removed, evicted, e);
    let n = insert_model(c, v).0;
    let last = n.entries.len() - 1;
    assert(n.entries[last].key == v.cache_key@);
    let k = index_of(n.entries, v.cache_key@);
    assert(k == last) by {
        if k != last {
            assert(n.entries[k].key != n.entries[last].key);
        }
    }
}

proof fn lemma_remove_model_inv(c: CacheView, key: Seq<char>)
    requires
        cache_inv(c),
    ensures
        cache_inv(remove_model(c, key)),
{
    if has_key(c.entries, key) {
        lemma_remove_inv(c, index_of(c.entries, key));
    }
}

/// Every insertion keeps the cache within its entry and byte limits.
pub proof fn law_insert_respects_limits(c: CacheView, v: RenderedMath)
    requires
        cache_inv(c),
    ensures
        cache_inv(insert_model(c, v).0),
        insert_model(c, v).0.entries.len() <= c.limits.max_entries,
        insert_model(c, v).0.bytes <= c.limits.max_bytes,
{
    if insert_model(c, v).1 == CacheInsert::Stored {
        let vb = value_size(v);
        let removed = remove_model(c, v.cache_key@);
        lemma_removed_key_absent(c, v.cache_key@);
        lemma_remove_model_inv(c, v.cache_key@);
        lemma_evict(removed, vb);
        lemma_store(removed, evict_model(removed, vb), CacheEntryView { key: v.cache_key@, value: v, bytes: vb });
    }
}

/// Eviction takes the least recently used entries: after storing, the entries are the
/// most recent ones that were there (with any previous entry under the key dropped),
/// followed by the new result.
pub proof fn law_eviction_is_least_recent_first(c: CacheView, v: RenderedMath)
    requires
        cache_inv(c),
        insert_model(c, v).1 == CacheInsert::Stored,
    ensures
        ({
            let before = remove_model(c, v.cache_key@).entries;
            let after = insert_model(c, v).0.entries;
            let kept = after.len() - 1;
            &&& kept <= before.len()
            &&& after == before.skip(before.len() - kept).push(after.last())
            &&& after.last().value == v
        }),
{
    let vb = value_size(v);
    let removed = remove_model(c, v.cache_key@);
    lemma_remove_model_inv(c, v.cache_key@);
    lemma_evict(removed, vb);
    let after = insert_model(c, v).0.entries;
    assert(after.drop_last() =~= evict_model(removed, vb).entries);
    assert(after =~= after.drop_last().push(after.last()));
}

/// A lookup changes no stored value: every key maps to the same result afterwards.
pub proof fn law_get_keeps_contents(c: CacheView, key: Seq<char>, other: Seq<char>)
    requires
        cache_inv(c),
    ensures
        lookup(get_model(c, key).0, other) == lookup(c, other),
        get_model(c, key).1 == lookup(c, key),
{
    if has_key(c.entries, key) {
        let i = index_of(c.entries, key);
        let n = get_model(c, key).0;
        let mid = c.entries.remove(i);
        assert(n.entries == mid.push(c.entries[i]));
        if has_key(c.entries, other) {
            let j = index_of(c.entries, other);
            let jn = if j == i { n.entries.len() - 1 } else if j < i { j } else { j - 1 };
            assert(n.entries[jn] == c.entries[j]);
            assert(has_key(n.entries, other));
            let k = index_of(n.entries, other);
            assert(k == jn) by {
                if k != jn {
                    let k0 = if k == n.entries.len() - 1 { i } else if k < i { k } else { k + 1 };
                    assert(n.entries[k] == c.entries[k0]);
                    if k0 < j {
                        assert(c.entries[k0].key != c.entries[j].key);
                    } else if k0 > j {
                        assert(c.entries[j].key != c.entries[k0].key);
                    }
                }
            }
        } else {
            assert(!has_key(n.entries, other)) by {
                if has_key(n.entries, other) {
                    let k = index_of(n.entries, other);
                    let k0 = if k == n.entries.len() - 1 { i } else if k < i { k } else { k + 1 };
                    assert(n.entries[k] == c.entries[k0]);
                }
            }
        }
    }
}

} // verus!

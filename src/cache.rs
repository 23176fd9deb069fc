//! A cache of enrichment answers keyed by (source node, file content hash),
//! whose entries expire after a time to live. Times are milliseconds on a clock
//! the caller reads.
use vstd::prelude::*;
use crate::model::GraphNode;
use crate::semantic::InferredRelationship;

verus! {

/// A cached answer.
#[derive(Clone, Debug)]
pub struct CacheEntry {
    pub source_node_id: u64,
    pub file_hash: u64,
    pub relationships: Vec<InferredRelationship>,
    /// When the answer was stored.
    pub timestamp_ms: u64,
    pub ttl_ms: u64,
}

/// An entry stored at `stamp` with lifetime `ttl` has expired at `now` once
/// more than `ttl` has elapsed.
pub open spec fn expired_at(stamp: u64, ttl: u64, now: u64) -> bool {
    now >= stamp && now - stamp > ttl
}

impl CacheEntry {
    /// Whether the entry has expired at `now_ms`.
    pub fn is_expired(&self, now_ms: u64) -> (r: bool)
        ensures
            r == expired_at(self.timestamp_ms, self.ttl_ms, now_ms),
    {
        now_ms >= self.timestamp_ms && now_ms - self.timestamp_ms > self.ttl_ms
    }
}

/// Counts of a cache's entries.
#[derive(Clone, Copy, Debug, PartialEq, Eq, Structural)]
pub struct CacheStats {
    pub total_entries: usize,
    pub expired_entries: usize,
}

/// Number of entries expired at `now`.
pub open spec fn count_expired(s: Seq<CacheEntry>, now: u64) -> nat
    decreases s.len(),
{
    if s.len() == 0 {
        0
    } else {
        count_expired(s.drop_last(), now) + if expired_at(s.last().timestamp_ms, s.last().ttl_ms, now) {
            1nat
        } else {
            0nat
        }
    }
}

/// The entries not expired at `now`, in order.
pub open spec fn unexpired(s: Seq<CacheEntry>, now: u64) -> Seq<CacheEntry>
    decreases s.len(),
{
    if s.len() == 0 {
        Seq::empty()
    } else if expired_at(s.last().timestamp_ms, s.last().ttl_ms, now) {
        unexpired(s.drop_last(), now)
    } else {
        unexpired(s.drop_last(), now).push(s.last())
    }
}

/// No two entries share a key.
pub open spec fn distinct_keys(s: Seq<CacheEntry>) -> bool {
    forall|i: int, j: int|
        0 <= i < s.len() && 0 <= j < s.len() && i != j ==> ((#[trigger] s[i]).source_node_id, s[i].file_hash) != (
            (#[trigger] s[j]).source_node_id,
            s[j].file_hash,
        )
}

/// Dropping expired entries keeps keys distinct, and keeps only entries that were there.
pub proof fn lemma_unexpired_distinct(s: Seq<CacheEntry>, now: u64)
    requires
        distinct_keys(s),
    ensures
        distinct_keys(unexpired(s, now)),
        forall|k: int| 0 <= k < unexpired(s, now).len() ==> s.contains(#[trigger] unexpired(s, now)[k]),
    decreases s.len(),
{
    if s.len() > 0 {
        let p = s.drop_last();
        assert(distinct_keys(p)) by {
            assert forall|i: int, j: int| 0 <= i < p.len() && 0 <= j < p.len() && i != j implies ((
            #[trigger] p[i]).source_node_id, p[i].file_hash) != ((#[trigger] p[j]).source_node_id, p[j].file_hash) by {
                assert(p[i] == s[i] && p[j] == s[j]);
            }
        }
        lemma_unexpired_distinct(p, now);
        let u = unexpired(p, now);
        let v = unexpired(s, now);
        assert forall|k: int| 0 <= k < u.len() implies s.contains(#[trigger] u[k]) by {
            assert(p.contains(u[k]));
            let m = choose|m: int| 0 <= m < p.len() && p[m] == u[k];
            assert(s[m] == u[k]);
        }
        if !expired_at(s.last().timestamp_ms, s.last().ttl_ms, now) {
            assert(v == u.push(s.last()));
            assert(s[s.len() - 1] == s.last());
            assert forall|k: int| 0 <= k < v.len() implies s.contains(#[trigger] v[k]) by {
                if k < u.len() {
                    assert(v[k] == u[k]);
                }
            }
            assert forall|i: int, j: int| 0 <= i < v.len() && 0 <= j < v.len() && i != j implies ((
            #[trigger] v[i]).source_node_id, v[i].file_hash) != ((#[trigger] v[j]).source_node_id, v[j].file_hash) by {
                if i < u.len() && j < u.len() {
                    assert(v[i] == u[i] && v[j] == u[j]);
                } else if i < u.len() {
                    assert(v[i] == u[i]);
                    assert(p.contains(u[i]));
                    let m = choose|m: int| 0 <= m < p.len() && p[m] == u[i];
                    assert(s[m] == u[i]);
                } else {
                    assert(v[j] == u[j]);
                    assert(p.contains(u[j]));
                    let m = choose|m: int| 0 <= m < p.len() && p[m] == u[j];
                    assert(s[m] == u[j]);
                }
            }
        }
    }
}

/// Enrichment answers, at most one per key.
pub struct AnalysisCache {
    entries: Vec<CacheEntry>,
    default_ttl_ms: u64,
}

impl View for AnalysisCache {
    type V = Seq<CacheEntry>;

    closed spec fn view(&self) -> Seq<CacheEntry> {
        self.entries@
    }
}

impl AnalysisCache {
    pub closed spec fn ttl(&self) -> u64 {
        self.default_ttl_ms
    }

    /// An empty cache whose entries live `default_ttl_ms`.
    pub fn new(default_ttl_ms: u64) -> (r: AnalysisCache)
        ensures
            r@.len() == 0,
            r.ttl() == default_ttl_ms,
    {
        AnalysisCache { entries: Vec::new(), default_ttl_ms }
    }

    /// The unexpired answer stored for `source_node` and `file_content_hash`.
    pub fn get(&self, source_node: &GraphNode, file_content_hash: u64, now_ms: u64) -> (r: Option<&CacheEntry>)
        requires
            distinct_keys(self@),
        ensures
            r is Some <==> exists|i: int|
                0 <= i < self@.len() && (#[trigger] self@[i]).source_node_id == source_node.id.0
                    && self@[i].file_hash == file_content_hash && !expired_at(
                    self@[i].timestamp_ms,
                    self@[i].ttl_ms,
                    now_ms,
                ),
            r is Some ==> self@.contains(*r.unwrap()) && r.unwrap().source_node_id == source_node.id.0
                && r.unwrap().file_hash == file_content_hash,
    {
        let mut i: usize = 0;
        while i < self.entries.len()
            invariant
                distinct_keys(self@),
                i <= self@.len(),
                forall|j: int|
                    0 <= j < i ==> !((#[trigger] self@[j]).source_node_id == source_node.id.0
                        && self@[j].file_hash == file_content_hash),
            decreases self@.len() - i,
        {
            let e = &self.entries[i];
            if e.source_node_id == source_node.id.0 && e.file_hash == file_content_hash {
                if e.is_expired(now_ms) {
                    assert forall|j: int|
                        0 <= j < self@.len() && (#[trigger] self@[j]).source_node_id == source_node.id.0
                            && self@[j].file_hash == file_content_hash implies expired_at(
                        self@[j].timestamp_ms,
                        self@[j].ttl_ms,
                        now_ms,
                    ) by {
                        if j != i {
                            assert(self@[j].source_node_id != self@[i as int].source_node_id
                                || self@[j].file_hash != self@[i as int].file_hash);
                        }
                    }
                    return None;
                }
                return Some(e);
            }
            i = i + 1;
        }
        None
    }

    /// Stores an answer for `source_node` and `file_content_hash` at `now_ms`
    /// with the cache's time to live, in place of any answer stored under the
    /// same key (otherwise appended).
    pub fn insert(
        &mut self,
        source_node: &GraphNode,
        file_content_hash: u64,
        relationships: Vec<InferredRelationship>,
        now_ms: u64,
    )
        requires
            distinct_keys(old(self)@),
        ensures
            distinct_keys(final(self)@),
            final(self).ttl() == old(self).ttl(),
            ({
                let s = old(self)@;
                let t = final(self)@;
                let fresh = |x: CacheEntry|
                    x.source_node_id == source_node.id.0 && x.file_hash == file_content_hash
                        && x.relationships@ == relationships@ && x.timestamp_ms == now_ms && x.ttl_ms
                        == old(self).ttl();
                if exists|i: int|
                    0 <= i < s.len() && (#[trigger] s[i]).source_node_id == source_node.id.0
                        && s[i].file_hash == file_content_hash {
                    exists|i: int|
                        0 <= i < s.len() && (#[trigger] s[i]).source_node_id == source_node.id.0
                            && s[i].file_hash == file_content_hash && t == s.update(i, t[i]) && fresh(t[i])
                } else {
                    t.len() == s.len() + 1 && t.drop_last() == s && fresh(t.last())
                }
            }),
    {
        let entry = CacheEntry {
            source_node_id: source_node.id.0,
            file_hash: file_content_hash,
            relationships,
            timestamp_ms: now_ms,
            ttl_ms: self.default_ttl_ms,
        };
        let ghost ev = entry;
        let mut i: usize = 0;
        while i < self.entries.len()
            invariant
                ev == entry,
                entry.source_node_id == source_node.id.0,
                entry.file_hash == file_content_hash,
                entry.relationships@ == relationships@,
                entry.timestamp_ms == now_ms,
                entry.ttl_ms == old(self).default_ttl_ms,
                self@ == old(self)@,
                self.default_ttl_ms == old(self).default_ttl_ms,
                distinct_keys(old(self)@),
                i <= self@.len(),
                forall|j: int|
                    0 <= j < i ==> !((#[trigger] self@[j]).source_node_id == source_node.id.0
                        && self@[j].file_hash == file_content_hash),
            decreases self@.len() - i,
        {
            if self.entries[i].source_node_id == source_node.id.0 && self.entries[i].file_hash
                == file_content_hash {
                let ghost s = self@;
                self.entries.set(i, entry);
                proof {
                    let t = self@;
                    assert(t == s.update(i as int, ev));
                    assert(t[i as int] == ev);
                    assert(t == s.update(i as int, t[i as int]));
                    assert(s[i as int].source_node_id == source_node.id.0 && s[i as int].file_hash == file_content_hash);
                    assert(t[i as int].relationships@ == relationships@);
                    assert forall|a: int, b: int| 0 <= a < t.len() && 0 <= b < t.len() && a != b implies (
                    (#[trigger] t[a]).source_node_id, t[a].file_hash) != ((#[trigger] t[b]).source_node_id, t[b].file_hash) by {
                        if a != i && b != i {
                            assert(t[a] == s[a] && t[b] == s[b]);
                        } else if a == i {
                            assert(t[b] == s[b]);
                            assert(t[a].source_node_id == s[a].source_node_id && t[a].file_hash == s[a].file_hash);
                            assert((s[b].source_node_id, s[b].file_hash) != (s[a].source_node_id, s[a].file_hash));
                        } else {
                            assert(t[a] == s[a]);
                            assert(t[b].source_node_id == s[b].source_node_id && t[b].file_hash == s[b].file_hash);
                            assert((s[a].source_node_id, s[a].file_hash) != (s[b].source_node_id, s[b].file_hash));
                        }
                    }
                }
                return;
            }
            i = i + 1;
        }
        let ghost s = self@;
        self.entries.push(entry);
        proof {
            let t = self@;
            assert(t.drop_last() =~= s);
            assert forall|a: int, b: int| 0 <= a < t.len() && 0 <= b < t.len() && a != b implies (
            (#[trigger] t[a]).source_node_id, t[a].file_hash) != ((#[trigger] t[b]).source_node_id, t[b].file_hash) by {
                if a < s.len() && b < s.len() {
                    assert(t[a] == s[a] && t[b] == s[b]);
                } else if a < s.len() {
                    assert(t[a] == s[a]);
                } else {
                    assert(t[b] == s[b]);
                }
            }
        }
    }

    /// Drops the entries expired at `now_ms`.
    pub fn cleanup_expired(&mut self, now_ms: u64)
        requires
            distinct_keys(old(self)@),
        ensures
            final(self)@ == unexpired(old(self)@, now_ms),
            distinct_keys(final(self)@),
            final(self).ttl() == old(self).ttl(),
    {
        let mut taken: Vec<CacheEntry> = Vec::new();
        std::mem::swap(&mut self.entries, &mut taken);
        let ghost s = taken@;
        let mut kept: Vec<CacheEntry> = Vec::new();
        let ghost mut i: int = 0;
        while taken.len() > 0
            invariant
                s == old(self)@,
                self.default_ttl_ms == old(self).default_ttl_ms,
                0 <= i <= s.len(),
                taken@ == s.subrange(i, s.len() as int),
                kept@ == unexpired(s.subrange(0, i), now_ms),
            decreases taken@.len(),
        {
            let e = taken.remove(0);
            proof {
                assert(e == s[i]);
                let sub = s.subrange(0, i + 1);
                assert(sub.drop_last() =~= s.subrange(0, i));
                assert(sub.last() == s[i]);
            }
            if !e.is_expired(now_ms) {
                kept.push(e);
            }
            proof {
                i = i + 1;
                assert(taken@ =~= s.subrange(i, s.len() as int));
            }
        }
        assert(s.subrange(0, i) =~= s);
        proof {
            lemma_unexpired_distinct(s, now_ms);
        }
        self.entries = kept;
    }

    /// Drops every entry.
    pub fn clear(&mut self)
        ensures
            final(self)@.len() == 0,
            final(self).ttl() == old(self).ttl(),
    {
        self.entries = Vec::new();
    }

    /// How many entries there are, and how many of them have expired at `now_ms`.
    pub fn stats(&self, now_ms: u64) -> (r: CacheStats)
        ensures
            r.total_entries == self@.len(),
            r.expired_entries == count_expired(self@, now_ms),
    {
        let mut n: usize = 0;
        let mut i: usize = 0;
        while i < self.entries.len()
            invariant
                i <= self@.len(),
                n <= i,
                n == count_expired(self@.subrange(0, i as int), now_ms),
            decreases self@.len() - i,
        {
            let ghost sub = self@.subrange(0, i + 1);
            assert(sub.drop_last() =~= self@.subrange(0, i as int));
            assert(sub.last() == self@[i as int]);
            if self.entries[i].is_expired(now_ms) {
                n = n + 1;
            }
            i = i + 1;
        }
        assert(self@.subrange(0, i as int) =~= self@);
        CacheStats { total_entries: self.entries.len(), expired_entries: n }
    }
}

} // verus!

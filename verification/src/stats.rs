use vstd::prelude::*;

use crate::model::TotalStats;
use crate::store::{lemma_sum_redirects_bounds, spec_sum_redirects, LinkStore};

verus! {

/// One cached aggregate, with the moment it was computed.
#[derive(Clone, Copy, PartialEq, Eq, Structural, Debug)]
pub struct CacheEntry {
    pub stats: TotalStats,
    pub stored_at: u64,
}

/// The single shared cache cell of the stats aggregator. The clock is
/// injected: callers pass the current time in seconds, which makes expiry
/// deterministic under test.
pub struct StatsCache {
    pub entry: Option<CacheEntry>,
    pub lifespan: u64,
}

/// The aggregate counts the store answers with when the cache misses.
pub open spec fn spec_stats_of(store: LinkStore) -> TotalStats {
    TotalStats {
        links: store.links@.len() as i64,
        redirects: spec_sum_redirects(store.links@) as i64,
        targets: store.targets@.len() as i64,
    }
}

impl StatsCache {
    /// The cached entry is still inside its expiry window at `now`.
    pub open spec fn spec_fresh(self, now: u64) -> bool {
        match self.entry {
            Some(e) => e.stored_at <= now && now < e.stored_at + self.lifespan,
            None => false,
        }
    }

    /// What a read at `now` is served from the cache: the stored aggregate
    /// while the window lasts, nothing once it has expired.
    pub open spec fn spec_lookup(self, now: u64) -> Option<TotalStats> {
        match self.entry {
            Some(e) => if e.stored_at <= now && now < e.stored_at + self.lifespan {
                Some(e.stats)
            } else {
                None
            },
            None => None,
        }
    }

    /// An empty cache whose entries last `lifespan` seconds.
    pub fn new(lifespan: u64) -> (r: StatsCache)
        ensures
            r.entry is None,
            r.lifespan == lifespan,
    {
        StatsCache { entry: None, lifespan }
    }

    /// Serves the cached aggregate while its window lasts.
    pub fn lookup(&self, now: u64) -> (r: Option<TotalStats>)
        ensures
            r == self.spec_lookup(now),
    {
        match &self.entry {
            Some(e) => {
                if e.stored_at <= now && now - e.stored_at < self.lifespan {
                    Some(e.stats)
                } else {
                    None
                }
            },
            None => None,
        }
    }

    /// Repopulates the cell with a fresh aggregate computed at `now`.
    pub fn put(&mut self, now: u64, stats: TotalStats)
        ensures
            final(self).entry == Some(CacheEntry { stats, stored_at: now }),
            final(self).lifespan == old(self).lifespan,
    {
        self.entry = Some(CacheEntry { stats, stored_at: now });
    }
}

/// Serves the aggregate counts: from the cache while its window lasts, else
/// freshly recomputed from the store and cached at `now`. There is no
/// write-triggered invalidation; staleness is bounded by the window alone.
pub fn total_stats(store: &LinkStore, cache: &mut StatsCache, now: u64) -> (r: TotalStats)
    requires
        store.wf(),
    ensures
        old(cache).spec_lookup(now) matches Some(s) ==> r == s && final(cache).entry == old(
            cache,
        ).entry && final(cache).lifespan == old(cache).lifespan,
        old(cache).spec_lookup(now) is None ==> r == spec_stats_of(*store) && final(cache).entry
            == Some(CacheEntry { stats: r, stored_at: now }) && final(cache).lifespan == old(
            cache,
        ).lifespan,
{
    match cache.lookup(now) {
        Some(s) => s,
        None => {
            let links = store.count_links();
            let targets = store.count_targets();
            let redirects = store.sum_redirects();
            let stats = TotalStats { links, redirects, targets };
            proof {
                assert forall|i: int|
                    0 <= i < store.links@.len() implies 0 <= (
                #[trigger] store.links@[i]).redirects by {
                    assert(store.link_ok(i));
                }
                lemma_sum_redirects_bounds(store.links@);
            }
            cache.put(now, stats);
            stats
        },
    }
}

/// Two reads whose moments fall inside the same cached window see the same
/// counts, whatever was written to the store between them.
pub proof fn lemma_stats_reads_within_window_agree(
    c: StatsCache,
    now1: u64,
    now2: u64,
    s1: TotalStats,
    s2: TotalStats,
)
    requires
        c.spec_lookup(now1) == Some(s1),
        c.spec_lookup(now2) == Some(s2),
    ensures
        s1 == s2,
{
}

} // verus!

//! The shared order cache: the last-fetched snapshot plus its fetch
//! instant, with a time-based staleness rule.
//!
//! The snapshot pair (list, timestamp) is only ever replaced as a whole
//! by [`OrdersCache::apply_refresh`], under exclusive access, so a
//! reader can never observe a list paired with a mismatched timestamp.
//! Callers that share one cache across tasks serialize the whole
//! check-fetch-install sequence behind a single mutual-exclusion guard,
//! so concurrent readers of a stale cache wait for one upstream call
//! rather than issuing their own.

use vstd::prelude::*;

use crate::models::{MatchedOrder, same_order, same_orders};
use crate::orderbook::OrderBookError;

verus! {

/// Maximum age of a cached snapshot, in milliseconds, before a refresh
/// is due: 360 minutes. A fixed configuration constant, never derived
/// from request parameters.
pub const STALENESS_THRESHOLD_MS: i64 = 360 * 60 * 1000;

/// The one piece of shared mutable state: the cached order list and
/// the instant, in milliseconds since the epoch, at which it was
/// fetched.
pub struct OrdersCache {
    pub orders: Vec<MatchedOrder>,
    pub last_fetched_ms: i64,
}

/// Relies on chrono's `Utc::now`, read as milliseconds since the Unix
/// epoch; nothing is assumed of the value the clock returns.
#[verifier::external_body]
fn now_millis() -> i64 {
    chrono::Utc::now().timestamp_millis()
}

impl OrdersCache {
    /// An empty cache whose timestamp lies far enough in the past that
    /// the first read always finds it stale.
    pub fn new() -> (r: OrdersCache)
        ensures
            r.orders@ == Seq::<MatchedOrder>::empty(),
            r.last_fetched_ms == i64::MIN,
    {
        OrdersCache { orders: Vec::new(), last_fetched_ms: i64::MIN }
    }

    /// The snapshot is fresh at `now_ms`: its age is within the
    /// staleness threshold.
    pub open spec fn spec_fresh(self, now_ms: int) -> bool {
        now_ms - self.last_fetched_ms <= STALENESS_THRESHOLD_MS
    }

    /// Decides freshness at a caller-supplied instant.
    pub fn is_fresh_at(&self, now_ms: i64) -> (r: bool)
        ensures
            r == self.spec_fresh(now_ms as int),
    {
        (now_ms as i128) - (self.last_fetched_ms as i128) <= (STALENESS_THRESHOLD_MS as i128)
    }

    /// Reads the clock and returns the observed instant together with
    /// the staleness decision taken at exactly that instant.
    pub fn check_clock(&self) -> (r: (i64, bool))
        ensures
            r.1 == self.spec_fresh(r.0 as int),
    {
        let now = now_millis();
        let fresh = self.is_fresh_at(now);
        (now, fresh)
    }

    /// A copy of the cached order list; the snapshot itself stays put.
    pub fn orders(&self) -> (r: Vec<MatchedOrder>)
        ensures
            same_orders(r@, self.orders@),
    {
        let mut r: Vec<MatchedOrder> = Vec::new();
        let mut i: usize = 0;
        while i < self.orders.len()
            invariant
                i <= self.orders.len(),
                r@.len() == i,
                forall|j: int| 0 <= j < i ==> same_order(#[trigger] r@[j], self.orders@[j]),
            decreases self.orders.len() - i,
        {
            r.push(self.orders[i].duplicate());
            i = i + 1;
        }
        r
    }

    /// Installs the outcome of an upstream fetch made at `now_ms`. On
    /// success the snapshot — list and timestamp together — is replaced
    /// and a copy of the new list is returned; on failure the snapshot
    /// is left exactly as it was (stale data is kept for the next
    /// attempt) and the error is passed through unchanged.
    pub fn apply_refresh(
        &mut self,
        now_ms: i64,
        fetched: Result<Vec<MatchedOrder>, OrderBookError>,
    ) -> (r: Result<Vec<MatchedOrder>, OrderBookError>)
        ensures
            fetched matches Ok(v) ==> {
                &&& final(self).orders == v
                &&& final(self).last_fetched_ms == now_ms
                &&& r matches Ok(w) && same_orders(w@, v@)
            },
            fetched matches Err(e) ==> *final(self) == *old(self) && (r matches Err(e2) && e2 == e),
    {
        match fetched {
            Ok(v) => {
                self.orders = v;
                self.last_fetched_ms = now_ms;
                Ok(self.orders())
            },
            Err(e) => Err(e),
        }
    }

    /// One full read of the cache, with the upstream outcome handed in.
    /// `fetched` is `None` exactly when the snapshot was fresh at
    /// `now_ms`: a fresh snapshot is served as a copy with no upstream
    /// call, and a stale one is replaced or kept as
    /// [`Self::apply_refresh`] says.
    pub fn get_orders_with(
        &mut self,
        now_ms: i64,
        fetched: Option<Result<Vec<MatchedOrder>, OrderBookError>>,
    ) -> (r: Result<Vec<MatchedOrder>, OrderBookError>)
        requires
            fetched is Some <==> !old(self).spec_fresh(now_ms as int),
        ensures
            old(self).spec_fresh(now_ms as int) ==> {
                &&& *final(self) == *old(self)
                &&& r matches Ok(w) && same_orders(w@, old(self).orders@)
            },
            !old(self).spec_fresh(now_ms as int) ==> (fetched matches Some(f) && match f {
                Ok(v) => {
                    &&& final(self).orders == v
                    &&& final(self).last_fetched_ms == now_ms
                    &&& r matches Ok(w) && same_orders(w@, v@)
                },
                Err(e) => *final(self) == *old(self) && (r matches Err(e2) && e2 == e),
            }),
    {
        match fetched {
            None => Ok(self.orders()),
            Some(f) => self.apply_refresh(now_ms, f),
        }
    }
}

/// Staleness law: any read within the staleness threshold of a
/// successful refresh finds the snapshot fresh — so, by the contract of
/// [`OrdersCache::get_orders_with`], it is served the cached list,
/// unchanged, with no upstream call due.
pub proof fn lemma_staleness_invariant(cache: OrdersCache, refreshed_at_ms: i64, now_ms: i64)
    requires
        cache.last_fetched_ms == refreshed_at_ms,
        now_ms - refreshed_at_ms <= STALENESS_THRESHOLD_MS,
    ensures
        cache.spec_fresh(now_ms as int),
{
}

/// Refresh serialization law: a successful refresh leaves the snapshot
/// fresh at the very instant it completed, so a reader serialized
/// behind it is served from the cache and the upstream source is
/// called at most once for the whole convoy.
pub proof fn lemma_refresh_serializes(cache: OrdersCache, now_ms: i64)
    requires
        cache.last_fetched_ms == now_ms,
    ensures
        cache.spec_fresh(now_ms as int),
{
}

} // verus!

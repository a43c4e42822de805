//! Data model of the service: settlement records (orders), their legs,
//! and the per-address tag rows.
//!
//! Orders are immutable once fetched; the only field this system ever
//! writes is `tags`, filled in by the enrichment pipeline. Contracts
//! therefore compare orders either by plain equality (when a value is
//! moved) or by [`same_order`], which compares every field and looks at
//! the tag list through its abstract value.

use vstd::prelude::*;

verus! {

/// One leg of a settlement: the swap on a single chain side.
/// The oracle price is carried as decimal text; the core never
/// computes with it.
#[derive(Debug, Clone, PartialEq, Eq)]
pub struct SingleSwap {
    pub id: i64,
    pub created_at_ms: i64,
    pub updated_at_ms: i64,
    pub initiator_address: String,
    pub redeemer_address: Option<String>,
    pub chain: String,
    pub asset: String,
    pub amount: String,
    pub oracle_price: String,
}

/// A settlement record between a maker and a taker, carrying two legs
/// and a numeric lifecycle status. Timestamps are milliseconds since
/// the epoch. `tags` is absent on a raw fetch and is populated only by
/// the enrichment pipeline.
#[derive(Debug, Clone, PartialEq, Eq)]
pub struct MatchedOrder {
    pub id: i64,
    pub created_at_ms: i64,
    pub updated_at_ms: i64,
    pub initiator_swap_id: i64,
    pub follower_swap_id: i64,
    pub initiator_atomic_swap: SingleSwap,
    pub follower_atomic_swap: SingleSwap,
    pub user_btc_wallet_address: Option<String>,
    pub tags: Option<Vec<String>>,
    pub maker: String,
    pub taker: String,
    pub order_pair: String,
    pub status: i32,
}

/// One row of the tag store: an address and its ordered,
/// deduplicated tag list.
#[derive(Debug, Clone, PartialEq, Eq)]
pub struct UserTags {
    pub address: String,
    pub tags: Vec<String>,
}

/// Every field of the two orders agrees, the tag list aside.
pub open spec fn same_order_core(a: MatchedOrder, b: MatchedOrder) -> bool {
    &&& a.id == b.id
    &&& a.created_at_ms == b.created_at_ms
    &&& a.updated_at_ms == b.updated_at_ms
    &&& a.initiator_swap_id == b.initiator_swap_id
    &&& a.follower_swap_id == b.follower_swap_id
    &&& a.initiator_atomic_swap == b.initiator_atomic_swap
    &&& a.follower_atomic_swap == b.follower_atomic_swap
    &&& a.user_btc_wallet_address == b.user_btc_wallet_address
    &&& a.maker == b.maker
    &&& a.taker == b.taker
    &&& a.order_pair == b.order_pair
    &&& a.status == b.status
}

/// The two orders agree on every field; the tag lists agree on their
/// abstract contents.
pub open spec fn same_order(a: MatchedOrder, b: MatchedOrder) -> bool {
    same_order_core(a, b) && a.tags.deep_view() == b.tags.deep_view()
}

/// Pointwise [`same_order`] over two order lists.
pub open spec fn same_orders(a: Seq<MatchedOrder>, b: Seq<MatchedOrder>) -> bool {
    &&& a.len() == b.len()
    &&& forall|i: int| 0 <= i < a.len() ==> same_order(#[trigger] a[i], b[i])
}

/// A copy of a tag list, element by element.
pub fn copy_tag_list(tags: &Vec<String>) -> (r: Vec<String>)
    ensures
        r@ == tags@,
{
    let mut r: Vec<String> = Vec::new();
    let mut i: usize = 0;
    while i < tags.len()
        invariant
            i <= tags.len(),
            r@ == tags@.subrange(0, i as int),
        decreases tags.len() - i,
    {
        r.push(tags[i].clone());
        i = i + 1;
        proof {
            assert(r@ =~= tags@.subrange(0, i as int));
        }
    }
    proof {
        assert(tags@.subrange(0, tags.len() as int) =~= tags@);
    }
    r
}

fn copy_opt_string(s: &Option<String>) -> (r: Option<String>)
    ensures
        r == *s,
{
    match s {
        Some(v) => Some(v.clone()),
        None => None,
    }
}

impl SingleSwap {
    /// A copy equal to the original in every field.
    pub fn duplicate(&self) -> (r: SingleSwap)
        ensures
            r == *self,
    {
        SingleSwap {
            id: self.id,
            created_at_ms: self.created_at_ms,
            updated_at_ms: self.updated_at_ms,
            initiator_address: self.initiator_address.clone(),
            redeemer_address: copy_opt_string(&self.redeemer_address),
            chain: self.chain.clone(),
            asset: self.asset.clone(),
            amount: self.amount.clone(),
            oracle_price: self.oracle_price.clone(),
        }
    }
}

impl MatchedOrder {
    /// A copy that agrees with the original on every field, with the
    /// tag list compared by contents.
    pub fn duplicate(&self) -> (r: MatchedOrder)
        ensures
            same_order(r, *self),
    {
        let tags: Option<Vec<String>> = match &self.tags {
            Some(v) => Some(copy_tag_list(v)),
            None => None,
        };
        proof {
            match &self.tags {
                Some(v) => {
                    assert(tags matches Some(w) && w@ == v@);
                    assert(tags.deep_view() matches Some(dw) && (dw =~= v.deep_view()));
                },
                None => {},
            }
        }
        MatchedOrder {
            id: self.id,
            created_at_ms: self.created_at_ms,
            updated_at_ms: self.updated_at_ms,
            initiator_swap_id: self.initiator_swap_id,
            follower_swap_id: self.follower_swap_id,
            initiator_atomic_swap: self.initiator_atomic_swap.duplicate(),
            follower_atomic_swap: self.follower_atomic_swap.duplicate(),
            user_btc_wallet_address: copy_opt_string(&self.user_btc_wallet_address),
            tags,
            maker: self.maker.clone(),
            taker: self.taker.clone(),
            order_pair: self.order_pair.clone(),
            status: self.status,
        }
    }
}

impl UserTags {
    /// A copy whose address equals the original's and whose tag list
    /// holds the same tags in the same order.
    pub fn duplicate(&self) -> (r: UserTags)
        ensures
            r.address == self.address,
            r.tags@ == self.tags@,
    {
        UserTags { address: self.address.clone(), tags: copy_tag_list(&self.tags) }
    }
}

} // verus!

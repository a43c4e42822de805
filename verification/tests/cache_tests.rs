use order_analytics::cache::{OrdersCache, STALENESS_THRESHOLD_MS};
use order_analytics::models::{MatchedOrder, SingleSwap};
use order_analytics::orderbook::OrderBookError;

fn make_swap(id: i64) -> SingleSwap {
    SingleSwap {
        id,
        created_at_ms: 0,
        updated_at_ms: 0,
        initiator_address: String::from("init"),
        redeemer_address: None,
        chain: String::from("bitcoin"),
        asset: String::from("BTC"),
        amount: String::from("100000"),
        oracle_price: String::from("60000.5"),
    }
}

fn make_order(id: i64, created_at_ms: i64, status: i32, pair: &str, maker: &str) -> MatchedOrder {
    MatchedOrder {
        id,
        created_at_ms,
        updated_at_ms: created_at_ms,
        initiator_swap_id: id * 2,
        follower_swap_id: id * 2 + 1,
        initiator_atomic_swap: make_swap(id * 2),
        follower_atomic_swap: make_swap(id * 2 + 1),
        user_btc_wallet_address: None,
        tags: None,
        maker: String::from(maker),
        taker: String::from("taker"),
        order_pair: String::from(pair),
        status,
    }
}

#[test]
fn new_cache_is_stale() {
    let cache = OrdersCache::new();
    assert!(!cache.is_fresh_at(0));
    assert!(!cache.is_fresh_at(i64::MAX));
    assert_eq!(cache.orders().len(), 0);
}

#[test]
fn refresh_success_replaces_snapshot() {
    let mut cache = OrdersCache::new();
    let fetched = vec![make_order(1, 50, 3, "BTC-ETH", "alice")];
    let r = cache.apply_refresh(1_000, Ok(fetched));
    let returned = r.expect("refresh result");
    assert_eq!(returned.len(), 1);
    assert_eq!(returned[0].id, 1);
    assert_eq!(cache.last_fetched_ms, 1_000);
    assert_eq!(cache.orders().len(), 1);
}

#[test]
fn refresh_failure_preserves_snapshot() {
    let mut cache = OrdersCache::new();
    cache.apply_refresh(1_000, Ok(vec![make_order(7, 50, 3, "BTC-ETH", "alice")])).unwrap();
    let r = cache.apply_refresh(2_000, Err(OrderBookError::FetchError));
    assert_eq!(r, Err(OrderBookError::FetchError));
    assert_eq!(cache.last_fetched_ms, 1_000);
    let kept = cache.orders();
    assert_eq!(kept.len(), 1);
    assert_eq!(kept[0].id, 7);
}

#[test]
fn staleness_boundary_is_inclusive() {
    let mut cache = OrdersCache::new();
    cache.apply_refresh(1_000, Ok(Vec::new())).unwrap();
    assert!(cache.is_fresh_at(1_000));
    assert!(cache.is_fresh_at(1_000 + STALENESS_THRESHOLD_MS));
    assert!(!cache.is_fresh_at(1_000 + STALENESS_THRESHOLD_MS + 1));
}

#[test]
fn fresh_reads_are_served_from_cache() {
    let mut cache = OrdersCache::new();
    cache.apply_refresh(1_000, Ok(vec![make_order(3, 10, 3, "BTC-ETH", "bob")])).unwrap();
    // Within the threshold the protocol makes no upstream call: the
    // outcome slot stays empty and the cached list comes back.
    let r = cache.get_orders_with(2_000, None).expect("cached read");
    assert_eq!(r.len(), 1);
    assert_eq!(r[0].id, 3);
    assert_eq!(r[0].maker, "bob");
    assert_eq!(cache.last_fetched_ms, 1_000);
}

#[test]
fn stale_read_installs_fetched_list() {
    let mut cache = OrdersCache::new();
    let now = 5_000_000_000;
    let fetched = vec![make_order(9, 42, 3, "BTC-ETH", "carol")];
    let r = cache.get_orders_with(now, Some(Ok(fetched))).expect("refreshed read");
    assert_eq!(r.len(), 1);
    assert_eq!(r[0].id, 9);
    assert_eq!(cache.last_fetched_ms, now);
}

#[test]
fn stale_read_with_failed_fetch_keeps_old_snapshot() {
    let mut cache = OrdersCache::new();
    cache.apply_refresh(0, Ok(vec![make_order(4, 1, 3, "BTC-ETH", "dave")])).unwrap();
    let later = STALENESS_THRESHOLD_MS + 1;
    let r = cache.get_orders_with(later, Some(Err(OrderBookError::DeserializationError)));
    assert_eq!(r, Err(OrderBookError::DeserializationError));
    assert_eq!(cache.last_fetched_ms, 0);
    assert_eq!(cache.orders().len(), 1);
}

#[test]
fn clock_check_matches_manual_decision() {
    let cache = OrdersCache::new();
    let (now, fresh) = cache.check_clock();
    assert_eq!(fresh, cache.is_fresh_at(now));
    assert!(!fresh);
}

#[test]
fn error_messages_match_variants() {
    assert_eq!(OrderBookError::FetchError.message(), "Error Fetching orders from Orderbook");
    assert_eq!(OrderBookError::DeserializationError.message(), "Error Deserializing orders");
}

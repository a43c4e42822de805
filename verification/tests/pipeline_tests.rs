use order_analytics::models::{MatchedOrder, SingleSwap};
use order_analytics::pipeline::{
    attach_tags, contains_str, filter_by_address, filter_orders, is_testnet, unique_makers,
    window_or_default, STATUS_COMPLETED,
};

fn make_swap(id: i64) -> SingleSwap {
    SingleSwap {
        id,
        created_at_ms: 0,
        updated_at_ms: 0,
        initiator_address: String::from("init"),
        redeemer_address: Some(String::from("redeem")),
        chain: String::from("ethereum"),
        asset: String::from("ETH"),
        amount: String::from("250"),
        oracle_price: String::from("3000.25"),
    }
}

fn make_order(id: i64, created_at_ms: i64, status: i32, pair: &str, maker: &str) -> MatchedOrder {
    MatchedOrder {
        id,
        created_at_ms,
        updated_at_ms: created_at_ms,
        initiator_swap_id: id * 2,
        follower_swap_id: id * 2 + 1,
        initiator_atomic_swap: make_swap(id * 2),
        follower_atomic_swap: make_swap(id * 2 + 1),
        user_btc_wallet_address: None,
        tags: None,
        maker: String::from(maker),
        taker: String::from("taker"),
        order_pair: String::from(pair),
        status,
    }
}

#[test]
fn testnet_markers_are_detected() {
    assert!(is_testnet("BTC-testnet"));
    assert!(is_testnet("sepolia-ETH"));
    assert!(is_testnet("XsepoliaY"));
    assert!(!is_testnet("BTC-ETH"));
    assert!(!is_testnet("testne"));
    assert!(!is_testnet("Testnet"));
}

#[test]
fn substring_search_is_exact() {
    assert!(contains_str("abcdef", "cde"));
    assert!(contains_str("abcdef", ""));
    assert!(contains_str("abc", "abc"));
    assert!(!contains_str("abc", "abcd"));
    assert!(!contains_str("abcdef", "ce"));
}

#[test]
fn filter_keeps_only_completed_non_testnet() {
    let orders = vec![
        make_order(1, 100, 1, "BTC-ETH", "alice"),
        make_order(2, 100, 2, "BTC-ETH", "alice"),
        make_order(3, 100, 3, "BTC-ETH", "alice"),
        make_order(4, 100, 3, "BTC-testnet-ETH", "alice"),
    ];
    let kept = filter_orders(orders, i64::MIN, i64::MAX);
    assert_eq!(kept.len(), 1);
    assert_eq!(kept[0].id, 3);
    assert_eq!(kept[0].status, STATUS_COMPLETED);
}

#[test]
fn window_bounds_are_inclusive() {
    let from = 1_000;
    let to = 2_000;
    let orders = vec![
        make_order(1, from, 3, "BTC-ETH", "a"),
        make_order(2, to, 3, "BTC-ETH", "a"),
        make_order(3, from - 1, 3, "BTC-ETH", "a"),
        make_order(4, to + 1, 3, "BTC-ETH", "a"),
        make_order(5, (from + to) / 2, 3, "BTC-ETH", "a"),
    ];
    let kept = filter_orders(orders, from, to);
    let ids: Vec<i64> = kept.iter().map(|o| o.id).collect();
    assert_eq!(ids, vec![1, 2, 5]);
}

#[test]
fn missing_bounds_default_to_widest_window() {
    assert_eq!(window_or_default(None, None), (i64::MIN, i64::MAX));
    assert_eq!(window_or_default(Some(5), None), (5, i64::MAX));
    assert_eq!(window_or_default(None, Some(9)), (i64::MIN, 9));
    assert_eq!(window_or_default(Some(5), Some(9)), (5, 9));
}

#[test]
fn address_filter_matches_maker_exactly() {
    let orders = vec![
        make_order(1, 100, 3, "BTC-ETH", "alice"),
        make_order(2, 100, 3, "BTC-ETH", "Alice"),
        make_order(3, 100, 1, "BTC-ETH", "alice"),
        make_order(4, 100, 3, "BTC-testnet", "alice"),
        make_order(5, 100, 3, "BTC-ETH", "alice"),
    ];
    let kept = filter_by_address(orders, &String::from("alice"));
    let ids: Vec<i64> = kept.iter().map(|o| o.id).collect();
    assert_eq!(ids, vec![1, 5]);
}

#[test]
fn one_lookup_per_distinct_maker() {
    // A hundred orders sharing one maker need exactly one memo entry,
    // so exactly one store lookup serves them all.
    let mut orders = Vec::new();
    for i in 0..100 {
        orders.push(make_order(i, 100, 3, "BTC-ETH", "whale"));
    }
    let makers = unique_makers(&orders);
    assert_eq!(makers.len(), 1);
    assert_eq!(makers[0], "whale");
}

#[test]
fn makers_are_deduplicated_in_first_seen_order() {
    let orders = vec![
        make_order(1, 100, 3, "BTC-ETH", "alice"),
        make_order(2, 100, 3, "BTC-ETH", "bob"),
        make_order(3, 100, 3, "BTC-ETH", "alice"),
    ];
    let makers = unique_makers(&orders);
    assert_eq!(makers.len(), 2);
    assert!(makers.contains(&String::from("alice")));
    assert!(makers.contains(&String::from("bob")));
}

#[test]
fn enrichment_attaches_looked_up_tags() {
    let orders = vec![
        make_order(1, 100, 3, "BTC-ETH", "alice"),
        make_order(2, 100, 3, "BTC-ETH", "bob"),
        make_order(3, 100, 3, "BTC-ETH", "alice"),
    ];
    let makers = vec![String::from("alice"), String::from("bob")];
    let lookups = vec![
        Some(vec![String::from("vip"), String::from("market-maker")]),
        Some(Vec::new()),
    ];
    let tagged = attach_tags(orders, &makers, &lookups);
    assert_eq!(tagged.len(), 3);
    assert_eq!(
        tagged[0].tags,
        Some(vec![String::from("vip"), String::from("market-maker")])
    );
    assert_eq!(tagged[1].tags, Some(Vec::new()));
    assert_eq!(
        tagged[2].tags,
        Some(vec![String::from("vip"), String::from("market-maker")])
    );
    assert_eq!(tagged[0].id, 1);
    assert_eq!(tagged[1].id, 2);
    assert_eq!(tagged[2].id, 3);
}

#[test]
fn failed_lookup_degrades_to_untagged_orders() {
    // The store being unreachable must not drop orders or raise an
    // error: every order comes back, tag field untouched.
    let orders = vec![
        make_order(1, 100, 3, "BTC-ETH", "alice"),
        make_order(2, 100, 3, "BTC-ETH", "alice"),
    ];
    let makers = vec![String::from("alice")];
    let lookups = vec![None];
    let tagged = attach_tags(orders, &makers, &lookups);
    assert_eq!(tagged.len(), 2);
    assert_eq!(tagged[0].tags, None);
    assert_eq!(tagged[1].tags, None);
    assert_eq!(tagged[0].maker, "alice");
}

//! The enrichment pipeline: filtering a raw order list and attaching
//! each qualifying order's maker tag set.
//!
//! Filtering keeps completed orders whose pair label names no test
//! network and which fall inside a caller-supplied window (time-based
//! or by maker address). Enrichment is driven by a per-request memo:
//! the distinct makers of a filtered list are collected once, each is
//! looked up once, and the results are attached to every order of that
//! maker. A failed lookup degrades to "no tags" for the affected
//! orders and never fails the request.

use vstd::prelude::*;

use crate::models::{MatchedOrder, copy_tag_list, same_order_core};

verus! {

/// The numeric lifecycle status of a fully settled order.
pub const STATUS_COMPLETED: i32 = 3;

/// `needle` occurs contiguously somewhere in `hay`.
pub open spec fn contains_substr(hay: Seq<char>, needle: Seq<char>) -> bool {
    exists|i: int|
        0 <= i && i + needle.len() <= hay.len() && #[trigger] hay.subrange(
            i,
            i + needle.len() as int,
        ) == needle
}

/// The pair label references a test network: it contains one of the
/// fixed marker substrings (case-sensitive).
pub open spec fn spec_is_testnet(pair: Seq<char>) -> bool {
    contains_substr(pair, "testnet"@) || contains_substr(pair, "sepolia"@)
}

fn match_at(hay: &str, needle: &str, at: usize, needle_len: usize) -> (r: bool)
    requires
        needle_len == needle@.len(),
        at + needle_len <= hay@.len(),
        hay@.len() <= usize::MAX,
    ensures
        r == (hay@.subrange(at as int, at + needle@.len() as int) == needle@),
{
    let mut j: usize = 0;
    while j < needle_len
        invariant
            needle_len == needle@.len(),
            at + needle_len <= hay@.len(),
            hay@.len() <= usize::MAX,
            j <= needle_len,
            forall|k: int| 0 <= k < j ==> hay@[at + k] == needle@[k],
        decreases needle_len - j,
    {
        if hay.get_char(at + j) != needle.get_char(j) {
            proof {
                assert(hay@.subrange(at as int, at + needle@.len() as int)[j as int] == hay@[at
                    + j]);
            }
            return false;
        }
        j = j + 1;
    }
    proof {
        assert(hay@.subrange(at as int, at + needle@.len() as int) =~= needle@);
    }
    true
}

/// `needle` occurs in `hay` as a contiguous (case-sensitive) substring.
pub fn contains_str(hay: &str, needle: &str) -> (r: bool)
    ensures
        r == contains_substr(hay@, needle@),
{
    let hay_len = hay.unicode_len();
    let needle_len = needle.unicode_len();
    if needle_len > hay_len {
        return false;
    }
    if needle_len == 0 {
        proof {
            assert(hay@.subrange(0, 0 + needle@.len() as int) =~= needle@);
        }
        return true;
    }
    let limit = hay_len - needle_len;
    let mut i: usize = 0;
    while i <= limit
        invariant
            hay_len == hay@.len(),
            needle_len == needle@.len(),
            1 <= needle_len <= hay_len,
            limit == hay_len - needle_len,
            i <= limit + 1,
            forall|k: int|
                0 <= k < i ==> #[trigger] hay@.subrange(k, k + needle@.len() as int) != needle@,
        decreases limit + 1 - i,
    {
        if match_at(hay, needle, i, needle_len) {
            return true;
        }
        i = i + 1;
    }
    false
}

/// The pair label references a test network: it contains one of the
/// fixed marker substrings, case-sensitively.
pub fn is_testnet(orderpair: &str) -> (r: bool)
    ensures
        r == spec_is_testnet(orderpair@),
{
    contains_str(orderpair, "testnet") || contains_str(orderpair, "sepolia")
}

/// The time-window filter predicate: the order is completed, its pair
/// label names no test network, and its creation instant lies inside
/// the inclusive window `[from, to]`.
pub open spec fn order_passes(o: MatchedOrder, from: i64, to: i64) -> bool {
    &&& o.status == STATUS_COMPLETED
    &&& !spec_is_testnet(o.order_pair@)
    &&& from <= o.created_at_ms <= to
}

/// The address filter predicate: the order is completed, its pair
/// label names no test network, and its maker is exactly `address`.
pub open spec fn order_matches_address(o: MatchedOrder, address: Seq<char>) -> bool {
    &&& o.status == STATUS_COMPLETED
    &&& !spec_is_testnet(o.order_pair@)
    &&& o.maker@ == address
}

/// The subsequence of `orders` passing the time-window predicate, in
/// the original order.
pub open spec fn spec_filter_window(orders: Seq<MatchedOrder>, from: i64, to: i64) -> Seq<
    MatchedOrder,
>
    decreases orders.len(),
{
    if orders.len() == 0 {
        Seq::empty()
    } else {
        let rest = spec_filter_window(orders.drop_last(), from, to);
        if order_passes(orders.last(), from, to) {
            rest.push(orders.last())
        } else {
            rest
        }
    }
}

/// The subsequence of `orders` passing the address predicate, in the
/// original order.
pub open spec fn spec_filter_address(orders: Seq<MatchedOrder>, address: Seq<char>) -> Seq<
    MatchedOrder,
>
    decreases orders.len(),
{
    if orders.len() == 0 {
        Seq::empty()
    } else {
        let rest = spec_filter_address(orders.drop_last(), address);
        if order_matches_address(orders.last(), address) {
            rest.push(orders.last())
        } else {
            rest
        }
    }
}

proof fn lemma_filter_window_push(s: Seq<MatchedOrder>, x: MatchedOrder, from: i64, to: i64)
    ensures
        spec_filter_window(s.push(x), from, to) == if order_passes(x, from, to) {
            spec_filter_window(s, from, to).push(x)
        } else {
            spec_filter_window(s, from, to)
        },
{
    assert(s.push(x).drop_last() =~= s);
    assert(s.push(x).last() == x);
}

proof fn lemma_filter_address_push(s: Seq<MatchedOrder>, x: MatchedOrder, address: Seq<char>)
    ensures
        spec_filter_address(s.push(x), address) == if order_matches_address(x, address) {
            spec_filter_address(s, address).push(x)
        } else {
            spec_filter_address(s, address)
        },
{
    assert(s.push(x).drop_last() =~= s);
    assert(s.push(x).last() == x);
}

/// Keeps exactly the completed, non-test-network orders whose creation
/// instant lies in the inclusive window `[from, to]`.
pub fn filter_orders(orders: Vec<MatchedOrder>, from: i64, to: i64) -> (r: Vec<MatchedOrder>)
    ensures
        r@ == spec_filter_window(orders@, from, to),
{
    let ghost all = orders@;
    let mut rest = orders;
    let mut r: Vec<MatchedOrder> = Vec::new();
    let ghost mut i: int = 0;
    while rest.len() > 0
        invariant
            0 <= i <= all.len(),
            rest@ == all.subrange(i, all.len() as int),
            r@ == spec_filter_window(all.subrange(0, i), from, to),
        decreases rest@.len(),
    {
        let o = rest.remove(0);
        proof {
            assert(o == all[i]);
            assert(rest@ =~= all.subrange(i + 1, all.len() as int));
            assert(all.subrange(0, i).push(all[i]) =~= all.subrange(0, i + 1));
            lemma_filter_window_push(all.subrange(0, i), all[i], from, to);
        }
        let keep = o.status == STATUS_COMPLETED && !is_testnet(o.order_pair.as_str())
            && from <= o.created_at_ms && o.created_at_ms <= to;
        if keep {
            r.push(o);
        }
        proof {
            i = i + 1;
        }
    }
    proof {
        assert(all.subrange(0, all.len() as int) =~= all);
    }
    r
}

/// Keeps exactly the completed, non-test-network orders whose maker
/// equals `address` (case-sensitive).
pub fn filter_by_address(orders: Vec<MatchedOrder>, address: &String) -> (r: Vec<MatchedOrder>)
    ensures
        r@ == spec_filter_address(orders@, address@),
{
    let ghost all = orders@;
    let mut rest = orders;
    let mut r: Vec<MatchedOrder> = Vec::new();
    let ghost mut i: int = 0;
    while rest.len() > 0
        invariant
            0 <= i <= all.len(),
            rest@ == all.subrange(i, all.len() as int),
            r@ == spec_filter_address(all.subrange(0, i), address@),
        decreases rest@.len(),
    {
        let o = rest.remove(0);
        proof {
            assert(o == all[i]);
            assert(rest@ =~= all.subrange(i + 1, all.len() as int));
            assert(all.subrange(0, i).push(all[i]) =~= all.subrange(0, i + 1));
            lemma_filter_address_push(all.subrange(0, i), all[i], address@);
        }
        let keep = o.status == STATUS_COMPLETED && !is_testnet(o.order_pair.as_str())
            && o.maker == *address;
        if keep {
            r.push(o);
        }
        proof {
            i = i + 1;
        }
    }
    proof {
        assert(all.subrange(0, all.len() as int) =~= all);
    }
    r
}

/// Some entry of `v` reads `x`.
pub open spec fn spec_has_string(v: Seq<String>, x: Seq<char>) -> bool {
    exists|k: int| 0 <= k < v.len() && (#[trigger] v[k])@ == x
}

/// Some order of `orders` has maker `x`.
pub open spec fn spec_has_maker(orders: Seq<MatchedOrder>, x: Seq<char>) -> bool {
    exists|i: int| 0 <= i < orders.len() && (#[trigger] orders[i]).maker@ == x
}

proof fn lemma_has_string_push(v: Seq<String>, x: String, t: Seq<char>)
    ensures
        spec_has_string(v, t) ==> spec_has_string(v.push(x), t),
{
    if spec_has_string(v, t) {
        let k = choose|k: int| 0 <= k < v.len() && (#[trigger] v[k])@ == t;
        assert(v.push(x)[k]@ == t);
    }
}

fn vec_contains_string(v: &Vec<String>, s: &String) -> (r: bool)
    ensures
        r == spec_has_string(v@, s@),
{
    let mut k: usize = 0;
    while k < v.len()
        invariant
            k <= v.len(),
            forall|j: int| 0 <= j < k ==> (#[trigger] v@[j])@ != s@,
        decreases v.len() - k,
    {
        if v[k] == *s {
            return true;
        }
        k = k + 1;
    }
    false
}

/// The distinct maker addresses of `orders`: every maker appears in the
/// result, nothing else does, and no address appears twice — so one
/// store lookup per entry is exactly one lookup per distinct maker.
pub fn unique_makers(orders: &Vec<MatchedOrder>) -> (r: Vec<String>)
    ensures
        forall|a: int, b: int| 0 <= a < b < r@.len() ==> (#[trigger] r@[a])@ != (#[trigger] r@[b])@,
        forall|i: int| 0 <= i < orders@.len() ==> spec_has_string(r@, (#[trigger] orders@[i]).maker@),
        forall|k: int| 0 <= k < r@.len() ==> spec_has_maker(orders@, (#[trigger] r@[k])@),
{
    let mut r: Vec<String> = Vec::new();
    let mut i: usize = 0;
    while i < orders.len()
        invariant
            i <= orders.len(),
            forall|a: int, b: int|
                0 <= a < b < r@.len() ==> (#[trigger] r@[a])@ != (#[trigger] r@[b])@,
            forall|j: int| 0 <= j < i ==> spec_has_string(r@, (#[trigger] orders@[j]).maker@),
            forall|k: int| 0 <= k < r@.len() ==> spec_has_maker(orders@, (#[trigger] r@[k])@),
        decreases orders.len() - i,
    {
        let m = &orders[i].maker;
        if !vec_contains_string(&r, m) {
            let ghost prev = r@;
            let pushed = m.clone();
            r.push(pushed);
            proof {
                assert(r@[prev.len() as int]@ == orders@[i as int].maker@);
                assert forall|j: int| 0 <= j < i implies spec_has_string(
                    r@,
                    (#[trigger] orders@[j]).maker@,
                ) by {
                    lemma_has_string_push(prev, pushed, orders@[j].maker@);
                };
            }
        }
        i = i + 1;
    }
    r
}

/// The tag list an order of maker `maker` carries after enrichment
/// against the memo `(makers, lookups)`: the looked-up set of the first
/// memo entry for that maker; the order's own (absent) list when the
/// lookup failed or no entry exists.
pub open spec fn spec_new_tags(
    makers: Seq<Seq<char>>,
    lookups: Seq<Option<Seq<Seq<char>>>>,
    maker: Seq<char>,
    old_tags: Option<Seq<Seq<char>>>,
) -> Option<Seq<Seq<char>>>
    decreases makers.len(),
{
    if makers.len() == 0 || makers.len() != lookups.len() {
        old_tags
    } else if makers[0] == maker {
        match lookups[0] {
            Some(ts) => Some(ts),
            None => old_tags,
        }
    } else {
        spec_new_tags(makers.drop_first(), lookups.drop_first(), maker, old_tags)
    }
}

proof fn lemma_new_tags_at(
    makers: Seq<Seq<char>>,
    lookups: Seq<Option<Seq<Seq<char>>>>,
    maker: Seq<char>,
    old_tags: Option<Seq<Seq<char>>>,
    j: int,
)
    requires
        makers.len() == lookups.len(),
        0 <= j < makers.len(),
        makers[j] == maker,
        forall|k: int| 0 <= k < j ==> makers[k] != maker,
    ensures
        spec_new_tags(makers, lookups, maker, old_tags) == match lookups[j] {
            Some(ts) => Some(ts),
            None => old_tags,
        },
    decreases j,
{
    if j > 0 {
        assert(makers.drop_first()[j - 1] == makers[j]);
        assert(forall|k: int|
            0 <= k < j - 1 ==> #[trigger] makers.drop_first()[k] == makers[k + 1]);
        lemma_new_tags_at(makers.drop_first(), lookups.drop_first(), maker, old_tags, j - 1);
        assert(lookups.drop_first()[j - 1] == lookups[j]);
    }
}

proof fn lemma_new_tags_absent(
    makers: Seq<Seq<char>>,
    lookups: Seq<Option<Seq<Seq<char>>>>,
    maker: Seq<char>,
    old_tags: Option<Seq<Seq<char>>>,
)
    requires
        makers.len() == lookups.len(),
        forall|k: int| 0 <= k < makers.len() ==> #[trigger] makers[k] != maker,
    ensures
        spec_new_tags(makers, lookups, maker, old_tags) == old_tags,
    decreases makers.len(),
{
    if makers.len() > 0 {
        assert(forall|k: int|
            0 <= k < makers.len() - 1 ==> #[trigger] makers.drop_first()[k] == makers[k + 1]);
        lemma_new_tags_absent(makers.drop_first(), lookups.drop_first(), maker, old_tags);
    }
}

fn find_maker(makers: &Vec<String>, m: &String) -> (r: Option<usize>)
    ensures
        r matches Some(j) ==> {
            &&& 0 <= j < makers@.len()
            &&& makers@[j as int]@ == m@
            &&& forall|k: int| 0 <= k < j ==> (#[trigger] makers@[k])@ != m@
        },
        r is None ==> forall|k: int| 0 <= k < makers@.len() ==> (#[trigger] makers@[k])@ != m@,
{
    let mut j: usize = 0;
    while j < makers.len()
        invariant
            j <= makers.len(),
            forall|k: int| 0 <= k < j ==> (#[trigger] makers@[k])@ != m@,
        decreases makers.len() - j,
    {
        if makers[j] == *m {
            return Some(j);
        }
        j = j + 1;
    }
    None
}

/// Attaches to each order the tag set its maker was resolved to in the
/// per-request memo: `lookups[j]` is the outcome of the one store
/// lookup for `makers[j]`, with `None` standing for a failed lookup.
/// Every order is returned — a failed or missing lookup leaves that
/// order's tag field as it was and never fails the request.
pub fn attach_tags(
    orders: Vec<MatchedOrder>,
    makers: &Vec<String>,
    lookups: &Vec<Option<Vec<String>>>,
) -> (r: Vec<MatchedOrder>)
    requires
        makers@.len() == lookups@.len(),
    ensures
        r@.len() == orders@.len(),
        forall|i: int|
            0 <= i < orders@.len() ==> {
                &&& same_order_core(#[trigger] r@[i], orders@[i])
                &&& r@[i].tags.deep_view() == spec_new_tags(
                    makers.deep_view(),
                    lookups.deep_view(),
                    orders@[i].maker@,
                    orders@[i].tags.deep_view(),
                )
            },
{
    let ghost all = orders@;
    let mut rest = orders;
    let mut r: Vec<MatchedOrder> = Vec::new();
    let ghost mut i: int = 0;
    while rest.len() > 0
        invariant
            makers@.len() == lookups@.len(),
            0 <= i <= all.len(),
            rest@ == all.subrange(i, all.len() as int),
            r@.len() == i,
            forall|t: int|
                0 <= t < i ==> {
                    &&& same_order_core(#[trigger] r@[t], all[t])
                    &&& r@[t].tags.deep_view() == spec_new_tags(
                        makers.deep_view(),
                        lookups.deep_view(),
                        all[t].maker@,
                        all[t].tags.deep_view(),
                    )
                },
        decreases rest@.len(),
    {
        let mut o = rest.remove(0);
        proof {
            assert(o == all[i]);
            assert(rest@ =~= all.subrange(i + 1, all.len() as int));
            assert(forall|k: int|
                0 <= k < makers@.len() ==> #[trigger] makers.deep_view()[k] == makers@[k]@);
            assert(forall|k: int|
                0 <= k < lookups@.len() ==> #[trigger] lookups.deep_view()[k]
                    == lookups@[k].deep_view());
        }
        match find_maker(makers, &o.maker) {
            Some(j) => {
                proof {
                    lemma_new_tags_at(
                        makers.deep_view(),
                        lookups.deep_view(),
                        o.maker@,
                        o.tags.deep_view(),
                        j as int,
                    );
                }
                match &lookups[j] {
                    Some(ts) => {
                        let copied = copy_tag_list(ts);
                        proof {
                            assert(copied.deep_view() =~= ts.deep_view());
                        }
                        o.tags = Some(copied);
                    },
                    None => {},
                }
            },
            None => {
                proof {
                    lemma_new_tags_absent(
                        makers.deep_view(),
                        lookups.deep_view(),
                        o.maker@,
                        o.tags.deep_view(),
                    );
                }
            },
        }
        r.push(o);
        proof {
            i = i + 1;
        }
    }
    r
}

/// Time-window law: an order whose creation instant equals either
/// bound of the window is included; one strictly outside either bound
/// is excluded.
pub proof fn lemma_time_window_inclusive(o: MatchedOrder, from: i64, to: i64)
    requires
        o.status == STATUS_COMPLETED,
        !spec_is_testnet(o.order_pair@),
    ensures
        o.created_at_ms == from && o.created_at_ms <= to ==> order_passes(o, from, to),
        o.created_at_ms == to && from <= o.created_at_ms ==> order_passes(o, from, to),
        o.created_at_ms < from ==> !order_passes(o, from, to),
        o.created_at_ms > to ==> !order_passes(o, from, to),
{
}

/// Filter law: the window filter keeps exactly the orders passing the
/// predicate — every returned order passes it, and every passing order
/// of the input appears in the result.
pub proof fn lemma_filter_window_exact(orders: Seq<MatchedOrder>, from: i64, to: i64)
    ensures
        forall|k: int|
            0 <= k < spec_filter_window(orders, from, to).len() ==> order_passes(
                #[trigger] spec_filter_window(orders, from, to)[k],
                from,
                to,
            ),
        forall|i: int|
            0 <= i < orders.len() && order_passes(#[trigger] orders[i], from, to)
                ==> spec_filter_window(orders, from, to).contains(orders[i]),
    decreases orders.len(),
{
    if orders.len() > 0 {
        lemma_filter_window_exact(orders.drop_last(), from, to);
        let rest = spec_filter_window(orders.drop_last(), from, to);
        let whole = spec_filter_window(orders, from, to);
        assert(forall|i: int|
            0 <= i < orders.len() - 1 ==> #[trigger] orders[i] == orders.drop_last()[i]);
        assert(forall|x: MatchedOrder| rest.contains(x) ==> whole.contains(x)) by {
            assert(forall|k: int|
                0 <= k < rest.len() ==> #[trigger] rest[k] == whole[k] && whole.contains(whole[k]));
        };
        if order_passes(orders.last(), from, to) {
            assert(whole[whole.len() - 1] == orders.last());
            assert(whole.contains(orders.last()));
        }
    }
}

/// The inclusive time window of a request: each missing bound defaults
/// to the widest representable instant on its side.
pub fn window_or_default(from: Option<i64>, to: Option<i64>) -> (r: (i64, i64))
    ensures
        r.0 == match from {
            Some(f) => f,
            None => i64::MIN,
        },
        r.1 == match to {
            Some(t) => t,
            None => i64::MAX,
        },
{
    let f = match from {
        Some(f) => f,
        None => i64::MIN,
    };
    let t = match to {
        Some(t) => t,
        None => i64::MAX,
    };
    (f, t)
}

} // verus!

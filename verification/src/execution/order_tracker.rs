//! The lifecycle of orders: each order is tracked by its id and updated
//! from the exchange's order events, averaging the fill price over fills.
use crate::common::time::now_ms;
use crate::common::types::{OrderResponse, OrderStatus, Side, Symbol};
use crate::decimal::{
    add_ok, dadd, ddiv, div_ok, dmul, mul_ok, product_in_range, quotient_in_range, sum_in_range, zero_dec, Dec,
};
use dashmap::DashMap;
use std::collections::hash_map::RandomState;
use vstd::prelude::*;

verus! {

#[verifier::external_type_specification]
#[verifier::external_body]
#[verifier::reject_recursive_types(K)]
#[verifier::reject_recursive_types(V)]
#[verifier::reject_recursive_types(S)]
pub struct ExDashMap<K, V, S>(DashMap<K, V, S>);

/// A locally tracked order with its fill state.
#[derive(Debug)]
pub struct ManagedOrder {
    pub order_id: String,
    pub symbol: Symbol,
    pub side: Side,
    pub price: Option<Dec>,
    pub quantity: Dec,
    pub status: OrderStatus,
    pub created_at: u64,
    pub fill_quantity: Dec,
    pub avg_fill_price: Dec,
}

/// A tracked order as plain data.
pub struct ManagedOrderView {
    pub order_id: Seq<char>,
    pub symbol: Seq<char>,
    pub side: Side,
    pub price: Option<Dec>,
    pub quantity: Dec,
    pub status: OrderStatus,
    pub created_at: u64,
    pub fill_quantity: Dec,
    pub avg_fill_price: Dec,
}

impl View for ManagedOrder {
    type V = ManagedOrderView;

    open spec fn view(&self) -> ManagedOrderView {
        ManagedOrderView {
            order_id: self.order_id@,
            symbol: self.symbol@,
            side: self.side,
            price: self.price,
            quantity: self.quantity,
            status: self.status,
            created_at: self.created_at,
            fill_quantity: self.fill_quantity,
            avg_fill_price: self.avg_fill_price,
        }
    }
}

impl Clone for ManagedOrder {
    fn clone(&self) -> (r: Self)
        ensures
            r@ == self@,
    {
        ManagedOrder {
            order_id: self.order_id.clone(),
            symbol: self.symbol.clone(),
            side: self.side,
            price: self.price,
            quantity: self.quantity,
            status: self.status,
            created_at: self.created_at,
            fill_quantity: self.fill_quantity,
            avg_fill_price: self.avg_fill_price,
        }
    }
}

/// A terminal status: filled, canceled, rejected or expired.
pub open spec fn is_terminal_status(s: OrderStatus) -> bool {
    s == OrderStatus::Filled || s == OrderStatus::Canceled || s == OrderStatus::Rejected || s
        == OrderStatus::Expired
}

/// An open status: new or partially filled.
pub open spec fn is_open_status(s: OrderStatus) -> bool {
    s == OrderStatus::New || s == OrderStatus::PartiallyFilled
}

impl ManagedOrder {
    /// Whether the order is in a terminal state.
    pub fn is_terminal(&self) -> (r: bool)
        ensures
            r == is_terminal_status(self.status),
    {
        match self.status {
            OrderStatus::Filled | OrderStatus::Canceled | OrderStatus::Rejected
            | OrderStatus::Expired => true,
            _ => false,
        }
    }

    /// Whether the order still has unfilled quantity.
    pub fn is_open(&self) -> (r: bool)
        ensures
            r == is_open_status(self.status),
    {
        match self.status {
            OrderStatus::New | OrderStatus::PartiallyFilled => true,
            _ => false,
        }
    }
}

/// The concurrent map that holds the tracked orders by id.
pub type OrderMap = DashMap<String, ManagedOrder, RandomState>;

/// The orders held in a tracker's map, by order id.
pub uninterp spec fn tracked_orders(m: OrderMap) -> Map<Seq<char>, ManagedOrderView>;

/// No orders at all.
pub open spec fn no_orders() -> Map<Seq<char>, ManagedOrderView> {
    Map::empty()
}

/// `DashMap::new`: an empty map.
#[verifier::external_body]
fn map_new() -> (r: OrderMap)
    ensures
        tracked_orders(r) == no_orders(),
{
    DashMap::new()
}

/// `DashMap::get` followed by a clone of the value: the order under `id`.
#[verifier::external_body]
fn map_get(m: &OrderMap, id: &str) -> (r: Option<ManagedOrder>)
    ensures
        match r {
            Some(o) => tracked_orders(*m).contains_key(id@) && o@ == tracked_orders(*m)[id@],
            None => !tracked_orders(*m).contains_key(id@),
        },
{
    m.get(id).map(|entry| entry.value().clone())
}

/// `DashMap::insert`: `order` is stored under `id`, replacing any order
/// there.
#[verifier::external_body]
fn map_insert(m: &mut OrderMap, id: String, order: ManagedOrder)
    ensures
        tracked_orders(*final(m)) == tracked_orders(*old(m)).insert(id@, order@),
{
    m.insert(id, order);
}

/// `DashMap::len`: the number of orders.
#[verifier::external_body]
fn map_len(m: &OrderMap) -> (r: usize)
    ensures
        r == tracked_orders(*m).len(),
{
    m.len()
}

/// `DashMap::iter` with each key and value cloned. The iterator walks the
/// shards in turn and each shard's table once, so every entry comes out
/// exactly once, in an order that the map's hashing decides.
#[verifier::external_body]
fn map_entries(m: &OrderMap) -> (r: Vec<(String, ManagedOrder)>)
    ensures
        r@.len() == tracked_orders(*m).len(),
        forall|i: int|
            0 <= i < r@.len() ==> tracked_orders(*m).contains_key((#[trigger] r@[i]).0@)
                && r@[i].1@ == tracked_orders(*m)[r@[i].0@],
        forall|i: int, j: int| 0 <= i < j < r@.len() ==> (#[trigger] r@[i]).0@ != (#[trigger] r@[j]).0@,
        forall|k: Seq<char>| #[trigger] tracked_orders(*m).contains_key(k) ==> has_key(r@, k),
{
    m.iter().map(|entry| (entry.key().clone(), entry.value().clone())).collect()
}

/// Whether some entry of `es` has key `k`.
pub open spec fn has_key(es: Seq<(String, ManagedOrder)>, k: Seq<char>) -> bool {
    exists|i: int| 0 <= i < es.len() && (#[trigger] es[i]).0@ == k
}

/// Whether some order of `r` has id `k`.
pub open spec fn lists_id(r: Seq<ManagedOrder>, k: Seq<char>) -> bool {
    exists|i: int| 0 <= i < r.len() && (#[trigger] r[i])@.order_id == k
}

/// No two orders of `r` have the same id.
pub open spec fn distinct_ids(r: Seq<ManagedOrder>) -> bool {
    forall|i: int, j: int| 0 <= i < j < r.len() ==> (#[trigger] r[i])@.order_id != (#[trigger] r[j])@.order_id
}

/// Whether an order is open and older than `max_age_ms` at time `now`.
pub open spec fn is_stale(o: ManagedOrderView, max_age_ms: u64, now: u64) -> bool {
    is_open_status(o.status) && order_age(now, o.created_at) > max_age_ms
}

/// The age of an order created at `created` as seen at `now`, in ms; a
/// creation time after `now` wraps around as `u64` subtraction does.
pub open spec fn order_age(now: u64, created: u64) -> int {
    if now >= created {
        now - created
    } else {
        now - created + 0x1_0000_0000_0000_0000
    }
}

/// Whether a terminal order is older than `max_age_ms` at time `now`
/// (ages wrap around as `u64` subtraction does).
pub open spec fn prunable(o: ManagedOrderView, now: u64, max_age_ms: u64) -> bool {
    is_terminal_status(o.status) && order_age(now, o.created_at) > max_age_ms
}

/// The orders that stay after pruning at time `now`.
pub open spec fn pruned(orders: Map<Seq<char>, ManagedOrderView>, now: u64, max_age_ms: u64) -> Map<
    Seq<char>,
    ManagedOrderView,
> {
    orders.restrict(
        Set::new(|k: Seq<char>| orders.contains_key(k) && !prunable(orders[k], now, max_age_ms)),
    )
}

fn keep_order(o: &ManagedOrder, now: u64, max_age_ms: u64) -> (r: bool)
    ensures
        r == !prunable(o@, now, max_age_ms),
{
    !(o.is_terminal() && now.wrapping_sub(o.created_at) > max_age_ms)
}

/// `DashMap::retain`: only the orders for which `keep_order` holds stay.
#[verifier::external_body]
fn map_prune(m: &mut OrderMap, now: u64, max_age_ms: u64)
    ensures
        tracked_orders(*final(m)) == pruned(tracked_orders(*old(m)), now, max_age_ms),
{
    m.retain(|_, o| keep_order(o, now, max_age_ms));
}

/// Whether applying update `u` to order `e` stays within range.
fn order_update_fits(e: &ManagedOrder, u: &OrderResponse) -> (r: bool)
    ensures
        r == update_fits(e@, *u),
{
    if !((u.status == OrderStatus::Filled || u.status == OrderStatus::PartiallyFilled) && u.price.is_some()) {
        return true;
    }
    let fill_price = match u.price {
        Some(p) => p,
        None => return true,
    };
    if !product_in_range(&e.avg_fill_price, &e.fill_quantity) || !product_in_range(&fill_price, &u.quantity) {
        return false;
    }
    let old_value = e.avg_fill_price.times(&e.fill_quantity);
    let new_value = fill_price.times(&u.quantity);
    if !sum_in_range(&old_value, &new_value) || !sum_in_range(&e.fill_quantity, &u.quantity) {
        return false;
    }
    let total = e.fill_quantity.plus(&u.quantity);
    if total.is_zero() {
        return true;
    }
    let value = old_value.plus(&new_value);
    quotient_in_range(&value, &total)
}

/// The order after an exchange update: the status follows the update; a
/// fill update with a price adds its quantity and re-averages the fill
/// price (when the new total is not zero).
pub open spec fn order_updated(o: ManagedOrderView, u: OrderResponse) -> ManagedOrderView {
    if (u.status == OrderStatus::Filled || u.status == OrderStatus::PartiallyFilled) && u.price is Some {
        let fill_price = u.price.unwrap();
        let total = dadd(o.fill_quantity, u.quantity);
        ManagedOrderView {
            status: u.status,
            fill_quantity: total,
            avg_fill_price: if total@ != 0 {
                ddiv(dadd(dmul(o.avg_fill_price, o.fill_quantity), dmul(fill_price, u.quantity)), total)
            } else {
                o.avg_fill_price
            },
            ..o
        }
    } else {
        ManagedOrderView { status: u.status, ..o }
    }
}

/// The averaging of an update stays within range.
pub open spec fn update_fits(o: ManagedOrderView, u: OrderResponse) -> bool {
    (u.status == OrderStatus::Filled || u.status == OrderStatus::PartiallyFilled) && u.price is Some ==> {
        let fill_price = u.price.unwrap();
        let total = dadd(o.fill_quantity, u.quantity);
        &&& mul_ok(o.avg_fill_price, o.fill_quantity)
        &&& mul_ok(fill_price, u.quantity)
        &&& add_ok(dmul(o.avg_fill_price, o.fill_quantity), dmul(fill_price, u.quantity))
        &&& add_ok(o.fill_quantity, u.quantity)
        &&& total@ != 0 ==> div_ok(
            dadd(dmul(o.avg_fill_price, o.fill_quantity), dmul(fill_price, u.quantity)),
            total,
        )
    }
}

/// A newly seen order, tracked from an update: nothing filled yet.
pub open spec fn new_order(u: OrderResponse) -> ManagedOrderView {
    ManagedOrderView {
        order_id: u.order_id@,
        symbol: u.symbol@,
        side: u.side,
        price: u.price,
        quantity: u.quantity,
        status: u.status,
        created_at: u.timestamp_ms,
        fill_quantity: zero_dec(),
        avg_fill_price: zero_dec(),
    }
}

/// `r` lists, each once and in no particular order, exactly the tracked
/// orders that are open and older than `max_age_ms` at time `now` (ages
/// wrap around as `u64` subtraction does).
pub open spec fn stale_among(
    orders: Map<Seq<char>, ManagedOrderView>,
    max_age_ms: u64,
    now: u64,
    r: Seq<ManagedOrder>,
) -> bool {
    selection(orders, true, max_age_ms, now, r)
}

/// Whether an order is selected: open, and when `only_stale` also older
/// than `max_age_ms` at time `now`.
pub open spec fn wanted(o: ManagedOrderView, only_stale: bool, max_age_ms: u64, now: u64) -> bool {
    if only_stale {
        is_stale(o, max_age_ms, now)
    } else {
        is_open_status(o.status)
    }
}

/// `r` lists, each once and in no particular order, exactly the tracked
/// orders that are selected.
pub open spec fn selection(
    orders: Map<Seq<char>, ManagedOrderView>,
    only_stale: bool,
    max_age_ms: u64,
    now: u64,
    r: Seq<ManagedOrder>,
) -> bool {
    &&& forall|i: int|
        0 <= i < r.len() ==> wanted((#[trigger] r[i])@, only_stale, max_age_ms, now)
            && orders.contains_key(r[i]@.order_id) && orders[r[i]@.order_id] == r[i]@
    &&& distinct_ids(r)
    &&& forall|k: Seq<char>|
        #[trigger] orders.contains_key(k) && wanted(orders[k], only_stale, max_age_ms, now)
            ==> lists_id(r, k)
}

/// Whether one of the first `n` entries has key `k`.
pub open spec fn key_among_first(es: Seq<(String, ManagedOrder)>, n: int, k: Seq<char>) -> bool {
    exists|m: int| 0 <= m < n && (#[trigger] es[m]).0@ == k
}

/// Every order is stored under its own id.
pub open spec fn keyed_by_id(m: Map<Seq<char>, ManagedOrderView>) -> bool {
    forall|k: Seq<char>| #[trigger] m.contains_key(k) ==> m[k].order_id == k
}

/// Tracks the lifecycle of all orders, updated from exchange events.
pub struct OrderTracker {
    orders: OrderMap,
}

impl OrderTracker {
    /// The tracked orders by id.
    pub closed spec fn orders(&self) -> Map<Seq<char>, ManagedOrderView> {
        tracked_orders(self.orders)
    }

    pub closed spec fn wf(&self) -> bool {
        keyed_by_id(self.orders())
    }

    /// A tracker with no orders.
    pub fn new() -> (r: Self)
        ensures
            r.wf(),
            r.orders() == Map::<Seq<char>, ManagedOrderView>::empty(),
    {
        OrderTracker { orders: map_new() }
    }

    /// Whether applying `update` to the order it names stays within range
    /// (the condition of `on_order_update`).
    pub fn update_fits_now(&self, update: &OrderResponse) -> (r: bool)
        ensures
            r == (self.orders().contains_key(update.order_id@) ==> update_fits(
                self.orders()[update.order_id@],
                *update,
            )),
    {
        match map_get(&self.orders, update.order_id.as_str()) {
            Some(e) => order_update_fits(&e, update),
            None => true,
        }
    }

    /// Applies an order update when its arithmetic stays within range: then
    /// as `on_order_update` and `true`; otherwise nothing changes and `false`.
    pub fn try_on_order_update(&mut self, update: OrderResponse) -> (r: bool)
        requires
            old(self).wf(),
        ensures
            final(self).wf(),
            r == (old(self).orders().contains_key(update.order_id@) ==> update_fits(
                old(self).orders()[update.order_id@],
                update,
            )),
            !r ==> final(self).orders() == old(self).orders(),
            r ==> final(self).orders() == old(self).orders().insert(
                update.order_id@,
                if old(self).orders().contains_key(update.order_id@) {
                    order_updated(old(self).orders()[update.order_id@], update)
                } else {
                    new_order(update)
                },
            ),
    {
        if self.update_fits_now(&update) {
            self.on_order_update(update);
            true
        } else {
            false
        }
    }

    /// Applies an order update from the exchange: a known order takes the
    /// update's status (and fill, for fills with a price); an unknown order
    /// starts being tracked.
    pub fn on_order_update(&mut self, update: OrderResponse)
        requires
            old(self).wf(),
            old(self).orders().contains_key(update.order_id@) ==> update_fits(
                old(self).orders()[update.order_id@],
                update,
            ),
        ensures
            final(self).wf(),
            final(self).orders() == old(self).orders().insert(
                update.order_id@,
                if old(self).orders().contains_key(update.order_id@) {
                    order_updated(old(self).orders()[update.order_id@], update)
                } else {
                    new_order(update)
                },
            ),
    {
        let order_id = update.order_id.clone();
        match map_get(&self.orders, order_id.as_str()) {
            Some(entry) => {
                let mut e = entry;
                e.status = update.status;
                if update.status == OrderStatus::Filled || update.status == OrderStatus::PartiallyFilled {
                    match update.price {
                        Some(fill_price) => {
                            let old_value = e.avg_fill_price.times(&e.fill_quantity);
                            let new_value = fill_price.times(&update.quantity);
                            let total = e.fill_quantity.plus(&update.quantity);
                            if !total.is_zero() {
                                e.avg_fill_price = old_value.plus(&new_value).divided_by(&total);
                            }
                            e.fill_quantity = total;
                        },
                        None => {},
                    }
                }
                map_insert(&mut self.orders, order_id, e);
            },
            None => {
                let managed = ManagedOrder {
                    order_id: order_id.clone(),
                    symbol: update.symbol,
                    side: update.side,
                    price: update.price,
                    quantity: update.quantity,
                    status: update.status,
                    created_at: update.timestamp_ms,
                    fill_quantity: Dec::zero(),
                    avg_fill_price: Dec::zero(),
                };
                map_insert(&mut self.orders, order_id, managed);
            },
        }
    }

    /// The orders that are still open, each once, in no particular order.
    pub fn open_orders(&self) -> (r: Vec<ManagedOrder>)
        requires
            self.wf(),
        ensures
            selection(self.orders(), false, 0, 0, r@),
    {
        self.select_orders(false, 0, 0)
    }

    /// The open orders older than `max_age_ms` at time `now` (ages wrap
    /// around as `u64` subtraction does), each once, for cancellation.
    pub fn stale_orders_at(&self, max_age_ms: u64, now: u64) -> (r: Vec<ManagedOrder>)
        requires
            self.wf(),
        ensures
            stale_among(self.orders(), max_age_ms, now, r@),
    {
        self.select_orders(true, max_age_ms, now)
    }

    /// The open orders, or with `only_stale` the stale ones.
    fn select_orders(&self, only_stale: bool, max_age_ms: u64, now: u64) -> (r: Vec<ManagedOrder>)
        requires
            self.wf(),
        ensures
            selection(self.orders(), only_stale, max_age_ms, now, r@),
    {
        let all = map_entries(&self.orders);
        let ghost es = all@;
        let ghost orders = self.orders();
        let mut out: Vec<ManagedOrder> = Vec::new();
        let mut i: usize = 0;
        while i < all.len()
            invariant
                es == all@,
                orders == self.orders(),
                orders == tracked_orders(self.orders),
                i <= es.len(),
                keyed_by_id(orders),
                forall|m: int|
                    0 <= m < es.len() ==> orders.contains_key((#[trigger] es[m]).0@) && es[m].1@
                        == orders[es[m].0@],
                forall|m: int, n: int| 0 <= m < n < es.len() ==> (#[trigger] es[m]).0@ != (#[trigger] es[n]).0@,
                forall|j: int|
                    0 <= j < out@.len() ==> wanted((#[trigger] out@[j])@, only_stale, max_age_ms, now)
                        && orders.contains_key(out@[j]@.order_id) && orders[out@[j]@.order_id]
                        == out@[j]@ && key_among_first(es, i as int, out@[j]@.order_id),
                distinct_ids(out@),
                forall|m: int|
                    0 <= m < i && wanted((#[trigger] es[m]).1@, only_stale, max_age_ms, now) ==> lists_id(
                        out@,
                        es[m].0@,
                    ),
            decreases es.len() - i,
        {
            let o = &all[i].1;
            let pick = if only_stale {
                o.is_open() && now.wrapping_sub(o.created_at) > max_age_ms
            } else {
                o.is_open()
            };
            if pick {
                let c = o.clone();
                let ghost before = out@;
                proof {
                    assert(es[i as int].1@ == orders[es[i as int].0@]);
                    assert(orders[es[i as int].0@].order_id == es[i as int].0@);
                }
                out.push(c);
                proof {
                    assert(out@[before.len() as int] == c);
                    assert forall|j: int| 0 <= j < out@.len() implies wanted(
                        (#[trigger] out@[j])@,
                        only_stale,
                        max_age_ms,
                        now,
                    ) && orders.contains_key(out@[j]@.order_id) && orders[out@[j]@.order_id]
                        == out@[j]@ && key_among_first(es, i + 1, out@[j]@.order_id) by {
                        if j < before.len() {
                            assert(out@[j] == before[j]);
                            let m = choose|m: int| 0 <= m < i && (#[trigger] es[m]).0@ == before[j]@.order_id;
                            assert(es[m].0@ == out@[j]@.order_id);
                        } else {
                            assert(es[i as int].0@ == out@[j]@.order_id);
                        }
                    }
                    assert forall|a: int, b: int| 0 <= a < b < out@.len() implies (#[trigger] out@[a])@.order_id
                        != (#[trigger] out@[b])@.order_id by {
                        assert(out@[a] == before[a]);
                        if b < before.len() {
                            assert(out@[b] == before[b]);
                        } else {
                            let m = choose|m: int| 0 <= m < i && (#[trigger] es[m]).0@ == before[a]@.order_id;
                            assert(es[m].0@ != es[i as int].0@);
                        }
                    }
                    assert forall|m: int|
                        0 <= m < i + 1 && wanted((#[trigger] es[m]).1@, only_stale, max_age_ms, now) implies lists_id(
                        out@,
                        es[m].0@,
                    ) by {
                        if m < i {
                            let j = choose|j: int| 0 <= j < before.len() && (#[trigger] before[j])@.order_id == es[m].0@;
                            assert(out@[j] == before[j]);
                        } else {
                            assert(out@[before.len() as int]@.order_id == es[m].0@);
                        }
                    }
                }
            } else {
                proof {
                    assert forall|j: int| 0 <= j < out@.len() implies key_among_first(
                        es,
                        i + 1,
                        (#[trigger] out@[j])@.order_id,
                    ) by {
                        let m = choose|m: int| 0 <= m < i && (#[trigger] es[m]).0@ == out@[j]@.order_id;
                    }
                }
            }
            i = i + 1;
        }
        proof {
            assert forall|k: Seq<char>|
                #[trigger] orders.contains_key(k) && wanted(orders[k], only_stale, max_age_ms, now) implies lists_id(
                out@,
                k,
            ) by {
                assert(has_key(es, k));
                let m = choose|m: int| 0 <= m < es.len() && (#[trigger] es[m]).0@ == k;
                assert(es[m].1@ == orders[k]);
            }
        }
        out
    }

    /// The open orders older than `max_age_ms` now.
    pub fn cancel_stale_orders(&self, max_age_ms: u64) -> (r: Vec<ManagedOrder>)
        requires
            self.wf(),
        ensures
            exists|now: u64| #[trigger] stale_among(self.orders(), max_age_ms, now, r@),
    {
        let now = now_ms();
        self.stale_orders_at(max_age_ms, now)
    }

    /// The order with the given id.
    pub fn get(&self, order_id: &str) -> (r: Option<ManagedOrder>)
        ensures
            match r {
                Some(o) => self.orders().contains_key(order_id@) && o@ == self.orders()[order_id@],
                None => !self.orders().contains_key(order_id@),
            },
    {
        map_get(&self.orders, order_id)
    }

    /// The number of tracked orders (all states).
    pub fn len(&self) -> (r: usize)
        ensures
            r == self.orders().len(),
    {
        map_len(&self.orders)
    }

    /// Whether no order is tracked.
    pub fn is_empty(&self) -> (r: bool)
        ensures
            r == (self.orders().len() == 0),
    {
        map_len(&self.orders) == 0
    }

    /// Drops the terminal orders older than `max_age_ms` at time `now`.
    pub fn prune_terminal_at(&mut self, max_age_ms: u64, now: u64)
        requires
            old(self).wf(),
        ensures
            final(self).wf(),
            final(self).orders() == pruned(old(self).orders(), now, max_age_ms),
    {
        map_prune(&mut self.orders, now, max_age_ms);
    }

    /// Drops the terminal orders older than `max_age_ms` now.
    pub fn prune_terminal(&mut self, max_age_ms: u64)
        requires
            old(self).wf(),
        ensures
            final(self).wf(),
            exists|now: u64| #[trigger] pruned(old(self).orders(), now, max_age_ms) == final(self).orders(),
    {
        let now = now_ms();
        self.prune_terminal_at(max_age_ms, now);
    }
}

impl Default for OrderTracker {
    fn default() -> (r: Self)
        ensures
            r.wf(),
            r.orders() == Map::<Seq<char>, ManagedOrderView>::empty(),
    {
        Self::new()
    }
}

} // verus!
